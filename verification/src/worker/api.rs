//! Requests to the worker, what they are answered with, and the options of both.
use crate::color::ColorImage;
use crate::source::{BookSnapshot, PageId};
use crate::state::{CpuScaleFilter, DecoderPreferences};
use std::sync::Arc;
use vstd::prelude::*;

verus! {

/// The longest edge that an image may have.
pub const MAX_IMAGE_DIMENSION: u32 = 20_000;

/// The most bytes that a page may take as RGBA.
pub const MAX_DECODED_PAGE_BYTES: usize = 268_435_456;

/// The worker's own cache of prepared pages, unless the request says otherwise.
pub const WORKER_CACHE_BYTES: usize = 50_331_648;

/// The smallest cache that a request can ask for.
pub const MIN_WORKER_CACHE_BYTES: usize = 8_388_608;

pub const DEFAULT_TARGET_LONG_EDGE: u32 = 2048;

pub const MIN_TARGET_LONG_EDGE: u32 = 1024;

pub const MAX_TARGET_LONG_EDGE: u32 = 4096;

pub const MAX_ORIGINAL_TARGET_LONG_EDGE: u32 = 20_000;

pub const PREVIEW_TARGET_LONG_EDGE: u32 = 1024;

pub const FULL_QUALITY_PREFETCH_FORWARD_PAGES: usize = 12;

pub const FULL_QUALITY_PREFETCH_BACKWARD_PAGES: usize = 1;

pub const PREVIEW_PREFETCH_FORWARD_PAGES: usize = 24;

pub const PREVIEW_PREFETCH_BACKWARD_PAGES: usize = 2;

#[derive(Debug, Clone, Copy, PartialEq, Eq, Structural)]
pub enum NavigationDirection {
    Forward,
    Backward,
}

/// What a target size is wanted for.
#[derive(Debug, Clone, Copy, PartialEq, Eq, Hash, Structural)]
pub enum PreparedTargetIntent {
    NormalNavigation,
    LargeFitDisplay,
    OriginalInspection,
}

impl PreparedTargetIntent {
    pub fn is_original_inspection(self) -> (original: bool)
        ensures
            original == (self == PreparedTargetIntent::OriginalInspection),
    {
        matches!(self, PreparedTargetIntent::OriginalInspection)
    }

    /// Whether only the visible pages are prepared at the exact target.
    pub fn keeps_exact_prefetch_lightweight(self) -> (lightweight: bool)
        ensures
            lightweight == (self != PreparedTargetIntent::NormalNavigation),
    {
        matches!(self, PreparedTargetIntent::LargeFitDisplay | PreparedTargetIntent::OriginalInspection)
    }
}

/// What a requested edge is limited to.
pub open spec fn clamped_target(target_long_edge: u32) -> u32 {
    if target_long_edge < MIN_TARGET_LONG_EDGE {
        MIN_TARGET_LONG_EDGE
    } else if target_long_edge > MAX_ORIGINAL_TARGET_LONG_EDGE {
        MAX_ORIGINAL_TARGET_LONG_EDGE
    } else {
        target_long_edge
    }
}

/// A requested edge within the limits stays as it is, one below them becomes the least and one beyond
/// them the greatest. So what is limited keeps its order, and limiting it again changes nothing.
pub proof fn targets_are_brought_within_their_limits(one: u32, other: u32)
    ensures
        1024 <= clamped_target(one) <= 20_000,
        1024 <= one <= 20_000 ==> clamped_target(one) == one,
        one <= 1024 ==> clamped_target(one) == 1024,
        one >= 20_000 ==> clamped_target(one) == 20_000,
        one <= other ==> clamped_target(one) <= clamped_target(other),
        clamped_target(clamped_target(one)) == clamped_target(one),
{
}

pub fn clamp_target_long_edge(target_long_edge: u32) -> (clamped: u32)
    ensures
        clamped == clamped_target(target_long_edge),
{
    if target_long_edge < MIN_TARGET_LONG_EDGE {
        MIN_TARGET_LONG_EDGE
    } else if target_long_edge > MAX_ORIGINAL_TARGET_LONG_EDGE {
        MAX_ORIGINAL_TARGET_LONG_EDGE
    } else {
        target_long_edge
    }
}

pub fn clamp_navigation_target_long_edge(target_long_edge: u32) -> (clamped: u32)
    ensures
        clamped == if target_long_edge < MIN_TARGET_LONG_EDGE {
            MIN_TARGET_LONG_EDGE
        } else if target_long_edge > MAX_TARGET_LONG_EDGE {
            MAX_TARGET_LONG_EDGE
        } else {
            target_long_edge
        },
{
    if target_long_edge < MIN_TARGET_LONG_EDGE {
        MIN_TARGET_LONG_EDGE
    } else if target_long_edge > MAX_TARGET_LONG_EDGE {
        MAX_TARGET_LONG_EDGE
    } else {
        target_long_edge
    }
}

/// Whether a target is beyond what is shown while turning pages.
pub fn is_original_inspection_target(target_long_edge: u32) -> (original: bool)
    ensures
        original == (target_long_edge > MAX_TARGET_LONG_EDGE),
{
    clamp_target_long_edge(target_long_edge) > MAX_TARGET_LONG_EDGE
}

/// The decoder that a page came from.
#[derive(Debug, Clone, Copy, PartialEq, Eq, Structural)]
pub enum DecodeBackend {
    ImageCrate,
    JpegScaled,
    BmpSampled,
    GifSampled,
    PngSampled,
    PngExactRows,
    ZuneJpeg,
    PngCrate,
    ZunePng,
    ImageWebp,
    LibWebp,
    LibWebpScaled,
    GifCrate,
    BmpFastPath,
    IcoFastPath,
    LibAvifDav1d,
    ZunePsd,
    PdfiumAi,
}

impl DecodeBackend {
    /// Whether the decoder yields a page smaller than the original.
    pub fn is_sampled_or_scaled_prepare(self) -> (reduced: bool)
        ensures
            reduced == (self == DecodeBackend::JpegScaled || self == DecodeBackend::BmpSampled
                || self == DecodeBackend::GifSampled || self == DecodeBackend::PngSampled || self
                == DecodeBackend::LibWebpScaled),
    {
        matches!(
            self,
            DecodeBackend::JpegScaled
                | DecodeBackend::BmpSampled
                | DecodeBackend::GifSampled
                | DecodeBackend::PngSampled
                | DecodeBackend::LibWebpScaled
        )
    }

    /// The decoder's name in messages.
    pub open spec fn label_spec(self) -> Seq<char> {
        match self {
            DecodeBackend::ImageCrate => "image crate"@,
            DecodeBackend::JpegScaled => "JPEG scaled"@,
            DecodeBackend::BmpSampled => "BMP sampled"@,
            DecodeBackend::GifSampled => "GIF sampled"@,
            DecodeBackend::PngSampled => "PNG sampled"@,
            DecodeBackend::PngExactRows => "PNG exact rows"@,
            DecodeBackend::ZuneJpeg => "zune JPEG"@,
            DecodeBackend::PngCrate => "png crate"@,
            DecodeBackend::ZunePng => "zune PNG"@,
            DecodeBackend::ImageWebp => "image-webp"@,
            DecodeBackend::LibWebp => "libwebp"@,
            DecodeBackend::LibWebpScaled => "libwebp scaled"@,
            DecodeBackend::GifCrate => "gif crate"@,
            DecodeBackend::BmpFastPath => "BMP fast path"@,
            DecodeBackend::IcoFastPath => "ICO fast path"@,
            DecodeBackend::LibAvifDav1d => "libavif dav1d"@,
            DecodeBackend::ZunePsd => "zune PSD"@,
            DecodeBackend::PdfiumAi => "pdfium AI"@,
        }
    }

    pub fn label(self) -> (label: &'static str)
        ensures
            label@ == self.label_spec(),
    {
        match self {
            DecodeBackend::ImageCrate => "image crate",
            DecodeBackend::JpegScaled => "JPEG scaled",
            DecodeBackend::BmpSampled => "BMP sampled",
            DecodeBackend::GifSampled => "GIF sampled",
            DecodeBackend::PngSampled => "PNG sampled",
            DecodeBackend::PngExactRows => "PNG exact rows",
            DecodeBackend::ZuneJpeg => "zune JPEG",
            DecodeBackend::PngCrate => "png crate",
            DecodeBackend::ZunePng => "zune PNG",
            DecodeBackend::ImageWebp => "image-webp",
            DecodeBackend::LibWebp => "libwebp",
            DecodeBackend::LibWebpScaled => "libwebp scaled",
            DecodeBackend::GifCrate => "gif crate",
            DecodeBackend::BmpFastPath => "BMP fast path",
            DecodeBackend::IcoFastPath => "ICO fast path",
            DecodeBackend::LibAvifDav1d => "libavif dav1d",
            DecodeBackend::ZunePsd => "zune PSD",
            DecodeBackend::PdfiumAi => "pdfium AI",
        }
    }

    /// The decoder's name in reports.
    pub open spec fn as_str_spec(self) -> Seq<char> {
        match self {
            DecodeBackend::ImageCrate => "image-crate"@,
            DecodeBackend::JpegScaled => "jpeg-scaled"@,
            DecodeBackend::BmpSampled => "bmp-sampled"@,
            DecodeBackend::GifSampled => "gif-sampled"@,
            DecodeBackend::PngSampled => "png-sampled"@,
            DecodeBackend::PngExactRows => "png-exact-rows"@,
            DecodeBackend::ZuneJpeg => "zune-jpeg"@,
            DecodeBackend::PngCrate => "png-crate"@,
            DecodeBackend::ZunePng => "zune-png"@,
            DecodeBackend::ImageWebp => "image-webp"@,
            DecodeBackend::LibWebp => "libwebp"@,
            DecodeBackend::LibWebpScaled => "libwebp-scaled"@,
            DecodeBackend::GifCrate => "gif-crate"@,
            DecodeBackend::BmpFastPath => "bmp-fast"@,
            DecodeBackend::IcoFastPath => "ico-fast"@,
            DecodeBackend::LibAvifDav1d => "libavif-dav1d"@,
            DecodeBackend::ZunePsd => "zune-psd"@,
            DecodeBackend::PdfiumAi => "pdfium-ai"@,
        }
    }

    pub fn as_str(self) -> (name: &'static str)
        ensures
            name@ == self.as_str_spec(),
    {
        match self {
            DecodeBackend::ImageCrate => "image-crate",
            DecodeBackend::JpegScaled => "jpeg-scaled",
            DecodeBackend::BmpSampled => "bmp-sampled",
            DecodeBackend::GifSampled => "gif-sampled",
            DecodeBackend::PngSampled => "png-sampled",
            DecodeBackend::PngExactRows => "png-exact-rows",
            DecodeBackend::ZuneJpeg => "zune-jpeg",
            DecodeBackend::PngCrate => "png-crate",
            DecodeBackend::ZunePng => "zune-png",
            DecodeBackend::ImageWebp => "image-webp",
            DecodeBackend::LibWebp => "libwebp",
            DecodeBackend::LibWebpScaled => "libwebp-scaled",
            DecodeBackend::GifCrate => "gif-crate",
            DecodeBackend::BmpFastPath => "bmp-fast",
            DecodeBackend::IcoFastPath => "ico-fast",
            DecodeBackend::LibAvifDav1d => "libavif-dav1d",
            DecodeBackend::ZunePsd => "zune-psd",
            DecodeBackend::PdfiumAi => "pdfium-ai",
        }
    }
}

/// Retained pixels of a prepared page. Content that the decoder reports as grayscale is kept at
/// one byte per pixel, everything else as RGBA.
#[derive(Clone)]
pub enum PagePixels {
    Rgba(Arc<[u8]>),
    Luma(Arc<[u8]>),
}

/// Gray values as opaque RGBA pixels.
pub open spec fn expanded_luma(luma: Seq<u8>) -> Seq<u8> {
    Seq::new(
        4 * luma.len(),
        |i: int|
            if i % 4 == 3 {
                255u8
            } else {
                luma[i / 4]
            },
    )
}

/// `expanded_luma`, pixel by pixel.
pub fn expand_luma(luma: &[u8]) -> (rgba: Vec<u8>)
    ensures
        rgba@ == expanded_luma(luma@),
{
    let mut rgba: Vec<u8> = Vec::new();
    let mut i: usize = 0;
    while i < luma.len()
        invariant
            i <= luma@.len(),
            rgba@ == expanded_luma(luma@.take(i as int)),
        decreases luma.len() - i,
    {
        let gray: u8 = luma[i];
        rgba.push(gray);
        rgba.push(gray);
        rgba.push(gray);
        rgba.push(255);
        i = i + 1;
        assert(rgba@ =~= expanded_luma(luma@.take(i as int)));
    }
    assert(luma@.take(i as int) =~= luma@);
    rgba
}

impl PagePixels {
    /// The retained bytes.
    pub open spec fn bytes(self) -> Seq<u8> {
        match self {
            PagePixels::Rgba(bytes) => bytes@,
            PagePixels::Luma(bytes) => bytes@,
        }
    }

    pub fn is_luma(&self) -> (luma: bool)
        ensures
            luma == (self is Luma),
    {
        matches!(self, PagePixels::Luma(_))
    }

    /// Bytes retained in memory: four per RGBA pixel, one per gray pixel.
    pub fn byte_len(&self) -> (len: usize)
        ensures
            len == self.bytes().len(),
    {
        self.as_slice().len()
    }

    pub fn bytes_per_pixel(&self) -> (bytes: usize)
        ensures
            bytes == if self is Luma {
                1usize
            } else {
                4usize
            },
    {
        match self {
            PagePixels::Rgba(_) => 4,
            PagePixels::Luma(_) => 1,
        }
    }

    pub fn as_slice(&self) -> (bytes: &[u8])
        ensures
            bytes@ == self.bytes(),
    {
        match self {
            PagePixels::Rgba(bytes) => bytes,
            PagePixels::Luma(bytes) => bytes,
        }
    }

    /// The pixels as RGBA, in a buffer of the caller's own. A gray value becomes an opaque gray
    /// pixel.
    pub fn to_rgba_vec(&self, width: usize, height: usize) -> (rgba: Vec<u8>)
        ensures
            rgba@ == match self {
                PagePixels::Rgba(bytes) => bytes@,
                PagePixels::Luma(bytes) => expanded_luma(bytes@),
            },
    {
        match self {
            PagePixels::Rgba(bytes) => vstd::slice::slice_to_vec(bytes),
            PagePixels::Luma(bytes) => expand_luma(bytes),
        }
    }

    /// The picture to draw at a size: the same as that of the RGBA pixels, whether the page is
    /// kept as RGBA or as gray values.
    pub fn to_color_image(&self, size: [usize; 2]) -> (image: ColorImage)
        requires
            self.bytes().len() == size[0] * size[1] * if self is Luma {
                1int
            } else {
                4int
            },
        ensures
            image.wf(),
            image.size == size,
            image.pixels@ == match self {
                PagePixels::Rgba(bytes) => crate::color::premultiplied_pixels(bytes@),
                PagePixels::Luma(bytes) => expanded_luma(bytes@),
            },
            self is Luma ==> image.pixels@ == crate::color::premultiplied_pixels(
                expanded_luma(self.bytes()),
            ),
    {
        match self {
            PagePixels::Rgba(bytes) => ColorImage::from_rgba_unmultiplied(size, bytes),
            PagePixels::Luma(bytes) => {
                let rgba = expand_luma(bytes);
                assert(crate::color::is_opaque(rgba@));
                ColorImage::from_rgba_unmultiplied(size, rgba.as_slice())
            },
        }
    }
}

/// A page ready to be uploaded and shown.
#[derive(Clone)]
pub struct PreparedPage {
    pub pixels: PagePixels,
    pub original_width: usize,
    pub original_height: usize,
    pub display_width: usize,
    pub display_height: usize,
    pub byte_size: usize,
    pub target_long_edge: u32,
    pub decode_backend: DecodeBackend,
    pub notice: Option<String>,
}

/// A prepared page as plain data.
pub struct PageView {
    pub luma: bool,
    pub bytes: Seq<u8>,
    pub original: (int, int),
    pub display: (int, int),
    pub byte_size: int,
    pub target_long_edge: u32,
    pub decode_backend: DecodeBackend,
    pub notice: Option<Seq<char>>,
}

impl PageView {
    /// Bytes per pixel.
    pub open spec fn depth(self) -> int {
        if self.luma {
            1
        } else {
            4
        }
    }

    /// The RGBA pixels that a page shows.
    pub open spec fn rgba(self) -> Seq<u8> {
        if self.luma {
            expanded_luma(self.bytes)
        } else {
            self.bytes
        }
    }

    /// The bytes are counted, they make up the size at which the page is shown, and as RGBA they
    /// are within the budget of one page.
    pub open spec fn sound(self) -> bool {
        &&& self.byte_size == self.bytes.len()
        &&& self.bytes.len() == self.display.0 * self.display.1 * self.depth()
        &&& self.display.0 * self.display.1 * 4 <= MAX_DECODED_PAGE_BYTES
    }
}

/// The text of an optional string.
pub open spec fn optional_text(text: Option<String>) -> Option<Seq<char>> {
    match text {
        Some(text) => Some(text@),
        None => None,
    }
}

impl View for PreparedPage {
    type V = PageView;

    open spec fn view(&self) -> PageView {
        PageView {
            luma: self.pixels is Luma,
            bytes: self.pixels.bytes(),
            original: (self.original_width as int, self.original_height as int),
            display: (self.display_width as int, self.display_height as int),
            byte_size: self.byte_size as int,
            target_long_edge: self.target_long_edge,
            decode_backend: self.decode_backend,
            notice: optional_text(self.notice),
        }
    }
}

/// The result of a preparation as plain data.
pub open spec fn outcome(result: Result<PreparedPage, String>) -> Result<PageView, Seq<char>> {
    match result {
        Ok(page) => Ok(page@),
        Err(message) => Err(message@),
    }
}

/// The result of a preparation that may not apply, as plain data.
pub open spec fn optional_outcome(result: Result<Option<PreparedPage>, String>) -> Result<
    Option<PageView>,
    Seq<char>,
> {
    match result {
        Ok(Some(page)) => Ok(Some(page@)),
        Ok(None) => Ok(None),
        Err(message) => Err(message@),
    }
}

impl PreparedPage {
    pub fn image_size(&self) -> (size: [usize; 2])
        ensures
            size@ == seq![self.display_width, self.display_height],
    {
        [self.display_width, self.display_height]
    }

    /// The picture to draw.
    pub fn color_image(&self) -> (image: ColorImage)
        requires
            self@.bytes.len() == self@.display.0 * self@.display.1 * self@.depth(),
        ensures
            image.wf(),
            image.size@ == seq![self.display_width, self.display_height],
            image.pixels@ == crate::color::premultiplied_pixels(self@.rgba()),
            self@.luma ==> image.pixels@ == self@.rgba(),
    {
        self.pixels.to_color_image(self.image_size())
    }
}

/// Whether the decoder is chosen by format and preference, or is the broad one.
#[derive(Debug, Clone, Copy, PartialEq, Eq, Hash, Structural)]
pub enum DecodeStrategy {
    Auto,
    ImageCrate,
}

impl DecodeStrategy {
    pub open spec fn as_str_spec(self) -> Seq<char> {
        match self {
            DecodeStrategy::Auto => "auto"@,
            DecodeStrategy::ImageCrate => "image-crate"@,
        }
    }

    pub fn as_str(self) -> (name: &'static str)
        ensures
            name@ == self.as_str_spec(),
    {
        match self {
            DecodeStrategy::Auto => "auto",
            DecodeStrategy::ImageCrate => "image-crate",
        }
    }

    /// The strategy that a command-line value stands for.
    pub fn parse_cli(value: &str) -> (strategy: Option<DecodeStrategy>)
        ensures
            strategy == if value@ == "auto"@ {
                Some(DecodeStrategy::Auto)
            } else if value@ == "image"@ || value@ == "image-crate"@ || value@ == "baseline"@ {
                Some(DecodeStrategy::ImageCrate)
            } else {
                None
            },
    {
        if crate::text::same_text(value, "auto") {
            Some(DecodeStrategy::Auto)
        } else if crate::text::same_text(value, "image") || crate::text::same_text(
            value,
            "image-crate",
        ) || crate::text::same_text(value, "baseline") {
            Some(DecodeStrategy::ImageCrate)
        } else {
            None
        }
    }
}

/// How a page is decoded and resized.
#[derive(Debug, Clone, Copy, PartialEq, Eq, Hash, Structural)]
pub struct DecodeOptions {
    pub strategy: DecodeStrategy,
    pub decoder_preferences: DecoderPreferences,
    pub fast_sampled_scaled_decode: bool,
    pub cpu_upscale_filter: CpuScaleFilter,
    pub cpu_downscale_filter: CpuScaleFilter,
    pub allow_display_upscale: bool,
    pub apply_exif_orientation: bool,
    pub apply_embedded_icc: bool,
}

/// How a page is decoded and resized unless a request says otherwise.
pub open spec fn default_options() -> DecodeOptions {
    DecodeOptions {
        strategy: DecodeStrategy::Auto,
        decoder_preferences: DecodeOptions::default_preferences(),
        fast_sampled_scaled_decode: true,
        cpu_upscale_filter: CpuScaleFilter::CatmullRom,
        cpu_downscale_filter: CpuScaleFilter::Hamming,
        allow_display_upscale: false,
        apply_exif_orientation: false,
        apply_embedded_icc: false,
    }
}

impl Default for DecodeOptions {
    fn default() -> (options: Self)
        ensures
            options == default_options(),
    {
        DecodeOptions {
            strategy: DecodeStrategy::Auto,
            decoder_preferences: DecoderPreferences::default(),
            fast_sampled_scaled_decode: true,
            cpu_upscale_filter: CpuScaleFilter::CatmullRom,
            cpu_downscale_filter: CpuScaleFilter::Hamming,
            allow_display_upscale: false,
            apply_exif_orientation: false,
            apply_embedded_icc: false,
        }
    }
}

impl DecodeOptions {
    /// No decoder is asked for in particular.
    pub open spec fn default_preferences() -> DecoderPreferences {
        DecoderPreferences {
            jpeg: crate::state::DecoderPreference::Default,
            png: crate::state::DecoderPreference::Default,
            webp: crate::state::DecoderPreference::Default,
            gif: crate::state::DecoderPreference::Default,
            bmp: crate::state::DecoderPreference::Default,
            ico: crate::state::DecoderPreference::Default,
            avif: crate::state::DecoderPreference::Default,
        }
    }

    /// The options in cache keys. The upscale filter is part of it only where pages may be
    /// enlarged.
    pub open spec fn cache_token_spec(self) -> Seq<char> {
        self.strategy.as_str_spec() + "-"@ + self.decoder_preferences.cache_token_spec()
            + "-fastprep-"@ + (if self.fast_sampled_scaled_decode {
            "on"@
        } else {
            "off"@
        }) + "-down-"@ + self.cpu_downscale_filter.token_spec() + "-"@ + (
        if self.allow_display_upscale {
            self.cpu_upscale_filter.token_spec()
        } else {
            "no-upscale"@
        }) + (if self.apply_exif_orientation {
            "-exif"@
        } else {
            ""@
        }) + (if self.apply_embedded_icc {
            "-icc"@
        } else {
            ""@
        })
    }

    pub fn cache_token(self) -> (token: String)
        ensures
            token@ == self.cache_token_spec(),
    {
        let mut token = self.strategy.as_str().to_owned();
        token.append("-");
        token.append(self.decoder_preferences.cache_token().as_str());
        token.append("-fastprep-");
        token.append(
            if self.fast_sampled_scaled_decode {
                "on"
            } else {
                "off"
            },
        );
        token.append("-down-");
        token.append(self.cpu_downscale_filter.token());
        token.append("-");
        token.append(
            if self.allow_display_upscale {
                self.cpu_upscale_filter.token()
            } else {
                "no-upscale"
            },
        );
        token.append(
            if self.apply_exif_orientation {
                "-exif"
            } else {
                ""
            },
        );
        token.append(
            if self.apply_embedded_icc {
                "-icc"
            } else {
                ""
            },
        );
        token
    }

    /// The filter for a resize: the upscale filter where either edge grows.
    pub open spec fn scale_filter(self, source: (u32, u32), target: (u32, u32)) -> CpuScaleFilter {
        if target.0 > source.0 || target.1 > source.1 {
            self.cpu_upscale_filter
        } else {
            self.cpu_downscale_filter
        }
    }

    pub fn scale_filter_for(
        self,
        source_width: u32,
        source_height: u32,
        target_width: u32,
        target_height: u32,
    ) -> (filter: CpuScaleFilter)
        ensures
            filter == self.scale_filter((source_width, source_height), (target_width, target_height)),
    {
        if target_width > source_width || target_height > source_height {
            self.cpu_upscale_filter
        } else {
            self.cpu_downscale_filter
        }
    }
}

/// A picture that becomes no wider and no higher is resized with the filter for reducing, any other
/// with the filter for enlarging; the other filter does not matter.
pub proof fn filters_go_by_the_direction_of_the_resize(
    options: DecodeOptions,
    source: (u32, u32),
    target: (u32, u32),
)
    ensures
        target.0 <= source.0 && target.1 <= source.1 ==> options.scale_filter(source, target)
            == options.cpu_downscale_filter,
        source.0 < target.0 || source.1 < target.1 ==> options.scale_filter(source, target)
            == options.cpu_upscale_filter,
{
}

/// A page that is held stands in for requests for the same page, decoded the same way, at its own
/// size or a smaller one; an original kept for inspection only for one that is to be inspected too.
/// What stands in for a page that would do, will do itself.
pub proof fn held_pages_stand_in_for_smaller_ones(
    key: CachedPageKey,
    page_id: PageId,
    target_long_edge: u32,
    smaller: u32,
    decode: DecodeOptions,
)
    requires
        1024 <= smaller <= target_long_edge <= 20_000,
    ensures
        key.covers_spec(page_id, target_long_edge, decode) ==> {
            &&& key.page_id == page_id && key.decode == decode
            &&& key.target_long_edge >= target_long_edge
            &&& target_long_edge <= 4096 ==> key.target_long_edge <= 4096
        },
        key.page_id == page_id && key.decode == decode && key.target_long_edge == target_long_edge
            ==> key.covers_spec(page_id, target_long_edge, decode),
        key.covers_spec(page_id, target_long_edge, decode) && (key.target_long_edge <= 4096
            || smaller > 4096) ==> key.covers_spec(page_id, smaller, decode),
        key.target_long_edge > 4096 && smaller <= 4096 ==> !key.covers_spec(
            page_id,
            smaller,
            decode,
        ),
{
}

/// A page at a size, as some cache holds it.
#[derive(Debug, Clone, Copy, PartialEq, Eq, Structural)]
pub struct CachedPageKey {
    pub page_id: PageId,
    pub target_long_edge: u32,
    pub decode: DecodeOptions,
}

impl CachedPageKey {
    pub fn new(page_id: PageId, target_long_edge: u32, decode: DecodeOptions) -> (key: Self)
        ensures
            key == (CachedPageKey {
                page_id,
                target_long_edge: clamped_target(target_long_edge),
                decode,
            }),
    {
        CachedPageKey { page_id, target_long_edge: clamp_target_long_edge(target_long_edge), decode }
    }

    /// Whether the page held under this key can stand in for the one requested: the same page
    /// decoded the same way, at least as large, and not an original kept for inspection where a
    /// display size is asked for.
    pub open spec fn covers_spec(
        self,
        page_id: PageId,
        target_long_edge: u32,
        decode: DecodeOptions,
    ) -> bool {
        let requested = clamped_target(target_long_edge);
        &&& self.page_id == page_id
        &&& self.decode == decode
        &&& self.target_long_edge >= requested
        &&& self.target_long_edge > MAX_TARGET_LONG_EDGE ==> requested > MAX_TARGET_LONG_EDGE
    }

    pub fn covers(self, page_id: PageId, target_long_edge: u32, decode: DecodeOptions) -> (covered:
        bool)
        ensures
            covered == self.covers_spec(page_id, target_long_edge, decode),
    {
        let requested: u32 = clamp_target_long_edge(target_long_edge);
        if requested <= MAX_TARGET_LONG_EDGE && self.target_long_edge > MAX_TARGET_LONG_EDGE {
            return false;
        }
        self.page_id == page_id && self.decode == decode && self.target_long_edge >= requested
    }
}

/// What a request says beside the page.
#[derive(Debug, Clone, PartialEq, Eq)]
pub struct WorkerOptions {
    pub decode: DecodeOptions,
    pub target_intent: PreparedTargetIntent,
    pub prefetch_enabled: bool,
    pub progressive_preview_enabled: bool,
    pub cache_bytes: usize,
    pub app_cached_pages: Vec<CachedPageKey>,
}

impl Default for WorkerOptions {
    fn default() -> (options: Self)
        ensures
            options.decode == default_options(),
            options.target_intent == PreparedTargetIntent::NormalNavigation,
            options.prefetch_enabled,
            options.progressive_preview_enabled,
            options.cache_bytes == WORKER_CACHE_BYTES,
            options.app_cached_pages@ == Seq::<CachedPageKey>::empty(),
    {
        WorkerOptions {
            decode: DecodeOptions::default(),
            target_intent: PreparedTargetIntent::NormalNavigation,
            prefetch_enabled: true,
            progressive_preview_enabled: true,
            cache_bytes: WORKER_CACHE_BYTES,
            app_cached_pages: Vec::new(),
        }
    }
}

/// Whether one of `keys` covers a request.
pub open spec fn any_covers(
    keys: Seq<CachedPageKey>,
    page_id: PageId,
    target_long_edge: u32,
    decode: DecodeOptions,
) -> bool {
    exists|i: int|
        0 <= i < keys.len() && (#[trigger] keys[i]).covers_spec(page_id, target_long_edge, decode)
}

impl WorkerOptions {
    /// The options with no less than the smallest cache.
    pub open spec fn within_limits(self) -> WorkerOptions {
        WorkerOptions {
            cache_bytes: if self.cache_bytes < MIN_WORKER_CACHE_BYTES {
                MIN_WORKER_CACHE_BYTES
            } else {
                self.cache_bytes
            },
            ..self
        }
    }

    /// The options with no less than the smallest cache.
    pub fn normalized(self) -> (options: Self)
        ensures
            options == self.within_limits(),
    {
        let cache_bytes: usize = if self.cache_bytes < MIN_WORKER_CACHE_BYTES {
            MIN_WORKER_CACHE_BYTES
        } else {
            self.cache_bytes
        };
        WorkerOptions { cache_bytes, ..self }
    }

    /// Whether the application already holds the page at a size that will do.
    pub fn app_cache_covers(&self, page_id: PageId, target_long_edge: u32) -> (covered: bool)
        ensures
            covered == any_covers(
                self.app_cached_pages@,
                page_id,
                target_long_edge,
                self.decode,
            ),
    {
        let mut i: usize = 0;
        while i < self.app_cached_pages.len()
            invariant
                i <= self.app_cached_pages@.len(),
                forall|k: int|
                    0 <= k < i ==> !(#[trigger] self.app_cached_pages@[k]).covers_spec(
                        page_id,
                        target_long_edge,
                        self.decode,
                    ),
            decreases self.app_cached_pages.len() - i,
        {
            if self.app_cached_pages[i].covers(page_id, target_long_edge, self.decode) {
                return true;
            }
            i = i + 1;
        }
        false
    }
}

/// Options within limits have a cache of at least eight megabytes and no smaller one than was asked
/// for; nothing else of them changes, and at least one page is shown.
pub proof fn options_are_brought_within_their_limits(options: WorkerOptions, visible_pages: usize)
    ensures
        ({
            let after = options.within_limits();
            &&& after.cache_bytes >= 8_388_608 && after.cache_bytes >= options.cache_bytes
            &&& options.cache_bytes >= 8_388_608 ==> after == options
            &&& options.cache_bytes < 8_388_608 ==> after.cache_bytes == 8_388_608
            &&& after.decode == options.decode && after.target_intent == options.target_intent
            &&& after.prefetch_enabled == options.prefetch_enabled
                && after.progressive_preview_enabled == options.progressive_preview_enabled
            &&& after.app_cached_pages == options.app_cached_pages
            &&& after.within_limits() == after
        }),
        shown_pages(visible_pages) >= 1,
        visible_pages >= 1 ==> shown_pages(visible_pages) == visible_pages,
{
}

/// What the worker answers with.
pub enum WorkerEvent {
    PageReady {
        book_id: String,
        source_instance_id: u64,
        page_id: PageId,
        decode: DecodeOptions,
        page: Arc<PreparedPage>,
    },
    PageFailed {
        book_id: String,
        source_instance_id: u64,
        page_id: PageId,
        target_long_edge: u32,
        decode: DecodeOptions,
        message: String,
    },
}

/// What the worker is told. `ack` names the caller that waits for a `ClearBook`.
pub enum WorkerCommand {
    LoadBook {
        source: BookSnapshot,
        center: usize,
        direction: NavigationDirection,
        target_long_edge: u32,
        visible_pages: usize,
        options: WorkerOptions,
    },
    SetPage {
        center: usize,
        direction: NavigationDirection,
        target_long_edge: u32,
        visible_pages: usize,
        options: WorkerOptions,
    },
    ClearBook { ack: u64 },
    Shutdown,
}

/// The number of pages that are shown, which is at least one.
pub open spec fn shown_pages(visible_pages: usize) -> usize {
    if visible_pages == 0 {
        1
    } else {
        visible_pages
    }
}

impl WorkerCommand {
    /// The command that opens a book: the target size and the options are brought within their
    /// limits, and at least one page is shown.
    pub fn load_book(
        source: BookSnapshot,
        center: usize,
        direction: NavigationDirection,
        target_long_edge: u32,
        visible_pages: usize,
        options: WorkerOptions,
    ) -> (command: WorkerCommand)
        ensures
            command matches WorkerCommand::LoadBook {
                source: opened,
                center: at,
                direction: towards,
                target_long_edge: target,
                visible_pages: shown,
                options: wanted,
            } && opened == source && at == center && towards == direction && target
                == clamped_target(target_long_edge) && shown == shown_pages(visible_pages)
                && wanted == options.within_limits(),
    {
        WorkerCommand::LoadBook {
            source,
            center,
            direction,
            target_long_edge: clamp_target_long_edge(target_long_edge),
            visible_pages: if visible_pages == 0 {
                1
            } else {
                visible_pages
            },
            options: options.normalized(),
        }
    }

    /// The command that turns to a page of the open book, within the same limits.
    pub fn set_page(
        center: usize,
        direction: NavigationDirection,
        target_long_edge: u32,
        visible_pages: usize,
        options: WorkerOptions,
    ) -> (command: WorkerCommand)
        ensures
            command matches WorkerCommand::SetPage {
                center: at,
                direction: towards,
                target_long_edge: target,
                visible_pages: shown,
                options: wanted,
            } && at == center && towards == direction && target == clamped_target(target_long_edge)
                && shown == shown_pages(visible_pages) && wanted == options.within_limits(),
    {
        WorkerCommand::SetPage {
            center,
            direction,
            target_long_edge: clamp_target_long_edge(target_long_edge),
            visible_pages: if visible_pages == 0 {
                1
            } else {
                visible_pages
            },
            options: options.normalized(),
        }
    }
}

/// The name of a decoder in reports is its name in messages in small letters, with hyphens for the
/// spaces; the last word may be left out there. No two decoders have one name, in either.
#[verifier::rlimit(60)]
pub proof fn reported_names_follow_the_shown_ones(backend: DecodeBackend, other: DecodeBackend, i: int)
    ensures
        backend.as_str_spec().len() <= backend.label_spec().len(),
        backend.as_str_spec().len() < backend.label_spec().len()
            ==> backend.label_spec()[backend.as_str_spec().len() as int] == ' ',
        0 <= i < backend.as_str_spec().len() ==> backend.as_str_spec()[i] == if backend.label_spec()[i]
            == ' ' {
            '-'
        } else {
            crate::text::ascii_lower(backend.label_spec()[i])
        },
        backend.as_str_spec() == other.as_str_spec() ==> backend == other,
        backend.label_spec() == other.label_spec() ==> backend == other,
{
    reveal_strlit("image crate");
    reveal_strlit("JPEG scaled");
    reveal_strlit("BMP sampled");
    reveal_strlit("GIF sampled");
    reveal_strlit("PNG sampled");
    reveal_strlit("PNG exact rows");
    reveal_strlit("zune JPEG");
    reveal_strlit("png crate");
    reveal_strlit("zune PNG");
    reveal_strlit("image-webp");
    reveal_strlit("libwebp");
    reveal_strlit("libwebp scaled");
    reveal_strlit("gif crate");
    reveal_strlit("BMP fast path");
    reveal_strlit("ICO fast path");
    reveal_strlit("libavif dav1d");
    reveal_strlit("zune PSD");
    reveal_strlit("pdfium AI");
    reveal_strlit("image-crate");
    reveal_strlit("jpeg-scaled");
    reveal_strlit("bmp-sampled");
    reveal_strlit("gif-sampled");
    reveal_strlit("png-sampled");
    reveal_strlit("png-exact-rows");
    reveal_strlit("zune-jpeg");
    reveal_strlit("png-crate");
    reveal_strlit("zune-png");
    reveal_strlit("libwebp-scaled");
    reveal_strlit("gif-crate");
    reveal_strlit("bmp-fast");
    reveal_strlit("ico-fast");
    reveal_strlit("libavif-dav1d");
    reveal_strlit("zune-psd");
    reveal_strlit("pdfium-ai");
    let (left, right) = (backend.as_str_spec(), other.as_str_spec());
    assert(left == right ==> left.len() == right.len() && left[0] == right[0] && left[1] == right[1]
        && left[4] == right[4] && left[5] == right[5] && left.last() == right.last());
    let (left, right) = (backend.label_spec(), other.label_spec());
    assert(left == right ==> left.len() == right.len() && left[0] == right[0] && left[1] == right[1]
        && left[4] == right[4] && left[5] == right[5] && left.last() == right.last());
}

/// At least one page is shown, and as many as are asked for where that is one or more.
pub proof fn at_least_one_page_is_shown(visible_pages: usize)
    ensures
        1 <= shown_pages(visible_pages) <= visible_pages + 1,
        visible_pages >= 1 ==> shown_pages(visible_pages) == visible_pages,
{
}

} // verus!
