//! The broad decoder, which every format can fall back to.
use crate::worker::api::{
    clamp_target_long_edge, DecodeBackend, DecodeOptions, MAX_DECODED_PAGE_BYTES,
    MAX_IMAGE_DIMENSION,
};
use crate::worker::draft::{draft_page, DraftView, PageDraft};
use crate::worker::pixels::{to_rgba, PixelLayout};
use crate::worker::prepare::{display_dimensions_with_upscale, reject_oversized_original};
use crate::worker::webp::reject_frame;
use image::{ColorType, ImageReader, Limits};
use std::io::Cursor;
use vstd::prelude::*;

verus! {

/// The samples that a picture was decoded to. `Deep` stands for samples of more than eight bits,
/// which are brought down to RGBA.
#[derive(Debug, Clone, Copy, PartialEq, Eq, Structural)]
pub enum PictureKind {
    Luma8,
    LumaA8,
    Rgb8,
    Rgba8,
    Deep,
}

impl PictureKind {
    /// How the samples are laid out.
    pub open spec fn layout_spec(self) -> PixelLayout {
        match self {
            PictureKind::Luma8 => PixelLayout::Luma,
            PictureKind::LumaA8 => PixelLayout::LumaAlpha,
            PictureKind::Rgb8 => PixelLayout::Rgb,
            PictureKind::Rgba8 => PixelLayout::Rgba,
            PictureKind::Deep => PixelLayout::Rgba,
        }
    }

    pub fn layout(self) -> (layout: PixelLayout)
        ensures
            layout == self.layout_spec(),
    {
        match self {
            PictureKind::Luma8 => PixelLayout::Luma,
            PictureKind::LumaA8 => PixelLayout::LumaAlpha,
            PictureKind::Rgb8 => PixelLayout::Rgb,
            PictureKind::Rgba8 => PixelLayout::Rgba,
            PictureKind::Deep => PixelLayout::Rgba,
        }
    }
}

/// A decoded picture.
pub struct Picture {
    pub kind: PictureKind,
    pub width: u32,
    pub height: u32,
    pub samples: Vec<u8>,
}

/// A decoded picture as plain data.
pub struct PictureView {
    pub kind: PictureKind,
    pub width: u32,
    pub height: u32,
    pub samples: Seq<u8>,
}

impl View for Picture {
    type V = PictureView;

    open spec fn view(&self) -> PictureView {
        PictureView {
            kind: self.kind,
            width: self.width,
            height: self.height,
            samples: self.samples@,
        }
    }
}

impl PictureView {
    /// The samples make up the size.
    pub open spec fn wf(self) -> bool {
        self.samples.len() == self.width * self.height * self.kind.layout_spec().width()
    }
}

/// Whether a file begins like an OpenEXR file.
pub open spec fn is_exr(bytes: Seq<u8>) -> bool {
    crate::decoder_backend::tag_at(bytes, 0, 0x76, 0x2f, 0x31, 0x01)
}

/// What `image::ImageReader::into_dimensions` says of a file, with limits on its edges and on
/// what the decoder may allocate. The message is that for a file that is no OpenEXR file.
pub uninterp spec fn image_size(bytes: Seq<u8>, max_edge: u32, max_alloc: u64) -> Result<
    (u32, u32),
    Seq<char>,
>;

/// Whether `image::ImageReader::into_dimensions` says this of a file, in one run or another.
pub uninterp spec fn image_may_measure(
    bytes: Seq<u8>,
    max_edge: u32,
    max_alloc: u64,
    size: Result<(u32, u32), Seq<char>>,
) -> bool;

/// Whether this is read as the size of a file: always the same, but for the message on an OpenEXR
/// file, whose attributes are gone over in no settled order.
pub open spec fn is_measured(bytes: Seq<u8>, size: Result<(u32, u32), Seq<char>>) -> bool {
    let named = image_size(bytes, MAX_IMAGE_DIMENSION, MAX_DECODED_PAGE_BYTES as u64);
    &&& image_may_measure(bytes, MAX_IMAGE_DIMENSION, MAX_DECODED_PAGE_BYTES as u64, size)
    &&& size is Ok || !is_exr(bytes) ==> size == named
    &&& size is Err ==> named is Err
}

/// The size of a file, or why there is none, as plain data.
pub open spec fn size_outcome(size: Result<(u32, u32), String>) -> Result<(u32, u32), Seq<char>> {
    match size {
        Ok(size) => Ok(size),
        Err(message) => Err(message@),
    }
}

/// What `image::ImageReader::decode` makes of a file that is no OpenEXR file, with the same limits.
pub uninterp spec fn image_picture(bytes: Seq<u8>, max_edge: u32, max_alloc: u64) -> Result<
    PictureView,
    Seq<char>,
>;

/// Whether `image::ImageReader::decode` makes this of a file, on one machine or another.
pub uninterp spec fn image_may_decode(
    bytes: Seq<u8>,
    max_edge: u32,
    max_alloc: u64,
    picture: Result<PictureView, Seq<char>>,
) -> bool;

/// Whether a file is decoded to this: always to the same, unless it is an OpenEXR file, whose blocks
/// are unpacked side by side and may be packed with powers and cosines.
pub open spec fn is_decoded(bytes: Seq<u8>, picture: Result<PictureView, Seq<char>>) -> bool {
    &&& image_may_decode(bytes, MAX_IMAGE_DIMENSION, MAX_DECODED_PAGE_BYTES as u64, picture)
    &&& !is_exr(bytes) ==> picture == image_picture(
        bytes,
        MAX_IMAGE_DIMENSION,
        MAX_DECODED_PAGE_BYTES as u64,
    )
}

/// A decoded picture, or why there is none, as plain data.
pub open spec fn picture_outcome(picture: Result<Picture, String>) -> Result<
    PictureView,
    Seq<char>,
> {
    match picture {
        Ok(picture) => Ok(picture@),
        Err(message) => Err(message@),
    }
}

/// `image::ImageReader` with a guessed format, then `into_dimensions`. That the same message comes
/// of the same bytes is not said of OpenEXR files.
#[verifier::external_body]
fn read_image_size(bytes: &[u8], max_edge: u32, max_alloc: u64) -> (size: Result<
    (u32, u32),
    String,
>)
    ensures
        image_may_measure(bytes@, max_edge, max_alloc, size_outcome(size)),
        size is Ok || !is_exr(bytes@) ==> size_outcome(size) == image_size(
            bytes@,
            max_edge,
            max_alloc,
        ),
        size is Err ==> image_size(bytes@, max_edge, max_alloc) is Err,
{
    let mut reader = ImageReader::new(Cursor::new(bytes))
        .with_guessed_format().map_err(|error| error.to_string())?;
    let mut limits = Limits::default();
    limits.max_image_width = Some(max_edge);
    limits.max_image_height = Some(max_edge);
    limits.max_alloc = Some(max_alloc);
    reader.limits(limits);
    reader.into_dimensions().map_err(|error| error.to_string())
}

/// `image::ImageReader` with a guessed format, then `decode`: samples of eight bits come as they
/// are, others as RGBA. A picture has the size that `into_dimensions` says, and its samples make
/// up that size. That the same comes of the same bytes is not said of OpenEXR files.
#[verifier::external_body]
fn decode_picture(bytes: &[u8], max_edge: u32, max_alloc: u64) -> (picture: Result<Picture, String>)
    requires
        crate::worker::webp::alpha_frame_agrees(bytes@),
        max_edge <= MAX_IMAGE_DIMENSION,
    ensures
        image_may_decode(bytes@, max_edge, max_alloc, picture_outcome(picture)),
        !is_exr(bytes@) ==> picture_outcome(picture) == image_picture(bytes@, max_edge, max_alloc),
        match picture {
            Ok(picture) => {
                &&& image_size(bytes@, max_edge, max_alloc) == Ok::<(u32, u32), Seq<char>>(
                    (picture.width, picture.height),
                )
                &&& picture@.wf()
            },
            Err(_) => true,
        },
{
    let mut reader = ImageReader::new(Cursor::new(bytes)).with_guessed_format().map_err(|error| error.to_string())?;
    let mut limits = Limits::default();
    limits.max_image_width = Some(max_edge);
    limits.max_image_height = limits.max_image_width;
    limits.max_alloc = Some(max_alloc);
    reader.limits(limits);
    let image = reader.decode().map_err(|error| error.to_string())?;
    let kind = match image.color() {
        ColorType::L8 => PictureKind::Luma8,
        ColorType::La8 => PictureKind::LumaA8,
        ColorType::Rgb8 => PictureKind::Rgb8,
        ColorType::Rgba8 => PictureKind::Rgba8,
        _ => PictureKind::Deep
    };
    Ok(Picture { kind, width: image.width(), height: image.height(), samples: if kind == PictureKind::Deep { image.into_rgba8().into_raw() } else { image.into_bytes() } })
}

/// Whether a picture is resized before it is expanded to RGBA.
pub fn should_resize_before_rgba(kind: PictureKind) -> (before: bool)
    ensures
        before == (kind != PictureKind::Deep),
{
    matches!(
        kind,
        PictureKind::Luma8 | PictureKind::LumaA8 | PictureKind::Rgb8 | PictureKind::Rgba8
    )
}

/// The draft of a decoded picture. Gray samples are kept at one byte per pixel unless a color
/// profile is applied, which works on RGBA.
pub open spec fn picture_draft(
    picture: PictureView,
    target: u32,
    options: DecodeOptions,
    allow_display_upscale: bool,
    icc_profile: Option<Seq<u8>>,
) -> Result<DraftView, Seq<char>> {
    let size = (picture.width, picture.height);
    let display = crate::worker::prepare::display_size(
        size.0,
        size.1,
        target,
        allow_display_upscale,
    );
    let filter = options.scale_filter(size, display);
    let layout = picture.kind.layout_spec();
    let (luma, kept, bytes) = if icc_profile is None && picture.kind == PictureKind::Luma8 {
        (true, None, picture.samples)
    } else if display == size || picture.kind == PictureKind::Deep {
        (false, None, crate::worker::pixels::rgba_of(layout, picture.samples))
    } else {
        (false, Some(layout), picture.samples)
    };
    if size.0 == 0 || size.1 == 0 {
        Err("Image has zero-sized dimensions"@)
    } else {
        crate::worker::draft::drafted(
            luma,
            kept,
            bytes,
            size,
            size,
            display,
            target,
            DecodeBackend::ImageCrate,
            filter,
            icc_profile,
        )
    }
}

/// A draft of a decoded picture holds its samples: gray ones as they are, unless a color profile is to
/// be applied to them; others as RGBA pixels, or still as they are where they are resized first. The
/// original's size is the picture's own, and it is shown at the size that fits the target.
pub proof fn drafts_hold_the_decoded_samples(
    picture: PictureView,
    target: u32,
    options: DecodeOptions,
    allow_display_upscale: bool,
    icc_profile: Option<Seq<u8>>,
    draft: DraftView,
    i: int,
)
    requires
        picture_draft(picture, target, options, allow_display_upscale, icc_profile) == Ok::<
            DraftView,
            Seq<char>,
        >(draft),
        picture.wf(),
        0 <= i < picture.width * picture.height,
    ensures
        draft.page.original == (picture.width as int, picture.height as int),
        draft.size == (picture.width, picture.height),
        draft.display == crate::worker::prepare::display_size(
            picture.width,
            picture.height,
            target,
            allow_display_upscale,
        ),
        draft.icc_profile == icc_profile && draft.orientation is None && draft.page.notice is None,
        draft.page.decode_backend == DecodeBackend::ImageCrate,
        draft.filter == if draft.display.0 <= picture.width && draft.display.1 <= picture.height {
            options.cpu_downscale_filter
        } else {
            options.cpu_upscale_filter
        },
        draft.page.luma <==> picture.kind == PictureKind::Luma8 && icc_profile is None,
        draft.page.luma || draft.layout is Some ==> draft.page.bytes == picture.samples,
        draft.layout matches Some(layout) ==> draft.size != draft.display && match picture.kind {
            PictureKind::Luma8 => layout == PixelLayout::Luma,
            PictureKind::LumaA8 => layout == PixelLayout::LumaAlpha,
            PictureKind::Rgb8 => layout == PixelLayout::Rgb,
            PictureKind::Rgba8 => layout == PixelLayout::Rgba,
            PictureKind::Deep => false,
        },
        !draft.page.luma && draft.layout is None ==> crate::worker::pixels::shows_sample(
            draft.page.bytes,
            4 * i,
            match picture.kind {
                PictureKind::Luma8 => PixelLayout::Luma,
                PictureKind::LumaA8 => PixelLayout::LumaAlpha,
                PictureKind::Rgb8 => PixelLayout::Rgb,
                PictureKind::Rgba8 => PixelLayout::Rgba,
                PictureKind::Deep => PixelLayout::Rgba,
            },
            picture.samples,
            i,
        ),
{
    if !draft.page.luma && draft.layout is None {
        let layout = picture.kind.layout_spec();
        let depth = layout.width();
        let count = picture.width * picture.height;
        vstd::arithmetic::div_mod::lemma_div_multiples_vanish(count, depth);
        assert(depth * count == count * depth) by (nonlinear_arith);
        let rgba = crate::worker::pixels::rgba_of(layout, picture.samples);
        assert forall|c: int| 0 <= c < 4 implies #[trigger] rgba[4 * i + c] == layout.channel(
            picture.samples,
            i * depth,
            c,
        ) by {
            assert((4 * i + c) / 4 == i && (4 * i + c) % 4 == c);
        }
        crate::worker::pixels::channels_show_their_sample(rgba, 4 * i, layout, picture.samples, i);
    }
}

/// Whether the broad decoder makes this of a file of the given size.
pub open spec fn is_sized_draft(
    bytes: Seq<u8>,
    size: (u32, u32),
    target_long_edge: u32,
    options: DecodeOptions,
    allow_display_upscale: bool,
    icc_profile: Option<Seq<u8>>,
    draft: Result<DraftView, Seq<char>>,
) -> bool {
    let target = crate::worker::api::clamped_target(target_long_edge);
    let too_large = crate::worker::prepare::original_rejection(size.0, size.1);
    if too_large is Some {
        draft == Err::<DraftView, Seq<char>>(too_large->0)
    } else if !crate::worker::webp::alpha_frame_agrees(bytes) {
        draft == Err::<DraftView, Seq<char>>(crate::worker::webp::frame_message())
    } else {
        exists|picture: Result<PictureView, Seq<char>>|
            #[trigger] is_decoded(bytes, picture) && draft == match picture {
                Err(message) => Err(message),
                Ok(picture) => picture_draft(
                    picture,
                    target,
                    options,
                    allow_display_upscale,
                    icc_profile,
                ),
            }
    }
}

/// Whether the broad decoder makes this of a file.
pub open spec fn is_image_draft(
    bytes: Seq<u8>,
    target_long_edge: u32,
    options: DecodeOptions,
    allow_display_upscale: bool,
    icc_profile: Option<Seq<u8>>,
    draft: Result<DraftView, Seq<char>>,
) -> bool {
    exists|size: Result<(u32, u32), Seq<char>>|
        #[trigger] is_measured(bytes, size) && match size {
            Err(message) => draft == Err::<DraftView, Seq<char>>(message),
            Ok(size) => is_sized_draft(
                bytes,
                size,
                target_long_edge,
                options,
                allow_display_upscale,
                icc_profile,
                draft,
            ),
        }
}

/// Drafts the page of a decoded picture: see `picture_draft`.
pub fn draft_picture(
    picture: Picture,
    target: u32,
    options: DecodeOptions,
    allow_display_upscale: bool,
    icc_profile: Option<Vec<u8>>,
) -> (draft: Result<PageDraft, String>)
    requires
        picture@.wf(),
        picture.width <= 20_000,
        picture.height <= 20_000,
    ensures
        crate::worker::draft::draft_outcome(draft) == picture_draft(
            picture@,
            target,
            options,
            allow_display_upscale,
            crate::worker::pixels::optional_bytes(icc_profile),
        ),
        draft matches Ok(draft) ==> draft@.wf() && draft@.page.target_long_edge == target,
{
    let size: (u32, u32) = (picture.width, picture.height);
    let display: (u32, u32) = display_dimensions_with_upscale(
        size.0,
        size.1,
        target,
        allow_display_upscale,
    )?;
    let filter = options.scale_filter_for(size.0, size.1, display.0, display.1);
    proof {
        crate::worker::prepare::display_size_fits_the_target(
            size.0,
            size.1,
            target,
            allow_display_upscale,
        );
        crate::worker::resize::lemma_edges_are_countable(size, display);
        assert(size.0 * size.1 * 4 <= 1_600_000_000 && display.0 * display.1 * 4 <= 1_600_000_000)
            by (nonlinear_arith)
            requires
                size.0 <= 20_000,
                size.1 <= 20_000,
                display.0 <= 20_000,
                display.1 <= 20_000,
        ;
        let width = picture.kind.layout_spec().width();
        vstd::arithmetic::div_mod::lemma_div_multiples_vanish(size.0 * size.1, width);
        assert(size.0 * size.1 * width == width * (size.0 * size.1)) by (nonlinear_arith);
    }
    let layout = picture.kind.layout();
    let gray = icc_profile.is_none() && matches!(picture.kind, PictureKind::Luma8);
    let (luma, kept, bytes): (bool, Option<PixelLayout>, Vec<u8>) = if gray {
        (true, None, picture.samples)
    } else if (display.0 == size.0 && display.1 == size.1) || !should_resize_before_rgba(
        picture.kind,
    ) {
        (false, None, to_rgba(layout, picture.samples.as_slice()))
    } else {
        (false, Some(layout), picture.samples)
    };
    draft_page(
        luma,
        kept,
        bytes,
        size,
        size,
        display,
        target,
        DecodeBackend::ImageCrate,
        filter,
        icc_profile,
    )
}

pub fn prepare_image_with_image_crate(
    bytes: &[u8],
    target_long_edge: u32,
    options: DecodeOptions,
) -> (draft: Result<PageDraft, String>)
    ensures
        is_image_draft(
            bytes@,
            target_long_edge,
            options,
            options.allow_display_upscale,
            None,
            crate::worker::draft::draft_outcome(draft),
        ),
        draft matches Ok(draft) ==> draft@.wf() && draft@.page.target_long_edge
            == crate::worker::api::clamped_target(target_long_edge),
{
    prepare_image_with_image_crate_and_icc(
        bytes,
        target_long_edge,
        options,
        options.allow_display_upscale,
        None,
    )
}

/// Decodes a file with the broad decoder: see `is_image_draft`.
pub fn prepare_image_with_image_crate_and_icc(
    bytes: &[u8],
    target_long_edge: u32,
    options: DecodeOptions,
    allow_display_upscale: bool,
    icc_profile: Option<Vec<u8>>,
) -> (draft: Result<PageDraft, String>)
    ensures
        is_image_draft(
            bytes@,
            target_long_edge,
            options,
            allow_display_upscale,
            crate::worker::pixels::optional_bytes(icc_profile),
            crate::worker::draft::draft_outcome(draft),
        ),
        draft matches Ok(draft) ==> draft@.wf() && draft@.page.target_long_edge
            == crate::worker::api::clamped_target(target_long_edge),
{
    let target: u32 = clamp_target_long_edge(target_long_edge);
    let measured = read_image_size(bytes, MAX_IMAGE_DIMENSION, MAX_DECODED_PAGE_BYTES as u64);
    assert(is_measured(bytes@, size_outcome(measured)));
    let (width, height) = measured?;
    reject_oversized_original(width, height)?;
    reject_frame(bytes)?;
    let decoded = decode_picture(bytes, MAX_IMAGE_DIMENSION, MAX_DECODED_PAGE_BYTES as u64);
    assert(is_decoded(bytes@, picture_outcome(decoded)));
    match decoded {
        Ok(picture) => draft_picture(picture, target, options, allow_display_upscale, icc_profile),
        Err(message) => Err(message),
    }
}

} // verus!
