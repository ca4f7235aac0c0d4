//! JPEG files, reduced while they are decoded.
use crate::worker::api::{clamp_target_long_edge, DecodeBackend, DecodeOptions};
use crate::worker::draft::{draft_page, DraftView, PageDraft};
use crate::worker::pixels::{to_rgba, PixelLayout};
use crate::worker::prepare::{display_dimensions_with_upscale, reject_oversized_dimensions};
use vstd::prelude::*;

verus! {

/// The first bytes of every JPEG file.
pub open spec fn has_jpeg_signature(bytes: Seq<u8>) -> bool {
    bytes.len() >= 3 && bytes[0] == 0xff && bytes[1] == 0xd8 && bytes[2] == 0xff
}

pub fn is_jpeg(bytes: &[u8]) -> (jpeg: bool)
    ensures
        jpeg == has_jpeg_signature(bytes@),
{
    bytes.len() >= 3 && bytes[0] == 0xff && bytes[1] == 0xd8 && bytes[2] == 0xff
}

/// How many times larger than the target an image is at least where it is decoded at a reduced
/// size.
pub const JPEG_SCALED_MIN_RATIO: u32 = 2;

/// The samples of a decoded JPEG picture.
#[derive(Debug, Clone, Copy, PartialEq, Eq, Structural)]
pub enum JpegFormat {
    L8,
    L16,
    Rgb24,
    Cmyk32,
}

/// The size and the samples of a JPEG picture.
#[derive(Debug, Clone, Copy, PartialEq, Eq, Structural)]
pub struct JpegInfo {
    pub width: u16,
    pub height: u16,
    pub format: JpegFormat,
}

/// What `jpeg_decoder::Decoder::info` says once `read_info` has read a file's header.
pub uninterp spec fn jpeg_info(bytes: Seq<u8>) -> Result<Option<JpegInfo>, Seq<char>>;

/// What `jpeg_decoder::Decoder::decode` makes of a file once `scale` has been asked for a size,
/// and what `info` says then.
pub uninterp spec fn jpeg_reduced(bytes: Seq<u8>, width: u16, height: u16) -> Result<
    (Seq<u8>, Option<JpegInfo>),
    Seq<char>,
>;

/// `jpeg_decoder::Decoder::read_info`, then `info`.
#[verifier::external_body]
fn read_jpeg_info(bytes: &[u8]) -> (info: Result<Option<JpegInfo>, String>)
    ensures
        match info {
            Ok(info) => jpeg_info(bytes@) == Ok::<Option<JpegInfo>, Seq<char>>(info),
            Err(message) => jpeg_info(bytes@) == Err::<Option<JpegInfo>, Seq<char>>(message@),
        },
{
    let mut decoder = jpeg_decoder::Decoder::new(std::io::Cursor::new(bytes));
    decoder.read_info().map_err(|error| error.to_string())?;
    Ok(decoder.info().map(|info| JpegInfo {
        width: info.width,
        height: info.height,
        format: match info.pixel_format {
            jpeg_decoder::PixelFormat::L8 => JpegFormat::L8,
            jpeg_decoder::PixelFormat::L16 => JpegFormat::L16,
            jpeg_decoder::PixelFormat::RGB24 => JpegFormat::Rgb24,
            jpeg_decoder::PixelFormat::CMYK32 => JpegFormat::Cmyk32,
        },
    }))
}

/// `jpeg_decoder::Decoder::scale`, then `decode` and `info`: neither edge is longer than the one
/// that `info` says before.
#[verifier::external_body]
fn decode_reduced_jpeg(bytes: &[u8], width: u16, height: u16) -> (decoded: Result<
    (Vec<u8>, Option<JpegInfo>),
    String,
>)
    ensures
        match decoded {
            Ok((pixels, info)) => {
                &&& jpeg_reduced(bytes@, width, height) == Ok::<
                    (Seq<u8>, Option<JpegInfo>),
                    Seq<char>,
                >((pixels@, info))
                &&& info matches Some(small) ==> jpeg_info(bytes@) matches Ok(Some(full))
                    && small.width <= full.width && small.height <= full.height
            },
            Err(message) => jpeg_reduced(bytes@, width, height) == Err::<
                (Seq<u8>, Option<JpegInfo>),
                Seq<char>,
            >(message@),
        },
{
    let mut decoder = jpeg_decoder::Decoder::new(std::io::Cursor::new(bytes));
    decoder.scale(width, height).map_err(|error| error.to_string())?;
    let pixels = decoder.decode().map_err(|error| error.to_string())?;
    Ok((pixels, decoder.info().map(|info| JpegInfo {
        width: info.width,
        height: info.height,
        format: match info.pixel_format {
            jpeg_decoder::PixelFormat::L8 => JpegFormat::L8,
            jpeg_decoder::PixelFormat::L16 => JpegFormat::L16,
            jpeg_decoder::PixelFormat::RGB24 => JpegFormat::Rgb24,
            jpeg_decoder::PixelFormat::CMYK32 => JpegFormat::Cmyk32,
        },
    })))
}

/// Bytes per pixel of decoded samples.
pub open spec fn jpeg_depth(format: JpegFormat) -> int {
    match format {
        JpegFormat::L8 => 1,
        JpegFormat::L16 => 2,
        JpegFormat::Rgb24 => 3,
        JpegFormat::Cmyk32 => 4,
    }
}

/// The message for samples that do not fit memory.
pub open spec fn jpeg_overflow(format: JpegFormat) -> Seq<char> {
    match format {
        JpegFormat::L8 => "JPEG dimensions overflow memory limits"@,
        JpegFormat::L16 => "JPEG 16-bit buffer size overflows memory limits"@,
        JpegFormat::Rgb24 => "JPEG RGB buffer size overflows memory limits"@,
        JpegFormat::Cmyk32 => "JPEG CMYK buffer size overflows memory limits"@,
    }
}

/// Decoded samples as they are kept: gray ones at one byte per pixel, colored ones as RGBA. The
/// flag says whether they are gray.
pub open spec fn jpeg_pixels(pixels: Seq<u8>, info: JpegInfo) -> Result<
    (bool, Seq<u8>),
    Seq<char>,
> {
    let count = info.width * info.height;
    if count * jpeg_depth(info.format) > usize::MAX {
        Err(jpeg_overflow(info.format))
    } else if pixels.len() != count * jpeg_depth(info.format) {
        Err("JPEG decoder returned an unexpected buffer size"@)
    } else if count * 4 > usize::MAX {
        Err("JPEG RGBA buffer size overflows memory limits"@)
    } else {
        match info.format {
            JpegFormat::L8 => Ok((true, pixels)),
            JpegFormat::Rgb24 => Ok(
                (false, crate::worker::pixels::rgba_of(PixelLayout::Rgb, pixels)),
            ),
            _ => Err("Unsupported JPEG pixel format for scaled decode"@),
        }
    }
}

/// Kept samples are the decoder's: gray ones stay as they came, one byte per pixel; of colored ones
/// every pixel keeps its red, green and blue and is opaque. Pixels are kept as gray only where the
/// decoder reported eight-bit gray, and only these two formats are kept.
pub proof fn kept_jpeg_pixels_are_the_decoded_ones(decoded: Seq<u8>, info: JpegInfo, i: int)
    requires
        0 <= i < info.width * info.height,
    ensures
        jpeg_pixels(decoded, info) matches Ok((gray, kept)) ==> {
            &&& gray == (info.format == JpegFormat::L8)
            &&& info.format == JpegFormat::L8 ==> decoded.len() == info.width * info.height
                && kept.len() == decoded.len() && kept[i] == decoded[i]
            &&& info.format != JpegFormat::L8 ==> {
                &&& info.format == JpegFormat::Rgb24
                &&& decoded.len() == 3 * (info.width * info.height)
                &&& kept.len() == 4 * (info.width * info.height)
                &&& kept[4 * i] == decoded[3 * i]
                &&& kept[4 * i + 1] == decoded[3 * i + 1]
                &&& kept[4 * i + 2] == decoded[3 * i + 2]
                &&& kept[4 * i + 3] == 255
            }
        },
        4 * (info.width * info.height) <= usize::MAX && (info.format == JpegFormat::L8
            && decoded.len() == info.width * info.height || info.format == JpegFormat::Rgb24
            && decoded.len() == 3 * (info.width * info.height)) ==> jpeg_pixels(decoded, info) is Ok,
{
    crate::worker::pixels::rgba_pixels_hold_their_samples(decoded, i);
    let count = info.width * info.height;
    vstd::arithmetic::div_mod::lemma_div_multiples_vanish(count, 3);
}

fn jpeg_samples(format: JpegFormat, count: usize) -> (samples: Result<usize, String>)
    ensures
        match samples {
            Ok(samples) => samples == count * jpeg_depth(format),
            Err(message) => count * jpeg_depth(format) > usize::MAX && message@ == jpeg_overflow(
                format,
            ),
        },
{
    match format {
        JpegFormat::L8 => Ok(count),
        JpegFormat::L16 => match count.checked_mul(2) {
            Some(samples) => Ok(samples),
            None => Err("JPEG 16-bit buffer size overflows memory limits".to_owned()),
        },
        JpegFormat::Rgb24 => match count.checked_mul(3) {
            Some(samples) => Ok(samples),
            None => Err("JPEG RGB buffer size overflows memory limits".to_owned()),
        },
        JpegFormat::Cmyk32 => match count.checked_mul(4) {
            Some(samples) => Ok(samples),
            None => Err("JPEG CMYK buffer size overflows memory limits".to_owned()),
        },
    }
}

/// Brings decoded samples to the form in which they are kept: see `jpeg_pixels`.
pub fn keep_jpeg_pixels(pixels: Vec<u8>, info: JpegInfo) -> (kept: Result<(bool, Vec<u8>), String>)
    ensures
        match kept {
            Ok((luma, bytes)) => {
                &&& jpeg_pixels(pixels@, info) == Ok::<(bool, Seq<u8>), Seq<char>>((luma, bytes@))
                &&& bytes@.len() == info.width * info.height * (if luma {
                    1int
                } else {
                    4int
                })
                &&& info.width * info.height * 4 <= usize::MAX
            },
            Err(message) => jpeg_pixels(pixels@, info) == Err::<(bool, Seq<u8>), Seq<char>>(
                message@,
            ),
        },
{
    assert(info.width * info.height <= 65535 * 65535) by (nonlinear_arith)
        requires
            info.width <= 65535,
            info.height <= 65535,
    ;
    let count: usize = info.width as usize * info.height as usize;
    let samples: usize = jpeg_samples(info.format, count)?;
    if pixels.len() != samples {
        return Err("JPEG decoder returned an unexpected buffer size".to_owned());
    }
    if count.checked_mul(4).is_none() {
        return Err("JPEG RGBA buffer size overflows memory limits".to_owned());
    }
    match info.format {
        JpegFormat::L8 => Ok((true, pixels)),
        JpegFormat::Rgb24 => {
            proof {
                vstd::arithmetic::div_mod::lemma_div_multiples_vanish(count as int, 3);
            }
            Ok((false, to_rgba(PixelLayout::Rgb, pixels.as_slice())))
        },
        _ => Err("Unsupported JPEG pixel format for scaled decode".to_owned()),
    }
}

/// What becomes of a JPEG file that is much larger than the target: it is decoded at a reduced
/// size, and resized from there.
pub open spec fn scaled_jpeg(bytes: Seq<u8>, target_long_edge: u32, options: DecodeOptions) -> Result<
    Option<DraftView>,
    Seq<char>,
> {
    let target = crate::worker::api::clamped_target(target_long_edge);
    match jpeg_info(bytes) {
        _ if !has_jpeg_signature(bytes) => Ok(None),
        Err(message) => Err(message),
        Ok(None) => Err("JPEG header did not include dimensions"@),
        Ok(Some(info)) => {
            let original = (info.width as u32, info.height as u32);
            let display = crate::worker::prepare::display_size(
                original.0,
                original.1,
                target,
                options.allow_display_upscale,
            );
            if !crate::worker::prepare::within_dimensions(original.0, original.1) {
                Err(crate::worker::prepare::dimensions_message(original.0, original.1))
            } else if original.0 == 0 || original.1 == 0 {
                Err("Image has zero-sized dimensions"@)
            } else if crate::worker::prepare::longest_edge(original.0, original.1) < target
                * JPEG_SCALED_MIN_RATIO {
                Ok(None)
            } else if info.format == JpegFormat::Cmyk32 || info.format == JpegFormat::L16 {
                Ok(None)
            } else {
                match reduced_jpeg(
                    jpeg_reduced(bytes, display.0 as u16, display.1 as u16),
                    original,
                    display,
                    target,
                    options,
                ) {
                    Ok(draft) => Ok(Some(draft)),
                    Err(message) => Err(message),
                }
            }
        },
    }
}

/// The draft of a picture that came out of the decoder at a reduced size.
pub open spec fn reduced_jpeg(
    decoded: Result<(Seq<u8>, Option<JpegInfo>), Seq<char>>,
    original: (u32, u32),
    display: (u32, u32),
    target: u32,
    options: DecodeOptions,
) -> Result<DraftView, Seq<char>> {
    match decoded {
        Err(message) => Err(message),
        Ok((_, None)) => Err("JPEG decoder did not report scaled dimensions"@),
        Ok((pixels, Some(info))) => match jpeg_pixels(pixels, info) {
            Err(message) => Err(message),
            Ok((luma, kept)) => {
                let size = (info.width as u32, info.height as u32);
                crate::worker::draft::drafted(
                    luma,
                    None,
                    kept,
                    size,
                    original,
                    display,
                    target,
                    DecodeBackend::JpegScaled,
                    options.scale_filter(size, display),
                    None,
                )
            },
        },
    }
}

/// A draft of a reduced picture keeps the file's shape and pixels: the original's size is the file's,
/// it is shown at the size that fits the target, and its pixels are what the decoder gave at about
/// that size. Only a file at least twice as large as the target is reduced, and the filter is the
/// one for enlarging where the reduced picture is still to grow.
pub proof fn scaled_jpegs_show_the_file(
    bytes: Seq<u8>,
    target_long_edge: u32,
    options: DecodeOptions,
    info: JpegInfo,
    draft: DraftView,
)
    requires
        jpeg_info(bytes) == Ok::<Option<JpegInfo>, Seq<char>>(Some(info)),
        scaled_jpeg(bytes, target_long_edge, options) == Ok::<Option<DraftView>, Seq<char>>(
            Some(draft),
        ),
    ensures
        draft.page.original == (info.width as int, info.height as int),
        draft.display == crate::worker::prepare::display_size(
            info.width as u32,
            info.height as u32,
            target_long_edge,
            options.allow_display_upscale,
        ),
        draft.page.display == (draft.display.0 as int, draft.display.1 as int),
        info.width >= 2 * draft.page.target_long_edge || info.height >= 2
            * draft.page.target_long_edge,
        draft.page.decode_backend == DecodeBackend::JpegScaled,
        draft.page.notice is None && draft.orientation is None && draft.icc_profile is None
            && draft.layout is None,
        jpeg_reduced(bytes, draft.display.0 as u16, draft.display.1 as u16) matches Ok(
            (pixels, Some(small)),
        ) && {
            &&& draft.size == (small.width as u32, small.height as u32)
            &&& jpeg_pixels(pixels, small) == Ok::<(bool, Seq<u8>), Seq<char>>(
                (draft.page.luma, draft.page.bytes),
            )
            &&& draft.filter == if draft.display.0 <= small.width && draft.display.1
                <= small.height {
                options.cpu_downscale_filter
            } else {
                options.cpu_upscale_filter
            }
        },
{
}

/// Drafts the page of a picture that came out of the decoder at a reduced size.
pub fn draft_reduced_jpeg(
    decoded: Result<(Vec<u8>, Option<JpegInfo>), String>,
    original: (u32, u32),
    display: (u32, u32),
    target: u32,
    options: DecodeOptions,
) -> (draft: Result<PageDraft, String>)
    requires
        decoded matches Ok((_, Some(info))) ==> crate::worker::resize::countable(
            (info.width as u32, info.height as u32),
            display,
        ),
    ensures
        crate::worker::draft::draft_outcome(draft) == reduced_jpeg(
            match decoded {
                Ok((pixels, info)) => Ok((pixels@, info)),
                Err(message) => Err(message@),
            },
            original,
            display,
            target,
            options,
        ),
        draft matches Ok(draft) ==> draft@.wf() && draft@.page.target_long_edge == target,
{
    let (pixels, reported) = decoded?;
    let info: JpegInfo = match reported {
        Some(info) => info,
        None => {
            return Err("JPEG decoder did not report scaled dimensions".to_owned());
        },
    };
    let size: (u32, u32) = (info.width as u32, info.height as u32);
    let (luma, kept) = keep_jpeg_pixels(pixels, info)?;
    let filter = options.scale_filter_for(size.0, size.1, display.0, display.1);
    draft_page(
        luma,
        None,
        kept,
        size,
        original,
        display,
        target,
        DecodeBackend::JpegScaled,
        filter,
        None,
    )
}

/// Decodes a JPEG file that is much larger than the target at a reduced size: see `scaled_jpeg`.
pub fn prepare_image_with_scaled_jpeg(
    bytes: &[u8],
    target_long_edge: u32,
    options: DecodeOptions,
) -> (draft: Result<Option<PageDraft>, String>)
    ensures
        crate::worker::draft::optional_draft(draft) == scaled_jpeg(bytes@, target_long_edge, options),
        draft matches Ok(Some(draft)) ==> draft@.wf() && draft@.page.target_long_edge
            == crate::worker::api::clamped_target(target_long_edge),
{
    if !is_jpeg(bytes) {
        return Ok(None);
    }
    let target: u32 = clamp_target_long_edge(target_long_edge);
    let info: JpegInfo = match read_jpeg_info(bytes)? {
        Some(info) => info,
        None => {
            return Err("JPEG header did not include dimensions".to_owned());
        },
    };
    let original: (u32, u32) = (info.width as u32, info.height as u32);
    reject_oversized_dimensions(original.0, original.1)?;
    let display: (u32, u32) = display_dimensions_with_upscale(
        original.0,
        original.1,
        target,
        options.allow_display_upscale,
    )?;
    let longest: u32 = if original.0 > original.1 {
        original.0
    } else {
        original.1
    };
    if longest < target * JPEG_SCALED_MIN_RATIO {
        return Ok(None);
    }
    match info.format {
        JpegFormat::L8 | JpegFormat::Rgb24 => {},
        JpegFormat::Cmyk32 | JpegFormat::L16 => {
            return Ok(None);
        },
    }
    let decoded = decode_reduced_jpeg(bytes, display.0 as u16, display.1 as u16);
    proof {
        crate::worker::prepare::display_size_fits_the_target(
            original.0,
            original.1,
            target,
            options.allow_display_upscale,
        );
        if let Ok((_, Some(small))) = decoded {
            crate::worker::resize::lemma_edges_are_countable(
                (small.width as u32, small.height as u32),
                display,
            );
        }
    }
    let draft = draft_reduced_jpeg(decoded, original, display, target, options)?;
    Ok(Some(draft))
}

/// A file is decoded at a reduced size exactly where it is at least twice as long as the target on one
/// side, and its samples are eight bits of gray or of red, green and blue.
pub proof fn large_jpegs_are_reduced(
    bytes: Seq<u8>,
    target_long_edge: u32,
    options: DecodeOptions,
    info: JpegInfo,
)
    requires
        has_jpeg_signature(bytes),
        jpeg_info(bytes) == Ok::<Option<JpegInfo>, Seq<char>>(Some(info)),
        0 < info.width <= 20_000 && 0 < info.height <= 20_000,
        1024 <= target_long_edge <= 20_000,
    ensures
        scaled_jpeg(bytes, target_long_edge, options) == Ok::<Option<DraftView>, Seq<char>>(None) <==> {
            ||| info.width < 2 * target_long_edge && info.height < 2 * target_long_edge
            ||| info.format != JpegFormat::L8 && info.format != JpegFormat::Rgb24
        },
{
}

} // verus!
