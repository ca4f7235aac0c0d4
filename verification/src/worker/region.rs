//! Rectangles of an original in its own pixels.
use crate::decoder_backend::{detect_format, DecoderFormat};
use crate::state::DecoderPreference;
use crate::worker::api::{DecodeBackend, DecodeOptions, DecodeStrategy};
use crate::worker::png::{prepare_exact_original_region_with_png_rows, PngRegion, PngRowError};
use std::sync::Arc;
use vstd::prelude::*;

verus! {

/// A rectangle of an original.
#[derive(Debug, Clone, Copy, PartialEq, Eq, Hash, Structural)]
pub struct OriginalRegion {
    pub x: u32,
    pub y: u32,
    pub width: u32,
    pub height: u32,
}

/// The pixels of such a rectangle.
#[derive(Clone)]
pub struct PreparedRegion {
    pub rgba: Arc<[u8]>,
    pub original_width: u32,
    pub original_height: u32,
    pub region: OriginalRegion,
    pub byte_size: usize,
    pub decode_backend: DecodeBackend,
}

impl PreparedRegion {
    pub fn image_size(&self) -> (size: [usize; 2])
        ensures
            size@ == seq![self.region.width as usize, self.region.height as usize],
    {
        [self.region.width as usize, self.region.height as usize]
    }
}

/// Whether a rectangle can be cut out without the rest of the page: the page is neither turned nor
/// recolored, and its own decoder is not ruled out.
pub open spec fn region_decoder_applies(options: DecodeOptions) -> bool {
    &&& options.strategy == DecodeStrategy::Auto
    &&& !options.apply_embedded_icc
    &&& !options.apply_exif_orientation
    &&& options.decoder_preferences.png == DecoderPreference::Default
        || options.decoder_preferences.png == DecoderPreference::PngCrate
}

pub fn can_use_region_decoder(options: DecodeOptions) -> (applies: bool)
    ensures
        applies == region_decoder_applies(options),
{
    options.strategy == DecodeStrategy::Auto && !options.apply_embedded_icc
        && !options.apply_exif_orientation && matches!(
        options.decoder_preferences.png,
        DecoderPreference::Default | DecoderPreference::PngCrate
    )
}

/// A rectangle as the PNG reader takes it.
pub open spec fn png_rectangle(region: OriginalRegion) -> PngRegion {
    PngRegion { x: region.x, y: region.y, width: region.width, height: region.height }
}

/// What becomes of a rectangle: the size of the original and the pixels, nothing where it cannot
/// be cut out, or the message why not.
pub open spec fn original_region(bytes: Seq<u8>, region: OriginalRegion, options: DecodeOptions) -> Result<
    Option<(u32, u32, Seq<u8>)>,
    Seq<char>,
> {
    if region_decoder_applies(options) && crate::decoder_backend::format_of(bytes) == Some(
        DecoderFormat::Png,
    ) {
        crate::worker::png::png_region(bytes, png_rectangle(region))
    } else {
        Ok(None)
    }
}

/// Cuts a rectangle out of an original: see `original_region`.
pub fn prepare_original_region_with_options(
    bytes: &[u8],
    region: OriginalRegion,
    options: DecodeOptions,
) -> (prepared: Result<Option<PreparedRegion>, String>)
    ensures
        match prepared {
            Ok(Some(prepared)) => {
                &&& original_region(bytes@, region, options) == Ok::<
                    Option<(u32, u32, Seq<u8>)>,
                    Seq<char>,
                >(Some((prepared.original_width, prepared.original_height, prepared.rgba@)))
                &&& prepared.region == region
                &&& prepared.byte_size == prepared.rgba@.len()
                &&& prepared.decode_backend == DecodeBackend::PngExactRows
            },
            Ok(None) => original_region(bytes@, region, options) == Ok::<
                Option<(u32, u32, Seq<u8>)>,
                Seq<char>,
            >(None),
            Err(message) => original_region(bytes@, region, options) == Err::<
                Option<(u32, u32, Seq<u8>)>,
                Seq<char>,
            >(message@),
        },
{
    if !can_use_region_decoder(options) {
        return Ok(None);
    }
    match detect_format(bytes) {
        Some(DecoderFormat::Png) => prepare_png_region(bytes, region),
        _ => Ok(None),
    }
}

fn prepare_png_region(bytes: &[u8], region: OriginalRegion) -> (prepared: Result<
    Option<PreparedRegion>,
    String,
>)
    ensures
        match prepared {
            Ok(Some(prepared)) => {
                &&& crate::worker::png::png_region(bytes@, png_rectangle(region)) == Ok::<
                    Option<(u32, u32, Seq<u8>)>,
                    Seq<char>,
                >(Some((prepared.original_width, prepared.original_height, prepared.rgba@)))
                &&& prepared.region == region
                &&& prepared.byte_size == prepared.rgba@.len()
                &&& prepared.decode_backend == DecodeBackend::PngExactRows
            },
            Ok(None) => crate::worker::png::png_region(bytes@, png_rectangle(region)) == Ok::<
                Option<(u32, u32, Seq<u8>)>,
                Seq<char>,
            >(None),
            Err(message) => crate::worker::png::png_region(bytes@, png_rectangle(region)) == Err::<
                Option<(u32, u32, Seq<u8>)>,
                Seq<char>,
            >(message@),
        },
{
    let rectangle = PngRegion {
        x: region.x,
        y: region.y,
        width: region.width,
        height: region.height,
    };
    match prepare_exact_original_region_with_png_rows(bytes, rectangle) {
        Ok(Some(image)) => Ok(
            Some(
                PreparedRegion {
                    rgba: image.rgba,
                    original_width: image.original_width,
                    original_height: image.original_height,
                    region,
                    byte_size: image.byte_size,
                    decode_backend: image.decode_backend,
                },
            ),
        ),
        Ok(None) => Ok(None),
        Err(PngRowError::ExactOriginal(message)) => Err(message),
        Err(PngRowError::FallbackAllowed(message)) => Err(message),
    }
}

/// A rectangle that is cut out shows the original's own pixels: the pixel at a place in it is the one
/// as far to the right and down in the original from the rectangle's corner. It is cut out of PNG
/// files alone, and only where the page is neither turned nor recolored.
pub proof fn regions_show_the_original(
    bytes: Seq<u8>,
    region: OriginalRegion,
    options: DecodeOptions,
    head: crate::worker::png::PngHead,
    cut: (u32, u32, Seq<u8>),
    x: int,
    y: int,
    row: Seq<u8>,
)
    requires
        original_region(bytes, region, options) == Ok::<Option<(u32, u32, Seq<u8>)>, Seq<char>>(
            Some(cut),
        ),
        crate::worker::png::png_head(bytes) == Ok::<crate::worker::png::PngHead, Seq<char>>(head),
        0 <= x < region.width,
        0 <= y < region.height,
        crate::worker::png::png_row(bytes, region.y + y) == Ok::<Option<Seq<u8>>, Seq<char>>(
            Some(row),
        ),
    ensures
        cut.0 == head.width && cut.1 == head.height,
        region.x + region.width <= head.width && region.y + region.height <= head.height,
        cut.2.len() == 4 * (region.width * region.height),
        head.layout matches Some(layout) && crate::worker::pixels::shows_sample(
            cut.2,
            4 * (y * region.width + x),
            layout,
            row,
            region.x + x,
        ),
        crate::decoder_backend::format_of(bytes) == Some(DecoderFormat::Png),
        !options.apply_embedded_icc && !options.apply_exif_orientation,
        options.strategy == DecodeStrategy::Auto,
{
    crate::worker::png::region_pixels_are_the_files(
        bytes,
        head.layout->0,
        png_rectangle(region),
        x,
        y,
        row,
    );
}

} // verus!
