//! Formats by their first bytes, and the decoders that are made for one format.
use crate::text;
use crate::worker::api::{DecodeBackend, MAX_DECODED_PAGE_BYTES, MAX_IMAGE_DIMENSION};
use crate::worker::gif::{is_gif, read_gif_frame, read_gif_screen, GifFrame, GifFrameView};
use crate::worker::jpeg::is_jpeg;
use crate::worker::pixels;
use crate::worker::pixels::{to_rgba, PixelLayout};
use crate::worker::png::{is_png, open_png, read_png_head, PngRows};
use crate::worker::png_chunks::reject_chunks;
use crate::worker::prepare::{reject_oversized_dimensions, reject_oversized_original};
use crate::worker::webp::{reject_canvas, reject_frame};
use vstd::prelude::*;

verus! {

/// The formats that are told apart.
#[derive(Debug, Clone, Copy, PartialEq, Eq, Structural)]
pub enum DecoderFormat {
    Jpeg,
    Png,
    Webp,
    Gif,
    Bmp,
    Ico,
    Avif,
    Svg,
    Psd,
    AiPdf,
}

/// Whether `bytes` holds the four bytes `a`, `b`, `c`, `d` at `offset`.
pub open spec fn tag_at(bytes: Seq<u8>, offset: int, a: u8, b: u8, c: u8, d: u8) -> bool {
    bytes.len() >= offset + 4 && bytes[offset] == a && bytes[offset + 1] == b && bytes[offset + 2]
        == c && bytes[offset + 3] == d
}

pub(crate) fn has_tag(bytes: &[u8], offset: usize, a: u8, b: u8, c: u8, d: u8) -> (found: bool)
    requires
        offset + 4 <= usize::MAX,
    ensures
        found == tag_at(bytes@, offset as int, a, b, c, d),
{
    bytes.len() >= offset + 4 && bytes[offset] == a && bytes[offset + 1] == b && bytes[offset + 2]
        == c && bytes[offset + 3] == d
}

/// The format that a file's first bytes stand for.
pub open spec fn format_of(bytes: Seq<u8>) -> Option<DecoderFormat> {
    if crate::worker::jpeg::has_jpeg_signature(bytes) {
        Some(DecoderFormat::Jpeg)
    } else if crate::worker::png::has_png_signature(bytes) {
        Some(DecoderFormat::Png)
    } else if tag_at(bytes, 0, 0x52, 0x49, 0x46, 0x46) && tag_at(bytes, 8, 0x57, 0x45, 0x42, 0x50) {
        Some(DecoderFormat::Webp)
    } else if crate::worker::gif::has_gif_signature(bytes) {
        Some(DecoderFormat::Gif)
    } else if bytes.len() >= 2 && bytes[0] == 0x42 && bytes[1] == 0x4d {
        Some(DecoderFormat::Bmp)
    } else if tag_at(bytes, 0, 0, 0, 1, 0) {
        Some(DecoderFormat::Ico)
    } else if tag_at(bytes, 4, 0x66, 0x74, 0x79, 0x70) && (tag_at(bytes, 8, 0x61, 0x76, 0x69, 0x66)
        || tag_at(bytes, 8, 0x61, 0x76, 0x69, 0x73)) {
        Some(DecoderFormat::Avif)
    } else if tag_at(bytes, 0, 0x3c, 0x73, 0x76, 0x67) {
        Some(DecoderFormat::Svg)
    } else if tag_at(bytes, 0, 0x38, 0x42, 0x50, 0x53) {
        Some(DecoderFormat::Psd)
    } else if tag_at(bytes, 0, 0x25, 0x50, 0x44, 0x46) && bytes.len() >= 5 && bytes[4] == 0x2d {
        Some(DecoderFormat::AiPdf)
    } else {
        None
    }
}

/// Whether a file holds these letters at a place.
pub open spec fn letters_at(bytes: Seq<u8>, offset: int, letters: Seq<char>) -> bool {
    bytes.len() >= offset + letters.len() && forall|i: int|
        0 <= i < letters.len() ==> #[trigger] bytes[offset + i] == letters[i] as int
}

/// Four letters stand at a place where each of the four bytes there is its letter.
pub proof fn lemma_four_letters(bytes: Seq<u8>, offset: int, letters: Seq<char>)
    requires
        letters.len() == 4,
        0 <= offset,
    ensures
        letters_at(bytes, offset, letters) <==> bytes.len() >= offset + 4 && bytes[offset]
            == letters[0] as int && bytes[offset + 1] == letters[1] as int && bytes[offset + 2]
            == letters[2] as int && bytes[offset + 3] == letters[3] as int,
{
    if letters_at(bytes, offset, letters) {
        assert(bytes[offset + 0] == letters[0] as int);
        assert(bytes[offset + 1] == letters[1] as int);
        assert(bytes[offset + 2] == letters[2] as int);
        assert(bytes[offset + 3] == letters[3] as int);
    }
}

/// Formats are told apart by the letters at the beginning of a file; a name that stands further on
/// counts where the file begins like no other format.
pub proof fn formats_are_told_by_their_letters(bytes: Seq<u8>)
    ensures
        format_of(bytes) == Some(DecoderFormat::Jpeg) <==> bytes.len() >= 3 && bytes[0] == 255
            && bytes[1] == 216 && bytes[2] == 255,
        format_of(bytes) == Some(DecoderFormat::Png) <==> bytes.len() >= 8 && bytes[0] == 137
            && bytes[1] == 'P' as int && bytes[2] == 'N' as int && bytes[3] == 'G' as int
            && bytes[4] == 13 && bytes[5] == 10 && bytes[6] == 26 && bytes[7] == 10,
        format_of(bytes) == Some(DecoderFormat::Webp) <==> letters_at(bytes, 0, "RIFF"@)
            && letters_at(bytes, 8, "WEBP"@),
        format_of(bytes) == Some(DecoderFormat::Gif) <==> letters_at(bytes, 0, "GIF8"@)
            && bytes.len() >= 6 && (bytes[4] == '7' as int || bytes[4] == '9' as int) && bytes[5]
            == 'a' as int,
        format_of(bytes) == Some(DecoderFormat::Bmp) <==> bytes.len() >= 2 && bytes[0]
            == 'B' as int && bytes[1] == 'M' as int,
        format_of(bytes) == Some(DecoderFormat::Ico) <==> bytes.len() >= 4 && bytes[0] == 0
            && bytes[1] == 0 && bytes[2] == 1 && bytes[3] == 0,
        format_of(bytes) == Some(DecoderFormat::Avif) ==> letters_at(bytes, 4, "ftyp"@) && (
        letters_at(bytes, 8, "avif"@) || letters_at(bytes, 8, "avis"@)),
        letters_at(bytes, 4, "ftyp"@) && (letters_at(bytes, 8, "avif"@) || letters_at(
            bytes,
            8,
            "avis"@,
        )) && bytes[0] == 0 && bytes[2] == 0 ==> format_of(bytes) == Some(DecoderFormat::Avif),
        format_of(bytes) == Some(DecoderFormat::Svg) ==> letters_at(bytes, 0, "<svg"@),
        format_of(bytes) == Some(DecoderFormat::Psd) ==> letters_at(bytes, 0, "8BPS"@),
        format_of(bytes) == Some(DecoderFormat::AiPdf) ==> letters_at(bytes, 0, "%PDF"@)
            && bytes.len() >= 5 && bytes[4] == '-' as int,
        !letters_at(bytes, 4, "ftyp"@) ==> {
            &&& letters_at(bytes, 0, "<svg"@) ==> format_of(bytes) == Some(DecoderFormat::Svg)
            &&& letters_at(bytes, 0, "8BPS"@) ==> format_of(bytes) == Some(DecoderFormat::Psd)
            &&& letters_at(bytes, 0, "%PDF"@) && bytes.len() >= 5 && bytes[4] == '-' as int
                ==> format_of(bytes) == Some(DecoderFormat::AiPdf)
        },
{
    reveal_strlit("RIFF");
    reveal_strlit("WEBP");
    reveal_strlit("GIF8");
    reveal_strlit("ftyp");
    reveal_strlit("avif");
    reveal_strlit("avis");
    reveal_strlit("<svg");
    reveal_strlit("8BPS");
    reveal_strlit("%PDF");
    lemma_four_letters(bytes, 0, "RIFF"@);
    lemma_four_letters(bytes, 8, "WEBP"@);
    lemma_four_letters(bytes, 0, "GIF8"@);
    lemma_four_letters(bytes, 4, "ftyp"@);
    lemma_four_letters(bytes, 8, "avif"@);
    lemma_four_letters(bytes, 8, "avis"@);
    lemma_four_letters(bytes, 0, "<svg"@);
    lemma_four_letters(bytes, 0, "8BPS"@);
    lemma_four_letters(bytes, 0, "%PDF"@);
}

pub fn detect_format(bytes: &[u8]) -> (format: Option<DecoderFormat>)
    ensures
        format == format_of(bytes@),
{
    if is_jpeg(bytes) {
        Some(DecoderFormat::Jpeg)
    } else if is_png(bytes) {
        Some(DecoderFormat::Png)
    } else if has_tag(bytes, 0, 0x52, 0x49, 0x46, 0x46) && has_tag(
        bytes,
        8,
        0x57,
        0x45,
        0x42,
        0x50,
    ) {
        Some(DecoderFormat::Webp)
    } else if is_gif(bytes) {
        Some(DecoderFormat::Gif)
    } else if bytes.len() >= 2 && bytes[0] == 0x42 && bytes[1] == 0x4d {
        Some(DecoderFormat::Bmp)
    } else if has_tag(bytes, 0, 0, 0, 1, 0) {
        Some(DecoderFormat::Ico)
    } else if has_tag(bytes, 4, 0x66, 0x74, 0x79, 0x70) && (has_tag(
        bytes,
        8,
        0x61,
        0x76,
        0x69,
        0x66,
    ) || has_tag(bytes, 8, 0x61, 0x76, 0x69, 0x73)) {
        Some(DecoderFormat::Avif)
    } else if has_tag(bytes, 0, 0x3c, 0x73, 0x76, 0x67) {
        Some(DecoderFormat::Svg)
    } else if has_tag(bytes, 0, 0x38, 0x42, 0x50, 0x53) {
        Some(DecoderFormat::Psd)
    } else if has_tag(bytes, 0, 0x25, 0x50, 0x44, 0x46) && bytes.len() >= 5 && bytes[4] == 0x2d {
        Some(DecoderFormat::AiPdf)
    } else {
        None
    }
}

/// Whether a WebP file says of itself that it is animated.
pub open spec fn webp_animated(bytes: Seq<u8>) -> bool {
    tag_at(bytes, 12, 0x56, 0x50, 0x38, 0x58) && bytes.len() >= 21 && (bytes[20] / 2) % 2 == 1
}

/// A WebP file says that it is animated by a bit among the flags of its extended header.
pub proof fn animated_files_say_so_in_their_header(bytes: Seq<u8>)
    requires
        bytes.len() >= 21,
    ensures
        webp_animated(bytes) <==> letters_at(bytes, 12, "VP8X"@) && bytes[20] & 2 == 2,
{
    reveal_strlit("VP8X");
    lemma_four_letters(bytes, 12, "VP8X"@);
    let flags = bytes[20];
    assert((flags / 2) % 2 == 1 <==> flags & 2 == 2) by (bit_vector);
}

pub fn is_webp_animated(bytes: &[u8]) -> (animated: bool)
    ensures
        animated == webp_animated(bytes@),
{
    has_tag(bytes, 12, 0x56, 0x50, 0x38, 0x58) && bytes.len() >= 21 && (bytes[20] / 2) % 2 == 1
}

/// The message for PostScript files, whose content only a PDF-compatible copy shows.
pub open spec fn postscript_message() -> Seq<char> {
    "Illustrator file has no PDF-compatible content; save it with a PDF-compatible copy"@
}

/// Why a file is not even tried, if it is not.
pub fn unsupported_message_for_bytes(bytes: &[u8]) -> (message: Option<&'static str>)
    ensures
        match message {
            Some(message) => tag_at(bytes@, 0, 0x25, 0x21, 0x50, 0x53) && message@
                == postscript_message(),
            None => !tag_at(bytes@, 0, 0x25, 0x21, 0x50, 0x53),
        },
{
    if has_tag(bytes, 0, 0x25, 0x21, 0x50, 0x53) {
        Some("Illustrator file has no PDF-compatible content; save it with a PDF-compatible copy")
    } else {
        None
    }
}

/// What a decoder hands out. The layout is missing where its samples are not known here.
pub struct RawPicture {
    pub layout: Option<PixelLayout>,
    pub width: u32,
    pub height: u32,
    pub samples: Vec<u8>,
}

/// What a decoder hands out, as plain data.
pub struct RawView {
    pub layout: Option<PixelLayout>,
    pub width: u32,
    pub height: u32,
    pub samples: Seq<u8>,
}

impl View for RawPicture {
    type V = RawView;

    open spec fn view(&self) -> RawView {
        RawView {
            layout: self.layout,
            width: self.width,
            height: self.height,
            samples: self.samples@,
        }
    }
}

/// The result of a decoder as plain data.
pub open spec fn raw_outcome(result: Result<RawPicture, String>) -> Result<RawView, Seq<char>> {
    match result {
        Ok(raw) => Ok(raw@),
        Err(message) => Err(message@),
    }
}

/// An RGBA picture.
pub struct DecodedRgba {
    pub width: u32,
    pub height: u32,
    pub pixels: Vec<u8>,
}

/// An RGBA picture as plain data.
pub struct DecodedView {
    pub width: u32,
    pub height: u32,
    pub pixels: Seq<u8>,
}

impl View for DecodedRgba {
    type V = DecodedView;

    open spec fn view(&self) -> DecodedView {
        DecodedView { width: self.width, height: self.height, pixels: self.pixels@ }
    }
}

/// The result of a direct decoder as plain data.
pub open spec fn decoded_outcome(result: Result<DecodedRgba, String>) -> Result<
    DecodedView,
    Seq<char>,
> {
    match result {
        Ok(decoded) => Ok(decoded@),
        Err(message) => Err(message@),
    }
}

/// A decoder's samples as RGBA.
pub open spec fn raw_rgba(raw: RawView) -> Result<DecodedView, Seq<char>> {
    if !crate::worker::prepare::within_dimensions(raw.width, raw.height) {
        Err(crate::worker::prepare::dimensions_message(raw.width, raw.height))
    } else if raw.layout is None {
        Err("decoder returned an unsupported pixel layout"@)
    } else if raw.samples.len() != raw.width * raw.height * raw.layout->0.width() {
        Err("decoder returned an unexpected buffer size"@)
    } else {
        Ok(
            DecodedView {
                width: raw.width,
                height: raw.height,
                pixels: pixels::rgba_of(raw.layout->0, raw.samples),
            },
        )
    }
}

/// A decoder's picture keeps its size, and every pixel shows the samples of its own place. It is
/// taken wherever its edges are within the limit and its samples make up its size.
pub proof fn decoded_pixels_show_their_samples(raw: RawView, layout: PixelLayout, i: int)
    requires
        raw.layout == Some(layout),
        0 <= i < raw.width * raw.height,
    ensures
        raw_rgba(raw) matches Ok(decoded) ==> {
            &&& decoded.width == raw.width && decoded.height == raw.height
            &&& decoded.pixels.len() == 4 * (raw.width * raw.height)
            &&& pixels::shows_sample(decoded.pixels, 4 * i, layout, raw.samples, i)
        },
        raw_rgba(raw) is Ok <==> raw.width <= 20_000 && raw.height <= 20_000 && raw.samples.len()
            == raw.width * raw.height * (match layout {
            PixelLayout::Luma => 1int,
            PixelLayout::LumaAlpha => 2,
            PixelLayout::Rgb => 3,
            PixelLayout::Rgba => 4,
        }),
{
    if let Ok(decoded) = raw_rgba(raw) {
        let count = raw.width * raw.height;
        let depth = layout.width();
        vstd::arithmetic::div_mod::lemma_div_multiples_vanish(count, depth);
        assert(depth * count == count * depth) by (nonlinear_arith);
        assert forall|c: int| 0 <= c < 4 implies #[trigger] decoded.pixels[4 * i + c]
            == layout.channel(raw.samples, i * depth, c) by {
            assert((4 * i + c) / 4 == i && (4 * i + c) % 4 == c);
        }
        pixels::channels_show_their_sample(decoded.pixels, 4 * i, layout, raw.samples, i);
    }
}

/// `raw_rgba` of what a decoder returned.
pub open spec fn raw_result_rgba(raw: Result<RawView, Seq<char>>) -> Result<DecodedView, Seq<char>> {
    match raw {
        Ok(raw) => raw_rgba(raw),
        Err(message) => Err(message),
    }
}

/// Brings a decoder's samples to RGBA: see `raw_rgba`.
pub fn raw_to_rgba(raw: RawPicture) -> (decoded: Result<DecodedRgba, String>)
    ensures
        decoded_outcome(decoded) == raw_rgba(raw@),
{
    reject_oversized_dimensions(raw.width, raw.height)?;
    let layout: PixelLayout = match raw.layout {
        Some(layout) => layout,
        None => {
            return Err("decoder returned an unsupported pixel layout".to_owned());
        },
    };
    let channels: usize = layout.channels();
    proof {
        assert(raw.width * raw.height <= 400_000_000) by (nonlinear_arith)
            requires
                raw.width <= 20_000,
                raw.height <= 20_000,
        ;
        let count = raw.width * raw.height;
        assert(0 <= count * channels <= 1_600_000_000) by (nonlinear_arith)
            requires
                0 <= count <= 400_000_000,
                1 <= channels <= 4,
        ;
    }
    let expected: usize = raw.width as usize * raw.height as usize * channels;
    if raw.samples.len() != expected {
        return Err("decoder returned an unexpected buffer size".to_owned());
    }
    let pixels = to_rgba(layout, raw.samples.as_slice());
    Ok(DecodedRgba { width: raw.width, height: raw.height, pixels })
}

/// What `zune_jpeg::JpegDecoder::decode` makes of a file, as RGBA, with a limit on its edges.
pub uninterp spec fn zune_jpeg_picture(bytes: Seq<u8>, max_edge: usize) -> Result<
    RawView,
    Seq<char>,
>;

/// What `zune_png::PngDecoder::decode` makes of a file, with an alpha channel and eight bits, and
/// with a limit on its edges.
pub uninterp spec fn zune_png_picture(bytes: Seq<u8>, max_edge: usize) -> Result<
    RawView,
    Seq<char>,
>;

/// What `zune_psd::PSDDecoder::decode` makes of a file, with a limit on its edges.
pub uninterp spec fn zune_psd_picture(bytes: Seq<u8>, max_edge: usize) -> Result<
    RawView,
    Seq<char>,
>;

/// What `image_webp::WebPDecoder::read_image` makes of a file, with a limit on its memory.
pub uninterp spec fn webp_picture(bytes: Seq<u8>, max_alloc: usize) -> Result<RawView, Seq<char>>;

/// What `png::Reader::next_frame` makes of a file's first frame.
pub uninterp spec fn png_frame(bytes: Seq<u8>) -> Result<RawView, Seq<char>>;

/// What `image::ImageReader::decode` makes of a file that is read as a BMP or ICO file.
pub uninterp spec fn codec_picture(bytes: Seq<u8>, icon: bool, max_edge: u32, max_alloc: u64) -> Result<
    RawView,
    Seq<char>,
>;

/// `zune_jpeg::JpegDecoder::decode` to RGBA.
#[verifier::external_body]
fn run_zune_jpeg(bytes: &[u8], max_edge: usize) -> (raw: Result<RawPicture, String>)
    ensures
        raw_outcome(raw) == zune_jpeg_picture(bytes@, max_edge),
{
    let options = zune_core::options::DecoderOptions::default().set_max_width(max_edge).set_max_height(max_edge)
        .jpeg_set_out_colorspace(zune_core::colorspace::ColorSpace::RGBA);
    let mut decoder = zune_jpeg::JpegDecoder::new_with_options(std::io::Cursor::new(bytes), options);
    let samples = decoder.decode().map_err(|error| format!("{error:?}"))?;
    let (width, height) = decoder.info().map(|info| (u32::from(info.width), u32::from(info.height))).unwrap_or_default();
    Ok(RawPicture { layout: Some(PixelLayout::Rgba), width, height, samples })
}

/// `zune_png::PngDecoder::decode` with an alpha channel and eight bits, on a file whose chunks it
/// can take.
#[verifier::external_body]
fn run_zune_png(bytes: &[u8], max_edge: usize) -> (raw: Result<RawPicture, String>)
    requires
        crate::worker::png_chunks::png_can_be_taken(bytes@, max_edge as int),
        max_edge <= MAX_IMAGE_DIMENSION,
    ensures
        raw_outcome(raw) == zune_png_picture(bytes@, max_edge),
{
    let options = zune_core::options::DecoderOptions::default().set_max_width(max_edge).set_max_height(max_edge)
        .png_set_add_alpha_channel(true).png_set_strip_to_8bit(true);
    let mut decoder = zune_png::PngDecoder::new_with_options(std::io::Cursor::new(bytes), options);
    let samples = decoder.decode().map_err(|error| format!("{error:?}"))?.u8().unwrap_or_default();
    let (width, height) = decoder.dimensions().unwrap_or_default();
    let layout = match decoder.colorspace() {
        Some(zune_core::colorspace::ColorSpace::LumaA) => Some(PixelLayout::LumaAlpha),
        Some(zune_core::colorspace::ColorSpace::RGBA) => Some(PixelLayout::Rgba),
        _ => None,
    };
    Ok(RawPicture { layout, width: width as u32, height: height as u32, samples })
}

/// `zune_psd::PSDDecoder::decode` of the flattened picture.
#[verifier::external_body]
fn run_zune_psd(bytes: &[u8], max_edge: usize) -> (raw: Result<RawPicture, String>)
    requires
        max_edge <= MAX_IMAGE_DIMENSION,
    ensures
        raw_outcome(raw) == zune_psd_picture(bytes@, max_edge),
{
    let options = zune_core::options::DecoderOptions::default().set_max_width(max_edge).set_max_height(max_edge);
    let mut decoder = zune_psd::PSDDecoder::new_with_options(std::io::Cursor::new(bytes), options);
    let samples = decoder.decode().map_err(|error| format!("{error:?}"))?.u8().unwrap_or_default();
    let (width, height) = decoder.dimensions().unwrap_or_default();
    let layout = match decoder.colorspace() {
        Some(zune_core::colorspace::ColorSpace::Luma) => Some(PixelLayout::Luma),
        Some(zune_core::colorspace::ColorSpace::RGB) => Some(PixelLayout::Rgb),
        Some(zune_core::colorspace::ColorSpace::RGBA) => Some(PixelLayout::Rgba),
        _ => None,
    };
    Ok(RawPicture { layout, width: width as u32, height: height as u32, samples })
}

/// `image_webp::WebPDecoder::read_image`: the picture, or the first frame of an animation.
#[verifier::external_body]
fn run_image_webp(bytes: &[u8], max_alloc: usize) -> (raw: Result<RawPicture, String>)
    requires
        crate::worker::webp::alpha_frame_agrees(bytes@),
        crate::worker::webp::canvas_is_countable(bytes@),
    ensures
        raw_outcome(raw) == webp_picture(bytes@, max_alloc),
{
    let mut decoder = image_webp::WebPDecoder::new(std::io::Cursor::new(bytes)).map_err(|error| error.to_string())?;
    decoder.set_memory_limit(max_alloc);
    let (width, height) = decoder.dimensions();
    let layout = Some(if decoder.has_alpha() { PixelLayout::Rgba } else { PixelLayout::Rgb });
    let mut samples = vec![0u8; decoder.output_buffer_size().unwrap_or_default()];
    decoder.read_image(&mut samples).map_err(|error| error.to_string())?;
    Ok(RawPicture { layout, width, height, samples })
}

/// `png::Reader::next_frame` on a file's first frame.
#[verifier::external_body]
fn run_png_frame(rows: PngRows) -> (raw: Result<RawPicture, String>)
    requires
        crate::worker::png::png_position(rows).1 == 0,
    ensures
        raw_outcome(raw) == png_frame(crate::worker::png::png_position(rows).0),
{
    let mut reader = rows.reader;
    let mut samples = vec![0u8; reader.output_buffer_size().unwrap_or_default()];
    let info = reader.next_frame(&mut samples).map_err(|error| error.to_string())?;
    let layout = match info.color_type {
        png::ColorType::Grayscale => Some(PixelLayout::Luma),
        png::ColorType::GrayscaleAlpha => Some(PixelLayout::LumaAlpha),
        png::ColorType::Rgb => Some(PixelLayout::Rgb),
        png::ColorType::Rgba => Some(PixelLayout::Rgba),
        png::ColorType::Indexed => None,
    };
    Ok(RawPicture { layout, width: info.width, height: info.height, samples })
}

/// `image::ImageReader::decode` with the format given.
#[verifier::external_body]
fn run_codec(bytes: &[u8], icon: bool, max_edge: u32, max_alloc: u64) -> (raw: Result<
    RawPicture,
    String,
>)
    ensures
        raw_outcome(raw) == codec_picture(bytes@, icon, max_edge, max_alloc),
{
    let format = if icon { image::ImageFormat::Ico } else { image::ImageFormat::Bmp };
    let mut reader = image::ImageReader::with_format(std::io::Cursor::new(bytes), format);
    let mut limits = image::Limits::default();
    (limits.max_image_width, limits.max_image_height, limits.max_alloc) = (Some(max_edge), Some(max_edge), Some(max_alloc));
    reader.limits(limits);
    let rgba = reader.decode().map_err(|error| error.to_string())?.into_rgba8();
    let (width, height) = (rgba.width(), rgba.height());
    Ok(RawPicture { layout: Some(PixelLayout::Rgba), width, height, samples: rgba.into_raw() })
}

/// Decodes a JPEG file.
pub fn decode_zune_jpeg(bytes: &[u8]) -> (decoded: Result<DecodedRgba, String>)
    ensures
        decoded_outcome(decoded) == raw_result_rgba(
            zune_jpeg_picture(bytes@, MAX_IMAGE_DIMENSION as usize),
        ),
{
    raw_to_rgba(run_zune_jpeg(bytes, MAX_IMAGE_DIMENSION as usize)?)
}

/// What a PNG file is decoded to. One with chunks that the decoder cannot take is refused.
pub open spec fn zune_png_decoded(bytes: Seq<u8>) -> Result<DecodedView, Seq<char>> {
    if crate::worker::png_chunks::png_can_be_taken(bytes, MAX_IMAGE_DIMENSION as int) {
        raw_result_rgba(zune_png_picture(bytes, MAX_IMAGE_DIMENSION as usize))
    } else {
        Err(crate::worker::png_chunks::chunk_message())
    }
}

/// Decodes a PNG file.
pub fn decode_zune_png(bytes: &[u8]) -> (decoded: Result<DecodedRgba, String>)
    ensures
        decoded_outcome(decoded) == zune_png_decoded(bytes@),
{
    reject_chunks(bytes, MAX_IMAGE_DIMENSION as usize)?;
    raw_to_rgba(run_zune_png(bytes, MAX_IMAGE_DIMENSION as usize)?)
}

/// What a WebP file is decoded to. One with sizes that the decoder cannot take is refused.
pub open spec fn webp_decoded(bytes: Seq<u8>) -> Result<DecodedView, Seq<char>> {
    if !crate::worker::webp::alpha_frame_agrees(bytes) {
        Err(crate::worker::webp::frame_message())
    } else if !crate::worker::webp::canvas_is_countable(bytes) {
        Err(crate::worker::webp::canvas_message())
    } else {
        raw_result_rgba(webp_picture(bytes, MAX_DECODED_PAGE_BYTES))
    }
}

/// Decodes a WebP file.
pub fn decode_image_webp(bytes: &[u8]) -> (decoded: Result<DecodedRgba, String>)
    ensures
        decoded_outcome(decoded) == webp_decoded(bytes@),
{
    reject_frame(bytes)?;
    reject_canvas(bytes)?;
    raw_to_rgba(run_image_webp(bytes, MAX_DECODED_PAGE_BYTES)?)
}

/// Decodes a BMP file.
pub fn decode_bmp(bytes: &[u8]) -> (decoded: Result<DecodedRgba, String>)
    ensures
        decoded_outcome(decoded) == raw_result_rgba(
            codec_picture(bytes@, false, MAX_IMAGE_DIMENSION, MAX_DECODED_PAGE_BYTES as u64),
        ),
{
    raw_to_rgba(run_codec(bytes, false, MAX_IMAGE_DIMENSION, MAX_DECODED_PAGE_BYTES as u64)?)
}

/// Decodes an ICO file.
pub fn decode_ico(bytes: &[u8]) -> (decoded: Result<DecodedRgba, String>)
    ensures
        decoded_outcome(decoded) == raw_result_rgba(
            codec_picture(bytes@, true, MAX_IMAGE_DIMENSION, MAX_DECODED_PAGE_BYTES as u64),
        ),
{
    raw_to_rgba(run_codec(bytes, true, MAX_IMAGE_DIMENSION, MAX_DECODED_PAGE_BYTES as u64)?)
}

/// What the PNG decoder makes of a file that is not too large.
pub open spec fn whole_png(bytes: Seq<u8>) -> Result<DecodedView, Seq<char>> {
    match crate::worker::png::png_head(bytes) {
        Err(message) => Err(message),
        Ok(head) => {
            let too_large = crate::worker::prepare::original_rejection(head.width, head.height);
            if too_large is Some {
                Err(too_large->0)
            } else {
                raw_result_rgba(png_frame(bytes))
            }
        },
    }
}

/// Decodes a PNG file whole.
pub fn decode_png_crate(bytes: &[u8]) -> (decoded: Result<DecodedRgba, String>)
    ensures
        decoded_outcome(decoded) == whole_png(bytes@),
{
    let rows = open_png(vstd::slice::slice_to_vec(bytes))?;
    let head = read_png_head(&rows);
    reject_oversized_original(head.width, head.height)?;
    raw_to_rgba(run_png_frame(rows)?)
}

/// The number that two bytes stand for, most significant first.
pub open spec fn be16(bytes: Seq<u8>, offset: int) -> int {
    bytes[offset] * 256 + bytes[offset + 1]
}

/// The number that four bytes stand for, most significant first.
pub open spec fn be32(bytes: Seq<u8>, offset: int) -> int {
    be16(bytes, offset) * 65536 + be16(bytes, offset + 2)
}

fn read_be16(bytes: &[u8], offset: usize) -> (value: u16)
    requires
        offset + 2 <= bytes@.len(),
    ensures
        value == be16(bytes@, offset as int),
{
    bytes[offset] as u16 * 256 + bytes[offset + 1] as u16
}

fn read_be32(bytes: &[u8], offset: usize) -> (value: u32)
    requires
        offset + 4 <= bytes@.len(),
    ensures
        value == be32(bytes@, offset as int),
{
    assert(bytes.len() == bytes@.len());
    read_be16(bytes, offset) as u32 * 65536 + read_be16(bytes, offset + 2) as u32
}

/// Why a Photoshop file is not decoded, judged by its header alone.
pub open spec fn psd_rejection(bytes: Seq<u8>) -> Option<Seq<char>> {
    if bytes.len() < 26 {
        Some("PSD header is truncated"@)
    } else if be16(bytes, 24) != 1 && be16(bytes, 24) != 3 {
        Some("unsupported PSD color mode: "@ + text::decimal(be16(bytes, 24)))
    } else if be16(bytes, 22) != 8 {
        Some("unsupported PSD bit depth: "@ + text::decimal(be16(bytes, 22)))
    } else {
        crate::worker::prepare::original_rejection(be32(bytes, 18) as u32, be32(bytes, 14) as u32)
    }
}

/// A Photoshop file is accepted by its header where that is whole, has samples of eight bits in gray
/// or in red, green and blue, and a picture within the limits. The numbers stand at their places,
/// most significant byte first, the height before the width.
pub proof fn photoshop_files_are_judged_by_their_header(bytes: Seq<u8>, width: u32, height: u32)
    requires
        bytes.len() >= 26,
        height == 16777216 * bytes[14] + 65536 * bytes[15] + 256 * bytes[16] + bytes[17],
        width == 16777216 * bytes[18] + 65536 * bytes[19] + 256 * bytes[20] + bytes[21],
    ensures
        psd_rejection(bytes) is None <==> {
            &&& bytes[22] == 0 && bytes[23] == 8
            &&& bytes[24] == 0 && (bytes[25] == 1 || bytes[25] == 3)
            &&& width <= 20_000 && height <= 20_000
            &&& 4 * (width * height) <= 268_435_456
        },
        psd_rejection(bytes.take(25)) is Some,
{
}

/// Judges a Photoshop file by its header: see `psd_rejection`.
pub fn reject_psd_header(bytes: &[u8]) -> (result: Result<(), String>)
    ensures
        match result {
            Ok(_) => psd_rejection(bytes@) is None,
            Err(message) => psd_rejection(bytes@) == Some(message@),
        },
{
    if bytes.len() < 26 {
        return Err("PSD header is truncated".to_owned());
    }
    let mode: u16 = read_be16(bytes, 24);
    if mode != 1 && mode != 3 {
        let mut message = "unsupported PSD color mode: ".to_owned();
        text::push_decimal(&mut message, mode as u64);
        return Err(message);
    }
    let depth: u16 = read_be16(bytes, 22);
    if depth != 8 {
        let mut message = "unsupported PSD bit depth: ".to_owned();
        text::push_decimal(&mut message, depth as u64);
        return Err(message);
    }
    reject_oversized_original(read_be32(bytes, 18), read_be32(bytes, 14))
}

/// What the Photoshop decoder makes of a file whose header is accepted.
pub open spec fn psd_picture(bytes: Seq<u8>) -> Result<DecodedView, Seq<char>> {
    match psd_rejection(bytes) {
        Some(message) => Err(message),
        None => raw_result_rgba(zune_psd_picture(bytes, MAX_IMAGE_DIMENSION as usize)),
    }
}

/// Decodes the flattened picture of a Photoshop file.
pub fn decode_zune_psd(bytes: &[u8]) -> (decoded: Result<DecodedRgba, String>)
    ensures
        decoded_outcome(decoded) == psd_picture(bytes@),
{
    reject_psd_header(bytes)?;
    raw_to_rgba(run_zune_psd(bytes, MAX_IMAGE_DIMENSION as usize)?)
}

/// The RGBA channel `c` at `x`, `y` of a screen that shows a frame and nothing else.
pub open spec fn framed_channel(frame: GifFrameView, x: int, y: int, c: int) -> u8 {
    if frame.left <= x < frame.left + frame.width && frame.top <= y < frame.top + frame.height {
        frame.buffer[pixels::raster_index(frame.width as int, 4, x - frame.left, y - frame.top, c)]
    } else {
        0
    }
}

/// A frame on an otherwise transparent screen.
pub open spec fn framed(frame: GifFrameView, width: u32, height: u32) -> Result<
    DecodedView,
    Seq<char>,
> {
    if frame.buffer.len() != frame.width * frame.height * 4 {
        Err("GIF frame buffer did not match dimensions"@)
    } else {
        Ok(
            DecodedView {
                width,
                height,
                pixels: pixels::raster(
                    width as int,
                    height as int,
                    4,
                    |x: int, y: int, c: int| framed_channel(frame, x, y, c),
                ),
            },
        )
    }
}

/// A frame stands on its screen at its corner: there its pixels are shown one for one, and the screen
/// is transparent everywhere else. It is put there wherever its pixels make up its size.
pub proof fn frames_stand_at_their_corner(
    frame: GifFrameView,
    width: u32,
    height: u32,
    x: int,
    y: int,
    c: int,
)
    requires
        0 <= x < width,
        0 <= y < height,
        0 <= c < 4,
    ensures
        framed(frame, width, height) is Ok <==> frame.buffer.len() == 4 * (frame.width
            * frame.height),
        framed(frame, width, height) matches Ok(screen) ==> {
            let k = 4 * (y * width + x) + c;
            let (across, down) = (x - frame.left, y - frame.top);
            let inside = 0 <= across < frame.width && 0 <= down < frame.height;
            &&& screen.width == width && screen.height == height
            &&& screen.pixels.len() == 4 * (width * height)
            &&& 0 <= k < screen.pixels.len()
            &&& inside ==> screen.pixels[k] == frame.buffer[4 * (down * frame.width + across) + c]
            &&& !inside ==> screen.pixels[k] == 0
        },
{
    let channel = |x: int, y: int, c: int| framed_channel(frame, x, y, c);
    pixels::lemma_raster_at(width as int, height as int, 4, channel, x, y, c);
    pixels::lemma_raster_index(width as int, height as int, 4, x, y, c);
    if let Ok(screen) = framed(frame, width, height) {
        assert(screen.pixels =~= pixels::raster(width as int, height as int, 4, channel));
    }
}

fn push_framed_pixel(out: &mut Vec<u8>, frame: &GifFrame, x: u32, y: u32)
    requires
        frame.buffer@.len() == frame.width * frame.height * 4,
    ensures
        final(out)@ == old(out)@ + Seq::new(
            4,
            |c: int| framed_channel(frame@, x as int, y as int, c),
        ),
{
    let left: u32 = frame.left as u32;
    let top: u32 = frame.top as u32;
    let width: u32 = frame.width as u32;
    if left <= x && x - left < width && top <= y && y - top < frame.height as u32 {
        let column: usize = (x - left) as usize;
        let row: usize = (y - top) as usize;
        proof {
            pixels::lemma_raster_index(
                frame.width as int,
                frame.height as int,
                4,
                column as int,
                row as int,
                0,
            );
            pixels::lemma_raster_index(
                frame.width as int,
                frame.height as int,
                4,
                column as int,
                row as int,
                3,
            );
            assert(frame.buffer.len() == frame.buffer@.len());
            assert(row * width >= 0) by (nonlinear_arith)
                requires
                    row >= 0,
                    width >= 0,
            ;
        }
        let offset: usize = (row * width as usize + column) * 4;
        out.push(frame.buffer[offset]);
        out.push(frame.buffer[offset + 1]);
        out.push(frame.buffer[offset + 2]);
        out.push(frame.buffer[offset + 3]);
    } else {
        out.push(0);
        out.push(0);
        out.push(0);
        out.push(0);
    }
    assert(out@ =~= old(out)@ + Seq::new(
        4,
        |c: int| framed_channel(frame@, x as int, y as int, c),
    ));
}

/// Puts a frame on an otherwise transparent screen: see `framed`.
pub fn frame_on_screen(frame: &GifFrame, width: u32, height: u32) -> (decoded: Result<
    DecodedRgba,
    String,
>)
    ensures
        decoded_outcome(decoded) == framed(frame@, width, height),
{
    proof {
        assert(frame.width * frame.height <= 65535 * 65535) by (nonlinear_arith)
            requires
                frame.width <= 65535,
                frame.height <= 65535,
        ;
    }
    let samples: u64 = frame.width as u64 * frame.height as u64 * 4;
    if frame.buffer.len() as u64 != samples {
        return Err("GIF frame buffer did not match dimensions".to_owned());
    }
    let ghost channel = |x: int, y: int, c: int| framed_channel(frame@, x, y, c);
    let ghost whole = pixels::raster(width as int, height as int, 4, channel);
    let mut out: Vec<u8> = Vec::new();
    let mut y: u32 = 0;
    assert(whole.take(0) =~= Seq::<u8>::empty());
    while y < height
        invariant
            y <= height,
            frame.buffer@.len() == frame.width * frame.height * 4,
            channel == (|x: int, y: int, c: int| framed_channel(frame@, x, y, c)),
            whole == pixels::raster(width as int, height as int, 4, channel),
            out@ == whole.take((y * width) * 4),
        decreases height - y,
    {
        let mut x: u32 = 0;
        assert(y * width + 0 == y * width);
        while x < width
            invariant
                x <= width,
                y < height,
                frame.buffer@.len() == frame.width * frame.height * 4,
                channel == (|x: int, y: int, c: int| framed_channel(frame@, x, y, c)),
                whole == pixels::raster(width as int, height as int, 4, channel),
                out@ == whole.take((y * width + x) * 4),
            decreases width - x,
        {
            let ghost part = out@;
            push_framed_pixel(&mut out, frame, x, y);
            proof {
                pixels::lemma_raster_extend(
                    width as int,
                    height as int,
                    4,
                    channel,
                    x as int,
                    y as int,
                    part,
                    Seq::new(4, |c: int| framed_channel(frame@, x as int, y as int, c)),
                );
            }
            x = x + 1;
        }
        assert((y + 1) * width == y * width + width) by (nonlinear_arith);
        y = y + 1;
    }
    assert(height * width == width * height) by (nonlinear_arith);
    assert(whole.take(height * width * 4) =~= whole);
    Ok(DecodedRgba { width, height, pixels: out })
}

/// What becomes of the first frame of a GIF file.
pub open spec fn first_gif_frame(bytes: Seq<u8>) -> Result<DecodedView, Seq<char>> {
    match crate::worker::gif::gif_screen(bytes) {
        Err(message) => Err(message),
        Ok(screen) => {
            let too_large = crate::worker::prepare::original_rejection(
                screen.width as u32,
                screen.height as u32,
            );
            if too_large is Some {
                Err(too_large->0)
            } else {
                match crate::worker::gif::gif_frame(bytes, true) {
                    Err(message) => Err(message),
                    Ok(None) => Err("GIF did not include a frame"@),
                    Ok(Some(frame)) => framed(frame, screen.width as u32, screen.height as u32),
                }
            }
        },
    }
}

/// Decodes the first frame of a GIF file.
pub fn decode_gif_first_frame(bytes: &[u8]) -> (decoded: Result<DecodedRgba, String>)
    ensures
        decoded_outcome(decoded) == first_gif_frame(bytes@),
{
    let screen = read_gif_screen(bytes)?;
    let width: u32 = screen.width as u32;
    let height: u32 = screen.height as u32;
    reject_oversized_original(width, height)?;
    match read_gif_frame(bytes, true)? {
        Some(frame) => frame_on_screen(&frame, width, height),
        None => Err("GIF did not include a frame".to_owned()),
    }
}

/// What the decoder made for one format yields for a file.
pub open spec fn direct_picture(backend: DecodeBackend, bytes: Seq<u8>) -> Result<
    DecodedView,
    Seq<char>,
> {
    match backend {
        DecodeBackend::ZuneJpeg => raw_result_rgba(
            zune_jpeg_picture(bytes, MAX_IMAGE_DIMENSION as usize),
        ),
        DecodeBackend::PngCrate => whole_png(bytes),
        DecodeBackend::ZunePng => zune_png_decoded(bytes),
        DecodeBackend::ImageWebp => webp_decoded(bytes),
        DecodeBackend::GifCrate => first_gif_frame(bytes),
        DecodeBackend::BmpFastPath => raw_result_rgba(
            codec_picture(bytes, false, MAX_IMAGE_DIMENSION, MAX_DECODED_PAGE_BYTES as u64),
        ),
        DecodeBackend::IcoFastPath => raw_result_rgba(
            codec_picture(bytes, true, MAX_IMAGE_DIMENSION, MAX_DECODED_PAGE_BYTES as u64),
        ),
        DecodeBackend::ZunePsd => psd_picture(bytes),
        _ => Err("backend has no direct decoder"@),
    }
}

/// What a decoder made for one format yields is a whole picture within the limit on its edges.
pub proof fn direct_pictures_are_whole(backend: DecodeBackend, bytes: Seq<u8>)
    ensures
        direct_picture(backend, bytes) matches Ok(decoded) ==> {
            &&& decoded.width <= 20_000 && decoded.height <= 20_000
            &&& decoded.pixels.len() == 4 * (decoded.width * decoded.height)
        },
        direct_picture(backend, bytes) is Ok ==> backend != DecodeBackend::ImageCrate && backend
            != DecodeBackend::LibWebp && backend != DecodeBackend::LibAvifDav1d,
{
    if let Ok(decoded) = direct_picture(backend, bytes) {
        match backend {
            DecodeBackend::ZuneJpeg => {
                lemma_raw_picture_is_whole(zune_jpeg_picture(bytes, MAX_IMAGE_DIMENSION as usize));
            },
            DecodeBackend::PngCrate => {
                lemma_raw_picture_is_whole(png_frame(bytes));
            },
            DecodeBackend::ZunePng => {
                lemma_raw_picture_is_whole(zune_png_picture(bytes, MAX_IMAGE_DIMENSION as usize));
            },
            DecodeBackend::ImageWebp => {
                lemma_raw_picture_is_whole(webp_picture(bytes, MAX_DECODED_PAGE_BYTES));
            },
            DecodeBackend::BmpFastPath => {
                lemma_raw_picture_is_whole(
                    codec_picture(bytes, false, MAX_IMAGE_DIMENSION, MAX_DECODED_PAGE_BYTES as u64),
                );
            },
            DecodeBackend::IcoFastPath => {
                lemma_raw_picture_is_whole(
                    codec_picture(bytes, true, MAX_IMAGE_DIMENSION, MAX_DECODED_PAGE_BYTES as u64),
                );
            },
            DecodeBackend::ZunePsd => {
                lemma_raw_picture_is_whole(zune_psd_picture(bytes, MAX_IMAGE_DIMENSION as usize));
            },
            _ => {
                assert(decoded.width * decoded.height >= 0) by (nonlinear_arith)
                    requires
                        decoded.width >= 0,
                        decoded.height >= 0,
                ;
            },
        }
    }
}

proof fn lemma_raw_picture_is_whole(raw: Result<RawView, Seq<char>>)
    ensures
        raw_result_rgba(raw) matches Ok(decoded) ==> decoded.width <= 20_000 && decoded.height
            <= 20_000 && decoded.pixels.len() == 4 * (decoded.width * decoded.height),
{
    if let Ok(decoded) = raw_result_rgba(raw) {
        let count = decoded.width * decoded.height;
        let depth = raw->Ok_0.layout->0.width();
        assert(count >= 0) by (nonlinear_arith)
            requires
                count == decoded.width * decoded.height,
        ;
        vstd::arithmetic::div_mod::lemma_div_multiples_vanish(count, depth);
        assert(depth * count == count * depth) by (nonlinear_arith);
    }
}

/// Decodes a file with the decoder made for one format.
pub fn decode_direct(backend: DecodeBackend, bytes: &[u8]) -> (decoded: Result<DecodedRgba, String>)
    ensures
        decoded_outcome(decoded) == direct_picture(backend, bytes@),
{
    match backend {
        DecodeBackend::ZuneJpeg => decode_zune_jpeg(bytes),
        DecodeBackend::PngCrate => decode_png_crate(bytes),
        DecodeBackend::ZunePng => decode_zune_png(bytes),
        DecodeBackend::ImageWebp => decode_image_webp(bytes),
        DecodeBackend::GifCrate => decode_gif_first_frame(bytes),
        DecodeBackend::BmpFastPath => decode_bmp(bytes),
        DecodeBackend::IcoFastPath => decode_ico(bytes),
        DecodeBackend::ZunePsd => decode_zune_psd(bytes),
        _ => Err("backend has no direct decoder".to_owned()),
    }
}

/// A decoder that is asked for is the one whose picture is shown, in its own size: the JPEG, the two PNG,
/// the WebP, the BMP, the ICO and the Photoshop decoder each show their own samples, and the GIF decoder
/// shows the first frame on a screen of the file's size. The pictures that the JPEG, the BMP and the ICO
/// decoder return are taken as they are.
pub proof fn files_are_shown_by_the_decoder_asked_for(bytes: Seq<u8>)
    ensures
        direct_picture(DecodeBackend::ZuneJpeg, bytes) matches Ok(decoded) ==> zune_jpeg_picture(
            bytes,
            20_000,
        ) matches Ok(raw) && raw_rgba(raw) == Ok::<DecodedView, Seq<char>>(decoded),
        zune_jpeg_picture(bytes, 20_000) matches Ok(raw) ==> direct_picture(
            DecodeBackend::ZuneJpeg,
            bytes,
        ) == raw_rgba(raw),
        direct_picture(DecodeBackend::PngCrate, bytes) matches Ok(decoded) ==> png_frame(
            bytes,
        ) matches Ok(raw) && raw_rgba(raw) == Ok::<DecodedView, Seq<char>>(decoded),
        direct_picture(DecodeBackend::ZunePng, bytes) matches Ok(decoded) ==> zune_png_picture(
            bytes,
            20_000,
        ) matches Ok(raw) && raw_rgba(raw) == Ok::<DecodedView, Seq<char>>(decoded),
        direct_picture(DecodeBackend::ImageWebp, bytes) matches Ok(decoded) ==> webp_picture(
            bytes,
            268_435_456,
        ) matches Ok(raw) && raw_rgba(raw) == Ok::<DecodedView, Seq<char>>(decoded),
        codec_picture(bytes, false, 20_000, 268_435_456) matches Ok(raw) ==> direct_picture(
            DecodeBackend::BmpFastPath,
            bytes,
        ) == raw_rgba(raw),
        direct_picture(DecodeBackend::BmpFastPath, bytes) is Ok ==> codec_picture(
            bytes,
            false,
            20_000,
            268_435_456,
        ) is Ok,
        codec_picture(bytes, true, 20_000, 268_435_456) matches Ok(raw) ==> direct_picture(
            DecodeBackend::IcoFastPath,
            bytes,
        ) == raw_rgba(raw),
        direct_picture(DecodeBackend::IcoFastPath, bytes) is Ok ==> codec_picture(
            bytes,
            true,
            20_000,
            268_435_456,
        ) is Ok,
        direct_picture(DecodeBackend::ZunePsd, bytes) matches Ok(decoded) ==> zune_psd_picture(
            bytes,
            20_000,
        ) matches Ok(raw) && raw_rgba(raw) == Ok::<DecodedView, Seq<char>>(decoded),
        direct_picture(DecodeBackend::GifCrate, bytes) is Ok ==> {
            &&& crate::worker::gif::gif_screen(bytes) is Ok
            &&& crate::worker::gif::gif_frame(bytes, true) matches Ok(Some(frame)) && framed(
                frame,
                crate::worker::gif::gif_screen(bytes)->Ok_0.width as u32,
                crate::worker::gif::gif_screen(bytes)->Ok_0.height as u32,
            ) == direct_picture(DecodeBackend::GifCrate, bytes)
        },
{
}

} // verus!
