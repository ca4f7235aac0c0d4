//! Uncompressed bitmaps, reduced while they are read.
use crate::worker::api::{clamp_target_long_edge, DecodeBackend, PageView, PreparedPage};
use crate::worker::pixels;
use crate::worker::prepare::{
    decoded_byte_size, display_dimensions, prepared_page_from_rgba, reject_oversized_original,
    sampled_index_map,
};
use vstd::prelude::*;

verus! {

/// How much larger than the target an image must be to be sampled.
pub const BMP_SAMPLED_MIN_RATIO: u32 = 2;

/// What the reduction needs of a bitmap's headers.
#[derive(Debug, Clone, Copy, PartialEq, Eq, Structural)]
pub struct BmpHeader {
    pub width: u32,
    pub height: u32,
    pub top_down: bool,
    pub bits_per_pixel: u16,
    pub pixel_offset: usize,
    pub row_stride: usize,
}

/// The two bytes at `offset`, least significant first.
pub open spec fn le16(bytes: Seq<u8>, offset: int) -> int {
    bytes[offset] + 256 * bytes[offset + 1]
}

/// The four bytes at `offset`, least significant first.
pub open spec fn le32(bytes: Seq<u8>, offset: int) -> int {
    le16(bytes, offset) + 65536 * le16(bytes, offset + 2)
}

/// The four bytes at `offset` in two's complement, least significant first.
pub open spec fn le32_signed(bytes: Seq<u8>, offset: int) -> int {
    let value = le32(bytes, offset);
    if value < 0x8000_0000 {
        value
    } else {
        value - 0x1_0000_0000
    }
}

/// The bytes of a row: its bits, rounded up to whole groups of four bytes.
pub open spec fn row_stride(width: int, bits_per_pixel: int) -> int {
    (width * bits_per_pixel + 31) / 32 * 4
}

/// Whether the headers are those of an uncompressed bitmap of 24 or 32 bits per pixel.
pub open spec fn is_plain_bmp(bytes: Seq<u8>) -> bool {
    &&& bytes.len() >= 54
    &&& bytes[0] == 0x42
    &&& bytes[1] == 0x4d
    &&& le32(bytes, 14) >= 40
    &&& le32_signed(bytes, 18) > 0
    &&& le32_signed(bytes, 22) != 0
    &&& le32_signed(bytes, 22) != -0x8000_0000
    &&& le16(bytes, 26) == 1
    &&& le16(bytes, 28) == 24 || le16(bytes, 28) == 32
    &&& le32(bytes, 30) == 0
}

/// The height that the headers give; a negative one means that the rows run downward.
pub open spec fn bmp_height(bytes: Seq<u8>) -> int {
    let height = le32_signed(bytes, 22);
    if height < 0 {
        -height
    } else {
        height
    }
}

/// The header of a bitmap that can be sampled, nothing for any other file, or the message for one
/// whose size cannot be computed.
pub open spec fn bmp_header(bytes: Seq<u8>) -> Result<Option<BmpHeader>, Seq<char>> {
    let stride = row_stride(le32(bytes, 18), le16(bytes, 28));
    let height = bmp_height(bytes);
    if !is_plain_bmp(bytes) {
        Ok(None)
    } else if stride > usize::MAX {
        Err("BMP row stride exceeds platform limits"@)
    } else if stride * height > usize::MAX {
        Err("BMP pixel data size overflows memory limits"@)
    } else if le32(bytes, 10) + stride * height > usize::MAX {
        Err("BMP pixel data offset overflows memory limits"@)
    } else if le32(bytes, 10) + stride * height > bytes.len() {
        Ok(None)
    } else {
        Ok(
            Some(
                BmpHeader {
                    width: le32(bytes, 18) as u32,
                    height: height as u32,
                    top_down: le32_signed(bytes, 22) < 0,
                    bits_per_pixel: le16(bytes, 28) as u16,
                    pixel_offset: le32(bytes, 10) as usize,
                    row_stride: stride as usize,
                },
            ),
        )
    }
}

/// The RGBA channel `c` of the pixel at `x`, `y`, counted from the top left. The file holds blue,
/// green and red, and its rows from the bottom up unless the header says otherwise.
pub open spec fn bmp_channel(bytes: Seq<u8>, header: BmpHeader, x: int, y: int, c: int) -> u8 {
    let row = stored_row(header, y);
    let offset = header.pixel_offset + row * header.row_stride + x * (header.bits_per_pixel as int
        / 8);
    if c == 3 {
        255
    } else {
        bytes[offset + 2 - c]
    }
}

/// The bitmap reduced to `width` by `height` pixels.
pub open spec fn sampled_bmp(bytes: Seq<u8>, header: BmpHeader, width: int, height: int) -> Seq<
    u8,
> {
    pixels::raster(
        width,
        height,
        4,
        |x: int, y: int, c: int|
            bmp_channel(
                bytes,
                header,
                crate::worker::prepare::sampled_source(x, width, header.width as int),
                crate::worker::prepare::sampled_source(y, height, header.height as int),
                c,
            ),
    )
}

/// The row of the file that holds row `y` of the picture.
pub open spec fn stored_row(header: BmpHeader, y: int) -> int {
    if header.top_down {
        y
    } else {
        header.height - 1 - y
    }
}

/// A length, as far as an address can count it.
pub open spec fn saturated(length: int) -> int {
    if length > usize::MAX {
        usize::MAX as int
    } else {
        length
    }
}

/// Why a step of the sampling cannot be taken, if it cannot. The first step of a row finds its
/// start; step `step` after that reads its pixel `step - 1`.
pub open spec fn sample_failure(
    bytes: Seq<u8>,
    header: BmpHeader,
    width: int,
    height: int,
    y: int,
    step: int,
) -> Option<Seq<char>> {
    let depth = header.bits_per_pixel as int / 8;
    let source_y = crate::worker::prepare::sampled_source(y, height, header.height as int);
    let source_x = crate::worker::prepare::sampled_source(step - 1, width, header.width as int);
    let start = header.pixel_offset + saturated(stored_row(header, source_y) * header.row_stride);
    let offset = start + saturated(source_x * depth);
    if step == 0 {
        if start > usize::MAX {
            Some("BMP row offset overflows memory limits"@)
        } else {
            None
        }
    } else if offset > usize::MAX {
        Some("BMP pixel offset overflows memory limits"@)
    } else if offset + depth > bytes.len() {
        Some("BMP pixel data ended unexpectedly"@)
    } else {
        None
    }
}

/// Whether all steps before one can be taken.
pub open spec fn samples_before(
    bytes: Seq<u8>,
    header: BmpHeader,
    width: int,
    height: int,
    y: int,
    step: int,
) -> bool {
    forall|v: int, k: int|
        0 <= v < height && 0 <= k <= width && (v < y || v == y && k < step)
            ==> #[trigger] sample_failure(bytes, header, width, height, v, k) is None
}

/// What becomes of a bitmap that is much larger than the target.
pub open spec fn sampled_bmp_page(bytes: Seq<u8>, target_long_edge: u32) -> Result<
    Option<PageView>,
    Seq<char>,
> {
    match bmp_header(bytes) {
        Err(message) => Err(message),
        Ok(None) => Ok(None),
        Ok(Some(header)) => {
            let target = crate::worker::api::clamped_target(target_long_edge);
            let rejection = crate::worker::prepare::original_rejection(header.width, header.height);
            let size = crate::worker::prepare::display_size(
                header.width,
                header.height,
                target,
                false,
            );
            if rejection is Some {
                Err(rejection->0)
            } else if crate::worker::prepare::longest_edge(header.width, header.height) < target
                * BMP_SAMPLED_MIN_RATIO {
                Ok(None)
            } else {
                match crate::worker::prepare::assembled_page(
                    false,
                    sampled_bmp(bytes, header, size.0 as int, size.1 as int),
                    (header.width, header.height),
                    size,
                    target,
                    DecodeBackend::BmpSampled,
                ) {
                    Ok(page) => Ok(Some(page)),
                    Err(message) => Err(message),
                }
            }
        },
    }
}

/// The header's numbers stand in the file at their places, least significant byte first. A row takes
/// the fewest whole groups of four bytes that hold its bits, and all rows are in the file. A height
/// with its highest bit set is negative: the rows run downward.
pub proof fn bmp_headers_are_read_from_their_places(bytes: Seq<u8>, header: BmpHeader)
    requires
        bmp_header(bytes) == Ok::<Option<BmpHeader>, Seq<char>>(Some(header)),
    ensures
        bytes.len() >= 54,
        bytes[0] == 'B' as int && bytes[1] == 'M' as int,
        header.pixel_offset == bytes[10] + 256 * bytes[11] + 65536 * bytes[12] + 16777216
            * bytes[13],
        header.width == bytes[18] + 256 * bytes[19] + 65536 * bytes[20] + 16777216 * bytes[21],
        header.width > 0 && header.height > 0,
        header.top_down <==> bytes[25] >= 128,
        !header.top_down ==> header.height == bytes[22] + 256 * bytes[23] + 65536 * bytes[24]
            + 16777216 * bytes[25],
        header.top_down ==> header.height + bytes[22] + 256 * bytes[23] + 65536 * bytes[24]
            + 16777216 * bytes[25] == 4294967296,
        bytes[26] == 1 && bytes[27] == 0,
        bytes[28] == header.bits_per_pixel && bytes[29] == 0,
        header.bits_per_pixel == 24 || header.bits_per_pixel == 32,
        bytes[30] == 0 && bytes[31] == 0 && bytes[32] == 0 && bytes[33] == 0,
        header.row_stride as int % 4 == 0,
        8 * (header.row_stride - 4) < header.width * header.bits_per_pixel <= 8 * header.row_stride,
        header.pixel_offset + header.row_stride * header.height <= bytes.len(),
{
    let bits = header.width * header.bits_per_pixel;
    vstd::arithmetic::div_mod::lemma_fundamental_div_mod(bits + 31, 32);
}

/// A sampled pixel shows its source pixel in the file's colors: a file holds blue, green and red in
/// that order, each pixel in three bytes or four, and its lowest row first unless its rows run
/// downward. The source pixel is the one at the middle of the part of the picture that the sampled
/// pixel covers.
pub proof fn sampled_bmp_pixels_are_the_files(
    bytes: Seq<u8>,
    header: BmpHeader,
    size: (int, int),
    at: (int, int),
    from: (int, int),
    row: int,
)
    requires
        header.width > 0 && header.height > 0,
        header.bits_per_pixel == 24 || header.bits_per_pixel == 32,
        0 <= at.0 < size.0,
        0 <= at.1 < size.1,
        2 * size.0 * from.0 <= (2 * at.0 + 1) * header.width < 2 * size.0 * (from.0 + 1),
        2 * size.1 * from.1 <= (2 * at.1 + 1) * header.height < 2 * size.1 * (from.1 + 1),
        header.top_down ==> row == from.1,
        !header.top_down ==> row + from.1 + 1 == header.height,
    ensures
        0 <= from.0 < header.width && 0 <= from.1 < header.height,
        ({
            let rgba = sampled_bmp(bytes, header, size.0, size.1);
            let k = 4 * (at.1 * size.0 + at.0);
            let p = header.pixel_offset + row * header.row_stride + (if header.bits_per_pixel == 24 {
                3 * from.0
            } else {
                4 * from.0
            });
            &&& rgba.len() == 4 * (size.0 * size.1)
            &&& 0 <= k && k + 3 < rgba.len()
            &&& rgba[k] == bytes[p + 2]
            &&& rgba[k + 1] == bytes[p + 1]
            &&& rgba[k + 2] == bytes[p]
            &&& rgba[k + 3] == 255
        }),
{
    let (w, h) = (header.width as int, header.height as int);
    crate::worker::prepare::sampled_source_holds_the_middle(at.0, size.0, w, from.0);
    crate::worker::prepare::sampled_source_holds_the_middle(at.1, size.1, h, from.1);
    crate::worker::prepare::sampled_source_stays_inside(at.0, at.0, size.0, w);
    crate::worker::prepare::sampled_source_stays_inside(at.1, at.1, size.1, h);
    let channel = |x: int, y: int, c: int|
        bmp_channel(
            bytes,
            header,
            crate::worker::prepare::sampled_source(x, size.0, w),
            crate::worker::prepare::sampled_source(y, size.1, h),
            c,
        );
    let rgba = sampled_bmp(bytes, header, size.0, size.1);
    assert(rgba =~= pixels::raster(size.0, size.1, 4, channel));
    pixels::lemma_raster_at(size.0, size.1, 4, channel, at.0, at.1, 0);
    pixels::lemma_raster_at(size.0, size.1, 4, channel, at.0, at.1, 1);
    pixels::lemma_raster_at(size.0, size.1, 4, channel, at.0, at.1, 2);
    pixels::lemma_raster_at(size.0, size.1, 4, channel, at.0, at.1, 3);
    pixels::lemma_raster_index(size.0, size.1, 4, at.0, at.1, 0);
    assert(header.bits_per_pixel == 24 ==> header.bits_per_pixel as int / 8 == 3);
    assert(header.bits_per_pixel == 32 ==> header.bits_per_pixel as int / 8 == 4);
    assert(stored_row(header, from.1) == row);
}

/// A sampled page is the file's picture: its original size is the header's, it is shown at the size
/// that fits the target, its colors are the file's, and the file is at least twice as large as the
/// target.
pub proof fn sampled_bmp_pages_show_the_file(
    bytes: Seq<u8>,
    header: BmpHeader,
    target_long_edge: u32,
    page: PageView,
)
    requires
        bmp_header(bytes) == Ok::<Option<BmpHeader>, Seq<char>>(Some(header)),
        sampled_bmp_page(bytes, target_long_edge) == Ok::<Option<PageView>, Seq<char>>(Some(page)),
    ensures
        page.original == (header.width as int, header.height as int),
        ({
            let size = crate::worker::prepare::display_size(
                header.width,
                header.height,
                target_long_edge,
                false,
            );
            &&& page.display == (size.0 as int, size.1 as int)
            &&& page.bytes == sampled_bmp(bytes, header, size.0 as int, size.1 as int)
        }),
        !page.luma && page.decode_backend == DecodeBackend::BmpSampled && page.notice is None,
        header.width >= 2 * page.target_long_edge || header.height >= 2 * page.target_long_edge,
{
}

fn read_le16(bytes: &[u8], offset: usize) -> (value: u16)
    requires
        offset + 2 <= bytes@.len(),
    ensures
        value == le16(bytes@, offset as int),
{
    bytes[offset] as u16 + 256 * bytes[offset + 1] as u16
}

fn read_le32(bytes: &[u8], offset: usize) -> (value: u32)
    requires
        offset + 4 <= bytes@.len(),
    ensures
        value == le32(bytes@, offset as int),
{
    assert(bytes.len() == bytes@.len());
    read_le16(bytes, offset) as u32 + 65536 * read_le16(bytes, offset + 2) as u32
}

/// Reads the headers of a bitmap.
pub fn parse_bmp_header(bytes: &[u8]) -> (header: Result<Option<BmpHeader>, String>)
    ensures
        match header {
            Ok(header) => bmp_header(bytes@) == Ok::<Option<BmpHeader>, Seq<char>>(header),
            Err(message) => bmp_header(bytes@) == Err::<Option<BmpHeader>, Seq<char>>(message@),
        },
{
    if bytes.len() < 54 || bytes[0] != 0x42 || bytes[1] != 0x4d {
        return Ok(None);
    }
    let pixel_offset: u32 = read_le32(bytes, 10);
    if read_le32(bytes, 14) < 40 {
        return Ok(None);
    }
    let width: u32 = read_le32(bytes, 18);
    let raw_height: u32 = read_le32(bytes, 22);
    let planes: u16 = read_le16(bytes, 26);
    let bits_per_pixel: u16 = read_le16(bytes, 28);
    let compression: u32 = read_le32(bytes, 30);
    if width == 0 || width >= 0x8000_0000 || raw_height == 0 || raw_height == 0x8000_0000 || planes
        != 1 || (bits_per_pixel != 24 && bits_per_pixel != 32) || compression != 0 {
        return Ok(None);
    }
    let top_down = raw_height > 0x8000_0000;
    let height: u32 = if top_down {
        0xffff_ffff - raw_height + 1
    } else {
        raw_height
    };
    assert(width * bits_per_pixel <= 0xffff_ffff * 32) by (nonlinear_arith)
        requires
            width <= 0xffff_ffff,
            bits_per_pixel <= 32,
    ;
    let stride: u64 = (width as u64 * bits_per_pixel as u64 + 31) / 32 * 4;
    if stride > usize::MAX as u64 {
        return Err("BMP row stride exceeds platform limits".to_owned());
    }
    let row_stride: usize = stride as usize;
    let pixel_bytes: usize = match row_stride.checked_mul(height as usize) {
        Some(size) => size,
        None => {
            return Err("BMP pixel data size overflows memory limits".to_owned());
        },
    };
    let required: usize = match (pixel_offset as usize).checked_add(pixel_bytes) {
        Some(size) => size,
        None => {
            return Err("BMP pixel data offset overflows memory limits".to_owned());
        },
    };
    if required > bytes.len() {
        return Ok(None);
    }
    Ok(
        Some(
            BmpHeader {
                width,
                height,
                top_down,
                bits_per_pixel,
                pixel_offset: pixel_offset as usize,
                row_stride,
            },
        ),
    )
}

/// A header read from `bytes` puts every pixel inside them.
proof fn lemma_pixel_inside(bytes: Seq<u8>, header: BmpHeader, x: int, y: int)
    requires
        bmp_header(bytes) == Ok::<Option<BmpHeader>, Seq<char>>(Some(header)),
        0 <= x < header.width,
        0 <= y < header.height,
    ensures
        header.pixel_offset + y * header.row_stride >= 0,
        y * header.row_stride >= 0,
        x * (header.bits_per_pixel as int / 8) >= 0,
        header.pixel_offset + y * header.row_stride + x * (header.bits_per_pixel as int / 8) + (
        header.bits_per_pixel as int / 8) <= bytes.len(),
{
    let depth = header.bits_per_pixel as int / 8;
    let stride = header.row_stride as int;
    let width = header.width as int;
    let height = header.height as int;
    assert(width * header.bits_per_pixel == 8 * (width * depth)) by (nonlinear_arith)
        requires
            header.bits_per_pixel == 8 * depth,
    ;
    assert(stride >= width * depth);
    assert(x * depth + depth <= width * depth) by (nonlinear_arith)
        requires
            x + 1 <= width,
            depth >= 0,
    ;
    assert(y * stride + stride <= stride * height) by (nonlinear_arith)
        requires
            y + 1 <= height,
            stride >= 0,
    ;
    assert(y * stride >= 0 && x * depth >= 0) by (nonlinear_arith)
        requires
            y >= 0,
            x >= 0,
            stride >= 0,
            depth >= 0,
    ;
}

/// A header read from `bytes` lets every step be taken.
proof fn lemma_samples(bytes: Seq<u8>, header: BmpHeader, width: int, height: int, y: int, step: int)
    requires
        bmp_header(bytes) == Ok::<Option<BmpHeader>, Seq<char>>(Some(header)),
        bytes.len() <= usize::MAX,
        0 <= y < height,
        0 <= step <= width,
    ensures
        sample_failure(bytes, header, width, height, y, step) is None,
{
    crate::worker::prepare::sampled_source_stays_inside(y, y, height, header.height as int);
    let row = stored_row(
        header,
        crate::worker::prepare::sampled_source(y, height, header.height as int),
    );
    if step == 0 {
        lemma_pixel_inside(bytes, header, 0, row);
    } else {
        crate::worker::prepare::sampled_source_stays_inside(
            step - 1,
            step - 1,
            width,
            header.width as int,
        );
        lemma_pixel_inside(
            bytes,
            header,
            crate::worker::prepare::sampled_source(step - 1, width, header.width as int),
            row,
        );
    }
}

/// Reads a bitmap at the sampled positions only. Where the bytes end before one of them, or an
/// address cannot count so far, the first such position decides the message.
pub fn sample_bmp_to_rgba(
    bytes: &[u8],
    header: &BmpHeader,
    display_width: u32,
    display_height: u32,
) -> (rgba: Result<Vec<u8>, String>)
    requires
        header.bits_per_pixel >= 24,
        header.top_down || header.height > 0,
        2 * display_width <= usize::MAX,
        2 * display_height <= usize::MAX,
        2 * display_width * header.width <= usize::MAX,
        2 * display_height * header.height <= usize::MAX,
    ensures
        match rgba {
            Ok(rgba) => {
                &&& display_width * display_height * 4 <= usize::MAX
                &&& samples_before(
                    bytes@,
                    *header,
                    display_width as int,
                    display_height as int,
                    display_height as int,
                    0,
                )
                &&& rgba@ == sampled_bmp(
                    bytes@,
                    *header,
                    display_width as int,
                    display_height as int,
                )
            },
            Err(message) => {
                ||| display_width * display_height * 4 > usize::MAX && message@
                    == "Decoded image dimensions overflow memory limits"@
                ||| exists|y: int, step: int|
                    0 <= y < display_height && 0 <= step <= display_width && samples_before(
                        bytes@,
                        *header,
                        display_width as int,
                        display_height as int,
                        y,
                        step,
                    ) && #[trigger] sample_failure(
                        bytes@,
                        *header,
                        display_width as int,
                        display_height as int,
                        y,
                        step,
                    ) == Some(message@)
            },
        },
{
    let byte_size: usize = decoded_byte_size(display_width, display_height)?;
    let depth: usize = (header.bits_per_pixel / 8) as usize;
    let width: usize = display_width as usize;
    let height: usize = display_height as usize;
    let columns = sampled_index_map(width, header.width as usize);
    let rows = sampled_index_map(height, header.height as usize);
    let ghost channel = |x: int, y: int, c: int|
        bmp_channel(
            bytes@,
            *header,
            crate::worker::prepare::sampled_source(x, width as int, header.width as int),
            crate::worker::prepare::sampled_source(y, height as int, header.height as int),
            c,
        );
    let ghost whole = pixels::raster(width as int, height as int, 4, channel);
    let mut rgba: Vec<u8> = Vec::with_capacity(byte_size);
    let mut y: usize = 0;
    assert(whole.take(0) =~= Seq::<u8>::empty());
    while y < height
        invariant
            y <= height,
            width == display_width,
            height == display_height,
            columns@.len() == width,
            rows@.len() == height,
            depth == header.bits_per_pixel as int / 8,
            depth >= 3,
            header.top_down || header.height > 0,
            bytes.len() == bytes@.len(),
            channel == (|x: int, y: int, c: int|
                bmp_channel(
                    bytes@,
                    *header,
                    crate::worker::prepare::sampled_source(x, width as int, header.width as int),
                    crate::worker::prepare::sampled_source(y, height as int, header.height as int),
                    c,
                )),
            whole == pixels::raster(width as int, height as int, 4, channel),
            forall|i: int|
                0 <= i < width ==> #[trigger] columns@[i] == crate::worker::prepare::sampled_source(
                    i,
                    width as int,
                    header.width as int,
                ),
            forall|i: int|
                0 <= i < height ==> #[trigger] rows@[i] == crate::worker::prepare::sampled_source(
                    i,
                    height as int,
                    header.height as int,
                ) && (rows@[i] < header.height || header.height == 0 && rows@[i] == 0),
            samples_before(bytes@, *header, width as int, height as int, y as int, 0),
            rgba@ == whole.take((y * width) * 4),
        decreases height - y,
    {
        let source_y: usize = rows[y];
        let row: usize = if header.top_down {
            source_y
        } else {
            header.height as usize - 1 - source_y
        };
        let down: usize = match row.checked_mul(header.row_stride) {
            Some(down) => down,
            None => usize::MAX,
        };
        assert(down == saturated(stored_row(*header, source_y as int) * header.row_stride));
        let ghost failing = sample_failure(
            bytes@,
            *header,
            width as int,
            height as int,
            y as int,
            0,
        );
        let row_start: usize = match header.pixel_offset.checked_add(down) {
            Some(start) => start,
            None => {
                assert(failing == Some("BMP row offset overflows memory limits"@));
                return Err("BMP row offset overflows memory limits".to_owned());
            },
        };
        assert(failing is None);
        let mut x: usize = 0;
        assert(y * width + 0 == y * width);
        assert(samples_before(bytes@, *header, width as int, height as int, y as int, 1));
        while x < width
            invariant
                x <= width,
                y < height,
                width == display_width,
                height == display_height,
                columns@.len() == width,
                rows@.len() == height,
                depth == header.bits_per_pixel as int / 8,
                depth >= 3,
                bytes.len() == bytes@.len(),
                channel == (|x: int, y: int, c: int|
                    bmp_channel(
                        bytes@,
                        *header,
                        crate::worker::prepare::sampled_source(
                            x,
                            width as int,
                            header.width as int,
                        ),
                        crate::worker::prepare::sampled_source(
                            y,
                            height as int,
                            header.height as int,
                        ),
                        c,
                    )),
                whole == pixels::raster(width as int, height as int, 4, channel),
                forall|i: int|
                    0 <= i < width ==> #[trigger] columns@[i]
                        == crate::worker::prepare::sampled_source(
                        i,
                        width as int,
                        header.width as int,
                    ),
                source_y == crate::worker::prepare::sampled_source(
                    y as int,
                    height as int,
                    header.height as int,
                ),
                row == stored_row(*header, source_y as int),
                down == saturated(row * header.row_stride),
                row_start == header.pixel_offset + down,
                samples_before(bytes@, *header, width as int, height as int, y as int, x + 1),
                rgba@ == whole.take((y * width + x) * 4),
            decreases width - x,
        {
            let source_x: usize = columns[x];
            let across: usize = match source_x.checked_mul(depth) {
                Some(across) => across,
                None => usize::MAX,
            };
            assert(across == saturated(source_x * depth));
            let ghost failing = sample_failure(
                bytes@,
                *header,
                width as int,
                height as int,
                y as int,
                x + 1,
            );
            let offset: usize = match row_start.checked_add(across) {
                Some(offset) => offset,
                None => {
                    assert(failing == Some("BMP pixel offset overflows memory limits"@));
                    return Err("BMP pixel offset overflows memory limits".to_owned());
                },
            };
            if offset > bytes.len() || bytes.len() - offset < depth {
                assert(failing == Some("BMP pixel data ended unexpectedly"@));
                return Err("BMP pixel data ended unexpectedly".to_owned());
            }
            assert(failing is None);
            assert(down == row * header.row_stride && across == source_x * depth);
            rgba.push(bytes[offset + 2]);
            rgba.push(bytes[offset + 1]);
            rgba.push(bytes[offset]);
            rgba.push(255);
            proof {
                let part = whole.take((y * width + x) * 4);
                let pixel = seq![
                    bytes@[offset + 2],
                    bytes@[offset + 1],
                    bytes@[offset as int],
                    255u8,
                ];
                pixels::lemma_raster_extend(
                    width as int,
                    height as int,
                    4,
                    channel,
                    x as int,
                    y as int,
                    part,
                    pixel,
                );
                assert(rgba@ =~= part + pixel);
            }
            x = x + 1;
        }
        assert((y + 1) * width == y * width + width) by (nonlinear_arith);
        y = y + 1;
    }
    assert(whole.take(height * width * 4) =~= whole) by {
        assert(height * width * 4 == width * height * 4) by (nonlinear_arith);
    }
    Ok(rgba)
}

/// Prepares a bitmap that is much larger than the target without expanding all of it.
pub fn prepare_image_with_sampled_bmp(bytes: &[u8], target_long_edge: u32) -> (page: Result<
    Option<PreparedPage>,
    String,
>)
    ensures
        crate::worker::api::optional_outcome(page) == sampled_bmp_page(bytes@, target_long_edge),
        page matches Ok(Some(page)) ==> page@.sound() && page@.target_long_edge
            == crate::worker::api::clamped_target(target_long_edge),
{
    let header: BmpHeader = match parse_bmp_header(bytes)? {
        Some(header) => header,
        None => {
            return Ok(None);
        },
    };
    let target: u32 = clamp_target_long_edge(target_long_edge);
    reject_oversized_original(header.width, header.height)?;
    let (display_width, display_height) = display_dimensions(header.width, header.height, target)?;
    let longest: u32 = if header.width > header.height {
        header.width
    } else {
        header.height
    };
    if longest < target * BMP_SAMPLED_MIN_RATIO {
        return Ok(None);
    }
    proof {
        crate::worker::prepare::display_size_fits_the_target(
            header.width,
            header.height,
            target,
            false,
        );
    }
    proof {
        assert(2 * display_width * header.width <= 0x7fff_ffff && 2 * display_height * header.height
            <= 0x7fff_ffff && display_width * display_height * 4 <= 0x7fff_ffff)
            by (nonlinear_arith)
            requires
                display_width <= 20_000,
                display_height <= 20_000,
                header.width <= 20_000,
                header.height <= 20_000,
        ;
        assert(bytes.len() == bytes@.len());
        assert forall|y: int, step: int|
            0 <= y < display_height && 0 <= step <= display_width implies #[trigger] sample_failure(
            bytes@,
            header,
            display_width as int,
            display_height as int,
            y,
            step,
        ) is None by {
            lemma_samples(
                bytes@,
                header,
                display_width as int,
                display_height as int,
                y,
                step,
            );
        }
    }
    let rgba = sample_bmp_to_rgba(bytes, &header, display_width, display_height)?;
    let page = prepared_page_from_rgba(
        rgba,
        header.width,
        header.height,
        display_width,
        display_height,
        target,
        DecodeBackend::BmpSampled,
    )?;
    Ok(Some(page))
}

/// A bitmap whose headers are accepted is sampled exactly where it is at least twice as long as the
/// target on one side.
pub proof fn large_bitmaps_are_sampled(bytes: Seq<u8>, header: BmpHeader, target_long_edge: u32)
    requires
        bmp_header(bytes) == Ok::<Option<BmpHeader>, Seq<char>>(Some(header)),
        header.width <= 20_000 && header.height <= 20_000,
        4 * (header.width * header.height) <= 268_435_456,
        1024 <= target_long_edge <= 20_000,
    ensures
        sampled_bmp_page(bytes, target_long_edge) == Ok::<Option<PageView>, Seq<char>>(None)
            <==> header.width < 2 * target_long_edge && header.height < 2 * target_long_edge,
{
}

} // verus!
