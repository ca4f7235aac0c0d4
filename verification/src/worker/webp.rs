//! The sizes in an animated WebP file.
//!
//! The decoder takes it for granted that the key frame behind an alpha chunk can be laid out row by
//! row in the animation frame around it, and that the canvas has fewer bytes than 32 bits count.
//! Files for which that is not so are refused before they are decoded.
use crate::decoder_backend::is_webp_animated;
use vstd::prelude::*;

verus! {

/// The number in two bytes, the low one first.
pub open spec fn le16(bytes: Seq<u8>, at: int) -> int {
    bytes[at] + bytes[at + 1] * 0x100
}

/// The number in three bytes, the low one first.
pub open spec fn le24(bytes: Seq<u8>, at: int) -> int {
    le16(bytes, at) + bytes[at + 2] * 0x1_0000
}

/// The number in four bytes, the low one first.
pub open spec fn le32(bytes: Seq<u8>, at: int) -> int {
    le24(bytes, at) + bytes[at + 3] * 0x100_0000
}

/// The room that a chunk takes: an even number of bytes, as far as 32 bits count.
pub open spec fn chunk_room(size: int) -> int {
    if size % 2 == 1 && size < u32::MAX {
        size + 1
    } else {
        size
    }
}

/// Numbers are read with their lowest byte first, and a chunk takes the fewest bytes that are even in
/// number and hold it.
pub proof fn numbers_have_their_lowest_byte_first(bytes: Seq<u8>, at: int, size: int)
    requires
        0 <= size < u32::MAX,
    ensures
        le16(bytes, at) == bytes[at] + 256 * bytes[at + 1],
        le24(bytes, at) == bytes[at] + 256 * bytes[at + 1] + 65536 * bytes[at + 2],
        le32(bytes, at) == bytes[at] + 256 * bytes[at + 1] + 65536 * bytes[at + 2] + 16777216
            * bytes[at + 3],
        chunk_room(size) % 2 == 0,
        size <= chunk_room(size) <= size + 1,
{
}

/// Where the first animation frame begins, among the chunks from `at` on.
pub open spec fn first_frame(bytes: Seq<u8>, at: int) -> Option<int>
    decreases
            if at < bytes.len() {
                bytes.len() - at
            } else {
                0
            },
{
    if at < 0 || at + 8 > bytes.len() {
        None
    } else if crate::decoder_backend::tag_at(bytes, at, 0x41, 0x4e, 0x4d, 0x46) {
        Some(at)
    } else {
        proof {
            assert(0 <= chunk_room(le32(bytes, at + 4)));
        }
        first_frame(bytes, at + 8 + chunk_room(le32(bytes, at + 4)))
    }
}

/// The first frame that is found is a chunk of that name, at or behind the place where the search
/// begins.
pub proof fn the_first_frame_is_a_frame(bytes: Seq<u8>, at: int)
    ensures
        first_frame(bytes, at) matches Some(found) ==> at <= found && found + 8 <= bytes.len()
            && crate::decoder_backend::letters_at(bytes, found, "ANMF"@),
        0 <= at && at + 8 <= bytes.len() && crate::decoder_backend::letters_at(bytes, at, "ANMF"@)
            ==> first_frame(bytes, at) == Some(at),
    decreases
            if at < bytes.len() {
                bytes.len() - at
            } else {
                0
            },
{
    reveal_strlit("ANMF");
    if 0 <= at && at + 8 <= bytes.len() {
        crate::decoder_backend::lemma_four_letters(bytes, at, "ANMF"@);
        if !crate::decoder_backend::tag_at(bytes, at, 0x41, 0x4e, 0x4d, 0x46) {
            assert(0 <= chunk_room(le32(bytes, at + 4)));
            the_first_frame_is_a_frame(bytes, at + 8 + chunk_room(le32(bytes, at + 4)));
        }
    }
}

/// Whether the rows of a key frame can be laid out one behind the other in a frame of so many
/// pixels. The first row is laid out alone and the others two by two. Pixels that are left behind
/// the last two take the last row of a key frame of even height, whose last pixel needs a place of
/// its own where its width is even.
pub open spec fn rows_fit(area: int, width: int, height: int) -> bool {
    let left = (area - width) % (2 * width);
    &&& 1 <= width
    &&& 1 <= height
    &&& width * height <= area
    &&& left == 0 || height % 2 == 0 && (width % 2 == 1 || left % 2 == 0)
}

/// Whether the key frame behind the alpha chunk of an animation frame can be laid out in it. A file
/// that ends before it says so is left to the decoder.
pub open spec fn frame_holds_its_key(bytes: Seq<u8>, at: int) -> bool {
    let key = at + 40 + chunk_room(le32(bytes, at + 28));
    at + 32 <= bytes.len() && crate::decoder_backend::tag_at(
        bytes,
        at + 24,
        0x41,
        0x4c,
        0x50,
        0x48,
    ) && key + 10 <= bytes.len() ==> rows_fit(
        (le24(bytes, at + 14) + 1) * (le24(bytes, at + 17) + 1),
        le16(bytes, key + 6) % 0x4000,
        le16(bytes, key + 8) % 0x4000,
    )
}

/// Whether the first frame of a WebP file, where it is animated, holds its key frame.
pub open spec fn alpha_frame_agrees(bytes: Seq<u8>) -> bool {
    crate::decoder_backend::webp_animated(bytes) ==> match first_frame(
        bytes,
        20 + chunk_room(le32(bytes, 16)),
    ) {
        Some(at) => frame_holds_its_key(bytes, at),
        None => true,
    }
}

/// A key frame of the frame's own size can always be laid out in it.
pub proof fn key_frames_of_the_frame_size_fit(width: int, height: int)
    requires
        1 <= width,
        1 <= height,
    ensures
        rows_fit(width * height, width, height),
{
    let half = (height - 1) / 2;
    let left = if height % 2 == 0 {
        width
    } else {
        0
    };
    assert(width * height - width == half * (2 * width) + left) by (nonlinear_arith)
        requires
            height - 1 == 2 * half + if height % 2 == 0 {
                1int
            } else {
                0
            },
            left == if height % 2 == 0 {
                width
            } else {
                0
            },
    ;
    vstd::arithmetic::div_mod::lemma_fundamental_div_mod_converse(
        width * height - width,
        2 * width,
        half,
        left,
    );
}

/// Whether 32 bits count the bytes of the canvas of a WebP file, where it is animated.
pub open spec fn canvas_is_countable(bytes: Seq<u8>) -> bool {
    crate::decoder_backend::webp_animated(bytes) && bytes.len() >= 30 ==> (le24(bytes, 24) + 1) * (
    le24(bytes, 27) + 1) * 4 <= u32::MAX
}

fn read_le32(bytes: &[u8], at: usize) -> (value: u32)
    requires
        at + 4 <= bytes@.len(),
    ensures
        value == le32(bytes@, at as int),
{
    bytes[at] as u32 + bytes[at + 1] as u32 * 0x100 + bytes[at + 2] as u32 * 0x1_0000 + bytes[at + 3]
        as u32 * 0x100_0000
}

fn read_le24(bytes: &[u8], at: usize) -> (value: u32)
    requires
        at + 3 <= bytes@.len(),
    ensures
        value == le24(bytes@, at as int),
        value < 0x100_0000,
{
    bytes[at] as u32 + bytes[at + 1] as u32 * 0x100 + bytes[at + 2] as u32 * 0x1_0000
}

fn read_le16(bytes: &[u8], at: usize) -> (value: u32)
    requires
        at + 2 <= bytes@.len(),
    ensures
        value == le16(bytes@, at as int),
{
    bytes[at] as u32 + bytes[at + 1] as u32 * 0x100
}

fn room_of(size: u32) -> (room: u64)
    ensures
        room == chunk_room(size as int),
{
    if size % 2 == 1 && size < u32::MAX {
        size as u64 + 1
    } else {
        size as u64
    }
}

fn has_fourcc(bytes: &[u8], at: usize, a: u8, b: u8, c: u8, d: u8) -> (found: bool)
    requires
        at + 4 <= bytes@.len(),
    ensures
        found == crate::decoder_backend::tag_at(bytes@, at as int, a, b, c, d),
{
    bytes[at] == a && bytes[at + 1] == b && bytes[at + 2] == c && bytes[at + 3] == d
}

/// Where the first animation frame begins, among the chunks from `start` on.
fn find_first_frame(bytes: &[u8], start: u64) -> (found: Option<usize>)
    requires
        start <= 0x2_0000_0000,
    ensures
        match found {
            Some(at) => first_frame(bytes@, start as int) == Some(at as int) && at + 8
                <= bytes@.len(),
            None => first_frame(bytes@, start as int) is None,
        },
{
    let count: usize = bytes.len();
    if start > count as u64 {
        return None;
    }
    let mut at: usize = start as usize;
    while count - at >= 8
        invariant
            count == bytes@.len(),
            at <= count,
            first_frame(bytes@, start as int) == first_frame(bytes@, at as int),
        decreases count - at,
    {
        if has_fourcc(bytes, at, 0x41, 0x4e, 0x4d, 0x46) {
            return Some(at);
        }
        let room: u64 = room_of(read_le32(bytes, at + 4));
        if room > (count - at - 8) as u64 {
            assert(first_frame(bytes@, at + 8 + room) is None);
            return None;
        }
        at = at + 8 + room as usize;
    }
    None
}

/// Whether the rows of a key frame can be laid out in a frame of so many pixels.
fn rows_can_be_laid_out(area: u64, width: u32, height: u32) -> (fit: bool)
    requires
        width < 0x4000,
        height < 0x4000,
    ensures
        fit == rows_fit(area as int, width as int, height as int),
{
    if width == 0 || height == 0 {
        return false;
    }
    let (wide, high): (u64, u64) = (width as u64, height as u64);
    assert(width * height <= 0x1000_0000) by (nonlinear_arith)
        requires
            width < 0x4000,
            height < 0x4000,
    ;
    if wide * high > area {
        return false;
    }
    assert(width <= width * height) by (nonlinear_arith)
        requires
            1 <= height,
    ;
    let left: u64 = (area - wide) % (2 * wide);
    left == 0 || high % 2 == 0 && (wide % 2 == 1 || left % 2 == 0)
}

/// Whether the first frame of a WebP file, where it is animated, holds its key frame.
pub fn first_frame_agrees(bytes: &[u8]) -> (agrees: bool)
    ensures
        agrees == alpha_frame_agrees(bytes@),
{
    if !is_webp_animated(bytes) {
        return true;
    }
    let start: u64 = 20 + room_of(read_le32(bytes, 16));
    match find_first_frame(bytes, start) {
        None => true,
        Some(at) => {
            let left: usize = bytes.len() - at;
            if left < 32 || !has_fourcc(bytes, at + 24, 0x41, 0x4c, 0x50, 0x48) {
                return true;
            }
            let room: u64 = room_of(read_le32(bytes, at + 28));
            if (left as u64) < 50 || left as u64 - 50 < room {
                return true;
            }
            let key: usize = at + 40 + room as usize;
            let width: u32 = read_le24(bytes, at + 14) + 1;
            let height: u32 = read_le24(bytes, at + 17) + 1;
            assert(width * height <= 0x1_0000_0000_0000) by (nonlinear_arith)
                requires
                    width <= 0x100_0000,
                    height <= 0x100_0000,
            ;
            rows_can_be_laid_out(
                width as u64 * height as u64,
                read_le16(bytes, key + 6) % 0x4000,
                read_le16(bytes, key + 8) % 0x4000,
            )
        },
    }
}

/// Whether 32 bits count the bytes of the canvas of a WebP file, where it is animated.
pub fn canvas_fits(bytes: &[u8]) -> (fits: bool)
    ensures
        fits == canvas_is_countable(bytes@),
{
    if !is_webp_animated(bytes) || bytes.len() < 30 {
        return true;
    }
    let width: u64 = read_le24(bytes, 24) as u64 + 1;
    let height: u64 = read_le24(bytes, 27) as u64 + 1;
    assert(width * height <= 0x1_0000_0000_0000) by (nonlinear_arith)
        requires
            width <= 0x100_0000,
            height <= 0x100_0000,
    ;
    width * height * 4 <= u32::MAX as u64
}

/// The message for a WebP file whose first frame does not hold its key frame.
pub open spec fn frame_message() -> Seq<char> {
    "WebP frame does not hold its key frame"@
}

/// The message for a WebP file with too large a canvas.
pub open spec fn canvas_message() -> Seq<char> {
    "WebP canvas is too large"@
}

/// Refuses a WebP file whose first frame does not hold its key frame.
pub fn reject_frame(bytes: &[u8]) -> (result: Result<(), String>)
    ensures
        match result {
            Ok(_) => alpha_frame_agrees(bytes@),
            Err(message) => !alpha_frame_agrees(bytes@) && message@ == frame_message(),
        },
{
    if first_frame_agrees(bytes) {
        Ok(())
    } else {
        Err("WebP frame does not hold its key frame".to_owned())
    }
}

/// Refuses a WebP file with too large a canvas.
pub fn reject_canvas(bytes: &[u8]) -> (result: Result<(), String>)
    ensures
        match result {
            Ok(_) => canvas_is_countable(bytes@),
            Err(message) => !canvas_is_countable(bytes@) && message@ == canvas_message(),
        },
{
    if canvas_fits(bytes) {
        Ok(())
    } else {
        Err("WebP canvas is too large".to_owned())
    }
}

/// The canvas of an animated file is as wide and as high as its header says, which counts from one; 32
/// bits count its bytes, four to a pixel, or the file is refused.
pub proof fn canvases_are_counted_from_one(bytes: Seq<u8>, width: int, height: int)
    requires
        bytes.len() >= 30,
        crate::decoder_backend::webp_animated(bytes),
        width == 1 + bytes[24] + 256 * bytes[25] + 65536 * bytes[26],
        height == 1 + bytes[27] + 256 * bytes[28] + 65536 * bytes[29],
    ensures
        canvas_is_countable(bytes) <==> 4 * (width * height) <= 4_294_967_295,
{
    assert(le24(bytes, 24) + 1 == width);
    assert(le24(bytes, 27) + 1 == height);
    assert(width * height * 4 == 4 * (width * height)) by (nonlinear_arith);
}

} // verus!
