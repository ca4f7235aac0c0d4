//! The chunks of a PNG file, as the decoder of `zune_png` walks over them.
//!
//! That decoder looks at some chunks as a whole, which it can do up to a limit only; it takes the
//! size of a frame of sixteen bits per sample from the frame's own chunk, without a limit; and it
//! takes it for granted that a picture of palette indices has a palette. Files for which one of
//! these does not hold are refused before they are decoded.
use crate::decoder_backend::has_tag;
use vstd::prelude::*;

verus! {

/// The bytes that the decoder can look at in one go.
pub const LOOK_LIMIT: u32 = 20_971_520;

/// What the decoder tells chunks apart by.
#[derive(Debug, Clone, Copy, PartialEq, Eq, Structural)]
pub enum ChunkKind {
    Palette,
    Transparency,
    Pixels,
    FrameControl,
    FramePixels,
    Animation,
    Gamma,
    Exif,
    Text,
    /// A color profile or a compressed text.
    Packed,
    International,
    End,
    Other,
}

/// The number in four bytes, the high one first.
pub open spec fn be32(bytes: Seq<u8>, at: int) -> int {
    bytes[at] * 0x100_0000 + bytes[at + 1] * 0x1_0000 + bytes[at + 2] * 0x100 + bytes[at + 3]
}

/// The kind of the chunk that begins at `at`, by its name.
pub open spec fn kind_at(bytes: Seq<u8>, at: int) -> ChunkKind {
    if crate::decoder_backend::tag_at(bytes, at + 4, 0x50, 0x4c, 0x54, 0x45) {
        ChunkKind::Palette
    } else if crate::decoder_backend::tag_at(bytes, at + 4, 0x74, 0x52, 0x4e, 0x53) {
        ChunkKind::Transparency
    } else if crate::decoder_backend::tag_at(bytes, at + 4, 0x49, 0x44, 0x41, 0x54) {
        ChunkKind::Pixels
    } else if crate::decoder_backend::tag_at(bytes, at + 4, 0x66, 0x63, 0x54, 0x4c) {
        ChunkKind::FrameControl
    } else if crate::decoder_backend::tag_at(bytes, at + 4, 0x66, 0x64, 0x41, 0x54) {
        ChunkKind::FramePixels
    } else if crate::decoder_backend::tag_at(bytes, at + 4, 0x61, 0x63, 0x54, 0x4c) {
        ChunkKind::Animation
    } else if crate::decoder_backend::tag_at(bytes, at + 4, 0x67, 0x41, 0x4d, 0x41) {
        ChunkKind::Gamma
    } else if crate::decoder_backend::tag_at(bytes, at + 4, 0x65, 0x58, 0x49, 0x66) {
        ChunkKind::Exif
    } else if crate::decoder_backend::tag_at(bytes, at + 4, 0x74, 0x45, 0x58, 0x74) {
        ChunkKind::Text
    } else if crate::decoder_backend::tag_at(bytes, at + 4, 0x69, 0x43, 0x43, 0x50)
        || crate::decoder_backend::tag_at(bytes, at + 4, 0x7a, 0x54, 0x58, 0x74) {
        ChunkKind::Packed
    } else if crate::decoder_backend::tag_at(bytes, at + 4, 0x69, 0x54, 0x58, 0x74) {
        ChunkKind::International
    } else if crate::decoder_backend::tag_at(bytes, at + 4, 0x49, 0x45, 0x4e, 0x44) {
        ChunkKind::End
    } else {
        ChunkKind::Other
    }
}

/// Chunks are told apart by the four letters of their names.
pub proof fn chunks_are_told_by_their_names(bytes: Seq<u8>, at: int)
    requires
        0 <= at,
    ensures
        ({
            let kind = kind_at(bytes, at);
            let named = |name: Seq<char>| crate::decoder_backend::letters_at(bytes, at + 4, name);
            &&& kind == ChunkKind::Palette <==> named("PLTE"@)
            &&& kind == ChunkKind::Transparency <==> named("tRNS"@)
            &&& kind == ChunkKind::Pixels <==> named("IDAT"@)
            &&& kind == ChunkKind::FrameControl <==> named("fcTL"@)
            &&& kind == ChunkKind::FramePixels <==> named("fdAT"@)
            &&& kind == ChunkKind::Animation <==> named("acTL"@)
            &&& kind == ChunkKind::Gamma <==> named("gAMA"@)
            &&& kind == ChunkKind::Exif <==> named("eXIf"@)
            &&& kind == ChunkKind::Text <==> named("tEXt"@)
            &&& kind == ChunkKind::Packed <==> named("iCCP"@) || named("zTXt"@)
            &&& kind == ChunkKind::International <==> named("iTXt"@)
            &&& kind == ChunkKind::End <==> named("IEND"@)
        }),
{
    reveal_strlit("PLTE");
    reveal_strlit("tRNS");
    reveal_strlit("IDAT");
    reveal_strlit("fcTL");
    reveal_strlit("fdAT");
    reveal_strlit("acTL");
    reveal_strlit("gAMA");
    reveal_strlit("eXIf");
    reveal_strlit("tEXt");
    reveal_strlit("iCCP");
    reveal_strlit("zTXt");
    reveal_strlit("iTXt");
    reveal_strlit("IEND");
    crate::decoder_backend::lemma_four_letters(bytes, at + 4, "PLTE"@);
    crate::decoder_backend::lemma_four_letters(bytes, at + 4, "tRNS"@);
    crate::decoder_backend::lemma_four_letters(bytes, at + 4, "IDAT"@);
    crate::decoder_backend::lemma_four_letters(bytes, at + 4, "fcTL"@);
    crate::decoder_backend::lemma_four_letters(bytes, at + 4, "fdAT"@);
    crate::decoder_backend::lemma_four_letters(bytes, at + 4, "acTL"@);
    crate::decoder_backend::lemma_four_letters(bytes, at + 4, "gAMA"@);
    crate::decoder_backend::lemma_four_letters(bytes, at + 4, "eXIf"@);
    crate::decoder_backend::lemma_four_letters(bytes, at + 4, "tEXt"@);
    crate::decoder_backend::lemma_four_letters(bytes, at + 4, "iCCP"@);
    crate::decoder_backend::lemma_four_letters(bytes, at + 4, "zTXt"@);
    crate::decoder_backend::lemma_four_letters(bytes, at + 4, "iTXt"@);
    crate::decoder_backend::lemma_four_letters(bytes, at + 4, "IEND"@);
}

/// Where the first zero is, from `from` up to `to`.
pub open spec fn first_zero(bytes: Seq<u8>, from: int, to: int) -> Option<int>
    decreases
            if from < to {
                to - from
            } else {
                0
            },
{
    if from >= to {
        None
    } else if bytes[from] == 0 {
        Some(from)
    } else {
        first_zero(bytes, from + 1, to)
    }
}

/// The first zero is a zero, lies in the range, and has none before it; there is none only where no
/// byte of the range is zero.
pub proof fn the_first_zero_comes_first(bytes: Seq<u8>, from: int, to: int, i: int)
    requires
        from <= i < to,
    ensures
        match first_zero(bytes, from, to) {
            Some(at) => from <= at < to && bytes[at] == 0 && (i < at ==> bytes[i] != 0),
            None => bytes[i] != 0,
        },
    decreases to - from,
{
    if bytes[from] != 0 && i > from {
        the_first_zero_comes_first(bytes, from + 1, to, i);
    } else if bytes[from] != 0 && from + 1 < to {
        the_first_zero_comes_first(bytes, from + 1, to, from + 1);
    }
}

/// How long the keyword is that the chunk at `at` begins with: it ends with a zero among the first
/// bytes of the chunk.
pub open spec fn keyword_length(bytes: Seq<u8>, at: int) -> Option<int> {
    let size = be32(bytes, at);
    match first_zero(
        bytes,
        at + 8,
        at + 8 + if size < 79 {
            size
        } else {
            79
        },
    ) {
        Some(end) => Some(end - at - 8),
        None => None,
    }
}

pub open spec fn at_least(value: int, least: int) -> int {
    if value < least {
        least
    } else {
        value
    }
}

/// How many bytes of the chunk at `at` the decoder goes over before the checksum: those of some
/// chunks it counts itself.
pub open spec fn bytes_passed(bytes: Seq<u8>, at: int, in_frame: bool) -> int {
    let size = be32(bytes, at);
    match kind_at(bytes, at) {
        ChunkKind::Palette => if size < 768 {
            size / 3 * 3
        } else {
            768
        },
        ChunkKind::Transparency => match color_type(bytes) {
            Some(0) => 2,
            Some(2) => 6,
            _ => size,
        },
        ChunkKind::FramePixels => if in_frame {
            at_least(size, 4)
        } else {
            size
        },
        ChunkKind::Animation => if size == 8 {
            8
        } else {
            size + 12
        },
        ChunkKind::Gamma => 4,
        ChunkKind::Packed => match keyword_length(bytes, at) {
            Some(length) => at_least(size, length + 2),
            None => size,
        },
        ChunkKind::International => match keyword_length(bytes, at) {
            Some(length) => at_least(size, length + 5),
            None => size,
        },
        _ => size,
    }
}

/// How many bytes of the chunk at `at` the decoder looks at in one go.
pub open spec fn bytes_looked_at(bytes: Seq<u8>, at: int) -> int {
    let size = be32(bytes, at);
    match (kind_at(bytes, at), keyword_length(bytes, at)) {
        (ChunkKind::Exif, _) => size,
        (ChunkKind::Text, Some(length)) => at_least(size - length - 1, 0),
        (ChunkKind::Packed, Some(length)) => at_least(size - length - 2, 0),
        (ChunkKind::International, Some(length)) => at_least(size - length - 5, 0),
        _ => 0,
    }
}

/// The color type in the head of the file.
pub open spec fn color_type(bytes: Seq<u8>) -> Option<u8> {
    if bytes.len() > 25 {
        Some(bytes[25])
    } else {
        None
    }
}

/// Whether the file has sixteen bits per sample.
pub open spec fn is_deep(bytes: Seq<u8>) -> bool {
    bytes.len() > 24 && bytes[24] == 16
}

/// Whether the frame that the chunk at `at` describes has an edge over a limit.
pub open spec fn frame_is_wide(bytes: Seq<u8>, at: int, max_edge: int) -> bool {
    be32(bytes, at + 12) > max_edge || be32(bytes, at + 16) > max_edge
}

/// Whether the decoder can take the chunks from `at` on. It has gone over `controls` frame controls,
/// of which the last one is `wide` or not, and knows a palette or not; one behind the third frame
/// control comes too late. A chunk that goes beyond the file ends the walk with an error of the
/// decoder's own.
pub open spec fn chunks_can_be_taken(
    bytes: Seq<u8>,
    at: int,
    max_edge: int,
    controls: int,
    wide: bool,
    palette: bool,
) -> bool
    decreases
            if at < bytes.len() {
                bytes.len() - at
            } else {
                0
            },
{
    let size = be32(bytes, at);
    let kind = kind_at(bytes, at);
    if at < 0 || at + 12 > bytes.len() || at + 12 + size > bytes.len() {
        true
    } else if kind == ChunkKind::End {
        color_type(bytes) == Some(3u8) ==> palette
    } else if kind == ChunkKind::FrameControl && size != 26 {
        true
    } else if bytes_looked_at(bytes, at) > LOOK_LIMIT {
        false
    } else if kind == ChunkKind::Pixels && wide && is_deep(bytes) {
        false
    } else {
        let next = at + 12 + bytes_passed(bytes, at, controls > 0);
        if kind == ChunkKind::FrameControl {
            chunks_can_be_taken(
                bytes,
                next,
                max_edge,
                controls + 1,
                frame_is_wide(bytes, at, max_edge),
                palette,
            )
        } else {
            chunks_can_be_taken(
                bytes,
                next,
                max_edge,
                controls,
                wide,
                palette || kind == ChunkKind::Palette && controls <= 3,
            )
        }
    }
}

/// Whether the decoder can take a PNG file, with a limit on the edges of its frames.
pub open spec fn png_can_be_taken(bytes: Seq<u8>, max_edge: int) -> bool {
    chunks_can_be_taken(bytes, 8, max_edge, 0, false, false)
}

fn read_be32(bytes: &[u8], at: usize) -> (value: u32)
    requires
        at + 4 <= bytes@.len(),
    ensures
        value == be32(bytes@, at as int),
{
    bytes[at] as u32 * 0x100_0000 + bytes[at + 1] as u32 * 0x1_0000 + bytes[at + 2] as u32 * 0x100
        + bytes[at + 3] as u32
}

fn kind_of_chunk(bytes: &[u8], at: usize) -> (kind: ChunkKind)
    requires
        at + 8 <= bytes@.len(),
    ensures
        kind == kind_at(bytes@, at as int),
{
    assert(bytes.len() == bytes@.len());
    let name: usize = at + 4;
    if has_tag(bytes, name, 0x50, 0x4c, 0x54, 0x45) {
        ChunkKind::Palette
    } else if has_tag(bytes, name, 0x74, 0x52, 0x4e, 0x53) {
        ChunkKind::Transparency
    } else if has_tag(bytes, name, 0x49, 0x44, 0x41, 0x54) {
        ChunkKind::Pixels
    } else if has_tag(bytes, name, 0x66, 0x63, 0x54, 0x4c) {
        ChunkKind::FrameControl
    } else if has_tag(bytes, name, 0x66, 0x64, 0x41, 0x54) {
        ChunkKind::FramePixels
    } else if has_tag(bytes, name, 0x61, 0x63, 0x54, 0x4c) {
        ChunkKind::Animation
    } else if has_tag(bytes, name, 0x67, 0x41, 0x4d, 0x41) {
        ChunkKind::Gamma
    } else if has_tag(bytes, name, 0x65, 0x58, 0x49, 0x66) {
        ChunkKind::Exif
    } else if has_tag(bytes, name, 0x74, 0x45, 0x58, 0x74) {
        ChunkKind::Text
    } else if has_tag(bytes, name, 0x69, 0x43, 0x43, 0x50) || has_tag(
        bytes,
        name,
        0x7a,
        0x54,
        0x58,
        0x74,
    ) {
        ChunkKind::Packed
    } else if has_tag(bytes, name, 0x69, 0x54, 0x58, 0x74) {
        ChunkKind::International
    } else if has_tag(bytes, name, 0x49, 0x45, 0x4e, 0x44) {
        ChunkKind::End
    } else {
        ChunkKind::Other
    }
}

fn find_keyword_length(bytes: &[u8], at: usize, size: usize) -> (length: Option<usize>)
    requires
        at + 12 + size <= bytes@.len(),
        size == be32(bytes@, at as int),
    ensures
        match length {
            Some(length) => keyword_length(bytes@, at as int) == Some(length as int) && length < size
                && length < 79,
            None => keyword_length(bytes@, at as int) is None,
        },
{
    let most: usize = if size < 79 {
        size
    } else {
        79
    };
    assert(bytes.len() == bytes@.len());
    let start: usize = at + 8;
    let mut length: usize = 0;
    while length < most
        invariant
            length <= most,
            start + most <= bytes@.len() <= usize::MAX,
            first_zero(bytes@, start as int, start + most) == first_zero(
                bytes@,
                start + length,
                start + most,
            ),
            start == at + 8,
            most == if size < 79 {
                size as int
            } else {
                79
            },
            size == be32(bytes@, at as int),
        decreases most - length,
    {
        if bytes[start + length] == 0 {
            return Some(length);
        }
        length = length + 1;
    }
    None
}

fn color_type_of(bytes: &[u8]) -> (color: Option<u8>)
    ensures
        color == color_type(bytes@),
{
    if bytes.len() > 25 {
        Some(bytes[25])
    } else {
        None
    }
}

fn larger(value: usize, least: usize) -> (larger: usize)
    ensures
        larger == at_least(value as int, least as int),
{
    if value < least {
        least
    } else {
        value
    }
}

fn count_passed(bytes: &[u8], at: usize, size: usize, in_frame: bool) -> (count: usize)
    requires
        at + 12 + size <= bytes@.len(),
        size == be32(bytes@, at as int),
    ensures
        count == bytes_passed(bytes@, at as int, in_frame),
{
    assert(bytes.len() == bytes@.len());
    match kind_of_chunk(bytes, at) {
        ChunkKind::Palette => if size < 768 {
            size / 3 * 3
        } else {
            768
        },
        ChunkKind::Transparency => match color_type_of(bytes) {
            Some(0) => 2,
            Some(2) => 6,
            _ => size,
        },
        ChunkKind::FramePixels => if in_frame {
            larger(size, 4)
        } else {
            size
        },
        ChunkKind::Animation => if size == 8 {
            8
        } else {
            size + 12
        },
        ChunkKind::Gamma => 4,
        ChunkKind::Packed => match find_keyword_length(bytes, at, size) {
            Some(length) => larger(size, length + 2),
            None => size,
        },
        ChunkKind::International => match find_keyword_length(bytes, at, size) {
            Some(length) => larger(size, length + 5),
            None => size,
        },
        _ => size,
    }
}

fn count_looked_at(bytes: &[u8], at: usize, size: usize) -> (count: usize)
    requires
        at + 12 + size <= bytes@.len(),
        size == be32(bytes@, at as int),
    ensures
        count == bytes_looked_at(bytes@, at as int),
{
    let kind = kind_of_chunk(bytes, at);
    match kind {
        ChunkKind::Exif => size,
        ChunkKind::Text | ChunkKind::Packed | ChunkKind::International => {
            let behind: usize = match kind {
                ChunkKind::Text => 1,
                ChunkKind::Packed => 2,
                _ => 5,
            };
            match find_keyword_length(bytes, at, size) {
                Some(length) => if size - length > behind {
                    size - length - behind
                } else {
                    0
                },
                None => 0,
            }
        },
        _ => 0,
    }
}

/// Whether the decoder can take a PNG file: see `png_can_be_taken`.
pub fn can_take_png(bytes: &[u8], max_edge: usize) -> (can: bool)
    ensures
        can == png_can_be_taken(bytes@, max_edge as int),
{
    let count: usize = bytes.len();
    if count < 8 {
        return true;
    }
    let mut at: usize = 8;
    let mut controls: usize = 0;
    let mut wide = false;
    let mut palette = false;
    while count - at >= 12
        invariant
            count == bytes@.len(),
            8 <= at <= count,
            controls <= at,
            png_can_be_taken(bytes@, max_edge as int) == chunks_can_be_taken(
                bytes@,
                at as int,
                max_edge as int,
                controls as int,
                wide,
                palette,
            ),
        decreases count - at,
    {
        let size: usize = read_be32(bytes, at) as usize;
        if size > count - at - 12 {
            return true;
        }
        let kind = kind_of_chunk(bytes, at);
        if kind == ChunkKind::End {
            return match color_type_of(bytes) {
                Some(3) => palette,
                _ => true,
            };
        }
        if kind == ChunkKind::FrameControl && size != 26 {
            return true;
        }
        if count_looked_at(bytes, at, size) > LOOK_LIMIT as usize {
            return false;
        }
        if kind == ChunkKind::Pixels && wide && count > 24 && bytes[24] == 16 {
            return false;
        }
        let passed: usize = count_passed(bytes, at, size, controls > 0);
        let rest: usize = count - at - 12;
        if passed > rest {
            proof {
                reveal_with_fuel(chunks_can_be_taken, 2);
            }
            return true;
        }
        if kind == ChunkKind::FrameControl {
            wide = read_be32(bytes, at + 12) as usize > max_edge || read_be32(bytes, at + 16)
                as usize > max_edge;
            controls = controls + 1;
        } else if kind == ChunkKind::Palette && controls <= 3 {
            palette = true;
        }
        at = at + 12 + passed;
    }
    true
}

/// The message for a PNG file that the decoder cannot take.
pub open spec fn chunk_message() -> Seq<char> {
    "PNG chunks are beyond what the decoder takes"@
}

/// Refuses a PNG file that the decoder cannot take.
pub fn reject_chunks(bytes: &[u8], max_edge: usize) -> (result: Result<(), String>)
    ensures
        match result {
            Ok(_) => png_can_be_taken(bytes@, max_edge as int),
            Err(message) => !png_can_be_taken(bytes@, max_edge as int) && message@
                == chunk_message(),
        },
{
    if can_take_png(bytes, max_edge) {
        Ok(())
    } else {
        Err("PNG chunks are beyond what the decoder takes".to_owned())
    }
}

/// A chunk that is as long as its kind asks for is gone over whole, and no chunk is looked at beyond its
/// end. A palette is made of threes of bytes, at most 256 of them; the transparent color takes two bytes
/// in gray and six in red, green and blue.
pub proof fn sound_chunks_are_gone_over_whole(bytes: Seq<u8>, at: int, in_frame: bool)
    requires
        0 <= at && at + 8 <= bytes.len(),
    ensures
        ({
            let size = be32(bytes, at);
            let kind = kind_at(bytes, at);
            let room = match kind {
                ChunkKind::Packed => 2int,
                ChunkKind::International => 5int,
                _ => 0int,
            };
            &&& {
                &&& kind == ChunkKind::Palette ==> size % 3 == 0 && size <= 768
                &&& kind == ChunkKind::Transparency && bytes.len() > 25 && bytes[25] == 0 ==> size == 2
                &&& kind == ChunkKind::Transparency && bytes.len() > 25 && bytes[25] == 2 ==> size == 6
                &&& kind == ChunkKind::FramePixels && in_frame ==> size >= 4
                &&& kind == ChunkKind::Animation ==> size == 8
                &&& kind == ChunkKind::Gamma ==> size == 4
                &&& keyword_length(bytes, at) matches Some(length) ==> length + room <= size
            } ==> bytes_passed(bytes, at, in_frame) == size
            &&& 0 <= bytes_looked_at(bytes, at) <= size
        }),
{
    let size = be32(bytes, at);
    if let Some(length) = keyword_length(bytes, at) {
        let end = at + 8 + if size < 79 {
            size
        } else {
            79
        };
        if at + 8 < end {
            the_first_zero_comes_first(bytes, at + 8, end, at + 8);
        }
    }
}

} // verus!
