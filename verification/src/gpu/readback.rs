//! Reading a finished picture back from the GPU: row padding, buffer sizes and byte counts.
use vstd::prelude::*;

verus! {

/// The multiple to which a row in a copy buffer is padded.
pub const ROW_ALIGNMENT: u32 = 256;

/// `value` divided by `divisor`, rounded up.
pub open spec fn divided_up(value: int, divisor: int) -> int {
    (value + divisor - 1) / divisor
}

/// The smallest multiple of `alignment` that is not below `value`.
pub open spec fn aligned(value: int, alignment: int) -> int {
    divided_up(value, alignment) * alignment
}

/// A padded length holds the length, is a multiple of the alignment, and has less than one
/// alignment of padding.
pub proof fn alignment_pads_by_less_than_one_unit(value: int, alignment: int)
    requires
        0 <= value,
        0 < alignment,
    ensures
        value <= aligned(value, alignment) < value + alignment,
        aligned(value, alignment) % alignment == 0,
{
    let n = value + alignment - 1;
    vstd::arithmetic::div_mod::lemma_fundamental_div_mod(n, alignment);
    vstd::arithmetic::div_mod::lemma_mod_bound(n, alignment);
    vstd::arithmetic::mul::lemma_mul_is_commutative(alignment, n / alignment);
    vstd::arithmetic::div_mod::lemma_mod_multiples_basic(n / alignment, alignment);
}

/// A length that is aligned already is its own aligned length.
pub proof fn aligned_length_stays(value: int, alignment: int)
    requires
        0 <= value,
        0 < alignment,
        value % alignment == 0,
    ensures
        aligned(value, alignment) == value,
{
    let q = value / alignment;
    vstd::arithmetic::div_mod::lemma_fundamental_div_mod(value, alignment);
    vstd::arithmetic::mul::lemma_mul_is_commutative(alignment, q);
    vstd::arithmetic::div_mod::lemma_div_multiples_vanish_fancy(q, alignment - 1, alignment);
}

/// `value / divisor`, rounded up.
pub fn divide_up(value: u32, divisor: u32) -> (quotient: u32)
    requires
        divisor > 0,
    ensures
        quotient == divided_up(value as int, divisor as int),
{
    let wide: u64 = (value as u64 + (divisor as u64 - 1)) / divisor as u64;
    proof {
        let n = value + divisor - 1;
        let d = divisor as int;
        assert(n / d <= value) by (nonlinear_arith)
            requires
                n == value + d - 1,
                d >= 1,
                value >= 0,
        ;
        assert(n / d >= 0) by (nonlinear_arith)
            requires
                n >= 0,
                d >= 1,
        ;
    }
    wide as u32
}

/// The smallest multiple of `alignment` that is not below `value`.
pub fn align_to(value: u32, alignment: u32) -> (padded: u32)
    requires
        alignment > 0,
        aligned(value as int, alignment as int) <= u32::MAX,
    ensures
        padded == aligned(value as int, alignment as int),
{
    proof {
        alignment_pads_by_less_than_one_unit(value as int, alignment as int);
    }
    divide_up(value, alignment) * alignment
}

/// How a picture lies in the buffer that the GPU copies it to.
#[derive(Debug, Clone, Copy, PartialEq, Eq, Structural)]
pub struct Readback {
    /// The bytes of a row of pixels.
    pub row_bytes: u32,
    /// The bytes from the start of one row to the start of the next.
    pub padded_bytes_per_row: u32,
    /// The number of rows.
    pub rows: u32,
    /// The bytes of the whole buffer.
    pub size: u64,
}

/// Whether the rows of a picture of this size can be counted in 32 bits, padding included.
pub open spec fn fits_a_readback(size: [usize; 2]) -> bool {
    &&& size[0] * 4 + (ROW_ALIGNMENT - 1) <= u32::MAX
    &&& size[1] <= u32::MAX
}

/// How an RGBA picture of the given size is laid out.
pub open spec fn readback_of(size: [usize; 2]) -> Readback {
    let row = size[0] * 4;
    let padded = aligned(row, ROW_ALIGNMENT as int);
    Readback {
        row_bytes: row as u32,
        padded_bytes_per_row: padded as u32,
        rows: size[1] as u32,
        size: (padded * size[1]) as u64,
    }
}

/// A picture lies in its buffer in rows of four bytes per pixel, each padded by less than one
/// alignment to a multiple of it, as many rows as the picture is high.
pub proof fn pictures_lie_in_padded_rows(size: [usize; 2])
    requires
        fits_a_readback(size),
    ensures
        ({
            let layout = readback_of(size);
            &&& layout.row_bytes == 4 * size[0]
            &&& layout.padded_bytes_per_row as int % 256 == 0
            &&& layout.row_bytes <= layout.padded_bytes_per_row < layout.row_bytes + 256
            &&& layout.rows == size[1]
            &&& layout.size == layout.padded_bytes_per_row * size[1]
        }),
{
    alignment_pads_by_less_than_one_unit(size[0] * 4, 256);
    let padded = aligned(size[0] * 4, 256);
    let rows = size[1] as int;
    assert(0 <= padded * rows <= u32::MAX * u32::MAX) by (nonlinear_arith)
        requires
            0 <= padded <= u32::MAX,
            0 <= rows <= u32::MAX,
    ;
}

/// Whether a picture of this size can be laid out, that is, `fits_a_readback`.
pub fn can_be_read_back(size: [usize; 2]) -> (fits: bool)
    ensures
        fits == fits_a_readback(size),
{
    size[0] <= (u32::MAX - 255) as usize / 4 && size[1] <= u32::MAX as usize
}

/// How an RGBA picture of the given size is laid out.
pub fn readback(size: [usize; 2]) -> (layout: Readback)
    requires
        fits_a_readback(size),
    ensures
        layout == readback_of(size),
        layout.row_bytes == size[0] * 4,
        layout.row_bytes <= layout.padded_bytes_per_row,
        layout.padded_bytes_per_row == aligned(size[0] * 4, ROW_ALIGNMENT as int),
        layout.rows == size[1],
        layout.size == layout.padded_bytes_per_row * layout.rows,
{
    let row_bytes: u32 = size[0] as u32 * 4;
    proof {
        alignment_pads_by_less_than_one_unit(row_bytes as int, ROW_ALIGNMENT as int);
    }
    let padded_bytes_per_row: u32 = align_to(row_bytes, ROW_ALIGNMENT);
    let rows: u32 = size[1] as u32;
    proof {
        assert(padded_bytes_per_row * rows <= u32::MAX * u32::MAX) by (nonlinear_arith)
            requires
                padded_bytes_per_row <= u32::MAX,
                rows <= u32::MAX,
        ;
        assert(padded_bytes_per_row * rows >= 0) by (nonlinear_arith);
    }
    Readback {
        row_bytes,
        padded_bytes_per_row,
        rows,
        size: padded_bytes_per_row as u64 * rows as u64,
    }
}

/// The rows of a padded buffer without their padding, one after the other.
pub open spec fn unpadded(mapped: Seq<u8>, row: int, padded: int, rows: int) -> Seq<u8> {
    Seq::new((row * rows) as nat, |i: int| mapped[i / row * padded + i % row])
}

/// Taking the padding off a buffer gives the pixels that were laid out in it.
pub proof fn padding_is_taken_off(
    pixels: Seq<u8>,
    mapped: Seq<u8>,
    row: int,
    padded: int,
    rows: int,
)
    requires
        0 <= row <= padded,
        0 <= rows,
        pixels.len() == row * rows,
        forall|y: int, x: int|
            0 <= y < rows && 0 <= x < row ==> mapped[y * padded + x] == #[trigger] pixels[y * row
                + x],
    ensures
        unpadded(mapped, row, padded, rows) == pixels,
{
    assert forall|i: int| 0 <= i < row * rows implies unpadded(mapped, row, padded, rows)[i]
        == pixels[i] by {
        if row == 0 {
            assert(row * rows == 0) by (nonlinear_arith)
                requires
                    row == 0,
            ;
        }
        let y = i / row;
        let x = i % row;
        vstd::arithmetic::div_mod::lemma_fundamental_div_mod(i, row);
        vstd::arithmetic::div_mod::lemma_mod_bound(i, row);
        vstd::arithmetic::mul::lemma_mul_is_commutative(row, y);
        assert(0 <= y < rows) by (nonlinear_arith)
            requires
                y * row + x == i,
                0 <= x < row,
                0 <= i < row * rows,
        ;
        assert(pixels[y * row + x] == pixels[i]);
    }
    assert(unpadded(mapped, row, padded, rows) =~= pixels);
}

/// The pixels in a mapped buffer, without the padding of its rows.
pub fn unpad_rows(mapped: &[u8], layout: Readback) -> (pixels: Vec<u8>)
    requires
        layout.row_bytes <= layout.padded_bytes_per_row,
        layout.padded_bytes_per_row * layout.rows <= mapped@.len(),
    ensures
        pixels@ == unpadded(
            mapped@,
            layout.row_bytes as int,
            layout.padded_bytes_per_row as int,
            layout.rows as int,
        ),
        pixels@.len() == layout.row_bytes * layout.rows,
{
    let row: usize = layout.row_bytes as usize;
    let padded: usize = layout.padded_bytes_per_row as usize;
    let rows: usize = layout.rows as usize;
    assert(mapped.len() == mapped@.len());
    let mut pixels: Vec<u8> = Vec::new();
    let mut y: usize = 0;
    let mut start: usize = 0;
    let ghost full = unpadded(mapped@, row as int, padded as int, rows as int);
    assert(row * 0 == 0) by (nonlinear_arith);
    assert(padded * 0 == 0) by (nonlinear_arith);
    assert(row * rows >= 0) by (nonlinear_arith);
    assert(full.take(0) =~= pixels@);
    while y < rows
        invariant
            y <= rows,
            start == padded * y,
            row <= padded,
            padded * rows <= mapped@.len(),
            mapped@.len() <= usize::MAX,
            full == unpadded(mapped@, row as int, padded as int, rows as int),
            full.len() == row * rows,
            row * y <= row * rows,
            pixels@ == full.take(row * y),
        decreases rows - y,
    {
        assert(padded * y + padded <= padded * rows && padded * (y + 1) == padded * y + padded)
            by (nonlinear_arith)
            requires
                y + 1 <= rows,
                padded >= 0,
        ;
        assert(row * (y + 1) == row * y + row && row * (y + 1) <= row * rows && row * y >= 0)
            by (nonlinear_arith)
            requires
                y + 1 <= rows,
                row >= 0,
                y >= 0,
        ;
        let mut x: usize = 0;
        while x < row
            invariant
                x <= row,
                y < rows,
                start == padded * y,
                row <= padded,
                padded * y + padded <= padded * rows,
                padded * rows <= mapped@.len(),
                mapped@.len() <= usize::MAX,
                full == unpadded(mapped@, row as int, padded as int, rows as int),
                full.len() == row * rows,
                row * y >= 0,
                row * y + row <= row * rows,
                pixels@ == full.take(row * y + x),
            decreases row - x,
        {
            pixels.push(mapped[start + x]);
            proof {
                let i = row * y + x;
                vstd::arithmetic::mul::lemma_mul_is_commutative(row as int, y as int);
                vstd::arithmetic::div_mod::lemma_fundamental_div_mod_converse(
                    i,
                    row as int,
                    y as int,
                    x as int,
                );
                vstd::arithmetic::mul::lemma_mul_is_commutative(padded as int, y as int);
                assert(full[i] == mapped@[start + x]);
                assert(full.take(i + 1) =~= full.take(i).push(full[i]));
            }
            x = x + 1;
        }
        start = start + padded;
        y = y + 1;
    }
    assert(full.take(row * rows) =~= full);
    pixels
}

/// The bytes of a row of RGBA pixels, or what is wrong with their number.
pub open spec fn row_bytes_outcome(width: int, label: Seq<char>) -> Result<int, Seq<char>> {
    if width * 4 > usize::MAX {
        Err(label + " row byte size overflowed"@)
    } else if width * 4 > u32::MAX {
        Err(label + " row byte size exceeds u32"@)
    } else {
        Ok(width * 4)
    }
}

/// The aligned length, or what is wrong with it.
pub open spec fn aligned_outcome(value: int, alignment: int, label: Seq<char>) -> Result<
    int,
    Seq<char>,
> {
    if alignment == 0 {
        Err(label + " alignment must be non-zero"@)
    } else if aligned(value, alignment) > u32::MAX {
        Err(label + " alignment exceeds u32"@)
    } else {
        Ok(aligned(value, alignment))
    }
}

/// The view of a result whose error is a text.
pub open spec fn outcome_of(result: Result<u32, String>) -> Result<int, Seq<char>> {
    match result {
        Ok(value) => Ok(value as int),
        Err(error) => Err(error@),
    }
}

/// `label` followed by `ending`.
pub fn joined(label: &str, ending: &str) -> (message: String)
    ensures
        message@ == label@ + ending@,
{
    let mut message = label.to_owned();
    message.append(ending);
    message
}

/// The bytes of a row of RGBA pixels.
pub fn rgba8_bytes_per_row(width: usize, label: &str) -> (bytes: Result<u32, String>)
    ensures
        outcome_of(bytes) == row_bytes_outcome(width as int, label@),
{
    match width.checked_mul(4) {
        None => Err(joined(label, " row byte size overflowed")),
        Some(bytes) => {
            if bytes > u32::MAX as usize {
                Err(joined(label, " row byte size exceeds u32"))
            } else {
                Ok(bytes as u32)
            }
        },
    }
}

/// The smallest multiple of `alignment` that is not below `value`, where it fits in 32 bits.
pub fn align_to_checked(value: u32, alignment: u32, label: &str) -> (padded: Result<u32, String>)
    ensures
        outcome_of(padded) == aligned_outcome(value as int, alignment as int, label@),
{
    if alignment == 0 {
        return Err(joined(label, " alignment must be non-zero"));
    }
    proof {
        alignment_pads_by_less_than_one_unit(value as int, alignment as int);
    }
    let padded: u64 = divide_up(value, alignment) as u64 * alignment as u64;
    if padded > u32::MAX as u64 {
        Err(joined(label, " alignment exceeds u32"))
    } else {
        Ok(padded as u32)
    }
}

/// Counts over the bytes of a texture.
#[derive(Debug, Clone, Copy, PartialEq, Eq, Structural)]
pub struct ByteTally {
    pub count: usize,
    pub sum: u128,
    pub square_sum: u128,
    pub min: u8,
    pub max: u8,
    pub zeros: u64,
    pub saturated: u64,
}

/// The sum of the bytes.
pub open spec fn byte_sum(bytes: Seq<u8>) -> int
    decreases bytes.len(),
{
    if bytes.len() == 0 {
        0
    } else {
        byte_sum(bytes.drop_last()) + bytes.last()
    }
}

/// The sum of the squares of the bytes.
pub open spec fn byte_square_sum(bytes: Seq<u8>) -> int
    decreases bytes.len(),
{
    if bytes.len() == 0 {
        0
    } else {
        byte_square_sum(bytes.drop_last()) + bytes.last() * bytes.last()
    }
}

/// How often a value occurs.
pub open spec fn occurrences(bytes: Seq<u8>, value: u8) -> int
    decreases bytes.len(),
{
    if bytes.len() == 0 {
        0
    } else {
        occurrences(bytes.drop_last(), value) + if bytes.last() == value {
            1int
        } else {
            0int
        }
    }
}

/// Replacing one byte moves the sums by exactly that byte, and the counts of the two values by one
/// each; a texture of zeros has sums of zero and nothing but zeros.
pub proof fn every_byte_counts_once(bytes: Seq<u8>, i: int, byte: u8, value: u8)
    requires
        0 <= i < bytes.len(),
    ensures
        byte_sum(bytes.update(i, byte)) == byte_sum(bytes) - bytes[i] + byte,
        byte_square_sum(bytes.update(i, byte)) == byte_square_sum(bytes) - bytes[i] * bytes[i] + byte
            * byte,
        occurrences(bytes.update(i, byte), value) == occurrences(bytes, value) - (if bytes[i]
            == value {
            1int
        } else {
            0
        }) + (if byte == value {
            1int
        } else {
            0
        }),
        byte_sum(Seq::empty()) == 0 && byte_square_sum(Seq::empty()) == 0 && occurrences(
            Seq::empty(),
            value,
        ) == 0,
    decreases bytes.len(),
{
    let after = bytes.update(i, byte);
    let last = bytes.len() - 1;
    if i == last {
        assert(after.drop_last() =~= bytes.drop_last());
    } else {
        every_byte_counts_once(bytes.drop_last(), i, byte, value);
        assert(after.drop_last() =~= bytes.drop_last().update(i, byte));
    }
}

/// Counts the bytes of a texture: their sums, their extremes, and how many are at either end of
/// the range. An empty texture has both extremes at 0.
pub fn tally_bytes(bytes: &[u8]) -> (tally: ByteTally)
    ensures
        tally.count == bytes@.len(),
        tally.sum == byte_sum(bytes@),
        tally.square_sum == byte_square_sum(bytes@),
        tally.zeros == occurrences(bytes@, 0),
        tally.saturated == occurrences(bytes@, 255),
        bytes@.len() == 0 ==> tally.min == 0 && tally.max == 0,
        bytes@.len() > 0 ==> bytes@.contains(tally.min) && bytes@.contains(tally.max),
        forall|i: int| 0 <= i < bytes@.len() ==> tally.min <= #[trigger] bytes@[i] <= tally.max,
{
    let count: usize = bytes.len();
    if count == 0 {
        return ByteTally { count, sum: 0, square_sum: 0, min: 0, max: 0, zeros: 0, saturated: 0 };
    }
    let mut sum: u128 = 0;
    let mut square_sum: u128 = 0;
    let mut min: u8 = bytes[0];
    let mut max: u8 = bytes[0];
    let mut zeros: u64 = 0;
    let mut saturated: u64 = 0;
    let mut i: usize = 0;
    while i < count
        invariant
            i <= count,
            count == bytes@.len(),
            count > 0,
            sum == byte_sum(bytes@.take(i as int)),
            square_sum == byte_square_sum(bytes@.take(i as int)),
            zeros == occurrences(bytes@.take(i as int), 0),
            saturated == occurrences(bytes@.take(i as int), 255),
            sum <= 255 * i,
            square_sum <= 65025 * i,
            zeros <= i,
            saturated <= i,
            bytes@.contains(min),
            bytes@.contains(max),
            forall|k: int| 0 <= k < i ==> min <= #[trigger] bytes@[k] <= max,
        decreases count - i,
    {
        let byte: u8 = bytes[i];
        proof {
            let next = bytes@.take(i + 1);
            assert(next.drop_last() =~= bytes@.take(i as int));
            assert(next.last() == byte);
            assert(byte * byte <= 65025) by (nonlinear_arith)
                requires
                    0 <= byte <= 255,
            ;
            assert(byte * byte >= 0) by (nonlinear_arith);
        }
        sum = sum + byte as u128;
        square_sum = square_sum + byte as u128 * byte as u128;
        if byte < min {
            min = byte;
        }
        if byte > max {
            max = byte;
        }
        if byte == 0 {
            zeros = zeros + 1;
        } else if byte == u8::MAX {
            saturated = saturated + 1;
        }
        i = i + 1;
    }
    assert(bytes@.take(count as int) =~= bytes@);
    ByteTally { count, sum, square_sum, min, max, zeros, saturated }
}

} // verus!
