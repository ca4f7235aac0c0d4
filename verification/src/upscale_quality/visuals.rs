//! The pictures that a scan leaves behind: their names, and the labelled contact sheet.
use crate::binary;
use crate::text;
use crate::worker::pixels::PixelLayout;
use crate::worker::resize;
use crate::worker::resize::ImageFilter;
use vstd::prelude::*;

verus! {

/// The rows of a character's glyph, five columns each, `1` where the glyph has a dot.
pub open spec fn glyph_rows_spec(ch: char) -> Seq<Seq<char>> {
    match ch {
        'A' => seq![
            "01110"@,
            "10001"@,
            "10001"@,
            "11111"@,
            "10001"@,
            "10001"@,
            "10001"@,
        ],
        'B' => seq![
            "11110"@,
            "10001"@,
            "10001"@,
            "11110"@,
            "10001"@,
            "10001"@,
            "11110"@,
        ],
        'C' => seq![
            "01111"@,
            "10000"@,
            "10000"@,
            "10000"@,
            "10000"@,
            "10000"@,
            "01111"@,
        ],
        'D' => seq![
            "11110"@,
            "10001"@,
            "10001"@,
            "10001"@,
            "10001"@,
            "10001"@,
            "11110"@,
        ],
        'E' => seq![
            "11111"@,
            "10000"@,
            "10000"@,
            "11110"@,
            "10000"@,
            "10000"@,
            "11111"@,
        ],
        'F' => seq![
            "11111"@,
            "10000"@,
            "10000"@,
            "11110"@,
            "10000"@,
            "10000"@,
            "10000"@,
        ],
        'G' => seq![
            "01111"@,
            "10000"@,
            "10000"@,
            "10111"@,
            "10001"@,
            "10001"@,
            "01111"@,
        ],
        'H' => seq![
            "10001"@,
            "10001"@,
            "10001"@,
            "11111"@,
            "10001"@,
            "10001"@,
            "10001"@,
        ],
        'I' => seq![
            "11111"@,
            "00100"@,
            "00100"@,
            "00100"@,
            "00100"@,
            "00100"@,
            "11111"@,
        ],
        'J' => seq![
            "00111"@,
            "00010"@,
            "00010"@,
            "00010"@,
            "10010"@,
            "10010"@,
            "01100"@,
        ],
        'K' => seq![
            "10001"@,
            "10010"@,
            "10100"@,
            "11000"@,
            "10100"@,
            "10010"@,
            "10001"@,
        ],
        'L' => seq![
            "10000"@,
            "10000"@,
            "10000"@,
            "10000"@,
            "10000"@,
            "10000"@,
            "11111"@,
        ],
        'M' => seq![
            "10001"@,
            "11011"@,
            "10101"@,
            "10101"@,
            "10001"@,
            "10001"@,
            "10001"@,
        ],
        'N' => seq![
            "10001"@,
            "11001"@,
            "10101"@,
            "10011"@,
            "10001"@,
            "10001"@,
            "10001"@,
        ],
        'O' => seq![
            "01110"@,
            "10001"@,
            "10001"@,
            "10001"@,
            "10001"@,
            "10001"@,
            "01110"@,
        ],
        'P' => seq![
            "11110"@,
            "10001"@,
            "10001"@,
            "11110"@,
            "10000"@,
            "10000"@,
            "10000"@,
        ],
        'Q' => seq![
            "01110"@,
            "10001"@,
            "10001"@,
            "10001"@,
            "10101"@,
            "10010"@,
            "01101"@,
        ],
        'R' => seq![
            "11110"@,
            "10001"@,
            "10001"@,
            "11110"@,
            "10100"@,
            "10010"@,
            "10001"@,
        ],
        'S' => seq![
            "01111"@,
            "10000"@,
            "10000"@,
            "01110"@,
            "00001"@,
            "00001"@,
            "11110"@,
        ],
        'T' => seq![
            "11111"@,
            "00100"@,
            "00100"@,
            "00100"@,
            "00100"@,
            "00100"@,
            "00100"@,
        ],
        'U' => seq![
            "10001"@,
            "10001"@,
            "10001"@,
            "10001"@,
            "10001"@,
            "10001"@,
            "01110"@,
        ],
        'V' => seq![
            "10001"@,
            "10001"@,
            "10001"@,
            "10001"@,
            "01010"@,
            "01010"@,
            "00100"@,
        ],
        'W' => seq![
            "10001"@,
            "10001"@,
            "10001"@,
            "10101"@,
            "10101"@,
            "11011"@,
            "10001"@,
        ],
        'X' => seq![
            "10001"@,
            "01010"@,
            "00100"@,
            "00100"@,
            "00100"@,
            "01010"@,
            "10001"@,
        ],
        'Y' => seq![
            "10001"@,
            "01010"@,
            "00100"@,
            "00100"@,
            "00100"@,
            "00100"@,
            "00100"@,
        ],
        'Z' => seq![
            "11111"@,
            "00001"@,
            "00010"@,
            "00100"@,
            "01000"@,
            "10000"@,
            "11111"@,
        ],
        '0' => seq![
            "01110"@,
            "10001"@,
            "10011"@,
            "10101"@,
            "11001"@,
            "10001"@,
            "01110"@,
        ],
        '1' => seq![
            "00100"@,
            "01100"@,
            "00100"@,
            "00100"@,
            "00100"@,
            "00100"@,
            "01110"@,
        ],
        '2' => seq![
            "01110"@,
            "10001"@,
            "00001"@,
            "00010"@,
            "00100"@,
            "01000"@,
            "11111"@,
        ],
        '3' => seq![
            "11110"@,
            "00001"@,
            "00001"@,
            "01110"@,
            "00001"@,
            "00001"@,
            "11110"@,
        ],
        '4' => seq![
            "00010"@,
            "00110"@,
            "01010"@,
            "10010"@,
            "11111"@,
            "00010"@,
            "00010"@,
        ],
        '5' => seq![
            "11111"@,
            "10000"@,
            "10000"@,
            "11110"@,
            "00001"@,
            "00001"@,
            "11110"@,
        ],
        '6' => seq![
            "01110"@,
            "10000"@,
            "10000"@,
            "11110"@,
            "10001"@,
            "10001"@,
            "01110"@,
        ],
        '7' => seq![
            "11111"@,
            "00001"@,
            "00010"@,
            "00100"@,
            "01000"@,
            "01000"@,
            "01000"@,
        ],
        '8' => seq![
            "01110"@,
            "10001"@,
            "10001"@,
            "01110"@,
            "10001"@,
            "10001"@,
            "01110"@,
        ],
        '9' => seq![
            "01110"@,
            "10001"@,
            "10001"@,
            "01111"@,
            "00001"@,
            "00001"@,
            "01110"@,
        ],
        '+' => seq![
            "00000"@,
            "00100"@,
            "00100"@,
            "11111"@,
            "00100"@,
            "00100"@,
            "00000"@,
        ],
        '-' => seq![
            "00000"@,
            "00000"@,
            "00000"@,
            "11111"@,
            "00000"@,
            "00000"@,
            "00000"@,
        ],
        '/' => seq![
            "00001"@,
            "00010"@,
            "00010"@,
            "00100"@,
            "01000"@,
            "01000"@,
            "10000"@,
        ],
        '.' => seq![
            "00000"@,
            "00000"@,
            "00000"@,
            "00000"@,
            "00000"@,
            "01100"@,
            "01100"@,
        ],
        '_' => seq![
            "00000"@,
            "00000"@,
            "00000"@,
            "00000"@,
            "00000"@,
            "00000"@,
            "11111"@,
        ],
        ' ' => seq![
            "00000"@,
            "00000"@,
            "00000"@,
            "00000"@,
            "00000"@,
            "00000"@,
            "00000"@,
        ],
        _ => seq![
            "11111"@,
            "00001"@,
            "00010"@,
            "00100"@,
            "00100"@,
            "00000"@,
            "00100"@,
        ],
    }
}

/// The rows of a character's glyph. A character without one has that of a question mark.
pub fn glyph_rows(ch: char) -> (rows: [&'static str; 7])
    ensures
        forall|r: int| 0 <= r < 7 ==> (#[trigger] rows[r])@ == glyph_rows_spec(ch)[r],
{
    match ch {
        'A' => [
            "01110", "10001", "10001", "11111", "10001", "10001", "10001",
        ],
        'B' => [
            "11110", "10001", "10001", "11110", "10001", "10001", "11110",
        ],
        'C' => [
            "01111", "10000", "10000", "10000", "10000", "10000", "01111",
        ],
        'D' => [
            "11110", "10001", "10001", "10001", "10001", "10001", "11110",
        ],
        'E' => [
            "11111", "10000", "10000", "11110", "10000", "10000", "11111",
        ],
        'F' => [
            "11111", "10000", "10000", "11110", "10000", "10000", "10000",
        ],
        'G' => [
            "01111", "10000", "10000", "10111", "10001", "10001", "01111",
        ],
        'H' => [
            "10001", "10001", "10001", "11111", "10001", "10001", "10001",
        ],
        'I' => [
            "11111", "00100", "00100", "00100", "00100", "00100", "11111",
        ],
        'J' => [
            "00111", "00010", "00010", "00010", "10010", "10010", "01100",
        ],
        'K' => [
            "10001", "10010", "10100", "11000", "10100", "10010", "10001",
        ],
        'L' => [
            "10000", "10000", "10000", "10000", "10000", "10000", "11111",
        ],
        'M' => [
            "10001", "11011", "10101", "10101", "10001", "10001", "10001",
        ],
        'N' => [
            "10001", "11001", "10101", "10011", "10001", "10001", "10001",
        ],
        'O' => [
            "01110", "10001", "10001", "10001", "10001", "10001", "01110",
        ],
        'P' => [
            "11110", "10001", "10001", "11110", "10000", "10000", "10000",
        ],
        'Q' => [
            "01110", "10001", "10001", "10001", "10101", "10010", "01101",
        ],
        'R' => [
            "11110", "10001", "10001", "11110", "10100", "10010", "10001",
        ],
        'S' => [
            "01111", "10000", "10000", "01110", "00001", "00001", "11110",
        ],
        'T' => [
            "11111", "00100", "00100", "00100", "00100", "00100", "00100",
        ],
        'U' => [
            "10001", "10001", "10001", "10001", "10001", "10001", "01110",
        ],
        'V' => [
            "10001", "10001", "10001", "10001", "01010", "01010", "00100",
        ],
        'W' => [
            "10001", "10001", "10001", "10101", "10101", "11011", "10001",
        ],
        'X' => [
            "10001", "01010", "00100", "00100", "00100", "01010", "10001",
        ],
        'Y' => [
            "10001", "01010", "00100", "00100", "00100", "00100", "00100",
        ],
        'Z' => [
            "11111", "00001", "00010", "00100", "01000", "10000", "11111",
        ],
        '0' => [
            "01110", "10001", "10011", "10101", "11001", "10001", "01110",
        ],
        '1' => [
            "00100", "01100", "00100", "00100", "00100", "00100", "01110",
        ],
        '2' => [
            "01110", "10001", "00001", "00010", "00100", "01000", "11111",
        ],
        '3' => [
            "11110", "00001", "00001", "01110", "00001", "00001", "11110",
        ],
        '4' => [
            "00010", "00110", "01010", "10010", "11111", "00010", "00010",
        ],
        '5' => [
            "11111", "10000", "10000", "11110", "00001", "00001", "11110",
        ],
        '6' => [
            "01110", "10000", "10000", "11110", "10001", "10001", "01110",
        ],
        '7' => [
            "11111", "00001", "00010", "00100", "01000", "01000", "01000",
        ],
        '8' => [
            "01110", "10001", "10001", "01110", "10001", "10001", "01110",
        ],
        '9' => [
            "01110", "10001", "10001", "01111", "00001", "00001", "01110",
        ],
        '+' => [
            "00000", "00100", "00100", "11111", "00100", "00100", "00000",
        ],
        '-' => [
            "00000", "00000", "00000", "11111", "00000", "00000", "00000",
        ],
        '/' => [
            "00001", "00010", "00010", "00100", "01000", "01000", "10000",
        ],
        '.' => [
            "00000", "00000", "00000", "00000", "00000", "01100", "01100",
        ],
        '_' => [
            "00000", "00000", "00000", "00000", "00000", "00000", "11111",
        ],
        ' ' => [
            "00000", "00000", "00000", "00000", "00000", "00000", "00000",
        ],
        _ => [
            "11111", "00001", "00010", "00100", "00100", "00000", "00100",
        ],
    }
}

/// Every glyph has seven rows of five columns, each with a dot or without.
pub proof fn glyphs_have_seven_rows_of_five(ch: char, row: int)
    requires
        0 <= row < 7,
    ensures
        glyph_rows_spec(ch).len() == 7,
        glyph_rows_spec(ch)[row].len() == 5,
        forall|column: int|
            0 <= column < 5 ==> #[trigger] glyph_rows_spec(ch)[row][column] == '0'
                || glyph_rows_spec(ch)[row][column] == '1',
{
    reveal_strlit("00000");
    reveal_strlit("00001");
    reveal_strlit("00010");
    reveal_strlit("00100");
    reveal_strlit("00110");
    reveal_strlit("00111");
    reveal_strlit("01000");
    reveal_strlit("01010");
    reveal_strlit("01100");
    reveal_strlit("01101");
    reveal_strlit("01110");
    reveal_strlit("01111");
    reveal_strlit("10000");
    reveal_strlit("10001");
    reveal_strlit("10010");
    reveal_strlit("10011");
    reveal_strlit("10100");
    reveal_strlit("10101");
    reveal_strlit("10111");
    reveal_strlit("11000");
    reveal_strlit("11001");
    reveal_strlit("11011");
    reveal_strlit("11110");
    reveal_strlit("11111");
}

/// Whether a character has a glyph of its own.
pub open spec fn has_glyph(ch: char) -> bool {
    ('A' <= ch && ch <= 'Z') || ('0' <= ch && ch <= '9') || ch == '+' || ch == '-' || ch == '/' || ch
        == '.' || ch == '_' || ch == ' '
}

/// The dots of a row as a number, one binary digit each.
spec fn row_number(row: Seq<char>) -> int {
    (if row[0] == '1' {
        16int
    } else {
        0
    }) + (if row[1] == '1' {
        8int
    } else {
        0
    }) + (if row[2] == '1' {
        4int
    } else {
        0
    }) + (if row[3] == '1' {
        2int
    } else {
        0
    }) + (if row[4] == '1' {
        1int
    } else {
        0
    })
}

/// The dots of a glyph as a number.
#[verifier::opaque]
spec fn glyph_number(rows: Seq<Seq<char>>) -> int {
    row_number(rows[0]) * 0x4000_0000 + row_number(rows[1]) * 0x200_0000 + row_number(rows[2])
        * 0x10_0000 + row_number(rows[3]) * 0x8000 + row_number(rows[4]) * 0x400 + row_number(
        rows[5],
    ) * 0x20 + row_number(rows[6])
}

/// The character whose glyph has these dots.
#[verifier::opaque]
spec fn glyph_owner(number: int) -> char {
    if number == 15621670449 {
        'A'
    } else if number == 32801506878 {
        'B'
    } else if number == 16660316687 {
        'C'
    } else if number == 32801080894 {
        'D'
    } else if number == 33840644639 {
        'E'
    } else if number == 33840644624 {
        'F'
    } else if number == 16660547119 {
        'G'
    } else if number == 18842895921 {
        'H'
    } else if number == 33424543903 {
        'I'
    } else if number == 7585483340 {
        'J'
    } else if number == 18879369809 {
        'K'
    } else if number == 17734058527 {
        'L'
    } else if number == 19182306865 {
        'M'
    } else if number == 19115132465 {
        'N'
    } else if number == 15621211694 {
        'O'
    } else if number == 32801505808 {
        'P'
    } else if number == 15621215821 {
        'Q'
    } else if number == 32801509969 {
        'R'
    } else if number == 16660235326 {
        'S'
    } else if number == 33424543876 {
        'T'
    } else if number == 18842437166 {
        'U'
    } else if number == 18842429764 {
        'V'
    } else if number == 18842572657 {
        'W'
    } else if number == 18593485137 {
        'X'
    } else if number == 18593484932 {
        'Y'
    } else if number == 33321787935 {
        'Z'
    } else if number == 15623448110 {
        '0'
    } else if number == 4701950094 {
        '1'
    } else if number == 15603929375 {
        '2'
    } else if number == 32247317566 {
        '3'
    } else if number == 2359917634 {
        '4'
    } else if number == 33840628798 {
        '5'
    } else if number == 15587034670 {
        '6'
    } else if number == 33321787656 {
        '7'
    } else if number == 15621113390 {
        '8'
    } else if number == 15621129262 {
        '9'
    } else if number == 139432064 {
        '+'
    } else if number == 1015808 {
        '-'
    } else if number == 1143087376 {
        '/'
    } else if number == 396 {
        '.'
    } else if number == 31 {
        '_'
    } else if number == 0 {
        ' '
    } else {
        '?'
    }
}

proof fn lemma_row_numbers()
    ensures
        row_number("00000"@) == 0,
        row_number("00001"@) == 1,
        row_number("00010"@) == 2,
        row_number("00100"@) == 4,
        row_number("00110"@) == 6,
        row_number("00111"@) == 7,
        row_number("01000"@) == 8,
        row_number("01010"@) == 10,
        row_number("01100"@) == 12,
        row_number("01101"@) == 13,
        row_number("01110"@) == 14,
        row_number("01111"@) == 15,
        row_number("10000"@) == 16,
        row_number("10001"@) == 17,
        row_number("10010"@) == 18,
        row_number("10011"@) == 19,
        row_number("10100"@) == 20,
        row_number("10101"@) == 21,
        row_number("10111"@) == 23,
        row_number("11000"@) == 24,
        row_number("11001"@) == 25,
        row_number("11011"@) == 27,
        row_number("11110"@) == 30,
        row_number("11111"@) == 31,
{
    reveal_strlit("00000");
    reveal_strlit("00001");
    reveal_strlit("00010");
    reveal_strlit("00100");
    reveal_strlit("00110");
    reveal_strlit("00111");
    reveal_strlit("01000");
    reveal_strlit("01010");
    reveal_strlit("01100");
    reveal_strlit("01101");
    reveal_strlit("01110");
    reveal_strlit("01111");
    reveal_strlit("10000");
    reveal_strlit("10001");
    reveal_strlit("10010");
    reveal_strlit("10011");
    reveal_strlit("10100");
    reveal_strlit("10101");
    reveal_strlit("10111");
    reveal_strlit("11000");
    reveal_strlit("11001");
    reveal_strlit("11011");
    reveal_strlit("11110");
    reveal_strlit("11111");
}

/// A glyph's dots tell its character.
proof fn lemma_glyph_owner(ch: char)
    ensures
        glyph_owner(glyph_number(glyph_rows_spec(ch))) == if has_glyph(ch) {
            ch
        } else {
            '?'
        },
{
    reveal(glyph_number);
    reveal(glyph_owner);
    lemma_row_numbers();
}

/// A character without a glyph of its own has that of the question mark.
pub proof fn other_characters_are_question_marks(ch: char)
    requires
        !has_glyph(ch),
    ensures
        glyph_rows_spec(ch) == glyph_rows_spec('?'),
{
}

proof fn lemma_owners_differ(left: Seq<Seq<char>>, right: Seq<Seq<char>>)
    requires
        glyph_owner(glyph_number(left)) != glyph_owner(glyph_number(right)),
    ensures
        left != right,
{
}

/// A character with a glyph of its own shares it with no other, and not with the question mark.
pub proof fn glyphs_tell_characters_apart(left: char, right: char)
    requires
        has_glyph(left),
        left != right,
    ensures
        glyph_rows_spec(left) != glyph_rows_spec(right),
{
    lemma_glyph_owner(left);
    lemma_glyph_owner(right);
    lemma_owners_differ(glyph_rows_spec(left), glyph_rows_spec(right));
}

/// The space around the entries of a contact sheet.
pub const GUTTER: u32 = 16;

/// The most that a thumbnail is wide.
pub const THUMBNAIL_WIDTH: u32 = 320;

/// The most that a thumbnail is high.
pub const THUMBNAIL_HEIGHT: u32 = 520;

/// `c` with the letters `a` to `z` made upper case.
pub open spec fn ascii_upper(c: char) -> char {
    if 'a' <= c && c <= 'z' {
        (c as u32 - 32) as char
    } else {
        c
    }
}

/// `c` with the letters `a` to `z` made upper case.
fn to_ascii_upper(c: char) -> (upper: char)
    ensures
        upper == ascii_upper(c),
{
    if c >= 'a' && c <= 'z' {
        let code: u8 = c as u8;
        (code - 32) as char
    } else {
        c
    }
}

/// An RGBA picture.
#[derive(Debug, Clone)]
pub struct RgbaPicture {
    pub width: u32,
    pub height: u32,
    pub pixels: Vec<u8>,
}

/// An RGBA picture as plain data.
#[verifier::ext_equal]
pub struct RgbaView {
    pub width: int,
    pub height: int,
    pub pixels: Seq<u8>,
}

impl View for RgbaPicture {
    type V = RgbaView;

    open spec fn view(&self) -> RgbaView {
        RgbaView { width: self.width as int, height: self.height as int, pixels: self.pixels@ }
    }
}

impl RgbaView {
    /// Whether the pixels make up a picture of the size.
    pub open spec fn wf(self) -> bool {
        &&& 0 <= self.width
        &&& 0 <= self.height
        &&& self.pixels.len() == self.width * self.height * 4
    }

    /// The column of the pixel that the byte at `i` belongs to.
    pub open spec fn column(self, i: int) -> int {
        (i / 4) % self.width
    }

    /// The row of the pixel that the byte at `i` belongs to.
    pub open spec fn row(self, i: int) -> int {
        (i / 4) / self.width
    }
}

/// The bytes of a colour.
pub open spec fn color_byte(color: [u8; 4], i: int) -> u8 {
    color[i % 4]
}

/// A rectangle of pixels.
#[verifier::ext_equal]
pub struct Area {
    pub x: int,
    pub y: int,
    pub width: int,
    pub height: int,
}

impl Area {
    /// Whether a pixel lies in the rectangle.
    pub open spec fn has(self, px: int, py: int) -> bool {
        self.x <= px < self.x + self.width && self.y <= py < self.y + self.height
    }
}

/// Whether `after` is `before` with the pixels of the rectangle in the colour.
pub open spec fn filled(before: RgbaView, after: RgbaView, area: Area, color: [u8; 4]) -> bool {
    &&& after.width == before.width
    &&& after.height == before.height
    &&& after.pixels.len() == before.pixels.len()
    &&& forall|i: int|
        0 <= i < after.pixels.len() ==> #[trigger] after.pixels[i] == if area.has(
            after.column(i),
            after.row(i),
        ) {
            color_byte(color, i)
        } else {
            before.pixels[i]
        }
}

/// The byte where the pixel at a column and a row starts lies in the picture, and its bytes belong
/// to that pixel.
proof fn lemma_pixel_place(width: int, height: int, x: int, y: int, c: int)
    requires
        0 <= x < width,
        0 <= y < height,
        0 <= c < 4,
    ensures
        0 <= (y * width + x) * 4 + c < width * height * 4,
        ((y * width + x) * 4 + c) / 4 == y * width + x,
        ((y * width + x) * 4 + c) % 4 == c,
        (y * width + x) % width == x,
        (y * width + x) / width == y,
{
    vstd::arithmetic::div_mod::lemma_fundamental_div_mod_converse(y * width + x, width, y, x);
    assert(0 <= y * width + x < width * height) by (nonlinear_arith)
        requires
            0 <= x < width,
            0 <= y < height,
    ;
}

/// A byte belongs to one pixel only.
proof fn lemma_byte_place(width: int, height: int, i: int)
    requires
        0 <= i < width * height * 4,
        0 <= width,
        0 <= height,
    ensures
        0 < width,
        0 <= (i / 4) % width < width,
        0 <= (i / 4) / width < height,
        i / 4 == ((i / 4) / width) * width + (i / 4) % width,
{
    if width == 0 {
        assert(width * height * 4 == 0) by (nonlinear_arith)
            requires
                width == 0,
        ;
    }
    let p = i / 4;
    assert(0 <= p < width * height);
    vstd::arithmetic::div_mod::lemma_fundamental_div_mod(p, width);
    vstd::arithmetic::div_mod::lemma_mod_bound(p, width);
    vstd::arithmetic::mul::lemma_mul_is_commutative(width, p / width);
    let q = p / width;
    let r = p % width;
    assert(0 <= q < height) by (nonlinear_arith)
        requires
            p == q * width + r,
            0 <= r < width,
            0 <= p < width * height,
    ;
}

/// The smaller of two numbers.
fn smaller(left: u32, right: u32) -> (least: u32)
    ensures
        least == if left < right {
            left
        } else {
            right
        },
{
    if left < right {
        left
    } else {
        right
    }
}

/// The larger of two numbers.
fn larger(left: u32, right: u32) -> (most: u32)
    ensures
        most == if left < right {
            right
        } else {
            left
        },
{
    if left < right {
        right
    } else {
        left
    }
}

/// Fills a rectangle, as far as it lies in the picture.
pub fn fill_rect(
    image: &mut RgbaPicture,
    x: u32,
    y: u32,
    width: u32,
    height: u32,
    color: [u8; 4],
)
    requires
        old(image)@.wf(),
        x + width <= u32::MAX,
        y + height <= u32::MAX,
    ensures
        final(image)@.wf(),
        filled(
            old(image)@,
            final(image)@,
            (Area { x: x as int, y: y as int, width: width as int, height: height as int }),
            color,
        ),
{
    let bottom: u32 = smaller(y + height, image.height);
    let right: u32 = smaller(x + width, image.width);
    let ghost before = image@;
    let ghost w = image.width as int;
    let ghost h = image.height as int;
    assert(image.pixels.len() == image.pixels@.len());
    let mut yy: u32 = y;
    while yy < bottom
        invariant
            y <= yy,
            yy <= bottom || yy == y,
            bottom <= h,
            bottom <= y + height,
            right <= w,
            right <= x + width,
            right == w || right == x + width,
            bottom == h || bottom == y + height,
            before.wf(),
            before == old(image)@,
            image@.wf(),
            image@.width == w == before.width,
            image@.height == h == before.height,
            w * h * 4 <= usize::MAX,
            forall|i: int|
                0 <= i < image@.pixels.len() ==> #[trigger] image@.pixels[i] == if x
                    <= before.column(i) < right && y <= before.row(i) < yy {
                    color_byte(color, i)
                } else {
                    before.pixels[i]
                },
        decreases bottom - yy,
    {
        let mut xx: u32 = x;
        while xx < right
            invariant
                x <= xx,
                xx <= right || xx == x,
                y <= yy < bottom <= h,
                right <= w,
                before.wf(),
                image@.wf(),
                image@.width == w == before.width,
                image@.height == h == before.height,
                w * h * 4 <= usize::MAX,
                forall|i: int|
                    0 <= i < image@.pixels.len() ==> #[trigger] image@.pixels[i] == if x
                        <= before.column(i) < right && y <= before.row(i) < yy || (before.row(i)
                        == yy && x <= before.column(i) < xx) {
                        color_byte(color, i)
                    } else {
                        before.pixels[i]
                    },
            decreases right - xx,
        {
            let ghost now = image@.pixels;
            proof {
                lemma_pixel_place(w, h, xx as int, yy as int, 0);
                lemma_pixel_place(w, h, xx as int, yy as int, 3);
                assert(yy * w <= yy * w + xx);
                assert(yy * w >= 0) by (nonlinear_arith)
                    requires
                        yy >= 0,
                        w >= 0,
                ;
            }
            let at: usize = (yy as usize * image.width as usize + xx as usize) * 4;
            image.pixels.set(at, color[0]);
            image.pixels.set(at + 1, color[1]);
            image.pixels.set(at + 2, color[2]);
            image.pixels.set(at + 3, color[3]);
            proof {
                assert forall|i: int| 0 <= i < image@.pixels.len() implies #[trigger] image@.pixels[i]
                    == if x <= before.column(i) < right && y <= before.row(i) < yy || (before.row(i)
                    == yy && x <= before.column(i) < xx + 1) {
                    color_byte(color, i)
                } else {
                    before.pixels[i]
                } by {
                    lemma_byte_place(w, h, i);
                    if at <= i < at + 4 {
                        lemma_pixel_place(w, h, xx as int, yy as int, i - at);
                    } else {
                        assert(image@.pixels[i] == now[i]);
                        if before.row(i) == yy && before.column(i) == xx {
                            assert(i / 4 == yy * w + xx);
                        }
                    }
                }
            }
            xx = xx + 1;
        }
        proof {
            assert forall|i: int| 0 <= i < image@.pixels.len() implies #[trigger] image@.pixels[i]
                == if x <= before.column(i) < right && y <= before.row(i) < yy + 1 {
                color_byte(color, i)
            } else {
                before.pixels[i]
            } by {
                lemma_byte_place(w, h, i);
            }
        }
        yy = yy + 1;
    }
    proof {
        let area = Area { x: x as int, y: y as int, width: width as int, height: height as int };
        assert forall|i: int| 0 <= i < image@.pixels.len() implies #[trigger] image@.pixels[i]
            == if area.has(image@.column(i), image@.row(i)) {
            color_byte(color, i)
        } else {
            before.pixels[i]
        } by {
            lemma_byte_place(w, h, i);
        }
    }
}

/// Whether the dot of a glyph lies at a distance from its corner.
pub open spec fn glyph_lit(ch: char, dx: int, dy: int, scale: int) -> bool {
    &&& 0 <= dx < 5 * scale
    &&& 0 <= dy < 7 * scale
    &&& glyph_rows_spec(ch)[dy / scale][dx / scale] == '1'
}

/// Whether a dot of a text lies at a distance from its corner. Letters are drawn in upper case, in
/// cells of six columns.
pub open spec fn text_lit(chars: Seq<char>, dx: int, dy: int, scale: int) -> bool {
    &&& 0 <= dx < 6 * scale * chars.len()
    &&& glyph_lit(ascii_upper(chars[dx / (6 * scale)]), dx % (6 * scale), dy, scale)
}

/// A picture with a text drawn into it.
pub open spec fn text_drawn(
    before: RgbaView,
    chars: Seq<char>,
    x: int,
    y: int,
    scale: int,
    color: [u8; 4],
) -> RgbaView {
    RgbaView {
        width: before.width,
        height: before.height,
        pixels: Seq::new(
            before.pixels.len(),
            |i: int|
                if text_lit(chars, before.column(i) - x, before.row(i) - y, scale) {
                    color_byte(color, i)
                } else {
                    before.pixels[i]
                },
        ),
    }
}

/// A distance lies in the column of dots that starts at `c` whole dots exactly where it has `c`
/// whole dots in it.
proof fn lemma_dot(d: int, c: int, scale: int)
    requires
        scale > 0,
    ensures
        c * scale <= d < c * scale + scale <==> d / scale == c,
{
    vstd::arithmetic::div_mod::lemma_fundamental_div_mod(d, scale);
    vstd::arithmetic::div_mod::lemma_mod_bound(d, scale);
    let q = d / scale;
    let r = d % scale;
    assert(c * scale <= d < c * scale + scale <==> q == c) by (nonlinear_arith)
        requires
            d == scale * q + r,
            0 <= r < scale,
            scale > 0,
    ;
}

/// Draws a glyph, each dot a square of `scale` pixels.
fn draw_glyph(image: &mut RgbaPicture, ch: char, x: u32, y: u32, scale: u32, color: [u8; 4])
    requires
        old(image)@.wf(),
        scale > 0,
        x + 5 * scale <= u32::MAX,
        y + 7 * scale <= u32::MAX,
    ensures
        final(image)@.wf(),
        final(image)@.width == old(image)@.width,
        final(image)@.height == old(image)@.height,
        forall|i: int|
            0 <= i < old(image)@.pixels.len() ==> #[trigger] final(image)@.pixels[i] == if glyph_lit(
                ch,
                old(image)@.column(i) - x,
                old(image)@.row(i) - y,
                scale as int,
            ) {
                color_byte(color, i)
            } else {
                old(image)@.pixels[i]
            },
{
    let glyph = glyph_rows(ch);
    let ghost before = image@;
    let ghost s = scale as int;
    let ghost rows = glyph_rows_spec(ch);
    let mut row: usize = 0;
    while row < 7
        invariant
            row <= 7,
            s == scale,
            scale > 0,
            x + 5 * scale <= u32::MAX,
            y + 7 * scale <= u32::MAX,
            rows == glyph_rows_spec(ch),
            forall|r: int| 0 <= r < 7 ==> (#[trigger] glyph[r])@ == rows[r],
            before.wf(),
            before == old(image)@,
            image@.wf(),
            image@.width == before.width,
            image@.height == before.height,
            forall|i: int|
                0 <= i < before.pixels.len() ==> #[trigger] image@.pixels[i] == if before.row(i) - y
                    < row * s && glyph_lit(ch, before.column(i) - x, before.row(i) - y, s) {
                    color_byte(color, i)
                } else {
                    before.pixels[i]
                },
        decreases 7 - row,
    {
        let pattern = text::chars_of(glyph[row]);
        proof {
            glyphs_have_seven_rows_of_five(ch, row as int);
            assert(glyph[row as int]@ == rows[row as int]);
        }
        let mut col: usize = 0;
        while col < pattern.len()
            invariant
                row < 7,
                col <= 5,
                pattern@.len() == 5,
                s == scale,
                scale > 0,
                x + 5 * scale <= u32::MAX,
                y + 7 * scale <= u32::MAX,
                rows == glyph_rows_spec(ch),
                pattern@ == rows[row as int],
                before.wf(),
                image@.wf(),
                image@.width == before.width,
                image@.height == before.height,
                forall|i: int|
                    0 <= i < before.pixels.len() ==> #[trigger] image@.pixels[i] == if (
                    before.row(i) - y < row * s || (before.row(i) - y < row * s + s
                        && before.column(i) - x < col * s)) && glyph_lit(
                        ch,
                        before.column(i) - x,
                        before.row(i) - y,
                        s,
                    ) {
                        color_byte(color, i)
                    } else {
                        before.pixels[i]
                    },
            decreases pattern.len() - col,
        {
            let ghost now = image@;
            assert(row * s + s <= 7 * s && col * s + s <= 5 * s && row * s >= 0 && col * s >= 0)
                by (nonlinear_arith)
                requires
                    0 <= row < 7,
                    0 <= col < 5,
                    s > 0,
            ;
            if pattern[col] == '1' {
                fill_rect(
                    image,
                    x + col as u32 * scale,
                    y + row as u32 * scale,
                    scale,
                    scale,
                    color,
                );
            }
            proof {
                assert((col + 1) * s == col * s + s) by (nonlinear_arith);
                assert forall|i: int| 0 <= i < before.pixels.len() implies #[trigger] image@.pixels[i]
                    == if (before.row(i) - y < row * s || (before.row(i) - y < row * s + s
                    && before.column(i) - x < (col + 1) * s)) && glyph_lit(
                    ch,
                    before.column(i) - x,
                    before.row(i) - y,
                    s,
                ) {
                    color_byte(color, i)
                } else {
                    before.pixels[i]
                } by {
                    let dx = before.column(i) - x;
                    let dy = before.row(i) - y;
                    lemma_dot(dx, col as int, s);
                    lemma_dot(dy, row as int, s);
                    assert(image@.column(i) == before.column(i) && image@.row(i) == before.row(i));
                    assert(now.pixels[i] == now.pixels[i]);
                }
            }
            col = col + 1;
        }
        proof {
            assert((row + 1) * s == row * s + s) by (nonlinear_arith);
            assert forall|i: int| 0 <= i < before.pixels.len() implies #[trigger] image@.pixels[i]
                == if before.row(i) - y < (row + 1) * s && glyph_lit(
                ch,
                before.column(i) - x,
                before.row(i) - y,
                s,
            ) {
                color_byte(color, i)
            } else {
                before.pixels[i]
            } by {
                assert(glyph_lit(ch, before.column(i) - x, before.row(i) - y, s)
                    ==> before.column(i) - x < 5 * s);
            }
        }
        row = row + 1;
    }
}

/// A cell of a text holds one character.
proof fn lemma_cell(d: int, k: int, cell: int)
    requires
        cell > 0,
        0 <= k,
        k * cell <= d < k * cell + cell,
    ensures
        d / cell == k,
        d % cell == d - k * cell,
{
    vstd::arithmetic::mul::lemma_mul_is_commutative(k, cell);
    vstd::arithmetic::div_mod::lemma_fundamental_div_mod_converse(d, cell, k, d - k * cell);
}

/// Draws a text, as far as it lies in the picture.
pub fn draw_text(
    image: &mut RgbaPicture,
    text: &str,
    x: u32,
    y: u32,
    scale: u32,
    color: [u8; 4],
)
    requires
        old(image)@.wf(),
        scale > 0,
        x + 6 * scale * text@.len() <= u32::MAX,
        y + 7 * scale <= u32::MAX,
    ensures
        final(image)@.wf(),
        final(image)@ == text_drawn(
            old(image)@,
            text@,
            x as int,
            y as int,
            scale as int,
            color,
        ),
{
    let chars = text::chars_of(text);
    let ghost before = image@;
    let ghost s = scale as int;
    let ghost cell = 6 * s;
    let mut cursor: u32 = x;
    let mut k: usize = 0;
    assert(cell * 0 == 0);
    while k < chars.len()
        invariant
            k <= chars@.len(),
            chars@ == text@,
            s == scale,
            scale > 0,
            cell == 6 * s,
            x + cell * chars@.len() <= u32::MAX,
            y + 7 * scale <= u32::MAX,
            cursor == x + cell * k,
            before.wf(),
            before == old(image)@,
            image@.wf(),
            image@.width == before.width,
            image@.height == before.height,
            forall|i: int|
                0 <= i < before.pixels.len() ==> #[trigger] image@.pixels[i] == if before.column(i)
                    - x < cell * k && text_lit(chars@, before.column(i) - x, before.row(i) - y, s) {
                    color_byte(color, i)
                } else {
                    before.pixels[i]
                },
        decreases chars.len() - k,
    {
        proof {
            assert(cell * k + cell <= cell * chars@.len() && cell * (k + 1) == cell * k + cell)
                by (nonlinear_arith)
                requires
                    k + 1 <= chars@.len(),
                    cell > 0,
            ;
            assert(cell * k >= 0) by (nonlinear_arith)
                requires
                    k >= 0,
                    cell > 0,
            ;
        }
        let ghost now = image@;
        let upper: char = to_ascii_upper(chars[k]);
        draw_glyph(image, upper, cursor, y, scale, color);
        proof {
            assert forall|i: int| 0 <= i < before.pixels.len() implies #[trigger] image@.pixels[i]
                == if before.column(i) - x < cell * (k + 1) && text_lit(
                chars@,
                before.column(i) - x,
                before.row(i) - y,
                s,
            ) {
                color_byte(color, i)
            } else {
                before.pixels[i]
            } by {
                let dx = before.column(i) - x;
                let dy = before.row(i) - y;
                assert(now.column(i) == before.column(i) && now.row(i) == before.row(i));
                assert(now.pixels[i] == now.pixels[i]);
                vstd::arithmetic::mul::lemma_mul_is_commutative(cell, k as int);
                if cell * k <= dx < cell * k + cell {
                    lemma_cell(dx, k as int, cell);
                    assert(dx - cell * k == now.column(i) - cursor);
                }
            }
        }
        cursor = cursor + 6 * scale;
        k = k + 1;
    }
    proof {
        let drawn = text_drawn(before, text@, x as int, y as int, s, color);
        assert forall|i: int| 0 <= i < before.pixels.len() implies image@.pixels[i]
            == drawn.pixels[i] by {
            vstd::arithmetic::mul::lemma_mul_is_commutative(cell, chars@.len() as int);
        }
        assert(image@ =~= drawn);
    }
}

/// A filled rectangle has its color from corner to corner, and every other pixel stays as it was.
pub proof fn filled_rectangles_have_their_color(
    before: RgbaView,
    after: RgbaView,
    area: Area,
    color: [u8; 4],
    x: int,
    y: int,
    c: int,
)
    requires
        before.wf(),
        filled(before, after, area, color),
        0 <= x < before.width,
        0 <= y < before.height,
        0 <= c < 4,
    ensures
        ({
            let k = 4 * (y * before.width + x) + c;
            let inside = 0 <= x - area.x < area.width && 0 <= y - area.y < area.height;
            &&& 0 <= k < after.pixels.len()
            &&& inside ==> after.pixels[k] == color[c]
            &&& !inside ==> after.pixels[k] == before.pixels[k]
        }),
{
    lemma_pixel_place(before.width, before.height, x, y, c);
    let k = (y * before.width + x) * 4 + c;
    assert(after.column(k) == x && after.row(k) == y);
}

/// A drawn text has one dot for each dot of its letters' glyphs, `scale` pixels wide and high. The
/// letters follow each other, each in a cell of six columns of dots whose last one stays free, and
/// nothing else of the picture changes.
pub proof fn drawn_texts_have_the_dots_of_their_letters(
    before: RgbaView,
    chars: Seq<char>,
    at: (int, int),
    scale: int,
    color: [u8; 4],
    letter: int,
    dot: (int, int),
    within: (int, int),
    c: int,
)
    requires
        before.wf(),
        0 < scale,
        0 <= letter < chars.len(),
        0 <= dot.0 < 6,
        0 <= dot.1 < 7,
        0 <= within.0 < scale,
        0 <= within.1 < scale,
        0 <= c < 4,
        0 <= at.0 + (6 * letter + dot.0) * scale + within.0 < before.width,
        0 <= at.1 + dot.1 * scale + within.1 < before.height,
    ensures
        ({
            let x = at.0 + (6 * letter + dot.0) * scale + within.0;
            let y = at.1 + dot.1 * scale + within.1;
            let k = 4 * (y * before.width + x) + c;
            let after = text_drawn(before, chars, at.0, at.1, scale, color);
            let ch = chars[letter];
            let upper = if 'a' <= ch && ch <= 'z' {
                (ch as u32 - 32) as char
            } else {
                ch
            };
            let lit = dot.0 < 5 && glyph_rows_spec(upper)[dot.1][dot.0] == '1';
            &&& after.pixels.len() == before.pixels.len() && 0 <= k < after.pixels.len()
            &&& lit ==> after.pixels[k] == color[c]
            &&& !lit ==> after.pixels[k] == before.pixels[k]
        }),
{
    let cell = 6 * scale;
    let part = dot.0 * scale + within.0;
    let dx = (6 * letter + dot.0) * scale + within.0;
    let dy = dot.1 * scale + within.1;
    assert(dx == letter * cell + part && 0 <= part < cell) by (nonlinear_arith)
        requires
            dx == (6 * letter + dot.0) * scale + within.0,
            part == dot.0 * scale + within.0,
            cell == 6 * scale,
            0 <= dot.0 < 6,
            0 <= within.0 < scale,
    ;
    vstd::arithmetic::div_mod::lemma_fundamental_div_mod_converse(dx, cell, letter, part);
    vstd::arithmetic::div_mod::lemma_fundamental_div_mod_converse(part, scale, dot.0, within.0);
    vstd::arithmetic::div_mod::lemma_fundamental_div_mod_converse(dy, scale, dot.1, within.1);
    assert(0 <= dx < cell * chars.len()) by (nonlinear_arith)
        requires
            dx == letter * cell + part,
            0 <= part < cell,
            0 <= letter,
            letter + 1 <= chars.len(),
    ;
    assert(6 * scale * chars.len() == cell * chars.len());
    assert(0 <= dy < 7 * scale) by (nonlinear_arith)
        requires
            dy == dot.1 * scale + within.1,
            0 <= dot.1 < 7,
            0 <= within.1 < scale,
    ;
    assert(part < 5 * scale <==> dot.0 < 5) by (nonlinear_arith)
        requires
            part == dot.0 * scale + within.0,
            0 <= within.0 < scale,
    ;
    let x = at.0 + dx;
    let y = at.1 + dy;
    lemma_pixel_place(before.width, before.height, x, y, c);
    let k = (y * before.width + x) * 4 + c;
    assert(before.column(k) == x && before.row(k) == y);
}

/// A drawn text leaves every pixel alone that is not in the row of its cells.
pub proof fn drawn_texts_stay_in_their_cells(
    before: RgbaView,
    chars: Seq<char>,
    at: (int, int),
    scale: int,
    color: [u8; 4],
    x: int,
    y: int,
    c: int,
)
    requires
        before.wf(),
        0 < scale,
        0 <= x < before.width,
        0 <= y < before.height,
        0 <= c < 4,
        x < at.0 || x >= at.0 + 6 * scale * chars.len() || y < at.1 || y >= at.1 + 7 * scale,
    ensures
        ({
            let k = 4 * (y * before.width + x) + c;
            let after = text_drawn(before, chars, at.0, at.1, scale, color);
            0 <= k < after.pixels.len() && after.pixels[k] == before.pixels[k]
        }),
{
    lemma_pixel_place(before.width, before.height, x, y, c);
    let k = (y * before.width + x) * 4 + c;
    assert(before.column(k) == x && before.row(k) == y);
}

/// How large the dots of labels are beside pictures of a height.
pub open spec fn label_scale(image_height: int) -> int {
    if image_height / 72 < 4 {
        4
    } else if image_height / 72 > 12 {
        12
    } else {
        image_height / 72
    }
}

/// How large the dots of labels are beside pictures of a height.
pub fn label_scale_for(image_height: u32) -> (scale: u32)
    ensures
        scale == label_scale(image_height as int),
{
    let scale: u32 = image_height / 72;
    if scale < 4 {
        4
    } else if scale > 12 {
        12
    } else {
        scale
    }
}

/// The width of a text: six columns for each character, less the one after the last. A text
/// without characters is as wide as one character.
pub open spec fn text_width_of(chars: Seq<char>, scale: int) -> int {
    let count = if chars.len() == 0 {
        1
    } else {
        chars.len() as int
    };
    count * 6 * scale - scale
}

/// The width of a text.
pub fn text_width(text: &str, scale: u32) -> (width: u32)
    requires
        text_width_of(text@, scale as int) + scale <= u32::MAX,
    ensures
        width == text_width_of(text@, scale as int),
{
    let chars: usize = text.unicode_len();
    let count: usize = if chars == 0 {
        1
    } else {
        chars
    };
    if scale == 0 {
        assert(text_width_of(text@, 0) == 0) by (nonlinear_arith);
        return 0;
    }
    proof {
        assert(count * 6 <= count * 6 * scale && scale <= count * 6 * scale) by (nonlinear_arith)
            requires
                scale >= 1,
                count >= 1,
        ;
    }
    count as u32 * 6 * scale - scale
}

/// The height of a text.
pub fn text_height(scale: u32) -> (height: u32)
    requires
        7 * scale <= u32::MAX,
    ensures
        height == 7 * scale,
{
    7 * scale
}

/// Dots are a seventy-second of the height of the pictures, in whole pixels, but no smaller than four
/// and no larger than twelve.
pub proof fn dots_grow_with_the_pictures(height: int)
    requires
        0 <= height,
    ensures
        4 <= label_scale(height) <= 12,
        4 < label_scale(height) ==> 72 * label_scale(height) <= height,
        label_scale(height) < 12 ==> height < 72 * (label_scale(height) + 1),
{
}

/// A text is as wide as its letters with one free column of dots between each two.
pub proof fn texts_are_as_wide_as_their_letters(chars: Seq<char>, scale: int)
    requires
        chars.len() > 0,
        0 < scale,
    ensures
        text_width_of(chars, scale) == scale * (5 * chars.len() + (chars.len() - 1)),
        text_width_of(chars.take(0), scale) == 5 * scale,
{
    let n = chars.len() as int;
    assert(n * 6 * scale - scale == scale * (5 * n + (n - 1))) by (nonlinear_arith);
    assert(1 * 6 * scale - scale == 5 * scale) by (nonlinear_arith);
}

/// A length as a `binary32` value.
pub open spec fn single(length: int) -> int {
    binary::binary_round(length, 1, binary::SINGLE_HALF as int)
}

/// The `binary32` quotient by which one edge is fitted into its box.
pub open spec fn edge_scale(length: int, most: int) -> (int, int) {
    binary::binary_quotient(most, single(length), 1, binary::SINGLE_HALF as int)
}

/// The smaller of two quotients.
pub open spec fn lesser(left: (int, int), right: (int, int)) -> (int, int) {
    if right.0 * left.1 < left.0 * right.1 {
        right
    } else {
        left
    }
}

/// The scale at which a picture fits into a box, at most 1.
pub open spec fn thumbnail_scale(size: (int, int), most: (int, int)) -> (int, int) {
    let scale = lesser(edge_scale(size.0, most.0), edge_scale(size.1, most.1));
    if scale.0 >= scale.1 {
        (1, 1)
    } else {
        scale
    }
}

/// A length scaled in `binary32` and rounded to the nearest integer, at least 1.
pub open spec fn thumbnail_edge(length: int, scale: (int, int)) -> int {
    let scaled = binary::round_half_up(
        binary::binary_round(single(length) * scale.0, 1, binary::SINGLE_HALF as int),
        scale.1,
    );
    if scaled < 1 {
        1
    } else {
        scaled
    }
}

/// A length that counts as at least 1.
pub open spec fn at_least_one(length: int) -> int {
    if length < 1 {
        1
    } else {
        length
    }
}

/// The size of a picture's thumbnail.
pub open spec fn thumbnail_size_of(size: (int, int), most: (int, int)) -> (int, int) {
    let size = (at_least_one(size.0), at_least_one(size.1));
    let scale = thumbnail_scale(size, most);
    (thumbnail_edge(size.0, scale), thumbnail_edge(size.1, scale))
}

/// A length of at least 1 is at least 1 as a `binary32` value, and at most a little longer.
proof fn lemma_single(length: int)
    requires
        1 <= length <= u32::MAX,
    ensures
        1 <= single(length) <= 0x1_0000_00ff,
{
    let half = binary::SINGLE_HALF as int;
    binary::lemma_binary_round(length, 1, half);
    let r = single(length);
    assert(r >= 1 && r <= 0x1_0000_00ff) by (nonlinear_arith)
        requires
            -length <= 2 * (half * (r - length)) <= length,
            1 <= length <= 0xffff_ffff,
            half == 0x80_0000,
    ;
}

/// An edge scaled by its own quotient, or by a smaller one, fits its box.
proof fn lemma_edge_fits(length: int, most: int, scale: (int, int))
    requires
        1 <= length <= u32::MAX,
        1 <= most,
        4 * most <= binary::SINGLE_HALF,
        0 <= scale.0,
        0 < scale.1,
        scale.0 * edge_scale(length, most).1 <= edge_scale(length, most).0 * scale.1,
    ensures
        0 <= binary::round_half_up(
            binary::binary_round(single(length) * scale.0, 1, binary::SINGLE_HALF as int),
            scale.1,
        ) <= most,
{
    let half = binary::SINGLE_HALF as int;
    let v = single(length);
    lemma_single(length);
    assert(0 < most < 2 * (v * half)) by (nonlinear_arith)
        requires
            v >= 1,
            1 <= most,
            4 * most <= half,
    ;
    binary::lemma_binary_quotient(most, v, 1, half);
    let (m, u) = edge_scale(length, most);
    let x = most * u;
    assert(v * half <= x && m == binary::nearest_even(x, v));
    binary::lemma_nearest_even_bounds(x, v);
    assert(2 * half * (v * m) <= x * (2 * half + 1)) by (nonlinear_arith)
        requires
            2 * v * m <= 2 * x + v,
            v * half <= x,
            half > 0,
    ;
    let p = v * scale.0;
    assert(p >= 0) by (nonlinear_arith)
        requires
            p == v * scale.0,
            v >= 1,
            scale.0 >= 0,
    ;
    binary::lemma_binary_round(p, 1, half);
    let r = binary::binary_round(p, 1, half);
    assert(p * u <= (v * m) * scale.1) by (nonlinear_arith)
        requires
            p == v * scale.0,
            scale.0 * u <= m * scale.1,
            v >= 1,
    ;
    assert(2 * half * p <= most * (2 * half + 1) * scale.1) by (nonlinear_arith)
        requires
            p * u <= (v * m) * scale.1,
            2 * half * (v * m) <= x * (2 * half + 1),
            x == most * u,
            u > 0,
            scale.1 > 0,
            half > 0,
    ;
    assert(2 * half * r <= p * (2 * half + 1)) by (nonlinear_arith)
        requires
            2 * (half * (r - p)) <= p,
    ;
    assert(4 * half * half * r <= most * (2 * half + 1) * (2 * half + 1) * scale.1)
        by (nonlinear_arith)
        requires
            2 * half * r <= p * (2 * half + 1),
            2 * half * p <= most * (2 * half + 1) * scale.1,
            half > 0,
    ;
    assert(2 * r < scale.1 * (2 * most + 1)) by (nonlinear_arith)
        requires
            4 * half * half * r <= most * (2 * half + 1) * (2 * half + 1) * scale.1,
            4 * most <= half,
            half == 0x80_0000,
            most >= 1,
            scale.1 > 0,
    ;
    assert(0 <= (2 * r + scale.1) / (2 * scale.1) <= most) by (nonlinear_arith)
        requires
            2 * r < scale.1 * (2 * most + 1),
            r >= 0,
            scale.1 > 0,
    ;
}

/// An edge whose quotient is 1 or more fits its box as it is.
proof fn lemma_short_edge(length: int, most: int)
    requires
        1 <= length <= u32::MAX,
        1 <= most,
        4 * most <= binary::SINGLE_HALF,
        edge_scale(length, most).0 >= edge_scale(length, most).1,
    ensures
        single(length) == length,
        length <= most,
        thumbnail_edge(length, (1, 1)) == length,
{
    let half = binary::SINGLE_HALF as int;
    let v = single(length);
    lemma_single(length);
    assert(0 < most < 2 * (v * half)) by (nonlinear_arith)
        requires
            v >= 1,
            1 <= most,
            4 * most <= half,
    ;
    binary::lemma_binary_quotient(most, v, 1, half);
    let (m, u) = edge_scale(length, most);
    let x = most * u;
    binary::lemma_nearest_even_bounds(x, v);
    assert(v <= most) by (nonlinear_arith)
        requires
            m >= u,
            2 * v * m <= 2 * x + v,
            x == most * u,
            v * half <= x,
            4 * most <= half,
            most >= 1,
            v >= 1,
            u > 0,
    ;
    binary::lemma_binary_round(length, 1, half);
    assert(length < 2 * half) by (nonlinear_arith)
        requires
            -length <= 2 * (half * (v - length)),
            v <= most,
            4 * most <= half,
            half == 0x80_0000,
    ;
    assert(binary::nearest_even(length, 1) == length);
    assert(single(length) * 1 == length);
    assert(binary::binary_round(length, 1, half) == length);
    assert(binary::round_half_up(length, 1) == length) by (nonlinear_arith);
}

/// An edge that fits its box has a quotient of 1 or more.
proof fn lemma_fitting_edge(length: int, most: int)
    requires
        1 <= length <= most,
        4 * most <= binary::SINGLE_HALF,
    ensures
        edge_scale(length, most).0 >= edge_scale(length, most).1,
{
    let half = binary::SINGLE_HALF as int;
    assert(binary::nearest_even(length, 1) == length);
    assert(single(length) == length);
    assert(0 < most < 2 * (length * half)) by (nonlinear_arith)
        requires
            length >= 1,
            1 <= most,
            4 * most <= half,
    ;
    binary::lemma_binary_quotient(most, length, 1, half);
    let (m, u) = edge_scale(length, most);
    assert((most * u) / length >= u) by (nonlinear_arith)
        requires
            1 <= length <= most,
            u > 0,
    ;
}

/// A thumbnail has at least one pixel, and no edge longer than its box; a picture that fits the
/// box keeps its size, and none is enlarged.
pub proof fn thumbnails_fit_their_box(size: (int, int), most: (int, int))
    requires
        0 <= size.0 <= u32::MAX,
        0 <= size.1 <= u32::MAX,
        1 <= most.0,
        1 <= most.1,
        4 * most.0 <= binary::SINGLE_HALF,
        4 * most.1 <= binary::SINGLE_HALF,
    ensures
        1 <= thumbnail_size_of(size, most).0 <= most.0,
        1 <= thumbnail_size_of(size, most).1 <= most.1,
        1 <= size.0 <= most.0 && 1 <= size.1 <= most.1 ==> thumbnail_size_of(size, most) == size,
        thumbnail_size_of(size, most).0 <= at_least_one(size.0),
        thumbnail_size_of(size, most).1 <= at_least_one(size.1),
{
    let w = at_least_one(size.0);
    let h = at_least_one(size.1);
    let half = binary::SINGLE_HALF as int;
    lemma_single(w);
    lemma_single(h);
    lemma_positive_quotient(w, most.0);
    lemma_positive_quotient(h, most.1);
    let a = edge_scale(w, most.0);
    let b = edge_scale(h, most.1);
    let least = lesser(a, b);
    if 1 <= size.0 <= most.0 && 1 <= size.1 <= most.1 {
        lemma_fitting_edge(size.0, most.0);
        lemma_fitting_edge(size.1, most.1);
    }
    if least.0 >= least.1 {
        lemma_both_large(a, b);
        lemma_short_edge(w, most.0);
        lemma_short_edge(h, most.1);
    } else {
        lemma_lesser(a, b);
        lemma_edge_fits(w, most.0, least);
        lemma_edge_fits(h, most.1, least);
        lemma_edge_stays(w, most.0, least);
        lemma_edge_stays(h, most.1, least);
    }
}

proof fn lemma_thumbnail_edge(length: int, most: int, scale: (int, int))
    requires
        1 <= length <= 0x40_0000,
        1 <= most,
        4 * most <= binary::SINGLE_HALF,
        scale.0 >= 0,
        scale.1 > 0,
        length * scale.0 <= (most + 1) * scale.1,
    ensures
        -scale.1 <= thumbnail_edge(length, scale) * scale.1 - length * scale.0 <= scale.1,
{
    let half = binary::SINGLE_HALF as int;
    let (m, u) = scale;
    assert(binary::nearest_even(length, 1) == length);
    assert(binary::binary_round(length, 1, half) == length);
    assert(single(length) == length);
    let p = length * m;
    assert(p >= 0) by (nonlinear_arith)
        requires
            p == length * m,
            length >= 1,
            m >= 0,
    ;
    binary::lemma_binary_round(p, 1, half);
    let r = binary::binary_round(p, 1, half);
    let s = (2 * r + u) / (2 * u);
    vstd::arithmetic::div_mod::lemma_fundamental_div_mod(2 * r + u, 2 * u);
    assert(-u <= 2 * (u * s) - 2 * r <= u) by (nonlinear_arith)
        requires
            2 * r + u == (2 * u) * s + (2 * r + u) % (2 * u),
            0 <= (2 * r + u) % (2 * u) < 2 * u,
    ;
    assert(-u <= 4 * (r - p) <= u) by (nonlinear_arith)
        requires
            -p <= 2 * (half * (r - p)) <= p,
            p <= (most + 1) * u,
            4 * most <= half,
            half == 0x80_0000,
            u > 0,
    ;
    assert(s * u == u * s) by (nonlinear_arith);
    if s < 1 {
        assert(s >= 0) by (nonlinear_arith)
            requires
                -u <= 2 * (u * s) - 2 * r,
                r >= 0,
                u > 0,
        ;
        assert(u * s == 0) by (nonlinear_arith)
            requires
                s == 0,
        ;
    }
}

/// A thumbnail keeps its picture's shape: its two edges are in the picture's proportion, up to one
/// pixel on either edge.
pub proof fn thumbnails_keep_the_shape(size: (int, int), most: (int, int))
    requires
        1 <= size.0 <= 0x40_0000,
        1 <= size.1 <= 0x40_0000,
        1 <= most.0,
        1 <= most.1,
        4 * most.0 <= binary::SINGLE_HALF,
        4 * most.1 <= binary::SINGLE_HALF,
    ensures
        ({
            let thumb = thumbnail_size_of(size, most);
            -(size.0 + size.1) <= thumb.0 * size.1 - thumb.1 * size.0 <= size.0 + size.1
        }),
{
    let (w, h) = size;
    thumbnails_fit_their_box(size, most);
    let a = edge_scale(w, most.0);
    let b = edge_scale(h, most.1);
    lemma_positive_quotient(w, most.0);
    lemma_positive_quotient(h, most.1);
    let scale = thumbnail_scale(size, most);
    let least = lesser(a, b);
    if least.0 >= least.1 {
        lemma_both_large(a, b);
        lemma_short_edge(w, most.0);
        lemma_short_edge(h, most.1);
        assert(w * h == h * w) by (nonlinear_arith);
    } else {
        lemma_lesser(a, b);
        lemma_scaled_within(w, most.0, least);
        lemma_scaled_within(h, most.1, least);
        lemma_thumbnail_edge(w, most.0, least);
        lemma_thumbnail_edge(h, most.1, least);
        let (m, u) = least;
        let (tw, th) = thumbnail_size_of(size, most);
        let e = tw * u - w * m;
        let f = th * u - h * m;
        assert(u * (tw * h - th * w) == e * h - f * w) by (nonlinear_arith)
            requires
                e == tw * u - w * m,
                f == th * u - h * m,
        ;
        assert(-(u * h) <= e * h <= u * h) by (nonlinear_arith)
            requires
                -u <= e <= u,
                h >= 1,
        ;
        assert(-(u * w) <= f * w <= u * w) by (nonlinear_arith)
            requires
                -u <= f <= u,
                w >= 1,
        ;
        let d = tw * h - th * w;
        assert(-(w + h) <= d <= w + h) by (nonlinear_arith)
            requires
                -(u * h) - (u * w) <= u * d <= u * h + u * w,
                u > 0,
        ;
    }
}

proof fn lemma_scaled_within(length: int, most: int, scale: (int, int))
    requires
        1 <= length <= 0x40_0000,
        1 <= most,
        4 * most <= binary::SINGLE_HALF,
        scale.0 >= 0,
        scale.1 > 0,
        scale.0 * edge_scale(length, most).1 <= edge_scale(length, most).0 * scale.1,
    ensures
        length * scale.0 <= (most + 1) * scale.1,
{
    let half = binary::SINGLE_HALF as int;
    assert(binary::nearest_even(length, 1) == length);
    assert(binary::binary_round(length, 1, half) == length);
    assert(single(length) == length);
    assert(0 < most < 2 * (length * half)) by (nonlinear_arith)
        requires
            length >= 1,
            1 <= most,
            4 * most <= half,
    ;
    binary::lemma_binary_quotient(most, length, 1, half);
    let (m, u) = edge_scale(length, most);
    let x = most * u;
    binary::lemma_nearest_even_bounds(x, length);
    // `length * m` is at most `most * u` and half a `length`, which is less than `u`.
    assert(length <= u) by (nonlinear_arith)
        requires
            length * half <= most * u,
            4 * most <= half,
            length >= 1,
            most >= 1,
            u > 0,
    ;
    let lm = length * m;
    assert(2 * lm == 2 * length * m) by (nonlinear_arith)
        requires
            lm == length * m,
    ;
    assert((most + 1) * u == x + u) by (nonlinear_arith)
        requires
            x == most * u,
    ;
    assert(lm <= (most + 1) * u);
    assert((length * scale.0) * u <= ((most + 1) * scale.1) * u) by (nonlinear_arith)
        requires
            scale.0 * u <= m * scale.1,
            length * m <= (most + 1) * u,
            length >= 1,
            scale.1 > 0,
    {
        assert((length * scale.0) * u == length * (scale.0 * u));
        assert(length * (scale.0 * u) <= length * (m * scale.1));
        assert(length * (m * scale.1) == (length * m) * scale.1);
        assert((length * m) * scale.1 <= ((most + 1) * u) * scale.1);
    }
    assert(length * scale.0 <= (most + 1) * scale.1) by (nonlinear_arith)
        requires
            (length * scale.0) * u <= ((most + 1) * scale.1) * u,
            u > 0,
    ;
}

/// An edge that fits its box, scaled by less than 1, gets no longer.
proof fn lemma_edge_stays(length: int, most: int, scale: (int, int))
    requires
        1 <= length <= u32::MAX,
        1 <= most,
        4 * most <= binary::SINGLE_HALF,
        0 <= scale.0 < scale.1,
    ensures
        length <= most ==> binary::round_half_up(
            binary::binary_round(single(length) * scale.0, 1, binary::SINGLE_HALF as int),
            scale.1,
        ) <= length,
{
    if length <= most {
        lemma_fitting_edge(length, length);
        lemma_positive_quotient(length, length);
        let own = edge_scale(length, length);
        assert(scale.0 * own.1 <= own.0 * scale.1) by (nonlinear_arith)
            requires
                own.0 >= own.1,
                own.1 > 0,
                0 <= scale.0 < scale.1,
        ;
        lemma_edge_fits(length, length, scale);
    }
}

proof fn lemma_positive_quotient(length: int, most: int)
    requires
        1 <= length <= u32::MAX,
        1 <= most,
        4 * most <= binary::SINGLE_HALF,
    ensures
        edge_scale(length, most).0 >= 0,
        edge_scale(length, most).1 > 0,
{
    let half = binary::SINGLE_HALF as int;
    let v = single(length);
    lemma_single(length);
    assert(0 < most < 2 * (v * half)) by (nonlinear_arith)
        requires
            v >= 1,
            1 <= most,
            4 * most <= half,
    ;
    binary::lemma_binary_quotient(most, v, 1, half);
    let (m, u) = edge_scale(length, most);
    assert(most * u >= 0) by (nonlinear_arith)
        requires
            most >= 1,
            u >= 1,
    ;
    binary::lemma_nearest_even_bounds(most * u, v);
}

/// The smaller of two quotients is no larger than either.
proof fn lemma_lesser(a: (int, int), b: (int, int))
    requires
        a.1 > 0,
        b.1 > 0,
        a.0 >= 0,
        b.0 >= 0,
    ensures
        lesser(a, b).0 * a.1 <= a.0 * lesser(a, b).1,
        lesser(a, b).0 * b.1 <= b.0 * lesser(a, b).1,
{
}

/// Where the smaller of two quotients is 1 or more, so is the other.
proof fn lemma_both_large(a: (int, int), b: (int, int))
    requires
        a.1 > 0,
        b.1 > 0,
        a.0 >= 0,
        b.0 >= 0,
        lesser(a, b).0 >= lesser(a, b).1,
    ensures
        a.0 >= a.1,
        b.0 >= b.1,
{
    lemma_lesser(a, b);
    let c = lesser(a, b);
    assert(a.0 >= a.1) by (nonlinear_arith)
        requires
            c.0 * a.1 <= a.0 * c.1,
            c.0 >= c.1,
            c.1 > 0,
            a.1 > 0,
    ;
    assert(b.0 >= b.1) by (nonlinear_arith)
        requires
            c.0 * b.1 <= b.0 * c.1,
            c.0 >= c.1,
            c.1 > 0,
            b.1 > 0,
    ;
}

/// The `binary32` quotient by which one edge is fitted into its box.
fn scale_of_edge(length: u32, most: u32) -> (scale: (u128, u128))
    requires
        1 <= length,
        1 <= most,
        4 * most <= binary::SINGLE_HALF,
    ensures
        (scale.0 as int, scale.1 as int) == edge_scale(length as int, most as int),
        scale.0 <= 0x100_0000,
        0 < scale.1 <= 0x200_0000_0000_0000,
{
    proof {
        lemma_single(length as int);
    }
    let d: u128 = binary::round_to_binary(length as u128, binary::SINGLE_HALF);
    let scale = binary::divide_to_binary(most, d as u64, binary::SINGLE_HALF);
    proof {
        assert(scale.1 <= 0x200_0000_0000_0000) by (nonlinear_arith)
            requires
                most * scale.1 <= 2 * (d * 0x80_0000),
                d <= 0x1_0000_00ff,
                most >= 1,
        ;
    }
    scale
}

/// A length scaled in `binary32`.
fn scaled_edge(length: u32, most: u32, scale: (u128, u128)) -> (edge: u32)
    requires
        1 <= length,
        scale.0 <= 0x100_0000,
        0 < scale.1 <= 0x200_0000_0000_0000,
        1 <= thumbnail_edge(length as int, (scale.0 as int, scale.1 as int)) <= most,
    ensures
        edge == thumbnail_edge(length as int, (scale.0 as int, scale.1 as int)),
{
    proof {
        lemma_single(length as int);
    }
    let v: u128 = binary::round_to_binary(length as u128, binary::SINGLE_HALF);
    proof {
        assert(0 <= v * scale.0 <= 0x200_0000_0000_0000) by (nonlinear_arith)
            requires
                v <= 0x1_0000_00ff,
                scale.0 <= 0x100_0000,
        ;
    }
    let product: u128 = v * scale.0;
    let rounded: u128 = binary::round_to_binary(product, binary::SINGLE_HALF);
    proof {
        let half = binary::SINGLE_HALF as int;
        binary::lemma_binary_round(product as int, 1, half);
        assert(rounded <= 2 * product) by (nonlinear_arith)
            requires
                2 * (half * (rounded - product)) <= product,
                half == 0x80_0000,
                product >= 0,
        ;
    }
    let scaled: u128 = (2 * rounded + scale.1) / (2 * scale.1);
    if scaled < 1 {
        1
    } else {
        scaled as u32
    }
}

/// The size of a picture's thumbnail.
pub fn thumbnail_size(width: u32, height: u32, max_width: u32, max_height: u32) -> (size: (u32, u32))
    requires
        1 <= max_width,
        1 <= max_height,
        4 * max_width <= binary::SINGLE_HALF,
        4 * max_height <= binary::SINGLE_HALF,
    ensures
        (size.0 as int, size.1 as int) == thumbnail_size_of(
            (width as int, height as int),
            (max_width as int, max_height as int),
        ),
        1 <= size.0 <= max_width,
        1 <= size.1 <= max_height,
        size.0 <= width || size.0 == 1,
        size.1 <= height || size.1 == 1,
{
    proof {
        thumbnails_fit_their_box(
            (width as int, height as int),
            (max_width as int, max_height as int),
        );
    }
    let width: u32 = larger(width, 1);
    let height: u32 = larger(height, 1);
    let across = scale_of_edge(width, max_width);
    let down = scale_of_edge(height, max_height);
    proof {
        assert(0 <= down.0 * across.1 <= 0x2_0000_0000_0000_0000_0000 && 0 <= across.0 * down.1
            <= 0x2_0000_0000_0000_0000_0000) by (nonlinear_arith)
            requires
                0 <= down.0 <= 0x100_0000,
                0 <= across.0 <= 0x100_0000,
                0 < across.1 <= 0x200_0000_0000_0000,
                0 < down.1 <= 0x200_0000_0000_0000,
        ;
    }
    let least = if down.0 * across.1 < across.0 * down.1 {
        down
    } else {
        across
    };
    let scale: (u128, u128) = if least.0 >= least.1 {
        (1, 1)
    } else {
        least
    };
    (scaled_edge(width, max_width, scale), scaled_edge(height, max_height, scale))
}

/// A picture's thumbnail.
pub open spec fn thumbnail_of(image: RgbaView, most: (int, int)) -> RgbaView {
    let size = thumbnail_size_of((image.width, image.height), most);
    RgbaView {
        width: size.0,
        height: size.1,
        pixels: resize::image_resized(
            PixelLayout::Rgba,
            image.pixels,
            (image.width as u32, image.height as u32),
            (size.0 as u32, size.1 as u32),
            ImageFilter::Triangle,
        ),
    }
}

/// A picture's thumbnail, which fits into a box.
pub fn thumbnail_rgba(image: &RgbaPicture, max_width: u32, max_height: u32) -> (thumb: RgbaPicture)
    requires
        image@.wf(),
        resize::edges_fit((image.width, image.height)),
        1 <= max_width,
        1 <= max_height,
        4 * max_width <= binary::SINGLE_HALF,
        4 * max_height <= binary::SINGLE_HALF,
        max_width * max_height * 4 <= usize::MAX,
    ensures
        thumb@ == thumbnail_of(image@, (max_width as int, max_height as int)),
        thumb@.wf(),
        thumb.width <= max_width,
        thumb.height <= max_height,
{
    let (width, height) = thumbnail_size(image.width, image.height, max_width, max_height);
    assert(image.pixels.len() == image.pixels@.len());
    assert(width * height * 4 <= max_width * max_height * 4) by (nonlinear_arith)
        requires
            width <= max_width,
            height <= max_height,
    ;
    assert(image.height > 0 ==> image.width * height * 4 <= image.width * image.height * 4)
        by (nonlinear_arith)
        requires
            height <= image.height || height == 1,
    ;
    let samples = vstd::slice::slice_to_vec(image.pixels.as_slice());
    let pixels = match resize::resize_samples(
        PixelLayout::Rgba,
        samples,
        (image.width, image.height),
        (width, height),
        ImageFilter::Triangle,
    ) {
        Some(pixels) => pixels,
        None => Vec::new(),
    };
    RgbaPicture { width, height, pixels }
}

/// The pixels that `image::imageops::overlay` makes of a picture with another laid over it.
pub uninterp spec fn overlaid(
    bottom: Seq<u8>,
    bottom_size: (u32, u32),
    top: Seq<u8>,
    top_size: (u32, u32),
    x: i64,
    y: i64,
) -> Seq<u8>;

/// `image::imageops::overlay` on RGBA pictures, the one laid over the other at a place. The bytes
/// stay as many as they were.
#[verifier::external_body]
fn overlay_pixels(
    bottom: Vec<u8>,
    bottom_size: (u32, u32),
    top: Vec<u8>,
    top_size: (u32, u32),
    x: i64,
    y: i64,
) -> (pixels: Vec<u8>)
    requires
        bottom@.len() == bottom_size.0 * bottom_size.1 * 4,
        top@.len() == top_size.0 * top_size.1 * 4,
    ensures
        pixels@ == overlaid(bottom@, bottom_size, top@, top_size, x, y),
        pixels@.len() == bottom@.len(),
{
    let mut sheet = image::RgbaImage::from_raw(bottom_size.0, bottom_size.1, bottom).unwrap_or_default();
    let picture = image::RgbaImage::from_raw(top_size.0, top_size.1, top).unwrap_or_default();
    image::imageops::overlay(&mut sheet, &picture, x, y);
    sheet.into_raw()
}

/// Lays a picture over another at a place.
pub open spec fn laid_over(bottom: RgbaView, top: RgbaView, x: int, y: int) -> RgbaView {
    RgbaView {
        width: bottom.width,
        height: bottom.height,
        pixels: overlaid(
            bottom.pixels,
            (bottom.width as u32, bottom.height as u32),
            top.pixels,
            (top.width as u32, top.height as u32),
            x as i64,
            y as i64,
        ),
    }
}

/// A picture is laid over another with its left edge at the column and its top edge at the row, and
/// what is below keeps its size.
pub proof fn pictures_are_laid_at_their_place(bottom: RgbaView, top: RgbaView, x: u32, y: u32)
    requires
        0 <= bottom.width <= u32::MAX && 0 <= bottom.height <= u32::MAX,
        0 <= top.width <= u32::MAX && 0 <= top.height <= u32::MAX,
    ensures
        ({
            let after = laid_over(bottom, top, x as int, y as int);
            &&& after.width == bottom.width && after.height == bottom.height
            &&& forall|width: u32, height: u32, wide: u32, high: u32|
                width == bottom.width && height == bottom.height && wide == top.width && high
                    == top.height ==> after.pixels == #[trigger] overlaid(
                    bottom.pixels,
                    (width, height),
                    top.pixels,
                    (wide, high),
                    x as i64,
                    y as i64,
                )
        }),
{
}

/// Lays a picture over another at a place.
pub fn overlay(bottom: &mut RgbaPicture, top: &RgbaPicture, x: u32, y: u32)
    requires
        old(bottom)@.wf(),
        top@.wf(),
    ensures
        final(bottom)@ == laid_over(old(bottom)@, top@, x as int, y as int),
        final(bottom)@.wf(),
{
    let mut below: Vec<u8> = Vec::new();
    std::mem::swap(&mut below, &mut bottom.pixels);
    let above = vstd::slice::slice_to_vec(top.pixels.as_slice());
    bottom.pixels = overlay_pixels(
        below,
        (bottom.width, bottom.height),
        above,
        (top.width, top.height),
        x as i64,
        y as i64,
    );
}

/// The labels and pictures of a contact sheet.
pub open spec fn entries(items: Seq<(String, RgbaPicture)>) -> Seq<(Seq<char>, RgbaView)> {
    items.map_values(|item: (String, RgbaPicture)| (item.0@, item.1@))
}

/// The larger of two numbers.
pub open spec fn greater(left: int, right: int) -> int {
    if left < right {
        right
    } else {
        left
    }
}

/// The width of the widest picture; 1 where there is none.
pub open spec fn widest(items: Seq<(Seq<char>, RgbaView)>) -> int
    decreases items.len(),
{
    if items.len() == 0 {
        1
    } else if items.len() == 1 {
        items[0].1.width
    } else {
        greater(widest(items.drop_last()), items.last().1.width)
    }
}

/// The height of the highest picture; 1 where there is none.
pub open spec fn highest(items: Seq<(Seq<char>, RgbaView)>) -> int
    decreases items.len(),
{
    if items.len() == 0 {
        1
    } else if items.len() == 1 {
        items[0].1.height
    } else {
        greater(highest(items.drop_last()), items.last().1.height)
    }
}

/// The width of the longest label; 1 where there is none.
pub open spec fn longest(items: Seq<(Seq<char>, RgbaView)>, scale: int) -> int
    decreases items.len(),
{
    if items.len() == 0 {
        1
    } else if items.len() == 1 {
        text_width_of(items[0].0, scale)
    } else {
        greater(longest(items.drop_last(), scale), text_width_of(items.last().0, scale))
    }
}

/// The height of an entry of a contact sheet, with the space below it.
pub open spec fn entry_height(items: Seq<(Seq<char>, RgbaView)>) -> int {
    greater(highest(items), 7 * label_scale(highest(items))) + GUTTER
}

/// The width and the height of a contact sheet.
pub open spec fn sheet_size(items: Seq<(Seq<char>, RgbaView)>) -> (int, int) {
    let scale = label_scale(highest(items));
    (
        GUTTER * 3 + widest(items) + longest(items, scale),
        GUTTER + entry_height(items) * greater(items.len() as int, 1),
    )
}

/// A contact sheet's background, and the colour of its labels.
pub open spec fn blank_sheet(size: (int, int)) -> RgbaView {
    RgbaView {
        width: size.0,
        height: size.1,
        pixels: Seq::new(
            (size.0 * size.1 * 4) as nat,
            |i: int|
                if i % 4 == 3 {
                    255u8
                } else {
                    32u8
                },
        ),
    }
}

/// A contact sheet with its first `count` entries: each has its picture at the left and its label
/// beside the widest picture, both centred in the height of the entry.
pub open spec fn sheet_after(items: Seq<(Seq<char>, RgbaView)>, count: int) -> RgbaView
    decreases count,
{
    if count <= 0 {
        blank_sheet(sheet_size(items))
    } else {
        let scale = label_scale(highest(items));
        let (label, picture) = items[count - 1];
        let top = GUTTER + entry_height(items) * (count - 1);
        let room = entry_height(items) - GUTTER;
        text_drawn(
            laid_over(
                sheet_after(items, count - 1),
                picture,
                GUTTER as int,
                top + (room - picture.height) / 2,
            ),
            label,
            GUTTER * 2 + widest(items),
            top + (room - 7 * scale) / 2,
            scale,
            [242, 242, 242, 255],
        )
    }
}

/// Whether a contact sheet of these entries can be addressed.
pub open spec fn sheet_fits(items: Seq<(Seq<char>, RgbaView)>) -> bool {
    let size = sheet_size(items);
    &&& forall|i: int| 0 <= i < items.len() ==> (#[trigger] items[i]).1.wf()
    &&& forall|i: int|
        0 <= i < items.len() ==> text_width_of((#[trigger] items[i]).0, 12) + 12 <= u32::MAX
    &&& size.0 <= u32::MAX
    &&& size.1 <= u32::MAX
    &&& size.0 * size.1 * 4 <= usize::MAX
}

proof fn lemma_extremes(items: Seq<(Seq<char>, RgbaView)>, scale: int, i: int)
    requires
        0 <= i < items.len(),
    ensures
        items[i].1.width <= widest(items),
        items[i].1.height <= highest(items),
        text_width_of(items[i].0, scale) <= longest(items, scale),
    decreases items.len(),
{
    if items.len() > 1 && i < items.len() - 1 {
        lemma_extremes(items.drop_last(), scale, i);
        assert(items.drop_last()[i] == items[i]);
    }
}

/// The widest picture, the highest one and the longest label are as wide, high and long as one of the
/// entries, and no entry is beyond them.
pub proof fn extremes_are_those_of_an_entry(
    items: Seq<(Seq<char>, RgbaView)>,
    scale: int,
    i: int,
) -> (of: (int, int, int))
    requires
        0 <= i < items.len(),
    ensures
        items[i].1.width <= widest(items),
        items[i].1.height <= highest(items),
        text_width_of(items[i].0, scale) <= longest(items, scale),
        0 <= of.0 < items.len() && widest(items) == items[of.0].1.width,
        0 <= of.1 < items.len() && highest(items) == items[of.1].1.height,
        0 <= of.2 < items.len() && longest(items, scale) == text_width_of(items[of.2].0, scale),
    decreases items.len(),
{
    lemma_extremes(items, scale, i);
    let last = items.len() - 1;
    if items.len() == 1 {
        (0, 0, 0)
    } else {
        let before = items.drop_last();
        let of = extremes_are_those_of_an_entry(before, scale, 0);
        assert(before[of.0] == items[of.0] && before[of.1] == items[of.1] && before[of.2]
            == items[of.2]);
        (
            if widest(before) < items[last].1.width {
                last
            } else {
                of.0
            },
            if highest(before) < items[last].1.height {
                last
            } else {
                of.1
            },
            if longest(before, scale) < text_width_of(items[last].0, scale) {
                last
            } else {
                of.2
            },
        )
    }
}

/// The entries of a contact sheet stand below each other, with a gutter around each: its picture at
/// the left and its label to the right of the widest picture, both in the middle of the entry's
/// height. Nothing of an entry lies outside the sheet or in another entry. An empty sheet is dark gray
/// and opaque.
pub proof fn entries_stand_below_each_other(
    items: Seq<(Seq<char>, RgbaView)>,
    i: int,
    picture_top: int,
    label_top: int,
    k: int,
)
    requires
        0 <= i < items.len(),
        0 <= highest(items),
        ({
            let top = 16 + entry_height(items) * i;
            let bottom = top + entry_height(items) - 16;
            let scale = label_scale(highest(items));
            &&& 0 <= (bottom - (picture_top + items[i].1.height)) - (picture_top - top) <= 1
            &&& 0 <= (bottom - (label_top + 7 * scale)) - (label_top - top) <= 1
        }),
    ensures
        ({
            let scale = label_scale(highest(items));
            let top = 16 + entry_height(items) * i;
            let (width, height) = sheet_size(items);
            &&& sheet_after(items, i + 1) == text_drawn(
                laid_over(sheet_after(items, i), items[i].1, 16, picture_top),
                items[i].0,
                32 + widest(items),
                label_top,
                scale,
                [242, 242, 242, 255],
            )
            &&& top <= picture_top && picture_top + items[i].1.height + 16 <= top + entry_height(
                items,
            )
            &&& top <= label_top && label_top + 7 * scale + 16 <= top + entry_height(items)
            &&& 16 + items[i].1.width + 16 <= 32 + widest(items)
            &&& 32 + widest(items) + text_width_of(items[i].0, scale) + 16 <= width
            &&& top + entry_height(items) <= height
        }),
        0 <= k < sheet_after(items, 0).pixels.len() ==> sheet_after(items, 0).pixels[k] == if k % 4
            == 3 {
            255u8
        } else {
            32u8
        },
{
    let scale = label_scale(highest(items));
    lemma_extremes(items, scale, i);
    let each = entry_height(items);
    let count = items.len() as int;
    assert(each * i + each <= each * count) by (nonlinear_arith)
        requires
            0 <= i < count,
            each >= 0,
    ;
}

/// The background of a contact sheet.
fn new_sheet(width: u32, height: u32) -> (sheet: RgbaPicture)
    requires
        width * height * 4 <= usize::MAX,
    ensures
        sheet@ == blank_sheet((width as int, height as int)),
        sheet@.wf(),
{
    let mut pixels: Vec<u8> = Vec::new();
    assert(width * height <= width * height * 4) by (nonlinear_arith);
    assert(0 <= width * height) by (nonlinear_arith);
    let count: usize = width as usize * height as usize;
    let mut i: usize = 0;
    while i < count
        invariant
            i <= count,
            pixels@.len() == 4 * i,
            forall|k: int|
                0 <= k < pixels@.len() ==> #[trigger] pixels@[k] == if k % 4 == 3 {
                    255u8
                } else {
                    32u8
                },
        decreases count - i,
    {
        pixels.push(32);
        pixels.push(32);
        pixels.push(32);
        pixels.push(255);
        i = i + 1;
    }
    let sheet = RgbaPicture { width, height, pixels };
    assert(sheet@ =~= blank_sheet((width as int, height as int)));
    sheet
}

/// A contact sheet: the entries below each other, each a picture with its label beside it.
pub fn contact_sheet(items: &Vec<(String, RgbaPicture)>) -> (sheet: RgbaPicture)
    requires
        sheet_fits(entries(items@)),
    ensures
        sheet@ == sheet_after(entries(items@), items@.len() as int),
        sheet@.wf(),
        (sheet@.width, sheet@.height) == sheet_size(entries(items@)),
{
    let ghost all = entries(items@);
    let mut image_width: u32 = 1;
    let mut image_height: u32 = 1;
    let mut i: usize = 0;
    while i < items.len()
        invariant
            i <= items@.len(),
            all == entries(items@),
            image_width == widest(all.take(i as int)),
            image_height == highest(all.take(i as int)),
        decreases items.len() - i,
    {
        let (width, height) = (items[i].1.width, items[i].1.height);
        proof {
            let next = all.take(i + 1);
            assert(next.drop_last() =~= all.take(i as int));
            assert(next.last() == all[i as int]);
        }
        if i == 0 {
            image_width = width;
            image_height = height;
        } else {
            image_width = larger(image_width, width);
            image_height = larger(image_height, height);
        }
        i = i + 1;
    }
    assert(all.take(all.len() as int) =~= all);
    let scale: u32 = label_scale_for(image_height);
    let mut label_width: u32 = 1;
    let mut k: usize = 0;
    while k < items.len()
        invariant
            k <= items@.len(),
            all == entries(items@),
            sheet_fits(all),
            4 <= scale <= 12,
            label_width == longest(all.take(k as int), scale as int),
        decreases items.len() - k,
    {
        proof {
            let next = all.take(k + 1);
            assert(next.drop_last() =~= all.take(k as int));
            assert(next.last() == all[k as int]);
            lemma_text_grows(all[k as int].0, scale as int);
        }
        let width: u32 = text_width(items[k].0.as_str(), scale);
        label_width = if k == 0 {
            width
        } else {
            larger(label_width, width)
        };
        k = k + 1;
    }
    let count: usize = if items.len() == 0 {
        1
    } else {
        items.len()
    };
    proof {
        let size = sheet_size(all);
        lemma_longest_is_positive(all, scale as int);
        assert(entry_height(all) <= entry_height(all) * greater(all.len() as int, 1) && greater(
            all.len() as int,
            1,
        ) <= entry_height(all) * greater(all.len() as int, 1)) by (nonlinear_arith)
            requires
                entry_height(all) >= 1,
                greater(all.len() as int, 1) >= 1,
        ;
    }
    let row_height: u32 = larger(image_height, text_height(scale)) + GUTTER;
    let width: u32 = GUTTER * 3 + image_width + label_width;
    let height: u32 = GUTTER + row_height * count as u32;
    let mut sheet = new_sheet(width, height);
    let mut row: usize = 0;
    while row < items.len()
        invariant
            row <= items@.len(),
            all == entries(items@),
            all.len() == items@.len(),
            sheet_fits(all),
            4 <= scale <= 12,
            scale == label_scale(highest(all)),
            image_width == widest(all),
            image_height == highest(all),
            label_width == longest(all, scale as int),
            row_height == entry_height(all),
            row_height >= 7 * scale + GUTTER,
            row_height >= image_height + GUTTER,
            width == sheet_size(all).0,
            height == sheet_size(all).1,
            items@.len() >= 1 ==> height == GUTTER + row_height * items@.len(),
            sheet@ == sheet_after(all, row as int),
            sheet@.wf(),
            sheet@.width == width,
            sheet@.height == height,
        decreases items.len() - row,
    {
        proof {
            assert(row_height * row + row_height <= row_height * items@.len() && row_height * row
                >= 0) by (nonlinear_arith)
                requires
                    row + 1 <= items@.len(),
                    row_height >= 1,
                    row >= 0,
            ;
            lemma_extremes(all, scale as int, row as int);
            assert(all[row as int] == (items@[row as int].0@, items@[row as int].1@));
            assert(row <= row_height * row) by (nonlinear_arith)
                requires
                    row_height >= 1,
                    row >= 0,
            ;
        }
        let picture = &items[row].1;
        let label = items[row].0.as_str();
        let row_top: u32 = GUTTER + row_height * row as u32;
        let image_y: u32 = row_top + (row_height - GUTTER - picture.height) / 2;
        let label_x: u32 = GUTTER * 2 + image_width;
        let label_y: u32 = row_top + (row_height - GUTTER - text_height(scale)) / 2;
        overlay(&mut sheet, picture, GUTTER, image_y);
        proof {
            lemma_text_fits(label@, scale as int);
        }
        draw_text(&mut sheet, label, label_x, label_y, scale, [242, 242, 242, 255]);
        row = row + 1;
    }
    sheet
}

proof fn lemma_text_grows(chars: Seq<char>, scale: int)
    requires
        0 <= scale <= 12,
        text_width_of(chars, 12) + 12 <= u32::MAX,
    ensures
        text_width_of(chars, scale) + scale <= u32::MAX,
{
    let count = greater(chars.len() as int, 1);
    assert(count * 6 * scale <= count * 6 * 12) by (nonlinear_arith)
        requires
            0 <= scale <= 12,
            count >= 1,
    ;
}

proof fn lemma_text_fits(chars: Seq<char>, scale: int)
    requires
        scale >= 0,
    ensures
        6 * scale * chars.len() <= text_width_of(chars, scale) + scale,
{
    let count = greater(chars.len() as int, 1);
    assert(6 * scale * chars.len() <= count * 6 * scale) by (nonlinear_arith)
        requires
            chars.len() <= count,
            scale >= 0,
    ;
}

proof fn lemma_longest_is_positive(items: Seq<(Seq<char>, RgbaView)>, scale: int)
    requires
        1 <= scale,
        forall|i: int| 0 <= i < items.len() ==> (#[trigger] items[i]).1.wf(),
    ensures
        longest(items, scale) >= 1,
        widest(items) >= 0,
        highest(items) >= 0,
    decreases items.len(),
{
    if items.len() > 0 {
        let chars = items.last().0;
        let count = greater(chars.len() as int, 1);
        assert(count * 6 * scale - scale >= 1) by (nonlinear_arith)
            requires
                count >= 1,
                scale >= 1,
        ;
        assert(items.last().1.wf());
        if items.len() > 1 {
            assert forall|i: int| 0 <= i < items.drop_last().len() implies (
            #[trigger] items.drop_last()[i]).1.wf() by {
                assert(items[i].1.wf());
            }
            lemma_longest_is_positive(items.drop_last(), scale);
        }
    }
}

/// Whether a character is an ASCII letter or digit.
pub open spec fn is_word_char(c: char) -> bool {
    ('a' <= c && c <= 'z') || ('A' <= c && c <= 'Z') || ('0' <= c && c <= '9')
}

/// A label made into a file name: its words of letters and digits in lower case, with one hyphen
/// between each two.
pub open spec fn slug(label: Seq<char>) -> Seq<char>
    decreases label.len(),
{
    if label.len() == 0 {
        Seq::empty()
    } else {
        let before = slug(label.drop_last());
        let last = label.last();
        if !is_word_char(last) {
            before
        } else if before.len() > 0 && !is_word_char(label[label.len() - 2]) {
            before.push('-').push(text::ascii_lower(last))
        } else {
            before.push(text::ascii_lower(last))
        }
    }
}

/// Whether a text is made of lower-case words with one hyphen between each two, the last of which
/// may have begun with its hyphen only.
pub open spec fn is_hyphenated(name: Seq<char>) -> bool {
    &&& name.len() > 0 ==> name[0] != '-'
    &&& forall|i: int|
        0 <= i < name.len() ==> (#[trigger] name[i] == '-' || ('a' <= name[i] && name[i] <= 'z') || (
        '0' <= name[i] && name[i] <= '9'))
    &&& forall|i: int| 0 < i < name.len() && #[trigger] name[i] == '-' ==> name[i - 1] != '-'
}

/// The name made of a label has no hyphen at its ends and none beside another, and nothing but
/// them, lower-case letters and digits.
pub proof fn names_are_hyphenated_words(label: Seq<char>)
    ensures
        is_hyphenated(slug(label)),
        slug(label).len() > 0 ==> slug(label).last() != '-',
    decreases label.len(),
{
    if label.len() > 0 {
        names_are_hyphenated_words(label.drop_last());
    }
}

/// A name that was made of a label stays what it is when a name is made of it.
pub proof fn names_are_stable(label: Seq<char>)
    ensures
        slug(slug(label)) == slug(label),
{
    names_are_hyphenated_words(label);
    lemma_hyphenated_stays(slug(label));
}

proof fn lemma_hyphenated_stays(name: Seq<char>)
    requires
        is_hyphenated(name),
    ensures
        slug(name) == if name.len() > 0 && name.last() == '-' {
            name.drop_last()
        } else {
            name
        },
    decreases name.len(),
{
    if name.len() > 0 {
        let before = name.drop_last();
        assert(is_hyphenated(before)) by {
            assert forall|i: int| 0 <= i < before.len() implies (#[trigger] before[i] == '-' || (
            'a' <= before[i] && before[i] <= 'z') || ('0' <= before[i] && before[i] <= '9')) by {
                assert(before[i] == name[i]);
            }
            assert forall|i: int| 0 < i < before.len() && #[trigger] before[i]
                == '-' implies before[i - 1] != '-' by {
                assert(before[i] == name[i]);
            }
        }
        lemma_hyphenated_stays(before);
        assert(name =~= before.push(name.last()));
        if name.last() != '-' && before.len() > 0 && before.last() == '-' {
            assert(before[before.len() - 1] == name[name.len() - 2]);
            assert(before =~= before.drop_last().push('-'));
        }
        if before.len() > 0 {
            assert(before.last() == name[name.len() - 2]);
        }
    } else {
        assert(slug(name) =~= name);
    }
}

/// A label made into a file name.
pub fn sanitize_name(label: &str) -> (name: String)
    ensures
        name@ == slug(label@),
{
    let chars = text::chars_of(label);
    let mut name = String::new();
    let mut begun = false;
    let mut gap = false;
    let mut i: usize = 0;
    assert(name@ =~= slug(chars@.take(0)));
    while i < chars.len()
        invariant
            i <= chars@.len(),
            chars@ == label@,
            name@ == slug(chars@.take(i as int)),
            begun == (name@.len() > 0),
            i > 0 ==> gap == !is_word_char(chars@[i - 1]),
            i == 0 ==> !begun,
        decreases chars.len() - i,
    {
        let c: char = chars[i];
        proof {
            let next = chars@.take(i + 1);
            assert(next.drop_last() =~= chars@.take(i as int));
            assert(next.last() == c);
            if i > 0 {
                assert(next[next.len() - 2] == chars@[i - 1]);
            }
        }
        let word = (c >= 'a' && c <= 'z') || (c >= 'A' && c <= 'Z') || (c >= '0' && c <= '9');
        if word {
            if begun && gap {
                name.push('-');
            }
            name.push(text::to_ascii_lower(c));
            begun = true;
            gap = false;
        } else {
            gap = true;
        }
        i = i + 1;
    }
    assert(chars@.take(chars@.len() as int) =~= chars@);
    name
}

/// The name of the directory for the pictures of a page.
pub open spec fn page_dir_of(page_index: int) -> Seq<char> {
    "page-"@ + text::padded_decimal(page_index, 4)
}

/// The name of the directory for the pictures of a page.
pub fn page_dir_name(page_index: usize) -> (name: String)
    ensures
        name@ == page_dir_of(page_index as int),
{
    let mut name = "page-".to_owned();
    text::push_padded_decimal(&mut name, page_index as u64, 4);
    name
}

/// The name of the file for a picture of a page.
pub fn visual_file_name(order: usize, method: &str) -> (name: String)
    ensures
        name@ == text::padded_decimal(order as int, 2) + "-"@ + method@ + ".png"@,
{
    let mut name = String::new();
    text::push_padded_decimal(&mut name, order as u64, 2);
    name.append("-");
    name.append(method);
    name.append(".png");
    assert(name@ =~= text::padded_decimal(order as int, 2) + "-"@ + method@ + ".png"@);
    name
}

/// The name of the file for the contact sheet of a page.
pub fn contact_sheet_name(page_index: usize) -> (name: String)
    ensures
        name@ == page_dir_of(page_index as int) + "-contact.png"@,
{
    let mut name = page_dir_name(page_index);
    name.append("-contact.png");
    name
}

/// The name made of a label has the label's letters and digits, in their order and in lower case, and
/// nothing else but hyphens.
pub proof fn names_keep_the_letters(label: Seq<char>)
    ensures
        slug(label).filter(|c: char| c != '-') == label.filter(|c: char| is_word_char(c)).map_values(
            |c: char| text::ascii_lower(c),
        ),
    decreases label.len(),
{
    reveal(Seq::filter);
    let kept = |c: char| c != '-';
    let word = |c: char| is_word_char(c);
    let lower = |c: char| text::ascii_lower(c);
    if label.len() > 0 {
        let before = label.drop_last();
        let last = label.last();
        names_keep_the_letters(before);
        let name = slug(before);
        if is_word_char(last) {
            let hyphened = name.push('-');
            assert(hyphened.drop_last() =~= name);
            assert(hyphened.filter(kept) == name.filter(kept));
            assert(hyphened.push(text::ascii_lower(last)).drop_last() =~= hyphened);
            assert(name.push(text::ascii_lower(last)).drop_last() =~= name);
            assert(slug(label).filter(kept) == name.filter(kept).push(text::ascii_lower(last)));
            assert(label.filter(word) == before.filter(word).push(last));
            assert(before.filter(word).push(last).map_values(lower) =~= before.filter(
                word,
            ).map_values(lower).push(text::ascii_lower(last)));
        } else {
            assert(label.filter(word) == before.filter(word));
        }
    } else {
        assert(slug(label).filter(kept) =~= label.filter(word).map_values(lower));
    }
}

} // verus!
