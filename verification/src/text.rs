//! Text assembled by the library: decimal numbers, comparisons and file-name extensions.
use crate::binary;
use vstd::prelude::*;

verus! {

/// `String::push` of the standard library: the character is added at the end.
pub assume_specification[ String::push ](s: &mut String, c: char)
    ensures
        final(s)@ == old(s)@.push(c),
;

/// The decimal digit for `d`.
pub open spec fn digit(d: int) -> char {
    (48 + d) as char
}

/// `n` in decimal notation, without leading zeros.
pub open spec fn decimal(n: int) -> Seq<char>
    decreases n,
{
    if n < 10 {
        seq![digit(n)]
    } else {
        decimal(n / 10).push(digit(n % 10))
    }
}

/// `n` in decimal notation, with leading zeros up to `width` characters.
pub open spec fn padded_decimal(n: int, width: int) -> Seq<char> {
    let plain = decimal(n);
    if plain.len() < width {
        Seq::new((width - plain.len()) as nat, |i: int| '0') + plain
    } else {
        plain
    }
}

/// `c` with the letters `A` to `Z` made lower case.
pub open spec fn ascii_lower(c: char) -> char {
    if 'A' <= c && c <= 'Z' {
        (c as u32 + 32) as char
    } else {
        c
    }
}

/// The number that digits stand for, the most significant one first.
pub open spec fn number_of(digits: Seq<char>) -> int
    decreases digits.len(),
{
    if digits.len() == 0 {
        0
    } else {
        10 * number_of(digits.drop_last()) + (digits.last() as int - '0' as int)
    }
}

/// A number in decimal notation reads as that number: it is made of digits alone, and does not begin
/// with a zero unless it is a single one.
pub proof fn decimals_read_as_their_number(n: int, i: int)
    requires
        0 <= n,
    ensures
        number_of(decimal(n)) == n,
        decimal(n).len() > 0,
        0 <= i < decimal(n).len() ==> '0' <= decimal(n)[i] && decimal(n)[i] <= '9',
        decimal(n).len() > 1 ==> decimal(n)[0] != '0',
    decreases n,
{
    if n < 10 {
        assert(decimal(n).drop_last() =~= Seq::<char>::empty());
        assert(number_of(Seq::<char>::empty()) == 0);
    } else {
        let before = decimal(n / 10);
        decimals_read_as_their_number(n / 10, i);
        assert(decimal(n).drop_last() =~= before);
        assert(decimal(n)[0] == before[0]);
        if before.len() == 1 {
            assert(n / 10 < 10) by {
                if n / 10 >= 10 {
                    decimals_read_as_their_number(n / 100, 0);
                }
            }
        }
    }
}

/// Padding a number changes neither the number nor its digits: it has zeros before them, up to the
/// width, and none where the digits are as many already.
pub proof fn padding_keeps_the_number(n: int, width: int)
    requires
        0 <= n,
    ensures
        ({
            let padded = padded_decimal(n, width);
            let plain = decimal(n);
            &&& number_of(padded) == n
            &&& padded.len() >= width && padded.len() >= plain.len()
            &&& padded.len() == width || padded == plain
            &&& padded.skip(padded.len() - plain.len()) == plain
        }),
{
    decimals_read_as_their_number(n, 0);
    let plain = decimal(n);
    let padded = padded_decimal(n, width);
    if plain.len() < width {
        let zeros = Seq::new((width - plain.len()) as nat, |i: int| '0');
        lemma_leading_zeros(zeros, plain);
        assert(padded.skip(padded.len() - plain.len()) =~= plain);
    } else {
        assert(padded.skip(0) =~= plain);
    }
}

proof fn lemma_leading_zeros(zeros: Seq<char>, digits: Seq<char>)
    requires
        forall|i: int| 0 <= i < zeros.len() ==> #[trigger] zeros[i] == '0',
    ensures
        number_of(zeros + digits) == number_of(digits),
    decreases zeros.len() + digits.len(),
{
    if digits.len() > 0 {
        lemma_leading_zeros(zeros, digits.drop_last());
        assert((zeros + digits).drop_last() =~= zeros + digits.drop_last());
    } else if zeros.len() > 0 {
        lemma_leading_zeros(zeros.drop_last(), digits);
        assert((zeros + digits).drop_last() =~= zeros.drop_last() + digits);
    } else {
        assert(zeros + digits =~= digits);
    }
}

/// Adds `n` in decimal notation at the end of `text`.
pub fn push_decimal(text: &mut String, n: u64)
    ensures
        final(text)@ == old(text)@ + decimal(n as int),
    decreases n,
{
    let low: u8 = (n % 10) as u8;
    let c: char = (48 + low) as char;
    if n >= 10 {
        push_decimal(text, n / 10);
        text.push(c);
        assert(decimal(n as int) == decimal(n as int / 10).push(digit(n as int % 10)));
        assert(text@ =~= old(text)@ + decimal(n as int));
    } else {
        text.push(c);
        assert(text@ =~= old(text)@ + decimal(n as int));
    }
}

/// Adds `n` in decimal notation, with leading zeros up to `width` characters, at the end of
/// `text`.
pub fn push_padded_decimal(text: &mut String, n: u64, width: usize)
    ensures
        final(text)@ == old(text)@ + padded_decimal(n as int, width as int),
{
    let mut plain = String::new();
    push_decimal(&mut plain, n);
    let digits: usize = plain.as_str().unicode_len();
    let mut have: usize = digits;
    while have < width
        invariant
            digits <= have,
            have <= width || have == digits,
            plain@ == decimal(n as int),
            text@ == old(text)@ + Seq::new((have - digits) as nat, |i: int| '0'),
        decreases width - have,
    {
        text.push('0');
        have = have + 1;
        assert(text@ =~= old(text)@ + Seq::new((have - digits) as nat, |i: int| '0'));
    }
    text.append(plain.as_str());
    assert(text@ =~= old(text)@ + padded_decimal(n as int, width as int));
}

/// Whether two texts are the same.
pub fn same_text(left: &str, right: &str) -> (same: bool)
    ensures
        same == (left@ == right@),
{
    let a = left.as_bytes();
    let b = right.as_bytes();
    proof {
        vstd::utf8::encode_utf8_decode_utf8(left@);
        vstd::utf8::encode_utf8_decode_utf8(right@);
    }
    if a.len() != b.len() {
        return false;
    }
    let mut i: usize = 0;
    while i < a.len()
        invariant
            i <= a@.len(),
            a@.len() == b@.len(),
            a@ == vstd::utf8::encode_utf8(left@),
            b@ == vstd::utf8::encode_utf8(right@),
            forall|k: int| 0 <= k < i ==> a@[k] == b@[k],
        decreases a.len() - i,
    {
        if a[i] != b[i] {
            return false;
        }
        i = i + 1;
    }
    assert(a@ =~= b@);
    true
}

/// The characters of a text.
pub fn chars_of(text: &str) -> (chars: Vec<char>)
    ensures
        chars@ == text@,
{
    let mut chars: Vec<char> = Vec::new();
    for c in it: text.chars()
        invariant
            chars@ == it.seq().take(it.index()),
            it.seq() == text@,
    {
        chars.push(c);
        assert(it.seq().take(it.index() + 1) =~= it.seq().take(it.index()).push(c));
    }
    assert(text@.take(text@.len() as int) =~= text@);
    chars
}

/// `name` without the separators and current-directory components at its end.
pub open spec fn trimmed_name(name: Seq<char>) -> Seq<char>
    decreases name.len(),
{
    if name.len() > 0 && name.last() == '/' {
        trimmed_name(name.drop_last())
    } else if name.len() > 1 && name.last() == '.' && name[name.len() - 2] == '/' {
        trimmed_name(name.drop_last().drop_last())
    } else {
        name
    }
}

/// Whether the last component of `name` has a stem and then, after its last dot, `extension` in
/// any case. `extension` itself is lower case and holds neither a dot nor a separator.
pub open spec fn has_extension_spec(name: Seq<char>, extension: Seq<char>) -> bool {
    let t = trimmed_name(name);
    let e = extension.len();
    &&& t.len() >= e + 2
    &&& t[t.len() - e - 1] == '.'
    &&& t[t.len() - e - 2] != '/'
    &&& forall|i: int| 0 <= i < e ==> ascii_lower(#[trigger] t[t.len() - e + i]) == extension[i]
}

/// A file whose name ends in a dot and an extension, after at least one other character of its own
/// component, has that extension, whatever the case of its letters.
pub proof fn names_have_the_extension_they_end_in(stem: Seq<char>, ending: Seq<char>, extension: Seq<char>)
    requires
        stem.len() > 0 && stem.last() != '/',
        ending.len() == extension.len(),
        forall|i: int|
            0 <= i < ending.len() ==> (#[trigger] ending[i] == extension[i] || 'a' <= extension[i]
                && extension[i] <= 'z' && ending[i] as int + 32 == extension[i] as int),
        forall|i: int|
            0 <= i < ending.len() ==> 'a' <= #[trigger] extension[i] && extension[i] <= 'z',
        extension.len() > 0,
    ensures
        has_extension_spec(stem.push('.') + ending, extension),
        !has_extension_spec(ending, extension),
        !has_extension_spec(stem.push('.') + ending.push('0'), extension.push('z')),
{
    let name = stem.push('.') + ending;
    let e = extension.len() as int;
    assert(name.last() == ending[e - 1]);
    assert(trimmed_name(name) == name);
    assert forall|i: int| 0 <= i < e implies ascii_lower(#[trigger] name[name.len() - e + i])
        == extension[i] by {
        assert(name[name.len() - e + i] == ending[i]);
    }
    assert(ending.last() == ending[e - 1]);
    assert(trimmed_name(ending) == ending);
    let other = stem.push('.') + ending.push('0');
    assert(other.last() == '0');
    assert(trimmed_name(other) == other);
    if has_extension_spec(other, extension.push('z')) {
        assert(ascii_lower(other[other.len() - (e + 1) + e]) == extension.push('z')[e]);
    }
}

/// `c` with the letters `A` to `Z` made lower case.
pub fn to_ascii_lower(c: char) -> (lower: char)
    ensures
        lower == ascii_lower(c),
{
    if c >= 'A' && c <= 'Z' {
        let code: u8 = c as u8;
        (code + 32) as char
    } else {
        c
    }
}

/// Whether the file named by `name` has the extension `extension`, compared without regard to
/// ASCII case.
pub fn has_extension(name: &str, extension: &str) -> (has: bool)
    ensures
        has == has_extension_spec(name@, extension@),
{
    let chars = chars_of(name);
    let wanted = chars_of(extension);
    let mut end: usize = chars.len();
    let ghost mut rest = chars@;
    loop
        invariant
            end <= chars@.len(),
            chars@ == name@,
            rest == chars@.take(end as int),
            trimmed_name(rest) == trimmed_name(name@),
        ensures
            chars@.take(end as int) == trimmed_name(name@),
        decreases end,
    {
        if end > 0 && chars[end - 1] == '/' {
            proof {
                assert(rest.drop_last() =~= chars@.take(end - 1));
                rest = rest.drop_last();
            }
            end = end - 1;
        } else if end > 1 && chars[end - 1] == '.' && chars[end - 2] == '/' {
            proof {
                assert(rest.drop_last().drop_last() =~= chars@.take(end - 2));
                rest = rest.drop_last().drop_last();
            }
            end = end - 2;
        } else {
            break;
        }
    }
    let ghost t = trimmed_name(name@);
    let e: usize = wanted.len();
    if end < 2 || end - 2 < e {
        return false;
    }
    if chars[end - e - 1] != '.' || chars[end - e - 2] == '/' {
        return false;
    }
    let mut i: usize = 0;
    while i < e
        invariant
            i <= e,
            e == wanted@.len(),
            wanted@ == extension@,
            e + 2 <= end <= chars@.len(),
            t == chars@.take(end as int),
            t == trimmed_name(name@),
            forall|k: int| 0 <= k < i ==> ascii_lower(#[trigger] t[t.len() - e + k]) == extension@[k],
        decreases e - i,
    {
        if to_ascii_lower(chars[end - e + i]) != wanted[i] {
            assert(t[t.len() - e + i] == chars@[end - e + i]);
            return false;
        }
        i = i + 1;
    }
    true
}

/// A byte count in megabytes with one decimal place: the count as a `binary32` value, and that
/// value divided by 2^20, rounded to tenths with ties to the even digit.
pub open spec fn megabytes(bytes: int) -> Seq<char> {
    let tenths = binary::nearest_even(
        10 * binary::binary_round(bytes, 1, binary::SINGLE_HALF as int),
        0x10_0000,
    );
    decimal(tenths / 10) + "."@ + decimal(tenths % 10)
}

/// Adds a byte count in megabytes with one decimal place at the end of `text`.
pub fn push_megabytes(text: &mut String, bytes: usize)
    ensures
        final(text)@ == old(text)@ + megabytes(bytes as int),
{
    let rounded: u128 = binary::round_to_binary(bytes as u128, binary::SINGLE_HALF);
    proof {
        binary::lemma_binary_round(bytes as int, 1, binary::SINGLE_HALF as int);
    }
    let tenths: u128 = binary::divide_to_even(10 * rounded, 0x10_0000);
    proof {
        binary::lemma_nearest_even_bounds(10 * rounded, 0x10_0000);
    }
    push_decimal(text, (tenths / 10) as u64);
    text.append(".");
    push_decimal(text, (tenths % 10) as u64);
    assert(text@ =~= old(text)@ + megabytes(bytes as int));
}

/// The characters that Unicode counts as white space.
pub open spec fn is_white(c: char) -> bool {
    let code = c as u32;
    ||| 0x9 <= code <= 0xd
    ||| code == 0x20
    ||| code == 0x85
    ||| code == 0xa0
    ||| code == 0x1680
    ||| 0x2000 <= code <= 0x200a
    ||| code == 0x2028
    ||| code == 0x2029
    ||| code == 0x202f
    ||| code == 0x205f
    ||| code == 0x3000
}

pub fn is_white_space(c: char) -> (white: bool)
    ensures
        white == is_white(c),
{
    let code: u32 = c as u32;
    (0x9 <= code && code <= 0xd) || code == 0x20 || code == 0x85 || code == 0xa0 || code == 0x1680
        || (0x2000 <= code && code <= 0x200a) || code == 0x2028 || code == 0x2029 || code == 0x202f
        || code == 0x205f || code == 0x3000
}

/// A text without the white space at its start.
pub open spec fn trimmed_start(text: Seq<char>) -> Seq<char>
    decreases text.len(),
{
    if text.len() > 0 && is_white(text[0]) {
        trimmed_start(text.skip(1))
    } else {
        text
    }
}

/// A text without the white space at its end.
pub open spec fn trimmed_end(text: Seq<char>) -> Seq<char>
    decreases text.len(),
{
    if text.len() > 0 && is_white(text.last()) {
        trimmed_end(text.drop_last())
    } else {
        text
    }
}

/// A setting as it is compared: without white space around it, and in lower case.
pub open spec fn setting(value: Seq<char>) -> Seq<char> {
    trimmed_end(trimmed_start(value)).map_values(|c: char| ascii_lower(c))
}

/// `setting` of a text.
pub fn setting_word(value: &str) -> (word: String)
    ensures
        word@ == setting(value@),
{
    let chars = chars_of(value);
    let mut start: usize = 0;
    assert(chars@.skip(0) =~= chars@);
    while start < chars.len() && is_white_space(chars[start])
        invariant
            start <= chars@.len(),
            trimmed_start(chars@.skip(start as int)) == trimmed_start(chars@),
        decreases chars.len() - start,
    {
        assert(chars@.skip(start as int).skip(1) =~= chars@.skip(start + 1));
        start = start + 1;
    }
    let ghost begun = chars@.skip(start as int);
    assert(begun == trimmed_start(chars@));
    let mut end: usize = chars.len();
    assert(chars@.subrange(start as int, end as int) =~= begun);
    while end > start && is_white_space(chars[end - 1])
        invariant
            start <= end <= chars@.len(),
            trimmed_end(chars@.subrange(start as int, end as int)) == trimmed_end(begun),
        decreases end,
    {
        assert(chars@.subrange(start as int, end as int).drop_last() =~= chars@.subrange(
            start as int,
            end - 1,
        ));
        end = end - 1;
    }
    let ghost kept = chars@.subrange(start as int, end as int);
    assert(kept == trimmed_end(begun));
    let mut word = String::new();
    let mut i: usize = start;
    while i < end
        invariant
            start <= i <= end <= chars@.len(),
            kept == chars@.subrange(start as int, end as int),
            word@ == kept.take(i - start).map_values(|c: char| ascii_lower(c)),
        decreases end - i,
    {
        word.push(to_ascii_lower(chars[i]));
        i = i + 1;
        assert(word@ =~= kept.take(i - start).map_values(|c: char| ascii_lower(c)));
    }
    assert(kept.take(i - start) =~= kept);
    word
}

/// Whether a text comes before another in the order of their characters.
pub open spec fn precedes(left: Seq<char>, right: Seq<char>) -> bool
    decreases left.len(),
{
    if right.len() == 0 {
        false
    } else if left.len() == 0 {
        true
    } else if left[0] == right[0] {
        precedes(left.skip(1), right.skip(1))
    } else {
        left[0] < right[0]
    }
}

/// Of two texts that differ, one comes before the other; none comes before itself.
pub proof fn texts_are_ordered(left: Seq<char>, right: Seq<char>)
    ensures
        !(precedes(left, right) && precedes(right, left)),
        left == right <==> !precedes(left, right) && !precedes(right, left),
    decreases left.len(),
{
    if left.len() > 0 && right.len() > 0 && left[0] == right[0] {
        texts_are_ordered(left.skip(1), right.skip(1));
        if left.skip(1) == right.skip(1) {
            assert(left =~= seq![left[0]] + left.skip(1));
            assert(right =~= seq![right[0]] + right.skip(1));
        }
    } else if left.len() == 0 && right.len() == 0 {
        assert(left =~= right);
    }
}

/// A text that comes before another comes before all that the other comes before.
pub proof fn order_is_transitive(first: Seq<char>, second: Seq<char>, third: Seq<char>)
    requires
        precedes(first, second),
        precedes(second, third),
    ensures
        precedes(first, third),
    decreases first.len(),
{
    if first.len() > 0 && second.len() > 0 && third.len() > 0 && first[0] == second[0] && second[0]
        == third[0] {
        order_is_transitive(first.skip(1), second.skip(1), third.skip(1));
    }
}

/// Whether a text comes before another in the order of their characters.
pub fn text_precedes(left: &str, right: &str) -> (before: bool)
    ensures
        before == precedes(left@, right@),
{
    let a = chars_of(left);
    let b = chars_of(right);
    let mut i: usize = 0;
    assert(a@.skip(0) =~= a@);
    assert(b@.skip(0) =~= b@);
    while i < a.len() && i < b.len()
        invariant
            i <= a@.len(),
            i <= b@.len(),
            a@ == left@,
            b@ == right@,
            precedes(left@, right@) == precedes(a@.skip(i as int), b@.skip(i as int)),
        decreases a.len() - i,
    {
        if a[i] != b[i] {
            return a[i] < b[i];
        }
        assert(a@.skip(i as int).skip(1) =~= a@.skip(i + 1));
        assert(b@.skip(i as int).skip(1) =~= b@.skip(i + 1));
        i = i + 1;
    }
    i < b.len()
}

/// A megabyte count is the number of tenths of a megabyte that comes nearest, of a count that is
/// rounded to single precision first: it is off by at most half a tenth, and by that rounding.
pub proof fn megabytes_are_the_nearest_tenths(bytes: int) -> (tenths: int)
    requires
        0 <= bytes,
    ensures
        0 <= tenths,
        megabytes(bytes) == decimal(tenths / 10) + "."@ + decimal(tenths % 10),
        bytes < 0x100_0000 ==> -524_288 <= 1_048_576 * tenths - 10 * bytes <= 524_288,
        8_388_608 * (2 * (1_048_576 * tenths - 10 * bytes)) <= 8_388_608 * 1_048_576 + 10 * bytes,
        -(8_388_608 * 1_048_576 + 10 * bytes) <= 8_388_608 * (2 * (1_048_576 * tenths - 10 * bytes)),
{
    let half = binary::SINGLE_HALF as int;
    binary::lemma_binary_round(bytes, 1, half);
    let r = binary::binary_round(bytes, 1, half);
    let tenths = binary::nearest_even(10 * r, 0x10_0000);
    binary::lemma_nearest_even_bounds(10 * r, 0x10_0000);
    if bytes < 0x100_0000 {
        assert(binary::nearest_even(bytes, 1) == bytes);
        assert(r == bytes);
    }
    tenths
}

/// A setting is compared without the white space around it: none is left at either end, what is left
/// stands in the value in one piece, and everything around it is white space.
pub proof fn settings_lose_the_space_around_them(value: Seq<char>) -> (at: (int, int))
    ensures
        0 <= at.0 <= at.1 <= value.len(),
        setting(value).len() == at.1 - at.0,
        forall|i: int| 0 <= i < at.0 ==> is_white(#[trigger] value[i]),
        forall|i: int| at.1 <= i < value.len() ==> is_white(#[trigger] value[i]),
        at.0 < at.1 ==> !is_white(value[at.0]) && !is_white(value[at.1 - 1]),
        forall|i: int|
            0 <= i < setting(value).len() ==> #[trigger] setting(value)[i] == ascii_lower(
                value[at.0 + i],
            ),
{
    let start = lemma_trimmed_start(value);
    let begun = trimmed_start(value);
    let end = lemma_trimmed_end(begun);
    assert forall|i: int| start + end <= i < value.len() implies is_white(#[trigger] value[i]) by {
        assert(begun[i - start] == value[i]);
    }
    if end > 0 {
        assert(begun[0] == value[start] && begun[end - 1] == value[start + end - 1]);
    }
    (start, start + end)
}

proof fn lemma_trimmed_start(text: Seq<char>) -> (start: int)
    ensures
        0 <= start <= text.len(),
        trimmed_start(text) == text.skip(start),
        forall|i: int| 0 <= i < start ==> is_white(#[trigger] text[i]),
        start < text.len() ==> !is_white(text[start]),
    decreases text.len(),
{
    if text.len() > 0 && is_white(text[0]) {
        let rest = text.skip(1);
        let start = lemma_trimmed_start(rest);
        assert(rest.skip(start) =~= text.skip(start + 1));
        assert forall|i: int| 0 <= i < start + 1 implies is_white(#[trigger] text[i]) by {
            if i > 0 {
                assert(rest[i - 1] == text[i]);
            }
        }
        start + 1
    } else {
        assert(text.skip(0) =~= text);
        0
    }
}

proof fn lemma_trimmed_end(text: Seq<char>) -> (end: int)
    ensures
        0 <= end <= text.len(),
        trimmed_end(text) == text.take(end),
        forall|i: int| end <= i < text.len() ==> is_white(#[trigger] text[i]),
        end > 0 ==> !is_white(text[end - 1]),
    decreases text.len(),
{
    if text.len() > 0 && is_white(text.last()) {
        let front = text.drop_last();
        let end = lemma_trimmed_end(front);
        assert(front.take(end) =~= text.take(end));
        assert forall|i: int| end <= i < text.len() implies is_white(#[trigger] text[i]) by {
            if i < front.len() {
                assert(front[i] == text[i]);
            }
        }
        end
    } else {
        assert(text.take(text.len() as int) =~= text);
        text.len() as int
    }
}

/// The order of two texts is that of the first characters in which they differ; where one goes on
/// after the other has ended, the shorter one comes first.
pub proof fn the_first_difference_decides(
    common: Seq<char>,
    left: Seq<char>,
    right: Seq<char>,
)
    ensures
        left.len() > 0 && right.len() > 0 && left[0] < right[0] ==> precedes(
            common + left,
            common + right,
        ) && !precedes(common + right, common + left),
        right.len() > 0 ==> precedes(common, common + right) && !precedes(common + right, common),
        !precedes(common, common),
    decreases common.len(),
{
    if common.len() > 0 {
        let rest = common.skip(1);
        the_first_difference_decides(rest, left, right);
        assert((common + left).skip(1) =~= rest + left);
        assert((common + right).skip(1) =~= rest + right);
    } else {
        assert(common + left =~= left);
        assert(common + right =~= right);
    }
}

} // verus!
