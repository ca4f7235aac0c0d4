//! The picture sizes that the networks accept.
use crate::text;
use vstd::prelude::*;

verus! {

/// The two sizes of a request, as messages show them.
pub open spec fn sizes_text(source: [usize; 2], output: [usize; 2]) -> Seq<char> {
    text::decimal(source[0] as int) + "x"@ + text::decimal(source[1] as int) + " -> "@
        + text::decimal(output[0] as int) + "x"@ + text::decimal(output[1] as int)
}

/// Adds the two sizes of a request at the end of a message.
pub fn push_sizes(message: &mut String, source: [usize; 2], output: [usize; 2])
    ensures
        final(message)@ == old(message)@ + sizes_text(source, output),
{
    text::push_decimal(message, source[0] as u64);
    message.append("x");
    text::push_decimal(message, source[1] as u64);
    message.append(" -> ");
    text::push_decimal(message, output[0] as u64);
    message.append("x");
    text::push_decimal(message, output[1] as u64);
    assert(message@ =~= old(message)@ + sizes_text(source, output));
}

/// Twice a length, at most the largest length there is.
pub open spec fn doubled(length: usize) -> int {
    if length * 2 > usize::MAX {
        usize::MAX as int
    } else {
        length * 2
    }
}

/// Twice a length, at most the largest length there is.
pub fn double(length: usize) -> (twice: usize)
    ensures
        twice == doubled(length),
{
    match length.checked_mul(2) {
        Some(twice) => twice,
        None => usize::MAX,
    }
}

/// Whether the output is twice the source on both sides.
pub open spec fn is_exact_double(source: [usize; 2], output: [usize; 2]) -> bool {
    output[0] == doubled(source[0]) && output[1] == doubled(source[1])
}

/// Whether the output is twice the source, or one pixel less on either side.
pub open spec fn is_double_or_crop(source: [usize; 2], output: [usize; 2]) -> bool {
    doubled(source[0]) - 1 <= output[0] <= doubled(source[0]) && doubled(source[1]) - 1 <= output[1]
        <= doubled(source[1])
}

/// An output is the exact double where each of its sides is twice that of the source, width by width
/// and height by height, and nearly the double where a side may also be one pixel short of that.
pub proof fn doubles_are_twice_as_wide_and_high(source: [usize; 2], output: [usize; 2])
    requires
        2 * source[0] <= usize::MAX,
        2 * source[1] <= usize::MAX,
    ensures
        is_exact_double(source, output) <==> output[0] == source[0] + source[0] && output[1]
            == source[1] + source[1],
        is_double_or_crop(source, output) <==> (output[0] == 2 * source[0] || output[0] + 1 == 2
            * source[0]) && (output[1] == 2 * source[1] || output[1] + 1 == 2 * source[1]),
{
}

/// The message for an output that is neither twice the source nor a one-pixel crop of that.
pub open spec fn double_or_crop_message(
    name: Seq<char>,
    source: [usize; 2],
    output: [usize; 2],
) -> Seq<char> {
    name + " requires 2x output or a one-pixel crop, got "@ + sizes_text(source, output)
}

/// The view of a check that either passes or gives a message.
pub open spec fn check_of(result: Result<(), String>) -> Option<Seq<char>> {
    match result {
        Ok(_) => None,
        Err(error) => Some(error@),
    }
}

/// Whether the output is twice the source on both sides.
pub fn exact_double(source: [usize; 2], output: [usize; 2]) -> (exact: bool)
    ensures
        exact == is_exact_double(source, output),
{
    output[0] == double(source[0]) && output[1] == double(source[1])
}

/// Accepts an output that is twice the source or a one-pixel crop of that.
pub fn require_double_or_crop(name: &str, source: [usize; 2], output: [usize; 2]) -> (checked: Result<
    (),
    String,
>)
    ensures
        check_of(checked) == if is_double_or_crop(source, output) {
            None
        } else {
            Some(double_or_crop_message(name@, source, output))
        },
{
    let width: usize = double(source[0]);
    let height: usize = double(source[1]);
    if output[0] > width || output[1] > height || width - output[0] > 1 || height - output[1] > 1 {
        let mut message = name.to_owned();
        message.append(" requires 2x output or a one-pixel crop, got ");
        push_sizes(&mut message, source, output);
        Err(message)
    } else {
        Ok(())
    }
}

} // verus!
