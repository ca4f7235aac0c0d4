//! Differences between a page and what an upscaler made of it, as far as they are counted in whole
//! numbers.
use crate::color::ColorImage;
use crate::text;
use vstd::prelude::*;

verus! {

/// The difference of two bytes.
pub open spec fn byte_difference(left: u8, right: u8) -> int {
    if left > right {
        left - right
    } else {
        right - left
    }
}

/// The difference of the colour channels at `i`; the alpha channel counts as equal.
pub open spec fn difference_at(left: Seq<u8>, right: Seq<u8>, i: int) -> int {
    if i % 4 == 3 {
        0
    } else {
        byte_difference(left[i], right[i])
    }
}

/// The sum of the differences of the first `count` channels.
pub open spec fn difference_sum(left: Seq<u8>, right: Seq<u8>, count: int) -> int
    decreases count,
{
    if count <= 0 {
        0
    } else {
        difference_sum(left, right, count - 1) + difference_at(left, right, count - 1)
    }
}

/// The sum of the squares of the differences of the first `count` channels.
pub open spec fn square_sum(left: Seq<u8>, right: Seq<u8>, count: int) -> int
    decreases count,
{
    if count <= 0 {
        0
    } else {
        square_sum(left, right, count - 1) + difference_at(left, right, count - 1)
            * difference_at(left, right, count - 1)
    }
}

/// The largest difference of the first `count` channels.
pub open spec fn largest_difference(left: Seq<u8>, right: Seq<u8>, count: int) -> int
    decreases count,
{
    if count <= 0 {
        0
    } else {
        let before = largest_difference(left, right, count - 1);
        let last = difference_at(left, right, count - 1);
        if last > before {
            last
        } else {
            before
        }
    }
}

/// Whether the pixel at an index differs in a colour channel.
pub open spec fn pixel_differs(left: Seq<u8>, right: Seq<u8>, pixel: int) -> bool {
    left[4 * pixel] != right[4 * pixel] || left[4 * pixel + 1] != right[4 * pixel + 1] || left[4
        * pixel + 2] != right[4 * pixel + 2]
}

/// How many of the first `count` pixels differ.
pub open spec fn differing_pixels(left: Seq<u8>, right: Seq<u8>, count: int) -> int
    decreases count,
{
    if count <= 0 {
        0
    } else {
        differing_pixels(left, right, count - 1) + if pixel_differs(left, right, count - 1) {
            1int
        } else {
            0int
        }
    }
}

/// What is counted of the differences between two pictures.
#[derive(Debug, Clone, Copy, PartialEq, Eq, Structural)]
pub struct DifferenceTally {
    pub pixels: usize,
    pub abs_sum: u128,
    pub square_sum: u128,
    pub max_abs_diff: u8,
    pub different_pixels: usize,
}

/// The size of a picture, as messages show it.
pub open spec fn size_text(size: [usize; 2]) -> Seq<char> {
    "["@ + text::decimal(size[0] as int) + ", "@ + text::decimal(size[1] as int) + "]"@
}

/// The message with which a comparison is refused, where it is.
pub open spec fn comparison_refusal(baseline: ColorImage, candidate: ColorImage) -> Option<
    Seq<char>,
> {
    if baseline.size[0] != candidate.size[0] || baseline.size[1] != candidate.size[1] {
        Some(
            "Image sizes differ: baseline "@ + size_text(baseline.size) + ", candidate "@
                + size_text(candidate.size),
        )
    } else if baseline.pixels@.len() == 0 {
        Some("Image has no pixels"@)
    } else {
        None
    }
}

/// Two pictures are compared where they are as wide and as high as each other and have pixels.
pub proof fn pictures_of_one_size_are_compared(baseline: ColorImage, candidate: ColorImage)
    requires
        baseline.wf(),
    ensures
        comparison_refusal(baseline, candidate) is None <==> baseline.size[0] == candidate.size[0]
            && baseline.size[1] == candidate.size[1] && baseline.size[0] > 0 && baseline.size[1] > 0,
{
    let (w, h) = (baseline.size[0] as int, baseline.size[1] as int);
    assert(w * h * 4 > 0 <==> w > 0 && h > 0) by (nonlinear_arith)
        requires
            w >= 0,
            h >= 0,
    ;
}

fn push_size(message: &mut String, size: [usize; 2])
    ensures
        final(message)@ == old(message)@ + size_text(size),
{
    message.append("[");
    text::push_decimal(message, size[0] as u64);
    message.append(", ");
    text::push_decimal(message, size[1] as u64);
    message.append("]");
    assert(message@ =~= old(message)@ + size_text(size));
}

fn difference(left: u8, right: u8) -> (diff: u8)
    ensures
        diff == byte_difference(left, right),
{
    if left > right {
        left - right
    } else {
        right - left
    }
}

/// Counts the differences between two pictures.
pub fn compare_channels(baseline: &ColorImage, candidate: &ColorImage) -> (tally: Result<
    DifferenceTally,
    String,
>)
    requires
        baseline.wf(),
        candidate.wf(),
    ensures
        match tally {
            Ok(tally) => {
                let left = baseline.pixels@;
                let right = candidate.pixels@;
                let count = left.len() as int;
                &&& comparison_refusal(*baseline, *candidate) == None::<Seq<char>>
                &&& tally.pixels == count / 4
                &&& tally.abs_sum == difference_sum(left, right, count)
                &&& tally.square_sum == square_sum(left, right, count)
                &&& tally.max_abs_diff == largest_difference(left, right, count)
                &&& tally.different_pixels == differing_pixels(left, right, count / 4)
            },
            Err(error) => comparison_refusal(*baseline, *candidate) == Some(error@),
        },
{
    if baseline.size[0] != candidate.size[0] || baseline.size[1] != candidate.size[1] {
        let mut message = "Image sizes differ: baseline ".to_owned();
        push_size(&mut message, baseline.size);
        message.append(", candidate ");
        push_size(&mut message, candidate.size);
        return Err(message);
    }
    if baseline.pixels.len() == 0 {
        return Err("Image has no pixels".to_owned());
    }
    let ghost left = baseline.pixels@;
    let ghost right = candidate.pixels@;
    let pixels: usize = baseline.pixels.len() / 4;
    let mut abs_sum: u128 = 0;
    let mut squares: u128 = 0;
    let mut max_abs_diff: u8 = 0;
    let mut different_pixels: usize = 0;
    let mut p: usize = 0;
    while p < pixels
        invariant
            left == baseline.pixels@,
            right == candidate.pixels@,
            left.len() == right.len(),
            left.len() == 4 * pixels,
            left.len() <= usize::MAX,
            p <= pixels,
            abs_sum == difference_sum(left, right, 4 * p),
            squares == square_sum(left, right, 4 * p),
            max_abs_diff == largest_difference(left, right, 4 * p),
            different_pixels == differing_pixels(left, right, p as int),
            abs_sum <= 765 * p,
            squares <= 195075 * p,
            different_pixels <= p,
        decreases pixels - p,
    {
        let mut differs = false;
        let mut c: usize = 0;
        while c < 3
            invariant
                left == baseline.pixels@,
                right == candidate.pixels@,
                left.len() == right.len(),
                left.len() == 4 * pixels,
                left.len() <= usize::MAX,
                p < pixels,
                c <= 3,
                abs_sum == difference_sum(left, right, 4 * p + c),
                squares == square_sum(left, right, 4 * p + c),
                max_abs_diff == largest_difference(left, right, 4 * p + c),
                abs_sum <= 765 * p + 255 * c,
                squares <= 195075 * p + 65025 * c,
                differs == exists|k: int| 0 <= k < c && #[trigger] left[4 * p + k] != right[4 * p + k],
            decreases 3 - c,
        {
            let at: usize = 4 * p + c;
            let diff: u8 = difference(baseline.pixels[at], candidate.pixels[at]);
            proof {
                assert(at as int % 4 == c);
                assert(diff == difference_at(left, right, at as int));
                assert(0 <= diff * diff <= 65025) by (nonlinear_arith)
                    requires
                        0 <= diff <= 255,
                ;
            }
            abs_sum = abs_sum + diff as u128;
            squares = squares + diff as u128 * diff as u128;
            if diff > max_abs_diff {
                max_abs_diff = diff;
            }
            if diff != 0 {
                differs = true;
            }
            proof {
                assert(diff != 0 <==> left[4 * p + c] != right[4 * p + c]);
            }
            c = c + 1;
        }
        proof {
            assert((4 * p + 3) % 4 == 3);
            assert(difference_at(left, right, 4 * p + 3) == 0);
            assert(differs <==> pixel_differs(left, right, p as int)) by {
                assert(left[4 * p + 0] == left[4 * p as int]);
                if pixel_differs(left, right, p as int) {
                    assert(left[4 * p + 0] != right[4 * p + 0] || left[4 * p + 1] != right[4 * p + 1]
                        || left[4 * p + 2] != right[4 * p + 2]);
                }
            }
        }
        if differs {
            different_pixels = different_pixels + 1;
        }
        p = p + 1;
    }
    Ok(
        DifferenceTally { pixels, abs_sum, square_sum: squares, max_abs_diff, different_pixels },
    )
}

/// Pictures with the same colours differ in nothing that is counted.
pub proof fn equal_pictures_do_not_differ(pixels: Seq<u8>, count: int)
    ensures
        difference_sum(pixels, pixels, count) == 0,
        square_sum(pixels, pixels, count) == 0,
        largest_difference(pixels, pixels, count) == 0,
        differing_pixels(pixels, pixels, count) == 0,
    decreases count,
{
    if count > 0 {
        equal_pictures_do_not_differ(pixels, count - 1);
        assert(difference_at(pixels, pixels, count - 1) == 0);
        assert(0int * 0int == 0);
    }
}

/// Which picture is the first of the two makes no difference to the counts.
pub proof fn differences_are_symmetric(left: Seq<u8>, right: Seq<u8>, count: int)
    ensures
        difference_sum(left, right, count) == difference_sum(right, left, count),
        square_sum(left, right, count) == square_sum(right, left, count),
        largest_difference(left, right, count) == largest_difference(right, left, count),
        differing_pixels(left, right, count) == differing_pixels(right, left, count),
    decreases count,
{
    if count > 0 {
        differences_are_symmetric(left, right, count - 1);
    }
}

/// The pixels, among the first `count`, whose red, green or blue is not the same in both pictures.
pub open spec fn unequal_pixels(left: Seq<u8>, right: Seq<u8>, count: int) -> Set<int> {
    Set::new(
        |p: int|
            0 <= p < count && exists|c: int|
                0 <= c < 3 && #[trigger] left[4 * p + c] != right[4 * p + c],
    )
}

proof fn lemma_largest_is_attained(left: Seq<u8>, right: Seq<u8>, count: int)
    requires
        0 <= count <= left.len(),
        left.len() == right.len(),
    ensures
        0 <= largest_difference(left, right, count) <= 255,
        forall|i: int|
            #![trigger left[i]]
            0 <= i < count && i % 4 != 3 ==> vstd::math::abs(left[i] - right[i]) <= largest_difference(
                left,
                right,
                count,
            ),
        largest_difference(left, right, count) > 0 ==> exists|i: int|
            0 <= i < count && i % 4 != 3 && vstd::math::abs(#[trigger] left[i] - right[i])
                == largest_difference(left, right, count),
    decreases count,
{
    if count > 0 {
        lemma_largest_is_attained(left, right, count - 1);
        let before = largest_difference(left, right, count - 1);
        let whole = largest_difference(left, right, count);
        let last = count - 1;
        assert(last % 4 != 3 ==> difference_at(left, right, last) == vstd::math::abs(left[last] - right[last]));
        assert forall|i: int| #![trigger left[i]] 0 <= i < count && i % 4 != 3 implies vstd::math::abs(
            left[i] - right[i],
        ) <= whole by {
            if i < last {
                assert(vstd::math::abs(left[i] - right[i]) <= before);
            }
        }
        if whole > 0 {
            if before > 0 && whole == before {
                let i = choose|i: int|
                    0 <= i < count - 1 && i % 4 != 3 && vstd::math::abs(#[trigger] left[i] - right[i])
                        == before;
                assert(vstd::math::abs(left[i] - right[i]) == whole);
            } else {
                assert(vstd::math::abs(left[last] - right[last]) == whole);
            }
        }
    }
}

/// The largest difference is that of some red, green or blue value, and no such value differs by
/// more.
pub proof fn largest_difference_is_over_all_colors(
    left: Seq<u8>,
    right: Seq<u8>,
    pixel: int,
    channel: int,
)
    requires
        left.len() == right.len(),
        left.len() % 4 == 0,
        0 <= pixel < left.len() / 4,
        0 <= channel < 3,
    ensures
        vstd::math::abs(left[4 * pixel + channel] - right[4 * pixel + channel]) <= largest_difference(
            left,
            right,
            left.len() as int,
        ),
        exists|p: int, c: int|
            0 <= p < left.len() / 4 && 0 <= c < 3 && vstd::math::abs(
                #[trigger] left[4 * p + c] - right[4 * p + c],
            ) == largest_difference(left, right, left.len() as int),
{
    let count = left.len() as int;
    let most = largest_difference(left, right, count);
    lemma_largest_is_attained(left, right, count);
    assert((4 * pixel + channel) % 4 == channel);
    if most > 0 {
        let i = choose|i: int|
            0 <= i < count && i % 4 != 3 && vstd::math::abs(#[trigger] left[i] - right[i]) == most;
        assert(left[4 * (i / 4) + i % 4] == left[i]);
        assert(vstd::math::abs(left[4 * (i / 4) + i % 4] - right[4 * (i / 4) + i % 4]) == most);
    } else {
        assert(vstd::math::abs(left[4 * pixel + channel] - right[4 * pixel + channel]) == most);
    }
}

proof fn lemma_update_moves_the_sums(
    left: Seq<u8>,
    right: Seq<u8>,
    at: int,
    value: u8,
    count: int,
)
    requires
        left.len() == right.len(),
        0 <= at < left.len(),
        0 <= count <= left.len(),
    ensures
        ({
            let changed = right.update(at, value);
            let before = vstd::math::abs(left[at] - right[at]);
            let after = vstd::math::abs(left[at] - value);
            let counts = at < count && at % 4 != 3;
            &&& difference_sum(left, changed, count) - difference_sum(left, right, count) == if counts {
                after - before
            } else {
                0
            }
            &&& square_sum(left, changed, count) - square_sum(left, right, count) == if counts {
                after * after - before * before
            } else {
                0
            }
        }),
    decreases count,
{
    if count > 0 {
        lemma_update_moves_the_sums(left, right, at, value, count - 1);
        let changed = right.update(at, value);
        if at == count - 1 {
            assert(at % 4 != 3 ==> difference_at(left, changed, at) == vstd::math::abs(left[at] - value));
            assert(at % 4 != 3 ==> difference_at(left, right, at) == vstd::math::abs(left[at] - right[at]));
        } else {
            assert(changed[count - 1] == right[count - 1]);
            assert(difference_at(left, changed, count - 1) == difference_at(
                left,
                right,
                count - 1,
            ));
        }
    }
}

/// Where one red, green or blue value of a picture is replaced, the sum of the differences moves by
/// as much as that value comes nearer or goes farther, and the sum of their squares by as much as
/// its square does. Replacing an alpha value moves nothing. Together with the sums of equal pictures
/// that settles both sums.
pub proof fn every_color_counts_once_in_the_sums(
    left: Seq<u8>,
    right: Seq<u8>,
    pixel: int,
    channel: int,
    value: u8,
)
    requires
        left.len() == right.len(),
        left.len() % 4 == 0,
        0 <= pixel < left.len() / 4,
        0 <= channel < 4,
    ensures
        ({
            let at = 4 * pixel + channel;
            let count = left.len() as int;
            let changed = right.update(at, value);
            let before = vstd::math::abs(left[at] - right[at]);
            let after = vstd::math::abs(left[at] - value);
            if channel < 3 {
                &&& difference_sum(left, changed, count) == difference_sum(left, right, count)
                    + after - before
                &&& square_sum(left, changed, count) == square_sum(left, right, count) + after
                    * after - before * before
            } else {
                &&& difference_sum(left, changed, count) == difference_sum(left, right, count)
                &&& square_sum(left, changed, count) == square_sum(left, right, count)
            }
        }),
{
    assert((4 * pixel + channel) % 4 == channel);
    lemma_update_moves_the_sums(left, right, 4 * pixel + channel, value, left.len() as int);
}

/// Pixels are counted as different where their red, green or blue differs, each of them once.
pub proof fn different_pixels_are_counted_once(left: Seq<u8>, right: Seq<u8>, count: int)
    requires
        0 <= count,
    ensures
        unequal_pixels(left, right, count).finite(),
        differing_pixels(left, right, count) == unequal_pixels(left, right, count).len(),
    decreases count,
{
    if count <= 0 {
        assert(unequal_pixels(left, right, count) =~= Set::empty());
    } else {
        different_pixels_are_counted_once(left, right, count - 1);
        let before = unequal_pixels(left, right, count - 1);
        let whole = unequal_pixels(left, right, count);
        let last = count - 1;
        if pixel_differs(left, right, last) {
            assert(left[4 * last + 0] != right[4 * last + 0] || left[4 * last + 1] != right[4 * last
                + 1] || left[4 * last + 2] != right[4 * last + 2]);
            assert(whole.contains(last));
            assert(whole =~= before.insert(last));
        } else {
            assert forall|c: int| 0 <= c < 3 implies #[trigger] left[4 * last + c] == right[4 * last
                + c] by {
                assert(c == 0 || c == 1 || c == 2);
            }
            assert(whole =~= before);
        }
    }
}

proof fn lemma_sums_bound_the_largest(left: Seq<u8>, right: Seq<u8>, count: int)
    requires
        0 <= count <= left.len(),
        left.len() == right.len(),
    ensures
        0 <= largest_difference(left, right, count) <= difference_sum(left, right, count),
        difference_sum(left, right, count) <= square_sum(left, right, count),
        square_sum(left, right, count) <= 255 * difference_sum(left, right, count),
        largest_difference(left, right, count) == 0 ==> difference_sum(left, right, count) == 0,
    decreases count,
{
    if count > 0 {
        lemma_sums_bound_the_largest(left, right, count - 1);
        let d = difference_at(left, right, count - 1);
        assert(0 <= d <= 255);
        assert(d <= d * d <= 255 * d) by (nonlinear_arith)
            requires
                0 <= d <= 255,
        ;
        assert(255 * (difference_sum(left, right, count - 1) + d) == 255 * difference_sum(
            left,
            right,
            count - 1,
        ) + 255 * d);
    }
}

/// Two pictures have no differences in sum, in squares, at most or in pixels exactly where every
/// red, green and blue value is the same in both; and the sums are never below the largest
/// difference.
pub proof fn only_equal_colors_do_not_differ(left: Seq<u8>, right: Seq<u8>)
    requires
        left.len() == right.len(),
        left.len() % 4 == 0,
    ensures
        ({
            let count = left.len() as int;
            let same = forall|p: int, c: int|
                0 <= p < count / 4 && 0 <= c < 3 ==> #[trigger] left[4 * p + c] == right[4 * p + c];
            &&& difference_sum(left, right, count) == 0 <==> same
            &&& square_sum(left, right, count) == 0 <==> same
            &&& largest_difference(left, right, count) == 0 <==> same
            &&& differing_pixels(left, right, count / 4) == 0 <==> same
            &&& largest_difference(left, right, count) <= difference_sum(left, right, count)
            &&& difference_sum(left, right, count) <= square_sum(left, right, count)
        }),
{
    let count = left.len() as int;
    let n = count / 4;
    lemma_sums_bound_the_largest(left, right, count);
    lemma_largest_is_attained(left, right, count);
    different_pixels_are_counted_once(left, right, n);
    let apart = unequal_pixels(left, right, n);
    let same = forall|p: int, c: int|
        0 <= p < n && 0 <= c < 3 ==> #[trigger] left[4 * p + c] == right[4 * p + c];
    if same {
        if largest_difference(left, right, count) > 0 {
            let i = choose|i: int|
                0 <= i < count && i % 4 != 3 && vstd::math::abs(#[trigger] left[i] - right[i])
                    == largest_difference(left, right, count);
            assert(left[4 * (i / 4) + i % 4] == right[4 * (i / 4) + i % 4]);
        }
        assert(apart =~= Set::empty());
    } else {
        let (p, c) = choose|p: int, c: int|
            0 <= p < n && 0 <= c < 3 && #[trigger] left[4 * p + c] != right[4 * p + c];
        assert((4 * p + c) % 4 == c);
        assert(vstd::math::abs(left[4 * p + c] - right[4 * p + c]) > 0);
        assert(apart.contains(p));
        if apart.len() == 0 {
            assert(apart =~= Set::empty());
        }
    }
}

/// How far apart the pixels are at which edges are compared.
pub open spec fn sample_step_of(width: int, height: int) -> int {
    let pixels = width * height;
    if pixels > 4_000_000 {
        4
    } else if pixels > 1_000_000 {
        2
    } else {
        1
    }
}

/// The pixels at which edges are compared are as near to each other as can be where not more than a
/// million of them are to be compared, but no farther apart than four.
pub proof fn edges_are_sampled_as_densely_as_can_be(width: int, height: int, step: int)
    requires
        step == 1 || step == 2 || step == 4,
    ensures
        step < sample_step_of(width, height) ==> width * height > 1_000_000 * (step * step),
        step > sample_step_of(width, height) ==> width * height <= 1_000_000 * (sample_step_of(
            width,
            height,
        ) * sample_step_of(width, height)),
        1 <= sample_step_of(width, height) <= 4,
        sample_step_of(width, height) != 3,
{
    assert(1int * 1int == 1 && 2int * 2int == 4 && 4int * 4int == 16);
}

/// How far apart the pixels are at which edges are compared.
pub fn edge_sample_step(width: usize, height: usize) -> (step: usize)
    ensures
        step == sample_step_of(width as int, height as int),
{
    let pixels: usize = match width.checked_mul(height) {
        Some(pixels) => pixels,
        None => usize::MAX,
    };
    if pixels > 4_000_000 {
        4
    } else if pixels > 1_000_000 {
        2
    } else {
        1
    }
}

} // verus!
