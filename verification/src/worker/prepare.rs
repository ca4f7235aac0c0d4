//! Page sizes, size limits and the assembly of prepared pages.
use crate::binary::scale_length;
use crate::text;
use crate::decoder_backend::{detect_format, unsupported_message_for_bytes, DecoderFormat};
use crate::worker::api::{
    clamp_target_long_edge, DecodeBackend, DecodeOptions, DecodeStrategy, PagePixels, PageView,
    PreparedPage, MAX_DECODED_PAGE_BYTES, MAX_IMAGE_DIMENSION,
};
use crate::worker::draft::{DraftView, PageDraft};
use crate::worker::image_crate::{
    prepare_image_with_image_crate, prepare_image_with_image_crate_and_icc,
};
use crate::worker::metadata::{read_image_metadata, ImageMetadata, Orientation};
use crate::worker::selection::prepare_image_with_selected_decoder;
use std::sync::Arc;
use vstd::prelude::*;

verus! {

/// `Arc::from` of the standard library on a vector: the shared slice holds the same bytes.
#[verifier::external_body]
pub(crate) fn shared_bytes(bytes: Vec<u8>) -> (shared: Arc<[u8]>)
    ensures
        shared@ == bytes@,
{
    Arc::from(bytes)
}

/// One edge of the display size: the edge scaled so that the longest one becomes `target`, and
/// at least one.
pub open spec fn scaled_edge(edge: u32, longest: u32, target: u32) -> u32 {
    let scaled = crate::binary::scaled_length(
        edge as int,
        target as int,
        longest as int,
        crate::binary::DOUBLE_HALF as int,
    );
    if scaled < 1 {
        1
    } else {
        scaled as u32
    }
}

/// The longer of two edges.
pub open spec fn longest_edge(width: u32, height: u32) -> u32 {
    if width > height {
        width
    } else {
        height
    }
}

/// An image's size scaled so that its longest edge becomes `target`; the size itself where it is
/// within the target and may not grow.
pub open spec fn fitted_size(width: u32, height: u32, target: u32, allow_upscale: bool) -> (
    u32,
    u32,
) {
    let longest = longest_edge(width, height);
    if longest <= target && !allow_upscale {
        (width, height)
    } else {
        (scaled_edge(width, longest, target), scaled_edge(height, longest, target))
    }
}

/// The size at which an image is shown.
pub open spec fn display_size(
    width: u32,
    height: u32,
    target_long_edge: u32,
    allow_upscale: bool,
) -> (u32, u32) {
    fitted_size(
        width,
        height,
        crate::worker::api::clamped_target(target_long_edge),
        allow_upscale,
    )
}

/// `fitted_size`, or an error for an image without pixels.
pub fn fit_dimensions(width: u32, height: u32, target: u32, allow_upscale: bool) -> (size: Result<
    (u32, u32),
    String,
>)
    ensures
        match size {
            Ok(size) => width > 0 && height > 0 && size == fitted_size(
                width,
                height,
                target,
                allow_upscale,
            ),
            Err(message) => (width == 0 || height == 0) && message@
                == "Image has zero-sized dimensions"@,
        },
{
    if width == 0 || height == 0 {
        return Err("Image has zero-sized dimensions".to_owned());
    }
    let longest: u32 = if width > height {
        width
    } else {
        height
    };
    if longest <= target && !allow_upscale {
        return Ok((width, height));
    }
    let display_width: u32 = scale_length(width, target, longest);
    let display_height: u32 = scale_length(height, target, longest);
    Ok(
        (
            if display_width < 1 {
                1
            } else {
                display_width
            },
            if display_height < 1 {
                1
            } else {
                display_height
            },
        ),
    )
}

pub fn display_dimensions(width: u32, height: u32, target_long_edge: u32) -> (size: Result<
    (u32, u32),
    String,
>)
    ensures
        match size {
            Ok(size) => width > 0 && height > 0 && size == display_size(
                width,
                height,
                target_long_edge,
                false,
            ),
            Err(message) => (width == 0 || height == 0) && message@
                == "Image has zero-sized dimensions"@,
        },
{
    display_dimensions_with_upscale(width, height, target_long_edge, false)
}

pub fn display_dimensions_with_upscale(
    width: u32,
    height: u32,
    target_long_edge: u32,
    allow_upscale: bool,
) -> (size: Result<(u32, u32), String>)
    ensures
        match size {
            Ok(size) => width > 0 && height > 0 && size == display_size(
                width,
                height,
                target_long_edge,
                allow_upscale,
            ),
            Err(message) => (width == 0 || height == 0) && message@
                == "Image has zero-sized dimensions"@,
        },
{
    fit_dimensions(width, height, clamp_target_long_edge(target_long_edge), allow_upscale)
}

/// A size keeps the picture's shape: each edge of the new size is to the target as that edge of the
/// picture is to its longest one, up to one pixel. The longest edge becomes the target exactly, the
/// other is not longer, and no edge is empty. Unless enlarging is allowed, a picture within the
/// target stays as it is and no edge grows. A picture on its side gets the same size on its side.
pub proof fn fitted_sizes_keep_the_shape(
    width: u32,
    height: u32,
    longest: u32,
    target: u32,
    allow_upscale: bool,
)
    requires
        width > 0,
        height > 0,
        target > 0,
        width <= longest && height <= longest,
        width == longest || height == longest,
    ensures
        ({
            let size = fitted_size(width, height, target, allow_upscale);
            let scaled = allow_upscale || longest > target;
            &&& !scaled ==> size == (width, height)
            &&& scaled ==> -longest <= size.0 * longest - width * target <= longest
            &&& scaled ==> -longest <= size.1 * longest - height * target <= longest
            &&& scaled && width == longest ==> size.0 == target
            &&& scaled && height == longest ==> size.1 == target
            &&& scaled ==> 1 <= size.0 <= target && 1 <= size.1 <= target
            &&& !allow_upscale ==> size.0 <= width && size.1 <= height
            &&& scaled && 8 * (longest * target) <= 0x10_0000_0000_0000 ==> {
                &&& size.0 == 1 || -longest <= 2 * (size.0 * longest - width * target) <= longest
                &&& size.1 == 1 || -longest <= 2 * (size.1 * longest - height * target) <= longest
            }
            &&& fitted_size(height, width, target, allow_upscale) == (size.1, size.0)
        }),
{
    if allow_upscale || longest > target {
        lemma_scaled_edge(width, longest, target);
        lemma_scaled_edge(height, longest, target);
    }
}

proof fn lemma_scaled_edge(edge: u32, longest: u32, target: u32)
    requires
        0 < edge <= longest,
        target > 0,
    ensures
        ({
            let scaled = scaled_edge(edge, longest, target);
            &&& -longest <= scaled * longest - edge * target <= longest
            &&& 1 <= scaled <= target
            &&& edge == longest ==> scaled == target
            &&& target <= longest ==> scaled <= edge
            &&& 8 * (longest * target) <= 0x10_0000_0000_0000 ==> scaled == 1 || -longest <= 2 * (
            scaled * longest - edge * target) <= longest
        }),
{
    let half = crate::binary::DOUBLE_HALF as int;
    crate::binary::lemma_scaled_length(edge as int, target as int, longest as int, half);
    crate::binary::scaled_lengths_are_nearest(edge as int, target as int, longest as int, half);
    if target <= longest {
        crate::binary::lemma_scaled_length_shrinks(
            edge as int,
            target as int,
            longest as int,
            half,
        );
    }
    let s = crate::binary::scaled_length(edge as int, target as int, longest as int, half);
    assert(edge * target >= 1) by (nonlinear_arith)
        requires
            edge >= 1,
            target >= 1,
    ;
    if s < 1 {
        assert(s * longest == 0) by (nonlinear_arith)
            requires
                s == 0,
        ;
    }
}

/// The size at which an image is shown keeps the image's shape: no other whole number of pixels
/// comes nearer to the true proportion along either edge, save that no edge is empty.
pub proof fn display_sizes_keep_the_shape(
    width: u32,
    height: u32,
    longest: u32,
    target_long_edge: u32,
    allow_upscale: bool,
)
    requires
        width > 0,
        height > 0,
        width <= longest && height <= longest,
        width == longest || height == longest,
    ensures
        ({
            let size = display_size(width, height, target_long_edge, allow_upscale);
            let target = if target_long_edge < 1024 {
                1024
            } else if target_long_edge > 20_000 {
                20_000
            } else {
                target_long_edge as int
            };
            let scaled = allow_upscale || longest > target;
            &&& !scaled ==> size == (width, height)
            &&& scaled && width == longest ==> size.0 == target
            &&& scaled && height == longest ==> size.1 == target
            &&& scaled ==> size.0 == 1 || -longest <= 2 * (size.0 * longest - width * target)
                <= longest
            &&& scaled ==> size.1 == 1 || -longest <= 2 * (size.1 * longest - height * target)
                <= longest
            &&& scaled ==> -longest <= size.0 * longest - width * target <= longest
            &&& scaled ==> -longest <= size.1 * longest - height * target <= longest
            &&& !allow_upscale ==> size.0 <= width && size.1 <= height
            &&& 1 <= size.0 && 1 <= size.1
            &&& display_size(height, width, target_long_edge, allow_upscale) == (size.1, size.0)
        }),
{
    let target = crate::worker::api::clamped_target(target_long_edge);
    fitted_sizes_keep_the_shape(width, height, longest, target, allow_upscale);
    assert(8 * (longest * target) <= 0x10_0000_0000_0000) by (nonlinear_arith)
        requires
            longest <= 0xffff_ffff,
            target <= 20_000,
    ;
}

/// A display size is never empty and never beyond the target; unless enlarging is allowed it is
/// never beyond the image either. Where the image is scaled at all, its longest edge becomes
/// exactly the target.
pub proof fn display_size_fits_the_target(
    width: u32,
    height: u32,
    target_long_edge: u32,
    allow_upscale: bool,
)
    requires
        width > 0,
        height > 0,
    ensures
        ({
            let size = display_size(width, height, target_long_edge, allow_upscale);
            let target = crate::worker::api::clamped_target(target_long_edge);
            let longest = longest_edge(width, height);
            &&& 1 <= size.0 <= target && 1 <= size.1 <= target
            &&& !allow_upscale && longest <= target ==> size == (width, height)
            &&& allow_upscale || longest > target ==> longest_edge(size.0, size.1) == target
        }),
{
    let target = crate::worker::api::clamped_target(target_long_edge);
    let longest = longest_edge(width, height);
    crate::binary::lemma_scaled_length(
        width as int,
        target as int,
        longest as int,
        crate::binary::DOUBLE_HALF as int,
    );
    crate::binary::lemma_scaled_length(
        height as int,
        target as int,
        longest as int,
        crate::binary::DOUBLE_HALF as int,
    );
}

/// The message for an image with too long an edge.
pub open spec fn dimensions_message(width: u32, height: u32) -> Seq<char> {
    "Image dimensions exceed limit: "@ + text::decimal(width as int) + "x"@ + text::decimal(
        height as int,
    )
}

/// Whether both edges are within the limit.
pub open spec fn within_dimensions(width: u32, height: u32) -> bool {
    width <= MAX_IMAGE_DIMENSION && height <= MAX_IMAGE_DIMENSION
}

pub fn reject_oversized_dimensions(width: u32, height: u32) -> (result: Result<(), String>)
    ensures
        match result {
            Ok(_) => within_dimensions(width, height),
            Err(message) => !within_dimensions(width, height) && message@ == dimensions_message(
                width,
                height,
            ),
        },
{
    if width <= MAX_IMAGE_DIMENSION && height <= MAX_IMAGE_DIMENSION {
        return Ok(());
    }
    let mut message = "Image dimensions exceed limit: ".to_owned();
    text::push_decimal(&mut message, width as u64);
    message.append("x");
    text::push_decimal(&mut message, height as u64);
    Err(message)
}

/// The bytes of an image as RGBA.
pub fn decoded_byte_size(width: u32, height: u32) -> (size: Result<usize, String>)
    ensures
        match size {
            Ok(size) => size == width * height * 4,
            Err(message) => width * height * 4 > usize::MAX && message@
                == "Decoded image dimensions overflow memory limits"@,
        },
{
    proof {
        let a = width * height;
        assert(a * 4 >= a) by (nonlinear_arith)
            requires
                a == width * height,
        ;
    }
    match (width as usize).checked_mul(height as usize) {
        Some(pixels) => match pixels.checked_mul(4) {
            Some(bytes) => Ok(bytes),
            None => Err("Decoded image dimensions overflow memory limits".to_owned()),
        },
        None => Err("Decoded image dimensions overflow memory limits".to_owned()),
    }
}

/// Why an original is not decoded, if it is not: an edge beyond the limit, or too many bytes.
pub open spec fn original_rejection(width: u32, height: u32) -> Option<Seq<char>> {
    if !within_dimensions(width, height) {
        Some(dimensions_message(width, height))
    } else if width * height * 4 > MAX_DECODED_PAGE_BYTES {
        Some(
            "Decoded page is too large: "@ + text::megabytes(width * height * 4) + " MB"@,
        )
    } else {
        None
    }
}

/// An original is decoded where both of its edges are within the limit and its pixels take no more
/// than a quarter of a gigabyte; a smaller picture than one that is decoded is decoded too.
pub proof fn originals_are_decoded_within_the_limits(width: u32, height: u32, narrower: u32, lower: u32)
    requires
        narrower <= width,
        lower <= height,
    ensures
        original_rejection(width, height) is None <==> width <= 20_000 && height <= 20_000 && 4 * (
        width * height) <= 268_435_456,
        original_rejection(width, height) is None ==> original_rejection(narrower, lower) is None,
        original_rejection(height, width) is None <==> original_rejection(width, height) is None,
{
    assert(narrower * lower <= width * height) by (nonlinear_arith)
        requires
            0 <= narrower <= width,
            0 <= lower <= height,
    ;
    assert(width * height == height * width) by (nonlinear_arith);
}

pub fn reject_oversized_original(width: u32, height: u32) -> (result: Result<(), String>)
    ensures
        match result {
            Ok(_) => original_rejection(width, height) is None,
            Err(message) => original_rejection(width, height) == Some(message@),
        },
{
    reject_oversized_dimensions(width, height)?;
    proof {
        assert(width * height * 4 <= 1_600_000_000) by (nonlinear_arith)
            requires
                width <= 20_000,
                height <= 20_000,
        ;
    }
    let decoded_bytes: usize = decoded_byte_size(width, height)?;
    if decoded_bytes > MAX_DECODED_PAGE_BYTES {
        let mut message = "Decoded page is too large: ".to_owned();
        text::push_megabytes(&mut message, decoded_bytes);
        message.append(" MB");
        return Err(message);
    }
    Ok(())
}

/// The source index that stands for the middle of the `out_index`th of `out_len` equal parts.
pub open spec fn sampled_source(out_index: int, out_len: int, source_len: int) -> int {
    ((2 * out_index + 1) * source_len) / (2 * out_len)
}

/// Sampled positions ascend and stay inside the source.
pub proof fn sampled_source_stays_inside(i: int, j: int, out_len: int, source_len: int)
    requires
        0 <= i <= j < out_len,
        0 < source_len,
    ensures
        0 <= sampled_source(i, out_len, source_len) <= sampled_source(j, out_len, source_len)
            < source_len,
{
    let a = (2 * i + 1) * source_len;
    let b = (2 * j + 1) * source_len;
    assert(0 <= a <= b < 2 * out_len * source_len) by (nonlinear_arith)
        requires
            a == (2 * i + 1) * source_len,
            b == (2 * j + 1) * source_len,
            0 <= i <= j < out_len,
            0 < source_len,
    ;
    vstd::arithmetic::div_mod::lemma_div_is_ordered(a, b, 2 * out_len);
    vstd::arithmetic::div_mod::lemma_div_pos_is_pos(a, 2 * out_len);
    vstd::arithmetic::div_mod::lemma_fundamental_div_mod(b, 2 * out_len);
    assert(b / (2 * out_len) < source_len) by (nonlinear_arith)
        requires
            b == (2 * out_len) * (b / (2 * out_len)) + b % (2 * out_len),
            b % (2 * out_len) >= 0,
            b < 2 * out_len * source_len,
            out_len > 0,
    ;
}

/// A sampled position is the source pixel that holds the middle of its part: of `out_len` equal
/// parts of the source, the middle of the `i`th lies between the near and the far side of that pixel.
pub proof fn sampled_source_holds_the_middle(i: int, out_len: int, source_len: int, s: int)
    requires
        0 <= i < out_len,
        0 < source_len,
    ensures
        2 * out_len * sampled_source(i, out_len, source_len) <= (2 * i + 1) * source_len,
        (2 * i + 1) * source_len < 2 * out_len * (sampled_source(i, out_len, source_len) + 1),
        2 * out_len * s <= (2 * i + 1) * source_len < 2 * out_len * (s + 1) ==> s == sampled_source(
            i,
            out_len,
            source_len,
        ),
{
    let a = (2 * i + 1) * source_len;
    let q = sampled_source(i, out_len, source_len);
    vstd::arithmetic::div_mod::lemma_fundamental_div_mod(a, 2 * out_len);
    assert(2 * out_len * (q + 1) == 2 * out_len * q + 2 * out_len) by (nonlinear_arith);
    if 2 * out_len * s <= a < 2 * out_len * (s + 1) {
        assert(s == q) by (nonlinear_arith)
            requires
                2 * out_len * s <= a < 2 * out_len * (s + 1),
                2 * out_len * q <= a < 2 * out_len * (q + 1),
                out_len > 0,
        ;
    }
}

/// Where nothing is left out, every position stands for itself.
pub proof fn sampled_source_of_equal_lengths(i: int, len: int)
    requires
        0 <= i < len,
    ensures
        sampled_source(i, len, len) == i,
{
    assert((2 * i + 1) * len == i * (2 * len) + len) by (nonlinear_arith);
    vstd::arithmetic::div_mod::lemma_fundamental_div_mod_converse(
        (2 * i + 1) * len,
        2 * len,
        i,
        len,
    );
}

/// The source index for each of `out_len` positions.
pub fn sampled_index_map(out_len: usize, source_len: usize) -> (map: Vec<usize>)
    requires
        2 * out_len <= usize::MAX,
        2 * out_len * source_len <= usize::MAX,
    ensures
        map@.len() == out_len,
        forall|i: int|
            0 <= i < out_len ==> #[trigger] map@[i] == sampled_source(
                i,
                out_len as int,
                source_len as int,
            ) && (map@[i] < source_len || source_len == 0 && map@[i] == 0),
{
    let mut map: Vec<usize> = Vec::new();
    let mut i: usize = 0;
    while i < out_len
        invariant
            i <= out_len,
            2 * out_len <= usize::MAX,
            2 * out_len * source_len <= usize::MAX,
            map@.len() == i,
            forall|k: int|
                0 <= k < i ==> #[trigger] map@[k] == sampled_source(
                    k,
                    out_len as int,
                    source_len as int,
                ) && (map@[k] < source_len || source_len == 0 && map@[k] == 0),
        decreases out_len - i,
    {
        proof {
            if source_len > 0 {
                sampled_source_stays_inside(i as int, i as int, out_len as int, source_len as int);
            } else {
                assert((2 * i + 1) * 0 == 0 && 0int / (2 * out_len) == 0) by (nonlinear_arith)
                    requires
                        out_len > 0,
                ;
            }
            assert((2 * i + 1) * source_len <= 2 * out_len * source_len) by (nonlinear_arith)
                requires
                    i < out_len,
            ;
        }
        map.push(((i * 2 + 1) * source_len) / (out_len * 2));
        i = i + 1;
    }
    map
}

/// The bytes that a page takes once uploaded as RGBA; more than any limit where the count does
/// not fit 32 bits.
pub open spec fn upload_bytes(retained: int, width: u32, height: u32) -> int {
    let expanded = if width * height * 4 <= u32::MAX {
        width * height * 4
    } else {
        usize::MAX as int
    };
    if expanded > retained {
        expanded
    } else {
        retained
    }
}

/// A page assembled from pixels, or the message why it is too large.
pub open spec fn assembled_page(
    luma: bool,
    bytes: Seq<u8>,
    original: (u32, u32),
    display: (u32, u32),
    target_long_edge: u32,
    decode_backend: DecodeBackend,
) -> Result<PageView, Seq<char>> {
    let upload = upload_bytes(bytes.len() as int, display.0, display.1);
    if upload > MAX_DECODED_PAGE_BYTES {
        Err("Prepared page is too large: "@ + text::megabytes(upload) + " MB"@)
    } else {
        Ok(
            PageView {
                luma,
                bytes,
                original: (original.0 as int, original.1 as int),
                display: (display.0 as int, display.1 as int),
                byte_size: bytes.len() as int,
                target_long_edge,
                decode_backend,
                notice: None,
            },
        )
    }
}

/// A page is assembled wherever its pixels, drawn in color, are within the budget of one page, and then
/// holds the pixels, the sizes and the target that it was given.
pub proof fn assembled_pages_hold_their_pixels(
    luma: bool,
    bytes: Seq<u8>,
    original: (u32, u32),
    display: (u32, u32),
    target_long_edge: u32,
    decode_backend: DecodeBackend,
)
    requires
        bytes.len() <= 4 * (display.0 * display.1),
    ensures
        ({
            let page = assembled_page(
                luma,
                bytes,
                original,
                display,
                target_long_edge,
                decode_backend,
            );
            &&& page is Ok <==> 4 * (display.0 * display.1) <= 268_435_456
            &&& page matches Ok(page) ==> {
                &&& page.bytes == bytes && page.luma == luma && page.byte_size == bytes.len()
                &&& page.original == (original.0 as int, original.1 as int)
                &&& page.display == (display.0 as int, display.1 as int)
                &&& page.target_long_edge == target_long_edge && page.decode_backend
                    == decode_backend && page.notice is None
            }
        }),
{
}

fn prepared_page_from_pixels(
    pixels: PagePixels,
    original_width: u32,
    original_height: u32,
    display_width: u32,
    display_height: u32,
    target_long_edge: u32,
    decode_backend: DecodeBackend,
) -> (page: Result<PreparedPage, String>)
    ensures
        crate::worker::api::outcome(page) == assembled_page(
            pixels is Luma,
            pixels.bytes(),
            (original_width, original_height),
            (display_width, display_height),
            target_long_edge,
            decode_backend,
        ),
        page matches Ok(page) ==> pixels.bytes().len() == display_width * display_height
            * page@.depth() ==> page@.sound(),
{
    let byte_size: usize = pixels.byte_len();
    proof {
        let a = display_width * display_height;
        assert(a * 4 >= a) by (nonlinear_arith)
            requires
                a == display_width * display_height,
        ;
    }
    let expanded: usize = match display_width.checked_mul(display_height) {
        Some(count) => match count.checked_mul(4) {
            Some(bytes) => bytes as usize,
            None => usize::MAX,
        },
        None => usize::MAX,
    };
    let upload: usize = if expanded > byte_size {
        expanded
    } else {
        byte_size
    };
    if upload > MAX_DECODED_PAGE_BYTES {
        let mut message = "Prepared page is too large: ".to_owned();
        text::push_megabytes(&mut message, upload);
        message.append(" MB");
        return Err(message);
    }
    Ok(
        PreparedPage {
            pixels,
            original_width: original_width as usize,
            original_height: original_height as usize,
            display_width: display_width as usize,
            display_height: display_height as usize,
            byte_size,
            target_long_edge,
            decode_backend,
            notice: None,
        },
    )
}

pub fn prepared_page_from_rgba(
    raw: Vec<u8>,
    original_width: u32,
    original_height: u32,
    display_width: u32,
    display_height: u32,
    target_long_edge: u32,
    decode_backend: DecodeBackend,
) -> (page: Result<PreparedPage, String>)
    ensures
        crate::worker::api::outcome(page) == assembled_page(
            false,
            raw@,
            (original_width, original_height),
            (display_width, display_height),
            target_long_edge,
            decode_backend,
        ),
        page matches Ok(page) ==> raw@.len() == display_width * display_height * 4 ==> page@.sound(),
{
    prepared_page_from_pixels(
        PagePixels::Rgba(shared_bytes(raw)),
        original_width,
        original_height,
        display_width,
        display_height,
        target_long_edge,
        decode_backend,
    )
}

/// A page from gray values, kept at one byte per pixel.
pub fn prepared_page_from_luma(
    raw: Vec<u8>,
    original_width: u32,
    original_height: u32,
    display_width: u32,
    display_height: u32,
    target_long_edge: u32,
    decode_backend: DecodeBackend,
) -> (page: Result<PreparedPage, String>)
    ensures
        crate::worker::api::outcome(page) == assembled_page(
            true,
            raw@,
            (original_width, original_height),
            (display_width, display_height),
            target_long_edge,
            decode_backend,
        ),
        page matches Ok(page) ==> raw@.len() == display_width * display_height ==> page@.sound(),
{
    prepared_page_from_pixels(
        PagePixels::Luma(shared_bytes(raw)),
        original_width,
        original_height,
        display_width,
        display_height,
        target_long_edge,
        decode_backend,
    )
}

/// Formats whose files hold no metadata that the broad decoder could read, and that only their own
/// decoder reads.
pub open spec fn has_own_decoder(format: Option<DecoderFormat>) -> bool {
    format == Some(DecoderFormat::Psd) || format == Some(DecoderFormat::AiPdf)
}

pub fn requires_specialized_decoder(format: Option<DecoderFormat>) -> (required: bool)
    ensures
        required == has_own_decoder(format),
{
    matches!(format, Some(DecoderFormat::Psd | DecoderFormat::AiPdf))
}

pub fn skips_image_metadata_probe(format: Option<DecoderFormat>) -> (skipped: bool)
    ensures
        skipped == has_own_decoder(format),
{
    matches!(format, Some(DecoderFormat::Psd | DecoderFormat::AiPdf))
}

/// Whether this is read as the color profile for a request.
pub open spec fn is_requested_icc(
    bytes: Seq<u8>,
    options: DecodeOptions,
    icc: Result<Option<Seq<u8>>, Seq<char>>,
) -> bool {
    if options.apply_embedded_icc && !has_own_decoder(crate::decoder_backend::format_of(bytes)) {
        crate::worker::metadata::is_profiled(bytes, icc)
    } else {
        icc == Ok::<Option<Seq<u8>>, Seq<char>>(None)
    }
}

/// The orientation that is read for a request.
pub open spec fn requested_orientation(bytes: Seq<u8>, options: DecodeOptions) -> Option<
    Orientation,
> {
    if options.apply_exif_orientation && !has_own_decoder(
        crate::decoder_backend::format_of(bytes),
    ) {
        crate::worker::metadata::orientation_of(bytes)
    } else {
        None
    }
}

/// Whether this becomes of a file whose metadata does not matter.
pub open spec fn is_plain_draft(
    bytes: Seq<u8>,
    target_long_edge: u32,
    options: DecodeOptions,
    draft: Result<DraftView, Seq<char>>,
) -> bool {
    if options.strategy == DecodeStrategy::Auto || has_own_decoder(
        crate::decoder_backend::format_of(bytes),
    ) {
        crate::worker::selection::is_selected_draft(bytes, target_long_edge, options, draft)
    } else {
        crate::worker::selection::is_broad_draft(bytes, target_long_edge, options, draft)
    }
}

/// Whether a file is decoded to this draft: one with a color profile that is to be applied goes to
/// the broad decoder.
pub open spec fn is_decoded_draft(
    bytes: Seq<u8>,
    target_long_edge: u32,
    options: DecodeOptions,
    icc: Result<Option<Seq<u8>>, Seq<char>>,
    draft: Result<DraftView, Seq<char>>,
) -> bool {
    match icc {
        Ok(Some(profile)) => crate::worker::image_crate::is_image_draft(
            bytes,
            target_long_edge,
            options,
            options.allow_display_upscale,
            Some(profile),
            draft,
        ),
        _ => is_plain_draft(bytes, target_long_edge, options, draft),
    }
}

/// A decoded draft with what the file's metadata adds: a profile that cannot be read leaves a
/// notice, and the page is turned last.
pub open spec fn with_metadata(
    bytes: Seq<u8>,
    options: DecodeOptions,
    icc: Result<Option<Seq<u8>>, Seq<char>>,
    draft: Result<DraftView, Seq<char>>,
) -> Result<DraftView, Seq<char>> {
    match draft {
        Err(message) => Err(message),
        Ok(draft) => Ok(
            DraftView {
                page: PageView {
                    notice: match icc {
                        Err(message) => Some(
                            "ICC profile could not be read; assuming sRGB: "@ + message,
                        ),
                        _ => draft.page.notice,
                    },
                    ..draft.page
                },
                orientation: requested_orientation(bytes, options),
                ..draft
            },
        ),
    }
}

/// Whether this becomes of a file, up to the point where its pixels are resized.
pub open spec fn is_page_draft(
    bytes: Seq<u8>,
    target_long_edge: u32,
    options: DecodeOptions,
    draft: Result<DraftView, Seq<char>>,
) -> bool {
    if crate::decoder_backend::tag_at(bytes, 0, 0x25, 0x21, 0x50, 0x53) {
        draft == Err::<DraftView, Seq<char>>(crate::decoder_backend::postscript_message())
    } else {
        exists|
            icc: Result<Option<Seq<u8>>, Seq<char>>,
            decoded: Result<DraftView, Seq<char>>,
        |
            is_requested_icc(bytes, options, icc) && #[trigger] is_decoded_draft(
                bytes,
                target_long_edge,
                options,
                icc,
                decoded,
            ) && draft == with_metadata(bytes, options, icc, decoded)
    }
}

/// Whether a draft ends like this: with a page that it may be finished as, or with the message why
/// there is none.
pub open spec fn ends_as(
    draft: Result<DraftView, Seq<char>>,
    page: Result<PageView, Seq<char>>,
) -> bool {
    match draft {
        Err(message) => page == Err::<PageView, Seq<char>>(message),
        Ok(draft) => if draft.needs_kernel() {
            page == Err::<PageView, Seq<char>>(crate::worker::draft::kernel_message())
        } else {
            page matches Ok(page) && draft.finishes_as(page)
        },
    }
}

/// Whether preparing a file may end like this.
pub open spec fn may_prepare(
    bytes: Seq<u8>,
    target_long_edge: u32,
    options: DecodeOptions,
    page: Result<PageView, Seq<char>>,
) -> bool {
    exists|draft: Result<DraftView, Seq<char>>|
        #[trigger] is_page_draft(bytes, target_long_edge, options, draft) && ends_as(draft, page)
}

/// What a file's metadata asks for is done only where the request wants it: a page is turned as its
/// file says where that is wanted, and is never recolored where that is not. Every page is shown at
/// the size that fits the target, and the broad decoder reads every file where the strategy asks for
/// it, but for those that only their own decoder reads.
pub proof fn drafts_follow_the_request(
    bytes: Seq<u8>,
    target_long_edge: u32,
    options: DecodeOptions,
    draft: DraftView,
)
    requires
        is_page_draft(bytes, target_long_edge, options, Ok::<DraftView, Seq<char>>(draft)),
    ensures
        ({
            let format = crate::decoder_backend::format_of(bytes);
            let own = format == Some(DecoderFormat::Psd) || format == Some(DecoderFormat::AiPdf);
            &&& !options.apply_exif_orientation || own ==> draft.orientation is None
            &&& options.apply_exif_orientation && !own ==> draft.orientation
                == crate::worker::metadata::orientation_of(bytes)
            &&& !options.apply_embedded_icc || own ==> draft.icc_profile is None
            &&& draft.icc_profile is Some ==> draft.page.decode_backend == DecodeBackend::ImageCrate
            &&& options.strategy == DecodeStrategy::ImageCrate && !own ==> draft.page.decode_backend
                == DecodeBackend::ImageCrate
        }),
        crate::worker::selection::is_fitted(
            (DraftView { orientation: None, ..draft }),
            target_long_edge,
            options,
        ),
{
    let ok = Ok::<DraftView, Seq<char>>(draft);
    let (icc, decoded) = choose|
        icc: Result<Option<Seq<u8>>, Seq<char>>,
        decoded: Result<DraftView, Seq<char>>,
    |
        is_requested_icc(bytes, options, icc) && #[trigger] is_decoded_draft(
            bytes,
            target_long_edge,
            options,
            icc,
            decoded,
        ) && ok == with_metadata(bytes, options, icc, decoded);
    let plain = decoded->Ok_0;
    match icc {
        Ok(Some(profile)) => {
            crate::worker::selection::lemma_broad_draft_is_fitted(
                bytes,
                target_long_edge,
                options,
                Some(profile),
                plain,
            );
        },
        _ => {
            if options.strategy == DecodeStrategy::Auto || has_own_decoder(
                crate::decoder_backend::format_of(bytes),
            ) {
                crate::worker::selection::selected_drafts_are_fitted(
                    bytes,
                    target_long_edge,
                    options,
                    plain,
                );
            } else {
                crate::worker::selection::lemma_broad_draft_is_fitted(
                    bytes,
                    target_long_edge,
                    options,
                    None,
                    plain,
                );
            }
        },
    }
}

pub fn prepare_image_without_metadata(
    bytes: &[u8],
    target_long_edge: u32,
    options: DecodeOptions,
    detected_format: Option<DecoderFormat>,
) -> (draft: Result<PageDraft, String>)
    requires
        detected_format == crate::decoder_backend::format_of(bytes@),
    ensures
        is_plain_draft(
            bytes@,
            target_long_edge,
            options,
            crate::worker::draft::draft_outcome(draft),
        ),
        draft matches Ok(draft) ==> draft@.wf() && draft@.page.target_long_edge
            == crate::worker::api::clamped_target(target_long_edge),
{
    match options.strategy {
        DecodeStrategy::Auto => prepare_image_with_selected_decoder(
            bytes,
            target_long_edge,
            options,
        ),
        DecodeStrategy::ImageCrate => {
            if requires_specialized_decoder(detected_format) {
                prepare_image_with_selected_decoder(bytes, target_long_edge, options)
            } else {
                prepare_image_with_image_crate(bytes, target_long_edge, options)
            }
        },
    }
}

/// Decodes a file up to the point where its pixels are resized: see `is_page_draft`.
pub fn draft_image_with_options(bytes: &[u8], target_long_edge: u32, options: DecodeOptions) -> (draft:
    Result<PageDraft, String>)
    ensures
        is_page_draft(
            bytes@,
            target_long_edge,
            options,
            crate::worker::draft::draft_outcome(draft),
        ),
        draft matches Ok(draft) ==> draft@.wf() && draft@.page.target_long_edge
            == crate::worker::api::clamped_target(target_long_edge),
{
    if let Some(message) = unsupported_message_for_bytes(bytes) {
        return Err(message.to_owned());
    }
    let detected_format = detect_format(bytes);
    let metadata = if skips_image_metadata_probe(detected_format) {
        ImageMetadata::default()
    } else {
        read_image_metadata(bytes, options.apply_embedded_icc, options.apply_exif_orientation)
    };
    let orientation = metadata.orientation;
    let ghost icc = metadata.icc_view();
    assert(is_requested_icc(bytes@, options, icc));
    let (decoded, failure): (Result<PageDraft, String>, Option<String>) =
        match metadata.icc_profile {
        Ok(Some(profile)) => (
            prepare_image_with_image_crate_and_icc(
                bytes,
                target_long_edge,
                options,
                options.allow_display_upscale,
                Some(profile),
            ),
            None,
        ),
        Ok(None) => (
            prepare_image_without_metadata(bytes, target_long_edge, options, detected_format),
            None,
        ),
        Err(error) => (
            prepare_image_without_metadata(bytes, target_long_edge, options, detected_format),
            Some(error),
        ),
    };
    let ghost outcome = crate::worker::draft::draft_outcome(decoded);
    assert(is_decoded_draft(bytes@, target_long_edge, options, icc, outcome));
    match (decoded, failure) {
        (Ok(draft), Some(error)) => {
            let mut notice = "ICC profile could not be read; assuming sRGB: ".to_owned();
            notice.append(error.as_str());
            Ok(draft.with_notice(notice).with_orientation(orientation))
        },
        (Ok(draft), None) => Ok(draft.with_orientation(orientation)),
        (Err(message), _) => Err(message),
    }
}

/// Prepares a file. The bytes of a page make up its size, and are within the budget of one page.
/// Pixels that ask for the two-lobed kernel are refused; a caller with that kernel takes
/// `draft_image_with_options`.
pub fn prepare_image_with_options(
    bytes: &[u8],
    target_long_edge: u32,
    options: DecodeOptions,
) -> (page: Result<PreparedPage, String>)
    ensures
        may_prepare(bytes@, target_long_edge, options, crate::worker::api::outcome(page)),
        page matches Ok(page) ==> page@.sound() && page@.target_long_edge
            == crate::worker::api::clamped_target(target_long_edge),
{
    let drafted = draft_image_with_options(bytes, target_long_edge, options);
    assert(is_page_draft(
        bytes@,
        target_long_edge,
        options,
        crate::worker::draft::draft_outcome(drafted),
    ));
    let draft = drafted?;
    let ghost view = draft@;
    let page = draft.finish();
    proof {
        if page is Ok {
            crate::worker::draft::finished_pages_are_sound(view, page->Ok_0@);
        }
    }
    page
}

/// Prepares a file with the default options but for the strategy.
pub fn prepare_image_with_strategy(
    bytes: &[u8],
    target_long_edge: u32,
    strategy: DecodeStrategy,
) -> (page: Result<PreparedPage, String>)
    ensures
        may_prepare(
            bytes@,
            target_long_edge,
            DecodeOptions { strategy, ..crate::worker::api::default_options() },
            crate::worker::api::outcome(page),
        ),
        page matches Ok(page) ==> page@.sound() && page@.target_long_edge
            == crate::worker::api::clamped_target(target_long_edge),
{
    let options = DecodeOptions { strategy, ..DecodeOptions::default() };
    assert(options == (DecodeOptions { strategy, ..crate::worker::api::default_options() }));
    prepare_image_with_options(bytes, target_long_edge, options)
}

/// Prepares a file with the default options.
pub fn prepare_image(bytes: &[u8], target_long_edge: u32) -> (page: Result<PreparedPage, String>)
    ensures
        may_prepare(
            bytes@,
            target_long_edge,
            crate::worker::api::default_options(),
            crate::worker::api::outcome(page),
        ),
        page matches Ok(page) ==> page@.sound() && page@.target_long_edge
            == crate::worker::api::clamped_target(target_long_edge),
{
    prepare_image_with_strategy(bytes, target_long_edge, DecodeStrategy::Auto)
}

/// What is prepared of a draft whose pixels have their size, and which has no profile and is not
/// turned, is its page.
proof fn lemma_ready_draft_ends_as_its_page(
    page: PageView,
    options: DecodeOptions,
    ended: Result<PageView, Seq<char>>,
)
    requires
        ends_as(Ok(crate::worker::selection::ready_draft(page, options)), ended),
        page.byte_size == page.bytes.len(),
    ensures
        ended == Ok::<PageView, Seq<char>>(page),
{
    let draft = crate::worker::selection::ready_draft(page, options);
    let finished = ended->Ok_0;
    let (scaled, recolored) = choose|
        scaled: Seq<u8>,
        recolored: Option<Result<Seq<u8>, Seq<char>>>,
    |
        draft.scales_to(scaled) && draft.recolors_to(scaled, recolored) && finished
            == #[trigger] draft.finished_with(scaled, recolored);
    assert(recolored is None);
    assert(finished == page);
}

/// What is prepared of a PNG file whose rows settle it.
proof fn lemma_rows_settle_the_page(
    bytes: Seq<u8>,
    target_long_edge: u32,
    options: DecodeOptions,
    page: PageView,
    ended: Result<PageView, Seq<char>>,
)
    requires
        crate::worker::png::has_png_signature(bytes),
        options.strategy == DecodeStrategy::Auto,
        options.decoder_preferences.png == crate::state::DecoderPreference::Default,
        !options.apply_embedded_icc,
        !options.apply_exif_orientation,
        ({
            let rows = crate::worker::png::png_page(
                bytes,
                target_long_edge,
                options.fast_sampled_scaled_decode,
            );
            rows == Ok::<
                crate::worker::png::PngRowView,
                crate::worker::png::PngErrorView,
            >(crate::worker::png::PngRowView::Sampled(page)) || rows == Ok::<
                crate::worker::png::PngRowView,
                crate::worker::png::PngErrorView,
            >(crate::worker::png::PngRowView::ExactOriginal(page))
        }),
        page.byte_size == page.bytes.len(),
        may_prepare(bytes, target_long_edge, options, ended),
    ensures
        ended == Ok::<PageView, Seq<char>>(page),
{
    let draft = choose|draft: Result<DraftView, Seq<char>>|
        #[trigger] is_page_draft(bytes, target_long_edge, options, draft) && ends_as(draft, ended);
    let (icc, decoded) = choose|
        icc: Result<Option<Seq<u8>>, Seq<char>>,
        decoded: Result<DraftView, Seq<char>>,
    |
        is_requested_icc(bytes, options, icc) && #[trigger] is_decoded_draft(
            bytes,
            target_long_edge,
            options,
            icc,
            decoded,
        ) && draft == with_metadata(bytes, options, icc, decoded);
    assert(crate::worker::selection::is_png_draft(bytes, target_long_edge, options, decoded));
    assert(draft == Ok::<DraftView, Seq<char>>(
        crate::worker::selection::ready_draft(page, options),
    ));
    lemma_ready_draft_ends_as_its_page(page, options, ended);
}

/// A gray PNG file is kept at one byte per pixel, and is prepared to what the RGB file of the same
/// picture is prepared to: the same size by the same way, and the same pixels when it is drawn. That
/// holds where the rows are read one by one, for one: where the file is much larger than the target.
pub proof fn gray_files_are_prepared_like_their_rgb_twin(
    gray: Seq<u8>,
    color: Seq<u8>,
    target_long_edge: u32,
    options: DecodeOptions,
    left: Result<PageView, Seq<char>>,
    right: Result<PageView, Seq<char>>,
)
    requires
        crate::worker::png::are_gray_twin_files(gray, color),
        options.strategy == DecodeStrategy::Auto,
        options.decoder_preferences.png == crate::state::DecoderPreference::Default,
        !options.apply_embedded_icc,
        !options.apply_exif_orientation,
        crate::worker::png::png_page(
            gray,
            target_long_edge,
            options.fast_sampled_scaled_decode,
        ) matches Ok(rows) && !(rows is Unsupported),
        may_prepare(gray, target_long_edge, options, left),
        may_prepare(color, target_long_edge, options, right),
    ensures
        left is Ok && right is Ok,
        crate::worker::png::shows_the_same(left->Ok_0, right->Ok_0),
        left->Ok_0.rgba() == right->Ok_0.rgba(),
        options.fast_sampled_scaled_decode && crate::worker::png::rows_are_sampled(
            crate::worker::png::png_head(gray)->Ok_0,
            target_long_edge,
        ) ==> left->Ok_0.decode_backend == DecodeBackend::PngSampled,
{
    let sampling = options.fast_sampled_scaled_decode;
    crate::worker::png::gray_pages_match_their_rgb_twin(gray, color, target_long_edge, sampling);
    let (gray_page, color_page) = match (
        crate::worker::png::png_page(gray, target_long_edge, sampling),
        crate::worker::png::png_page(color, target_long_edge, sampling),
    ) {
        (
            Ok(crate::worker::png::PngRowView::Sampled(gray_page)),
            Ok(crate::worker::png::PngRowView::Sampled(color_page)),
        ) => (gray_page, color_page),
        (
            Ok(crate::worker::png::PngRowView::ExactOriginal(gray_page)),
            Ok(crate::worker::png::PngRowView::ExactOriginal(color_page)),
        ) => (gray_page, color_page),
        _ => arbitrary(),
    };
    lemma_rows_settle_the_page(gray, target_long_edge, options, gray_page, left);
    lemma_rows_settle_the_page(color, target_long_edge, options, color_page, right);
}

/// A large gray PNG file is sampled, by default, and kept at one byte per pixel; the RGB file of the
/// same picture is drawn as the same picture.
pub proof fn large_gray_files_are_sampled_like_their_rgb_twin(
    gray: Seq<u8>,
    color: Seq<u8>,
    target_long_edge: u32,
    left: Result<PageView, Seq<char>>,
    right: Result<PageView, Seq<char>>,
)
    requires
        crate::worker::png::are_gray_twin_files(gray, color),
        crate::worker::png::rows_are_sampled(
            crate::worker::png::png_head(gray)->Ok_0,
            target_long_edge,
        ),
        may_prepare(gray, target_long_edge, crate::worker::api::default_options(), left),
        may_prepare(color, target_long_edge, crate::worker::api::default_options(), right),
    ensures
        left is Ok && right is Ok,
        left->Ok_0.decode_backend == DecodeBackend::PngSampled,
        left->Ok_0.luma && left->Ok_0.byte_size == left->Ok_0.display.0 * left->Ok_0.display.1,
        left->Ok_0.display == right->Ok_0.display,
        left->Ok_0.rgba() == right->Ok_0.rgba(),
{
    crate::worker::png::gray_pages_match_their_rgb_twin(gray, color, target_long_edge, true);
    gray_files_are_prepared_like_their_rgb_twin(
        gray,
        color,
        target_long_edge,
        crate::worker::api::default_options(),
        left,
        right,
    );
}

} // verus!
