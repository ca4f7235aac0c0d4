//! Orientation and color profiles that images carry.
use crate::worker::api::{PagePixels, PageView, PreparedPage, MAX_DECODED_PAGE_BYTES, MAX_IMAGE_DIMENSION};
use crate::worker::jpeg::is_jpeg;
use crate::worker::pixels;
use crate::worker::prepare::shared_bytes;
use image::metadata::Orientation as FileOrientation;
use vstd::prelude::*;

verus! {

/// How a picture is to be turned before it is shown.
#[derive(Debug, Clone, Copy, PartialEq, Eq, Structural)]
pub enum Orientation {
    NoTransforms,
    Rotate90,
    Rotate180,
    Rotate270,
    FlipHorizontal,
    FlipVertical,
    Rotate90FlipH,
    Rotate270FlipH,
}

/// A turn by quarters, then mirrorings of the turned picture.
#[derive(Debug, Clone, Copy, PartialEq, Eq, Structural)]
pub struct OrientationTransform {
    pub rotation_quadrants: u8,
    pub flip_horizontal: bool,
    pub flip_vertical: bool,
}

/// The turn and mirroring that an orientation asks for.
pub open spec fn transform_of(orientation: Orientation) -> OrientationTransform {
    let (rotation_quadrants, flip_horizontal, flip_vertical) = match orientation {
        Orientation::NoTransforms => (0u8, false, false),
        Orientation::Rotate90 => (1u8, false, false),
        Orientation::Rotate180 => (2u8, false, false),
        Orientation::Rotate270 => (3u8, false, false),
        Orientation::FlipHorizontal => (0u8, true, false),
        Orientation::FlipVertical => (0u8, false, true),
        Orientation::Rotate90FlipH => (1u8, true, false),
        Orientation::Rotate270FlipH => (3u8, true, false),
    };
    OrientationTransform { rotation_quadrants, flip_horizontal, flip_vertical }
}

pub fn orientation_transform(orientation: Orientation) -> (transform: OrientationTransform)
    ensures
        transform == transform_of(orientation),
{
    let (rotation_quadrants, flip_horizontal, flip_vertical) = match orientation {
        Orientation::NoTransforms => (0u8, false, false),
        Orientation::Rotate90 => (1u8, false, false),
        Orientation::Rotate180 => (2u8, false, false),
        Orientation::Rotate270 => (3u8, false, false),
        Orientation::FlipHorizontal => (0u8, true, false),
        Orientation::FlipVertical => (0u8, false, true),
        Orientation::Rotate90FlipH => (1u8, true, false),
        Orientation::Rotate270FlipH => (3u8, true, false),
    };
    OrientationTransform { rotation_quadrants, flip_horizontal, flip_vertical }
}

/// Whether an orientation exchanges width and height.
pub open spec fn swaps_dimensions(orientation: Orientation) -> bool {
    orientation == Orientation::Rotate90 || orientation == Orientation::Rotate270 || orientation
        == Orientation::Rotate90FlipH || orientation == Orientation::Rotate270FlipH
}

pub fn orientation_swaps_dimensions(orientation: Orientation) -> (swaps: bool)
    ensures
        swaps == swaps_dimensions(orientation),
{
    matches!(
        orientation,
        Orientation::Rotate90
            | Orientation::Rotate270
            | Orientation::Rotate90FlipH
            | Orientation::Rotate270FlipH
    )
}

/// The size of a picture after a transform.
pub open spec fn turned_size(transform: OrientationTransform, width: int, height: int) -> (
    int,
    int,
) {
    if transform.rotation_quadrants % 2 == 1 {
        (height, width)
    } else {
        (width, height)
    }
}

/// The pixel of a `width` by `height` picture that a transform puts at `x`, `y`.
pub open spec fn source_pixel(
    transform: OrientationTransform,
    width: int,
    height: int,
    x: int,
    y: int,
) -> (int, int) {
    let (out_width, out_height) = turned_size(transform, width, height);
    let turned_x = if transform.flip_horizontal {
        out_width - 1 - x
    } else {
        x
    };
    let turned_y = if transform.flip_vertical {
        out_height - 1 - y
    } else {
        y
    };
    let quarters = transform.rotation_quadrants % 4;
    if quarters == 0 {
        (turned_x, turned_y)
    } else if quarters == 1 {
        (turned_y, height - 1 - turned_x)
    } else if quarters == 2 {
        (width - 1 - turned_x, height - 1 - turned_y)
    } else {
        (width - 1 - turned_y, turned_x)
    }
}

/// A picture of `depth` bytes per pixel after a transform.
pub open spec fn transformed(
    width: int,
    height: int,
    bytes: Seq<u8>,
    depth: int,
    transform: OrientationTransform,
) -> Seq<u8> {
    let (out_width, out_height) = turned_size(transform, width, height);
    pixels::raster(
        out_width,
        out_height,
        depth,
        |x: int, y: int, c: int|
            {
                let (source_x, source_y) = source_pixel(transform, width, height, x, y);
                bytes[pixels::raster_index(width, depth, source_x, source_y, c)]
            },
    )
}

/// A transform takes every pixel from inside the picture.
pub proof fn source_pixel_is_inside(
    transform: OrientationTransform,
    width: int,
    height: int,
    x: int,
    y: int,
)
    requires
        0 <= x < turned_size(transform, width, height).0,
        0 <= y < turned_size(transform, width, height).1,
    ensures
        0 <= source_pixel(transform, width, height, x, y).0 < width,
        0 <= source_pixel(transform, width, height, x, y).1 < height,
{
}

/// How many quarters a transform turns by, where it does not mirror: mirroring both ways is half a
/// turn.
pub open spec fn quarters_turned(transform: OrientationTransform) -> int {
    (transform.rotation_quadrants + if transform.flip_horizontal {
        2int
    } else {
        0
    }) % 4
}

/// Whether a transform mirrors, that is, one way only.
pub open spec fn mirrors(transform: OrientationTransform) -> bool {
    transform.flip_horizontal != transform.flip_vertical
}

/// Whether the second of two transforms undoes the first: turns that make up a whole one do, and a
/// transform that mirrors undoes itself.
pub open spec fn undoes(first: OrientationTransform, second: OrientationTransform) -> bool {
    if mirrors(first) {
        second == first
    } else {
        !mirrors(second) && (quarters_turned(first) + quarters_turned(second)) % 4 == 0
    }
}

/// The size and the bytes of a picture after a transform; nothing where the bytes do not make up
/// the picture, or its pixels cannot be counted.
pub open spec fn turned_picture(
    size: (int, int),
    bytes: Seq<u8>,
    depth: int,
    transform: OrientationTransform,
) -> Option<((int, int), Seq<u8>)> {
    if size.0 * size.1 <= usize::MAX && bytes.len() == size.0 * size.1 * depth {
        Some(
            (
                turned_size(transform, size.0, size.1),
                transformed(size.0, size.1, bytes, depth, transform),
            ),
        )
    } else {
        None
    }
}

/// A picture that is turned and then turned back is what it was: right and then left, twice by half,
/// or mirrored twice in the same way.
pub proof fn undone_turns_give_the_picture_back(
    size: (int, int),
    bytes: Seq<u8>,
    depth: int,
    first: OrientationTransform,
    second: OrientationTransform,
)
    requires
        0 <= size.0,
        0 <= size.1,
        0 <= depth,
        undoes(first, second),
        turned_picture(size, bytes, depth, first) is Some,
    ensures
        ({
            let (turned_size, turned) = turned_picture(size, bytes, depth, first)->0;
            turned_picture(turned_size, turned, depth, second) == Some((size, bytes))
        }),
{
    let (ow, oh) = turned_size(first, size.0, size.1);
    let turned = transformed(size.0, size.1, bytes, depth, first);
    assert(size.0 * size.1 == size.1 * size.0) by (nonlinear_arith);
    if 0 < size.0 && 0 < size.1 && 0 < depth {
        lemma_cancel(size.0, size.1, bytes, depth, first, second, ow, oh);
    } else {
        assert(size.0 * size.1 * depth == 0) by (nonlinear_arith)
            requires
                size.0 == 0 || size.1 == 0 || depth == 0,
        ;
        assert(transformed(ow, oh, turned, depth, second) =~= bytes);
    }
}

/// The orientation that undoes another.
pub open spec fn inverse_orientation(orientation: Orientation) -> Orientation {
    match orientation {
        Orientation::Rotate90 => Orientation::Rotate270,
        Orientation::Rotate270 => Orientation::Rotate90,
        _ => orientation,
    }
}

/// Every orientation has one that undoes it.
pub proof fn orientations_can_be_undone(orientation: Orientation)
    ensures
        undoes(transform_of(orientation), transform_of(inverse_orientation(orientation))),
{
}

proof fn lemma_cancel(
    width: int,
    height: int,
    bytes: Seq<u8>,
    depth: int,
    first: OrientationTransform,
    second: OrientationTransform,
    ow: int,
    oh: int,
)
    requires
        0 < width,
        0 < height,
        0 < depth,
        bytes.len() == width * height * depth,
        (ow, oh) == turned_size(first, width, height),
        (width, height) == turned_size(second, ow, oh),
        forall|x: int, y: int|
            #![trigger source_pixel(second, ow, oh, x, y)]
            0 <= x < width && 0 <= y < height ==> source_pixel(
                first,
                width,
                height,
                source_pixel(second, ow, oh, x, y).0,
                source_pixel(second, ow, oh, x, y).1,
            ) == (x, y),
    ensures
        transformed(ow, oh, transformed(width, height, bytes, depth, first), depth, second)
            == bytes,
{
    let middle = transformed(width, height, bytes, depth, first);
    let back = transformed(ow, oh, middle, depth, second);
    assert forall|i: int| 0 <= i < bytes.len() implies back[i] == bytes[i] by {
        let p = i / depth;
        let c = i % depth;
        let x = p % width;
        let y = p / width;
        lemma_position(width, height, depth, i);
        pixels::lemma_raster_index(width, height, depth, x, y, c);
        let (mx, my) = source_pixel(second, ow, oh, x, y);
        source_pixel_is_inside(second, ow, oh, x, y);
        pixels::lemma_raster_index(ow, oh, depth, mx, my, c);
    }
    assert(back =~= bytes);
}

/// A position in a raster is that of a pixel and a byte.
pub proof fn lemma_position(width: int, height: int, depth: int, i: int)
    requires
        0 < width,
        0 < depth,
        0 <= i < width * height * depth,
    ensures
        0 <= (i / depth) % width < width,
        0 <= (i / depth) / width < height,
        0 <= i % depth < depth,
        pixels::raster_index(width, depth, (i / depth) % width, (i / depth) / width, i % depth)
            == i,
{
    let p = i / depth;
    vstd::arithmetic::div_mod::lemma_fundamental_div_mod(i, depth);
    vstd::arithmetic::div_mod::lemma_fundamental_div_mod(p, width);
    let y = p / width;
    assert(0 <= p < width * height) by (nonlinear_arith)
        requires
            i == depth * p + i % depth,
            0 <= i % depth < depth,
            0 <= i < width * height * depth,
            0 < depth,
    ;
    assert(0 <= y < height) by (nonlinear_arith)
        requires
            p == width * y + p % width,
            0 <= p % width < width,
            0 <= p < width * height,
            0 < width,
    ;
    assert(y * width + p % width == p) by (nonlinear_arith)
        requires
            p == width * y + p % width,
    ;
    assert(p * depth + i % depth == i) by (nonlinear_arith)
        requires
            i == depth * p + i % depth,
    ;
}

/// Turning a gray picture and expanding it to RGBA is expanding it and then turning it.
pub proof fn gray_turns_like_rgba(
    width: int,
    height: int,
    luma: Seq<u8>,
    transform: OrientationTransform,
)
    requires
        0 < width,
        0 < height,
        luma.len() == width * height,
    ensures
        crate::worker::api::expanded_luma(transformed(width, height, luma, 1, transform))
            == transformed(
            width,
            height,
            crate::worker::api::expanded_luma(luma),
            4,
            transform,
        ),
{
    let (ow, oh) = turned_size(transform, width, height);
    let turned = transformed(width, height, luma, 1, transform);
    let left = crate::worker::api::expanded_luma(turned);
    let rgba = crate::worker::api::expanded_luma(luma);
    let right = transformed(width, height, rgba, 4, transform);
    assert(ow * oh * 1 == ow * oh && 4 * (ow * oh) == ow * oh * 4) by (nonlinear_arith);
    assert(width * height == height * width) by (nonlinear_arith);
    assert forall|i: int| 0 <= i < left.len() implies left[i] == right[i] by {
        let p = i / 4;
        let c = i % 4;
        lemma_position(ow, oh, 4, i);
        let x = p % ow;
        let y = p / ow;
        let (sx, sy) = source_pixel(transform, width, height, x, y);
        source_pixel_is_inside(transform, width, height, x, y);
        pixels::lemma_raster_index(width, height, 4, sx, sy, c);
        pixels::lemma_raster_index(width, height, 1, sx, sy, 0);
        pixels::lemma_raster_index(ow, oh, 1, x, y, 0);
        assert((y * ow + x) * 1 + 0 == p) by (nonlinear_arith)
            requires
                pixels::raster_index(ow, 4, x, y, c) == i,
                c == i % 4,
                p == i / 4,
                (pixels::raster_index(ow, 4, x, y, c)) == (y * ow + x) * 4 + c,
        ;
        let q = sy * width + sx;
        assert(pixels::raster_index(width, 1, sx, sy, 0) == q) by (nonlinear_arith)
            requires
                q == sy * width + sx,
                pixels::raster_index(width, 1, sx, sy, 0) == (sy * width + sx) * 1 + 0,
        ;
        assert(turned[p] == luma[q]);
        assert(pixels::raster_index(width, 4, sx, sy, c) == q * 4 + c);
    }
    assert(left =~= right);
}

fn find_source(
    transform: OrientationTransform,
    width: usize,
    height: usize,
    x: usize,
    y: usize,
) -> (source: (usize, usize))
    requires
        x < turned_size(transform, width as int, height as int).0,
        y < turned_size(transform, width as int, height as int).1,
    ensures
        (source.0 as int, source.1 as int) == source_pixel(
            transform,
            width as int,
            height as int,
            x as int,
            y as int,
        ),
        source.0 < width,
        source.1 < height,
{
    let quarters: u8 = transform.rotation_quadrants % 4;
    let (out_width, out_height) = if quarters % 2 == 1 {
        (height, width)
    } else {
        (width, height)
    };
    let turned_x: usize = if transform.flip_horizontal {
        out_width - 1 - x
    } else {
        x
    };
    let turned_y: usize = if transform.flip_vertical {
        out_height - 1 - y
    } else {
        y
    };
    if quarters == 0 {
        (turned_x, turned_y)
    } else if quarters == 1 {
        (turned_y, height - 1 - turned_x)
    } else if quarters == 2 {
        (width - 1 - turned_x, height - 1 - turned_y)
    } else {
        (width - 1 - turned_y, turned_x)
    }
}

/// Turns and mirrors a tightly packed picture; nothing where the bytes do not make it up.
pub fn transform_pixels(
    size: [usize; 2],
    bytes: &[u8],
    bpp: usize,
    transform: OrientationTransform,
) -> (output: Option<([usize; 2], Vec<u8>)>)
    ensures
        match output {
            Some((size, bytes)) => Some(((size@[0] as int, size@[1] as int), bytes@)),
            None => None,
        } == turned_picture(
            (size@[0] as int, size@[1] as int),
            bytes@,
            bpp as int,
            transform,
        ),
{
    let width: usize = size[0];
    let height: usize = size[1];
    let count: usize = match width.checked_mul(height) {
        Some(count) => count,
        None => {
            proof {
                assert(bytes.len() == bytes@.len());
                let a = width * height;
                assert(bpp > 0 ==> a * bpp >= a) by (nonlinear_arith)
                    requires
                        a >= 0,
                        bpp >= 0,
                ;
            }
            return None;
        },
    };
    match count.checked_mul(bpp) {
        Some(total) => {
            if bytes.len() != total {
                return None;
            }
        },
        None => {
            assert(bytes.len() == bytes@.len());
            return None;
        },
    }
    let quarters: u8 = transform.rotation_quadrants % 4;
    let (out_width, out_height) = if quarters % 2 == 1 {
        (height, width)
    } else {
        (width, height)
    };
    let ghost channel = |x: int, y: int, c: int|
        {
            let (source_x, source_y) = source_pixel(transform, width as int, height as int, x, y);
            bytes@[pixels::raster_index(width as int, bpp as int, source_x, source_y, c)]
        };
    let ghost whole = pixels::raster(out_width as int, out_height as int, bpp as int, channel);
    let mut out: Vec<u8> = Vec::new();
    let mut y: usize = 0;
    proof {
        assert((out_width as int, out_height as int) == turned_size(
            transform,
            width as int,
            height as int,
        ));
        assert(whole.take(0) =~= Seq::<u8>::empty());
        assert((0 * out_width) * bpp == 0) by (nonlinear_arith);
    }
    while y < out_height && bpp > 0
        invariant
            y <= out_height,
            width == size@[0],
            height == size@[1],
            quarters == transform.rotation_quadrants % 4,
            (out_width as int, out_height as int) == turned_size(
                transform,
                width as int,
                height as int,
            ),
            bytes@.len() == width * height * bpp,
            bytes.len() == bytes@.len(),
            channel == (|x: int, y: int, c: int|
                {
                    let (source_x, source_y) = source_pixel(
                        transform,
                        width as int,
                        height as int,
                        x,
                        y,
                    );
                    bytes@[pixels::raster_index(width as int, bpp as int, source_x, source_y, c)]
                }),
            whole == pixels::raster(out_width as int, out_height as int, bpp as int, channel),
            out@ == whole.take((y * out_width) * bpp),
        decreases out_height - y,
    {
        let mut x: usize = 0;
        while x < out_width
            invariant
                x <= out_width,
                y < out_height,
                bpp > 0,
                width == size@[0],
                height == size@[1],
                quarters == transform.rotation_quadrants % 4,
                (out_width as int, out_height as int) == turned_size(
                    transform,
                    width as int,
                    height as int,
                ),
                bytes@.len() == width * height * bpp,
                bytes.len() == bytes@.len(),
                channel == (|x: int, y: int, c: int|
                    {
                        let (source_x, source_y) = source_pixel(
                            transform,
                            width as int,
                            height as int,
                            x,
                            y,
                        );
                        bytes@[pixels::raster_index(
                            width as int,
                            bpp as int,
                            source_x,
                            source_y,
                            c,
                        )]
                    }),
                whole == pixels::raster(out_width as int, out_height as int, bpp as int, channel),
                out@ == whole.take((y * out_width + x) * bpp),
            decreases out_width - x,
        {
            let (source_x, source_y) = find_source(transform, width, height, x, y);
            proof {
                pixels::lemma_raster_index(
                    width as int,
                    height as int,
                    bpp as int,
                    source_x as int,
                    source_y as int,
                    bpp - 1,
                );
                pixels::lemma_raster_index(
                    width as int,
                    height as int,
                    bpp as int,
                    source_x as int,
                    source_y as int,
                    0,
                );
                assert(0 <= source_y * width && source_y * width + source_x <= (source_y * width
                    + source_x) * bpp) by (nonlinear_arith)
                    requires
                        source_y >= 0,
                        width >= 0,
                        source_x >= 0,
                        bpp >= 1,
                ;
            }
            let offset: usize = (source_y * width + source_x) * bpp;
            let ghost part = out@;
            let ghost pixel = bytes@.subrange(offset as int, offset + bpp);
            pixels::push_all(&mut out, vstd::slice::slice_subrange(bytes, offset, offset + bpp));
            proof {
                assert forall|c: int| 0 <= c < bpp implies #[trigger] pixel[c] == channel(
                    x as int,
                    y as int,
                    c,
                ) by {
                    assert(pixels::raster_index(
                        width as int,
                        bpp as int,
                        source_x as int,
                        source_y as int,
                        c,
                    ) == offset + c);
                }
                pixels::lemma_raster_extend(
                    out_width as int,
                    out_height as int,
                    bpp as int,
                    channel,
                    x as int,
                    y as int,
                    part,
                    pixel,
                );
            }
            x = x + 1;
        }
        assert((y + 1) * out_width == y * out_width + out_width) by (nonlinear_arith);
        y = y + 1;
    }
    proof {
        if bpp == 0 {
            assert(out_width * out_height * bpp == 0) by (nonlinear_arith)
                requires
                    bpp == 0,
            ;
            assert((y * out_width) * bpp == 0) by (nonlinear_arith)
                requires
                    bpp == 0,
            ;
            assert(out@ =~= whole);
        } else {
            assert((out_height * out_width) * bpp == out_width * out_height * bpp)
                by (nonlinear_arith);
            assert(whole.take(out_width * out_height * bpp) =~= whole);
        }
    }
    Some(([out_width, out_height], out))
}

/// A page turned as its orientation asks for. A page whose bytes do not make up its size stays as
/// it is.
pub open spec fn oriented_page(page: PageView, orientation: Orientation) -> PageView {
    let depth: int = if page.luma {
        1
    } else {
        4
    };
    let transform = transform_of(orientation);
    if orientation == Orientation::NoTransforms || page.bytes.len() != page.display.0
        * page.display.1 * depth {
        page
    } else {
        let bytes = transformed(page.display.0, page.display.1, page.bytes, depth, transform);
        PageView {
            bytes,
            byte_size: bytes.len() as int,
            display: turned_size(transform, page.display.0, page.display.1),
            original: if swaps_dimensions(orientation) {
                (page.original.1, page.original.0)
            } else {
                page.original
            },
            ..page
        }
    }
}

/// Where an orientation shows the pixel at `x`, `y` of a `width` by `height` picture. Turns are
/// clockwise, and the mirroring of a turned picture comes after the turn.
pub open spec fn shown_at(orientation: Orientation, width: int, height: int, x: int, y: int) -> (
    int,
    int,
) {
    match orientation {
        Orientation::NoTransforms => (x, y),
        Orientation::Rotate90 => (height - 1 - y, x),
        Orientation::Rotate180 => (width - 1 - x, height - 1 - y),
        Orientation::Rotate270 => (y, width - 1 - x),
        Orientation::FlipHorizontal => (width - 1 - x, y),
        Orientation::FlipVertical => (x, height - 1 - y),
        Orientation::Rotate90FlipH => (y, x),
        Orientation::Rotate270FlipH => (height - 1 - y, width - 1 - x),
    }
}

/// A turned page shows every pixel of the page at the place that its orientation names. A quarter
/// turn exchanges width and height, of the page and of its original; the rest of the page stays.
pub proof fn turned_pages_show_every_pixel_in_its_place(
    page: PageView,
    orientation: Orientation,
    x: int,
    y: int,
    c: int,
)
    requires
        page.bytes.len() == page.display.0 * page.display.1 * page.depth(),
        0 <= x < page.display.0,
        0 <= y < page.display.1,
        0 <= c < page.depth(),
    ensures
        ({
            let turned = oriented_page(page, orientation);
            let (width, height) = page.display;
            let (to_x, to_y) = shown_at(orientation, width, height, x, y);
            let depth = page.depth();
            let sideways = orientation == Orientation::Rotate90 || orientation
                == Orientation::Rotate270 || orientation == Orientation::Rotate90FlipH
                || orientation == Orientation::Rotate270FlipH;
            &&& sideways ==> turned.display == (height, width)
            &&& !sideways ==> turned.display == (width, height)
            &&& sideways ==> turned.original == (page.original.1, page.original.0)
            &&& !sideways ==> turned.original == page.original
            &&& turned.luma == page.luma && turned.notice == page.notice
            &&& turned.target_long_edge == page.target_long_edge && turned.decode_backend
                == page.decode_backend
            &&& 0 <= to_x < turned.display.0 && 0 <= to_y < turned.display.1
            &&& 0 <= (to_y * turned.display.0 + to_x) * depth + c < turned.bytes.len()
            &&& turned.bytes[(to_y * turned.display.0 + to_x) * depth + c] == page.bytes[(y * width
                + x) * depth + c]
        }),
{
    let (w, h) = page.display;
    let transform = transform_of(orientation);
    let (to_x, to_y) = shown_at(orientation, w, h, x, y);
    let (out_w, out_h) = turned_size(transform, w, h);
    let depth = page.depth();
    let channel = |x: int, y: int, c: int|
        {
            let (source_x, source_y) = source_pixel(transform, w, h, x, y);
            page.bytes[pixels::raster_index(w, depth, source_x, source_y, c)]
        };
    assert(transformed(w, h, page.bytes, depth, transform) =~= pixels::raster(
        out_w,
        out_h,
        depth,
        channel,
    ));
    assert(source_pixel(transform, w, h, to_x, to_y) == (x, y));
    pixels::lemma_raster_at(out_w, out_h, depth, channel, to_x, to_y, c);
    pixels::lemma_raster_index(out_w, out_h, depth, to_x, to_y, c);
    pixels::lemma_raster_index(w, h, depth, x, y, c);
}

/// A page whose bytes make up its size still has such bytes when it is turned, and as many.
pub proof fn turned_pages_stay_sound(page: PageView, orientation: Orientation)
    requires
        page.sound(),
        0 <= page.display.0,
        0 <= page.display.1,
    ensures
        oriented_page(page, orientation).sound(),
        oriented_page(page, orientation).bytes.len() == page.bytes.len(),
{
    let (w, h) = page.display;
    assert(w * h == h * w && w * h >= 0) by (nonlinear_arith)
        requires
            0 <= w,
            0 <= h,
    ;
    let size = turned_size(transform_of(orientation), w, h);
    let depth = page.depth();
    assert(size.0 * size.1 == w * h);
    assert(size.0 * size.1 * depth == w * h * depth);
}

/// Turns a page as its orientation asks for.
pub fn apply_exif_orientation_to_page(page: PreparedPage, orientation: Orientation) -> (turned:
    PreparedPage)
    ensures
        turned@ == oriented_page(page@, orientation),
{
    if matches!(orientation, Orientation::NoTransforms) {
        return page;
    }
    let transform = orientation_transform(orientation);
    let size = [page.display_width, page.display_height];
    let bpp: usize = page.pixels.bytes_per_pixel();
    let slice = page.pixels.as_slice();
    proof {
        assert(slice.len() == slice@.len());
        let area = size@[0] * size@[1];
        assert(area * bpp >= area) by (nonlinear_arith)
            requires
                area >= 0,
                bpp >= 1,
        ;
    }
    match transform_pixels(size, slice, bpp, transform) {
        Some((out_size, out)) => {
            let byte_size: usize = out.len();
            let bytes = shared_bytes(out);
            let pixels = if page.pixels.is_luma() {
                PagePixels::Luma(bytes)
            } else {
                PagePixels::Rgba(bytes)
            };
            let swaps = orientation_swaps_dimensions(orientation);
            let original_width: usize = if swaps {
                page.original_height
            } else {
                page.original_width
            };
            let original_height: usize = if swaps {
                page.original_width
            } else {
                page.original_height
            };
            PreparedPage {
                pixels,
                original_width,
                original_height,
                display_width: out_size[0],
                display_height: out_size[1],
                byte_size,
                target_long_edge: page.target_long_edge,
                decode_backend: page.decode_backend,
                notice: page.notice,
            }
        },
        None => page,
    }
}

/// The orientation that an Exif value stands for.
pub open spec fn exif_orientation(value: u32) -> Option<Orientation> {
    if value == 1 {
        Some(Orientation::NoTransforms)
    } else if value == 2 {
        Some(Orientation::FlipHorizontal)
    } else if value == 3 {
        Some(Orientation::Rotate180)
    } else if value == 4 {
        Some(Orientation::FlipVertical)
    } else if value == 5 {
        Some(Orientation::Rotate90FlipH)
    } else if value == 6 {
        Some(Orientation::Rotate90)
    } else if value == 7 {
        Some(Orientation::Rotate270FlipH)
    } else if value == 8 {
        Some(Orientation::Rotate270)
    } else {
        None
    }
}

/// An Exif value says which sides of the shown picture the stored rows and columns begin at. Values
/// up to 4 keep rows as rows, those from 5 on turn them into columns; the first stored pixel is shown
/// at the top left for 1 and 5, the top right for 2 and 6, the bottom right for 3 and 7, and the
/// bottom left for 4 and 8. Other values stand for nothing.
pub proof fn exif_values_say_where_the_first_row_begins(
    value: u32,
    orientation: Orientation,
    width: int,
    height: int,
    x: int,
    y: int,
)
    requires
        exif_orientation(value) == Some(orientation),
    ensures
        1 <= value <= 8,
        ({
            let (to_x, to_y) = shown_at(orientation, width, height, x, y);
            let (across, down, wide, high) = if value <= 4 {
                (x, y, width, height)
            } else {
                (y, x, height, width)
            };
            &&& value == 1 || value == 5 ==> to_x == across && to_y == down
            &&& value == 2 || value == 6 ==> to_x == wide - 1 - across && to_y == down
            &&& value == 3 || value == 7 ==> to_x == wide - 1 - across && to_y == high - 1 - down
            &&& value == 4 || value == 8 ==> to_x == across && to_y == high - 1 - down
        }),
{
}

/// Every Exif value from 1 to 8 stands for an orientation of its own.
pub proof fn exif_values_are_told_apart(value: u32, other: u32)
    ensures
        exif_orientation(value) is Some <==> 1 <= value <= 8,
        exif_orientation(value) is Some && exif_orientation(value) == exif_orientation(other)
            ==> value == other,
{
}

pub fn orientation_from_exif(value: u32) -> (orientation: Option<Orientation>)
    ensures
        orientation == exif_orientation(value),
{
    match value {
        1 => Some(Orientation::NoTransforms),
        2 => Some(Orientation::FlipHorizontal),
        3 => Some(Orientation::Rotate180),
        4 => Some(Orientation::FlipVertical),
        5 => Some(Orientation::Rotate90FlipH),
        6 => Some(Orientation::Rotate90),
        7 => Some(Orientation::Rotate270FlipH),
        8 => Some(Orientation::Rotate270),
        _ => None,
    }
}

/// What `image::ImageDecoder::icc_profile` returns for a file, with limits on its edges and on
/// what the decoder may allocate. The message is that for a file that is no OpenEXR file.
pub uninterp spec fn image_icc_profile(bytes: Seq<u8>, max_edge: u32, max_alloc: u64) -> Result<
    Option<Seq<u8>>,
    Seq<char>,
>;

/// Whether `image::ImageDecoder::icc_profile` returns this for a file, in one run or another.
pub uninterp spec fn image_may_profile(
    bytes: Seq<u8>,
    max_edge: u32,
    max_alloc: u64,
    profile: Result<Option<Seq<u8>>, Seq<char>>,
) -> bool;

/// Whether this is read as the color profile of a file: always the same, but for the message on an
/// OpenEXR file, whose attributes are gone over in no settled order.
pub open spec fn is_profiled(bytes: Seq<u8>, profile: Result<Option<Seq<u8>>, Seq<char>>) -> bool {
    let named = image_icc_profile(bytes, MAX_IMAGE_DIMENSION, MAX_DECODED_PAGE_BYTES as u64);
    &&& image_may_profile(bytes, MAX_IMAGE_DIMENSION, MAX_DECODED_PAGE_BYTES as u64, profile)
    &&& profile is Ok || !crate::worker::image_crate::is_exr(bytes) ==> profile == named
    &&& profile is Err ==> named is Err
}

/// A color profile, or why it could not be read, as plain data.
pub open spec fn profile_outcome(profile: Result<Option<Vec<u8>>, String>) -> Result<
    Option<Seq<u8>>,
    Seq<char>,
> {
    match profile {
        Ok(Some(profile)) => Ok(Some(profile@)),
        Ok(None) => Ok(None),
        Err(message) => Err(message@),
    }
}

/// What `image::ImageDecoder::orientation` returns for a file; nothing where it fails.
pub uninterp spec fn image_orientation(bytes: Seq<u8>, max_edge: u32, max_alloc: u64) -> Option<
    Orientation,
>;

/// The first unsigned value of the primary image's orientation field, as `exif::Reader` finds it
/// in a file.
pub uninterp spec fn exif_field(bytes: Seq<u8>) -> Option<u32>;

/// `image::ImageReader` with a guessed format, then `ImageDecoder::icc_profile`. That the same
/// message comes of the same bytes is not said of OpenEXR files.
#[verifier::external_body]
fn read_icc_profile(bytes: &[u8], max_edge: u32, max_alloc: u64) -> (profile: Result<
    Option<Vec<u8>>,
    String,
>)
    ensures
        image_may_profile(bytes@, max_edge, max_alloc, profile_outcome(profile)),
        profile is Ok || !crate::worker::image_crate::is_exr(bytes@) ==> profile_outcome(profile)
            == image_icc_profile(bytes@, max_edge, max_alloc),
        profile is Err ==> image_icc_profile(bytes@, max_edge, max_alloc) is Err,
{
    let mut reader = image::ImageReader::new(std::io::Cursor::new(bytes))
        .with_guessed_format().map_err(|error| error.to_string())?;
    let mut limits = image::Limits::default();
    limits.max_image_width = Some(max_edge);
    limits.max_image_height = Some(max_edge);
    limits.max_alloc = Some(max_alloc);
    reader.limits(limits);
    let mut decoder = reader.into_decoder().map_err(|error| error.to_string())?;
    image::ImageDecoder::icc_profile(&mut decoder).map_err(|error| error.to_string())
}

/// `image::ImageReader` with a guessed format, then `ImageDecoder::orientation`.
#[verifier::external_body]
fn read_orientation(bytes: &[u8], max_edge: u32, max_alloc: u64) -> (orientation: Option<
    Orientation,
>)
    ensures
        orientation == image_orientation(bytes@, max_edge, max_alloc),
{
    let mut reader = image::ImageReader::new(std::io::Cursor::new(bytes)).with_guessed_format().ok()?;
    let mut limits = image::Limits::default();
    (limits.max_image_width, limits.max_image_height, limits.max_alloc) = (Some(max_edge), Some(max_edge), Some(max_alloc));
    reader.limits(limits);
    let found = image::ImageDecoder::orientation(&mut reader.into_decoder().ok()?).ok()?;
    Some(match found {
        FileOrientation::NoTransforms => Orientation::NoTransforms,
        FileOrientation::Rotate90 => Orientation::Rotate90,
        FileOrientation::Rotate180 => Orientation::Rotate180,
        FileOrientation::Rotate270 => Orientation::Rotate270,
        FileOrientation::FlipHorizontal => Orientation::FlipHorizontal,
        FileOrientation::FlipVertical => Orientation::FlipVertical,
        FileOrientation::Rotate90FlipH => Orientation::Rotate90FlipH,
        FileOrientation::Rotate270FlipH => Orientation::Rotate270FlipH,
    })
}

/// `exif::Reader::read_from_container`, then the primary image's orientation field.
#[verifier::external_body]
fn read_exif_field(bytes: &[u8]) -> (value: Option<u32>)
    ensures
        value == exif_field(bytes@),
{
    let mut cursor = std::io::Cursor::new(bytes);
    let found = exif::Reader::new().read_from_container(&mut cursor).ok()?;
    let field = found.get_field(exif::Tag::Orientation, exif::In::PRIMARY)?;
    field.value.get_uint(0)
}

/// Whether `lcms2::Transform::transform_in_place` from an embedded profile to sRGB makes this of RGBA
/// pixels, or fails with this message, on one machine or another.
pub uninterp spec fn srgb_may_make(
    rgba: Seq<u8>,
    profile: Seq<u8>,
    recolored: Result<Seq<u8>, Seq<char>>,
) -> bool;

/// Recolored pixels, or why there are none, as plain data.
pub open spec fn recolored_outcome(result: Result<(), String>, rgba: Seq<u8>) -> Result<
    Seq<u8>,
    Seq<char>,
> {
    match result {
        Ok(_) => Ok(rgba),
        Err(message) => Err(message@),
    }
}

/// `lcms2::Transform::transform_in_place` from an embedded profile to sRGB, perceptual intent: the
/// bytes stay as many as they were. Where the profile cannot be used they stay as they are. That
/// the same colors come out on every machine is not said: the tone curves use powers, whose last
/// digits are the machine's.
#[verifier::external_body]
fn transform_to_srgb(rgba: &mut Vec<u8>, profile: &[u8]) -> (result: Result<(), String>)
    requires
        old(rgba)@.len() % 4 == 0,
    ensures
        srgb_may_make(old(rgba)@, profile@, recolored_outcome(result, final(rgba)@)),
        match result {
            Ok(_) => final(rgba)@.len() == old(rgba)@.len(),
            Err(_) => final(rgba)@ == old(rgba)@,
        },
{
    let source = lcms2::Profile::new_icc(profile).map_err(|error| error.to_string())?;
    let srgb = lcms2::Profile::new_srgb();
    let format = lcms2::PixelFormat::RGBA_8;
    let transform = lcms2::Transform::<u8, u8>::new(&source, format, &srgb, format, lcms2::Intent::Perceptual)
        .map_err(|error| error.to_string())?;
    transform.transform_in_place(rgba.as_mut_slice());
    Ok(())
}

/// Whether bringing RGBA pixels from an embedded profile to sRGB may end like this: as the color
/// transform ends, with as many bytes or with a message. Without pixels there is nothing to do.
pub open spec fn may_recolor(
    rgba: Seq<u8>,
    profile: Seq<u8>,
    recolored: Result<Seq<u8>, Seq<char>>,
) -> bool {
    if rgba.len() == 0 {
        recolored == Ok::<Seq<u8>, Seq<char>>(rgba)
    } else {
        &&& srgb_may_make(rgba, profile, recolored)
        &&& recolored matches Ok(bytes) ==> bytes.len() == rgba.len()
    }
}

/// Brings RGBA pixels from an embedded profile to sRGB. Where that fails they stay as they are.
pub fn apply_embedded_icc_to_rgba(raw: &mut Vec<u8>, profile: &[u8]) -> (result: Result<(), String>)
    requires
        old(raw)@.len() % 4 == 0,
    ensures
        may_recolor(old(raw)@, profile@, recolored_outcome(result, final(raw)@)),
        result is Err ==> final(raw)@ == old(raw)@,
{
    if raw.len() == 0 {
        return Ok(());
    }
    transform_to_srgb(raw, profile)
}

/// What an image says of its colors and its orientation.
pub struct ImageMetadata {
    pub icc_profile: Result<Option<Vec<u8>>, String>,
    pub orientation: Option<Orientation>,
}

impl Default for ImageMetadata {
    fn default() -> (metadata: Self)
        ensures
            metadata.icc_view() == Ok::<Option<Seq<u8>>, Seq<char>>(None),
            metadata.orientation is None,
    {
        ImageMetadata { icc_profile: Ok(None), orientation: None }
    }
}

impl ImageMetadata {
    /// The profile as plain data.
    pub open spec fn icc_view(self) -> Result<Option<Seq<u8>>, Seq<char>> {
        profile_outcome(self.icc_profile)
    }
}

/// An orientation that asks for something.
pub open spec fn effective(orientation: Option<Orientation>) -> Option<Orientation> {
    if orientation == Some(Orientation::NoTransforms) {
        None
    } else {
        orientation
    }
}

/// The orientation of an image: what its decoder says or else, for a JPEG file, its Exif field.
pub open spec fn orientation_of(bytes: Seq<u8>) -> Option<Orientation> {
    let decoded = effective(
        image_orientation(bytes, MAX_IMAGE_DIMENSION, MAX_DECODED_PAGE_BYTES as u64),
    );
    if decoded is None && crate::worker::jpeg::has_jpeg_signature(bytes) {
        match exif_field(bytes) {
            Some(value) => effective(exif_orientation(value)),
            None => None,
        }
    } else {
        decoded
    }
}

/// An image is turned as its decoder says. Where that says nothing, or to leave the image as it is, a
/// JPEG file is turned as its Exif field says, and any other file is not turned.
pub proof fn decoders_are_asked_before_the_exif_field(bytes: Seq<u8>, value: u32)
    ensures
        ({
            let decoded = image_orientation(bytes, 20_000, 268_435_456);
            let silent = decoded is None || decoded == Some(Orientation::NoTransforms);
            &&& !silent ==> orientation_of(bytes) == decoded
            &&& silent && !crate::worker::jpeg::has_jpeg_signature(bytes) ==> orientation_of(
                bytes,
            ) is None
            &&& silent && crate::worker::jpeg::has_jpeg_signature(bytes) && exif_field(bytes)
                == Some(value) && 2 <= value <= 8 ==> orientation_of(bytes) == exif_orientation(value)
            &&& silent && exif_field(bytes) is None ==> orientation_of(bytes) is None
            &&& orientation_of(bytes) != Some(Orientation::NoTransforms)
        }),
{
}

fn drop_identity(orientation: Option<Orientation>) -> (kept: Option<Orientation>)
    ensures
        kept == effective(orientation),
{
    match orientation {
        Some(Orientation::NoTransforms) => None,
        other => other,
    }
}

/// Reads what is asked for of an image's metadata.
pub fn read_image_metadata(bytes: &[u8], need_icc: bool, need_orientation: bool) -> (metadata:
    ImageMetadata)
    ensures
        if need_icc {
            is_profiled(bytes@, metadata.icc_view())
        } else {
            metadata.icc_view() == Ok::<Option<Seq<u8>>, Seq<char>>(None)
        },
        metadata.orientation == if need_orientation {
            orientation_of(bytes@)
        } else {
            None
        },
{
    let icc_profile = if need_icc {
        read_icc_profile(bytes, MAX_IMAGE_DIMENSION, MAX_DECODED_PAGE_BYTES as u64)
    } else {
        Ok(None)
    };
    let orientation = if need_orientation {
        let decoded = drop_identity(
            read_orientation(bytes, MAX_IMAGE_DIMENSION, MAX_DECODED_PAGE_BYTES as u64),
        );
        if decoded.is_none() && is_jpeg(bytes) {
            match read_exif_field(bytes) {
                Some(value) => drop_identity(orientation_from_exif(value)),
                None => None,
            }
        } else {
            decoded
        }
    } else {
        None
    };
    ImageMetadata { icc_profile, orientation }
}

} // verus!
