//! The pictures that a scan compares: the page at the size it is to be restored to, and the smaller
//! one that the upscalers start from.
use crate::binary;
use crate::color::ColorImage;
use crate::state::ResizeFilter;
use crate::upscale_quality::visuals::{RgbaPicture, RgbaView};
use crate::worker::pixels::PixelLayout;
use crate::worker::resize;
use crate::worker::resize::{can_resize_edges, ImageFilter};
use crate::worker::webp::reject_frame;
use vstd::prelude::*;

verus! {

/// The resizer's filter for a setting.
pub open spec fn image_filter_of(filter: ResizeFilter) -> ImageFilter {
    match filter {
        ResizeFilter::Bicubic => ImageFilter::CatmullRom,
        ResizeFilter::Lanczos3 => ImageFilter::Lanczos3,
        ResizeFilter::FastTriangle => ImageFilter::Triangle,
        ResizeFilter::Nearest => ImageFilter::Nearest,
    }
}

/// The resizer's filter for a setting.
pub fn image_filter_type(filter: ResizeFilter) -> (image_filter: ImageFilter)
    ensures
        image_filter == image_filter_of(filter),
{
    match filter {
        ResizeFilter::Bicubic => ImageFilter::CatmullRom,
        ResizeFilter::Lanczos3 => ImageFilter::Lanczos3,
        ResizeFilter::FastTriangle => ImageFilter::Triangle,
        ResizeFilter::Nearest => ImageFilter::Nearest,
    }
}

/// Each setting has a filter of its own: the nearest pixel, the triangle, the bicubic filter by
/// Catmull and Rom, and the Lanczos filter over three lobes, as their names say.
pub proof fn settings_have_filters_of_their_own(filter: ResizeFilter, other: ResizeFilter)
    ensures
        image_filter_of(filter) == image_filter_of(other) ==> filter == other,
        resize::filter_name(image_filter_of(filter)) == match filter {
            ResizeFilter::Bicubic => "catmull-rom"@,
            ResizeFilter::Lanczos3 => "lanczos3"@,
            ResizeFilter::FastTriangle => "triangle"@,
            ResizeFilter::Nearest => "nearest"@,
        },
{
}

/// The length of an edge scaled to a target, at least 1.
pub open spec fn scaled_edge(value: int, target: int, longest: int) -> int {
    let scaled = binary::scaled_length(value, target, longest, binary::DOUBLE_HALF as int);
    if scaled < 1 {
        1
    } else {
        scaled
    }
}

/// The longer of two edges.
pub open spec fn longer_edge(width: int, height: int) -> int {
    if width < height {
        height
    } else {
        width
    }
}

/// The size of a page whose longer edge is brought to a target, or why it has none.
pub open spec fn display_outcome(width: int, height: int, target: int, allow_upscale: bool) -> Result<
    (int, int),
    Seq<char>,
> {
    let longest = longer_edge(width, height);
    if width == 0 || height == 0 {
        Err("Image has zero-sized dimensions"@)
    } else if longest <= target && !allow_upscale {
        Ok((width, height))
    } else {
        Ok((scaled_edge(width, target, longest), scaled_edge(height, target, longest)))
    }
}

/// The size of a page keeps its shape: each edge is to the target as that edge of the page is to its
/// longest one, up to one pixel. The longest edge becomes the target exactly. Without upscaling, a
/// page within the target stays as it is and no edge grows. Only a page without pixels has no size.
pub proof fn display_sizes_keep_the_shape(
    width: int,
    height: int,
    longest: int,
    target: int,
    allow_upscale: bool,
)
    requires
        0 < width <= longest,
        0 < height <= longest,
        longest <= u32::MAX,
        width == longest || height == longest,
        0 < target <= u32::MAX,
    ensures
        ({
            let scaled = allow_upscale || longest > target;
            &&& display_outcome(width, height, target, allow_upscale) is Ok
            &&& display_outcome(0, height, target, allow_upscale) is Err
            &&& display_outcome(width, 0, target, allow_upscale) is Err
            &&& display_outcome(width, height, target, allow_upscale) matches Ok(size) ==> {
                &&& !scaled ==> size == (width, height)
                &&& scaled ==> -longest <= size.0 * longest - width * target <= longest
                &&& scaled ==> -longest <= size.1 * longest - height * target <= longest
                &&& scaled && width == longest ==> size.0 == target
                &&& scaled && height == longest ==> size.1 == target
                &&& scaled ==> 1 <= size.0 <= target && 1 <= size.1 <= target
                &&& !allow_upscale ==> size.0 <= width && size.1 <= height
                &&& scaled && 8 * (longest * target) <= 0x10_0000_0000_0000 ==> {
                    &&& size.0 == 1 || -longest <= 2 * (size.0 * longest - width * target)
                        <= longest
                    &&& size.1 == 1 || -longest <= 2 * (size.1 * longest - height * target)
                        <= longest
                }
            }
        }),
{
    if allow_upscale || longest > target {
        lemma_scaled_edge(width, longest, target);
        lemma_scaled_edge(height, longest, target);
    }
}

proof fn lemma_scaled_edge(edge: int, longest: int, target: int)
    requires
        0 < edge <= longest <= u32::MAX,
        0 < target <= u32::MAX,
    ensures
        ({
            let scaled = scaled_edge(edge, target, longest);
            &&& -longest <= scaled * longest - edge * target <= longest
            &&& 1 <= scaled <= target
            &&& edge == longest ==> scaled == target
            &&& target <= longest ==> scaled <= edge
            &&& 8 * (longest * target) <= 0x10_0000_0000_0000 ==> scaled == 1 || -longest <= 2 * (
            scaled * longest - edge * target) <= longest
        }),
{
    let half = binary::DOUBLE_HALF as int;
    binary::lemma_scaled_length(edge, target, longest, half);
    binary::scaled_lengths_are_nearest(edge, target, longest, half);
    if target <= longest {
        binary::lemma_scaled_length_shrinks(edge, target, longest, half);
    }
    let s = binary::scaled_length(edge, target, longest, half);
    assert(edge * target >= 1) by (nonlinear_arith)
        requires
            edge >= 1,
            target >= 1,
    ;
    if s < 1 {
        assert(s * longest == 0) by (nonlinear_arith)
            requires
                s == 0,
        ;
    }
}

/// The size of a page whose longer edge is brought to a target; without upscaling, a page that is
/// small enough keeps its size.
pub fn quality_display_dimensions(
    width: u32,
    height: u32,
    target_long_edge: u32,
    allow_upscale: bool,
) -> (size: Result<(u32, u32), String>)
    ensures
        match size {
            Ok(size) => display_outcome(
                width as int,
                height as int,
                target_long_edge as int,
                allow_upscale,
            ) == Ok::<(int, int), Seq<char>>((size.0 as int, size.1 as int)) && 1 <= size.0
                && 1 <= size.1 && (size.0 <= target_long_edge || size.0 == 1) && (size.1
                <= target_long_edge || size.1 == 1) && (width <= target_long_edge || size.1
                <= height),
            Err(error) => display_outcome(
                width as int,
                height as int,
                target_long_edge as int,
                allow_upscale,
            ) == Err::<(int, int), Seq<char>>(error@),
        },
{
    if width == 0 || height == 0 {
        return Err("Image has zero-sized dimensions".to_owned());
    }
    let longest: u32 = if width < height {
        height
    } else {
        width
    };
    if longest <= target_long_edge && !allow_upscale {
        return Ok((width, height));
    }
    let across: u32 = binary::scale_length(width, target_long_edge, longest);
    let down: u32 = binary::scale_length(height, target_long_edge, longest);
    proof {
        if target_long_edge <= longest {
            binary::lemma_scaled_length_shrinks(
                height as int,
                target_long_edge as int,
                longest as int,
                binary::DOUBLE_HALF as int,
            );
        }
    }
    Ok(
        (
            if across < 1 {
                1
            } else {
                across
            },
            if down < 1 {
                1
            } else {
                down
            },
        ),
    )
}

/// What `image::load_from_memory` reads a page as, with its pixels as eight-bit RGBA, where it is
/// no OpenEXR file.
pub uninterp spec fn loaded_rgba(bytes: Seq<u8>) -> Result<RgbaView, Seq<char>>;

/// Whether `image::load_from_memory` reads a page like this, on one machine or another.
pub uninterp spec fn rgba_may_load(bytes: Seq<u8>, loaded: Result<RgbaView, Seq<char>>) -> bool;

/// Whether a page is loaded like this: always in the same way, unless it is an OpenEXR file, whose
/// blocks are unpacked side by side and may be packed with powers and cosines.
pub open spec fn is_loaded(bytes: Seq<u8>, loaded: Result<RgbaView, Seq<char>>) -> bool {
    &&& rgba_may_load(bytes, loaded)
    &&& !crate::worker::image_crate::is_exr(bytes) ==> loaded == loaded_rgba(bytes)
    &&& loaded matches Ok(picture) ==> picture.wf()
}

/// A loaded page, or why there is none, as plain data.
pub open spec fn loaded_outcome(loaded: Result<RgbaPicture, String>) -> Result<
    RgbaView,
    Seq<char>,
> {
    match loaded {
        Ok(picture) => Ok(picture@),
        Err(message) => Err(message@),
    }
}

/// `image::load_from_memory`, and its picture as eight-bit RGBA: the bytes are those of its size.
/// That the same comes of the same bytes is not said of OpenEXR files.
#[verifier::external_body]
fn load_rgba(bytes: &[u8]) -> (loaded: Result<RgbaPicture, String>)
    requires
        crate::worker::webp::alpha_frame_agrees(bytes@),
    ensures
        rgba_may_load(bytes@, loaded_outcome(loaded)),
        !crate::worker::image_crate::is_exr(bytes@) ==> loaded_outcome(loaded) == loaded_rgba(
            bytes@,
        ),
        loaded matches Ok(picture) ==> picture@.wf(),
{
    let original = image::load_from_memory(bytes).map_err(|error| error.to_string())?.to_rgba8();
    Ok(RgbaPicture { width: original.width(), height: original.height(), pixels: original.into_raw() })
}

/// A picture to draw, as plain data.
#[verifier::ext_equal]
pub struct ColorView {
    pub size: (int, int),
    pub pixels: Seq<u8>,
}

/// A picture to draw, as plain data.
pub open spec fn color_view(image: ColorImage) -> ColorView {
    ColorView { size: (image.size[0] as int, image.size[1] as int), pixels: image.pixels@ }
}

/// RGBA pixels as a picture to draw.
pub open spec fn painted(rgba: Seq<u8>, size: (int, int)) -> ColorView {
    ColorView { size, pixels: crate::color::premultiplied_pixels(rgba) }
}

/// Whether resizing RGBA pixels may give this picture to draw.
pub open spec fn is_drawn(
    pixels: Seq<u8>,
    source: (int, int),
    target: (int, int),
    filter: ResizeFilter,
    image: ColorView,
) -> bool {
    exists|resized: Seq<u8>|
        #[trigger] resize::is_broad(
            PixelLayout::Rgba,
            pixels,
            (source.0 as u32, source.1 as u32),
            (target.0 as u32, target.1 as u32),
            image_filter_of(filter),
            resized,
        ) && image == painted(resized, target)
}

/// Resizes RGBA pixels and makes them into a picture to draw.
fn draw_at(
    pixels: &Vec<u8>,
    source: (u32, u32),
    target: (u32, u32),
    filter: ResizeFilter,
) -> (image: ColorImage)
    requires
        pixels@.len() == source.0 * source.1 * 4,
        resize::rows_countable(source, target),
    ensures
        image.wf(),
        is_drawn(
            pixels@,
            (source.0 as int, source.1 as int),
            (target.0 as int, target.1 as int),
            filter,
            color_view(image),
        ),
{
    assert(pixels.len() == pixels@.len());
    let samples = vstd::slice::slice_to_vec(pixels.as_slice());
    let resized = match resize::resize_samples(
        PixelLayout::Rgba,
        samples,
        source,
        target,
        image_filter_type(filter),
    ) {
        Some(resized) => resized,
        None => Vec::new(),
    };
    let image = ColorImage::from_rgba_unmultiplied(
        [target.0 as usize, target.1 as usize],
        resized.as_slice(),
    );
    assert(color_view(image) =~= painted(resized@, (target.0 as int, target.1 as int)));
    let ghost from = (source.0 as int, source.1 as int);
    let ghost to = (target.0 as int, target.1 as int);
    assert((from.0 as u32, from.1 as u32) == source && (to.0 as u32, to.1 as u32) == target);
    assert(resize::is_broad(
        PixelLayout::Rgba,
        pixels@,
        (from.0 as u32, from.1 as u32),
        (to.0 as u32, to.1 as u32),
        image_filter_of(filter),
        resized@,
    ));
    image
}

/// The message for a page with an edge that is too long to be resized.
pub open spec fn edge_message() -> Seq<char> {
    "Image edges are too long to be resized"@
}

/// The sizes that the two pictures of a page are drawn at: the one that the upscalers start from,
/// and the one that they are held against; or why there is nothing to draw.
pub open spec fn page_pair_sizes(
    size: (int, int),
    source_long_edge: int,
    target_long_edge: int,
) -> Result<((int, int), (int, int)), Seq<char>> {
    match display_outcome(size.0, size.1, target_long_edge, true) {
        Err(error) => Err(error),
        Ok(target) => match display_outcome(size.0, size.1, source_long_edge, false) {
            Err(error) => Err(error),
            Ok(source) => if resize::edges_fit((size.0 as u32, size.1 as u32))
                && resize::edges_fit((target.0 as u32, target.1 as u32)) && resize::edges_fit(
                (source.0 as u32, source.1 as u32),
            ) {
                Ok((source, target))
            } else {
                Err(edge_message())
            },
        },
    }
}

/// Whether these are the two pictures of a loaded page, or the message why there are none.
pub open spec fn is_page_pair(
    original: RgbaView,
    source_long_edge: int,
    target_long_edge: int,
    pair: Result<(ColorView, ColorView), Seq<char>>,
) -> bool {
    let size = (original.width, original.height);
    match page_pair_sizes(size, source_long_edge, target_long_edge) {
        Err(error) => pair == Err::<(ColorView, ColorView), Seq<char>>(error),
        Ok((source, target)) => {
            &&& pair is Ok
            &&& is_drawn(original.pixels, size, source, ResizeFilter::Lanczos3, pair->Ok_0.0)
            &&& is_drawn(original.pixels, size, target, ResizeFilter::Lanczos3, pair->Ok_0.1)
        },
    }
}

/// The two pictures of a page are the page at two sizes: the first within the source edge and never
/// larger than the page, the second with its longest edge brought to the target edge.
pub proof fn page_pairs_show_the_page_at_two_sizes(
    original: RgbaView,
    longest: int,
    source_long_edge: int,
    target_long_edge: int,
    pair: (ColorView, ColorView),
)
    requires
        0 < original.width <= longest <= u32::MAX,
        0 < original.height <= longest,
        original.width == longest || original.height == longest,
        0 < source_long_edge <= u32::MAX,
        0 < target_long_edge <= u32::MAX,
        is_page_pair(
            original,
            source_long_edge,
            target_long_edge,
            Ok::<(ColorView, ColorView), Seq<char>>(pair),
        ),
    ensures
        pair.0.size.0 <= original.width && pair.0.size.1 <= original.height,
        1 <= pair.0.size.0 && 1 <= pair.0.size.1,
        longest <= source_long_edge ==> pair.0.size == (original.width, original.height),
        longest > source_long_edge ==> pair.0.size.0 <= source_long_edge && pair.0.size.1
            <= source_long_edge && (pair.0.size.0 == source_long_edge || pair.0.size.1
            == source_long_edge),
        pair.1.size.0 <= target_long_edge && pair.1.size.1 <= target_long_edge,
        original.width == longest ==> pair.1.size.0 == target_long_edge,
        original.height == longest ==> pair.1.size.1 == target_long_edge,
        pair.0.pixels.len() == 4 * (pair.0.size.0 * pair.0.size.1),
        pair.1.pixels.len() == 4 * (pair.1.size.0 * pair.1.size.1),
{
    let (w, h) = (original.width, original.height);
    display_sizes_keep_the_shape(w, h, longest, source_long_edge, false);
    display_sizes_keep_the_shape(w, h, longest, target_long_edge, true);
}

/// Both pictures of a page are made of the page itself, by the Lanczos filter over three lobes, and
/// have the colors that come out of it, premultiplied.
pub proof fn page_pairs_are_resized_from_the_page(
    original: RgbaView,
    source_long_edge: int,
    target_long_edge: int,
    pair: (ColorView, ColorView),
) -> (resized: (Seq<u8>, Seq<u8>))
    requires
        is_page_pair(
            original,
            source_long_edge,
            target_long_edge,
            Ok::<(ColorView, ColorView), Seq<char>>(pair),
        ),
    ensures
        resize::image_may_make(
            PixelLayout::Rgba,
            original.pixels,
            (original.width as u32, original.height as u32),
            (pair.0.size.0 as u32, pair.0.size.1 as u32),
            ImageFilter::Lanczos3,
            resized.0,
        ),
        resize::image_may_make(
            PixelLayout::Rgba,
            original.pixels,
            (original.width as u32, original.height as u32),
            (pair.1.size.0 as u32, pair.1.size.1 as u32),
            ImageFilter::Lanczos3,
            resized.1,
        ),
        pair.0.pixels == crate::color::premultiplied_pixels(resized.0),
        pair.1.pixels == crate::color::premultiplied_pixels(resized.1),
{
    let size = (original.width, original.height);
    let (source, target) = page_pair_sizes(size, source_long_edge, target_long_edge)->Ok_0;
    let small = choose|resized: Seq<u8>|
        #[trigger] resize::is_broad(
            PixelLayout::Rgba,
            original.pixels,
            (size.0 as u32, size.1 as u32),
            (source.0 as u32, source.1 as u32),
            image_filter_of(ResizeFilter::Lanczos3),
            resized,
        ) && pair.0 == painted(resized, source);
    let large = choose|resized: Seq<u8>|
        #[trigger] resize::is_broad(
            PixelLayout::Rgba,
            original.pixels,
            (size.0 as u32, size.1 as u32),
            (target.0 as u32, target.1 as u32),
            image_filter_of(ResizeFilter::Lanczos3),
            resized,
        ) && pair.1 == painted(resized, target);
    (small, large)
}

/// The two pictures of a page, or why there are none, as plain data.
pub open spec fn pair_outcome(pair: Result<(ColorImage, ColorImage), String>) -> Result<
    (ColorView, ColorView),
    Seq<char>,
> {
    match pair {
        Ok((input, baseline)) => Ok((color_view(input), color_view(baseline))),
        Err(error) => Err(error@),
    }
}

/// Whether these are the two pictures of a file, or the message why there are none.
pub open spec fn is_file_pair(
    bytes: Seq<u8>,
    source_long_edge: int,
    target_long_edge: int,
    pair: Result<(ColorView, ColorView), Seq<char>>,
) -> bool {
    if !crate::worker::webp::alpha_frame_agrees(bytes) {
        pair == Err::<(ColorView, ColorView), Seq<char>>(crate::worker::webp::frame_message())
    } else {
        exists|loaded: Result<RgbaView, Seq<char>>|
            #[trigger] is_loaded(bytes, loaded) && match loaded {
                Err(error) => pair == Err::<(ColorView, ColorView), Seq<char>>(error),
                Ok(original) => is_page_pair(original, source_long_edge, target_long_edge, pair),
            }
    }
}

proof fn lemma_area(width: int, height: int, edge: int)
    requires
        1 <= width,
        1 <= height,
        width <= edge || width == 1,
        height <= edge || height == 1,
        edge * edge * 4 <= usize::MAX,
        0 <= edge <= u32::MAX,
    ensures
        width * height * 4 <= usize::MAX,
{
    assert(width * height <= edge * edge || width * height <= edge || width * height == 1)
        by (nonlinear_arith)
        requires
            1 <= width,
            1 <= height,
            width <= edge || width == 1,
            height <= edge || height == 1,
            0 <= edge,
    ;
    assert(edge <= edge * edge || edge == 0) by (nonlinear_arith)
        requires
            0 <= edge,
    ;
}

/// The steps from a picture to its size for an edge can be counted.
proof fn lemma_rows(size: (u32, u32), fitted: (u32, u32), edge: u32)
    requires
        1 <= size.0,
        1 <= size.1,
        1 <= fitted.0,
        1 <= fitted.1,
        fitted.0 <= edge || fitted.0 == 1,
        fitted.1 <= edge || fitted.1 == 1,
        size.0 <= edge || fitted.1 <= size.1,
        size.0 * size.1 * 4 <= usize::MAX,
        edge * edge * 4 <= usize::MAX,
        resize::edges_fit(size),
        resize::edges_fit(fitted),
    ensures
        resize::rows_countable(size, fitted),
{
    lemma_area(fitted.0 as int, fitted.1 as int, edge as int);
    if size.0 <= edge {
        lemma_area(size.0 as int, fitted.1 as int, edge as int);
    } else {
        assert(size.0 * fitted.1 * 4 <= size.0 * size.1 * 4) by (nonlinear_arith)
            requires
                fitted.1 <= size.1,
        ;
    }
}

/// The two pictures of a loaded page: the one that the upscalers start from, and the one that they
/// are held against.
pub fn draw_page_pair(original: &RgbaPicture, source_long_edge: u32, target_long_edge: u32) -> (pair:
    Result<(ColorImage, ColorImage), String>)
    requires
        original@.wf(),
        source_long_edge * source_long_edge * 4 <= usize::MAX,
        target_long_edge * target_long_edge * 4 <= usize::MAX,
    ensures
        is_page_pair(
            original@,
            source_long_edge as int,
            target_long_edge as int,
            pair_outcome(pair),
        ),
        pair matches Ok(pair) ==> pair.0.wf() && pair.1.wf(),
{
    let target = match quality_display_dimensions(
        original.width,
        original.height,
        target_long_edge,
        true,
    ) {
        Ok(target) => target,
        Err(error) => return Err(error),
    };
    let source = match quality_display_dimensions(
        original.width,
        original.height,
        source_long_edge,
        false,
    ) {
        Ok(source) => source,
        Err(error) => return Err(error),
    };
    let size: (u32, u32) = (original.width, original.height);
    if !can_resize_edges(size) || !can_resize_edges(target) || !can_resize_edges(source) {
        return Err("Image edges are too long to be resized".to_owned());
    }
    assert(original.pixels.len() == original.pixels@.len());
    proof {
        lemma_rows(size, target, target_long_edge);
        lemma_rows(size, source, source_long_edge);
    }
    let baseline = draw_at(&original.pixels, size, target, ResizeFilter::Lanczos3);
    let input = draw_at(&original.pixels, size, source, ResizeFilter::Lanczos3);
    Ok((input, baseline))
}

/// The two pictures of a file: see `draw_page_pair`.
pub fn prepare_page_pair(bytes: &[u8], source_long_edge: u32, target_long_edge: u32) -> (pair: Result<
    (ColorImage, ColorImage),
    String,
>)
    requires
        source_long_edge * source_long_edge * 4 <= usize::MAX,
        target_long_edge * target_long_edge * 4 <= usize::MAX,
    ensures
        is_file_pair(
            bytes@,
            source_long_edge as int,
            target_long_edge as int,
            pair_outcome(pair),
        ),
        pair matches Ok(pair) ==> pair.0.wf() && pair.1.wf(),
{
    reject_frame(bytes)?;
    let loaded = load_rgba(bytes);
    assert(is_loaded(bytes@, loaded_outcome(loaded)));
    match loaded {
        Ok(original) => draw_page_pair(&original, source_long_edge, target_long_edge),
        Err(error) => Err(error),
    }
}

/// A picture resized to the output's size.
pub fn resize_color_image(image: &ColorImage, output_size: [usize; 2], filter: ResizeFilter) -> (resized:
    ColorImage)
    requires
        image.wf(),
        image.size[0] <= u32::MAX && image.size[1] <= u32::MAX,
        output_size[0] <= u32::MAX && output_size[1] <= u32::MAX,
        resize::rows_countable(
            (image.size[0] as u32, image.size[1] as u32),
            (output_size[0] as u32, output_size[1] as u32),
        ),
    ensures
        resized.wf(),
        is_drawn(
            image.pixels@,
            (image.size[0] as int, image.size[1] as int),
            (output_size[0] as int, output_size[1] as int),
            filter,
            color_view(resized),
        ),
{
    draw_at(
        &image.pixels,
        (image.size[0] as u32, image.size[1] as u32),
        (output_size[0] as u32, output_size[1] as u32),
        filter,
    )
}

} // verus!
