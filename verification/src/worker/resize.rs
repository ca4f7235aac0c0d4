//! Resizing pictures on the CPU.
use crate::state::CpuScaleFilter;
use crate::worker::api::expand_luma;
use crate::worker::pixels::PixelLayout;
use fast_image_resize::images::{Image, ImageRef};
use fast_image_resize::ResizeAlg::Convolution;
use fast_image_resize::{FilterType as KernelType, PixelType, ResizeAlg, ResizeOptions, Resizer};
use image::imageops::{resize, FilterType};
use image::{GrayAlphaImage, GrayImage, RgbImage, RgbaImage};
use vstd::prelude::*;

verus! {

/// The filters of the fast resizer.
#[derive(Debug, Clone, Copy, PartialEq, Eq, Structural)]
pub enum FastKernel {
    Nearest,
    Box,
    Bilinear,
    Hamming,
    CatmullRom,
    Mitchell,
    Gaussian,
    Lanczos3,
}

/// The filters of the broad resizer.
#[derive(Debug, Clone, Copy, PartialEq, Eq, Structural)]
pub enum ImageFilter {
    Nearest,
    Triangle,
    CatmullRom,
    Gaussian,
    Lanczos3,
}

/// The fast resizer's own filter for a setting; none where it needs a kernel from outside.
pub open spec fn fast_kernel_of(filter: CpuScaleFilter) -> Option<FastKernel> {
    match filter {
        CpuScaleFilter::Nearest => Some(FastKernel::Nearest),
        CpuScaleFilter::Box => Some(FastKernel::Box),
        CpuScaleFilter::Bilinear => Some(FastKernel::Bilinear),
        CpuScaleFilter::Hamming => Some(FastKernel::Hamming),
        CpuScaleFilter::CatmullRom => Some(FastKernel::CatmullRom),
        CpuScaleFilter::Mitchell => Some(FastKernel::Mitchell),
        CpuScaleFilter::Gaussian => Some(FastKernel::Gaussian),
        CpuScaleFilter::Lanczos2 => None,
        CpuScaleFilter::Lanczos3 => Some(FastKernel::Lanczos3),
    }
}

pub fn fast_kernel(filter: CpuScaleFilter) -> (kernel: Option<FastKernel>)
    ensures
        kernel == fast_kernel_of(filter),
{
    match filter {
        CpuScaleFilter::Nearest => Some(FastKernel::Nearest),
        CpuScaleFilter::Box => Some(FastKernel::Box),
        CpuScaleFilter::Bilinear => Some(FastKernel::Bilinear),
        CpuScaleFilter::Hamming => Some(FastKernel::Hamming),
        CpuScaleFilter::CatmullRom => Some(FastKernel::CatmullRom),
        CpuScaleFilter::Mitchell => Some(FastKernel::Mitchell),
        CpuScaleFilter::Gaussian => Some(FastKernel::Gaussian),
        CpuScaleFilter::Lanczos2 => None,
        CpuScaleFilter::Lanczos3 => Some(FastKernel::Lanczos3),
    }
}

/// The broad resizer's filter for a setting.
pub open spec fn image_filter_of(filter: CpuScaleFilter) -> ImageFilter {
    match filter {
        CpuScaleFilter::Nearest => ImageFilter::Nearest,
        CpuScaleFilter::Box => ImageFilter::Triangle,
        CpuScaleFilter::Bilinear => ImageFilter::Triangle,
        CpuScaleFilter::Hamming => ImageFilter::CatmullRom,
        CpuScaleFilter::CatmullRom => ImageFilter::CatmullRom,
        CpuScaleFilter::Mitchell => ImageFilter::CatmullRom,
        CpuScaleFilter::Gaussian => ImageFilter::Gaussian,
        CpuScaleFilter::Lanczos2 => ImageFilter::Lanczos3,
        CpuScaleFilter::Lanczos3 => ImageFilter::Lanczos3,
    }
}

pub fn image_filter_type(filter: CpuScaleFilter) -> (image_filter: ImageFilter)
    ensures
        image_filter == image_filter_of(filter),
{
    match filter {
        CpuScaleFilter::Nearest => ImageFilter::Nearest,
        CpuScaleFilter::Box | CpuScaleFilter::Bilinear => ImageFilter::Triangle,
        CpuScaleFilter::Hamming | CpuScaleFilter::CatmullRom | CpuScaleFilter::Mitchell => {
            ImageFilter::CatmullRom
        },
        CpuScaleFilter::Gaussian => ImageFilter::Gaussian,
        CpuScaleFilter::Lanczos2 | CpuScaleFilter::Lanczos3 => ImageFilter::Lanczos3,
    }
}

/// The name of a filter of the fast resizer.
pub open spec fn kernel_name(kernel: FastKernel) -> Seq<char> {
    match kernel {
        FastKernel::Nearest => "nearest"@,
        FastKernel::Box => "box"@,
        FastKernel::Bilinear => "bilinear"@,
        FastKernel::Hamming => "hamming"@,
        FastKernel::CatmullRom => "catmull-rom"@,
        FastKernel::Mitchell => "mitchell"@,
        FastKernel::Gaussian => "gaussian"@,
        FastKernel::Lanczos3 => "lanczos3"@,
    }
}

/// The name of a filter of the broad resizer.
pub open spec fn filter_name(filter: ImageFilter) -> Seq<char> {
    match filter {
        ImageFilter::Nearest => "nearest"@,
        ImageFilter::Triangle => "triangle"@,
        ImageFilter::CatmullRom => "catmull-rom"@,
        ImageFilter::Gaussian => "gaussian"@,
        ImageFilter::Lanczos3 => "lanczos3"@,
    }
}

/// Different settings have different names.
pub proof fn settings_are_told_apart_by_name(one: CpuScaleFilter, other: CpuScaleFilter)
    ensures
        one.token_spec() == other.token_spec() ==> one == other,
{
    reveal_strlit("nearest");
    reveal_strlit("box");
    reveal_strlit("bilinear");
    reveal_strlit("hamming");
    reveal_strlit("catmull-rom");
    reveal_strlit("mitchell");
    reveal_strlit("gaussian");
    reveal_strlit("lanczos2");
    reveal_strlit("lanczos3");
    let (a, b) = (one.token_spec(), other.token_spec());
    if a == b {
        assert(a.len() == b.len());
        assert(a[0] == b[0]);
        if a.len() == 8 {
            assert(a[1] == b[1] && a[7] == b[7]);
        }
    }
}

/// A setting is served by the fast resizer's filter of its own name, wherever there is one: that is
/// for every setting but the shorter of the two Lanczos filters. So different settings get different
/// filters, and the nearest pixel is taken only where that was asked for.
pub proof fn settings_use_the_filter_of_their_name(
    filter: CpuScaleFilter,
    other: CpuScaleFilter,
    kernel: FastKernel,
)
    ensures
        fast_kernel_of(filter) == Some(kernel) <==> kernel_name(kernel) == filter.token_spec(),
        fast_kernel_of(filter) is None <==> filter.token_spec() == "lanczos2"@,
        fast_kernel_of(filter) is Some && fast_kernel_of(filter) == fast_kernel_of(other) ==> filter
            == other,
        fast_kernel_of(filter) == Some(FastKernel::Nearest) <==> filter == CpuScaleFilter::Nearest,
{
    settings_are_told_apart_by_name(filter, CpuScaleFilter::Nearest);
    settings_are_told_apart_by_name(filter, CpuScaleFilter::Box);
    settings_are_told_apart_by_name(filter, CpuScaleFilter::Bilinear);
    settings_are_told_apart_by_name(filter, CpuScaleFilter::Hamming);
    settings_are_told_apart_by_name(filter, CpuScaleFilter::CatmullRom);
    settings_are_told_apart_by_name(filter, CpuScaleFilter::Mitchell);
    settings_are_told_apart_by_name(filter, CpuScaleFilter::Gaussian);
    settings_are_told_apart_by_name(filter, CpuScaleFilter::Lanczos2);
    settings_are_told_apart_by_name(filter, CpuScaleFilter::Lanczos3);
}

/// The broad resizer uses its filter of the setting's own name where it has one. Of the others, the
/// box and the bilinear filter become the triangle, Hamming's and Mitchell's become Catmull-Rom's,
/// and the shorter Lanczos filter becomes the longer one: the nearest pixel is never taken unless
/// that was asked for.
pub proof fn settings_use_the_nearest_broad_filter(filter: CpuScaleFilter, broad: ImageFilter)
    ensures
        filter_name(broad) == filter.token_spec() ==> image_filter_of(filter) == broad,
        image_filter_of(filter) == ImageFilter::Nearest <==> filter == CpuScaleFilter::Nearest,
        image_filter_of(filter) == ImageFilter::Triangle <==> filter == CpuScaleFilter::Box
            || filter == CpuScaleFilter::Bilinear,
        image_filter_of(filter) == ImageFilter::Gaussian <==> filter == CpuScaleFilter::Gaussian,
        image_filter_of(filter) == ImageFilter::Lanczos3 <==> filter == CpuScaleFilter::Lanczos2
            || filter == CpuScaleFilter::Lanczos3,
{
    reveal_strlit("triangle");
    reveal_strlit("nearest");
    reveal_strlit("box");
    reveal_strlit("bilinear");
    reveal_strlit("hamming");
    reveal_strlit("catmull-rom");
    reveal_strlit("mitchell");
    reveal_strlit("gaussian");
    reveal_strlit("lanczos2");
    reveal_strlit("lanczos3");
    settings_are_told_apart_by_name(filter, CpuScaleFilter::Nearest);
    settings_are_told_apart_by_name(filter, CpuScaleFilter::CatmullRom);
    settings_are_told_apart_by_name(filter, CpuScaleFilter::Gaussian);
    settings_are_told_apart_by_name(filter, CpuScaleFilter::Lanczos3);
    if filter_name(broad) == filter.token_spec() {
        assert(filter_name(broad)[0] == filter.token_spec()[0]);
    }
}

/// Whether the fast resizer computes a filter's weights by the four basic operations alone, which
/// give the same on every machine. The others use sines and exponentials.
pub open spec fn kernel_is_exact(kernel: FastKernel) -> bool {
    kernel == FastKernel::Nearest || kernel == FastKernel::Box || kernel == FastKernel::Bilinear
        || kernel == FastKernel::CatmullRom || kernel == FastKernel::Mitchell
}

/// Whether the broad resizer does. It uses powers for the cubic filter too.
pub open spec fn filter_is_exact(filter: ImageFilter) -> bool {
    filter == ImageFilter::Nearest || filter == ImageFilter::Triangle
}

/// What `fast_image_resize::Resizer::resize` makes of an RGBA picture with a filter whose weights
/// are exact, the channels resized independently.
pub uninterp spec fn fast_resized(
    rgba: Seq<u8>,
    source: (u32, u32),
    target: (u32, u32),
    kernel: FastKernel,
) -> Seq<u8>;

/// What `image::imageops::resize` makes of a picture with a filter whose weights are exact.
pub uninterp spec fn image_resized(
    layout: PixelLayout,
    samples: Seq<u8>,
    source: (u32, u32),
    target: (u32, u32),
    filter: ImageFilter,
) -> Seq<u8>;

/// Whether `fast_image_resize::Resizer::resize` makes such pixels of an RGBA picture, on one machine
/// or another.
pub uninterp spec fn fast_may_make(
    rgba: Seq<u8>,
    source: (u32, u32),
    target: (u32, u32),
    kernel: FastKernel,
    out: Seq<u8>,
) -> bool;

/// Whether `image::imageops::resize` makes such samples of a picture, on one machine or another.
pub uninterp spec fn image_may_make(
    layout: PixelLayout,
    samples: Seq<u8>,
    source: (u32, u32),
    target: (u32, u32),
    filter: ImageFilter,
    out: Seq<u8>,
) -> bool;

/// Whether these are pixels that the fast resizer makes of an RGBA picture: they have the bytes of
/// their size, are those of the picture where it keeps its size and, where the weights are exact,
/// are the same on every machine.
pub open spec fn is_fast(
    rgba: Seq<u8>,
    source: (u32, u32),
    target: (u32, u32),
    kernel: FastKernel,
    out: Seq<u8>,
) -> bool {
    &&& fast_may_make(rgba, source, target, kernel, out)
    &&& out.len() == target.0 * target.1 * 4
    &&& source == target && rgba.len() == out.len() ==> out == rgba
    &&& kernel_is_exact(kernel) ==> out == fast_resized(rgba, source, target, kernel)
}

/// Whether these are samples that the broad resizer makes of a picture, in the same sense.
pub open spec fn is_broad(
    layout: PixelLayout,
    samples: Seq<u8>,
    source: (u32, u32),
    target: (u32, u32),
    filter: ImageFilter,
    out: Seq<u8>,
) -> bool {
    &&& image_may_make(layout, samples, source, target, filter, out)
    &&& out.len() == target.0 * target.1 * layout.width()
    &&& source == target && samples.len() == out.len() ==> out == samples
    &&& filter_is_exact(filter) ==> out == image_resized(layout, samples, source, target, filter)
}

/// The longest edge that the broad resizer tells the places of pixels along in single precision.
pub const MAX_RESIZED_EDGE: u32 = 1_048_576;

/// Whether a picture's edges are within the longest that is resized.
pub open spec fn edges_fit(size: (u32, u32)) -> bool {
    size.0 <= MAX_RESIZED_EDGE && size.1 <= MAX_RESIZED_EDGE
}

/// Whether a picture's edges are within the longest that is resized.
pub fn can_resize_edges(size: (u32, u32)) -> (fit: bool)
    ensures
        fit == edges_fit(size),
{
    size.0 <= MAX_RESIZED_EDGE && size.1 <= MAX_RESIZED_EDGE
}

/// Whether a picture's edges, before and after, are within the longest that is resized, and its
/// bytes can be counted before its height is brought to the new one, after that, and once its width
/// is too. A picture without pixels is not resized in steps.
pub open spec fn rows_countable(source: (u32, u32), target: (u32, u32)) -> bool {
    &&& edges_fit(source)
    &&& edges_fit(target)
    &&& source.0 * source.1 * 4 <= usize::MAX
    &&& source.1 > 0 ==> source.0 * target.1 * 4 <= usize::MAX
    &&& target.0 * target.1 * 4 <= usize::MAX
}

/// Whether the bytes can also be counted, with those of one more pixel, where the width comes
/// first.
pub open spec fn countable(source: (u32, u32), target: (u32, u32)) -> bool {
    &&& rows_countable(source, target)
    &&& target.0 * source.1 * 4 + 4 <= usize::MAX
}

/// Pictures within the limit on their edges can be resized to any size within it.
pub proof fn lemma_edges_are_countable(source: (u32, u32), target: (u32, u32))
    requires
        source.0 <= crate::worker::api::MAX_IMAGE_DIMENSION,
        source.1 <= crate::worker::api::MAX_IMAGE_DIMENSION,
        target.0 <= crate::worker::api::MAX_IMAGE_DIMENSION,
        target.1 <= crate::worker::api::MAX_IMAGE_DIMENSION,
    ensures
        countable(source, target),
{
    lemma_edges_product(source.0, source.1);
    lemma_edges_product(source.0, target.1);
    lemma_edges_product(target.0, source.1);
    lemma_edges_product(target.0, target.1);
}

proof fn lemma_edges_product(width: u32, height: u32)
    requires
        width <= 20_000,
        height <= 20_000,
    ensures
        width * height * 4 <= 1_600_000_000,
{
    assert(width * height * 4 <= 1_600_000_000) by (nonlinear_arith)
        requires
            width <= 20_000,
            height <= 20_000,
    ;
}

/// `fast_image_resize::Resizer::resize` on RGBA pixels, with the alpha channel treated like the
/// others. There is a result wherever the pixels make up the source picture, and it has the bytes
/// of its size; a picture that keeps its size stays as it is. That the same pixels come out on every
/// machine is said of filters with exact weights only.
#[verifier::external_body]
fn resize_rgba_fast(
    rgba: &[u8],
    source: (u32, u32),
    target: (u32, u32),
    kernel: FastKernel,
) -> (resized: Option<Vec<u8>>)
    requires
        countable(source, target),
    ensures
        match resized {
            Some(out) => {
                &&& fast_may_make(rgba@, source, target, kernel, out@)
                &&& out@.len() == target.0 * target.1 * 4
                &&& source == target && rgba@.len() == out@.len() ==> out@ == rgba@
                &&& kernel_is_exact(kernel) ==> out@ == fast_resized(rgba@, source, target, kernel)
            },
            None => rgba@.len() < source.0 * source.1 * 4,
        },
{
    let view = ImageRef::new(source.0, source.1, rgba, PixelType::U8x4).ok()?;
    let mut out = Image::new(target.0, target.1, PixelType::U8x4);
    let algorithm = match kernel {
        FastKernel::Nearest => ResizeAlg::Nearest,
        FastKernel::Box => Convolution(KernelType::Box),
        FastKernel::Bilinear => Convolution(KernelType::Bilinear),
        FastKernel::Hamming => Convolution(KernelType::Hamming),
        FastKernel::CatmullRom => Convolution(KernelType::CatmullRom),
        FastKernel::Mitchell => Convolution(KernelType::Mitchell),
        FastKernel::Gaussian => Convolution(KernelType::Gaussian),
        FastKernel::Lanczos3 => Convolution(KernelType::Lanczos3),
    };
    let options = ResizeOptions::new().resize_alg(algorithm).use_alpha(false);
    Resizer::new().resize(&view, &mut out, &options).ok()?;
    Some(out.into_vec())
}

/// `image::imageops::resize` on a picture of the given layout, with the filter of the same name.
/// There is a result wherever the samples make up the source picture, and it has the bytes of
/// its size; a picture that keeps its size stays as it is. That the same samples come out on every
/// machine is said of filters with exact weights only.
#[verifier::external_body]
pub(crate) fn resize_samples(
    layout: PixelLayout,
    samples: Vec<u8>,
    source: (u32, u32),
    target: (u32, u32),
    filter: ImageFilter,
) -> (resized: Option<Vec<u8>>)
    requires
        rows_countable(source, target),
    ensures
        match resized {
            Some(out) => {
                &&& image_may_make(layout, samples@, source, target, filter, out@)
                &&& out@.len() == target.0 * target.1 * layout.width()
                &&& source == target && samples@.len() == out@.len() ==> out@ == samples@
                &&& filter_is_exact(filter) ==> out@ == image_resized(
                    layout,
                    samples@,
                    source,
                    target,
                    filter,
                )
            },
            None => samples@.len() < source.0 * source.1 * layout.width(),
        },
{
    let kind = match filter {
        ImageFilter::Nearest => FilterType::Nearest,
        ImageFilter::Triangle => FilterType::Triangle,
        ImageFilter::CatmullRom => FilterType::CatmullRom,
        ImageFilter::Gaussian => FilterType::Gaussian,
        ImageFilter::Lanczos3 => FilterType::Lanczos3,
    };
    let ((w, h), (nw, nh)) = (source, target);
    Some(match layout {
        PixelLayout::Luma => resize(&GrayImage::from_raw(w, h, samples)?, nw, nh, kind).into_raw(),
        PixelLayout::LumaAlpha => resize(&GrayAlphaImage::from_raw(w, h, samples)?, nw, nh, kind).into_raw(),
        PixelLayout::Rgb => resize(&RgbImage::from_raw(w, h, samples)?, nw, nh, kind).into_raw(),
        PixelLayout::Rgba => resize(&RgbaImage::from_raw(w, h, samples)?, nw, nh, kind).into_raw(),
    })
}

/// Whether a resizing with a filter may make these pixels of an RGBA picture.
pub open spec fn is_resized_rgba(
    rgba: Seq<u8>,
    source: (u32, u32),
    target: (u32, u32),
    filter: CpuScaleFilter,
    out: Seq<u8>,
) -> bool {
    fast_kernel_of(filter) matches Some(kernel) && is_fast(rgba, source, target, kernel, out)
}

/// The first channel of RGBA pixels.
pub open spec fn first_channel(rgba: Seq<u8>) -> Seq<u8> {
    Seq::new((rgba.len() as int / 4) as nat, |i: int| rgba[4 * i])
}

/// Whether a resizing with a filter may make these samples of a gray picture: they are one channel
/// of what it makes of the RGBA pixels.
pub open spec fn is_resized_luma(
    luma: Seq<u8>,
    source: (u32, u32),
    target: (u32, u32),
    filter: CpuScaleFilter,
    out: Seq<u8>,
) -> bool {
    exists|rgba: Seq<u8>|
        #[trigger] is_resized_rgba(
            crate::worker::api::expanded_luma(luma),
            source,
            target,
            filter,
            rgba,
        ) && out == first_channel(rgba)
}

/// Resized pixels come from the fast resizer with the filter of the setting's own name, have the
/// bytes of their size, and are the picture's own where it keeps its size.
pub proof fn resized_pixels_come_from_the_filter_of_the_name(
    rgba: Seq<u8>,
    source: (u32, u32),
    target: (u32, u32),
    filter: CpuScaleFilter,
    kernel: FastKernel,
    out: Seq<u8>,
)
    requires
        kernel_name(kernel) == filter.token_spec(),
        is_resized_rgba(rgba, source, target, filter, out),
    ensures
        fast_may_make(rgba, source, target, kernel, out),
        out.len() == 4 * (target.0 * target.1),
        source == target && rgba.len() == out.len() ==> out == rgba,
        kernel == FastKernel::Nearest || kernel == FastKernel::Box || kernel == FastKernel::Bilinear
            || kernel == FastKernel::CatmullRom || kernel == FastKernel::Mitchell ==> out
            == fast_resized(rgba, source, target, kernel),
{
    settings_use_the_filter_of_their_name(filter, filter, kernel);
}

/// Resized gray samples are one channel of what the fast resizer makes, with the filter of the
/// setting's own name, of the picture with its samples as red, green and blue of opaque pixels.
pub proof fn resized_gray_samples_come_from_the_filter_of_the_name(
    luma: Seq<u8>,
    source: (u32, u32),
    target: (u32, u32),
    filter: CpuScaleFilter,
    kernel: FastKernel,
    out: Seq<u8>,
) -> (pixels: (Seq<u8>, Seq<u8>))
    requires
        kernel_name(kernel) == filter.token_spec(),
        is_resized_luma(luma, source, target, filter, out),
    ensures
        pixels.0.len() == 4 * luma.len(),
        forall|i: int|
            0 <= i < luma.len() ==> pixels.0[4 * i] == luma[i] && pixels.0[4 * i + 1] == luma[i]
                && pixels.0[4 * i + 2] == #[trigger] luma[i] && pixels.0[4 * i + 3] == 255,
        fast_may_make(pixels.0, source, target, kernel, pixels.1),
        pixels.1.len() == 4 * (target.0 * target.1),
        out.len() == target.0 * target.1,
        forall|i: int| 0 <= i < out.len() ==> #[trigger] out[i] == pixels.1[4 * i],
{
    let expanded = crate::worker::api::expanded_luma(luma);
    let rgba = choose|rgba: Seq<u8>|
        #[trigger] is_resized_rgba(expanded, source, target, filter, rgba) && out == first_channel(
            rgba,
        );
    resized_pixels_come_from_the_filter_of_the_name(expanded, source, target, filter, kernel, rgba);
    (expanded, rgba)
}

/// Resizes a picture with the broad resizer.
pub fn resize_fallback(
    layout: PixelLayout,
    samples: Vec<u8>,
    source: (u32, u32),
    target: (u32, u32),
    filter: CpuScaleFilter,
) -> (resized: Vec<u8>)
    requires
        rows_countable(source, target),
        samples@.len() == source.0 * source.1 * layout.width(),
    ensures
        is_broad(layout, samples@, source, target, image_filter_of(filter), resized@),
{
    match resize_samples(layout, samples, source, target, image_filter_type(filter)) {
        Some(out) => out,
        None => Vec::new(),
    }
}

/// Resizes RGBA pixels; nothing where the filter needs a kernel from outside.
pub fn resize_rgba(
    rgba: Vec<u8>,
    source: (u32, u32),
    target: (u32, u32),
    filter: CpuScaleFilter,
) -> (resized: Option<Vec<u8>>)
    requires
        countable(source, target),
        rgba@.len() == source.0 * source.1 * 4,
    ensures
        match resized {
            Some(out) => is_resized_rgba(rgba@, source, target, filter, out@),
            None => fast_kernel_of(filter) is None,
        },
{
    match fast_kernel(filter) {
        Some(kernel) => resize_rgba_fast(rgba.as_slice(), source, target, kernel),
        None => None,
    }
}

/// Keeps the first channel of RGBA pixels.
pub fn keep_first_channel(rgba: &[u8]) -> (luma: Vec<u8>)
    ensures
        luma@ == first_channel(rgba@),
{
    let count: usize = rgba.len() / 4;
    let mut luma: Vec<u8> = Vec::new();
    let mut i: usize = 0;
    while i < count
        invariant
            i <= count,
            count == rgba@.len() / 4,
            rgba@.len() <= usize::MAX,
            luma@ == first_channel(rgba@).take(i as int),
        decreases count - i,
    {
        luma.push(rgba[4 * i]);
        i = i + 1;
        assert(luma@ =~= first_channel(rgba@).take(i as int));
    }
    assert(luma@ =~= first_channel(rgba@));
    luma
}

/// Resizes gray samples; nothing where the filter needs a kernel from outside.
pub fn resize_luma(
    luma: Vec<u8>,
    source: (u32, u32),
    target: (u32, u32),
    filter: CpuScaleFilter,
) -> (resized: Option<Vec<u8>>)
    requires
        countable(source, target),
        luma@.len() == source.0 * source.1,
    ensures
        match resized {
            Some(out) => is_resized_luma(luma@, source, target, filter, out@) && out@.len()
                == target.0 * target.1,
            None => fast_kernel_of(filter) is None,
        },
{
    let rgba = expand_luma(luma.as_slice());
    match resize_rgba(rgba, source, target, filter) {
        Some(out) => Some(keep_first_channel(out.as_slice())),
        None => None,
    }
}

/// With a filter whose weights are exact, a gray picture comes out as one channel of its RGBA
/// pixels resized.
pub proof fn gray_resize_keeps_one_rgba_channel(
    luma: Seq<u8>,
    source: (u32, u32),
    target: (u32, u32),
    filter: CpuScaleFilter,
    gray: Seq<u8>,
    rgba: Seq<u8>,
)
    requires
        fast_kernel_of(filter) matches Some(kernel) && kernel_is_exact(kernel),
        is_resized_luma(luma, source, target, filter, gray),
        is_resized_rgba(
            crate::worker::api::expanded_luma(luma),
            source,
            target,
            filter,
            rgba,
        ),
    ensures
        gray == first_channel(rgba),
{
}

/// With a filter whose weights are exact, a picture is always resized to the same pixels.
pub proof fn exact_filters_leave_no_choice(
    rgba: Seq<u8>,
    source: (u32, u32),
    target: (u32, u32),
    filter: CpuScaleFilter,
    left: Seq<u8>,
    right: Seq<u8>,
)
    requires
        fast_kernel_of(filter) matches Some(kernel) && kernel_is_exact(kernel),
        is_resized_rgba(rgba, source, target, filter, left),
        is_resized_rgba(rgba, source, target, filter, right),
    ensures
        left == right,
{
}

} // verus!
