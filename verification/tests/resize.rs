//! Resizing pictures on the CPU.
use image::{GrayImage, Luma, Rgba, RgbaImage};
use suisuiview::state::CpuScaleFilter;
use suisuiview::worker::image_crate::{should_resize_before_rgba, PictureKind};
use suisuiview::worker::pixels::PixelLayout;
use suisuiview::worker::resize::{
    fast_kernel, image_filter_type, resize_fallback, resize_luma, resize_rgba, FastKernel,
    ImageFilter,
};

#[test]
fn cpu_scale_filters_map_to_image_filters() {
    assert_eq!(
        image_filter_type(CpuScaleFilter::CatmullRom),
        ImageFilter::CatmullRom
    );
    assert_eq!(
        image_filter_type(CpuScaleFilter::Lanczos3),
        ImageFilter::Lanczos3
    );
    assert_eq!(
        image_filter_type(CpuScaleFilter::Bilinear),
        ImageFilter::Triangle
    );
    assert_eq!(
        image_filter_type(CpuScaleFilter::Nearest),
        ImageFilter::Nearest
    );
}

#[test]
fn cpu_scale_filters_map_to_fast_resize_algorithms() {
    assert_eq!(
        fast_kernel(CpuScaleFilter::CatmullRom),
        Some(FastKernel::CatmullRom)
    );
    assert_eq!(
        fast_kernel(CpuScaleFilter::Lanczos3),
        Some(FastKernel::Lanczos3)
    );
    assert_eq!(
        fast_kernel(CpuScaleFilter::Bilinear),
        Some(FastKernel::Bilinear)
    );
    assert_eq!(
        fast_kernel(CpuScaleFilter::Nearest),
        Some(FastKernel::Nearest)
    );
}

#[test]
fn fast_rgba_resize_returns_requested_size() {
    let mut image = RgbaImage::new(64, 32);
    for (x, y, pixel) in image.enumerate_pixels_mut() {
        *pixel = Rgba([x as u8, y as u8, 128, 255]);
    }

    let resized = resize_rgba(
        image.into_raw(),
        (64, 32),
        (16, 8),
        CpuScaleFilter::Hamming,
    )
    .unwrap();

    assert_eq!(resized.len(), 16 * 8 * 4);
}

#[test]
fn fast_luma_resize_returns_requested_size() {
    let mut image = GrayImage::new(64, 32);
    for (x, _y, pixel) in image.enumerate_pixels_mut() {
        *pixel = Luma([x as u8]);
    }

    let resized = resize_luma(
        image.into_raw(),
        (64, 32),
        (16, 8),
        CpuScaleFilter::Hamming,
    )
    .unwrap();

    assert_eq!(resized.len(), 16 * 8);
}

#[test]
fn luma_resize_matches_rgba_red_channel() {
    let width = 40u32;
    let height = 24u32;
    let mut luma = GrayImage::new(width, height);
    for (x, y, pixel) in luma.enumerate_pixels_mut() {
        *pixel = Luma([((x * 7 + y * 13) % 256) as u8]);
    }
    let mut rgba = RgbaImage::new(width, height);
    for (x, y, pixel) in rgba.enumerate_pixels_mut() {
        let gray = luma.get_pixel(x, y)[0];
        *pixel = Rgba([gray, gray, gray, 255]);
    }

    for filter in [
        CpuScaleFilter::Hamming,
        CpuScaleFilter::CatmullRom,
        CpuScaleFilter::Bilinear,
        CpuScaleFilter::Lanczos3,
        CpuScaleFilter::Nearest,
    ] {
        for (dst_w, dst_h) in [(20, 12), (13, 9), (64, 40)] {
            let luma_resized = resize_luma(
                luma.as_raw().clone(),
                (width, height),
                (dst_w, dst_h),
                filter,
            )
            .unwrap();
            let rgba_resized = resize_rgba(
                rgba.as_raw().clone(),
                (width, height),
                (dst_w, dst_h),
                filter,
            )
            .unwrap();
            let expected_red: Vec<u8> = rgba_resized.chunks_exact(4).map(|px| px[0]).collect();
            assert_eq!(
                luma_resized, expected_red,
                "filter {filter:?} to {dst_w}x{dst_h}"
            );
        }
    }
}

#[test]
fn nearest_resize_takes_source_pixels() {
    let rgba: Vec<u8> = (0..4u8).flat_map(|i| [i * 10, i, 7, 255]).collect();
    let doubled = resize_rgba(rgba.clone(), (2, 2), (4, 4), CpuScaleFilter::Nearest).unwrap();
    assert_eq!(doubled.len(), 64);
    for y in 0..4usize {
        for x in 0..4usize {
            let from = ((y / 2) * 2 + x / 2) * 4;
            let at = (y * 4 + x) * 4;
            assert_eq!(doubled[at..at + 4], rgba[from..from + 4]);
        }
    }
}

#[test]
fn a_filter_without_its_kernel_is_refused() {
    assert_eq!(fast_kernel(CpuScaleFilter::Lanczos2), None);
    let rgba: Vec<u8> = (0..16u8).flat_map(|i| [i * 10, 255 - i, i, 255]).collect();
    assert_eq!(resize_rgba(rgba, (4, 4), (2, 2), CpuScaleFilter::Lanczos2), None);
    assert_eq!(resize_luma(vec![9; 16], (4, 4), (2, 2), CpuScaleFilter::Lanczos2), None);
}

#[test]
fn the_broad_resizer_has_three_lobes_for_either_lanczos_filter() {
    let rgba: Vec<u8> = (0..16u8).flat_map(|i| [i * 10, 255 - i, i, 255]).collect();
    let expected = image::imageops::resize(
        &RgbaImage::from_raw(4, 4, rgba.clone()).unwrap(),
        2,
        2,
        image::imageops::FilterType::Lanczos3,
    )
    .into_raw();
    for filter in [CpuScaleFilter::Lanczos2, CpuScaleFilter::Lanczos3] {
        let resized = resize_fallback(PixelLayout::Rgba, rgba.clone(), (4, 4), (2, 2), filter);
        assert_eq!(resized, expected);
    }
}

#[test]
fn resize_before_rgba_is_limited_to_8_bit_images() {
    assert!(should_resize_before_rgba(PictureKind::Rgb8));
    assert!(should_resize_before_rgba(PictureKind::Rgba8));
    assert!(!should_resize_before_rgba(PictureKind::Deep));
}
