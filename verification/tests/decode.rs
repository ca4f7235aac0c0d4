//! Preparing pages from the bytes of their files.
use image::{DynamicImage, ImageFormat, Rgb, RgbImage};
use std::io::Cursor;
use suisuiview::decoder_backend::{detect_format, unsupported_message_for_bytes, DecoderFormat};
use suisuiview::source::PageId;
use suisuiview::state::{CpuScaleFilter, DecoderPreference, DecoderPreferences};
use suisuiview::upscale_quality::pictures::prepare_page_pair;
use suisuiview::worker::api::{
    clamp_navigation_target_long_edge, clamp_target_long_edge, CachedPageKey, DecodeBackend,
    DecodeOptions, DecodeStrategy, MAX_ORIGINAL_TARGET_LONG_EDGE, MAX_TARGET_LONG_EDGE,
};
use suisuiview::worker::bmp::{sample_bmp_to_rgba, BmpHeader};
use suisuiview::worker::prepare::{
    display_dimensions, display_dimensions_with_upscale, draft_image_with_options, prepare_image,
    prepare_image_with_options, prepare_image_with_strategy,
};
use suisuiview::worker::selection::prepare_unavailable_or_image_fallback;
use suisuiview::worker::webp::{canvas_fits, first_frame_agrees};

fn encoded_test_image(format: ImageFormat) -> Vec<u8> {
    encoded_sized_test_image(format, 48, 32)
}

fn encoded_sized_test_image(format: ImageFormat, width: u32, height: u32) -> Vec<u8> {
    let image = RgbImage::from_fn(width, height, |x, y| {
        Rgb([
            ((x * 3 + y) % 255) as u8,
            ((x + y * 5) % 255) as u8,
            ((x * 7 + y * 11) % 255) as u8,
        ])
    });
    let mut bytes = Vec::new();
    DynamicImage::ImageRgb8(image)
        .write_to(&mut Cursor::new(&mut bytes), format)
        .unwrap();
    bytes
}

/// An icon, whose pictures have an alpha channel.
fn encoded_icon() -> Vec<u8> {
    let mut bytes = Vec::new();
    DynamicImage::new_rgba8(48, 32)
        .write_to(&mut Cursor::new(&mut bytes), ImageFormat::Ico)
        .unwrap();
    bytes
}

#[test]
fn damaged_image_returns_error_instead_of_panicking() {
    assert!(prepare_image(b"not-an-image", 2048).is_err());
}

#[test]
fn supported_formats_decode_to_prepared_pages() {
    for format in [
        ImageFormat::Jpeg,
        ImageFormat::Png,
        ImageFormat::WebP,
        ImageFormat::Bmp,
        ImageFormat::Gif,
    ] {
        let bytes = encoded_test_image(format);
        let page = prepare_image(&bytes, 1024).unwrap();
        assert_eq!(page.original_width, 48);
        assert_eq!(page.original_height, 32);
        assert_eq!(page.display_width, 48);
        assert_eq!(page.display_height, 32);
    }
}

#[test]
fn decode_options_select_scale_filter_by_direction() {
    let options = DecodeOptions {
        cpu_upscale_filter: CpuScaleFilter::Lanczos3,
        cpu_downscale_filter: CpuScaleFilter::Hamming,
        ..DecodeOptions::default()
    };

    assert_eq!(
        options.scale_filter_for(800, 600, 400, 300),
        CpuScaleFilter::Hamming
    );
    assert_eq!(
        options.scale_filter_for(800, 600, 1200, 900),
        CpuScaleFilter::Lanczos3
    );
}

#[test]
fn decode_cache_token_tracks_cpu_upscale_filter_only_when_allowed() {
    let normal = DecodeOptions::default().cache_token();
    let changed_upscaler = DecodeOptions {
        cpu_upscale_filter: CpuScaleFilter::Lanczos3,
        ..DecodeOptions::default()
    }
    .cache_token();
    let allowed_upscaler = DecodeOptions {
        cpu_upscale_filter: CpuScaleFilter::Lanczos3,
        allow_display_upscale: true,
        ..DecodeOptions::default()
    }
    .cache_token();
    let conservative_prepare = DecodeOptions {
        fast_sampled_scaled_decode: false,
        ..DecodeOptions::default()
    }
    .cache_token();

    assert_eq!(normal, changed_upscaler);
    assert_ne!(normal, allowed_upscaler);
    assert_ne!(normal, conservative_prepare);
}

#[test]
fn cache_token_spells_every_option() {
    assert_eq!(
        DecodeOptions::default().cache_token(),
        "auto-dfdfdfdfdfdfdf-fastprep-on-down-hamming-no-upscale"
    );
    let other = DecodeOptions {
        strategy: DecodeStrategy::ImageCrate,
        decoder_preferences: DecoderPreferences {
            jpeg: DecoderPreference::ZuneJpeg,
            avif: DecoderPreference::LibAvifDav1d,
            ..DecoderPreferences::default()
        },
        fast_sampled_scaled_decode: false,
        cpu_upscale_filter: CpuScaleFilter::Lanczos2,
        cpu_downscale_filter: CpuScaleFilter::CatmullRom,
        allow_display_upscale: true,
        apply_exif_orientation: true,
        apply_embedded_icc: true,
    };
    assert_eq!(
        other.cache_token(),
        "image-crate-zjdfdfdfdfdfla-fastprep-off-down-catmull-rom-lanczos2-exif-icc"
    );
}

#[test]
fn prepared_page_retains_single_rgba_buffer_budget() {
    let bytes = encoded_test_image(ImageFormat::Png);
    let page = prepare_image(&bytes, 1024).unwrap();

    assert_eq!(page.image_size(), [48, 32]);
    assert_eq!(page.pixels.byte_len(), 48 * 32 * 4);
    assert_eq!(page.byte_size, page.pixels.byte_len());
    assert_eq!(page.color_image().size, [48, 32]);
}

#[test]
fn auto_strategy_uses_scaled_decode_for_large_jpegs() {
    let bytes = encoded_sized_test_image(ImageFormat::Jpeg, 2304, 1536);
    let page = prepare_image_with_strategy(&bytes, 1024, DecodeStrategy::Auto).unwrap();

    assert_eq!(page.decode_backend, DecodeBackend::JpegScaled);
    assert_eq!(page.original_width, 2304);
    assert_eq!(page.original_height, 1536);
    assert_eq!(page.display_width, 1024);
    assert_eq!(page.display_height, 683);
}

#[test]
fn image_crate_strategy_keeps_baseline_decode_for_large_jpegs() {
    let bytes = encoded_sized_test_image(ImageFormat::Jpeg, 2304, 1536);
    let page = prepare_image_with_strategy(&bytes, 1024, DecodeStrategy::ImageCrate).unwrap();

    assert_eq!(page.decode_backend, DecodeBackend::ImageCrate);
    assert_eq!(page.display_width, 1024);
    assert_eq!(page.display_height, 683);
}

#[test]
fn fast_sampled_scaled_toggle_disables_large_jpeg_scaled_decode() {
    let bytes = encoded_sized_test_image(ImageFormat::Jpeg, 2304, 1536);
    let page = prepare_image_with_options(
        &bytes,
        1024,
        DecodeOptions {
            fast_sampled_scaled_decode: false,
            ..DecodeOptions::default()
        },
    )
    .unwrap();

    assert_ne!(page.decode_backend, DecodeBackend::JpegScaled);
    assert_eq!(page.display_width, 1024);
    assert_eq!(page.display_height, 683);
}

#[test]
fn auto_strategy_default_preferences_resolve_to_benchmark_winners() {
    let jpeg = encoded_test_image(ImageFormat::Jpeg);
    let jpeg_page = prepare_image_with_options(&jpeg, 1024, DecodeOptions::default()).unwrap();
    assert_eq!(jpeg_page.decode_backend, DecodeBackend::ZuneJpeg);

    let png = encoded_test_image(ImageFormat::Png);
    let png_page = prepare_image_with_options(&png, 1024, DecodeOptions::default()).unwrap();
    assert_eq!(png_page.decode_backend, DecodeBackend::PngCrate);

    let gif = encoded_test_image(ImageFormat::Gif);
    let gif_page = prepare_image_with_options(&gif, 1024, DecodeOptions::default()).unwrap();
    assert_eq!(gif_page.decode_backend, DecodeBackend::GifCrate);

    let bmp = encoded_test_image(ImageFormat::Bmp);
    let bmp_page = prepare_image_with_options(&bmp, 1024, DecodeOptions::default()).unwrap();
    assert_eq!(bmp_page.decode_backend, DecodeBackend::BmpFastPath);
}

#[test]
fn lossless_formats_keep_the_pixels_of_their_pictures() {
    let png = prepare_image(&encoded_test_image(ImageFormat::Png), 1024).unwrap();
    let expected: Vec<u8> = RgbImage::from_fn(48, 32, |x, y| {
        Rgb([
            ((x * 3 + y) % 255) as u8,
            ((x + y * 5) % 255) as u8,
            ((x * 7 + y * 11) % 255) as u8,
        ])
    })
    .pixels()
    .flat_map(|pixel| [pixel[0], pixel[1], pixel[2], 255])
    .collect();
    assert_eq!(png.pixels.as_slice(), expected.as_slice());

    let bmp = prepare_image(&encoded_test_image(ImageFormat::Bmp), 1024).unwrap();
    assert_eq!(bmp.pixels.as_slice(), expected.as_slice());

    let webp = prepare_image(&encoded_test_image(ImageFormat::WebP), 1024).unwrap();
    assert_eq!(webp.pixels.as_slice(), expected.as_slice());
    assert_eq!(webp.decode_backend, DecodeBackend::ImageCrate);
}

#[test]
fn chosen_decoders_decode_their_formats() {
    for (format, preferences, backend) in [
        (
            ImageFormat::Png,
            DecoderPreferences {
                png: DecoderPreference::ZunePng,
                ..DecoderPreferences::default()
            },
            DecodeBackend::ZunePng,
        ),
        (
            ImageFormat::WebP,
            DecoderPreferences {
                webp: DecoderPreference::ImageWebp,
                ..DecoderPreferences::default()
            },
            DecodeBackend::ImageWebp,
        ),
        (
            ImageFormat::Jpeg,
            DecoderPreferences {
                jpeg: DecoderPreference::ImageCrate,
                ..DecoderPreferences::default()
            },
            DecodeBackend::ImageCrate,
        ),
        (
            ImageFormat::Ico,
            DecoderPreferences {
                ico: DecoderPreference::IcoFastPath,
                ..DecoderPreferences::default()
            },
            DecodeBackend::IcoFastPath,
        ),
    ] {
        let options = DecodeOptions {
            decoder_preferences: preferences,
            ..DecodeOptions::default()
        };
        let bytes = if format == ImageFormat::Ico {
            encoded_icon()
        } else {
            encoded_test_image(format)
        };
        let page = prepare_image_with_options(&bytes, 1024, options).unwrap();
        assert_eq!(page.decode_backend, backend);
        assert_eq!(page.image_size(), [48, 32]);
        assert!(page.notice.is_none());
    }
}

#[test]
fn image_crate_strategy_ignores_format_preferences() {
    let bytes = encoded_test_image(ImageFormat::Jpeg);
    let page = prepare_image_with_options(
        &bytes,
        1024,
        DecodeOptions {
            strategy: DecodeStrategy::ImageCrate,
            decoder_preferences: DecoderPreferences {
                jpeg: DecoderPreference::ZuneJpeg,
                ..DecoderPreferences::default()
            },
            ..DecodeOptions::default()
        },
    )
    .unwrap();

    assert_eq!(page.decode_backend, DecodeBackend::ImageCrate);
}

#[test]
fn unavailable_selected_backend_falls_back_with_notice() {
    let bytes = encoded_test_image(ImageFormat::Png);
    let page = prepare_unavailable_or_image_fallback(
        &bytes,
        1024,
        DecodeOptions::default(),
        DecodeBackend::LibWebp,
        "backend not enabled",
    )
    .unwrap()
    .finish()
    .unwrap();

    assert_eq!(page.decode_backend, DecodeBackend::ImageCrate);
    let notice = page.notice.as_deref().unwrap_or_default();
    assert!(notice.contains("libwebp"));
    assert!(notice.contains("used image fallback"));
}

#[test]
fn auto_strategy_samples_large_uncompressed_bmps() {
    let bytes = encoded_sized_test_image(ImageFormat::Bmp, 2048, 16);
    let page = prepare_image_with_strategy(&bytes, 1024, DecodeStrategy::Auto).unwrap();

    assert_eq!(page.decode_backend, DecodeBackend::BmpSampled);
    assert_eq!(page.original_width, 2048);
    assert_eq!(page.original_height, 16);
    assert_eq!(page.display_width, 1024);
    assert_eq!(page.display_height, 8);
}

#[test]
fn image_crate_strategy_keeps_baseline_decode_for_large_bmps() {
    let bytes = encoded_sized_test_image(ImageFormat::Bmp, 2048, 16);
    let page = prepare_image_with_strategy(&bytes, 1024, DecodeStrategy::ImageCrate).unwrap();

    assert_eq!(page.decode_backend, DecodeBackend::ImageCrate);
    assert_eq!(page.display_width, 1024);
    assert_eq!(page.display_height, 8);
}

#[test]
fn fast_sampled_scaled_toggle_disables_large_bmp_sampling() {
    let bytes = encoded_sized_test_image(ImageFormat::Bmp, 2048, 16);
    let page = prepare_image_with_options(
        &bytes,
        1024,
        DecodeOptions {
            fast_sampled_scaled_decode: false,
            ..DecodeOptions::default()
        },
    )
    .unwrap();

    assert_ne!(page.decode_backend, DecodeBackend::BmpSampled);
    assert_eq!(page.display_width, 1024);
    assert_eq!(page.display_height, 8);
}

#[test]
fn auto_strategy_samples_large_static_gifs() {
    let bytes = encoded_sized_test_image(ImageFormat::Gif, 2048, 16);
    let page = prepare_image_with_strategy(&bytes, 1024, DecodeStrategy::Auto).unwrap();

    assert_eq!(page.decode_backend, DecodeBackend::GifSampled);
    assert_eq!(page.original_width, 2048);
    assert_eq!(page.original_height, 16);
    assert_eq!(page.display_width, 1024);
    assert_eq!(page.display_height, 8);
}

#[test]
fn image_crate_strategy_keeps_baseline_decode_for_large_gifs() {
    let bytes = encoded_sized_test_image(ImageFormat::Gif, 2048, 16);
    let page = prepare_image_with_strategy(&bytes, 1024, DecodeStrategy::ImageCrate).unwrap();

    assert_eq!(page.decode_backend, DecodeBackend::ImageCrate);
    assert_eq!(page.display_width, 1024);
    assert_eq!(page.display_height, 8);
}

#[test]
fn fast_sampled_scaled_toggle_disables_large_gif_sampling() {
    let bytes = encoded_sized_test_image(ImageFormat::Gif, 2048, 16);
    let page = prepare_image_with_options(
        &bytes,
        1024,
        DecodeOptions {
            fast_sampled_scaled_decode: false,
            ..DecodeOptions::default()
        },
    )
    .unwrap();

    assert_ne!(page.decode_backend, DecodeBackend::GifSampled);
    assert_eq!(page.display_width, 1024);
    assert_eq!(page.display_height, 8);
}

#[test]
fn auto_strategy_samples_large_pngs() {
    let bytes = encoded_sized_test_image(ImageFormat::Png, 2048, 16);
    let page = prepare_image_with_strategy(&bytes, 1024, DecodeStrategy::Auto).unwrap();

    assert_eq!(page.decode_backend, DecodeBackend::PngSampled);
    assert_eq!(page.original_width, 2048);
    assert_eq!(page.original_height, 16);
    assert_eq!(page.display_width, 1024);
    assert_eq!(page.display_height, 8);
}

#[test]
fn image_crate_strategy_keeps_baseline_decode_for_large_pngs() {
    let bytes = encoded_sized_test_image(ImageFormat::Png, 2048, 16);
    let page = prepare_image_with_strategy(&bytes, 1024, DecodeStrategy::ImageCrate).unwrap();

    assert_eq!(page.decode_backend, DecodeBackend::ImageCrate);
    assert_eq!(page.display_width, 1024);
    assert_eq!(page.display_height, 8);
}

#[test]
fn fast_sampled_scaled_toggle_disables_large_png_sampling() {
    let bytes = encoded_sized_test_image(ImageFormat::Png, 2048, 16);
    let page = prepare_image_with_options(
        &bytes,
        1024,
        DecodeOptions {
            fast_sampled_scaled_decode: false,
            ..DecodeOptions::default()
        },
    )
    .unwrap();

    assert_ne!(page.decode_backend, DecodeBackend::PngSampled);
    assert_eq!(page.display_width, 1024);
    assert_eq!(page.display_height, 8);
}

#[test]
fn sampled_pages_take_the_nearest_source_pixels() {
    let bytes = encoded_sized_test_image(ImageFormat::Png, 2048, 16);
    let page = prepare_image_with_strategy(&bytes, 1024, DecodeStrategy::Auto).unwrap();
    let pixel = |x: u32, y: u32| {
        [
            ((x * 3 + y) % 255) as u8,
            ((x + y * 5) % 255) as u8,
            ((x * 7 + y * 11) % 255) as u8,
            255,
        ]
    };
    let bmp_bytes = encoded_sized_test_image(ImageFormat::Bmp, 2048, 16);
    let bmp = prepare_image_with_strategy(&bmp_bytes, 1024, DecodeStrategy::Auto).unwrap();
    for (x, y) in [(0usize, 0usize), (5, 3), (1023, 7)] {
        let at = (y * 1024 + x) * 4;
        let expected = pixel(2 * x as u32 + 1, 2 * y as u32 + 1);
        assert_eq!(&page.pixels.as_slice()[at..at + 4], &expected);
        assert_eq!(&bmp.pixels.as_slice()[at..at + 4], &expected);
    }
}

#[test]
fn display_dimensions_preserve_ratio_and_do_not_upscale() {
    assert_eq!(display_dimensions(800, 600, 2048).unwrap(), (800, 600));
    assert_eq!(display_dimensions(8000, 4000, 2000).unwrap(), (2000, 1000));
    assert_eq!(
        display_dimensions(3000, 9000, MAX_TARGET_LONG_EDGE + 500).unwrap(),
        (1532, 4596)
    );
    assert_eq!(
        clamp_target_long_edge(MAX_ORIGINAL_TARGET_LONG_EDGE + 500),
        MAX_ORIGINAL_TARGET_LONG_EDGE
    );
}

#[test]
fn navigation_target_clamp_keeps_display_path_capped() {
    assert_eq!(
        clamp_navigation_target_long_edge(MAX_TARGET_LONG_EDGE + 500),
        MAX_TARGET_LONG_EDGE
    );
}

#[test]
fn display_dimensions_can_upscale_for_fit_modes() {
    assert_eq!(
        display_dimensions_with_upscale(640, 320, 2048, true).unwrap(),
        (2048, 1024)
    );
    assert_eq!(
        display_dimensions_with_upscale(640, 320, 2048, false).unwrap(),
        (640, 320)
    );
}

#[test]
fn display_dimensions_agree_with_floating_point() {
    let mut seed: u32 = 12345;
    for _ in 0..4000 {
        seed = seed.wrapping_mul(1_664_525).wrapping_add(1_013_904_223);
        let width = 1 + (seed >> 8) % 20_000;
        seed = seed.wrapping_mul(1_664_525).wrapping_add(1_013_904_223);
        let height = 1 + (seed >> 8) % 20_000;
        seed = seed.wrapping_mul(1_664_525).wrapping_add(1_013_904_223);
        let target = clamp_target_long_edge((seed >> 8) % 24_000);
        let longest = width.max(height);
        let scale = f64::from(target) / f64::from(longest);
        let scaled = |value: u32| ((f64::from(value) * scale).round() as u32).max(1);
        assert_eq!(
            display_dimensions_with_upscale(width, height, target, true).unwrap(),
            (scaled(width), scaled(height)),
            "{width}x{height} to {target}"
        );
    }
}

#[test]
fn zero_sized_pictures_have_no_display_size() {
    assert!(display_dimensions(0, 10, 1024).is_err());
    assert!(display_dimensions(10, 0, 1024).is_err());
}

#[test]
fn cached_page_key_covers_same_page_decode_and_sufficient_size() {
    let decode = DecodeOptions::default();
    let key = CachedPageKey::new(PageId(3), 2048, decode);

    assert!(key.covers(PageId(3), 1024, decode));
    assert!(key.covers(PageId(3), 2048, decode));
    assert!(!key.covers(PageId(3), 4096, decode));
    assert!(!key.covers(PageId(4), 1024, decode));
    assert!(!key.covers(
        PageId(3),
        1024,
        DecodeOptions {
            apply_embedded_icc: true,
            ..decode
        }
    ));

    let original_key = CachedPageKey::new(PageId(3), MAX_TARGET_LONG_EDGE + 1, decode);
    assert!(original_key.covers(PageId(3), MAX_TARGET_LONG_EDGE + 1, decode));
    assert!(!original_key.covers(PageId(3), MAX_TARGET_LONG_EDGE, decode));
}

#[test]
fn psd_preview_decodes_with_zune_psd_backend() {
    let bytes = encoded_test_psd_rgb();
    let page = prepare_image(&bytes, 1024).unwrap();

    assert_eq!(page.decode_backend, DecodeBackend::ZunePsd);
    assert_eq!(page.original_width, 2);
    assert_eq!(page.original_height, 1);
    assert_eq!(page.display_width, 2);
    assert_eq!(page.display_height, 1);
    assert!(!page.pixels.is_luma());
    assert_eq!(
        &page.pixels.as_slice()[..8],
        &[255, 0, 0, 255, 0, 255, 0, 255]
    );
}

#[test]
fn psd_oversized_header_fails_before_decode() {
    let bytes = encoded_test_psd_header(12_000, 12_000, 3, 8);
    let error = prepare_image(&bytes, 1024).err().unwrap();

    assert!(error.contains("too large"));
}

#[test]
fn psd_unsupported_color_mode_fails_before_decode() {
    let bytes = encoded_test_psd_header_with_color_mode(2, 1, 4, 8, 4);
    let error = prepare_image(&bytes, 1024).err().unwrap();

    assert!(error.contains("unsupported PSD color mode"));
}

#[test]
fn psd_skips_image_metadata_probe() {
    let bytes = encoded_test_psd_rgb();
    let page = prepare_image_with_options(
        &bytes,
        1024,
        DecodeOptions {
            strategy: DecodeStrategy::ImageCrate,
            apply_embedded_icc: true,
            apply_exif_orientation: true,
            ..DecodeOptions::default()
        },
    )
    .unwrap();

    assert_eq!(page.decode_backend, DecodeBackend::ZunePsd);
    assert!(page.notice.is_none());
}

#[test]
fn postscript_ai_requires_pdf_compatible_content() {
    let error = prepare_image(b"%!PS-Adobe-3.0\n%%Creator: Adobe Illustrator", 1024)
        .err()
        .unwrap();

    assert!(error.contains("PDF-compatible"));
}

#[test]
fn formats_are_told_by_their_first_bytes() {
    assert_eq!(
        detect_format(&encoded_test_image(ImageFormat::Png)),
        Some(DecoderFormat::Png)
    );
    assert_eq!(
        detect_format(&encoded_test_image(ImageFormat::Jpeg)),
        Some(DecoderFormat::Jpeg)
    );
    assert_eq!(
        detect_format(&encoded_test_image(ImageFormat::WebP)),
        Some(DecoderFormat::Webp)
    );
    assert_eq!(
        detect_format(&encoded_test_image(ImageFormat::Gif)),
        Some(DecoderFormat::Gif)
    );
    assert_eq!(
        detect_format(&encoded_test_image(ImageFormat::Bmp)),
        Some(DecoderFormat::Bmp)
    );
    assert_eq!(detect_format(b"nothing known"), None);
    assert!(unsupported_message_for_bytes(b"%!PS-Adobe-3.0").is_some());
    assert!(unsupported_message_for_bytes(b"plain text").is_none());
}

fn encoded_test_psd_rgb() -> Vec<u8> {
    let mut bytes = encoded_test_psd_header(2, 1, 3, 8);
    bytes.extend_from_slice(&0u32.to_be_bytes());
    bytes.extend_from_slice(&0u32.to_be_bytes());
    bytes.extend_from_slice(&0u32.to_be_bytes());
    bytes.extend_from_slice(&1u16.to_be_bytes());
    for _ in 0..3 {
        bytes.extend_from_slice(&3u16.to_be_bytes());
    }
    bytes.extend_from_slice(&[1, 255, 0]);
    bytes.extend_from_slice(&[1, 0, 255]);
    bytes.extend_from_slice(&[1, 0, 0]);
    bytes
}

fn encoded_test_psd_header(width: u32, height: u32, channels: u16, depth: u16) -> Vec<u8> {
    encoded_test_psd_header_with_color_mode(width, height, channels, depth, 3)
}

fn encoded_test_psd_header_with_color_mode(
    width: u32,
    height: u32,
    channels: u16,
    depth: u16,
    color_mode: u16,
) -> Vec<u8> {
    let mut bytes = Vec::new();
    bytes.extend_from_slice(b"8BPS");
    bytes.extend_from_slice(&1u16.to_be_bytes());
    bytes.extend_from_slice(&[0; 6]);
    bytes.extend_from_slice(&channels.to_be_bytes());
    bytes.extend_from_slice(&height.to_be_bytes());
    bytes.extend_from_slice(&width.to_be_bytes());
    bytes.extend_from_slice(&depth.to_be_bytes());
    bytes.extend_from_slice(&color_mode.to_be_bytes());
    bytes
}

#[test]
fn prepared_pages_have_the_bytes_of_their_size() {
    for format in [
        ImageFormat::Jpeg,
        ImageFormat::Png,
        ImageFormat::WebP,
        ImageFormat::Bmp,
        ImageFormat::Gif,
    ] {
        for (width, height, target) in [(48, 32, 0), (2048, 16, 1024), (3, 5, 9_999_999)] {
            let bytes = encoded_sized_test_image(format, width, height);
            for strategy in [DecodeStrategy::Auto, DecodeStrategy::ImageCrate] {
                let page = prepare_image_with_strategy(&bytes, target, strategy).unwrap();
                let depth = if page.pixels.is_luma() { 1 } else { 4 };
                let expected = page.display_width * page.display_height * depth;
                assert_eq!(page.pixels.byte_len(), expected);
                assert_eq!(page.byte_size, expected);
                assert_eq!(page.target_long_edge, clamp_target_long_edge(target));
                assert_eq!(page.color_image().size, page.image_size());
            }
        }
    }
}

fn two_lobed() -> DecodeOptions {
    DecodeOptions {
        fast_sampled_scaled_decode: false,
        cpu_downscale_filter: CpuScaleFilter::Lanczos2,
        ..DecodeOptions::default()
    }
}

#[test]
fn two_lobed_pages_are_resized_by_who_has_the_kernel() {
    let bytes = encoded_sized_test_image(ImageFormat::Png, 2048, 16);
    let error = prepare_image_with_options(&bytes, 1024, two_lobed()).err().unwrap();
    assert_eq!(error, "Lanczos2 needs a kernel that this resizer does not have");

    let draft = draft_image_with_options(&bytes, 1024, two_lobed()).unwrap();
    let request = draft.kernel_request().unwrap();
    assert!(!request.luma);
    assert_eq!(request.size, (2048, 16));
    assert_eq!(request.display, (1024, 8));
    assert_eq!(request.bytes.len(), 2048 * 16 * 4);
    assert_eq!(&request.bytes[4..8], &[3, 1, 7, 255]);
    let page = draft.with_resized(vec![7; 1024 * 8 * 4]).finish().unwrap();
    assert_eq!(page.image_size(), [1024, 8]);
    assert!(page.pixels.as_slice().iter().all(|&byte| byte == 7));

    let draft = draft_image_with_options(&bytes, 1024, two_lobed()).unwrap();
    assert!(draft.with_resized(vec![7; 5]).kernel_request().is_some());
}

#[test]
fn pages_at_their_size_need_no_kernel() {
    let bytes = encoded_test_image(ImageFormat::Png);
    let draft = draft_image_with_options(&bytes, 1024, two_lobed()).unwrap();
    assert!(draft.kernel_request().is_none());
    let page = prepare_image_with_options(&bytes, 1024, two_lobed()).unwrap();
    assert_eq!(page.image_size(), [48, 32]);
}

#[test]
fn a_draft_takes_up_what_became_of_its_profile() {
    let draft = || {
        draft_image_with_options(
            &encoded_test_image(ImageFormat::Png),
            1024,
            DecodeOptions::default(),
        )
        .unwrap()
    };
    let kept = draft().finish_with(vec![5; 48 * 32 * 4], Some(Err("no table".to_owned())));
    assert_eq!(
        kept.notice.as_deref(),
        Some("ICC profile could not be applied; assuming sRGB: no table")
    );
    assert_eq!(kept.pixels.as_slice(), vec![5; 48 * 32 * 4]);
    let recolored = draft().finish_with(Vec::new(), Some(Ok(vec![6; 48 * 32 * 4])));
    assert_eq!(recolored.notice, None);
    assert_eq!(recolored.pixels.as_slice(), vec![6; 48 * 32 * 4]);
}

#[test]
fn bitmaps_are_sampled_from_any_header() {
    let header = BmpHeader {
        width: 1,
        height: 2,
        top_down: false,
        bits_per_pixel: 24,
        pixel_offset: 0,
        row_stride: 4,
    };
    let bytes = [1, 2, 3, 0, 4, 5, 6, 0];
    assert_eq!(
        sample_bmp_to_rgba(&bytes, &header, 1, 2),
        Ok(vec![6, 5, 4, 255, 3, 2, 1, 255])
    );
    assert_eq!(
        sample_bmp_to_rgba(&bytes[..6], &header, 1, 2),
        Err("BMP pixel data ended unexpectedly".to_owned())
    );
}

fn chunk(name: &[u8; 4], payload: &[u8]) -> Vec<u8> {
    let mut bytes = name.to_vec();
    bytes.extend_from_slice(&(payload.len() as u32).to_le_bytes());
    bytes.extend_from_slice(payload);
    if payload.len() % 2 == 1 {
        bytes.push(0);
    }
    bytes
}

/// An animated WebP file with one frame: an alpha chunk, and the head of a key frame.
fn animated_webp(canvas: (u32, u32), frame: (u32, u32), key: (u16, u16)) -> Vec<u8> {
    let three = |value: u32| [value as u8, (value >> 8) as u8, (value >> 16) as u8];
    let mut head = vec![0x12, 0, 0, 0];
    head.extend_from_slice(&three(canvas.0 - 1));
    head.extend_from_slice(&three(canvas.1 - 1));
    let mut picture = vec![0x10, 0, 0, 0x9d, 0x01, 0x2a];
    picture.extend_from_slice(&key.0.to_le_bytes());
    picture.extend_from_slice(&key.1.to_le_bytes());
    let mut body = vec![0; 6];
    body.extend_from_slice(&three(frame.0 - 1));
    body.extend_from_slice(&three(frame.1 - 1));
    body.extend_from_slice(&[0; 4]);
    body.extend_from_slice(&chunk(b"ALPH", &[0, 1, 2]));
    body.extend_from_slice(&chunk(b"VP8 ", &picture));
    let mut content = b"WEBP".to_vec();
    content.extend_from_slice(&chunk(b"VP8X", &head));
    content.extend_from_slice(&chunk(b"ANIM", &[0; 6]));
    content.extend_from_slice(&chunk(b"ANMF", &body));
    chunk(b"RIFF", &content)
}

#[test]
fn webp_frames_hold_their_key_frames() {
    assert!(first_frame_agrees(&animated_webp((8, 8), (4, 6), (4, 6))));
    assert!(first_frame_agrees(&animated_webp((8, 8), (4, 6), (0x4004, 0x8006))));
    // A smaller key frame is laid out row behind row.
    assert!(first_frame_agrees(&animated_webp((8, 8), (4, 6), (2, 2))));
    assert!(first_frame_agrees(&animated_webp((8, 8), (4, 6), (6, 4))));
    assert!(!first_frame_agrees(&animated_webp((8, 8), (4, 6), (3, 5))));
    assert!(!first_frame_agrees(&animated_webp((8, 8), (4, 6), (0, 6))));
    let other = animated_webp((8, 8), (4, 6), (4, 7));
    assert!(!first_frame_agrees(&other));
    let error = prepare_image(&other, 1024).err().unwrap();
    assert!(error.contains("WebP frame does not hold its key frame"), "{error}");
    assert_eq!(
        prepare_page_pair(&other, 512, 1024).err().unwrap(),
        "WebP frame does not hold its key frame"
    );
    assert!(first_frame_agrees(&encoded_test_image(ImageFormat::WebP)));
}

#[test]
fn webp_canvases_are_counted_in_32_bits() {
    assert!(canvas_fits(&animated_webp((0x4000, 0xffff), (4, 6), (4, 6))));
    let large = animated_webp((0x4000, 0x1_0000), (4, 6), (4, 6));
    assert!(!canvas_fits(&large));
    let options = DecodeOptions {
        decoder_preferences: DecoderPreferences {
            webp: DecoderPreference::ImageWebp,
            ..DecoderPreferences::default()
        },
        ..DecodeOptions::default()
    };
    assert!(prepare_image_with_options(&large, 1024, options).is_err());
}

#[test]
fn float_pictures_are_brought_down_to_eight_bits() {
    let picture = image::Rgb32FImage::from_fn(3, 2, |x, _| image::Rgb([x as f32 / 2.0, 0.0, 1.0]));
    let mut bytes = Vec::new();
    DynamicImage::ImageRgb32F(picture)
        .write_to(&mut Cursor::new(&mut bytes), ImageFormat::OpenExr)
        .unwrap();
    let page = prepare_image(&bytes, 1024).unwrap();
    assert_eq!(page.decode_backend, DecodeBackend::ImageCrate);
    assert_eq!(page.image_size(), [3, 2]);
    let row = [0, 0, 255, 255, 128, 0, 255, 255, 255, 0, 255, 255];
    assert_eq!(page.pixels.as_slice(), [row, row].concat());
}
