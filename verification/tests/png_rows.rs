//! PNG files read row by row, and regions of them.
use image::{DynamicImage, GrayImage, ImageBuffer, ImageFormat, Luma, Rgba};
use std::io::Cursor;
use suisuiview::worker::api::{
    expand_luma, DecodeBackend, DecodeOptions, DecodeStrategy, MAX_TARGET_LONG_EDGE,
};
use suisuiview::worker::png::{
    prepare_exact_original_region_with_png_rows, prepare_exact_original_with_png_rows,
    prepare_image_with_png_rows, PngRegion, PngRowError, PngRowResult,
};
use suisuiview::worker::prepare::prepare_image_with_strategy;
use suisuiview::worker::region::{prepare_original_region_with_options, OriginalRegion};

#[test]
fn auto_strategy_uses_exact_row_png_for_original_inspection_target() {
    let target = MAX_TARGET_LONG_EDGE + 1;
    let bytes = encoded_png(target, 2);
    let page = prepare_image_with_strategy(&bytes, target, DecodeStrategy::Auto).unwrap();

    assert_eq!(page.decode_backend, DecodeBackend::PngExactRows);
    assert_eq!(page.original_width, target as usize);
    assert_eq!(page.original_height, 2);
    assert_eq!(page.display_width, target as usize);
    assert_eq!(page.display_height, 2);
    assert_eq!(page.pixels.byte_len(), target as usize * 2 * 4);
    assert_eq!(
        &page.pixels.as_slice()[..12],
        &[0, 0, 0, 255, 1, 1, 1, 255, 2, 2, 2, 255]
    );
}

#[test]
fn oversized_original_png_rows_do_not_fallback_to_full_decode() {
    let bytes = png_header_only(8192, 8193);
    let error = match prepare_image_with_strategy(&bytes, 8193, DecodeStrategy::Auto) {
        Ok(_) => panic!("oversized original PNG unexpectedly decoded"),
        Err(error) => error,
    };

    assert!(error.contains("Decoded page is too large"), "{error}");
    assert!(!error.contains("png-crate failed"), "{error}");
}

#[test]
fn sampled_png_row_error_can_fallback_to_full_decoder() {
    let bytes = png_header_only(10_000, 10_000);
    let error = match prepare_image_with_strategy(&bytes, 5000, DecodeStrategy::Auto) {
        Ok(_) => panic!("malformed sampled PNG unexpectedly decoded"),
        Err(error) => error,
    };

    assert!(error.contains("png-crate failed"), "{error}");
}

#[test]
fn exact_original_row_helper_skips_sampled_targets() {
    let target = MAX_TARGET_LONG_EDGE;
    let bytes = encoded_png(target * 2, 1);

    assert!(matches!(
        prepare_exact_original_with_png_rows(&bytes, target),
        Ok(None)
    ));
    assert!(matches!(
        prepare_image_with_png_rows(&bytes, target),
        Ok(PngRowResult::Sampled(_))
    ));
}

#[test]
fn exact_original_region_png_rows_decode_only_requested_pixels() {
    let bytes = encoded_xy_png(6, 4);
    let region = PngRegion {
        x: 2,
        y: 1,
        width: 3,
        height: 2,
    };
    let image = prepare_exact_original_region_with_png_rows(&bytes, region)
        .unwrap()
        .expect("PNG region image");

    assert_eq!(image.original_width, 6);
    assert_eq!(image.original_height, 4);
    assert_eq!(image.region, region);
    assert_eq!(image.byte_size, 3 * 2 * 4);
    assert_eq!(image.decode_backend, DecodeBackend::PngExactRows);

    let mut expected = Vec::new();
    for y in 1..3 {
        for x in 2..5 {
            expected.extend_from_slice(&xy_rgba(x, y));
        }
    }
    assert_eq!(&*image.rgba, expected.as_slice());
}

#[test]
fn exact_original_region_png_rows_rejects_out_of_bounds_region() {
    let bytes = encoded_xy_png(6, 4);
    let region = PngRegion {
        x: 4,
        y: 2,
        width: 3,
        height: 2,
    };
    let error = match prepare_exact_original_region_with_png_rows(&bytes, region) {
        Err(PngRowError::ExactOriginal(error)) => error,
        _ => panic!("out-of-bounds PNG region unexpectedly decoded"),
    };

    assert!(error.contains("outside image bounds"), "{error}");
}

#[test]
fn exact_original_region_png_rows_rejects_oversized_region_before_decode() {
    let bytes = png_header_only(10_000, 10_000);
    let region = PngRegion {
        x: 0,
        y: 0,
        width: 10_000,
        height: 10_000,
    };
    let error = match prepare_exact_original_region_with_png_rows(&bytes, region) {
        Err(PngRowError::ExactOriginal(error)) => error,
        _ => panic!("oversized PNG region unexpectedly decoded"),
    };

    assert!(error.contains("Decoded page is too large"), "{error}");
}

#[test]
fn exact_original_region_png_rows_skips_non_png() {
    assert!(matches!(
        prepare_exact_original_region_with_png_rows(
            b"not a png",
            PngRegion {
                x: 0,
                y: 0,
                width: 1,
                height: 1,
            },
        ),
        Ok(None)
    ));
}

fn encoded_png(width: u32, height: u32) -> Vec<u8> {
    let image = ImageBuffer::from_fn(width, height, |x, _y| {
        let value = (x % 251) as u8;
        Rgba([value, value, value, 255])
    });
    let mut cursor = Cursor::new(Vec::new());
    image
        .write_to(&mut cursor, ImageFormat::Png)
        .expect("encode PNG fixture");
    cursor.into_inner()
}

fn encoded_xy_png(width: u32, height: u32) -> Vec<u8> {
    let image = ImageBuffer::from_fn(width, height, |x, y| Rgba(xy_rgba(x, y)));
    let mut cursor = Cursor::new(Vec::new());
    image
        .write_to(&mut cursor, ImageFormat::Png)
        .expect("encode XY PNG fixture");
    cursor.into_inner()
}

fn xy_rgba(x: u32, y: u32) -> [u8; 4] {
    [(x * 17) as u8, (y * 31) as u8, ((x + y) * 13) as u8, 255]
}

fn png_header_only(width: u32, height: u32) -> Vec<u8> {
    let mut bytes = b"\x89PNG\r\n\x1a\n".to_vec();
    let mut ihdr = Vec::with_capacity(13);
    ihdr.extend_from_slice(&width.to_be_bytes());
    ihdr.extend_from_slice(&height.to_be_bytes());
    ihdr.extend_from_slice(&[8, 0, 0, 0, 0]);
    push_png_chunk(&mut bytes, *b"IHDR", &ihdr);
    push_png_chunk(&mut bytes, *b"IDAT", &[]);
    push_png_chunk(&mut bytes, *b"IEND", &[]);
    bytes
}

fn push_png_chunk(bytes: &mut Vec<u8>, name: [u8; 4], data: &[u8]) {
    bytes.extend_from_slice(&(data.len() as u32).to_be_bytes());
    bytes.extend_from_slice(&name);
    bytes.extend_from_slice(data);

    let mut crc_input = Vec::with_capacity(name.len() + data.len());
    crc_input.extend_from_slice(&name);
    crc_input.extend_from_slice(data);
    bytes.extend_from_slice(&crc32(&crc_input).to_be_bytes());
}

fn crc32(bytes: &[u8]) -> u32 {
    let mut crc = 0xffff_ffffu32;
    for byte in bytes {
        crc ^= u32::from(*byte);
        for _ in 0..8 {
            let mask = 0u32.wrapping_sub(crc & 1);
            crc = (crc >> 1) ^ (0xedb8_8320 & mask);
        }
    }
    !crc
}

#[test]
fn original_region_decodes_png_source_pixels() {
    let bytes = encoded_xy_png(6, 4);
    let region = OriginalRegion {
        x: 1,
        y: 1,
        width: 3,
        height: 2,
    };

    let prepared =
        prepare_original_region_with_options(&bytes, region, DecodeOptions::default())
            .unwrap()
            .expect("prepared region");

    assert_eq!(prepared.original_width, 6);
    assert_eq!(prepared.original_height, 4);
    assert_eq!(prepared.region, region);
    assert_eq!(prepared.image_size(), [3, 2]);
    assert_eq!(prepared.byte_size, 3 * 2 * 4);
    assert_eq!(prepared.decode_backend, DecodeBackend::PngExactRows);

    let mut expected = Vec::new();
    for y in 1..3 {
        for x in 1..4 {
            expected.extend_from_slice(&xy_rgba(x, y));
        }
    }
    assert_eq!(&*prepared.rgba, expected.as_slice());
}

#[test]
fn original_region_skips_when_options_require_full_image_policy() {
    let bytes = encoded_xy_png(6, 4);
    let region = OriginalRegion {
        x: 0,
        y: 0,
        width: 1,
        height: 1,
    };
    let options = DecodeOptions {
        strategy: DecodeStrategy::ImageCrate,
        ..DecodeOptions::default()
    };

    assert!(matches!(
        prepare_original_region_with_options(&bytes, region, options),
        Ok(None)
    ));
}

#[test]
fn original_region_skips_non_png() {
    let region = OriginalRegion {
        x: 0,
        y: 0,
        width: 1,
        height: 1,
    };

    assert!(matches!(
        prepare_original_region_with_options(b"not-an-image", region, DecodeOptions::default()),
        Ok(None)
    ));
}

#[test]
fn gray_rows_show_what_their_rgb_twin_shows() {
    let gray = DynamicImage::ImageLuma8(GrayImage::from_fn(2048, 16, |x, y| {
        Luma([((x * 7 + y * 13) % 256) as u8])
    }));
    let twin = DynamicImage::ImageRgb8(gray.to_rgb8());
    let encode = |picture: &DynamicImage| {
        let mut bytes = Vec::new();
        picture
            .write_to(&mut Cursor::new(&mut bytes), ImageFormat::Png)
            .unwrap();
        bytes
    };
    for target in [1024, MAX_TARGET_LONG_EDGE + 1] {
        let gray_page =
            prepare_image_with_strategy(&encode(&gray), target, DecodeStrategy::Auto).unwrap();
        let twin_page =
            prepare_image_with_strategy(&encode(&twin), target, DecodeStrategy::Auto).unwrap();
        assert!(gray_page.pixels.is_luma());
        assert!(!twin_page.pixels.is_luma());
        assert_eq!(
            expand_luma(gray_page.pixels.as_slice()),
            twin_page.pixels.as_slice()
        );
    }
}
