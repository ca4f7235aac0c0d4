//! Orientation and colour profile of a page.
use egui::{Color32, ColorImage};
use image::{DynamicImage, ImageFormat, Rgb, RgbImage};
use std::io::Cursor;
use suisuiview::worker::api::DecodeOptions;
use suisuiview::worker::metadata::{
    apply_embedded_icc_to_rgba, orientation_from_exif, orientation_swaps_dimensions,
    orientation_transform, read_image_metadata, transform_pixels, Orientation,
    OrientationTransform,
};
use suisuiview::worker::prepare::prepare_image_with_options;

fn color_image_to_rgba(image: &ColorImage) -> Vec<u8> {
    image
        .pixels
        .iter()
        .flat_map(|pixel| pixel.to_srgba_unmultiplied())
        .collect()
}

fn orient_color_image(image: &ColorImage, orientation: Orientation) -> ColorImage {
    let transform = orientation_transform(orientation);
    let [width, height] = image.size;
    let rotation = transform.rotation_quadrants % 4;
    let output_size = if rotation % 2 == 1 {
        [height, width]
    } else {
        [width, height]
    };
    let [out_width, out_height] = output_size;
    let mut pixels = Vec::with_capacity(out_width * out_height);
    for dst_y in 0..out_height {
        for dst_x in 0..out_width {
            let rotated_x = if transform.flip_horizontal {
                out_width - 1 - dst_x
            } else {
                dst_x
            };
            let rotated_y = if transform.flip_vertical {
                out_height - 1 - dst_y
            } else {
                dst_y
            };
            let (src_x, src_y) = match rotation {
                0 => (rotated_x, rotated_y),
                1 => (rotated_y, height - 1 - rotated_x),
                2 => (width - 1 - rotated_x, height - 1 - rotated_y),
                3 => (width - 1 - rotated_y, rotated_x),
                _ => unreachable!(),
            };
            pixels.push(image.pixels[src_y * width + src_x]);
        }
    }
    ColorImage::new(output_size, pixels)
}

const ALL_ORIENTATIONS: [Orientation; 8] = [
    Orientation::NoTransforms,
    Orientation::Rotate90,
    Orientation::Rotate180,
    Orientation::Rotate270,
    Orientation::FlipHorizontal,
    Orientation::FlipVertical,
    Orientation::Rotate90FlipH,
    Orientation::Rotate270FlipH,
];

#[test]
fn exif_orientation_swaps_and_rotates_pixels() {
    let image = ColorImage::new(
        [2, 1],
        vec![Color32::from_rgb(10, 20, 30), Color32::from_rgb(200, 0, 10)],
    );

    let output = orient_color_image(&image, Orientation::Rotate90);
    let (size, turned) = transform_pixels(
        [2, 1],
        &color_image_to_rgba(&image),
        4,
        orientation_transform(Orientation::Rotate90),
    )
    .unwrap();
    assert_eq!(size, output.size);
    assert_eq!(turned, color_image_to_rgba(&output));

    assert_eq!(output.size, [1, 2]);
    assert_eq!(output.pixels[0], Color32::from_rgb(10, 20, 30));
    assert_eq!(output.pixels[1], Color32::from_rgb(200, 0, 10));
    assert!(orientation_swaps_dimensions(Orientation::Rotate90));
    assert!(orientation_swaps_dimensions(Orientation::Rotate270));
    assert!(!orientation_swaps_dimensions(Orientation::Rotate180));
}

#[test]
fn rgba_orientation_matches_color_image_reference() {
    let image = ColorImage::new(
        [2, 3],
        vec![
            Color32::from_rgb(10, 0, 0),
            Color32::from_rgb(20, 0, 0),
            Color32::from_rgb(30, 0, 0),
            Color32::from_rgb(40, 0, 0),
            Color32::from_rgb(50, 0, 0),
            Color32::from_rgb(60, 0, 0),
        ],
    );
    let rgba = color_image_to_rgba(&image);

    for orientation in ALL_ORIENTATIONS {
        let reference = orient_color_image(&image, orientation);
        let (size, oriented_rgba) =
            transform_pixels(image.size, &rgba, 4, orientation_transform(orientation))
                .expect("valid RGBA test image should transform");

        assert_eq!(size, reference.size, "{orientation:?}");
        assert_eq!(
            oriented_rgba,
            color_image_to_rgba(&reference),
            "{orientation:?}"
        );
    }
}

#[test]
fn luma_orientation_matches_expanded_rgba_transform() {
    // Rotating a 1-byte/px luma buffer must equal expanding to gray-triplet RGBA and rotating
    // that (then the shared channel matches). Verified against the RGBA reference transform for
    // every orientation and both square-swapping and non-swapping shapes.
    let size = [3usize, 2usize];
    let luma: Vec<u8> = (0..(size[0] * size[1]) as u8).map(|v| v * 17).collect();
    let rgba: Vec<u8> = luma.iter().flat_map(|&g| [g, g, g, 255]).collect();

    for orientation in ALL_ORIENTATIONS {
        let transform = orientation_transform(orientation);
        let (luma_size, luma_out) =
            transform_pixels(size, &luma, 1, transform).expect("luma transform");
        let (rgba_size, rgba_out) =
            transform_pixels(size, &rgba, 4, transform).expect("rgba transform");

        assert_eq!(luma_size, rgba_size, "{orientation:?}");
        let expanded: Vec<u8> = luma_out.iter().flat_map(|&g| [g, g, g, 255]).collect();
        assert_eq!(expanded, rgba_out, "{orientation:?}");
    }
}

#[test]
fn orientations_follow_their_exif_numbers() {
    assert_eq!(orientation_from_exif(0), None);
    assert_eq!(orientation_from_exif(9), None);
    assert_eq!(orientation_from_exif(300), None);
    let expected = [
        Orientation::NoTransforms,
        Orientation::FlipHorizontal,
        Orientation::Rotate180,
        Orientation::FlipVertical,
        Orientation::Rotate90FlipH,
        Orientation::Rotate90,
        Orientation::Rotate270FlipH,
        Orientation::Rotate270,
    ];
    for (i, orientation) in expected.iter().enumerate() {
        assert_eq!(orientation_from_exif(i as u32 + 1), Some(*orientation));
    }
}

#[test]
fn pixels_of_the_wrong_length_are_not_turned() {
    let transform = orientation_transform(Orientation::Rotate90);
    assert!(transform_pixels([2, 2], &[0; 15], 4, transform).is_none());
    assert!(transform_pixels([usize::MAX, 2], &[0; 4], 4, transform).is_none());
}

fn jpeg_with_orientation(orientation: u8) -> Vec<u8> {
    let image = RgbImage::from_fn(32, 16, |x, _| {
        if x < 16 {
            Rgb([250, 10, 10])
        } else {
            Rgb([10, 10, 250])
        }
    });
    let mut plain = Vec::new();
    DynamicImage::ImageRgb8(image)
        .write_to(&mut Cursor::new(&mut plain), ImageFormat::Jpeg)
        .unwrap();
    let mut exif = b"Exif\0\0MM\0\x2a\0\0\0\x08\0\x01".to_vec();
    exif.extend_from_slice(&[0x01, 0x12, 0, 3, 0, 0, 0, 1, 0, orientation, 0, 0]);
    exif.extend_from_slice(&[0, 0, 0, 0]);
    let mut bytes = plain[..2].to_vec();
    bytes.extend_from_slice(&[0xff, 0xe1]);
    bytes.extend_from_slice(&((exif.len() + 2) as u16).to_be_bytes());
    bytes.extend_from_slice(&exif);
    bytes.extend_from_slice(&plain[2..]);
    bytes
}

#[test]
fn embedded_orientation_turns_the_page() {
    let bytes = jpeg_with_orientation(6);
    let plain = prepare_image_with_options(&bytes, 1024, DecodeOptions::default()).unwrap();
    assert_eq!(plain.image_size(), [32, 16]);

    let options = DecodeOptions {
        apply_exif_orientation: true,
        ..DecodeOptions::default()
    };
    let turned = prepare_image_with_options(&bytes, 1024, options).unwrap();
    assert_eq!(turned.image_size(), [16, 32]);
    assert_eq!((turned.original_width, turned.original_height), (16, 32));
    let (size, expected) = transform_pixels(
        [32, 16],
        plain.pixels.as_slice(),
        4,
        orientation_transform(Orientation::Rotate90),
    )
    .unwrap();
    assert_eq!(size, [16, 32]);
    assert_eq!(turned.pixels.as_slice(), expected.as_slice());
}

#[test]
fn metadata_is_read_only_where_it_is_needed() {
    let bytes = jpeg_with_orientation(3);
    assert_eq!(
        read_image_metadata(&bytes, false, true).orientation,
        Some(Orientation::Rotate180)
    );
    assert_eq!(read_image_metadata(&bytes, false, false).orientation, None);
    let upright = read_image_metadata(&jpeg_with_orientation(1), true, true);
    assert_eq!(upright.orientation, None);
    assert!(matches!(upright.icc_profile, Ok(None)));
    assert!(read_image_metadata(b"nothing", true, false)
        .icc_profile
        .is_err());
    assert!(matches!(
        read_image_metadata(b"nothing", false, true).icc_profile,
        Ok(None)
    ));
}

#[test]
fn colour_profiles_are_applied_to_pixels() {
    let srgb = lcms2::Profile::new_srgb().icc().unwrap();
    let mut pixels = vec![10, 120, 240, 77, 0, 0, 0, 0];
    apply_embedded_icc_to_rgba(&mut pixels, &srgb).unwrap();
    assert_eq!(pixels.len(), 8);
    assert_eq!(pixels[3], 77);
    for (channel, expected) in [(0usize, 10i32), (1, 120), (2, 240)] {
        assert!((i32::from(pixels[channel]) - expected).abs() <= 2);
    }

    let mut untouched = vec![1, 2, 3, 4];
    assert!(apply_embedded_icc_to_rgba(&mut untouched, b"no profile").is_err());
    assert_eq!(untouched, [1, 2, 3, 4]);
    let mut empty: Vec<u8> = Vec::new();
    assert!(apply_embedded_icc_to_rgba(&mut empty, b"no profile").is_ok());

    let linear = lcms2::Profile::new_rgb(
        &lcms2::CIExyY {
            x: 0.3127,
            y: 0.3290,
            Y: 1.0,
        },
        &lcms2::CIExyYTRIPLE {
            Red: lcms2::CIExyY {
                x: 0.64,
                y: 0.33,
                Y: 1.0,
            },
            Green: lcms2::CIExyY {
                x: 0.30,
                y: 0.60,
                Y: 1.0,
            },
            Blue: lcms2::CIExyY {
                x: 0.15,
                y: 0.06,
                Y: 1.0,
            },
        },
        &[
            &lcms2::ToneCurve::new(1.0),
            &lcms2::ToneCurve::new(1.0),
            &lcms2::ToneCurve::new(1.0),
        ],
    )
    .unwrap()
    .icc()
    .unwrap();
    let mut gray = vec![64, 64, 64, 255];
    apply_embedded_icc_to_rgba(&mut gray, &linear).unwrap();
    assert!(gray[0] > 120, "linear values become brighter: {}", gray[0]);
}

#[test]
fn flipping_twice_changes_nothing() {
    let bytes: Vec<u8> = (0..6).collect();
    for orientation in [
        Orientation::FlipHorizontal,
        Orientation::FlipVertical,
        Orientation::Rotate90FlipH,
        Orientation::Rotate270FlipH,
    ] {
        let transform = orientation_transform(orientation);
        let (size, once) = transform_pixels([3, 2], &bytes, 1, transform).unwrap();
        assert_ne!(once, bytes, "{orientation:?}");
        assert_eq!(
            transform_pixels(size, &once, 1, transform),
            Some(([3, 2], bytes.clone())),
            "{orientation:?}"
        );
    }
}

#[test]
fn turns_that_make_up_a_whole_one_cancel() {
    let rotated = |rotation_quadrants| OrientationTransform {
        rotation_quadrants,
        flip_horizontal: false,
        flip_vertical: false,
    };
    let bytes: Vec<u8> = (0..24).collect();
    for (first, second) in [(0, 4), (1, 3), (2, 2), (3, 1), (5, 7)] {
        let (size, turned) = transform_pixels([3, 2], &bytes, 4, rotated(first)).unwrap();
        assert_eq!(size, if first % 2 == 1 { [2, 3] } else { [3, 2] });
        assert_eq!(
            transform_pixels(size, &turned, 4, rotated(second)),
            Some(([3, 2], bytes.clone()))
        );
    }
}

#[test]
fn pictures_without_bytes_are_turned_where_their_pixels_can_be_counted() {
    let transform = orientation_transform(Orientation::Rotate90);
    assert_eq!(
        transform_pixels([3, 2], &[], 0, transform),
        Some(([2, 3], Vec::new()))
    );
    assert_eq!(transform_pixels([usize::MAX, 2], &[], 0, transform), None);
    assert_eq!(transform_pixels([3, 2], &[1], 0, transform), None);
}
