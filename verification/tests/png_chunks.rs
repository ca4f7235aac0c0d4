//! PNG files that one of the decoders cannot take.
use image::{DynamicImage, ImageBuffer, ImageFormat, Rgb, Rgba, RgbImage};
use std::io::Cursor;
use suisuiview::decoder_backend::decode_zune_png;
use suisuiview::state::{DecoderPreference, DecoderPreferences};
use suisuiview::worker::api::{DecodeBackend, DecodeOptions};
use suisuiview::worker::png_chunks::{can_take_png, reject_chunks, LOOK_LIMIT};
use suisuiview::worker::prepare::prepare_image_with_options;

const REFUSED: &str = "PNG chunks are beyond what the decoder takes";

fn chunk(name: &[u8; 4], payload: &[u8]) -> Vec<u8> {
    let mut bytes = (payload.len() as u32).to_be_bytes().to_vec();
    bytes.extend_from_slice(name);
    bytes.extend_from_slice(payload);
    bytes.extend_from_slice(&[0; 4]);
    bytes
}

fn encoded(picture: DynamicImage) -> Vec<u8> {
    let mut bytes = Vec::new();
    picture
        .write_to(&mut Cursor::new(&mut bytes), ImageFormat::Png)
        .unwrap();
    bytes
}

/// A file with more chunks behind its head.
fn with_chunks(png: &[u8], chunks: &[Vec<u8>]) -> Vec<u8> {
    [&png[..33], &chunks.concat(), &png[33..]].concat()
}

fn frame_control(width: u32, height: u32) -> Vec<u8> {
    let mut payload = vec![0; 4];
    payload.extend_from_slice(&width.to_be_bytes());
    payload.extend_from_slice(&height.to_be_bytes());
    payload.extend_from_slice(&[0; 14]);
    chunk(b"fcTL", &payload)
}

fn deep() -> Vec<u8> {
    encoded(DynamicImage::ImageRgba16(ImageBuffer::from_pixel(
        1,
        1,
        Rgba([0x1234, 0x5678, 0x9abc, 0xffff]),
    )))
}

/// A picture of four palette indices.
fn indexed(palette: bool) -> Vec<u8> {
    let mut bytes = Vec::new();
    let mut encoder = png::Encoder::new(&mut bytes, 2, 2);
    encoder.set_color(png::ColorType::Indexed);
    encoder.set_depth(png::BitDepth::Eight);
    encoder.set_palette(vec![10, 20, 30, 40, 50, 60]);
    let mut writer = encoder.write_header().unwrap();
    writer.write_image_data(&[0, 1, 1, 0]).unwrap();
    writer.finish().unwrap();
    if palette {
        return bytes;
    }
    let at = bytes.windows(4).position(|name| name == b"PLTE").unwrap() - 4;
    [&bytes[..at], &bytes[at + 18..]].concat()
}

#[test]
fn ordinary_files_are_taken() {
    let picture = RgbImage::from_fn(5, 3, |x, y| Rgb([x as u8 * 40, y as u8 * 60, 7]));
    let bytes = encoded(DynamicImage::ImageRgb8(picture.clone()));
    assert!(can_take_png(&bytes, 20_000));
    let decoded = decode_zune_png(&bytes).unwrap();
    assert_eq!((decoded.width, decoded.height), (5, 3));
    let expected: Vec<u8> = picture
        .pixels()
        .flat_map(|pixel| [pixel[0], pixel[1], pixel[2], 255])
        .collect();
    assert_eq!(decoded.pixels, expected);
    assert_eq!(decode_zune_png(&deep()).unwrap().pixels, [0x12, 0x56, 0x9a, 0xff]);
}

#[test]
fn frames_of_deep_samples_have_edges_within_the_limit() {
    let wide = with_chunks(&deep(), &[frame_control(u32::MAX, u32::MAX)]);
    assert!(!can_take_png(&wide, 20_000));
    assert_eq!(reject_chunks(&wide, 20_000), Err(REFUSED.to_owned()));
    assert_eq!(decode_zune_png(&wide).err().as_deref(), Some(REFUSED));
    assert!(!can_take_png(
        &with_chunks(&deep(), &[frame_control(1, 20_001)]),
        20_000
    ));
    let own = with_chunks(&deep(), &[frame_control(1, 1)]);
    assert!(can_take_png(&own, 20_000));
    assert_eq!(decode_zune_png(&own).unwrap().pixels, [0x12, 0x56, 0x9a, 0xff]);
    // Of eight bits per sample, the decoder refuses such a frame itself.
    let shallow = encoded(DynamicImage::ImageRgba8(ImageBuffer::new(1, 1)));
    let wide = with_chunks(&shallow, &[frame_control(u32::MAX, u32::MAX)]);
    assert!(can_take_png(&wide, 20_000));
    assert!(decode_zune_png(&wide).is_err());
}

#[test]
fn a_later_frame_takes_the_place_of_a_wide_one() {
    let bytes = with_chunks(
        &deep(),
        &[frame_control(u32::MAX, 1), frame_control(1, 1)],
    );
    assert!(can_take_png(&bytes, 20_000));
}

#[test]
fn pictures_of_indices_have_a_palette() {
    let bytes = indexed(true);
    assert!(can_take_png(&bytes, 20_000));
    assert_eq!(
        decode_zune_png(&bytes).unwrap().pixels,
        [10, 20, 30, 255, 40, 50, 60, 255, 40, 50, 60, 255, 10, 20, 30, 255]
    );
    let bare = indexed(false);
    assert!(!can_take_png(&bare, 20_000));
    assert_eq!(decode_zune_png(&bare).err().as_deref(), Some(REFUSED));
    // A gamma chunk of another length makes the decoder lose its place before the palette.
    let hidden = with_chunks(&bytes, &[chunk(b"gAMA", &[0; 40])]);
    assert!(decode_zune_png(&hidden).is_err());
    let plain = with_chunks(&bytes, &[chunk(b"gAMA", &[0, 0, 0xb1, 0x8f])]);
    assert!(decode_zune_png(&plain).is_ok());
}

#[test]
fn texts_are_looked_at_up_to_a_limit() {
    let picture = encoded(DynamicImage::ImageRgba8(ImageBuffer::new(1, 1)));
    let text = |name: &[u8; 4], behind: usize, length: usize| {
        let mut payload = vec![b'k', 0];
        payload.resize(2 + behind + length, b'x');
        with_chunks(&picture, &[chunk(name, &payload)])
    };
    let limit = LOOK_LIMIT as usize;
    for (name, behind) in [(b"tEXt", 0), (b"zTXt", 1), (b"iCCP", 1), (b"iTXt", 4)] {
        let most = text(name, behind, limit);
        assert!(can_take_png(&most, 20_000));
        assert!(decode_zune_png(&most).is_ok());
        let more = text(name, behind, limit + 1);
        assert!(!can_take_png(&more, 20_000));
        assert_eq!(decode_zune_png(&more).err().as_deref(), Some(REFUSED));
    }
    let exif = |length: usize| with_chunks(&picture, &[chunk(b"eXIf", &vec![0; length])]);
    assert!(can_take_png(&exif(limit), 20_000));
    assert!(!can_take_png(&exif(limit + 1), 20_000));
}

#[test]
fn refused_files_go_to_the_broad_decoder() {
    let wide = with_chunks(&deep(), &[frame_control(u32::MAX, u32::MAX)]);
    let options = DecodeOptions {
        decoder_preferences: DecoderPreferences {
            png: DecoderPreference::ZunePng,
            ..DecoderPreferences::default()
        },
        ..DecodeOptions::default()
    };
    match prepare_image_with_options(&wide, 1024, options) {
        Ok(page) => {
            assert_eq!(page.decode_backend, DecodeBackend::ImageCrate);
            assert!(page.notice.unwrap().contains(REFUSED));
        }
        Err(error) => assert!(error.contains(REFUSED), "{error}"),
    }
}
