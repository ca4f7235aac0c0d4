//! The upscale quality scan: pictures, comparisons, reports and contact sheets.
use image::{DynamicImage, ImageFormat, Rgba, RgbaImage};
use std::io::Cursor;
use suisuiview::color::ColorImage;
use suisuiview::state::{ResizeFilter, WgpuUpscaleMethod};
use suisuiview::upscale_quality::compare::{compare_channels, edge_sample_step};
use suisuiview::upscale_quality::pictures::{
    draw_page_pair, prepare_page_pair, quality_display_dimensions, resize_color_image,
};
use suisuiview::upscale_quality::report::{
    clamp_upscale_source_long_edge, default_upscale_quality_report_path, scanned_page_count,
    selected_method_failure, PageUpscaleQuality, QualityMetrics, UpscaleQualityReport,
    UpscaleQualityRun, UpscaleQualitySummary, UpscaleQualityVisual,
};
use suisuiview::upscale_quality::scan::{
    fail_page, gpu_methods_for_filter, largest_difference_of, new_page, push_failed_run, push_run,
    reference_name, scan_cases, set_sizes, settle_visuals, ScanCase,
};
use suisuiview::upscale_quality::scan_loop::{ScanAction, ScanEvent, ScanLoop};
use suisuiview::upscale_quality::visuals::{
    contact_sheet, contact_sheet_name, draw_text, fill_rect, glyph_rows, label_scale_for, overlay,
    page_dir_name, sanitize_name, text_height, text_width, thumbnail_rgba, thumbnail_size,
    visual_file_name, RgbaPicture, GUTTER, THUMBNAIL_HEIGHT, THUMBNAIL_WIDTH,
};

fn white(size: [usize; 2]) -> ColorImage {
    ColorImage::from_rgba_unmultiplied(size, &vec![255u8; size[0] * size[1] * 4])
}

fn plain(width: u32, height: u32, value: u8) -> RgbaPicture {
    RgbaPicture {
        width,
        height,
        pixels: vec![value; (width * height * 4) as usize],
    }
}

fn empty_report() -> UpscaleQualityReport {
    UpscaleQualityReport {
        path: "book.cbz".to_owned(),
        title: "book".to_owned(),
        page_count: 1,
        source_long_edge: 1024,
        target_long_edge: 2048,
        gpu_available: true,
        gpu_error: None,
        failures: 0,
        methods: Vec::new(),
        pages: Vec::new(),
    }
}

#[test]
fn identical_images_have_perfect_quality() {
    let image = white([2, 2]);
    let tally = compare_channels(&image, &image).unwrap();
    assert_eq!(tally.pixels, 4);
    assert_eq!(tally.max_abs_diff, 0);
    assert_eq!(tally.abs_sum, 0);
    assert_eq!(tally.square_sum, 0);
    assert_eq!(tally.different_pixels, 0);
}

#[test]
fn differences_are_counted_over_all_channels() {
    let left = ColorImage::from_rgba_unmultiplied([2, 1], &[10, 20, 30, 255, 1, 2, 3, 255]);
    let right = ColorImage::from_rgba_unmultiplied([2, 1], &[10, 25, 28, 255, 1, 2, 3, 255]);
    let tally = compare_channels(&left, &right).unwrap();
    assert_eq!(tally.abs_sum, 7);
    assert_eq!(tally.square_sum, 29);
    assert_eq!(tally.max_abs_diff, 5);
    assert_eq!(tally.different_pixels, 1);
    assert_eq!(compare_channels(&right, &left).unwrap(), tally);
}

#[test]
fn pictures_of_other_sizes_are_not_compared() {
    assert_eq!(
        compare_channels(&white([2, 2]), &white([2, 3])).unwrap_err(),
        "Image sizes differ: baseline [2, 2], candidate [2, 3]"
    );
    assert_eq!(
        compare_channels(&white([0, 3]), &white([0, 3])).unwrap_err(),
        "Image has no pixels"
    );
}

#[test]
fn large_pictures_are_sampled_for_edges() {
    assert_eq!(edge_sample_step(1000, 1000), 1);
    assert_eq!(edge_sample_step(1001, 1000), 2);
    assert_eq!(edge_sample_step(2001, 2000), 4);
    assert_eq!(edge_sample_step(usize::MAX, 2), 4);
}

#[test]
fn resize_quality_helper_keeps_requested_size() {
    let image = white([2, 2]);
    let resized = resize_color_image(&image, [4, 4], ResizeFilter::Bicubic);
    assert_eq!(resized.size, [4, 4]);
    assert_eq!(resized.pixels, vec![255; 64]);
}

#[test]
fn resize_to_the_nearest_pixel() {
    let image = ColorImage::from_rgba_unmultiplied([2, 1], &[10, 20, 30, 255, 1, 2, 3, 255]);
    let resized = resize_color_image(&image, [4, 1], ResizeFilter::Nearest);
    assert_eq!(
        resized.pixels,
        vec![10, 20, 30, 255, 10, 20, 30, 255, 1, 2, 3, 255, 1, 2, 3, 255]
    );
}

#[test]
fn quality_dimensions_scale_the_longer_edge() {
    assert_eq!(
        quality_display_dimensions(400, 300, 200, false),
        Ok((200, 150))
    );
    assert_eq!(
        quality_display_dimensions(400, 300, 800, false),
        Ok((400, 300))
    );
    assert_eq!(
        quality_display_dimensions(400, 300, 800, true),
        Ok((800, 600))
    );
    assert_eq!(
        quality_display_dimensions(1000, 1, 10, true),
        Ok((10, 1))
    );
    assert_eq!(
        quality_display_dimensions(0, 1, 10, true).unwrap_err(),
        "Image has zero-sized dimensions"
    );
}

#[test]
fn page_pairs_are_drawn_from_the_same_page() {
    let picture = RgbaImage::from_fn(40, 20, |x, y| Rgba([x as u8 * 5, y as u8 * 9, 77, 255]));
    let mut bytes = Vec::new();
    DynamicImage::ImageRgba8(picture.clone())
        .write_to(&mut Cursor::new(&mut bytes), ImageFormat::Png)
        .unwrap();
    let (input, baseline) = prepare_page_pair(&bytes, 64, 80).unwrap();
    // The page is smaller than the source edge, so it is taken as it is.
    assert_eq!(input.size, [40, 20]);
    assert_eq!(input.pixels, picture.into_raw());
    assert_eq!(baseline.size, [80, 40]);
    assert!(prepare_page_pair(b"not-an-image", 64, 80).is_err());
}

#[test]
fn selected_quality_method_requires_success() {
    let report = empty_report();

    let error = selected_method_failure(&report, WgpuUpscaleMethod::WgslArtcnnC4F16).unwrap();

    assert!(error.contains("ArtCNN C4F16 produced no successful quality runs"));
}

#[test]
fn selected_quality_method_fails_partial_page_errors() {
    let report = UpscaleQualityReport {
        page_count: 2,
        failures: 1,
        pages: vec![PageUpscaleQuality {
            index: 0,
            name: "page-0000.png".to_owned(),
            source_width: None,
            source_height: None,
            output_width: None,
            output_height: None,
            contact_sheet: None,
            visuals: Vec::new(),
            runs: Vec::new(),
            error: Some("decode failed".to_owned()),
        }],
        ..empty_report()
    };

    let error = selected_method_failure(&report, WgpuUpscaleMethod::WgslArtcnnC4F16).unwrap();

    assert!(error.contains("page-level failure"));
    assert!(error.contains("decode failed"));
}

#[test]
fn selected_quality_method_needs_the_gpu() {
    let report = UpscaleQualityReport {
        gpu_available: false,
        gpu_error: Some("no adapter".to_owned()),
        ..empty_report()
    };
    assert_eq!(
        selected_method_failure(&report, WgpuUpscaleMethod::NvidiaNis).unwrap(),
        format!(
            "{} was requested but WGSL upscale quality scan is unavailable: no adapter",
            WgpuUpscaleMethod::NvidiaNis.label()
        )
    );
}

#[test]
fn selected_quality_method_fails_with_its_runs() {
    let method = WgpuUpscaleMethod::NvidiaNis;
    let mut page = new_page(0, "page.png".to_owned());
    push_failed_run(method, "too large".to_owned(), &mut page);
    push_failed_run(
        WgpuUpscaleMethod::WgslFsrStyle,
        "another".to_owned(),
        &mut page,
    );
    let report = UpscaleQualityReport {
        pages: vec![page],
        ..empty_report()
    };
    assert_eq!(
        selected_method_failure(&report, method).unwrap(),
        format!(
            "{} failed on 1 page(s); first error: too large",
            method.label()
        )
    );
}

#[test]
fn selected_quality_method_that_succeeded_has_not_failed() {
    let method = WgpuUpscaleMethod::NvidiaNis;
    let report = UpscaleQualityReport {
        methods: vec![UpscaleQualitySummary {
            method: method.label().to_owned(),
            runs: vec![QualityMetrics::default()],
        }],
        ..empty_report()
    };
    assert_eq!(selected_method_failure(&report, method), None);
}

#[test]
fn zero_quality_max_pages_means_unlimited() {
    assert_eq!(scanned_page_count(4, None), 4);
    assert_eq!(scanned_page_count(4, Some(0)), 4);
    assert_eq!(scanned_page_count(4, Some(2)), 2);
    assert_eq!(scanned_page_count(4, Some(8)), 4);
}

#[test]
fn source_edge_is_clamped() {
    assert_eq!(clamp_upscale_source_long_edge(1), 64);
    assert_eq!(clamp_upscale_source_long_edge(1024), 1024);
    assert_eq!(clamp_upscale_source_long_edge(100_000), 4096);
    assert_eq!(
        default_upscale_quality_report_path(),
        "perf-fixtures/upscale-quality-report.json"
    );
}

#[test]
fn summaries_are_kept_in_the_order_of_their_names() {
    let metrics = |max_abs_diff| QualityMetrics {
        max_abs_diff,
        ..QualityMetrics::default()
    };
    let mut page = new_page(3, "page.png".to_owned());
    let mut summaries = Vec::new();
    push_run("Lanczos3", Ok(metrics(3)), &mut page, &mut summaries);
    push_run("Bicubic", Ok(metrics(5)), &mut page, &mut summaries);
    push_run("Lanczos3", Ok(metrics(9)), &mut page, &mut summaries);
    push_run(
        "Nearest",
        Err("sizes differ".to_owned()),
        &mut page,
        &mut summaries,
    );
    push_run("Lanczos3", Ok(metrics(4)), &mut page, &mut summaries);

    let names: Vec<&str> = summaries
        .iter()
        .map(|summary| summary.method.as_str())
        .collect();
    assert_eq!(names, vec!["Bicubic", "Lanczos3", "Nearest"]);
    assert_eq!(
        summaries[1].runs,
        vec![metrics(3), metrics(9), metrics(4)]
    );
    assert!(summaries[2].runs.is_empty());
    assert_eq!(largest_difference_of(&summaries[1]), 9);
    assert_eq!(largest_difference_of(&summaries[2]), 0);
    assert_eq!(page.runs.len(), 5);
    let UpscaleQualityRun {
        method,
        metrics: measured,
        error,
    } = &page.runs[3];
    assert_eq!(method, "Nearest");
    assert_eq!(*measured, QualityMetrics::default());
    assert_eq!(error.as_deref(), Some("sizes differ"));
}

#[test]
fn pages_take_up_what_became_of_them() {
    let mut failures = 0;
    let mut page = new_page(3, "page.png".to_owned());
    assert_eq!((page.index, page.name.as_str()), (3, "page.png"));
    set_sizes(&mut page, [1, 2], [3, 4]);
    assert_eq!((page.source_width, page.source_height), (Some(1), Some(2)));
    assert_eq!((page.output_width, page.output_height), (Some(3), Some(4)));
    settle_visuals(
        &mut page,
        &mut failures,
        Ok((
            "sheet.png".to_owned(),
            vec![UpscaleQualityVisual {
                method: "m".to_owned(),
                path: "p".to_owned(),
            }],
        )),
    );
    assert_eq!(failures, 0);
    assert_eq!(page.contact_sheet.as_deref(), Some("sheet.png"));
    assert_eq!(page.visuals.len(), 1);
    settle_visuals(&mut page, &mut failures, Err("disk full".to_owned()));
    assert_eq!(failures, 1);
    assert_eq!(
        page.error.as_deref(),
        Some("visual export failed: disk full")
    );
    fail_page(&mut page, &mut failures, "decode failed".to_owned());
    assert_eq!(failures, 2);
    assert_eq!(page.error.as_deref(), Some("decode failed"));
}

#[test]
fn scans_run_three_resizers_and_the_gpu_methods() {
    let methods = gpu_methods_for_filter(Some(WgpuUpscaleMethod::NvidiaNis));
    assert_eq!(methods, vec![WgpuUpscaleMethod::NvidiaNis]);
    let cases = scan_cases(true, &methods);
    let labels: Vec<&str> = cases.iter().map(|case| case.label()).collect();
    assert_eq!(
        labels,
        vec![
            "Bicubic",
            "Lanczos3",
            "Fast/Triangle",
            WgpuUpscaleMethod::NvidiaNis.label()
        ]
    );
    assert_eq!(scan_cases(false, &methods).len(), 3);
    assert_eq!(
        ScanCase::Cpu(ResizeFilter::FastTriangle).visual_name(),
        "cpu-fast-triangle"
    );
    assert_eq!(
        ScanCase::Gpu(WgpuUpscaleMethod::WgslFsr1EasuRcas).visual_name(),
        "wgsl-fsr1-easu-rcas"
    );
    assert_eq!(reference_name(), "reference-lanczos3");
}

#[test]
fn visual_file_names_are_stable() {
    assert_eq!(sanitize_name("WGSL FSR1 EASU+RCAS"), "wgsl-fsr1-easu-rcas");
}

#[test]
fn names_number_pages_and_pictures() {
    assert_eq!(sanitize_name("  --A  b--"), "a-b");
    assert_eq!(sanitize_name("+-+"), "");
    assert_eq!(sanitize_name("a-b"), "a-b");
    assert_eq!(page_dir_name(7), "page-0007");
    assert_eq!(page_dir_name(12345), "page-12345");
    assert_eq!(visual_file_name(3, "cpu-bicubic"), "03-cpu-bicubic.png");
    assert_eq!(contact_sheet_name(7), "page-0007-contact.png");
}

#[test]
fn contact_sheet_stacks_entries_vertically_with_labels() {
    let image = plain(40, 60, 255);
    let sheet = contact_sheet(&vec![
        ("cpu-bicubic".to_owned(), image.clone()),
        ("wgsl-fsr-style".to_owned(), image),
    ]);
    assert!(sheet.height > 60 * 2);
    assert!(sheet.width > 40);
    // 14 characters of six columns at scale 4, less one column; two rows of 60 with gutters.
    assert_eq!(sheet.width, 3 * GUTTER + 40 + 14 * 24 - 4);
    assert_eq!(sheet.height, GUTTER + 2 * (60 + GUTTER));
    let pixel = |x: u32, y: u32| {
        let at = ((y * sheet.width + x) * 4) as usize;
        sheet.pixels[at..at + 4].to_vec()
    };
    assert_eq!(pixel(0, 0), vec![32, 32, 32, 255]);
    assert_eq!(pixel(GUTTER, GUTTER), vec![255; 4]);
    assert_eq!(pixel(GUTTER + 39, GUTTER + 59), vec![255; 4]);
    assert_eq!(pixel(GUTTER + 40, GUTTER), vec![32, 32, 32, 255]);
    assert_eq!(pixel(GUTTER, GUTTER + 76), vec![255; 4]);
    // The top row of the C is empty on its left and drawn beside it.
    let label = (2 * GUTTER + 40, GUTTER + (60 - 28) / 2);
    assert_eq!(pixel(label.0, label.1), vec![32, 32, 32, 255]);
    assert_eq!(pixel(label.0 + 4, label.1), vec![242, 242, 242, 255]);
}

#[test]
fn contact_sheet_of_nothing_is_one_row() {
    let sheet = contact_sheet(&Vec::new());
    assert_eq!(sheet.height, GUTTER + 28 + GUTTER);
    assert_eq!(sheet.width, 3 * GUTTER + 1 + 1);
}

#[test]
fn glyphs_are_drawn_from_their_rows() {
    let glyphs: Vec<(char, [&str; 7])> = vec![
        (
            'A',
            [
                "01110", "10001", "10001", "11111", "10001", "10001", "10001",
            ],
        ),
        (
            'B',
            [
                "11110", "10001", "10001", "11110", "10001", "10001", "11110",
            ],
        ),
        (
            'C',
            [
                "01111", "10000", "10000", "10000", "10000", "10000", "01111",
            ],
        ),
        (
            'D',
            [
                "11110", "10001", "10001", "10001", "10001", "10001", "11110",
            ],
        ),
        (
            'E',
            [
                "11111", "10000", "10000", "11110", "10000", "10000", "11111",
            ],
        ),
        (
            'F',
            [
                "11111", "10000", "10000", "11110", "10000", "10000", "10000",
            ],
        ),
        (
            'G',
            [
                "01111", "10000", "10000", "10111", "10001", "10001", "01111",
            ],
        ),
        (
            'H',
            [
                "10001", "10001", "10001", "11111", "10001", "10001", "10001",
            ],
        ),
        (
            'I',
            [
                "11111", "00100", "00100", "00100", "00100", "00100", "11111",
            ],
        ),
        (
            'J',
            [
                "00111", "00010", "00010", "00010", "10010", "10010", "01100",
            ],
        ),
        (
            'K',
            [
                "10001", "10010", "10100", "11000", "10100", "10010", "10001",
            ],
        ),
        (
            'L',
            [
                "10000", "10000", "10000", "10000", "10000", "10000", "11111",
            ],
        ),
        (
            'M',
            [
                "10001", "11011", "10101", "10101", "10001", "10001", "10001",
            ],
        ),
        (
            'N',
            [
                "10001", "11001", "10101", "10011", "10001", "10001", "10001",
            ],
        ),
        (
            'O',
            [
                "01110", "10001", "10001", "10001", "10001", "10001", "01110",
            ],
        ),
        (
            'P',
            [
                "11110", "10001", "10001", "11110", "10000", "10000", "10000",
            ],
        ),
        (
            'Q',
            [
                "01110", "10001", "10001", "10001", "10101", "10010", "01101",
            ],
        ),
        (
            'R',
            [
                "11110", "10001", "10001", "11110", "10100", "10010", "10001",
            ],
        ),
        (
            'S',
            [
                "01111", "10000", "10000", "01110", "00001", "00001", "11110",
            ],
        ),
        (
            'T',
            [
                "11111", "00100", "00100", "00100", "00100", "00100", "00100",
            ],
        ),
        (
            'U',
            [
                "10001", "10001", "10001", "10001", "10001", "10001", "01110",
            ],
        ),
        (
            'V',
            [
                "10001", "10001", "10001", "10001", "01010", "01010", "00100",
            ],
        ),
        (
            'W',
            [
                "10001", "10001", "10001", "10101", "10101", "11011", "10001",
            ],
        ),
        (
            'X',
            [
                "10001", "01010", "00100", "00100", "00100", "01010", "10001",
            ],
        ),
        (
            'Y',
            [
                "10001", "01010", "00100", "00100", "00100", "00100", "00100",
            ],
        ),
        (
            'Z',
            [
                "11111", "00001", "00010", "00100", "01000", "10000", "11111",
            ],
        ),
        (
            '0',
            [
                "01110", "10001", "10011", "10101", "11001", "10001", "01110",
            ],
        ),
        (
            '1',
            [
                "00100", "01100", "00100", "00100", "00100", "00100", "01110",
            ],
        ),
        (
            '2',
            [
                "01110", "10001", "00001", "00010", "00100", "01000", "11111",
            ],
        ),
        (
            '3',
            [
                "11110", "00001", "00001", "01110", "00001", "00001", "11110",
            ],
        ),
        (
            '4',
            [
                "00010", "00110", "01010", "10010", "11111", "00010", "00010",
            ],
        ),
        (
            '5',
            [
                "11111", "10000", "10000", "11110", "00001", "00001", "11110",
            ],
        ),
        (
            '6',
            [
                "01110", "10000", "10000", "11110", "10001", "10001", "01110",
            ],
        ),
        (
            '7',
            [
                "11111", "00001", "00010", "00100", "01000", "01000", "01000",
            ],
        ),
        (
            '8',
            [
                "01110", "10001", "10001", "01110", "10001", "10001", "01110",
            ],
        ),
        (
            '9',
            [
                "01110", "10001", "10001", "01111", "00001", "00001", "01110",
            ],
        ),
        (
            '+',
            [
                "00000", "00100", "00100", "11111", "00100", "00100", "00000",
            ],
        ),
        (
            '-',
            [
                "00000", "00000", "00000", "11111", "00000", "00000", "00000",
            ],
        ),
        (
            '/',
            [
                "00001", "00010", "00010", "00100", "01000", "01000", "10000",
            ],
        ),
        (
            '.',
            [
                "00000", "00000", "00000", "00000", "00000", "01100", "01100",
            ],
        ),
        (
            '_',
            [
                "00000", "00000", "00000", "00000", "00000", "00000", "11111",
            ],
        ),
        (
            ' ',
            [
                "00000", "00000", "00000", "00000", "00000", "00000", "00000",
            ],
        ),
        (
            '?',
            [
                "11111", "00001", "00010", "00100", "00100", "00000", "00100",
            ],
        ),
    ];
    for (ch, rows) in glyphs {
        assert_eq!(glyph_rows(ch), rows, "{ch}");
    }
}

#[test]
fn text_is_drawn_in_upper_case() {
    let mut image = plain(6, 7, 0);
    draw_text(&mut image, "t", 0, 0, 1, [9, 9, 9, 9]);
    let rows: Vec<String> = image
        .pixels
        .chunks(24)
        .map(|row| {
            row.chunks(4)
                .map(|pixel| if pixel == [9, 9, 9, 9] { '1' } else { '0' })
                .collect()
        })
        .collect();
    assert_eq!(
        rows,
        vec!["111110", "001000", "001000", "001000", "001000", "001000", "001000"]
    );
}

#[test]
fn rectangles_are_clipped() {
    let mut image = plain(3, 3, 0);
    fill_rect(&mut image, 2, 1, 5, 1, [1, 2, 3, 4]);
    let mut expected = vec![0u8; 36];
    expected[20..24].copy_from_slice(&[1, 2, 3, 4]);
    assert_eq!(image.pixels, expected);
}

#[test]
fn text_has_six_columns_per_character() {
    assert_eq!(text_width("abc", 2), 34);
    assert_eq!(text_width("", 2), 10);
    assert_eq!(text_height(3), 21);
    assert_eq!(label_scale_for(0), 4);
    assert_eq!(label_scale_for(432), 6);
    assert_eq!(label_scale_for(10_000), 12);
}

#[test]
fn thumbnails_are_as_large_as_single_precision_makes_them() {
    let expected = |width: u32, height: u32, max_width: u32, max_height: u32| {
        let width = width.max(1);
        let height = height.max(1);
        let scale = (max_width as f32 / width as f32)
            .min(max_height as f32 / height as f32)
            .min(1.0);
        (
            (width as f32 * scale).round().max(1.0) as u32,
            (height as f32 * scale).round().max(1.0) as u32,
        )
    };
    let mut state = 12345u64;
    for round in 0..4000u32 {
        state = state
            .wrapping_mul(6364136223846793005)
            .wrapping_add(1442695040888963407);
        let shift = round % 20;
        let width = (state >> 33) as u32 >> shift;
        let height = (state >> 20) as u32 >> (shift + round % 7);
        assert_eq!(
            thumbnail_size(width, height, THUMBNAIL_WIDTH, THUMBNAIL_HEIGHT),
            expected(width, height, THUMBNAIL_WIDTH, THUMBNAIL_HEIGHT),
            "{width}x{height}"
        );
    }
}

#[test]
fn thumbnails_match_the_triangle_filter() {
    let picture = RgbaImage::from_fn(40, 20, |x, y| Rgba([x as u8 * 5, y as u8 * 9, 77, 255]));
    let image = RgbaPicture {
        width: 40,
        height: 20,
        pixels: picture.clone().into_raw(),
    };
    let thumb = thumbnail_rgba(&image, 10, 10);
    assert_eq!((thumb.width, thumb.height), (10, 5));
    let expected = image::imageops::resize(&picture, 10, 5, image::imageops::FilterType::Triangle);
    assert_eq!(thumb.pixels, expected.into_raw());
}

#[test]
fn overlays_are_clipped_and_blended() {
    let mut bottom = plain(3, 2, 10);
    overlay(&mut bottom, &plain(2, 2, 255), 2, 1);
    let mut expected = vec![10u8; 24];
    expected[20..24].copy_from_slice(&[255; 4]);
    assert_eq!(bottom.pixels, expected);
}

#[test]
fn glyphs_differ_from_character_to_character() {
    let drawn: Vec<char> = ('A'..='Z')
        .chain('0'..='9')
        .chain("+-/._ ".chars())
        .collect();
    for (i, first) in drawn.iter().enumerate() {
        for second in &drawn[i + 1..] {
            assert_ne!(glyph_rows(*first), glyph_rows(*second), "{first} and {second}");
        }
        assert_ne!(glyph_rows(*first), glyph_rows('?'));
    }
    assert_eq!(glyph_rows('a'), glyph_rows('?'));
}

fn measured(max_abs_diff: u8) -> QualityMetrics {
    QualityMetrics {
        max_abs_diff,
        ..QualityMetrics::default()
    }
}

#[test]
fn a_scan_reads_runs_and_writes_page_by_page() {
    let method = WgpuUpscaleMethod::WgslFsr1EasuRcas;
    let cases = vec![ScanCase::Cpu(ResizeFilter::Lanczos3), ScanCase::Gpu(method)];
    let mut scan = ScanLoop::new(3, cases, true);
    assert_eq!(scan.action(), ScanAction::Read(0));
    let opened = |name: &str| ScanEvent::Opened(name.to_owned(), Ok(([1, 2], [3, 4])));
    assert_eq!(
        scan.step(opened("first")),
        ScanAction::Run(ScanCase::Cpu(ResizeFilter::Lanczos3))
    );
    assert_eq!(
        scan.step(ScanEvent::Compared(Ok(measured(9)))),
        ScanAction::Run(ScanCase::Gpu(method))
    );
    assert_eq!(
        scan.step(ScanEvent::NoPicture("lost".to_owned())),
        ScanAction::Write(0)
    );
    assert_eq!(
        scan.step(ScanEvent::Written(Ok(("sheet".to_owned(), Vec::new())))),
        ScanAction::Read(1)
    );
    assert_eq!(
        scan.step(ScanEvent::Opened("second".to_owned(), Err("torn".to_owned()))),
        ScanAction::Read(2)
    );
    scan.step(opened("third"));
    scan.step(ScanEvent::Compared(Ok(measured(2))));
    assert_eq!(
        scan.step(ScanEvent::Compared(Err("sizes differ".to_owned()))),
        ScanAction::Write(2)
    );
    assert_eq!(
        scan.step(ScanEvent::Written(Err("disk full".to_owned()))),
        ScanAction::Finish
    );

    assert_eq!(scan.failures, 2);
    let names: Vec<&str> = scan.pages.iter().map(|page| page.name.as_str()).collect();
    assert_eq!(names, vec!["first", "second", "third"]);
    assert_eq!(scan.pages[0].contact_sheet.as_deref(), Some("sheet"));
    assert_eq!(scan.pages[0].output_width, Some(3));
    assert_eq!(scan.pages[0].runs[1].method, method.label());
    assert_eq!(scan.pages[0].runs[1].error.as_deref(), Some("lost"));
    assert_eq!(scan.pages[1].error.as_deref(), Some("torn"));
    assert!(scan.pages[1].runs.is_empty());
    assert_eq!(
        scan.pages[2].error.as_deref(),
        Some("visual export failed: disk full")
    );
    assert_eq!(scan.pages[2].runs.len(), 2);
    let lanczos = &scan.summaries[0];
    assert_eq!(lanczos.runs, vec![measured(9), measured(2)]);
    assert_eq!(scan.summaries.len(), 2);
    assert!(scan.summaries[1].runs.is_empty());
}

#[test]
fn a_scan_without_pictures_goes_on_to_the_next_page() {
    let mut scan = ScanLoop::new(1, vec![ScanCase::Cpu(ResizeFilter::Bicubic)], false);
    scan.step(ScanEvent::Opened("only".to_owned(), Ok(([1, 1], [2, 2]))));
    // Resizing on the CPU always gives a picture.
    assert_eq!(
        scan.step(ScanEvent::NoPicture("lost".to_owned())),
        ScanAction::Run(ScanCase::Cpu(ResizeFilter::Bicubic))
    );
    assert_eq!(
        scan.step(ScanEvent::Compared(Ok(measured(1)))),
        ScanAction::Finish
    );
    assert_eq!(scan.failures, 0);
    assert_eq!(
        ScanLoop::new(0, vec![ScanCase::Cpu(ResizeFilter::Bicubic)], true).action(),
        ScanAction::Finish
    );
}

#[test]
fn page_pairs_are_not_drawn_from_endless_edges() {
    let strip = |width: u32| plain(width, 1, 9);
    assert_eq!(
        draw_page_pair(&strip(1_048_577), 512, 1024).err().as_deref(),
        Some("Image edges are too long to be resized")
    );
    let (input, baseline) = draw_page_pair(&strip(1_048_576), 512, 1024).unwrap();
    assert_eq!(input.size, [512, 1]);
    assert_eq!(baseline.size, [1024, 1]);
    assert_eq!(
        draw_page_pair(&plain(0, 1, 9), 512, 1024).err().as_deref(),
        Some("Image has zero-sized dimensions")
    );
}
