//! The GPU bench: what it compiles, how it routes a request, and the plans of its parts.
use suisuiview::gpu::acnet::{
    acnet_entry_point, acnet_name, acnet_passes, acnet_plan, is_acnet_method, AcnetPass,
    AcnetTexture,
};
use suisuiview::gpu::anime4k::{anime4k_plan, Anime4kTexture, ConvPass};
use suisuiview::gpu::artcnn::{
    plan_readback, plan_upload, readback_byte_size, variant_for_method, ArtcnnVariant,
};
use suisuiview::gpu::bench::{
    filter_for_method, planned_benches, render_steps, route, BenchRoute, MethodFilter,
    MethodGroup, RenderTexture,
};
use suisuiview::gpu::cunny::cunny_methods;
use suisuiview::gpu::nvidia_nis::{nis_plan, supports_near_1x_to_2x, validate_output_size};
use suisuiview::gpu::readback::{
    align_to, align_to_checked, can_be_read_back, divide_up, readback, rgba8_bytes_per_row,
    tally_bytes, unpad_rows, Readback,
};
use suisuiview::gpu::sizes::{double, exact_double, require_double_or_crop};
use suisuiview::gpu::span::{
    check_span_run, fit_span_output, span_exact_output, span_manifest_place,
    validate_span_bench_manifest, ManifestPlace, NamedPath, SpanManifest, SrLabFamily,
};
use suisuiview::state::WgpuUpscaleMethod;

#[test]
fn output_size_accepts_one_pixel_rounding_over_2x() {
    assert!(validate_output_size([984, 1024], [1969, 2048]).is_ok());
}

#[test]
fn output_size_rejects_sizes_outside_near_1x_to_2x() {
    assert!(validate_output_size([984, 1024], [1970, 2048]).is_err());
    assert!(validate_output_size([984, 1024], [983, 2048]).is_err());
    assert!(validate_output_size([984, 1024], [1968, 0]).is_err());
}

#[test]
fn nis_messages_name_what_is_wrong() {
    assert_eq!(
        validate_output_size([0, 1], [1, 1]).unwrap_err(),
        "cannot upscale an empty image with NVIDIA NIS"
    );
    assert_eq!(
        validate_output_size([984, 1024], [1970, 2048]).unwrap_err(),
        "NVIDIA NIS supports near-1x..2x enlargement within one pixel, got 984x1024 -> 1970x2048"
    );
    assert_eq!(
        supports_near_1x_to_2x(usize::MAX, 1).unwrap_err(),
        "NVIDIA NIS 2x output size overflowed"
    );
    assert_eq!(supports_near_1x_to_2x(usize::MAX / 2, 1), Ok(false));
}

#[test]
fn nis_plan_covers_the_output_with_groups_of_sixteen() {
    let plan = nis_plan([100, 50], [150, 97]).unwrap();
    assert_eq!(plan.source_output, [100, 50, 150, 97]);
    assert_eq!(plan.groups, [10, 7]);
    assert_eq!(
        plan.readback,
        Readback {
            row_bytes: 600,
            padded_bytes_per_row: 768,
            rows: 97,
            size: 768 * 97,
        }
    );
    assert!(nis_plan([100, 50], [99, 97]).is_err());
}

#[test]
fn rows_are_padded_to_the_alignment() {
    assert_eq!(divide_up(0, 16), 0);
    assert_eq!(divide_up(16, 16), 1);
    assert_eq!(divide_up(17, 16), 2);
    assert_eq!(align_to(256, 256), 256);
    assert_eq!(align_to(257, 256), 512);
    assert!(can_be_read_back([1_000, 1_000]));
    assert!(!can_be_read_back([1 << 30, 1]));
    assert!(!can_be_read_back([1, 1 << 33]));
}

#[test]
fn padding_is_taken_off_again() {
    let layout = readback([3, 2]);
    let mut mapped = vec![0u8; layout.size as usize];
    for y in 0..2 {
        for x in 0..12 {
            mapped[y * 256 + x] = (y * 12 + x + 1) as u8;
        }
    }
    assert_eq!(
        unpad_rows(&mapped, layout),
        (1..=24).collect::<Vec<u8>>()
    );
}

#[test]
fn row_sizes_that_do_not_fit_are_errors() {
    assert_eq!(rgba8_bytes_per_row(10, "x"), Ok(40));
    assert_eq!(
        rgba8_bytes_per_row(1 << 30, "x").unwrap_err(),
        "x row byte size exceeds u32"
    );
    assert_eq!(
        rgba8_bytes_per_row(usize::MAX, "x").unwrap_err(),
        "x row byte size overflowed"
    );
    assert_eq!(align_to_checked(5, 4, "x"), Ok(8));
    assert_eq!(
        align_to_checked(5, 0, "x").unwrap_err(),
        "x alignment must be non-zero"
    );
    assert_eq!(
        align_to_checked(u32::MAX, 256, "x").unwrap_err(),
        "x alignment exceeds u32"
    );
}

#[test]
fn bytes_are_tallied() {
    let tally = tally_bytes(&[0, 255, 10, 0, 20]);
    assert_eq!(tally.count, 5);
    assert_eq!(tally.sum, 285);
    assert_eq!(tally.square_sum, 65_025 + 100 + 400);
    assert_eq!((tally.min, tally.max), (0, 255));
    assert_eq!((tally.zeros, tally.saturated), (2, 1));
    let nothing = tally_bytes(&[]);
    assert_eq!((nothing.count, nothing.min, nothing.max), (0, 0, 0));
}

#[test]
fn doubling_saturates() {
    assert_eq!(double(21), 42);
    assert_eq!(double(usize::MAX), usize::MAX);
    assert!(exact_double([3, 4], [6, 8]));
    assert!(!exact_double([3, 4], [6, 7]));
    assert_eq!(require_double_or_crop("Net", [3, 4], [5, 8]), Ok(()));
    assert_eq!(
        require_double_or_crop("Net", [3, 4], [4, 8]).unwrap_err(),
        "Net requires 2x output or a one-pixel crop, got 3x4 -> 4x8"
    );
}

#[test]
fn anime4k_draws_into_two_textures_by_turns() {
    let plan = anime4k_plan([4, 5], [8, 10]).unwrap();
    let pass = |input, output, pass_id| ConvPass {
        input,
        output,
        pass_id,
    };
    assert_eq!(
        plan.conv_passes,
        vec![
            pass(Anime4kTexture::Source, Anime4kTexture::FeatureA, 0),
            pass(Anime4kTexture::FeatureA, Anime4kTexture::FeatureB, 1),
            pass(Anime4kTexture::FeatureB, Anime4kTexture::FeatureA, 2),
            pass(Anime4kTexture::FeatureA, Anime4kTexture::FeatureB, 3),
        ]
    );
    assert_eq!(plan.final_feature, Anime4kTexture::FeatureB);
    assert_eq!(
        anime4k_plan([4, 5], [8, 9]).unwrap_err(),
        "Anime4K v3.2 CNN x2 S requires exact 2x output, got 4x5 -> 8x9"
    );
}

#[test]
fn acnet_runs_twelve_passes() {
    let names: Vec<String> = (0..12).map(|index| acnet_entry_point(4, index)).collect();
    assert_eq!(
        names,
        vec![
            "acnet_head_conv_1x8x3x3_part_0",
            "acnet_head_conv_1x8x3x3_part_1",
            "acnet_body_block_1_conv_8x8x3x3_part_0",
            "acnet_body_block_1_conv_8x8x3x3_part_1",
            "acnet_body_block_2_conv_8x8x3x3_part_0",
            "acnet_body_block_2_conv_8x8x3x3_part_1",
            "acnet_body_block_3_conv_8x8x3x3_part_0",
            "acnet_body_block_3_conv_8x8x3x3_part_1",
            "acnet_body_block_4_conv_8x8x3x3_part_0",
            "acnet_body_block_4_conv_8x8x3x3_part_1",
            "acnet_upscale_conv_8x4x3x3_part_0",
            "acnet_pixel_shuffle",
        ]
    );
    let passes = acnet_passes(4);
    assert_eq!(passes.len(), 12);
    let pass = |input0, input1, out, over_output| AcnetPass {
        input0,
        input1,
        out,
        over_output,
    };
    let source = AcnetTexture::Source;
    let first = (AcnetTexture::First0, AcnetTexture::First1);
    let second = (AcnetTexture::Second0, AcnetTexture::Second1);
    assert_eq!(passes[0], pass(source, source, first.0, false));
    assert_eq!(passes[1], pass(source, source, first.1, false));
    assert_eq!(passes[2], pass(first.0, first.1, second.0, false));
    assert_eq!(passes[3], pass(first.0, first.1, second.1, false));
    assert_eq!(passes[4], pass(second.0, second.1, first.0, false));
    assert_eq!(passes[9], pass(second.0, second.1, first.1, false));
    assert_eq!(passes[10], pass(first.0, first.1, second.0, false));
    assert_eq!(passes[11], pass(second.0, second.0, second.1, true));
    // With an odd number of blocks the last pair is the other one.
    let odd = acnet_passes(1);
    assert_eq!(odd[4], pass(second.0, second.1, first.0, false));
    assert_eq!(odd[5], pass(first.0, first.0, first.1, true));
}

#[test]
fn acnet_plan_tells_the_shaders_both_sizes() {
    let method = WgpuUpscaleMethod::WgslAcnetF8B4Luma;
    let plan = acnet_plan(method, [20, 10], [40, 19]).unwrap();
    assert_eq!(plan.source_groups, [2, 1]);
    assert_eq!(plan.output_groups, [3, 2]);
    assert_eq!(plan.params, [20, 10, 40, 19, 0, 0, 0, 0]);
    assert_eq!(plan.readback.padded_bytes_per_row, 256);
    assert_eq!(
        acnet_plan(method, [20, 10], [40, 21]).unwrap_err(),
        "ACNet F8B4 Luma requires 2x output or a one-pixel crop, got 20x10 -> 40x21"
    );
    assert_eq!(
        acnet_plan(WgpuUpscaleMethod::WgslFsr1Easu, [20, 10], [40, 20]).unwrap_err(),
        "WGSL FSR1 EASU GPU pipelines unavailable"
    );
    assert_eq!(
        acnet_name(WgpuUpscaleMethod::WgslAcnetF8B4BoxHdnLuma),
        Some("ACNet F8B4 Box HDN Luma")
    );
    assert!(!is_acnet_method(WgpuUpscaleMethod::NvidiaNis));
}

#[test]
fn artcnn_output_is_read_back_in_padded_rows() {
    assert_eq!(
        plan_readback(ArtcnnVariant::C4F16, [100, 3]),
        Ok(Readback {
            row_bytes: 400,
            padded_bytes_per_row: 512,
            rows: 3,
            size: 1536,
        })
    );
    assert_eq!(
        plan_readback(ArtcnnVariant::C4F16Dn, [1 << 30, 3]).unwrap_err(),
        "ArtCNN C4F16 DN output row byte size exceeds u32"
    );
    assert_eq!(
        plan_readback(ArtcnnVariant::C4F16Ds, [(1 << 30) - 1, 3]).unwrap_err(),
        "ArtCNN C4F16 DS output row alignment exceeds u32"
    );
    assert_eq!(
        plan_readback(ArtcnnVariant::C4F32, [100, 1 << 40]).unwrap_err(),
        "ArtCNN C4F32 output row count exceeds u32"
    );
    assert_eq!(
        readback_byte_size(u32::MAX, usize::MAX).unwrap_err(),
        "ArtCNN readback buffer size overflowed"
    );
    assert_eq!(plan_upload([7, 9]), Ok((28, 9)));
    assert_eq!(
        plan_upload([7, 1 << 40]).unwrap_err(),
        "ArtCNN source row count exceeds u32"
    );
}

#[test]
fn artcnn_methods_name_their_variant() {
    assert_eq!(
        variant_for_method(WgpuUpscaleMethod::WgslArtcnnC4F32Ds),
        Some(ArtcnnVariant::C4F32Ds)
    );
    assert_eq!(variant_for_method(WgpuUpscaleMethod::NvidiaNis), None);
}

#[test]
fn span_manifests_double_rgb_pictures() {
    let manifest = SpanManifest {
        family: SrLabFamily::SpanS,
        scale: 2,
        input_channels: 3,
        output_channels: 3,
    };
    assert_eq!(validate_span_bench_manifest(manifest), Ok(()));
    assert_eq!(
        validate_span_bench_manifest(SpanManifest {
            family: SrLabFamily::Other,
            ..manifest
        })
        .unwrap_err(),
        "SPAN quality bench requires a SPAN-family manifest"
    );
    for wrong in [
        SpanManifest {
            scale: 4,
            ..manifest
        },
        SpanManifest {
            input_channels: 1,
            ..manifest
        },
        SpanManifest {
            output_channels: 4,
            ..manifest
        },
    ] {
        assert_eq!(
            validate_span_bench_manifest(wrong).unwrap_err(),
            "SPAN quality bench requires a 3-channel x2 RGB manifest"
        );
    }
}

#[test]
fn span_manifest_is_taken_from_the_first_place_that_is_given() {
    let (absent, empty, given) = (NamedPath::Absent, NamedPath::Empty, NamedPath::Given);
    assert_eq!(
        span_manifest_place(given, given, true, true),
        Some(ManifestPlace::ExperimentVariable)
    );
    assert_eq!(
        span_manifest_place(absent, given, true, true),
        Some(ManifestPlace::SrLabVariable)
    );
    assert_eq!(
        span_manifest_place(empty, given, true, true),
        Some(ManifestPlace::FirstDefault)
    );
    assert_eq!(
        span_manifest_place(absent, empty, false, true),
        Some(ManifestPlace::SecondDefault)
    );
    assert_eq!(span_manifest_place(absent, absent, false, false), None);
}

#[test]
fn span_sizes_may_be_off_by_one() {
    assert_eq!(span_exact_output(2, [10, 20], [21, 39]), Ok([20, 40]));
    assert_eq!(
        span_exact_output(2, [10, 20], [22, 40]).unwrap_err(),
        "SR Lab SPAN x2 requires near-2x output, got 10x20 -> 22x40"
    );
    assert_eq!(
        span_exact_output(2, [usize::MAX, 20], [22, 40]).unwrap_err(),
        "SR Lab SPAN x2 output width overflowed"
    );
    assert_eq!(
        span_exact_output(2, [10, usize::MAX], [22, 40]).unwrap_err(),
        "SR Lab SPAN x2 output height overflowed"
    );
    assert_eq!(check_span_run([20, 40], [20, 40], 3), Ok(()));
    assert_eq!(
        check_span_run([20, 40], [20, 41], 3).unwrap_err(),
        "SR Lab SPAN x2 output size mismatch: expected 20x40, got 20x41"
    );
    assert_eq!(
        check_span_run([20, 40], [20, 40], 4).unwrap_err(),
        "SR Lab SPAN x2 expected 3 output channels, got 4"
    );
}

#[test]
fn span_output_is_fitted_to_the_size_asked_for() {
    let pixels: Vec<u8> = (0..2 * 3 * 4).collect();
    assert_eq!(
        fit_span_output(pixels.clone(), [2, 3], [2, 3]),
        Ok(pixels.clone())
    );
    let gray = vec![128u8; 4 * 4 * 4];
    let fitted = fit_span_output(gray, [4, 4], [3, 4]).unwrap();
    assert_eq!(fitted, vec![128u8; 3 * 4 * 4]);
    assert_eq!(
        fit_span_output(vec![0; 4], [4, 4], [3, 4]).unwrap_err(),
        "failed to build SR Lab SPAN x2 resize input image"
    );
}

#[test]
fn benchmark_networks_are_compiled_only_when_they_are_listed() {
    let all = planned_benches(&MethodFilter::All);
    assert!(all.nvidia_nis && all.anime4k && all.anime4k_m && all.acnet);
    assert!(all.artcnn.is_empty());
    assert!(!all.span);

    let only = planned_benches(&MethodFilter::Only(vec![
        WgpuUpscaleMethod::WgslArtcnnC4F32,
        WgpuUpscaleMethod::WgslSrLabSpanX2,
        WgpuUpscaleMethod::Cunny4x16Ds,
        WgpuUpscaleMethod::CunnyFastNvl,
    ]));
    assert!(!only.nvidia_nis && !only.anime4k && !only.anime4k_m && !only.acnet);
    assert_eq!(only.artcnn, vec![ArtcnnVariant::C4F32]);
    assert!(only.span);
    assert_eq!(only.cunny, Some(WgpuUpscaleMethod::Cunny4x16Ds));
}

#[test]
fn listed_methods_have_a_route() {
    let mut methods = cunny_methods().to_vec();
    methods.extend([
        WgpuUpscaleMethod::WgslFsr1Easu,
        WgpuUpscaleMethod::WgslAnime4kV32CnnX2S,
        WgpuUpscaleMethod::WgslAnime4kV32CnnX2M,
        WgpuUpscaleMethod::WgslArtcnnC4F16,
        WgpuUpscaleMethod::WgslSrLabSpanX2,
        WgpuUpscaleMethod::NvidiaNis,
        WgpuUpscaleMethod::WgslAcnetF8B4HdnLuma,
    ]);
    for method in methods {
        let benches = planned_benches(&filter_for_method(Some(method)));
        assert!(route(&benches, [1, 1], [2, 2], method).is_ok());
    }
}

#[test]
fn missing_parts_are_named() {
    let none = planned_benches(&MethodFilter::Only(Vec::new()));
    for (method, message) in [
        (
            WgpuUpscaleMethod::WgslAnime4kV32CnnX2S,
            "Anime4K v3.2 CNN x2 S GPU pipelines unavailable",
        ),
        (
            WgpuUpscaleMethod::WgslAnime4kV32CnnX2M,
            "Anime4K v3.2 CNN x2 M GPU pipelines unavailable",
        ),
        (
            WgpuUpscaleMethod::WgslArtcnnC4F16Dn,
            "ArtCNN C4F16 DN GPU pipelines unavailable",
        ),
        (
            WgpuUpscaleMethod::WgslSrLabSpanX2,
            "SR Lab SPAN x2 GPU pipeline unavailable",
        ),
        (
            WgpuUpscaleMethod::NvidiaNis,
            "NVIDIA Image Scaling GPU pipeline unavailable",
        ),
        (
            WgpuUpscaleMethod::WgslAcnetF8B4Luma,
            "ACNet F8B4 luma GPU pipelines unavailable",
        ),
        (
            WgpuUpscaleMethod::CunnyFastNvl,
            "CuNNy NVL GPU pipelines unavailable",
        ),
    ] {
        assert_eq!(route(&none, [1, 1], [2, 2], method).unwrap_err(), message);
        assert_eq!(
            route(&none, [1, 0], [2, 2], method).unwrap_err(),
            "cannot upscale an empty image"
        );
    }
    assert_eq!(
        route(&none, [1, 1], [2, 2], WgpuUpscaleMethod::WgslFsrStyle),
        Ok(BenchRoute::Shader)
    );
}

#[test]
fn filters_tell_listed_groups() {
    let filter = MethodFilter::Only(vec![WgpuUpscaleMethod::WgslAcnetF8B4BoxLuma]);
    assert!(filter.wants_group(MethodGroup::Acnet));
    assert!(!filter.wants_group(MethodGroup::Cunny));
    assert!(filter.wants_method(WgpuUpscaleMethod::WgslAcnetF8B4BoxLuma));
    assert!(!filter.wants_method(WgpuUpscaleMethod::WgslAcnetF8B4Luma));
    assert_eq!(
        filter.first(MethodGroup::Acnet),
        Some(WgpuUpscaleMethod::WgslAcnetF8B4BoxLuma)
    );
    assert!(!MethodFilter::All.wants_explicit(MethodGroup::Span));
    assert!(MethodFilter::All.wants_group(MethodGroup::Acnet));
}

#[test]
fn sharpening_takes_a_second_run() {
    let steps = render_steps(WgpuUpscaleMethod::WgslFsr1EasuRcas, [3, 4], [6, 8]);
    assert_eq!(steps.len(), 2);
    assert_eq!(steps[0].reads, RenderTexture::Source);
    assert_eq!(steps[0].draws, RenderTexture::Intermediate);
    assert_eq!(steps[0].source_output, [3, 4, 6, 8]);
    assert_eq!(steps[0].method, [2, 0, 0, 0]);
    assert_eq!(steps[1].reads, RenderTexture::Intermediate);
    assert_eq!(steps[1].draws, RenderTexture::Output);
    assert_eq!(steps[1].source_output, [6, 8, 6, 8]);
    assert_eq!(steps[1].method, [3, 0, 0, 0]);

    let steps = render_steps(WgpuUpscaleMethod::WgslFsrStyle, [3, 4], [6, 8]);
    assert_eq!(steps.len(), 1);
    assert_eq!(steps[0].draws, RenderTexture::Output);
    assert_eq!(steps[0].method, [1, 0, 0, 0]);
}
