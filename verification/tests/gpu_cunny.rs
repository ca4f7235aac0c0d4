//! The CuNNy networks: their shader functions and the textures that each pass reads and writes.
use suisuiview::gpu::cunny::{
    bind_inputs, bind_outputs, bound_texture, check_stage_stats, cunny_methods, cunny_plan,
    cunny_variant_sources, final_binding, input_binding, intermediate_count, output_binding,
    params_binding, BoundTexture, CunnyPassSpec, CUNNY_INPUT_SLOTS, CUNNY_INTERMEDIATE_CAPACITY,
    CUNNY_OUTPUT_SLOTS, DUMMY_OUT0, DUMMY_READ,
};
use suisuiview::state::WgpuUpscaleMethod;

const DUMMY_OUT1: usize = DUMMY_OUT0 + 1;
const DUMMY_OUT2: usize = DUMMY_OUT0 + 2;

type Passes = &'static [(&'static [usize], &'static [usize])];

const TABLE_0: Passes = &[
    (&[DUMMY_READ, DUMMY_READ, DUMMY_READ], &[0, 1, DUMMY_OUT0]),
    (&[0, 1, DUMMY_READ], &[2, 3, DUMMY_OUT0]),
    (&[2, 3, DUMMY_READ], &[0, DUMMY_OUT0, DUMMY_OUT1]),
    (&[0, DUMMY_READ, DUMMY_READ], &[DUMMY_OUT0, DUMMY_OUT1, DUMMY_OUT2]),
];

const TABLE_1: Passes = &[
    (&[DUMMY_READ, DUMMY_READ, DUMMY_READ], &[0, 1, DUMMY_OUT0]),
    (&[0, 1, DUMMY_READ], &[2, 3, DUMMY_OUT0]),
    (&[2, 3, DUMMY_READ], &[0, 1, DUMMY_OUT0]),
    (&[0, 1, DUMMY_READ], &[DUMMY_OUT0, DUMMY_OUT1, DUMMY_OUT2]),
];

const TABLE_2: Passes = &[
    (&[DUMMY_READ, DUMMY_READ, DUMMY_READ], &[0, 1, 2]),
    (&[0, 1, 2], &[3, 4, 5]),
    (&[3, 4, 5], &[0, 1, DUMMY_OUT0]),
    (&[0, 1, DUMMY_READ], &[DUMMY_OUT0, DUMMY_OUT1, DUMMY_OUT2]),
];

const TABLE_3: Passes = &[
    (&[DUMMY_READ, DUMMY_READ, DUMMY_READ], &[0, 1, 2]),
    (&[0, 1, 2], &[3, 4, 5]),
    (&[3, 4, 5], &[0, 1, 2]),
    (&[0, 1, 2], &[DUMMY_OUT0, DUMMY_OUT1, DUMMY_OUT2]),
];

const TABLE_4: Passes = &[
    (&[DUMMY_READ, DUMMY_READ, DUMMY_READ], &[0, 1, 2]),
    (&[0, 1, 2], &[3, 4, 5]),
    (&[3, 4, 5], &[0, 1, 2]),
    (&[0, 1, 2], &[3, 4, 5]),
    (&[3, 4, 5], &[DUMMY_OUT0, DUMMY_OUT1, DUMMY_OUT2]),
];

const TABLE_5: Passes = &[
    (&[DUMMY_READ, DUMMY_READ, DUMMY_READ], &[0, 1, 2]),
    (&[0, 1, 2], &[3, 4, 5]),
    (&[3, 4, 5], &[0, 1, 2]),
    (&[0, 1, 2], &[3, 4, 5]),
    (&[3, 4, 5], &[0, 1, 2]),
    (&[0, 1, 2], &[DUMMY_OUT0, DUMMY_OUT1, DUMMY_OUT2]),
];

const TABLE_6: Passes = &[
    (&[], &[0, 1, 2]),
    (&[], &[3]),
    (&[0, 1, 2, 3], &[4, 5, 6]),
    (&[0, 1, 2, 3], &[7]),
    (&[4, 5, 6, 7], &[0, 1, 2]),
    (&[4, 5, 6, 7], &[3]),
    (&[0, 1, 2, 3], &[4, 5, 6]),
    (&[0, 1, 2, 3], &[7]),
    (&[4, 5, 6, 7], &[0, 1, 2]),
    (&[4, 5, 6, 7], &[3]),
    (&[0, 1, 2, 3], &[]),
];

const TABLE_7: Passes = &[
    (&[], &[0, 1, 2]),
    (&[], &[3, 4, 5]),
    (&[0, 1, 2, 3, 4, 5], &[6, 7, 8]),
    (&[0, 1, 2, 3, 4, 5], &[9, 10, 11]),
    (&[6, 7, 8, 9, 10, 11], &[0, 1, 2]),
    (&[6, 7, 8, 9, 10, 11], &[3, 4, 5]),
    (&[0, 1, 2, 3, 4, 5], &[6, 7, 8]),
    (&[0, 1, 2, 3, 4, 5], &[9, 10, 11]),
    (&[6, 7, 8, 9, 10, 11], &[0, 1, 2]),
    (&[6, 7, 8, 9, 10, 11], &[3, 4, 5]),
    (&[0, 1, 2, 3, 4, 5], &[]),
];

const TABLE_8: Passes = &[
    (&[], &[0, 1, 2]),
    (&[], &[3, 4, 5]),
    (&[], &[6, 7]),
    (&[0, 1, 2, 3, 4, 5, 6, 7], &[8, 9, 10]),
    (&[0, 1, 2, 3, 4, 5, 6, 7], &[11, 12, 13]),
    (&[0, 1, 2, 3, 4, 5, 6, 7], &[14, 15]),
    (&[8, 9, 10, 11, 12, 13, 14, 15], &[0, 1, 2]),
    (&[8, 9, 10, 11, 12, 13, 14, 15], &[3, 4, 5]),
    (&[8, 9, 10, 11, 12, 13, 14, 15], &[6, 7]),
    (&[0, 1, 2, 3, 4, 5, 6, 7], &[8, 9, 10]),
    (&[0, 1, 2, 3, 4, 5, 6, 7], &[11, 12, 13]),
    (&[0, 1, 2, 3, 4, 5, 6, 7], &[14, 15]),
    (&[8, 9, 10, 11, 12, 13, 14, 15], &[0, 1, 2]),
    (&[8, 9, 10, 11, 12, 13, 14, 15], &[3, 4, 5]),
    (&[8, 9, 10, 11, 12, 13, 14, 15], &[6, 7]),
    (&[0, 1, 2, 3, 4, 5, 6, 7], &[]),
];

const TABLE_9: Passes = &[
    (&[], &[0, 1, 2]),
    (&[], &[3, 4, 5]),
    (&[], &[6, 7]),
    (&[0, 1, 2, 3, 4, 5, 6, 7], &[8, 9, 10]),
    (&[0, 1, 2, 3, 4, 5, 6, 7], &[11, 12, 13]),
    (&[0, 1, 2, 3, 4, 5, 6, 7], &[14, 15]),
    (&[8, 9, 10, 11, 12, 13, 14, 15], &[0, 1, 2]),
    (&[8, 9, 10, 11, 12, 13, 14, 15], &[3, 4, 5]),
    (&[8, 9, 10, 11, 12, 13, 14, 15], &[6, 7]),
    (&[0, 1, 2, 3, 4, 5, 6, 7], &[8, 9, 10]),
    (&[0, 1, 2, 3, 4, 5, 6, 7], &[11, 12, 13]),
    (&[0, 1, 2, 3, 4, 5, 6, 7], &[14, 15]),
    (&[8, 9, 10, 11, 12, 13, 14, 15], &[0, 1, 2]),
    (&[8, 9, 10, 11, 12, 13, 14, 15], &[3, 4, 5]),
    (&[8, 9, 10, 11, 12, 13, 14, 15], &[6, 7]),
    (&[0, 1, 2, 3, 4, 5, 6, 7], &[8, 9, 10]),
    (&[0, 1, 2, 3, 4, 5, 6, 7], &[11, 12, 13]),
    (&[0, 1, 2, 3, 4, 5, 6, 7], &[14, 15]),
    (&[8, 9, 10, 11, 12, 13, 14, 15], &[0, 1, 2]),
    (&[8, 9, 10, 11, 12, 13, 14, 15], &[3, 4, 5]),
    (&[8, 9, 10, 11, 12, 13, 14, 15], &[6, 7]),
    (&[0, 1, 2, 3, 4, 5, 6, 7], &[8, 9, 10]),
    (&[0, 1, 2, 3, 4, 5, 6, 7], &[11, 12, 13]),
    (&[0, 1, 2, 3, 4, 5, 6, 7], &[14, 15]),
    (&[8, 9, 10, 11, 12, 13, 14, 15], &[0, 1, 2]),
    (&[8, 9, 10, 11, 12, 13, 14, 15], &[3, 4, 5]),
    (&[8, 9, 10, 11, 12, 13, 14, 15], &[6, 7]),
    (&[0, 1, 2, 3, 4, 5, 6, 7], &[]),
];

/// The networks with their names, shader files, shader functions and passes.
fn networks() -> Vec<(
    WgpuUpscaleMethod,
    &'static str,
    &'static str,
    Vec<&'static str>,
    Passes,
)> {
    vec![
        (
            WgpuUpscaleMethod::CunnyVeryfastNvl,
            "CuNNy veryfast NVL",
            "cunny_veryfast_nvl.wgsl",
            vec![
                "cunny_veryfast_nvl_pass_0",
                "cunny_veryfast_nvl_pass_1",
                "cunny_veryfast_nvl_pass_2",
                "cunny_veryfast_nvl_pass_3",
            ],
            TABLE_0,
        ),
        (
            WgpuUpscaleMethod::CunnyVeryfastSoft,
            "CuNNy veryfast SOFT",
            "cunny_veryfast_soft.wgsl",
            vec![
                "cunny_veryfast_soft_pass_0",
                "cunny_veryfast_soft_pass_1",
                "cunny_veryfast_soft_pass_2",
                "cunny_veryfast_soft_pass_3",
            ],
            TABLE_0,
        ),
        (
            WgpuUpscaleMethod::CunnyFasterNvl,
            "CuNNy faster NVL",
            "cunny_faster_nvl.wgsl",
            vec![
                "cunny_faster_nvl_pass_0",
                "cunny_faster_nvl_pass_1",
                "cunny_faster_nvl_pass_2",
                "cunny_faster_nvl_pass_3",
            ],
            TABLE_1,
        ),
        (
            WgpuUpscaleMethod::CunnyFasterSoft,
            "CuNNy faster SOFT",
            "cunny_faster_soft.wgsl",
            vec![
                "cunny_faster_soft_pass_0",
                "cunny_faster_soft_pass_1",
                "cunny_faster_soft_pass_2",
                "cunny_faster_soft_pass_3",
            ],
            TABLE_1,
        ),
        (
            WgpuUpscaleMethod::CunnyFasterDs,
            "CuNNy faster DS",
            "cunny_faster_ds.wgsl",
            vec![
                "cunny_faster_ds_pass_0",
                "cunny_faster_ds_pass_1",
                "cunny_faster_ds_pass_2",
                "cunny_faster_ds_pass_3",
            ],
            TABLE_1,
        ),
        (
            WgpuUpscaleMethod::CunnyFastNvl,
            "CuNNy fast NVL",
            "cunny_fast_nvl.wgsl",
            vec![
                "cunny_fast_nvl_pass_0",
                "cunny_fast_nvl_pass_1",
                "cunny_fast_nvl_pass_2",
                "cunny_fast_nvl_pass_3",
            ],
            TABLE_2,
        ),
        (
            WgpuUpscaleMethod::CunnyFastSoft,
            "CuNNy fast SOFT",
            "cunny_fast_soft.wgsl",
            vec![
                "cunny_fast_soft_pass_0",
                "cunny_fast_soft_pass_1",
                "cunny_fast_soft_pass_2",
                "cunny_fast_soft_pass_3",
            ],
            TABLE_2,
        ),
        (
            WgpuUpscaleMethod::CunnyFastDs,
            "CuNNy fast DS",
            "cunny_fast_ds.wgsl",
            vec![
                "cunny_fast_ds_pass_0",
                "cunny_fast_ds_pass_1",
                "cunny_fast_ds_pass_2",
                "cunny_fast_ds_pass_3",
            ],
            TABLE_2,
        ),
        (
            WgpuUpscaleMethod::Cunny2x12Soft,
            "CuNNy 2x12 SOFT",
            "cunny_2x12_soft.wgsl",
            vec![
                "cunny_2x12_soft_pass_0",
                "cunny_2x12_soft_pass_1",
                "cunny_2x12_soft_pass_2",
                "cunny_2x12_soft_pass_3",
            ],
            TABLE_3,
        ),
        (
            WgpuUpscaleMethod::Cunny2x12Ds,
            "CuNNy 2x12 DS",
            "cunny_2x12_ds.wgsl",
            vec![
                "cunny_2x12_ds_pass_0",
                "cunny_2x12_ds_pass_1",
                "cunny_2x12_ds_pass_2",
                "cunny_2x12_ds_pass_3",
            ],
            TABLE_3,
        ),
        (
            WgpuUpscaleMethod::Cunny3x12Nvl,
            "CuNNy 3x12 NVL",
            "cunny_3x12_nvl.wgsl",
            vec![
                "cunny_3x12_nvl_pass_0",
                "cunny_3x12_nvl_pass_1",
                "cunny_3x12_nvl_pass_2",
                "cunny_3x12_nvl_pass_3",
                "cunny_3x12_nvl_pass_4",
            ],
            TABLE_4,
        ),
        (
            WgpuUpscaleMethod::Cunny3x12Soft,
            "CuNNy 3x12 SOFT",
            "cunny_3x12_soft.wgsl",
            vec![
                "cunny_3x12_soft_pass_0",
                "cunny_3x12_soft_pass_1",
                "cunny_3x12_soft_pass_2",
                "cunny_3x12_soft_pass_3",
                "cunny_3x12_soft_pass_4",
            ],
            TABLE_4,
        ),
        (
            WgpuUpscaleMethod::Cunny3x12Ds,
            "CuNNy 3x12 DS",
            "cunny_3x12_ds.wgsl",
            vec![
                "cunny_3x12_ds_pass_0",
                "cunny_3x12_ds_pass_1",
                "cunny_3x12_ds_pass_2",
                "cunny_3x12_ds_pass_3",
                "cunny_3x12_ds_pass_4",
            ],
            TABLE_4,
        ),
        (
            WgpuUpscaleMethod::Cunny4x12Nvl,
            "CuNNy 4x12 NVL",
            "cunny_4x12_nvl.wgsl",
            vec![
                "cunny_4x12_nvl_pass_0",
                "cunny_4x12_nvl_pass_1",
                "cunny_4x12_nvl_pass_2",
                "cunny_4x12_nvl_pass_3",
                "cunny_4x12_nvl_pass_4",
                "cunny_4x12_nvl_pass_5",
            ],
            TABLE_5,
        ),
        (
            WgpuUpscaleMethod::Cunny4x12Soft,
            "CuNNy 4x12 SOFT",
            "cunny_4x12_soft.wgsl",
            vec![
                "cunny_4x12_soft_pass_0",
                "cunny_4x12_soft_pass_1",
                "cunny_4x12_soft_pass_2",
                "cunny_4x12_soft_pass_3",
                "cunny_4x12_soft_pass_4",
                "cunny_4x12_soft_pass_5",
            ],
            TABLE_5,
        ),
        (
            WgpuUpscaleMethod::Cunny4x12Ds,
            "CuNNy 4x12 DS",
            "cunny_4x12_ds.wgsl",
            vec![
                "cunny_4x12_ds_pass_0",
                "cunny_4x12_ds_pass_1",
                "cunny_4x12_ds_pass_2",
                "cunny_4x12_ds_pass_3",
                "cunny_4x12_ds_pass_4",
                "cunny_4x12_ds_pass_5",
            ],
            TABLE_5,
        ),
        (
            WgpuUpscaleMethod::Cunny4x16Nvl,
            "CuNNy 4x16 NVL",
            "cunny_4x16_nvl.wgsl",
            vec![
                "cunny_4x16_nvl_pass_0_chunk_0",
                "cunny_4x16_nvl_pass_0_chunk_1",
                "cunny_4x16_nvl_pass_1_chunk_0",
                "cunny_4x16_nvl_pass_1_chunk_1",
                "cunny_4x16_nvl_pass_2_chunk_0",
                "cunny_4x16_nvl_pass_2_chunk_1",
                "cunny_4x16_nvl_pass_3_chunk_0",
                "cunny_4x16_nvl_pass_3_chunk_1",
                "cunny_4x16_nvl_pass_4_chunk_0",
                "cunny_4x16_nvl_pass_4_chunk_1",
                "cunny_4x16_nvl_pass_5",
            ],
            TABLE_6,
        ),
        (
            WgpuUpscaleMethod::Cunny4x16Soft,
            "CuNNy 4x16 SOFT",
            "cunny_4x16_soft.wgsl",
            vec![
                "cunny_4x16_soft_pass_0_chunk_0",
                "cunny_4x16_soft_pass_0_chunk_1",
                "cunny_4x16_soft_pass_1_chunk_0",
                "cunny_4x16_soft_pass_1_chunk_1",
                "cunny_4x16_soft_pass_2_chunk_0",
                "cunny_4x16_soft_pass_2_chunk_1",
                "cunny_4x16_soft_pass_3_chunk_0",
                "cunny_4x16_soft_pass_3_chunk_1",
                "cunny_4x16_soft_pass_4_chunk_0",
                "cunny_4x16_soft_pass_4_chunk_1",
                "cunny_4x16_soft_pass_5",
            ],
            TABLE_6,
        ),
        (
            WgpuUpscaleMethod::Cunny4x16Ds,
            "CuNNy 4x16 DS",
            "cunny_4x16_ds.wgsl",
            vec![
                "cunny_4x16_ds_pass_0_chunk_0",
                "cunny_4x16_ds_pass_0_chunk_1",
                "cunny_4x16_ds_pass_1_chunk_0",
                "cunny_4x16_ds_pass_1_chunk_1",
                "cunny_4x16_ds_pass_2_chunk_0",
                "cunny_4x16_ds_pass_2_chunk_1",
                "cunny_4x16_ds_pass_3_chunk_0",
                "cunny_4x16_ds_pass_3_chunk_1",
                "cunny_4x16_ds_pass_4_chunk_0",
                "cunny_4x16_ds_pass_4_chunk_1",
                "cunny_4x16_ds_pass_5",
            ],
            TABLE_6,
        ),
        (
            WgpuUpscaleMethod::Cunny4x24Nvl,
            "CuNNy 4x24 NVL",
            "cunny_4x24_nvl.wgsl",
            vec![
                "cunny_4x24_nvl_pass_0_chunk_0",
                "cunny_4x24_nvl_pass_0_chunk_1",
                "cunny_4x24_nvl_pass_1_chunk_0",
                "cunny_4x24_nvl_pass_1_chunk_1",
                "cunny_4x24_nvl_pass_2_chunk_0",
                "cunny_4x24_nvl_pass_2_chunk_1",
                "cunny_4x24_nvl_pass_3_chunk_0",
                "cunny_4x24_nvl_pass_3_chunk_1",
                "cunny_4x24_nvl_pass_4_chunk_0",
                "cunny_4x24_nvl_pass_4_chunk_1",
                "cunny_4x24_nvl_pass_5",
            ],
            TABLE_7,
        ),
        (
            WgpuUpscaleMethod::Cunny4x24Soft,
            "CuNNy 4x24 SOFT",
            "cunny_4x24_soft.wgsl",
            vec![
                "cunny_4x24_soft_pass_0_chunk_0",
                "cunny_4x24_soft_pass_0_chunk_1",
                "cunny_4x24_soft_pass_1_chunk_0",
                "cunny_4x24_soft_pass_1_chunk_1",
                "cunny_4x24_soft_pass_2_chunk_0",
                "cunny_4x24_soft_pass_2_chunk_1",
                "cunny_4x24_soft_pass_3_chunk_0",
                "cunny_4x24_soft_pass_3_chunk_1",
                "cunny_4x24_soft_pass_4_chunk_0",
                "cunny_4x24_soft_pass_4_chunk_1",
                "cunny_4x24_soft_pass_5",
            ],
            TABLE_7,
        ),
        (
            WgpuUpscaleMethod::Cunny4x24Ds,
            "CuNNy 4x24 DS",
            "cunny_4x24_ds.wgsl",
            vec![
                "cunny_4x24_ds_pass_0_chunk_0",
                "cunny_4x24_ds_pass_0_chunk_1",
                "cunny_4x24_ds_pass_1_chunk_0",
                "cunny_4x24_ds_pass_1_chunk_1",
                "cunny_4x24_ds_pass_2_chunk_0",
                "cunny_4x24_ds_pass_2_chunk_1",
                "cunny_4x24_ds_pass_3_chunk_0",
                "cunny_4x24_ds_pass_3_chunk_1",
                "cunny_4x24_ds_pass_4_chunk_0",
                "cunny_4x24_ds_pass_4_chunk_1",
                "cunny_4x24_ds_pass_5",
            ],
            TABLE_7,
        ),
        (
            WgpuUpscaleMethod::Cunny4x32Nvl,
            "CuNNy 4x32 NVL",
            "cunny_4x32_nvl.wgsl",
            vec![
                "cunny_4x32_nvl_pass_0_chunk_0",
                "cunny_4x32_nvl_pass_0_chunk_1",
                "cunny_4x32_nvl_pass_0_chunk_2",
                "cunny_4x32_nvl_pass_1_chunk_0",
                "cunny_4x32_nvl_pass_1_chunk_1",
                "cunny_4x32_nvl_pass_1_chunk_2",
                "cunny_4x32_nvl_pass_2_chunk_0",
                "cunny_4x32_nvl_pass_2_chunk_1",
                "cunny_4x32_nvl_pass_2_chunk_2",
                "cunny_4x32_nvl_pass_3_chunk_0",
                "cunny_4x32_nvl_pass_3_chunk_1",
                "cunny_4x32_nvl_pass_3_chunk_2",
                "cunny_4x32_nvl_pass_4_chunk_0",
                "cunny_4x32_nvl_pass_4_chunk_1",
                "cunny_4x32_nvl_pass_4_chunk_2",
                "cunny_4x32_nvl_pass_5",
            ],
            TABLE_8,
        ),
        (
            WgpuUpscaleMethod::Cunny4x32Soft,
            "CuNNy 4x32 SOFT",
            "cunny_4x32_soft.wgsl",
            vec![
                "cunny_4x32_soft_pass_0_chunk_0",
                "cunny_4x32_soft_pass_0_chunk_1",
                "cunny_4x32_soft_pass_0_chunk_2",
                "cunny_4x32_soft_pass_1_chunk_0",
                "cunny_4x32_soft_pass_1_chunk_1",
                "cunny_4x32_soft_pass_1_chunk_2",
                "cunny_4x32_soft_pass_2_chunk_0",
                "cunny_4x32_soft_pass_2_chunk_1",
                "cunny_4x32_soft_pass_2_chunk_2",
                "cunny_4x32_soft_pass_3_chunk_0",
                "cunny_4x32_soft_pass_3_chunk_1",
                "cunny_4x32_soft_pass_3_chunk_2",
                "cunny_4x32_soft_pass_4_chunk_0",
                "cunny_4x32_soft_pass_4_chunk_1",
                "cunny_4x32_soft_pass_4_chunk_2",
                "cunny_4x32_soft_pass_5",
            ],
            TABLE_8,
        ),
        (
            WgpuUpscaleMethod::Cunny4x32Ds,
            "CuNNy 4x32 DS",
            "cunny_4x32_ds.wgsl",
            vec![
                "cunny_4x32_ds_pass_0_chunk_0",
                "cunny_4x32_ds_pass_0_chunk_1",
                "cunny_4x32_ds_pass_0_chunk_2",
                "cunny_4x32_ds_pass_1_chunk_0",
                "cunny_4x32_ds_pass_1_chunk_1",
                "cunny_4x32_ds_pass_1_chunk_2",
                "cunny_4x32_ds_pass_2_chunk_0",
                "cunny_4x32_ds_pass_2_chunk_1",
                "cunny_4x32_ds_pass_2_chunk_2",
                "cunny_4x32_ds_pass_3_chunk_0",
                "cunny_4x32_ds_pass_3_chunk_1",
                "cunny_4x32_ds_pass_3_chunk_2",
                "cunny_4x32_ds_pass_4_chunk_0",
                "cunny_4x32_ds_pass_4_chunk_1",
                "cunny_4x32_ds_pass_4_chunk_2",
                "cunny_4x32_ds_pass_5",
            ],
            TABLE_8,
        ),
        (
            WgpuUpscaleMethod::Cunny8x32Nvl,
            "CuNNy 8x32 NVL",
            "cunny_8x32_nvl.wgsl",
            vec![
                "cunny_8x32_nvl_pass_0_chunk_0",
                "cunny_8x32_nvl_pass_0_chunk_1",
                "cunny_8x32_nvl_pass_0_chunk_2",
                "cunny_8x32_nvl_pass_1_chunk_0",
                "cunny_8x32_nvl_pass_1_chunk_1",
                "cunny_8x32_nvl_pass_1_chunk_2",
                "cunny_8x32_nvl_pass_2_chunk_0",
                "cunny_8x32_nvl_pass_2_chunk_1",
                "cunny_8x32_nvl_pass_2_chunk_2",
                "cunny_8x32_nvl_pass_3_chunk_0",
                "cunny_8x32_nvl_pass_3_chunk_1",
                "cunny_8x32_nvl_pass_3_chunk_2",
                "cunny_8x32_nvl_pass_4_chunk_0",
                "cunny_8x32_nvl_pass_4_chunk_1",
                "cunny_8x32_nvl_pass_4_chunk_2",
                "cunny_8x32_nvl_pass_5_chunk_0",
                "cunny_8x32_nvl_pass_5_chunk_1",
                "cunny_8x32_nvl_pass_5_chunk_2",
                "cunny_8x32_nvl_pass_6_chunk_0",
                "cunny_8x32_nvl_pass_6_chunk_1",
                "cunny_8x32_nvl_pass_6_chunk_2",
                "cunny_8x32_nvl_pass_7_chunk_0",
                "cunny_8x32_nvl_pass_7_chunk_1",
                "cunny_8x32_nvl_pass_7_chunk_2",
                "cunny_8x32_nvl_pass_8_chunk_0",
                "cunny_8x32_nvl_pass_8_chunk_1",
                "cunny_8x32_nvl_pass_8_chunk_2",
                "cunny_8x32_nvl_pass_9",
            ],
            TABLE_9,
        ),
        (
            WgpuUpscaleMethod::Cunny8x32Ds,
            "CuNNy 8x32 DS",
            "cunny_8x32_ds.wgsl",
            vec![
                "cunny_8x32_ds_pass_0_chunk_0",
                "cunny_8x32_ds_pass_0_chunk_1",
                "cunny_8x32_ds_pass_0_chunk_2",
                "cunny_8x32_ds_pass_1_chunk_0",
                "cunny_8x32_ds_pass_1_chunk_1",
                "cunny_8x32_ds_pass_1_chunk_2",
                "cunny_8x32_ds_pass_2_chunk_0",
                "cunny_8x32_ds_pass_2_chunk_1",
                "cunny_8x32_ds_pass_2_chunk_2",
                "cunny_8x32_ds_pass_3_chunk_0",
                "cunny_8x32_ds_pass_3_chunk_1",
                "cunny_8x32_ds_pass_3_chunk_2",
                "cunny_8x32_ds_pass_4_chunk_0",
                "cunny_8x32_ds_pass_4_chunk_1",
                "cunny_8x32_ds_pass_4_chunk_2",
                "cunny_8x32_ds_pass_5_chunk_0",
                "cunny_8x32_ds_pass_5_chunk_1",
                "cunny_8x32_ds_pass_5_chunk_2",
                "cunny_8x32_ds_pass_6_chunk_0",
                "cunny_8x32_ds_pass_6_chunk_1",
                "cunny_8x32_ds_pass_6_chunk_2",
                "cunny_8x32_ds_pass_7_chunk_0",
                "cunny_8x32_ds_pass_7_chunk_1",
                "cunny_8x32_ds_pass_7_chunk_2",
                "cunny_8x32_ds_pass_8_chunk_0",
                "cunny_8x32_ds_pass_8_chunk_1",
                "cunny_8x32_ds_pass_8_chunk_2",
                "cunny_8x32_ds_pass_9",
            ],
            TABLE_9,
        ),
    ]
}

#[test]
fn filtered_cunny_sources_select_only_requested_variant() {
    let variants = cunny_variant_sources(Some(WgpuUpscaleMethod::CunnyVeryfastSoft));

    assert_eq!(variants.len(), 1);
    assert_eq!(variants[0].method, WgpuUpscaleMethod::CunnyVeryfastSoft);
    assert_eq!(variants[0].entry_points.len(), 4);
}

#[test]
fn unfiltered_cunny_sources_keep_full_matrix_available() {
    let variants = cunny_variant_sources(None);

    assert_eq!(variants.len(), cunny_methods().len());
    assert!(variants.iter().all(|variant| variant.method.is_cunny()));
}

#[test]
fn networks_have_their_passes() {
    let variants = cunny_variant_sources(None);
    let networks = networks();
    assert_eq!(variants.len(), networks.len());
    for (variant, (method, name, shader, entry_points, passes)) in variants.iter().zip(networks) {
        assert_eq!(variant.method, method);
        assert_eq!(variant.name, name);
        assert_eq!(variant.shader, shader);
        assert_eq!(variant.entry_points, entry_points);
        assert_eq!(variant.pass_specs.len(), passes.len());
        for (pass, (inputs, outputs)) in variant.pass_specs.iter().zip(passes) {
            assert_eq!(pass.inputs, *inputs, "{name}");
            assert_eq!(pass.outputs, *outputs, "{name}");
        }
    }
}

#[test]
fn other_methods_select_no_network() {
    assert!(cunny_variant_sources(Some(WgpuUpscaleMethod::WgslFsr1Easu)).is_empty());
}

#[test]
fn textures_are_bound_by_their_index() {
    assert_eq!(bound_texture(0), BoundTexture::Intermediate(0));
    assert_eq!(bound_texture(15), BoundTexture::Intermediate(15));
    assert_eq!(bound_texture(DUMMY_READ), BoundTexture::DummyRead);
}

#[test]
fn passes_count_the_textures_they_need() {
    let passes = vec![
        CunnyPassSpec {
            inputs: vec![],
            outputs: vec![0, 1],
        },
        CunnyPassSpec {
            inputs: vec![0, 1],
            outputs: vec![8],
        },
    ];
    assert_eq!(intermediate_count(&passes), 9);
    assert_eq!(intermediate_count(&Vec::new()), 0);
    for variant in cunny_variant_sources(None) {
        assert!(intermediate_count(&variant.pass_specs) <= CUNNY_INTERMEDIATE_CAPACITY);
    }
}

#[test]
fn every_slot_is_bound_to_something() {
    let inputs = bind_inputs(&vec![3, 5]);
    assert_eq!(inputs.len(), CUNNY_INPUT_SLOTS);
    assert_eq!(inputs[0], BoundTexture::Intermediate(3));
    assert_eq!(inputs[1], BoundTexture::Intermediate(5));
    assert!(inputs[2..]
        .iter()
        .all(|texture| *texture == BoundTexture::DummyRead));
    let outputs = bind_outputs(&vec![4]);
    assert_eq!(outputs.len(), CUNNY_OUTPUT_SLOTS);
    assert_eq!(outputs[0], BoundTexture::Intermediate(4));
    assert_eq!(outputs[1], bound_texture(DUMMY_OUT0 + 1));
    assert_eq!(outputs[2], bound_texture(DUMMY_OUT0 + 2));
}

#[test]
fn bindings_follow_each_other() {
    let inputs: Vec<u32> = (0..CUNNY_INPUT_SLOTS).map(input_binding).collect();
    let outputs: Vec<u32> = (0..CUNNY_OUTPUT_SLOTS).map(output_binding).collect();
    assert_eq!(inputs, vec![1, 2, 3, 4, 5, 6, 7, 8]);
    assert_eq!(outputs, vec![9, 10, 11]);
    assert_eq!(final_binding(), 12);
    assert_eq!(params_binding(), 13);
}

#[test]
fn plan_covers_the_source_with_groups_of_eight() {
    let method = WgpuUpscaleMethod::CunnyFastNvl;
    let plan = cunny_plan(None, method, [17, 9], [34, 17]).unwrap();
    assert_eq!(plan.variant.method, method);
    assert_eq!(plan.groups, [3, 2]);
    assert_eq!(plan.params, [17, 9, 34, 17]);
    assert_eq!(plan.readback.row_bytes, 136);
    assert_eq!(plan.readback.padded_bytes_per_row, 256);
    assert_eq!(plan.readback.rows, 17);
}

#[test]
fn plan_refuses_missing_networks_and_other_sizes() {
    let method = WgpuUpscaleMethod::CunnyFastNvl;
    assert_eq!(
        cunny_plan(
            Some(WgpuUpscaleMethod::CunnyVeryfastNvl),
            method,
            [8, 8],
            [16, 16]
        )
        .unwrap_err(),
        "CuNNy fast NVL GPU pipelines unavailable"
    );
    let error = cunny_plan(Some(method), method, [8, 8], [17, 16]).unwrap_err();
    assert!(error.contains("8x8 -> 17x16"), "{error}");
    assert!(cunny_plan(Some(method), method, [8, 8], [15, 16]).is_ok());
}

#[test]
fn stage_statistics_are_for_cunny_networks() {
    assert_eq!(
        check_stage_stats(WgpuUpscaleMethod::CunnyFastNvl, true),
        Ok(())
    );
    assert_eq!(
        check_stage_stats(WgpuUpscaleMethod::CunnyFastNvl, false).unwrap_err(),
        "CuNNy GPU pipelines unavailable"
    );
    assert!(check_stage_stats(WgpuUpscaleMethod::WgslFsr1Easu, true)
        .unwrap_err()
        .ends_with("is not a CuNNy variant; stage stats only apply to the CuNNy chain"));
}
