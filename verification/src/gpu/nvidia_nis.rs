//! NVIDIA Image Scaling: the enlargements that it supports and the work it is dispatched in.
use crate::gpu::readback;
use crate::gpu::sizes;
use vstd::prelude::*;

verus! {

/// The side of the square of pixels that one work group computes.
pub const NIS_GROUP_EDGE: u32 = 16;

/// Whether a side is enlarged to between one and two times its length, up to one pixel more.
pub open spec fn near_1x_to_2x(source: usize, output: usize) -> bool {
    source <= output <= source * 2 + 1
}

/// The message with which a request is refused, where it is.
pub open spec fn refusal(source: [usize; 2], output: [usize; 2]) -> Option<Seq<char>> {
    if source[0] == 0 || source[1] == 0 || output[0] == 0 || output[1] == 0 {
        Some("cannot upscale an empty image with NVIDIA NIS"@)
    } else if source[0] * 2 > usize::MAX {
        Some("NVIDIA NIS 2x output size overflowed"@)
    } else if !near_1x_to_2x(source[0], output[0]) {
        Some(
            "NVIDIA NIS supports near-1x..2x enlargement within one pixel, got "@
                + sizes::sizes_text(source, output),
        )
    } else if source[1] * 2 > usize::MAX {
        Some("NVIDIA NIS 2x output size overflowed"@)
    } else if !near_1x_to_2x(source[1], output[1]) {
        Some(
            "NVIDIA NIS supports near-1x..2x enlargement within one pixel, got "@
                + sizes::sizes_text(source, output),
        )
    } else {
        None
    }
}

/// A request is granted where no side is empty and each side of the output is no shorter than that
/// of the source and at most one pixel longer than twice that.
pub proof fn sides_grow_up_to_twofold(source: [usize; 2], output: [usize; 2])
    requires
        2 * source[0] <= usize::MAX,
        2 * source[1] <= usize::MAX,
    ensures
        refusal(source, output) is None <==> {
            &&& 0 < source[0] <= output[0] && output[0] - 1 <= 2 * source[0]
            &&& 0 < source[1] <= output[1] && output[1] - 1 <= 2 * source[1]
        },
{
}

/// Whether a side is enlarged within the supported range; an error where twice its length is
/// beyond the machine's lengths.
pub fn supports_near_1x_to_2x(source: usize, output: usize) -> (supported: Result<bool, String>)
    ensures
        match supported {
            Ok(near) => source * 2 <= usize::MAX && near == near_1x_to_2x(source, output),
            Err(error) => source * 2 > usize::MAX && error@
                == "NVIDIA NIS 2x output size overflowed"@,
        },
{
    match source.checked_mul(2) {
        None => Err("NVIDIA NIS 2x output size overflowed".to_owned()),
        Some(exact) => {
            assert(usize::MAX % 2 == 1);
            match exact.checked_add(1) {
                None => Err("NVIDIA NIS rounded output size overflowed".to_owned()),
                Some(most) => Ok(output >= source && output <= most),
            }
        },
    }
}

/// Accepts enlargements between one and two times, within one pixel.
pub fn validate_output_size(source: [usize; 2], output: [usize; 2]) -> (checked: Result<(), String>)
    ensures
        sizes::check_of(checked) == refusal(source, output),
{
    if source[0] == 0 || source[1] == 0 || output[0] == 0 || output[1] == 0 {
        return Err("cannot upscale an empty image with NVIDIA NIS".to_owned());
    }
    let wide = match supports_near_1x_to_2x(source[0], output[0]) {
        Ok(near) => near,
        Err(error) => return Err(error),
    };
    let supported = if wide {
        match supports_near_1x_to_2x(source[1], output[1]) {
            Ok(near) => near,
            Err(error) => return Err(error),
        }
    } else {
        false
    };
    if !supported {
        let mut message = "NVIDIA NIS supports near-1x..2x enlargement within one pixel, got ".to_owned();
        sizes::push_sizes(&mut message, source, output);
        return Err(message);
    }
    Ok(())
}

/// What the shader is dispatched over and told of the sizes.
#[derive(Debug, Clone, Copy)]
pub struct NisPlan {
    /// Source width and height, then output width and height.
    pub source_output: [u32; 4],
    pub groups: [u32; 2],
    pub readback: readback::Readback,
}

/// Plans an enlargement, or refuses it.
pub fn nis_plan(source: [usize; 2], output: [usize; 2]) -> (plan: Result<NisPlan, String>)
    requires
        readback::fits_a_readback(source),
        readback::fits_a_readback(output),
    ensures
        match plan {
            Ok(plan) => {
                &&& refusal(source, output) == None::<Seq<char>>
                &&& plan.source_output@ == seq![
                    source[0] as u32,
                    source[1] as u32,
                    output[0] as u32,
                    output[1] as u32,
                ]
                &&& plan.groups[0] == readback::divided_up(output[0] as int, 16)
                &&& plan.groups[1] == readback::divided_up(output[1] as int, 16)
                &&& plan.readback == readback::readback_of(output)
            },
            Err(error) => refusal(source, output) == Some(error@),
        },
{
    match validate_output_size(source, output) {
        Err(error) => Err(error),
        Ok(_) => {
            let source_output: [u32; 4] = [
                source[0] as u32,
                source[1] as u32,
                output[0] as u32,
                output[1] as u32,
            ];
            assert(source_output@ =~= seq![
                source[0] as u32,
                source[1] as u32,
                output[0] as u32,
                output[1] as u32,
            ]);
            Ok(
                NisPlan {
                    source_output,
                    groups: [
                        readback::divide_up(output[0] as u32, NIS_GROUP_EDGE),
                        readback::divide_up(output[1] as u32, NIS_GROUP_EDGE),
                    ],
                    readback: readback::readback(output),
                },
            )
        },
    }
}

} // verus!
