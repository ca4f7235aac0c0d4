//! The ACNet luma networks: their passes, which take turns on two pairs of textures, and the sizes
//! that they accept.
use crate::gpu::readback;
use crate::gpu::sizes;
use crate::state::WgpuUpscaleMethod;
use crate::text;
use vstd::prelude::*;

verus! {

/// The side of the square of pixels that one work group computes.
pub const ACNET_GROUP_EDGE: u32 = 16;

/// The number of body blocks of the networks there are.
pub const ACNET_BODY_BLOCKS: usize = 4;

/// The textures that the passes read and write: the source, and two pairs of features.
#[derive(Debug, Clone, Copy, PartialEq, Eq, Structural)]
pub enum AcnetTexture {
    Source,
    First0,
    First1,
    Second0,
    Second1,
}

/// One pass: two textures that it reads, one that it writes, and whether it is dispatched over the
/// pixels of the output, which only the last one is.
#[derive(Debug, Clone, Copy, PartialEq, Eq, Structural)]
pub struct AcnetPass {
    pub input0: AcnetTexture,
    pub input1: AcnetTexture,
    pub out: AcnetTexture,
    pub over_output: bool,
}

/// The textures of the pair that holds the features after `layer` layers.
pub open spec fn pair_texture(layer: int, part: int) -> AcnetTexture {
    if layer % 2 == 0 {
        if part == 0 {
            AcnetTexture::First0
        } else {
            AcnetTexture::First1
        }
    } else {
        if part == 0 {
            AcnetTexture::Second0
        } else {
            AcnetTexture::Second1
        }
    }
}

/// The pass at an index, in a network of `blocks` body blocks: two passes of the head, two per
/// block, the upscaling pass and the pixel shuffle.
pub open spec fn pass_at(blocks: int, index: int) -> AcnetPass {
    if index < 2 {
        AcnetPass {
            input0: AcnetTexture::Source,
            input1: AcnetTexture::Source,
            out: pair_texture(0, index),
            over_output: false,
        }
    } else if index < 2 + 2 * blocks {
        let block = (index - 2) / 2;
        AcnetPass {
            input0: pair_texture(block, 0),
            input1: pair_texture(block, 1),
            out: pair_texture(block + 1, (index - 2) % 2),
            over_output: false,
        }
    } else if index == 2 + 2 * blocks {
        AcnetPass {
            input0: pair_texture(blocks, 0),
            input1: pair_texture(blocks, 1),
            out: pair_texture(blocks + 1, 0),
            over_output: false,
        }
    } else {
        AcnetPass {
            input0: pair_texture(blocks + 1, 0),
            input1: pair_texture(blocks + 1, 0),
            out: pair_texture(blocks + 1, 1),
            over_output: true,
        }
    }
}

/// All passes of a network, in order.
pub open spec fn passes_of(blocks: int) -> Seq<AcnetPass> {
    Seq::new((2 * blocks + 4) as nat, |i: int| pass_at(blocks, i))
}

/// Whether the last pass before `index` that writes `texture` is the one at `writer`.
pub open spec fn written_last_by(
    passes: Seq<AcnetPass>,
    index: int,
    texture: AcnetTexture,
    writer: int,
) -> bool {
    &&& 0 <= writer < index
    &&& passes[writer].out == texture
    &&& forall|k: int| writer < k < index ==> (#[trigger] passes[k]).out != texture
}

/// No pass writes a texture that it reads, and after the head each pass reads what the layer
/// before it wrote: nothing in between has overwritten it.
pub proof fn passes_read_the_layer_before(blocks: int, index: int)
    requires
        0 <= blocks,
        0 <= index < passes_of(blocks).len(),
    ensures
        ({
            let passes = passes_of(blocks);
            let pass = passes[index];
            let layer_start = if index < 2 {
                0
            } else if index == 2 * blocks + 3 {
                index
            } else {
                index - index % 2
            };
            &&& pass.out != pass.input0
            &&& pass.out != pass.input1
            &&& pass.out != AcnetTexture::Source
            &&& index < 2 ==> pass.input0 == AcnetTexture::Source && pass.input1
                == AcnetTexture::Source
            &&& 2 <= index < 2 * blocks + 3 ==> written_last_by(
                passes,
                index,
                pass.input0,
                layer_start - 2,
            ) && written_last_by(passes, index, pass.input1, layer_start - 1)
            &&& index == 2 * blocks + 3 ==> written_last_by(passes, index, pass.input0, index - 1)
                && pass.input1 == pass.input0
        }),
{
}

/// The name of an ACNet network in messages; none for another upscaler.
pub open spec fn acnet_name_of(method: WgpuUpscaleMethod) -> Option<Seq<char>> {
    match method {
        WgpuUpscaleMethod::WgslAcnetF8B4Luma => Some("ACNet F8B4 Luma"@),
        WgpuUpscaleMethod::WgslAcnetF8B4BoxLuma => Some("ACNet F8B4 Box Luma"@),
        WgpuUpscaleMethod::WgslAcnetF8B4HdnLuma => Some("ACNet F8B4 HDN Luma"@),
        WgpuUpscaleMethod::WgslAcnetF8B4BoxHdnLuma => Some("ACNet F8B4 Box HDN Luma"@),
        _ => None,
    }
}

/// An ACNet network goes by the name of its upscaler, and every upscaler so named is one.
pub proof fn networks_go_by_their_label(method: WgpuUpscaleMethod)
    ensures
        acnet_name_of(method) matches Some(name) ==> name == method.label_spec(),
        acnet_name_of(method) is Some <==> method.label_spec()[0] == 'A' && method.label_spec()[1]
            == 'C',
{
    reveal_strlit("WGSL FSR style");
    reveal_strlit("WGSL FSR1 EASU");
    reveal_strlit("WGSL FSR1 EASU+RCAS");
    reveal_strlit("Anime4K v3.2 CNN x2 S");
    reveal_strlit("Anime4K v3.2 CNN x2 M");
    reveal_strlit("ArtCNN C4F16");
    reveal_strlit("ArtCNN C4F16 DN");
    reveal_strlit("ArtCNN C4F16 DS");
    reveal_strlit("ArtCNN C4F32");
    reveal_strlit("ArtCNN C4F32 DN");
    reveal_strlit("ArtCNN C4F32 DS");
    reveal_strlit("SR Lab SPAN x2");
    reveal_strlit("NVIDIA Image Scaling");
    reveal_strlit("ACNet F8B4 Luma");
    reveal_strlit("ACNet F8B4 Box Luma");
    reveal_strlit("ACNet F8B4 HDN Luma");
    reveal_strlit("ACNet F8B4 Box HDN Luma");
    crate::state::cunny_networks_are_told_by_name(method);
}

/// Whether an upscaler is one of the ACNet networks.
pub open spec fn is_acnet(method: WgpuUpscaleMethod) -> bool {
    acnet_name_of(method) is Some
}

/// Whether an upscaler is one of the ACNet networks.
pub fn is_acnet_method(method: WgpuUpscaleMethod) -> (acnet: bool)
    ensures
        acnet == is_acnet(method),
{
    match method {
        WgpuUpscaleMethod::WgslAcnetF8B4Luma => true,
        WgpuUpscaleMethod::WgslAcnetF8B4BoxLuma => true,
        WgpuUpscaleMethod::WgslAcnetF8B4HdnLuma => true,
        WgpuUpscaleMethod::WgslAcnetF8B4BoxHdnLuma => true,
        _ => false,
    }
}

/// The name of an ACNet network in messages; none for another upscaler.
pub fn acnet_name(method: WgpuUpscaleMethod) -> (name: Option<&'static str>)
    ensures
        match name {
            Some(name) => acnet_name_of(method) == Some(name@),
            None => acnet_name_of(method) == None::<Seq<char>>,
        },
{
    match method {
        WgpuUpscaleMethod::WgslAcnetF8B4Luma => Some("ACNet F8B4 Luma"),
        WgpuUpscaleMethod::WgslAcnetF8B4BoxLuma => Some("ACNet F8B4 Box Luma"),
        WgpuUpscaleMethod::WgslAcnetF8B4HdnLuma => Some("ACNet F8B4 HDN Luma"),
        WgpuUpscaleMethod::WgslAcnetF8B4BoxHdnLuma => Some("ACNet F8B4 Box HDN Luma"),
        _ => None,
    }
}

/// The shader function of the pass at an index.
pub open spec fn entry_point_of(blocks: int, index: int) -> Seq<char> {
    if index < 2 {
        "acnet_head_conv_1x8x3x3_part_"@ + text::decimal(index)
    } else if index < 2 + 2 * blocks {
        "acnet_body_block_"@ + text::decimal((index - 2) / 2 + 1) + "_conv_8x8x3x3_part_"@
            + text::decimal((index - 2) % 2)
    } else if index == 2 + 2 * blocks {
        "acnet_upscale_conv_8x4x3x3_part_0"@
    } else {
        "acnet_pixel_shuffle"@
    }
}

/// The shader function of the pass at an index.
pub fn acnet_entry_point(blocks: usize, index: usize) -> (name: String)
    requires
        index < 2 * blocks + 4,
        2 * blocks + 4 <= usize::MAX,
    ensures
        name@ == entry_point_of(blocks as int, index as int),
{
    if index < 2 {
        let mut name = "acnet_head_conv_1x8x3x3_part_".to_owned();
        text::push_decimal(&mut name, index as u64);
        name
    } else if index < 2 + 2 * blocks {
        let mut name = "acnet_body_block_".to_owned();
        text::push_decimal(&mut name, ((index - 2) / 2 + 1) as u64);
        name.append("_conv_8x8x3x3_part_");
        text::push_decimal(&mut name, ((index - 2) % 2) as u64);
        name
    } else if index == 2 + 2 * blocks {
        "acnet_upscale_conv_8x4x3x3_part_0".to_owned()
    } else {
        "acnet_pixel_shuffle".to_owned()
    }
}

/// The texture of the pair that holds the features after `layer` layers.
fn pair_part(layer: usize, part: usize) -> (texture: AcnetTexture)
    ensures
        texture == pair_texture(layer as int, part as int),
{
    if layer % 2 == 0 {
        if part == 0 {
            AcnetTexture::First0
        } else {
            AcnetTexture::First1
        }
    } else if part == 0 {
        AcnetTexture::Second0
    } else {
        AcnetTexture::Second1
    }
}

/// All passes of a network, in order.
pub fn acnet_passes(blocks: usize) -> (passes: Vec<AcnetPass>)
    requires
        2 * blocks + 4 <= usize::MAX,
    ensures
        passes@ == passes_of(blocks as int),
{
    let mut passes: Vec<AcnetPass> = Vec::new();
    passes.push(
        AcnetPass {
            input0: AcnetTexture::Source,
            input1: AcnetTexture::Source,
            out: pair_part(0, 0),
            over_output: false,
        },
    );
    passes.push(
        AcnetPass {
            input0: AcnetTexture::Source,
            input1: AcnetTexture::Source,
            out: pair_part(0, 1),
            over_output: false,
        },
    );
    let mut block: usize = 0;
    while block < blocks
        invariant
            block <= blocks,
            2 * blocks + 4 <= usize::MAX,
            passes@.len() == 2 + 2 * block,
            forall|i: int| 0 <= i < passes@.len() ==> passes@[i] == pass_at(blocks as int, i),
        decreases blocks - block,
    {
        let input0 = pair_part(block, 0);
        let input1 = pair_part(block, 1);
        passes.push(
            AcnetPass { input0, input1, out: pair_part(block + 1, 0), over_output: false },
        );
        passes.push(
            AcnetPass { input0, input1, out: pair_part(block + 1, 1), over_output: false },
        );
        block = block + 1;
    }
    let upscaled = pair_part(blocks + 1, 0);
    passes.push(
        AcnetPass {
            input0: pair_part(blocks, 0),
            input1: pair_part(blocks, 1),
            out: upscaled,
            over_output: false,
        },
    );
    passes.push(
        AcnetPass {
            input0: upscaled,
            input1: upscaled,
            out: pair_part(blocks + 1, 1),
            over_output: true,
        },
    );
    assert(passes@ =~= passes_of(blocks as int));
    passes
}

/// The passes of one picture, the work groups of the passes over the source and of the one over
/// the output, and the sizes that the shaders are told.
#[derive(Debug)]
pub struct AcnetPlan {
    pub passes: Vec<AcnetPass>,
    pub source_groups: [u32; 2],
    pub output_groups: [u32; 2],
    /// Source width and height, then output width and height, then padding.
    pub params: [u32; 8],
    pub readback: readback::Readback,
}

/// The message with which a request is refused, where it is.
pub open spec fn refusal(
    method: WgpuUpscaleMethod,
    source: [usize; 2],
    output: [usize; 2],
) -> Option<Seq<char>> {
    match acnet_name_of(method) {
        None => Some(method.label_spec() + " GPU pipelines unavailable"@),
        Some(name) => if sizes::is_double_or_crop(source, output) {
            None
        } else {
            Some(sizes::double_or_crop_message(name, source, output))
        },
    }
}

/// Plans an enlargement to twice the size, less a pixel on either side, or refuses it.
pub fn acnet_plan(
    method: WgpuUpscaleMethod,
    source: [usize; 2],
    output: [usize; 2],
) -> (plan: Result<AcnetPlan, String>)
    requires
        readback::fits_a_readback(source),
        readback::fits_a_readback(output),
    ensures
        match plan {
            Ok(plan) => {
                &&& refusal(method, source, output) == None::<Seq<char>>
                &&& plan.passes@ == passes_of(4)
                &&& plan.source_groups[0] == readback::divided_up(source[0] as int, 16)
                &&& plan.source_groups[1] == readback::divided_up(source[1] as int, 16)
                &&& plan.output_groups[0] == readback::divided_up(output[0] as int, 16)
                &&& plan.output_groups[1] == readback::divided_up(output[1] as int, 16)
                &&& plan.params@ == seq![
                    source[0] as u32,
                    source[1] as u32,
                    output[0] as u32,
                    output[1] as u32,
                    0u32,
                    0u32,
                    0u32,
                    0u32,
                ]
                &&& plan.readback == readback::readback_of(output)
            },
            Err(error) => refusal(method, source, output) == Some(error@),
        },
{
    let name = match acnet_name(method) {
        Some(name) => name,
        None => return Err(readback::joined(method.label(), " GPU pipelines unavailable")),
    };
    match sizes::require_double_or_crop(name, source, output) {
        Err(error) => return Err(error),
        Ok(_) => {},
    }
    let params: [u32; 8] = [
        source[0] as u32,
        source[1] as u32,
        output[0] as u32,
        output[1] as u32,
        0,
        0,
        0,
        0,
    ];
    assert(params@ =~= seq![
        source[0] as u32,
        source[1] as u32,
        output[0] as u32,
        output[1] as u32,
        0u32,
        0u32,
        0u32,
        0u32,
    ]);
    Ok(
        AcnetPlan {
            passes: acnet_passes(ACNET_BODY_BLOCKS),
            source_groups: [
                readback::divide_up(source[0] as u32, ACNET_GROUP_EDGE),
                readback::divide_up(source[1] as u32, ACNET_GROUP_EDGE),
            ],
            output_groups: [
                readback::divide_up(output[0] as u32, ACNET_GROUP_EDGE),
                readback::divide_up(output[1] as u32, ACNET_GROUP_EDGE),
            ],
            params,
            readback: readback::readback(output),
        },
    )
}

} // verus!
