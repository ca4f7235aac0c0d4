//! The CuNNy networks: their passes, the textures that the passes are bound to, and the sizes that
//! they accept.
use crate::gpu::readback;
use crate::gpu::sizes;
use crate::state::WgpuUpscaleMethod;
use crate::text;
use vstd::prelude::*;

verus! {

/// The textures that a pass can read, besides the source.
pub const CUNNY_INPUT_SLOTS: usize = 8;

/// The textures that a pass can write, besides the output.
pub const CUNNY_OUTPUT_SLOTS: usize = 3;

/// The most intermediate textures that a network has.
pub const CUNNY_INTERMEDIATE_CAPACITY: usize = 16;

/// The texture that is bound where a pass reads nothing.
pub const DUMMY_READ: usize = 16;

/// The first of the textures that are bound where a pass writes nothing.
pub const DUMMY_OUT0: usize = 17;

/// The side of the square of pixels that one work group computes.
pub const CUNNY_GROUP_EDGE: u32 = 8;

/// The networks, in the order in which they are listed.
pub open spec fn cunny_methods_spec() -> Seq<WgpuUpscaleMethod> {
    seq![
        WgpuUpscaleMethod::CunnyVeryfastNvl,
        WgpuUpscaleMethod::CunnyVeryfastSoft,
        WgpuUpscaleMethod::CunnyFasterNvl,
        WgpuUpscaleMethod::CunnyFasterSoft,
        WgpuUpscaleMethod::CunnyFasterDs,
        WgpuUpscaleMethod::CunnyFastNvl,
        WgpuUpscaleMethod::CunnyFastSoft,
        WgpuUpscaleMethod::CunnyFastDs,
        WgpuUpscaleMethod::Cunny2x12Soft,
        WgpuUpscaleMethod::Cunny2x12Ds,
        WgpuUpscaleMethod::Cunny3x12Nvl,
        WgpuUpscaleMethod::Cunny3x12Soft,
        WgpuUpscaleMethod::Cunny3x12Ds,
        WgpuUpscaleMethod::Cunny4x12Nvl,
        WgpuUpscaleMethod::Cunny4x12Soft,
        WgpuUpscaleMethod::Cunny4x12Ds,
        WgpuUpscaleMethod::Cunny4x16Nvl,
        WgpuUpscaleMethod::Cunny4x16Soft,
        WgpuUpscaleMethod::Cunny4x16Ds,
        WgpuUpscaleMethod::Cunny4x24Nvl,
        WgpuUpscaleMethod::Cunny4x24Soft,
        WgpuUpscaleMethod::Cunny4x24Ds,
        WgpuUpscaleMethod::Cunny4x32Nvl,
        WgpuUpscaleMethod::Cunny4x32Soft,
        WgpuUpscaleMethod::Cunny4x32Ds,
        WgpuUpscaleMethod::Cunny8x32Nvl,
        WgpuUpscaleMethod::Cunny8x32Ds,
    ]
}

/// The networks, in the order in which they are listed.
pub fn cunny_methods() -> (methods: [WgpuUpscaleMethod; 27])
    ensures
        methods@ == cunny_methods_spec(),
{
    let methods: [WgpuUpscaleMethod; 27] = [
        WgpuUpscaleMethod::CunnyVeryfastNvl,
        WgpuUpscaleMethod::CunnyVeryfastSoft,
        WgpuUpscaleMethod::CunnyFasterNvl,
        WgpuUpscaleMethod::CunnyFasterSoft,
        WgpuUpscaleMethod::CunnyFasterDs,
        WgpuUpscaleMethod::CunnyFastNvl,
        WgpuUpscaleMethod::CunnyFastSoft,
        WgpuUpscaleMethod::CunnyFastDs,
        WgpuUpscaleMethod::Cunny2x12Soft,
        WgpuUpscaleMethod::Cunny2x12Ds,
        WgpuUpscaleMethod::Cunny3x12Nvl,
        WgpuUpscaleMethod::Cunny3x12Soft,
        WgpuUpscaleMethod::Cunny3x12Ds,
        WgpuUpscaleMethod::Cunny4x12Nvl,
        WgpuUpscaleMethod::Cunny4x12Soft,
        WgpuUpscaleMethod::Cunny4x12Ds,
        WgpuUpscaleMethod::Cunny4x16Nvl,
        WgpuUpscaleMethod::Cunny4x16Soft,
        WgpuUpscaleMethod::Cunny4x16Ds,
        WgpuUpscaleMethod::Cunny4x24Nvl,
        WgpuUpscaleMethod::Cunny4x24Soft,
        WgpuUpscaleMethod::Cunny4x24Ds,
        WgpuUpscaleMethod::Cunny4x32Nvl,
        WgpuUpscaleMethod::Cunny4x32Soft,
        WgpuUpscaleMethod::Cunny4x32Ds,
        WgpuUpscaleMethod::Cunny8x32Nvl,
        WgpuUpscaleMethod::Cunny8x32Ds,
    ];
    assert(methods@ =~= cunny_methods_spec());
    methods
}

/// The networks listed are the upscalers that count as CuNNy ones, each listed once.
pub proof fn every_cunny_method_is_listed_once(method: WgpuUpscaleMethod)
    ensures
        method.is_cunny_spec() <==> cunny_methods_spec().contains(method),
        cunny_methods_spec().no_duplicates(),
{
    let listed = cunny_methods_spec();
    match method {
        WgpuUpscaleMethod::CunnyVeryfastNvl => assert(listed[0] == method),
        WgpuUpscaleMethod::CunnyVeryfastSoft => assert(listed[1] == method),
        WgpuUpscaleMethod::CunnyFasterNvl => assert(listed[2] == method),
        WgpuUpscaleMethod::CunnyFasterSoft => assert(listed[3] == method),
        WgpuUpscaleMethod::CunnyFasterDs => assert(listed[4] == method),
        WgpuUpscaleMethod::CunnyFastNvl => assert(listed[5] == method),
        WgpuUpscaleMethod::CunnyFastSoft => assert(listed[6] == method),
        WgpuUpscaleMethod::CunnyFastDs => assert(listed[7] == method),
        WgpuUpscaleMethod::Cunny2x12Soft => assert(listed[8] == method),
        WgpuUpscaleMethod::Cunny2x12Ds => assert(listed[9] == method),
        WgpuUpscaleMethod::Cunny3x12Nvl => assert(listed[10] == method),
        WgpuUpscaleMethod::Cunny3x12Soft => assert(listed[11] == method),
        WgpuUpscaleMethod::Cunny3x12Ds => assert(listed[12] == method),
        WgpuUpscaleMethod::Cunny4x12Nvl => assert(listed[13] == method),
        WgpuUpscaleMethod::Cunny4x12Soft => assert(listed[14] == method),
        WgpuUpscaleMethod::Cunny4x12Ds => assert(listed[15] == method),
        WgpuUpscaleMethod::Cunny4x16Nvl => assert(listed[16] == method),
        WgpuUpscaleMethod::Cunny4x16Soft => assert(listed[17] == method),
        WgpuUpscaleMethod::Cunny4x16Ds => assert(listed[18] == method),
        WgpuUpscaleMethod::Cunny4x24Nvl => assert(listed[19] == method),
        WgpuUpscaleMethod::Cunny4x24Soft => assert(listed[20] == method),
        WgpuUpscaleMethod::Cunny4x24Ds => assert(listed[21] == method),
        WgpuUpscaleMethod::Cunny4x32Nvl => assert(listed[22] == method),
        WgpuUpscaleMethod::Cunny4x32Soft => assert(listed[23] == method),
        WgpuUpscaleMethod::Cunny4x32Ds => assert(listed[24] == method),
        WgpuUpscaleMethod::Cunny8x32Nvl => assert(listed[25] == method),
        WgpuUpscaleMethod::Cunny8x32Ds => assert(listed[26] == method),
        _ => {},
    }
    assert forall|i: int| 0 <= i < listed.len() implies (#[trigger] listed[i]).is_cunny_spec() by {
    }
}

/// The network's name within shader functions and file names.
pub open spec fn token_of(method: WgpuUpscaleMethod) -> Seq<char> {
    match method {
        WgpuUpscaleMethod::CunnyVeryfastNvl => "veryfast_nvl"@,
        WgpuUpscaleMethod::CunnyVeryfastSoft => "veryfast_soft"@,
        WgpuUpscaleMethod::CunnyFasterNvl => "faster_nvl"@,
        WgpuUpscaleMethod::CunnyFasterSoft => "faster_soft"@,
        WgpuUpscaleMethod::CunnyFasterDs => "faster_ds"@,
        WgpuUpscaleMethod::CunnyFastNvl => "fast_nvl"@,
        WgpuUpscaleMethod::CunnyFastSoft => "fast_soft"@,
        WgpuUpscaleMethod::CunnyFastDs => "fast_ds"@,
        WgpuUpscaleMethod::Cunny2x12Soft => "2x12_soft"@,
        WgpuUpscaleMethod::Cunny2x12Ds => "2x12_ds"@,
        WgpuUpscaleMethod::Cunny3x12Nvl => "3x12_nvl"@,
        WgpuUpscaleMethod::Cunny3x12Soft => "3x12_soft"@,
        WgpuUpscaleMethod::Cunny3x12Ds => "3x12_ds"@,
        WgpuUpscaleMethod::Cunny4x12Nvl => "4x12_nvl"@,
        WgpuUpscaleMethod::Cunny4x12Soft => "4x12_soft"@,
        WgpuUpscaleMethod::Cunny4x12Ds => "4x12_ds"@,
        WgpuUpscaleMethod::Cunny4x16Nvl => "4x16_nvl"@,
        WgpuUpscaleMethod::Cunny4x16Soft => "4x16_soft"@,
        WgpuUpscaleMethod::Cunny4x16Ds => "4x16_ds"@,
        WgpuUpscaleMethod::Cunny4x24Nvl => "4x24_nvl"@,
        WgpuUpscaleMethod::Cunny4x24Soft => "4x24_soft"@,
        WgpuUpscaleMethod::Cunny4x24Ds => "4x24_ds"@,
        WgpuUpscaleMethod::Cunny4x32Nvl => "4x32_nvl"@,
        WgpuUpscaleMethod::Cunny4x32Soft => "4x32_soft"@,
        WgpuUpscaleMethod::Cunny4x32Ds => "4x32_ds"@,
        WgpuUpscaleMethod::Cunny8x32Nvl => "8x32_nvl"@,
        WgpuUpscaleMethod::Cunny8x32Ds => "8x32_ds"@,
        _ => ""@,
    }
}

/// The network's name within shader functions and file names.
pub fn cunny_token(method: WgpuUpscaleMethod) -> (token: &'static str)
    ensures
        token@ == token_of(method),
{
    match method {
        WgpuUpscaleMethod::CunnyVeryfastNvl => "veryfast_nvl",
        WgpuUpscaleMethod::CunnyVeryfastSoft => "veryfast_soft",
        WgpuUpscaleMethod::CunnyFasterNvl => "faster_nvl",
        WgpuUpscaleMethod::CunnyFasterSoft => "faster_soft",
        WgpuUpscaleMethod::CunnyFasterDs => "faster_ds",
        WgpuUpscaleMethod::CunnyFastNvl => "fast_nvl",
        WgpuUpscaleMethod::CunnyFastSoft => "fast_soft",
        WgpuUpscaleMethod::CunnyFastDs => "fast_ds",
        WgpuUpscaleMethod::Cunny2x12Soft => "2x12_soft",
        WgpuUpscaleMethod::Cunny2x12Ds => "2x12_ds",
        WgpuUpscaleMethod::Cunny3x12Nvl => "3x12_nvl",
        WgpuUpscaleMethod::Cunny3x12Soft => "3x12_soft",
        WgpuUpscaleMethod::Cunny3x12Ds => "3x12_ds",
        WgpuUpscaleMethod::Cunny4x12Nvl => "4x12_nvl",
        WgpuUpscaleMethod::Cunny4x12Soft => "4x12_soft",
        WgpuUpscaleMethod::Cunny4x12Ds => "4x12_ds",
        WgpuUpscaleMethod::Cunny4x16Nvl => "4x16_nvl",
        WgpuUpscaleMethod::Cunny4x16Soft => "4x16_soft",
        WgpuUpscaleMethod::Cunny4x16Ds => "4x16_ds",
        WgpuUpscaleMethod::Cunny4x24Nvl => "4x24_nvl",
        WgpuUpscaleMethod::Cunny4x24Soft => "4x24_soft",
        WgpuUpscaleMethod::Cunny4x24Ds => "4x24_ds",
        WgpuUpscaleMethod::Cunny4x32Nvl => "4x32_nvl",
        WgpuUpscaleMethod::Cunny4x32Soft => "4x32_soft",
        WgpuUpscaleMethod::Cunny4x32Ds => "4x32_ds",
        WgpuUpscaleMethod::Cunny8x32Nvl => "8x32_nvl",
        WgpuUpscaleMethod::Cunny8x32Ds => "8x32_ds",
        _ => "",
    }
}

/// The layers of a network: how many there are before the output, how many textures a layer fills,
/// and how many the last of them does.
#[derive(Debug, Clone, Copy, PartialEq, Eq, Structural)]
pub struct CunnyShape {
    pub layers: usize,
    pub width: usize,
    pub last_width: usize,
}

/// The shape of a network.
pub open spec fn shape_of(method: WgpuUpscaleMethod) -> CunnyShape {
    match method {
        WgpuUpscaleMethod::CunnyVeryfastNvl => CunnyShape { layers: 3, width: 2, last_width: 1 },
        WgpuUpscaleMethod::CunnyVeryfastSoft => CunnyShape { layers: 3, width: 2, last_width: 1 },
        WgpuUpscaleMethod::CunnyFasterNvl => CunnyShape { layers: 3, width: 2, last_width: 2 },
        WgpuUpscaleMethod::CunnyFasterSoft => CunnyShape { layers: 3, width: 2, last_width: 2 },
        WgpuUpscaleMethod::CunnyFasterDs => CunnyShape { layers: 3, width: 2, last_width: 2 },
        WgpuUpscaleMethod::CunnyFastNvl => CunnyShape { layers: 3, width: 3, last_width: 2 },
        WgpuUpscaleMethod::CunnyFastSoft => CunnyShape { layers: 3, width: 3, last_width: 2 },
        WgpuUpscaleMethod::CunnyFastDs => CunnyShape { layers: 3, width: 3, last_width: 2 },
        WgpuUpscaleMethod::Cunny2x12Soft => CunnyShape { layers: 3, width: 3, last_width: 3 },
        WgpuUpscaleMethod::Cunny2x12Ds => CunnyShape { layers: 3, width: 3, last_width: 3 },
        WgpuUpscaleMethod::Cunny3x12Nvl => CunnyShape { layers: 4, width: 3, last_width: 3 },
        WgpuUpscaleMethod::Cunny3x12Soft => CunnyShape { layers: 4, width: 3, last_width: 3 },
        WgpuUpscaleMethod::Cunny3x12Ds => CunnyShape { layers: 4, width: 3, last_width: 3 },
        WgpuUpscaleMethod::Cunny4x12Nvl => CunnyShape { layers: 5, width: 3, last_width: 3 },
        WgpuUpscaleMethod::Cunny4x12Soft => CunnyShape { layers: 5, width: 3, last_width: 3 },
        WgpuUpscaleMethod::Cunny4x12Ds => CunnyShape { layers: 5, width: 3, last_width: 3 },
        WgpuUpscaleMethod::Cunny4x16Nvl => CunnyShape { layers: 5, width: 4, last_width: 4 },
        WgpuUpscaleMethod::Cunny4x16Soft => CunnyShape { layers: 5, width: 4, last_width: 4 },
        WgpuUpscaleMethod::Cunny4x16Ds => CunnyShape { layers: 5, width: 4, last_width: 4 },
        WgpuUpscaleMethod::Cunny4x24Nvl => CunnyShape { layers: 5, width: 6, last_width: 6 },
        WgpuUpscaleMethod::Cunny4x24Soft => CunnyShape { layers: 5, width: 6, last_width: 6 },
        WgpuUpscaleMethod::Cunny4x24Ds => CunnyShape { layers: 5, width: 6, last_width: 6 },
        WgpuUpscaleMethod::Cunny4x32Nvl => CunnyShape { layers: 5, width: 8, last_width: 8 },
        WgpuUpscaleMethod::Cunny4x32Soft => CunnyShape { layers: 5, width: 8, last_width: 8 },
        WgpuUpscaleMethod::Cunny4x32Ds => CunnyShape { layers: 5, width: 8, last_width: 8 },
        WgpuUpscaleMethod::Cunny8x32Nvl => CunnyShape { layers: 9, width: 8, last_width: 8 },
        WgpuUpscaleMethod::Cunny8x32Ds => CunnyShape { layers: 9, width: 8, last_width: 8 },
        _ => CunnyShape { layers: 0, width: 1, last_width: 1 },
    }
}

/// The shape of a network.
pub fn cunny_shape(method: WgpuUpscaleMethod) -> (shape: CunnyShape)
    ensures
        shape == shape_of(method),
        shape.wf(),
{
    match method {
        WgpuUpscaleMethod::CunnyVeryfastNvl => CunnyShape { layers: 3, width: 2, last_width: 1 },
        WgpuUpscaleMethod::CunnyVeryfastSoft => CunnyShape { layers: 3, width: 2, last_width: 1 },
        WgpuUpscaleMethod::CunnyFasterNvl => CunnyShape { layers: 3, width: 2, last_width: 2 },
        WgpuUpscaleMethod::CunnyFasterSoft => CunnyShape { layers: 3, width: 2, last_width: 2 },
        WgpuUpscaleMethod::CunnyFasterDs => CunnyShape { layers: 3, width: 2, last_width: 2 },
        WgpuUpscaleMethod::CunnyFastNvl => CunnyShape { layers: 3, width: 3, last_width: 2 },
        WgpuUpscaleMethod::CunnyFastSoft => CunnyShape { layers: 3, width: 3, last_width: 2 },
        WgpuUpscaleMethod::CunnyFastDs => CunnyShape { layers: 3, width: 3, last_width: 2 },
        WgpuUpscaleMethod::Cunny2x12Soft => CunnyShape { layers: 3, width: 3, last_width: 3 },
        WgpuUpscaleMethod::Cunny2x12Ds => CunnyShape { layers: 3, width: 3, last_width: 3 },
        WgpuUpscaleMethod::Cunny3x12Nvl => CunnyShape { layers: 4, width: 3, last_width: 3 },
        WgpuUpscaleMethod::Cunny3x12Soft => CunnyShape { layers: 4, width: 3, last_width: 3 },
        WgpuUpscaleMethod::Cunny3x12Ds => CunnyShape { layers: 4, width: 3, last_width: 3 },
        WgpuUpscaleMethod::Cunny4x12Nvl => CunnyShape { layers: 5, width: 3, last_width: 3 },
        WgpuUpscaleMethod::Cunny4x12Soft => CunnyShape { layers: 5, width: 3, last_width: 3 },
        WgpuUpscaleMethod::Cunny4x12Ds => CunnyShape { layers: 5, width: 3, last_width: 3 },
        WgpuUpscaleMethod::Cunny4x16Nvl => CunnyShape { layers: 5, width: 4, last_width: 4 },
        WgpuUpscaleMethod::Cunny4x16Soft => CunnyShape { layers: 5, width: 4, last_width: 4 },
        WgpuUpscaleMethod::Cunny4x16Ds => CunnyShape { layers: 5, width: 4, last_width: 4 },
        WgpuUpscaleMethod::Cunny4x24Nvl => CunnyShape { layers: 5, width: 6, last_width: 6 },
        WgpuUpscaleMethod::Cunny4x24Soft => CunnyShape { layers: 5, width: 6, last_width: 6 },
        WgpuUpscaleMethod::Cunny4x24Ds => CunnyShape { layers: 5, width: 6, last_width: 6 },
        WgpuUpscaleMethod::Cunny4x32Nvl => CunnyShape { layers: 5, width: 8, last_width: 8 },
        WgpuUpscaleMethod::Cunny4x32Soft => CunnyShape { layers: 5, width: 8, last_width: 8 },
        WgpuUpscaleMethod::Cunny4x32Ds => CunnyShape { layers: 5, width: 8, last_width: 8 },
        WgpuUpscaleMethod::Cunny8x32Nvl => CunnyShape { layers: 9, width: 8, last_width: 8 },
        WgpuUpscaleMethod::Cunny8x32Ds => CunnyShape { layers: 9, width: 8, last_width: 8 },
        _ => CunnyShape { layers: 0, width: 1, last_width: 1 },
    }
}

/// A network's name within shaders is that of its label: the same figures or the same speed first, and
/// the same ending, in lower case.
pub proof fn tokens_follow_the_labels(method: WgpuUpscaleMethod)
    requires
        method.is_cunny_spec(),
    ensures
        ({
            let (token, label) = (token_of(method), method.label_spec());
            &&& label.len() == token.len() + 6 && token.len() > 4
            &&& token[0] == label[6] && token[1] == label[7] && token[2] == label[8] && token[3]
                == label[9]
            &&& token.last() == text::ascii_lower(label.last())
        }),
{
    match method {
        WgpuUpscaleMethod::CunnyVeryfastNvl => {
            reveal_strlit("CuNNy veryfast NVL");
            reveal_strlit("veryfast_nvl");
        },
        WgpuUpscaleMethod::CunnyVeryfastSoft => {
            reveal_strlit("CuNNy veryfast SOFT");
            reveal_strlit("veryfast_soft");
        },
        WgpuUpscaleMethod::CunnyFasterNvl => {
            reveal_strlit("CuNNy faster NVL");
            reveal_strlit("faster_nvl");
        },
        WgpuUpscaleMethod::CunnyFasterSoft => {
            reveal_strlit("CuNNy faster SOFT");
            reveal_strlit("faster_soft");
        },
        WgpuUpscaleMethod::CunnyFasterDs => {
            reveal_strlit("CuNNy faster DS");
            reveal_strlit("faster_ds");
        },
        WgpuUpscaleMethod::CunnyFastNvl => {
            reveal_strlit("CuNNy fast NVL");
            reveal_strlit("fast_nvl");
        },
        WgpuUpscaleMethod::CunnyFastSoft => {
            reveal_strlit("CuNNy fast SOFT");
            reveal_strlit("fast_soft");
        },
        WgpuUpscaleMethod::CunnyFastDs => {
            reveal_strlit("CuNNy fast DS");
            reveal_strlit("fast_ds");
        },
        WgpuUpscaleMethod::Cunny2x12Soft => {
            reveal_strlit("CuNNy 2x12 SOFT");
            reveal_strlit("2x12_soft");
        },
        WgpuUpscaleMethod::Cunny2x12Ds => {
            reveal_strlit("CuNNy 2x12 DS");
            reveal_strlit("2x12_ds");
        },
        WgpuUpscaleMethod::Cunny3x12Nvl => {
            reveal_strlit("CuNNy 3x12 NVL");
            reveal_strlit("3x12_nvl");
        },
        WgpuUpscaleMethod::Cunny3x12Soft => {
            reveal_strlit("CuNNy 3x12 SOFT");
            reveal_strlit("3x12_soft");
        },
        WgpuUpscaleMethod::Cunny3x12Ds => {
            reveal_strlit("CuNNy 3x12 DS");
            reveal_strlit("3x12_ds");
        },
        WgpuUpscaleMethod::Cunny4x12Nvl => {
            reveal_strlit("CuNNy 4x12 NVL");
            reveal_strlit("4x12_nvl");
        },
        WgpuUpscaleMethod::Cunny4x12Soft => {
            reveal_strlit("CuNNy 4x12 SOFT");
            reveal_strlit("4x12_soft");
        },
        WgpuUpscaleMethod::Cunny4x12Ds => {
            reveal_strlit("CuNNy 4x12 DS");
            reveal_strlit("4x12_ds");
        },
        WgpuUpscaleMethod::Cunny4x16Nvl => {
            reveal_strlit("CuNNy 4x16 NVL");
            reveal_strlit("4x16_nvl");
        },
        WgpuUpscaleMethod::Cunny4x16Soft => {
            reveal_strlit("CuNNy 4x16 SOFT");
            reveal_strlit("4x16_soft");
        },
        WgpuUpscaleMethod::Cunny4x16Ds => {
            reveal_strlit("CuNNy 4x16 DS");
            reveal_strlit("4x16_ds");
        },
        WgpuUpscaleMethod::Cunny4x24Nvl => {
            reveal_strlit("CuNNy 4x24 NVL");
            reveal_strlit("4x24_nvl");
        },
        WgpuUpscaleMethod::Cunny4x24Soft => {
            reveal_strlit("CuNNy 4x24 SOFT");
            reveal_strlit("4x24_soft");
        },
        WgpuUpscaleMethod::Cunny4x24Ds => {
            reveal_strlit("CuNNy 4x24 DS");
            reveal_strlit("4x24_ds");
        },
        WgpuUpscaleMethod::Cunny4x32Nvl => {
            reveal_strlit("CuNNy 4x32 NVL");
            reveal_strlit("4x32_nvl");
        },
        WgpuUpscaleMethod::Cunny4x32Soft => {
            reveal_strlit("CuNNy 4x32 SOFT");
            reveal_strlit("4x32_soft");
        },
        WgpuUpscaleMethod::Cunny4x32Ds => {
            reveal_strlit("CuNNy 4x32 DS");
            reveal_strlit("4x32_ds");
        },
        WgpuUpscaleMethod::Cunny8x32Nvl => {
            reveal_strlit("CuNNy 8x32 NVL");
            reveal_strlit("8x32_nvl");
        },
        WgpuUpscaleMethod::Cunny8x32Ds => {
            reveal_strlit("CuNNy 8x32 DS");
            reveal_strlit("8x32_ds");
        },
        _ => {},
    }
}

/// A network named by two figures has as many layers as the first one says and one more, each of the
/// textures of four features that hold as many features as the second one says. The others, named by
/// their speed, have three layers, and the slower one is never narrower than the faster one.
pub proof fn shapes_follow_the_names(method: WgpuUpscaleMethod)
    requires
        method.is_cunny_spec(),
    ensures
        ({
            let (token, shape) = (token_of(method), shape_of(method));
            let figures = token[1] == 'x';
            &&& figures ==> shape.layers == token[0] as int - '0' as int + 1
            &&& figures ==> 4 * shape.width == 10 * (token[2] as int - '0' as int) + (token[3] as int
                - '0' as int)
            &&& figures ==> shape.last_width == shape.width
            &&& !figures ==> shape.layers == 3
            &&& !figures && token[0] == 'v' ==> shape.width == 2 && shape.last_width == 1
            &&& !figures && token[0] == 'f' && token[4] == 'e' ==> shape.width == 2
                && shape.last_width == 2
            &&& !figures && token[0] == 'f' && token[4] != 'e' ==> shape.width == 3
                && shape.last_width == 2
        }),
{
    match method {
        WgpuUpscaleMethod::CunnyVeryfastNvl => {
            reveal_strlit("CuNNy veryfast NVL");
            reveal_strlit("veryfast_nvl");
        },
        WgpuUpscaleMethod::CunnyVeryfastSoft => {
            reveal_strlit("CuNNy veryfast SOFT");
            reveal_strlit("veryfast_soft");
        },
        WgpuUpscaleMethod::CunnyFasterNvl => {
            reveal_strlit("CuNNy faster NVL");
            reveal_strlit("faster_nvl");
        },
        WgpuUpscaleMethod::CunnyFasterSoft => {
            reveal_strlit("CuNNy faster SOFT");
            reveal_strlit("faster_soft");
        },
        WgpuUpscaleMethod::CunnyFasterDs => {
            reveal_strlit("CuNNy faster DS");
            reveal_strlit("faster_ds");
        },
        WgpuUpscaleMethod::CunnyFastNvl => {
            reveal_strlit("CuNNy fast NVL");
            reveal_strlit("fast_nvl");
        },
        WgpuUpscaleMethod::CunnyFastSoft => {
            reveal_strlit("CuNNy fast SOFT");
            reveal_strlit("fast_soft");
        },
        WgpuUpscaleMethod::CunnyFastDs => {
            reveal_strlit("CuNNy fast DS");
            reveal_strlit("fast_ds");
        },
        WgpuUpscaleMethod::Cunny2x12Soft => {
            reveal_strlit("CuNNy 2x12 SOFT");
            reveal_strlit("2x12_soft");
        },
        WgpuUpscaleMethod::Cunny2x12Ds => {
            reveal_strlit("CuNNy 2x12 DS");
            reveal_strlit("2x12_ds");
        },
        WgpuUpscaleMethod::Cunny3x12Nvl => {
            reveal_strlit("CuNNy 3x12 NVL");
            reveal_strlit("3x12_nvl");
        },
        WgpuUpscaleMethod::Cunny3x12Soft => {
            reveal_strlit("CuNNy 3x12 SOFT");
            reveal_strlit("3x12_soft");
        },
        WgpuUpscaleMethod::Cunny3x12Ds => {
            reveal_strlit("CuNNy 3x12 DS");
            reveal_strlit("3x12_ds");
        },
        WgpuUpscaleMethod::Cunny4x12Nvl => {
            reveal_strlit("CuNNy 4x12 NVL");
            reveal_strlit("4x12_nvl");
        },
        WgpuUpscaleMethod::Cunny4x12Soft => {
            reveal_strlit("CuNNy 4x12 SOFT");
            reveal_strlit("4x12_soft");
        },
        WgpuUpscaleMethod::Cunny4x12Ds => {
            reveal_strlit("CuNNy 4x12 DS");
            reveal_strlit("4x12_ds");
        },
        WgpuUpscaleMethod::Cunny4x16Nvl => {
            reveal_strlit("CuNNy 4x16 NVL");
            reveal_strlit("4x16_nvl");
        },
        WgpuUpscaleMethod::Cunny4x16Soft => {
            reveal_strlit("CuNNy 4x16 SOFT");
            reveal_strlit("4x16_soft");
        },
        WgpuUpscaleMethod::Cunny4x16Ds => {
            reveal_strlit("CuNNy 4x16 DS");
            reveal_strlit("4x16_ds");
        },
        WgpuUpscaleMethod::Cunny4x24Nvl => {
            reveal_strlit("CuNNy 4x24 NVL");
            reveal_strlit("4x24_nvl");
        },
        WgpuUpscaleMethod::Cunny4x24Soft => {
            reveal_strlit("CuNNy 4x24 SOFT");
            reveal_strlit("4x24_soft");
        },
        WgpuUpscaleMethod::Cunny4x24Ds => {
            reveal_strlit("CuNNy 4x24 DS");
            reveal_strlit("4x24_ds");
        },
        WgpuUpscaleMethod::Cunny4x32Nvl => {
            reveal_strlit("CuNNy 4x32 NVL");
            reveal_strlit("4x32_nvl");
        },
        WgpuUpscaleMethod::Cunny4x32Soft => {
            reveal_strlit("CuNNy 4x32 SOFT");
            reveal_strlit("4x32_soft");
        },
        WgpuUpscaleMethod::Cunny4x32Ds => {
            reveal_strlit("CuNNy 4x32 DS");
            reveal_strlit("4x32_ds");
        },
        WgpuUpscaleMethod::Cunny8x32Nvl => {
            reveal_strlit("CuNNy 8x32 NVL");
            reveal_strlit("8x32_nvl");
        },
        WgpuUpscaleMethod::Cunny8x32Ds => {
            reveal_strlit("CuNNy 8x32 DS");
            reveal_strlit("8x32_ds");
        },
        _ => {},
    }
}

impl CunnyShape {
    /// Whether the layers fit the slots and the textures there are.
    pub open spec fn wf(self) -> bool {
        &&& self.layers <= 9
        &&& 1 <= self.last_width <= self.width <= CUNNY_INPUT_SLOTS
        &&& self.width > CUNNY_OUTPUT_SLOTS ==> self.last_width == self.width
    }

    /// The passes that fill the textures of one layer, three textures at a time.
    pub open spec fn chunks(self) -> int {
        (self.width + 2) / 3
    }

    /// The number of passes: those of the layers, and one that draws the output.
    pub open spec fn pass_count(self) -> int {
        self.layers * self.chunks() + 1
    }

    /// The layer that a pass belongs to; the pass that draws the output comes after all layers.
    pub open spec fn layer(self, index: int) -> int {
        index / self.chunks()
    }

    /// The place of a pass among those of its layer.
    pub open spec fn chunk(self, index: int) -> int {
        index % self.chunks()
    }

    /// The number of textures that a layer fills.
    pub open spec fn layer_width(self, layer: int) -> int {
        if layer == self.layers - 1 {
            self.last_width as int
        } else {
            self.width as int
        }
    }

    /// The first of the textures that a layer fills. Layers take turns on two banks of textures.
    pub open spec fn bank(self, layer: int) -> int {
        if layer % 2 == 0 {
            0
        } else {
            self.width as int
        }
    }

    /// The intermediate textures that a pass reads: all of the layer before its own.
    pub open spec fn inputs(self, index: int) -> Seq<usize> {
        let layer = self.layer(index);
        if layer == 0 {
            Seq::empty()
        } else {
            Seq::new(
                self.layer_width(layer - 1) as nat,
                |i: int| (self.bank(layer - 1) + i) as usize,
            )
        }
    }

    /// The number of intermediate textures that a pass writes.
    pub open spec fn output_count(self, index: int) -> int {
        let left = self.layer_width(self.layer(index)) - 3 * self.chunk(index);
        if index >= self.pass_count() - 1 {
            0
        } else if left < 3 {
            left
        } else {
            3
        }
    }

    /// The intermediate textures that a pass writes: its share of its own layer.
    pub open spec fn outputs(self, index: int) -> Seq<usize> {
        Seq::new(
            self.output_count(index) as nat,
            |i: int| (self.bank(self.layer(index)) + 3 * self.chunk(index) + i) as usize,
        )
    }

    /// Whether the network is one of those with at most three textures to a layer, whose tables
    /// name a texture for every slot that their shaders declare.
    pub open spec fn compact(self) -> bool {
        self.width <= 3
    }

    /// The inputs that the table of passes lists.
    pub open spec fn listed_inputs(self, index: int) -> Seq<usize> {
        let inputs = self.inputs(index);
        if self.compact() {
            Seq::new(
                3,
                |i: int|
                    if i < inputs.len() {
                        inputs[i]
                    } else {
                        DUMMY_READ
                    },
            )
        } else {
            inputs
        }
    }

    /// The outputs that the table of passes lists.
    pub open spec fn listed_outputs(self, index: int) -> Seq<usize> {
        let outputs = self.outputs(index);
        if self.compact() {
            Seq::new(
                3,
                |i: int|
                    if i < outputs.len() {
                        outputs[i]
                    } else {
                        (DUMMY_OUT0 + (i - outputs.len())) as usize
                    },
            )
        } else {
            outputs
        }
    }
}

/// One pass: the textures that it reads and those that it writes.
#[derive(Debug)]
pub struct CunnyPassSpec {
    pub inputs: Vec<usize>,
    pub outputs: Vec<usize>,
}

impl CunnyPassSpec {
    /// Whether this is the pass of a network at an index.
    pub open spec fn is_pass(self, shape: CunnyShape, index: int) -> bool {
        &&& self.inputs@ == shape.listed_inputs(index)
        &&& self.outputs@ == shape.listed_outputs(index)
    }
}

proof fn lemma_place(shape: CunnyShape, layer: int, chunk: int)
    requires
        shape.wf(),
        0 <= layer,
        0 <= chunk < shape.chunks(),
    ensures
        shape.layer(layer * shape.chunks() + chunk) == layer,
        shape.chunk(layer * shape.chunks() + chunk) == chunk,
{
    vstd::arithmetic::mul::lemma_mul_is_commutative(layer, shape.chunks());
    vstd::arithmetic::div_mod::lemma_fundamental_div_mod_converse(
        layer * shape.chunks() + chunk,
        shape.chunks(),
        layer,
        chunk,
    );
}

proof fn lemma_place_of(shape: CunnyShape, index: int)
    requires
        shape.wf(),
        0 <= index < shape.pass_count(),
    ensures
        0 <= shape.layer(index) <= shape.layers,
        0 <= shape.chunk(index) < shape.chunks(),
        index == shape.layer(index) * shape.chunks() + shape.chunk(index),
        index == shape.pass_count() - 1 <==> shape.layer(index) == shape.layers,
        shape.layer(index) == shape.layers ==> shape.chunk(index) == 0,
        1 <= shape.chunks() <= 3,
{
    let c = shape.chunks();
    vstd::arithmetic::div_mod::lemma_fundamental_div_mod(index, c);
    vstd::arithmetic::div_mod::lemma_mod_bound(index, c);
    vstd::arithmetic::mul::lemma_mul_is_commutative(c, index / c);
    let l = index / c;
    let k = index % c;
    assert(0 <= l <= shape.layers && (l == shape.layers ==> k == 0) && (l < shape.layers ==> index
        < shape.layers * c)) by (nonlinear_arith)
        requires
            index == l * c + k,
            0 <= k < c,
            0 <= index <= shape.layers * c,
            l == index / c,
    ;
}

/// A pass never writes what it reads, nor does another pass of its layer; and what it reads was
/// written by a pass of the layer before, and by none since.
pub proof fn passes_read_the_layer_before(shape: CunnyShape, index: int, texture: usize)
    requires
        shape.wf(),
        0 <= index < shape.pass_count(),
        shape.inputs(index).contains(texture),
    ensures
        shape.layer(index) > 0,
        exists|writer: int|
            0 <= writer < index && shape.layer(writer) == shape.layer(index) - 1
                && #[trigger] shape.outputs(writer).contains(texture) && forall|k: int|
                writer < k <= index ==> !(#[trigger] shape.outputs(k)).contains(texture),
{
    lemma_place_of(shape, index);
    let layer = shape.layer(index);
    let i = choose|i: int|
        0 <= i < shape.inputs(index).len() && #[trigger] shape.inputs(index)[i] == texture;
    assert(texture == shape.bank(layer - 1) + i);
    let c = shape.chunks();
    let chunk = i / 3;
    assert(0 <= chunk < c);
    let writer = (layer - 1) * c + chunk;
    lemma_place(shape, layer - 1, chunk);
    assert(0 <= writer < index) by (nonlinear_arith)
        requires
            writer == (layer - 1) * c + chunk,
            0 <= chunk < c,
            layer >= 1,
            index == layer * c + shape.chunk(index),
            shape.chunk(index) >= 0,
    ;
    lemma_place_of(shape, writer);
    assert(shape.outputs(writer)[i % 3] == texture);
    assert forall|k: int| writer < k <= index implies !(#[trigger] shape.outputs(k)).contains(
        texture,
    ) by {
        lemma_place_of(shape, k);
        assert(shape.layer(k) == layer - 1 || shape.layer(k) == layer) by (nonlinear_arith)
            requires
                c >= 1,
                k == shape.layer(k) * c + shape.chunk(k),
                0 <= shape.chunk(k) < c,
                writer == (layer - 1) * c + chunk,
                0 <= chunk < c,
                index == layer * c + shape.chunk(index),
                0 <= shape.chunk(index) < c,
                writer < k <= index,
        ;
        if shape.layer(k) == layer - 1 {
            assert(shape.chunk(k) > chunk) by (nonlinear_arith)
                requires
                    k == (layer - 1) * c + shape.chunk(k),
                    writer == (layer - 1) * c + chunk,
                    writer < k,
            ;
        }
        assert forall|j: int| 0 <= j < shape.outputs(k).len() implies shape.outputs(k)[j]
            != texture by {
        }
    }
    assert(0 <= writer < index && shape.layer(writer) == layer - 1 && shape.outputs(
        writer,
    ).contains(texture));
}

/// The intermediate textures of a network are those of its two banks.
pub proof fn passes_stay_within_two_banks(shape: CunnyShape, index: int, texture: usize)
    requires
        shape.wf(),
        0 <= index < shape.pass_count(),
        shape.inputs(index).contains(texture) || shape.outputs(index).contains(texture),
    ensures
        texture < 2 * shape.width <= CUNNY_INTERMEDIATE_CAPACITY,
{
    lemma_place_of(shape, index);
    if shape.inputs(index).contains(texture) {
        let i = choose|i: int|
            0 <= i < shape.inputs(index).len() && #[trigger] shape.inputs(index)[i] == texture;
        assert(texture == shape.bank(shape.layer(index) - 1) + i);
    } else {
        let i = choose|i: int|
            0 <= i < shape.outputs(index).len() && #[trigger] shape.outputs(index)[i] == texture;
        assert(texture == shape.bank(shape.layer(index)) + 3 * shape.chunk(index) + i);
    }
}

/// Lists the pass of a network that belongs to a layer and a chunk.
fn pass_spec(shape: CunnyShape, layer: usize, chunk: usize, Ghost(index): Ghost<int>) -> (spec:
    CunnyPassSpec)
    requires
        shape.wf(),
        layer <= shape.layers,
        chunk < shape.chunks(),
        0 <= index < shape.pass_count(),
        layer == shape.layer(index),
        chunk == shape.chunk(index),
    ensures
        spec.is_pass(shape, index),
{
    proof {
        lemma_place_of(shape, index);
    }
    let compact = shape.width <= 3;
    let mut inputs: Vec<usize> = Vec::new();
    if layer > 0 {
        let width: usize = if layer == shape.layers {
            shape.last_width
        } else {
            shape.width
        };
        let bank: usize = if layer % 2 == 1 {
            0
        } else {
            shape.width
        };
        let mut i: usize = 0;
        while i < width
            invariant
                i <= width <= 8,
                bank <= 8,
                inputs@.len() == i,
                forall|k: int| 0 <= k < i ==> inputs@[k] == bank + k,
            decreases width - i,
        {
            inputs.push(bank + i);
            i = i + 1;
        }
    }
    assert(inputs@ =~= shape.inputs(index));
    if compact {
        let ghost given = inputs@;
        while inputs.len() < 3
            invariant
                given.len() <= inputs@.len() <= 3,
                forall|k: int|
                    0 <= k < inputs@.len() ==> inputs@[k] == if k < given.len() {
                        given[k]
                    } else {
                        DUMMY_READ
                    },
            decreases 3 - inputs.len(),
        {
            inputs.push(DUMMY_READ);
        }
    }
    assert(inputs@ =~= shape.listed_inputs(index));
    let mut outputs: Vec<usize> = Vec::new();
    if layer < shape.layers {
        let width: usize = if layer == shape.layers - 1 {
            shape.last_width
        } else {
            shape.width
        };
        let bank: usize = if layer % 2 == 0 {
            0
        } else {
            shape.width
        };
        let first: usize = 3 * chunk;
        let mut i: usize = first;
        while i < width && i < first + 3
            invariant
                first <= i <= first + 3,
                first <= 9,
                i <= width || i == first,
                width <= 8,
                bank <= 8,
                outputs@.len() == i - first,
                forall|k: int| 0 <= k < outputs@.len() ==> outputs@[k] == bank + first + k,
            decreases width - i,
        {
            outputs.push(bank + i);
            i = i + 1;
        }
    }
    assert(outputs@ =~= shape.outputs(index));
    if compact {
        let ghost given = outputs@;
        let mut dummy: usize = DUMMY_OUT0;
        while outputs.len() < 3
            invariant
                given.len() <= outputs@.len() <= 3,
                dummy == DUMMY_OUT0 + (outputs@.len() - given.len()),
                forall|k: int|
                    0 <= k < outputs@.len() ==> outputs@[k] == if k < given.len() {
                        given[k] as int
                    } else {
                        DUMMY_OUT0 + (k - given.len())
                    },
            decreases 3 - outputs.len(),
        {
            outputs.push(dummy);
            dummy = dummy + 1;
        }
    }
    assert(outputs@ =~= shape.listed_outputs(index));
    CunnyPassSpec { inputs, outputs }
}

/// The shader function of a pass.
pub open spec fn entry_point_of(token: Seq<char>, shape: CunnyShape, index: int) -> Seq<char> {
    let name = "cunny_"@ + token + "_pass_"@ + text::decimal(shape.layer(index));
    if shape.chunks() > 1 && index < shape.pass_count() - 1 {
        name + "_chunk_"@ + text::decimal(shape.chunk(index))
    } else {
        name
    }
}

/// A network: its shader file, its shader functions and its passes.
#[derive(Debug)]
pub struct CunnyVariantSource {
    pub method: WgpuUpscaleMethod,
    pub name: &'static str,
    pub shader: String,
    pub entry_points: Vec<String>,
    pub pass_specs: Vec<CunnyPassSpec>,
}

impl CunnyVariantSource {
    /// Whether this describes the network of an upscaler.
    pub open spec fn describes(self, method: WgpuUpscaleMethod) -> bool {
        let shape = shape_of(method);
        &&& self.method == method
        &&& self.name@ == method.label_spec()
        &&& self.shader@ == "cunny_"@ + token_of(method) + ".wgsl"@
        &&& self.entry_points@.len() == shape.pass_count()
        &&& forall|i: int|
            0 <= i < shape.pass_count() ==> (#[trigger] self.entry_points@[i])@ == entry_point_of(
                token_of(method),
                shape,
                i,
            )
        &&& self.pass_specs@.len() == shape.pass_count()
        &&& forall|i: int|
            0 <= i < shape.pass_count() ==> (#[trigger] self.pass_specs@[i]).is_pass(shape, i)
    }
}

/// The shader function of the pass that belongs to a layer and a chunk.
fn entry_point(token: &str, layer: usize, chunk: Option<usize>) -> (name: String)
    ensures
        name@ == "cunny_"@ + token@ + "_pass_"@ + text::decimal(layer as int) + match chunk {
            Some(chunk) => "_chunk_"@ + text::decimal(chunk as int),
            None => Seq::empty(),
        },
{
    let mut name = "cunny_".to_owned();
    name.append(token);
    name.append("_pass_");
    text::push_decimal(&mut name, layer as u64);
    match chunk {
        Some(chunk) => {
            name.append("_chunk_");
            text::push_decimal(&mut name, chunk as u64);
        },
        None => {},
    }
    assert(name@ =~= "cunny_"@ + token@ + "_pass_"@ + text::decimal(layer as int) + match chunk {
        Some(chunk) => "_chunk_"@ + text::decimal(chunk as int),
        None => Seq::empty(),
    });
    name
}

/// Describes the network of an upscaler.
pub fn cunny_variant(method: WgpuUpscaleMethod) -> (variant: CunnyVariantSource)
    ensures
        variant.describes(method),
{
    let shape = cunny_shape(method);
    let token = cunny_token(method);
    let chunks: usize = (shape.width + 2) / 3;
    let mut entry_points: Vec<String> = Vec::new();
    let mut pass_specs: Vec<CunnyPassSpec> = Vec::new();
    let mut layer: usize = 0;
    assert(0 * shape.chunks() == 0);
    while layer < shape.layers
        invariant
            shape == shape_of(method),
            shape.wf(),
            token@ == token_of(method),
            chunks == shape.chunks(),
            layer <= shape.layers,
            entry_points@.len() == layer * chunks,
            pass_specs@.len() == layer * chunks,
            forall|i: int|
                0 <= i < entry_points@.len() ==> (#[trigger] entry_points@[i])@ == entry_point_of(
                    token_of(method),
                    shape,
                    i,
                ),
            forall|i: int|
                0 <= i < pass_specs@.len() ==> (#[trigger] pass_specs@[i]).is_pass(shape, i),
        decreases shape.layers - layer,
    {
        let mut chunk: usize = 0;
        while chunk < chunks
            invariant
                shape == shape_of(method),
                shape.wf(),
                token@ == token_of(method),
                chunks == shape.chunks(),
                layer < shape.layers,
                chunk <= chunks,
                entry_points@.len() == layer * chunks + chunk,
                pass_specs@.len() == layer * chunks + chunk,
                forall|i: int|
                    0 <= i < entry_points@.len() ==> (#[trigger] entry_points@[i])@
                        == entry_point_of(token_of(method), shape, i),
                forall|i: int|
                    0 <= i < pass_specs@.len() ==> (#[trigger] pass_specs@[i]).is_pass(shape, i),
            decreases chunks - chunk,
        {
            let ghost index = layer * chunks + chunk;
            proof {
                lemma_place(shape, layer as int, chunk as int);
                assert(0 <= index < shape.layers * chunks) by (nonlinear_arith)
                    requires
                        index == layer * chunks + chunk,
                        0 <= chunk < chunks,
                        0 <= layer < shape.layers,
                ;
            }
            let place = if chunks > 1 {
                Some(chunk)
            } else {
                None
            };
            let name = entry_point(token, layer, place);
            assert(name@ =~= entry_point_of(token_of(method), shape, index));
            entry_points.push(name);
            pass_specs.push(pass_spec(shape, layer, chunk, Ghost(index)));
            chunk = chunk + 1;
        }
        layer = layer + 1;
        assert(layer * chunks == (layer - 1) * chunks + chunks) by (nonlinear_arith);
    }
    let ghost last = shape.pass_count() - 1;
    proof {
        lemma_place(shape, shape.layers as int, 0);
    }
    let name = entry_point(token, shape.layers, None);
    assert(name@ =~= entry_point_of(token_of(method), shape, last));
    entry_points.push(name);
    pass_specs.push(pass_spec(shape, shape.layers, 0, Ghost(last)));
    let mut shader = "cunny_".to_owned();
    shader.append(token);
    shader.append(".wgsl");
    CunnyVariantSource { method, name: method.label(), shader, entry_points, pass_specs }
}

/// The networks that a bench compiles: all of them, or the one asked for.
pub open spec fn selected_methods(filter: Option<WgpuUpscaleMethod>) -> Seq<WgpuUpscaleMethod> {
    match filter {
        None => cunny_methods_spec(),
        Some(method) => if method.is_cunny_spec() {
            seq![method]
        } else {
            Seq::empty()
        },
    }
}

/// The networks that a bench compiles: all of them, or the one asked for.
pub fn cunny_variant_sources(filter: Option<WgpuUpscaleMethod>) -> (variants: Vec<
    CunnyVariantSource,
>)
    ensures
        variants@.len() == selected_methods(filter).len(),
        forall|i: int|
            0 <= i < variants@.len() ==> (#[trigger] variants@[i]).describes(
                selected_methods(filter)[i],
            ),
{
    let mut variants: Vec<CunnyVariantSource> = Vec::new();
    match filter {
        None => {
            let methods = cunny_methods();
            let mut i: usize = 0;
            while i < 27
                invariant
                    i <= 27,
                    methods@ == cunny_methods_spec(),
                    variants@.len() == i,
                    forall|k: int|
                        0 <= k < i ==> (#[trigger] variants@[k]).describes(cunny_methods_spec()[k]),
                decreases 27 - i,
            {
                variants.push(cunny_variant(methods[i]));
                i = i + 1;
            }
        },
        Some(method) => {
            if method.is_cunny() {
                variants.push(cunny_variant(method));
            }
        },
    }
    variants
}

/// A texture that a slot is bound to.
#[derive(Debug, Clone, Copy, PartialEq, Eq, Structural)]
pub enum BoundTexture {
    Intermediate(usize),
    DummyRead,
    DummyOutput(usize),
}

/// The texture that a number in a table of passes stands for.
pub open spec fn bound(index: usize) -> BoundTexture {
    if index == DUMMY_READ {
        BoundTexture::DummyRead
    } else if DUMMY_OUT0 <= index < DUMMY_OUT0 + CUNNY_OUTPUT_SLOTS {
        BoundTexture::DummyOutput((index - DUMMY_OUT0) as usize)
    } else {
        BoundTexture::Intermediate(index)
    }
}

/// The texture that a number in a table of passes stands for.
pub fn bound_texture(index: usize) -> (texture: BoundTexture)
    ensures
        texture == bound(index),
{
    if index == DUMMY_READ {
        BoundTexture::DummyRead
    } else if DUMMY_OUT0 <= index && index < DUMMY_OUT0 + CUNNY_OUTPUT_SLOTS {
        BoundTexture::DummyOutput(index - DUMMY_OUT0)
    } else {
        BoundTexture::Intermediate(index)
    }
}

/// The textures bound to the slots that a pass reads from.
pub open spec fn bound_inputs(inputs: Seq<usize>) -> Seq<BoundTexture> {
    Seq::new(
        CUNNY_INPUT_SLOTS as nat,
        |slot: int|
            if slot < inputs.len() {
                bound(inputs[slot])
            } else {
                BoundTexture::DummyRead
            },
    )
}

/// The textures bound to the slots that a pass writes to.
pub open spec fn bound_outputs(outputs: Seq<usize>) -> Seq<BoundTexture> {
    Seq::new(
        CUNNY_OUTPUT_SLOTS as nat,
        |slot: int|
            if slot < outputs.len() {
                bound(outputs[slot])
            } else {
                BoundTexture::DummyOutput(slot as usize)
            },
    )
}

/// No texture is bound to two of the slots that a pass writes to, nor to one of these and to one
/// that it reads from.
pub proof fn bindings_never_alias(shape: CunnyShape, index: int)
    requires
        shape.wf(),
        0 <= index < shape.pass_count(),
    ensures
        bound_outputs(shape.listed_outputs(index)).no_duplicates(),
        forall|i: int, o: int|
            0 <= i < CUNNY_INPUT_SLOTS && 0 <= o < CUNNY_OUTPUT_SLOTS ==> #[trigger] bound_inputs(
                shape.listed_inputs(index),
            )[i] != #[trigger] bound_outputs(shape.listed_outputs(index))[o],
{
    lemma_place_of(shape, index);
    let reads = bound_inputs(shape.listed_inputs(index));
    let writes = bound_outputs(shape.listed_outputs(index));
    assert forall|k: int| 0 <= k < shape.outputs(index).len() implies (#[trigger] shape.outputs(
        index,
    )[k]) < 16 by {
        assert(shape.outputs(index).contains(shape.outputs(index)[k]));
        passes_stay_within_two_banks(shape, index, shape.outputs(index)[k]);
    }
    assert forall|i: int, o: int|
        0 <= i < CUNNY_INPUT_SLOTS && 0 <= o < CUNNY_OUTPUT_SLOTS implies #[trigger] reads[i]
        != #[trigger] writes[o] by {
        if i < shape.inputs(index).len() {
            let texture = shape.inputs(index)[i];
            assert(shape.inputs(index).contains(texture));
            passes_stay_within_two_banks(shape, index, texture);
            passes_read_the_layer_before(shape, index, texture);
            assert(!shape.outputs(index).contains(texture));
            if o < shape.outputs(index).len() {
                assert(shape.outputs(index)[o] != texture);
            }
        }
    }
}

/// Whether every intermediate texture that is read is below `count`.
pub open spec fn covers_read(passes: Seq<CunnyPassSpec>, count: int) -> bool {
    forall|p: int, i: int|
        0 <= p < passes.len() && 0 <= i < passes[p].inputs@.len() && (
        #[trigger] passes[p].inputs@[i]) < DUMMY_READ ==> passes[p].inputs@[i] < count
}

/// Whether every intermediate texture that is written is below `count`.
pub open spec fn covers_written(passes: Seq<CunnyPassSpec>, count: int) -> bool {
    forall|p: int, i: int|
        0 <= p < passes.len() && 0 <= i < passes[p].outputs@.len() && (
        #[trigger] passes[p].outputs@[i]) < DUMMY_READ ==> passes[p].outputs@[i] < count
}

/// Whether a table of passes reads or writes the intermediate texture `texture`.
pub open spec fn uses_texture(passes: Seq<CunnyPassSpec>, texture: int) -> bool {
    exists|p: int|
        0 <= p < passes.len() && ((#[trigger] passes[p]).inputs@.contains(texture as usize)
            || passes[p].outputs@.contains(texture as usize))
}

/// One more than the largest intermediate texture in `list`, and at least `floor`.
fn most(list: &Vec<usize>, floor: usize) -> (count: usize)
    requires
        floor <= DUMMY_READ,
    ensures
        floor <= count <= DUMMY_READ,
        forall|i: int| 0 <= i < list@.len() && #[trigger] list@[i] < DUMMY_READ ==> list@[i] < count,
        count == floor || list@.contains((count - 1) as usize),
{
    let mut count: usize = floor;
    let mut i: usize = 0;
    while i < list.len()
        invariant
            i <= list@.len(),
            floor <= count <= DUMMY_READ,
            forall|k: int| 0 <= k < i && #[trigger] list@[k] < DUMMY_READ ==> list@[k] < count,
            count == floor || list@.contains((count - 1) as usize),
        decreases list.len() - i,
    {
        let index: usize = list[i];
        if index < DUMMY_READ && index >= count {
            count = index + 1;
            assert(list@[i as int] == count - 1);
        }
        i = i + 1;
    }
    count
}

/// The number of intermediate textures that a table of passes needs: one more than the largest
/// number that stands for one.
pub fn intermediate_count(passes: &Vec<CunnyPassSpec>) -> (count: usize)
    ensures
        count <= CUNNY_INTERMEDIATE_CAPACITY,
        covers_read(passes@, count as int),
        covers_written(passes@, count as int),
        count == 0 || uses_texture(passes@, count - 1),
{
    let mut count: usize = 0;
    let mut p: usize = 0;
    while p < passes.len()
        invariant
            p <= passes@.len(),
            count <= DUMMY_READ,
            covers_read(passes@.take(p as int), count as int),
            covers_written(passes@.take(p as int), count as int),
            count == 0 || uses_texture(passes@, count - 1),
        decreases passes.len() - p,
    {
        let ghost before = count;
        let read: usize = most(&passes[p].inputs, count);
        let written: usize = most(&passes[p].outputs, read);
        proof {
            if written != before {
                assert(passes@[p as int].inputs@.contains((written - 1) as usize)
                    || passes@[p as int].outputs@.contains((written - 1) as usize));
            }
            let next = passes@.take(p + 1);
            assert forall|q: int, i: int|
                0 <= q < next.len() && 0 <= i < next[q].inputs@.len() && (
                #[trigger] next[q].inputs@[i]) < DUMMY_READ implies next[q].inputs@[i] < written by {
                if q < p {
                    assert(passes@.take(p as int)[q].inputs@[i] == next[q].inputs@[i]);
                }
            }
            assert forall|q: int, i: int|
                0 <= q < next.len() && 0 <= i < next[q].outputs@.len() && (
                #[trigger] next[q].outputs@[i]) < DUMMY_READ implies next[q].outputs@[i] < written by {
                if q < p {
                    assert(passes@.take(p as int)[q].outputs@[i] == next[q].outputs@[i]);
                }
            }
        }
        count = written;
        p = p + 1;
    }
    assert(passes@.take(passes@.len() as int) =~= passes@);
    count
}

/// The binding of the slot that a pass reads from.
pub fn input_binding(slot: usize) -> (binding: u32)
    requires
        slot < CUNNY_INPUT_SLOTS,
    ensures
        binding == 1 + slot,
{
    1 + slot as u32
}

/// The binding of the slot that a pass writes to.
pub fn output_binding(slot: usize) -> (binding: u32)
    requires
        slot < CUNNY_OUTPUT_SLOTS,
    ensures
        binding == 1 + CUNNY_INPUT_SLOTS + slot,
{
    1 + CUNNY_INPUT_SLOTS as u32 + slot as u32
}

/// The binding of the output.
pub fn final_binding() -> (binding: u32)
    ensures
        binding == 1 + CUNNY_INPUT_SLOTS + CUNNY_OUTPUT_SLOTS,
{
    1 + CUNNY_INPUT_SLOTS as u32 + CUNNY_OUTPUT_SLOTS as u32
}

/// The binding of the sizes.
pub fn params_binding() -> (binding: u32)
    ensures
        binding == 2 + CUNNY_INPUT_SLOTS + CUNNY_OUTPUT_SLOTS,
{
    final_binding() + 1
}

/// The textures bound to the slots that a pass reads from.
pub fn bind_inputs(inputs: &Vec<usize>) -> (textures: Vec<BoundTexture>)
    ensures
        textures@ == bound_inputs(inputs@),
{
    let mut textures: Vec<BoundTexture> = Vec::new();
    let mut slot: usize = 0;
    while slot < CUNNY_INPUT_SLOTS
        invariant
            slot <= CUNNY_INPUT_SLOTS,
            textures@ == bound_inputs(inputs@).take(slot as int),
        decreases CUNNY_INPUT_SLOTS - slot,
    {
        if slot < inputs.len() {
            textures.push(bound_texture(inputs[slot]));
        } else {
            textures.push(BoundTexture::DummyRead);
        }
        slot = slot + 1;
        assert(textures@ =~= bound_inputs(inputs@).take(slot as int));
    }
    assert(bound_inputs(inputs@).take(8) =~= bound_inputs(inputs@));
    textures
}

/// The textures bound to the slots that a pass writes to.
pub fn bind_outputs(outputs: &Vec<usize>) -> (textures: Vec<BoundTexture>)
    ensures
        textures@ == bound_outputs(outputs@),
{
    let mut textures: Vec<BoundTexture> = Vec::new();
    let mut slot: usize = 0;
    while slot < CUNNY_OUTPUT_SLOTS
        invariant
            slot <= CUNNY_OUTPUT_SLOTS,
            textures@ == bound_outputs(outputs@).take(slot as int),
        decreases CUNNY_OUTPUT_SLOTS - slot,
    {
        if slot < outputs.len() {
            textures.push(bound_texture(outputs[slot]));
        } else {
            textures.push(BoundTexture::DummyOutput(slot));
        }
        slot = slot + 1;
        assert(textures@ =~= bound_outputs(outputs@).take(slot as int));
    }
    assert(bound_outputs(outputs@).take(3) =~= bound_outputs(outputs@));
    textures
}

/// The passes of one picture, the work groups of each, and the sizes that the shaders are told.
#[derive(Debug)]
pub struct CunnyPlan {
    pub variant: CunnyVariantSource,
    pub intermediates: usize,
    pub groups: [u32; 2],
    /// Source width and height, then output width and height.
    pub params: [u32; 4],
    pub readback: readback::Readback,
}

/// The message with which a request is refused, where it is. `compiled` is the one network that
/// the bench holds; it holds all where there is none.
pub open spec fn refusal(
    compiled: Option<WgpuUpscaleMethod>,
    method: WgpuUpscaleMethod,
    source: [usize; 2],
    output: [usize; 2],
) -> Option<Seq<char>> {
    if !selected_methods(compiled).contains(method) {
        Some(method.label_spec() + " GPU pipelines unavailable"@)
    } else if !sizes::is_double_or_crop(source, output) {
        Some(sizes::double_or_crop_message(method.label_spec(), source, output))
    } else {
        None
    }
}

/// Plans an enlargement to twice the size, less a pixel on either side, or refuses it.
pub fn cunny_plan(
    compiled: Option<WgpuUpscaleMethod>,
    method: WgpuUpscaleMethod,
    source: [usize; 2],
    output: [usize; 2],
) -> (plan: Result<CunnyPlan, String>)
    requires
        readback::fits_a_readback(source),
        readback::fits_a_readback(output),
    ensures
        match plan {
            Ok(plan) => {
                &&& refusal(compiled, method, source, output) == None::<Seq<char>>
                &&& plan.variant.describes(method)
                &&& covers_read(plan.variant.pass_specs@, plan.intermediates as int)
                &&& covers_written(plan.variant.pass_specs@, plan.intermediates as int)
                &&& plan.intermediates == 0 || uses_texture(
                    plan.variant.pass_specs@,
                    plan.intermediates - 1,
                )
                &&& plan.groups[0] == readback::divided_up(source[0] as int, 8)
                &&& plan.groups[1] == readback::divided_up(source[1] as int, 8)
                &&& plan.params@ == seq![
                    source[0] as u32,
                    source[1] as u32,
                    output[0] as u32,
                    output[1] as u32,
                ]
                &&& plan.readback == readback::readback_of(output)
            },
            Err(error) => refusal(compiled, method, source, output) == Some(error@),
        },
{
    proof {
        every_cunny_method_is_listed_once(method);
        match compiled {
            Some(only) => {
                if only.is_cunny_spec() {
                    assert(selected_methods(compiled)[0] == only);
                }
            },
            None => {},
        }
    }
    let held = match compiled {
        Some(only) => only == method && method.is_cunny(),
        None => method.is_cunny(),
    };
    if !held {
        return Err(readback::joined(method.label(), " GPU pipelines unavailable"));
    }
    match sizes::require_double_or_crop(method.label(), source, output) {
        Err(error) => return Err(error),
        Ok(_) => {},
    }
    let variant = cunny_variant(method);
    let intermediates: usize = intermediate_count(&variant.pass_specs);
    let params: [u32; 4] = [
        source[0] as u32,
        source[1] as u32,
        output[0] as u32,
        output[1] as u32,
    ];
    assert(params@ =~= seq![
        source[0] as u32,
        source[1] as u32,
        output[0] as u32,
        output[1] as u32,
    ]);
    Ok(
        CunnyPlan {
            variant,
            intermediates,
            groups: [
                readback::divide_up(source[0] as u32, CUNNY_GROUP_EDGE),
                readback::divide_up(source[1] as u32, CUNNY_GROUP_EDGE),
            ],
            params,
            readback: readback::readback(output),
        },
    )
}

/// The message with which statistics of the passes are refused, where they are.
pub open spec fn stage_refusal(method: WgpuUpscaleMethod, available: bool) -> Option<Seq<char>> {
    if !method.is_cunny_spec() {
        Some(
            method.label_spec()
                + " is not a CuNNy variant; stage stats only apply to the CuNNy chain"@,
        )
    } else if !available {
        Some("CuNNy GPU pipelines unavailable"@)
    } else {
        None
    }
}

/// Accepts a request for statistics of the passes.
pub fn check_stage_stats(method: WgpuUpscaleMethod, available: bool) -> (checked: Result<
    (),
    String,
>)
    ensures
        sizes::check_of(checked) == stage_refusal(method, available),
{
    if !method.is_cunny() {
        return Err(
            readback::joined(
                method.label(),
                " is not a CuNNy variant; stage stats only apply to the CuNNy chain",
            ),
        );
    }
    if !available {
        return Err("CuNNy GPU pipelines unavailable".to_owned());
    }
    Ok(())
}

/// The first pass of a network writes its textures from the first one on.
pub proof fn the_first_pass_writes_the_first_textures(shape: CunnyShape, i: int)
    requires
        shape.wf(),
        shape.layers >= 1,
        0 <= i < shape.outputs(0).len(),
    ensures
        shape.outputs(0)[i] == i,
        shape.outputs(0).len() <= 3,
        shape.layers > 1 && shape.width >= 3 ==> shape.outputs(0).len() == 3,
{
    let chunks = shape.chunks();
    assert(chunks >= 1);
    assert(0int / chunks == 0 && 0int % chunks == 0) by (nonlinear_arith)
        requires
            chunks >= 1,
    ;
    assert(shape.pass_count() > 1) by (nonlinear_arith)
        requires
            shape.pass_count() == shape.layers * chunks + 1,
            shape.layers >= 1,
            chunks >= 1,
    ;
}

} // verus!
