//! Anime4K v3.2 CNN x2 S: the passes of the network and the sizes that it accepts.
use crate::gpu::readback;
use crate::gpu::sizes;
use vstd::prelude::*;

verus! {

/// The textures that the passes read and draw into.
#[derive(Debug, Clone, Copy, PartialEq, Eq, Structural)]
pub enum Anime4kTexture {
    Source,
    FeatureA,
    FeatureB,
}

/// One convolution: it reads one texture and draws into another.
#[derive(Debug, Clone, Copy, PartialEq, Eq, Structural)]
pub struct ConvPass {
    pub input: Anime4kTexture,
    pub output: Anime4kTexture,
    pub pass_id: u32,
}

/// The convolutions, in order. The first reads the source; then the two feature textures take
/// turns.
pub open spec fn conv_passes_spec() -> Seq<ConvPass> {
    seq![
        ConvPass { input: Anime4kTexture::Source, output: Anime4kTexture::FeatureA, pass_id: 0 },
        ConvPass { input: Anime4kTexture::FeatureA, output: Anime4kTexture::FeatureB, pass_id: 1 },
        ConvPass { input: Anime4kTexture::FeatureB, output: Anime4kTexture::FeatureA, pass_id: 2 },
        ConvPass { input: Anime4kTexture::FeatureA, output: Anime4kTexture::FeatureB, pass_id: 3 },
    ]
}

/// The passes of one picture: the convolutions, and the texture that the last pass draws the
/// output from, together with the source.
#[derive(Debug)]
pub struct Anime4kPlan {
    pub conv_passes: Vec<ConvPass>,
    pub final_feature: Anime4kTexture,
    pub readback: readback::Readback,
}

/// No convolution draws into the texture that it reads, each reads what the one before drew, and
/// the last pass reads what the last convolution drew.
pub proof fn conv_passes_take_turns(i: int)
    requires
        0 <= i < conv_passes_spec().len(),
    ensures
        conv_passes_spec()[i].pass_id == i,
        conv_passes_spec()[i].input != conv_passes_spec()[i].output,
        conv_passes_spec()[i].output != Anime4kTexture::Source,
        conv_passes_spec()[i].input == if i == 0 {
            Anime4kTexture::Source
        } else {
            conv_passes_spec()[i - 1].output
        },
        conv_passes_spec().last().output == Anime4kTexture::FeatureB,
{
}

/// The message for an output that is not twice the source.
pub open spec fn size_message(source: [usize; 2], output: [usize; 2]) -> Seq<char> {
    "Anime4K v3.2 CNN x2 S requires exact 2x output, got "@ + sizes::sizes_text(source, output)
}

/// Plans an enlargement to twice the size; any other size is refused.
pub fn anime4k_plan(source: [usize; 2], output: [usize; 2]) -> (plan: Result<Anime4kPlan, String>)
    requires
        readback::fits_a_readback(output),
    ensures
        match plan {
            Ok(plan) => {
                &&& sizes::is_exact_double(source, output)
                &&& plan.conv_passes@ == conv_passes_spec()
                &&& plan.final_feature == conv_passes_spec().last().output
                &&& plan.readback == readback::readback_of(output)
            },
            Err(error) => !sizes::is_exact_double(source, output) && error@ == size_message(
                source,
                output,
            ),
        },
{
    if !sizes::exact_double(source, output) {
        let mut message = "Anime4K v3.2 CNN x2 S requires exact 2x output, got ".to_owned();
        sizes::push_sizes(&mut message, source, output);
        return Err(message);
    }
    let conv_passes: Vec<ConvPass> = vec![
        ConvPass { input: Anime4kTexture::Source, output: Anime4kTexture::FeatureA, pass_id: 0 },
        ConvPass { input: Anime4kTexture::FeatureA, output: Anime4kTexture::FeatureB, pass_id: 1 },
        ConvPass { input: Anime4kTexture::FeatureB, output: Anime4kTexture::FeatureA, pass_id: 2 },
        ConvPass { input: Anime4kTexture::FeatureA, output: Anime4kTexture::FeatureB, pass_id: 3 },
    ];
    assert(conv_passes@ =~= conv_passes_spec());
    Ok(
        Anime4kPlan {
            conv_passes,
            final_feature: Anime4kTexture::FeatureB,
            readback: readback::readback(output),
        },
    )
}

/// The network has four convolutions, and each runs once.
pub proof fn every_convolution_runs_once(pass_id: u32)
    ensures
        pass_id < 4 <==> exists|i: int|
            0 <= i < conv_passes_spec().len() && (#[trigger] conv_passes_spec()[i]).pass_id == pass_id,
        forall|i: int, k: int|
            0 <= i < k < conv_passes_spec().len() ==> (#[trigger] conv_passes_spec()[i]).pass_id != (
            #[trigger] conv_passes_spec()[k]).pass_id,
{
    assert(conv_passes_spec()[0].pass_id == 0);
    assert(conv_passes_spec()[1].pass_id == 1);
    assert(conv_passes_spec()[2].pass_id == 2);
    assert(conv_passes_spec()[3].pass_id == 3);
}

} // verus!
