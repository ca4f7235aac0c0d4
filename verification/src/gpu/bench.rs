//! The bench of GPU upscalers: what it compiles, and how it routes a request.
use crate::gpu::acnet;
use crate::gpu::artcnn;
use crate::gpu::artcnn::ArtcnnVariant;
use crate::gpu::readback;
use crate::state::WgpuUpscaleMethod;
use vstd::prelude::*;

verus! {

/// A group of upscalers that are compiled together.
#[derive(Debug, Clone, Copy, PartialEq, Eq, Structural)]
pub enum MethodGroup {
    Artcnn(ArtcnnVariant),
    Span,
    Acnet,
    Cunny,
}

impl MethodGroup {
    /// Whether an upscaler belongs to the group.
    pub open spec fn has(self, method: WgpuUpscaleMethod) -> bool {
        match self {
            MethodGroup::Artcnn(variant) => artcnn::variant_of(method) == Some(variant),
            MethodGroup::Span => method == WgpuUpscaleMethod::WgslSrLabSpanX2,
            MethodGroup::Acnet => acnet::is_acnet(method),
            MethodGroup::Cunny => method.is_cunny_spec(),
        }
    }

    /// Whether an upscaler belongs to the group.
    pub fn contains(self, method: WgpuUpscaleMethod) -> (member: bool)
        ensures
            member == self.has(method),
    {
        match self {
            MethodGroup::Artcnn(variant) => match artcnn::variant_for_method(method) {
                Some(found) => found == variant,
                None => false,
            },
            MethodGroup::Span => method == WgpuUpscaleMethod::WgslSrLabSpanX2,
            MethodGroup::Acnet => acnet::is_acnet_method(method),
            MethodGroup::Cunny => method.is_cunny(),
        }
    }
}

/// Which upscalers a bench is to compile: all that are not benchmark-only, or those that are
/// listed.
#[derive(Debug)]
pub enum MethodFilter {
    All,
    Only(Vec<WgpuUpscaleMethod>),
}

/// The first listed upscaler of a group.
pub open spec fn first_in(methods: Seq<WgpuUpscaleMethod>, group: MethodGroup) -> Option<
    WgpuUpscaleMethod,
>
    decreases methods.len(),
{
    if methods.len() == 0 {
        None
    } else {
        match first_in(methods.drop_last(), group) {
            Some(method) => Some(method),
            None => if group.has(methods.last()) {
                Some(methods.last())
            } else {
                None
            },
        }
    }
}

/// The first listed upscaler of a group is one that is listed, belongs to the group, and comes
/// before all others of it; there is none only where no listed one belongs.
pub proof fn first_comes_first(methods: Seq<WgpuUpscaleMethod>, group: MethodGroup)
    ensures
        match first_in(methods, group) {
            Some(method) => group.has(method) && exists|i: int|
                0 <= i < methods.len() && #[trigger] methods[i] == method && forall|k: int|
                    0 <= k < i ==> !group.has(#[trigger] methods[k]),
            None => forall|k: int| 0 <= k < methods.len() ==> !group.has(#[trigger] methods[k]),
        },
    decreases methods.len(),
{
    if methods.len() > 0 {
        let before = methods.drop_last();
        first_comes_first(before, group);
        match first_in(before, group) {
            Some(method) => {
                let i = choose|i: int|
                    0 <= i < before.len() && #[trigger] before[i] == method && forall|k: int|
                        0 <= k < i ==> !group.has(#[trigger] before[k]);
                assert(methods[i] == method);
                assert forall|k: int| 0 <= k < i implies !group.has(#[trigger] methods[k]) by {
                    assert(before[k] == methods[k]);
                }
            },
            None => {
                assert forall|k: int| 0 <= k < methods.len() - 1 implies !group.has(
                    #[trigger] methods[k],
                ) by {
                    assert(before[k] == methods[k]);
                }
            },
        }
    }
}

/// Whether any listed upscaler belongs to a group.
pub open spec fn any_in(methods: Seq<WgpuUpscaleMethod>, group: MethodGroup) -> bool {
    exists|i: int| 0 <= i < methods.len() && group.has(#[trigger] methods[i])
}

/// The first listed upscaler of a group.
fn find_first(methods: &Vec<WgpuUpscaleMethod>, group: MethodGroup) -> (found: Option<
    WgpuUpscaleMethod,
>)
    ensures
        found == first_in(methods@, group),
        found is Some <==> any_in(methods@, group),
{
    let mut i: usize = 0;
    let mut found: Option<WgpuUpscaleMethod> = None;
    while i < methods.len()
        invariant
            i <= methods@.len(),
            found == first_in(methods@.take(i as int), group),
            found is Some <==> exists|k: int| 0 <= k < i && group.has(#[trigger] methods@[k]),
        decreases methods.len() - i,
    {
        let method = methods[i];
        proof {
            assert(methods@.take(i + 1).drop_last() =~= methods@.take(i as int));
        }
        if found.is_none() && group.contains(method) {
            found = Some(method);
        }
        i = i + 1;
    }
    assert(methods@.take(methods@.len() as int) =~= methods@);
    found
}

impl MethodFilter {
    /// Whether an upscaler is to be compiled: always without a list, else where it is listed.
    pub open spec fn wants(self, method: WgpuUpscaleMethod) -> bool {
        match self {
            MethodFilter::All => true,
            MethodFilter::Only(methods) => methods@.contains(method),
        }
    }

    /// Whether a group is to be compiled: always without a list, else where one of it is listed.
    pub open spec fn wants_any(self, group: MethodGroup) -> bool {
        match self {
            MethodFilter::All => true,
            MethodFilter::Only(methods) => any_in(methods@, group),
        }
    }

    /// Whether a benchmark-only group is to be compiled: only where one of it is listed.
    pub open spec fn asks_for(self, group: MethodGroup) -> bool {
        match self {
            MethodFilter::All => false,
            MethodFilter::Only(methods) => any_in(methods@, group),
        }
    }

    /// The first upscaler of a group that is asked for.
    pub open spec fn first_of(self, group: MethodGroup) -> Option<WgpuUpscaleMethod> {
        match self {
            MethodFilter::All => None,
            MethodFilter::Only(methods) => first_in(methods@, group),
        }
    }

    /// Compiled without a list, or where the upscaler is listed.
    pub fn wants_method(&self, method: WgpuUpscaleMethod) -> (wanted: bool)
        ensures
            wanted == self.wants(method),
    {
        match self {
            MethodFilter::All => true,
            MethodFilter::Only(methods) => {
                let mut i: usize = 0;
                while i < methods.len()
                    invariant
                        i <= methods@.len(),
                        self.wants(method) == methods@.contains(method),
                        forall|k: int| 0 <= k < i ==> methods@[k] != method,
                    decreases methods.len() - i,
                {
                    if methods[i] == method {
                        return true;
                    }
                    i = i + 1;
                }
                false
            },
        }
    }

    /// Compiled without a list, or where one of the group is listed.
    pub fn wants_group(&self, group: MethodGroup) -> (wanted: bool)
        ensures
            wanted == self.wants_any(group),
    {
        match self {
            MethodFilter::All => true,
            MethodFilter::Only(methods) => find_first(methods, group).is_some(),
        }
    }

    /// Never compiled without a list; else where one of the group is listed.
    pub fn wants_explicit(&self, group: MethodGroup) -> (wanted: bool)
        ensures
            wanted == self.asks_for(group),
    {
        match self {
            MethodFilter::All => false,
            MethodFilter::Only(methods) => find_first(methods, group).is_some(),
        }
    }

    /// The first listed upscaler of the group; none without a list.
    pub fn first(&self, group: MethodGroup) -> (found: Option<WgpuUpscaleMethod>)
        ensures
            found == self.first_of(group),
    {
        match self {
            MethodFilter::All => None,
            MethodFilter::Only(methods) => find_first(methods, group),
        }
    }
}

/// The filter for one upscaler, or for none in particular.
pub fn filter_for_method(method: Option<WgpuUpscaleMethod>) -> (filter: MethodFilter)
    ensures
        match (method, filter) {
            (Some(method), MethodFilter::Only(methods)) => methods@ == seq![method],
            (None, MethodFilter::All) => true,
            _ => false,
        },
{
    match method {
        Some(method) => {
            let methods: Vec<WgpuUpscaleMethod> = vec![method];
            assert(methods@ =~= seq![method]);
            MethodFilter::Only(methods)
        },
        None => MethodFilter::All,
    }
}

/// What a bench holds, besides the single-pass shader that it always has.
#[derive(Debug)]
pub struct BenchSet {
    pub nvidia_nis: bool,
    pub anime4k: bool,
    pub anime4k_m: bool,
    pub artcnn: Vec<ArtcnnVariant>,
    pub span: bool,
    pub acnet: bool,
    pub cunny: Option<WgpuUpscaleMethod>,
}

/// What a bench holds.
#[verifier::ext_equal]
pub struct BenchSetView {
    pub nvidia_nis: bool,
    pub anime4k: bool,
    pub anime4k_m: bool,
    pub artcnn: Seq<ArtcnnVariant>,
    pub span: bool,
    pub acnet: bool,
    pub cunny: Option<WgpuUpscaleMethod>,
}

impl View for BenchSet {
    type V = BenchSetView;

    open spec fn view(&self) -> BenchSetView {
        BenchSetView {
            nvidia_nis: self.nvidia_nis,
            anime4k: self.anime4k,
            anime4k_m: self.anime4k_m,
            artcnn: self.artcnn@,
            span: self.span,
            acnet: self.acnet,
            cunny: self.cunny,
        }
    }
}

/// What a bench compiles. The benchmark-only groups are left out unless they are asked for, and
/// of the CuNNy networks only the first one asked for is compiled.
pub open spec fn planned(filter: MethodFilter) -> BenchSetView {
    BenchSetView {
        nvidia_nis: filter.wants(WgpuUpscaleMethod::NvidiaNis),
        anime4k: filter.wants(WgpuUpscaleMethod::WgslAnime4kV32CnnX2S),
        anime4k_m: filter.wants(WgpuUpscaleMethod::WgslAnime4kV32CnnX2M),
        artcnn: ArtcnnVariant::all_spec().filter(
            |variant: ArtcnnVariant| filter.asks_for(MethodGroup::Artcnn(variant)),
        ),
        span: filter.asks_for(MethodGroup::Span),
        acnet: filter.wants_any(MethodGroup::Acnet),
        cunny: filter.first_of(MethodGroup::Cunny),
    }
}

/// What a bench compiles.
pub fn planned_benches(filter: &MethodFilter) -> (benches: BenchSet)
    ensures
        benches@ == planned(*filter),
{
    let variants = ArtcnnVariant::all();
    let mut artcnn_variants: Vec<ArtcnnVariant> = Vec::new();
    let ghost wanted = |variant: ArtcnnVariant| filter.asks_for(MethodGroup::Artcnn(variant));
    let mut i: usize = 0;
    proof {
        reveal(Seq::filter);
    }
    while i < 6
        invariant
            i <= 6,
            variants@ == ArtcnnVariant::all_spec(),
            wanted == (|variant: ArtcnnVariant| filter.asks_for(MethodGroup::Artcnn(variant))),
            artcnn_variants@ == variants@.take(i as int).filter(wanted),
        decreases 6 - i,
    {
        let variant = variants[i];
        proof {
            reveal(Seq::filter);
            assert(variants@.take(i + 1).drop_last() =~= variants@.take(i as int));
        }
        if filter.wants_explicit(MethodGroup::Artcnn(variant)) {
            artcnn_variants.push(variant);
        }
        i = i + 1;
    }
    assert(variants@.take(6) =~= variants@);
    let benches = BenchSet {
        nvidia_nis: filter.wants_method(WgpuUpscaleMethod::NvidiaNis),
        anime4k: filter.wants_method(WgpuUpscaleMethod::WgslAnime4kV32CnnX2S),
        anime4k_m: filter.wants_method(WgpuUpscaleMethod::WgslAnime4kV32CnnX2M),
        artcnn: artcnn_variants,
        span: filter.wants_explicit(MethodGroup::Span),
        acnet: filter.wants_group(MethodGroup::Acnet),
        cunny: filter.first(MethodGroup::Cunny),
    };
    assert(benches@ =~= planned(*filter));
    benches
}

/// The part of a bench that serves a request.
#[derive(Debug, Clone, Copy, PartialEq, Eq, Structural)]
pub enum BenchRoute {
    Anime4k,
    Anime4kM,
    Artcnn(ArtcnnVariant),
    Span,
    NvidiaNis,
    Acnet,
    Cunny,
    Shader,
}

/// Whether a picture has no pixels.
pub open spec fn is_empty(size: [usize; 2]) -> bool {
    size[0] == 0 || size[1] == 0
}

/// The part of a bench that serves a request, or why none does.
pub open spec fn routed(
    benches: BenchSetView,
    source: [usize; 2],
    output: [usize; 2],
    method: WgpuUpscaleMethod,
) -> Result<BenchRoute, Seq<char>> {
    if is_empty(source) || is_empty(output) {
        Err("cannot upscale an empty image"@)
    } else if method == WgpuUpscaleMethod::WgslAnime4kV32CnnX2S {
        if benches.anime4k {
            Ok(BenchRoute::Anime4k)
        } else {
            Err("Anime4K v3.2 CNN x2 S GPU pipelines unavailable"@)
        }
    } else if method == WgpuUpscaleMethod::WgslAnime4kV32CnnX2M {
        if benches.anime4k_m {
            Ok(BenchRoute::Anime4kM)
        } else {
            Err("Anime4K v3.2 CNN x2 M GPU pipelines unavailable"@)
        }
    } else if let Some(variant) = artcnn::variant_of(method) {
        if benches.artcnn.contains(variant) {
            Ok(BenchRoute::Artcnn(variant))
        } else {
            Err(variant.label_spec() + " GPU pipelines unavailable"@)
        }
    } else if method == WgpuUpscaleMethod::WgslSrLabSpanX2 {
        if benches.span {
            Ok(BenchRoute::Span)
        } else {
            Err("SR Lab SPAN x2 GPU pipeline unavailable"@)
        }
    } else if method == WgpuUpscaleMethod::NvidiaNis {
        if benches.nvidia_nis {
            Ok(BenchRoute::NvidiaNis)
        } else {
            Err("NVIDIA Image Scaling GPU pipeline unavailable"@)
        }
    } else if acnet::is_acnet(method) {
        if benches.acnet {
            Ok(BenchRoute::Acnet)
        } else {
            Err("ACNet F8B4 luma GPU pipelines unavailable"@)
        }
    } else if method.is_cunny_spec() {
        if benches.cunny is Some {
            Ok(BenchRoute::Cunny)
        } else {
            Err("CuNNy NVL GPU pipelines unavailable"@)
        }
    } else {
        Ok(BenchRoute::Shader)
    }
}

/// Whether a list holds a variant.
fn holds(variants: &Vec<ArtcnnVariant>, variant: ArtcnnVariant) -> (held: bool)
    ensures
        held == variants@.contains(variant),
{
    let mut i: usize = 0;
    while i < variants.len()
        invariant
            i <= variants@.len(),
            forall|k: int| 0 <= k < i ==> variants@[k] != variant,
        decreases variants.len() - i,
    {
        if variants[i] == variant {
            return true;
        }
        i = i + 1;
    }
    false
}

/// The part of a bench that serves a request.
pub fn route(
    benches: &BenchSet,
    source: [usize; 2],
    output: [usize; 2],
    method: WgpuUpscaleMethod,
) -> (served: Result<BenchRoute, String>)
    ensures
        match served {
            Ok(part) => routed(benches@, source, output, method) == Ok::<BenchRoute, Seq<char>>(
                part,
            ),
            Err(error) => routed(benches@, source, output, method) == Err::<BenchRoute, Seq<char>>(
                error@,
            ),
        },
{
    if source[0] == 0 || source[1] == 0 || output[0] == 0 || output[1] == 0 {
        return Err("cannot upscale an empty image".to_owned());
    }
    if method == WgpuUpscaleMethod::WgslAnime4kV32CnnX2S {
        return if benches.anime4k {
            Ok(BenchRoute::Anime4k)
        } else {
            Err("Anime4K v3.2 CNN x2 S GPU pipelines unavailable".to_owned())
        };
    }
    if method == WgpuUpscaleMethod::WgslAnime4kV32CnnX2M {
        return if benches.anime4k_m {
            Ok(BenchRoute::Anime4kM)
        } else {
            Err("Anime4K v3.2 CNN x2 M GPU pipelines unavailable".to_owned())
        };
    }
    if let Some(variant) = artcnn::variant_for_method(method) {
        return if holds(&benches.artcnn, variant) {
            Ok(BenchRoute::Artcnn(variant))
        } else {
            Err(readback::joined(variant.label(), " GPU pipelines unavailable"))
        };
    }
    if method == WgpuUpscaleMethod::WgslSrLabSpanX2 {
        return if benches.span {
            Ok(BenchRoute::Span)
        } else {
            Err("SR Lab SPAN x2 GPU pipeline unavailable".to_owned())
        };
    }
    if method == WgpuUpscaleMethod::NvidiaNis {
        return if benches.nvidia_nis {
            Ok(BenchRoute::NvidiaNis)
        } else {
            Err("NVIDIA Image Scaling GPU pipeline unavailable".to_owned())
        };
    }
    if acnet::is_acnet_method(method) {
        return if benches.acnet {
            Ok(BenchRoute::Acnet)
        } else {
            Err("ACNet F8B4 luma GPU pipelines unavailable".to_owned())
        };
    }
    if method.is_cunny() {
        return if benches.cunny.is_some() {
            Ok(BenchRoute::Cunny)
        } else {
            Err("CuNNy NVL GPU pipelines unavailable".to_owned())
        };
    }
    Ok(BenchRoute::Shader)
}

/// A bench compiled for a list of upscalers serves each of them.
pub proof fn listed_methods_are_served(
    methods: Vec<WgpuUpscaleMethod>,
    method: WgpuUpscaleMethod,
    source: [usize; 2],
    output: [usize; 2],
)
    requires
        methods@.contains(method),
        !is_empty(source),
        !is_empty(output),
    ensures
        routed(planned(MethodFilter::Only(methods)), source, output, method) is Ok,
{
    let filter = MethodFilter::Only(methods);
    let at = choose|i: int| 0 <= i < methods@.len() && methods@[i] == method;
    first_comes_first(methods@, MethodGroup::Cunny);
    if let Some(variant) = artcnn::variant_of(method) {
        let group = MethodGroup::Artcnn(variant);
        assert(group.has(methods@[at]));
        lemma_variant_is_planned(filter, variant);
    }
    assert(MethodGroup::Span.has(method) ==> MethodGroup::Span.has(methods@[at]));
    assert(MethodGroup::Acnet.has(method) ==> MethodGroup::Acnet.has(methods@[at]));
}

proof fn lemma_variant_is_planned(filter: MethodFilter, variant: ArtcnnVariant)
    ensures
        planned(filter).artcnn.contains(variant) <==> filter.asks_for(MethodGroup::Artcnn(variant)),
{
    let all = ArtcnnVariant::all_spec();
    let wanted = |v: ArtcnnVariant| filter.asks_for(MethodGroup::Artcnn(v));
    match variant {
        ArtcnnVariant::C4F16 => assert(all[0] == variant),
        ArtcnnVariant::C4F16Dn => assert(all[1] == variant),
        ArtcnnVariant::C4F16Ds => assert(all[2] == variant),
        ArtcnnVariant::C4F32 => assert(all[3] == variant),
        ArtcnnVariant::C4F32Dn => assert(all[4] == variant),
        ArtcnnVariant::C4F32Ds => assert(all[5] == variant),
    }
    broadcast use vstd::seq_lib::group_filter_ensures;

    assert(planned(filter).artcnn =~= all.filter(wanted));
}

/// A bench compiled without a list serves every upscaler but the benchmark-only ones.
pub proof fn benchmark_methods_need_to_be_listed(
    method: WgpuUpscaleMethod,
    source: [usize; 2],
    output: [usize; 2],
)
    requires
        !is_empty(source),
        !is_empty(output),
    ensures
        routed(planned(MethodFilter::All), source, output, method) is Ok <==> !(
        artcnn::variant_of(method) is Some || method == WgpuUpscaleMethod::WgslSrLabSpanX2
            || method.is_cunny_spec()),
{
    if let Some(variant) = artcnn::variant_of(method) {
        lemma_variant_is_planned(MethodFilter::All, variant);
    }
}

/// A texture that the single-pass shader reads or draws into.
#[derive(Debug, Clone, Copy, PartialEq, Eq, Structural)]
pub enum RenderTexture {
    Source,
    Intermediate,
    Output,
}

/// One run of the single-pass shader, with the numbers that it is given.
#[derive(Debug, Clone, Copy)]
pub struct RenderStep {
    pub reads: RenderTexture,
    pub draws: RenderTexture,
    /// The size of what is read, then that of what is drawn.
    pub source_output: [u32; 4],
    pub method: [u32; 4],
}

/// What a run of the single-pass shader is made of.
#[verifier::ext_equal]
pub struct RenderStepView {
    pub reads: RenderTexture,
    pub draws: RenderTexture,
    pub source_output: Seq<u32>,
    pub method: Seq<u32>,
}

impl View for RenderStep {
    type V = RenderStepView;

    open spec fn view(&self) -> RenderStepView {
        RenderStepView {
            reads: self.reads,
            draws: self.draws,
            source_output: self.source_output@,
            method: self.method@,
        }
    }
}

/// A run of the single-pass shader.
pub open spec fn step_of(
    reads: RenderTexture,
    draws: RenderTexture,
    source: [usize; 2],
    output: [usize; 2],
    id: u32,
) -> RenderStepView {
    RenderStepView {
        reads,
        draws,
        source_output: seq![
            source[0] as u32,
            source[1] as u32,
            output[0] as u32,
            output[1] as u32,
        ],
        method: seq![id, 0, 0, 0],
    }
}

/// The number by which the single-pass shader knows an upscaler.
pub open spec fn shader_id(method: WgpuUpscaleMethod) -> u32 {
    match method {
        WgpuUpscaleMethod::WgslFsrStyle => 1,
        WgpuUpscaleMethod::WgslFsr1Easu => 2,
        WgpuUpscaleMethod::WgslFsr1EasuRcas => 2,
        _ => 0,
    }
}

/// The runs of the single-pass shader for an upscaler: one from the source to the output, or, with
/// sharpening, one to an intermediate picture of the output's size and one from there.
pub open spec fn render_steps_of(
    method: WgpuUpscaleMethod,
    source: [usize; 2],
    output: [usize; 2],
) -> Seq<RenderStepView> {
    if method == WgpuUpscaleMethod::WgslFsr1EasuRcas {
        seq![
            step_of(
                RenderTexture::Source,
                RenderTexture::Intermediate,
                source,
                output,
                shader_id(method),
            ),
            step_of(RenderTexture::Intermediate, RenderTexture::Output, output, output, 3),
        ]
    } else {
        seq![
            step_of(
                RenderTexture::Source,
                RenderTexture::Output,
                source,
                output,
                shader_id(method),
            ),
        ]
    }
}

/// A run of the single-pass shader.
fn render_step(
    reads: RenderTexture,
    draws: RenderTexture,
    source: [usize; 2],
    output: [usize; 2],
    id: u32,
) -> (step: RenderStep)
    requires
        readback::fits_a_readback(source),
        readback::fits_a_readback(output),
    ensures
        step@ == step_of(reads, draws, source, output, id),
{
    let step = RenderStep {
        reads,
        draws,
        source_output: [source[0] as u32, source[1] as u32, output[0] as u32, output[1] as u32],
        method: [id, 0, 0, 0],
    };
    assert(step@ =~= step_of(reads, draws, source, output, id));
    step
}

/// The runs of the single-pass shader for an upscaler.
pub fn render_steps(method: WgpuUpscaleMethod, source: [usize; 2], output: [usize; 2]) -> (steps:
    Vec<RenderStep>)
    requires
        readback::fits_a_readback(source),
        readback::fits_a_readback(output),
    ensures
        steps@.len() == render_steps_of(method, source, output).len(),
        forall|i: int|
            0 <= i < steps@.len() ==> (#[trigger] steps@[i])@ == render_steps_of(
                method,
                source,
                output,
            )[i],
{
    let mut steps: Vec<RenderStep> = Vec::new();
    match method.rcas_shader_method_id() {
        Some(sharpening) => {
            steps.push(
                render_step(
                    RenderTexture::Source,
                    RenderTexture::Intermediate,
                    source,
                    output,
                    method.shader_method_id(),
                ),
            );
            steps.push(
                render_step(
                    RenderTexture::Intermediate,
                    RenderTexture::Output,
                    output,
                    output,
                    sharpening,
                ),
            );
        },
        None => {
            steps.push(
                render_step(
                    RenderTexture::Source,
                    RenderTexture::Output,
                    source,
                    output,
                    method.shader_method_id(),
                ),
            );
        },
    }
    steps
}

/// A request is served by the part of the bench that its upscaler belongs to, and by no other; one
/// that belongs to none is drawn by the single-pass shader. A picture without pixels is refused.
pub proof fn requests_go_to_the_part_of_their_upscaler(
    benches: BenchSetView,
    source: [usize; 2],
    output: [usize; 2],
    method: WgpuUpscaleMethod,
    part: BenchRoute,
)
    ensures
        routed(benches, source, output, method) == Ok::<BenchRoute, Seq<char>>(part) ==> {
            &&& source[0] > 0 && source[1] > 0 && output[0] > 0 && output[1] > 0
            &&& part == BenchRoute::Anime4k <==> method == WgpuUpscaleMethod::WgslAnime4kV32CnnX2S
            &&& part == BenchRoute::Anime4kM <==> method == WgpuUpscaleMethod::WgslAnime4kV32CnnX2M
            &&& part == BenchRoute::NvidiaNis <==> method == WgpuUpscaleMethod::NvidiaNis
            &&& part == BenchRoute::Span <==> MethodGroup::Span.has(method)
            &&& part == BenchRoute::Acnet <==> MethodGroup::Acnet.has(method)
            &&& part == BenchRoute::Cunny <==> MethodGroup::Cunny.has(method)
            &&& part matches BenchRoute::Artcnn(variant) ==> MethodGroup::Artcnn(variant).has(
                method,
            ) && variant.label_spec() == method.label_spec()
            &&& part == BenchRoute::Shader <==> method == WgpuUpscaleMethod::WgslFsrStyle || method
                == WgpuUpscaleMethod::WgslFsr1Easu || method == WgpuUpscaleMethod::WgslFsr1EasuRcas
        },
        routed(benches, source, output, method) is Ok ==> {
            &&& method == WgpuUpscaleMethod::WgslAnime4kV32CnnX2S ==> benches.anime4k
            &&& method == WgpuUpscaleMethod::WgslAnime4kV32CnnX2M ==> benches.anime4k_m
            &&& method == WgpuUpscaleMethod::NvidiaNis ==> benches.nvidia_nis
            &&& MethodGroup::Span.has(method) ==> benches.span
            &&& MethodGroup::Acnet.has(method) ==> benches.acnet
            &&& MethodGroup::Cunny.has(method) ==> benches.cunny is Some
        },
{
    artcnn::networks_are_those_of_the_name(method, method);
}

/// The runs of the single-pass shader lead from the source to the output: the first reads the source
/// at its size, each further one what the one before drew at the size it was drawn, and the last draws
/// the output at its size. Only the sharpening upscaler takes a second run.
pub proof fn runs_lead_from_the_source_to_the_output(
    method: WgpuUpscaleMethod,
    source: [usize; 2],
    output: [usize; 2],
    i: int,
)
    requires
        source[0] <= u32::MAX && source[1] <= u32::MAX,
        output[0] <= u32::MAX && output[1] <= u32::MAX,
    ensures
        ({
            let steps = render_steps_of(method, source, output);
            let (first, last) = (steps[0], steps[steps.len() - 1]);
            &&& steps.len() == 2 <==> method == WgpuUpscaleMethod::WgslFsr1EasuRcas
            &&& 1 <= steps.len() <= 2
            &&& first.reads == RenderTexture::Source
            &&& first.source_output[0] == source[0] && first.source_output[1] == source[1]
            &&& last.draws == RenderTexture::Output
            &&& last.source_output[2] == output[0] && last.source_output[3] == output[1]
            &&& 0 < i < steps.len() ==> {
                &&& steps[i].reads == steps[i - 1].draws
                &&& steps[i].source_output[0] == steps[i - 1].source_output[2]
                &&& steps[i].source_output[1] == steps[i - 1].source_output[3]
            }
            &&& 0 <= i < steps.len() ==> steps[i].source_output.len() == 4 && steps[i].method.len()
                == 4 && steps[i].reads != steps[i].draws
            &&& steps.len() == 2 ==> first.method[0] != last.method[0]
        }),
{
}

/// A bench compiled for a list of upscalers holds those that are listed and no others.
pub proof fn unlisted_methods_are_not_compiled(methods: Vec<WgpuUpscaleMethod>, variant: ArtcnnVariant)
    ensures
        ({
            let benches = planned(MethodFilter::Only(methods));
            let listed = methods@;
            &&& benches.nvidia_nis <==> listed.contains(WgpuUpscaleMethod::NvidiaNis)
            &&& benches.anime4k <==> listed.contains(WgpuUpscaleMethod::WgslAnime4kV32CnnX2S)
            &&& benches.anime4k_m <==> listed.contains(WgpuUpscaleMethod::WgslAnime4kV32CnnX2M)
            &&& benches.span <==> listed.contains(WgpuUpscaleMethod::WgslSrLabSpanX2)
            &&& benches.acnet <==> exists|i: int|
                0 <= i < listed.len() && acnet::is_acnet(#[trigger] listed[i])
            &&& benches.cunny matches Some(method) ==> listed.contains(method)
                && method.is_cunny_spec()
            &&& benches.artcnn.contains(variant) <==> exists|i: int|
                0 <= i < listed.len() && artcnn::variant_of(#[trigger] listed[i]) == Some(variant)
        }),
{
    let filter = MethodFilter::Only(methods);
    lemma_variant_is_planned(filter, variant);
    first_comes_first(methods@, MethodGroup::Cunny);
    let listed = methods@;
    if listed.contains(WgpuUpscaleMethod::WgslSrLabSpanX2) {
        let i = choose|i: int|
            0 <= i < listed.len() && listed[i] == WgpuUpscaleMethod::WgslSrLabSpanX2;
        assert(MethodGroup::Span.has(listed[i]));
    }
    if any_in(listed, MethodGroup::Acnet) {
        let i = choose|i: int| 0 <= i < listed.len() && MethodGroup::Acnet.has(#[trigger] listed[i]);
        assert(acnet::is_acnet(listed[i]));
    }
    if exists|i: int| 0 <= i < listed.len() && acnet::is_acnet(#[trigger] listed[i]) {
        let i = choose|i: int| 0 <= i < listed.len() && acnet::is_acnet(#[trigger] listed[i]);
        assert(MethodGroup::Acnet.has(listed[i]));
    }
    let group = MethodGroup::Artcnn(variant);
    if any_in(listed, group) {
        let i = choose|i: int| 0 <= i < listed.len() && group.has(#[trigger] listed[i]);
        assert(artcnn::variant_of(listed[i]) == Some(variant));
    }
    if exists|i: int|
        0 <= i < listed.len() && artcnn::variant_of(#[trigger] listed[i]) == Some(variant) {
        let i = choose|i: int|
            0 <= i < listed.len() && artcnn::variant_of(#[trigger] listed[i]) == Some(variant);
        assert(group.has(listed[i]));
    }
}

} // verus!
