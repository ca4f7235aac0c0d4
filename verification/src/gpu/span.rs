//! The SPAN networks of the SR lab: which manifests the bench takes, the sizes that a run accepts,
//! and the fitting of its output.
use crate::gpu::sizes;
use crate::text;
use crate::worker::pixels::PixelLayout;
use crate::worker::resize;
use crate::worker::resize::ImageFilter;
use vstd::prelude::*;

verus! {

/// The network families of the SR lab, as far as the bench tells them apart.
#[derive(Debug, Clone, Copy, PartialEq, Eq, Structural)]
pub enum SrLabFamily {
    Span,
    SpanS,
    Other,
}

/// What the bench reads of a network's manifest.
#[derive(Debug, Clone, Copy, PartialEq, Eq, Structural)]
pub struct SpanManifest {
    pub family: SrLabFamily,
    pub scale: u32,
    pub input_channels: u32,
    pub output_channels: u32,
}

/// The message with which a manifest is refused, where it is.
pub open spec fn manifest_refusal(manifest: SpanManifest) -> Option<Seq<char>> {
    if manifest.family == SrLabFamily::Other {
        Some("SPAN quality bench requires a SPAN-family manifest"@)
    } else if manifest.scale != 2 || manifest.input_channels != 3 || manifest.output_channels != 3 {
        Some("SPAN quality bench requires a 3-channel x2 RGB manifest"@)
    } else {
        None
    }
}

/// Accepts the manifests of SPAN networks that double RGB pictures.
pub fn validate_span_bench_manifest(manifest: SpanManifest) -> (checked: Result<(), String>)
    ensures
        sizes::check_of(checked) == manifest_refusal(manifest),
{
    match manifest.family {
        SrLabFamily::Span => {},
        SrLabFamily::SpanS => {},
        SrLabFamily::Other => {
            return Err("SPAN quality bench requires a SPAN-family manifest".to_owned());
        },
    }
    if manifest.scale != 2 || manifest.input_channels != 3 || manifest.output_channels != 3 {
        return Err("SPAN quality bench requires a 3-channel x2 RGB manifest".to_owned());
    }
    Ok(())
}

/// A path in the environment: not set, set to nothing, or given.
#[derive(Debug, Clone, Copy, PartialEq, Eq, Structural)]
pub enum NamedPath {
    Absent,
    Empty,
    Given,
}

/// Where the bench takes its manifest from: one of the two variables of the environment, or one
/// of the two places where a manifest lies by default.
#[derive(Debug, Clone, Copy, PartialEq, Eq, Structural)]
pub enum ManifestPlace {
    ExperimentVariable,
    SrLabVariable,
    FirstDefault,
    SecondDefault,
}

/// Where the bench takes its manifest from. The first variable that is set decides; where it is
/// set to nothing, or neither is set, the first default place that exists.
pub open spec fn manifest_place_of(
    experiment: NamedPath,
    sr_lab: NamedPath,
    first_exists: bool,
    second_exists: bool,
) -> Option<ManifestPlace> {
    if experiment == NamedPath::Given {
        Some(ManifestPlace::ExperimentVariable)
    } else if experiment == NamedPath::Absent && sr_lab == NamedPath::Given {
        Some(ManifestPlace::SrLabVariable)
    } else if first_exists {
        Some(ManifestPlace::FirstDefault)
    } else if second_exists {
        Some(ManifestPlace::SecondDefault)
    } else {
        None
    }
}

/// Where the bench takes its manifest from.
pub fn span_manifest_place(
    experiment: NamedPath,
    sr_lab: NamedPath,
    first_exists: bool,
    second_exists: bool,
) -> (place: Option<ManifestPlace>)
    ensures
        place == manifest_place_of(experiment, sr_lab, first_exists, second_exists),
{
    match experiment {
        NamedPath::Given => return Some(ManifestPlace::ExperimentVariable),
        NamedPath::Absent => {
            if sr_lab == NamedPath::Given {
                return Some(ManifestPlace::SrLabVariable);
            }
        },
        NamedPath::Empty => {},
    }
    if first_exists {
        Some(ManifestPlace::FirstDefault)
    } else if second_exists {
        Some(ManifestPlace::SecondDefault)
    } else {
        None
    }
}

/// Whether a size differs from another by at most one pixel on either side.
pub open spec fn is_near(output: [usize; 2], exact: Seq<int>) -> bool {
    -1 <= output[0] - exact[0] <= 1 && -1 <= output[1] - exact[1] <= 1
}

/// The size that the network makes of a picture, or why the request is refused.
pub open spec fn exact_output_outcome(
    scale: int,
    source: [usize; 2],
    output: [usize; 2],
) -> Result<Seq<int>, Seq<char>> {
    let exact = seq![source[0] * scale, source[1] * scale];
    if exact[0] > usize::MAX {
        Err("SR Lab SPAN x2 output width overflowed"@)
    } else if exact[1] > usize::MAX {
        Err("SR Lab SPAN x2 output height overflowed"@)
    } else if !is_near(output, exact) {
        Err(
            "SR Lab SPAN x2 requires near-"@ + text::decimal(scale) + "x output, got "@
                + sizes::sizes_text(source, output),
        )
    } else {
        Ok(exact)
    }
}

/// Whether two lengths differ by at most one.
fn near(left: usize, right: usize) -> (close: bool)
    ensures
        close == (-1 <= left - right <= 1),
{
    if left > right {
        left - right <= 1
    } else {
        right - left <= 1
    }
}

/// The size that the network makes of a picture. The output asked for may differ from it by one
/// pixel on either side.
pub fn span_exact_output(scale: usize, source: [usize; 2], output: [usize; 2]) -> (exact: Result<
    [usize; 2],
    String,
>)
    ensures
        match exact {
            Ok(exact) => exact_output_outcome(scale as int, source, output) == Ok::<
                Seq<int>,
                Seq<char>,
            >(seq![exact[0] as int, exact[1] as int]),
            Err(error) => exact_output_outcome(scale as int, source, output) == Err::<
                Seq<int>,
                Seq<char>,
            >(error@),
        },
{
    let width: usize = match source[0].checked_mul(scale) {
        Some(width) => width,
        None => return Err("SR Lab SPAN x2 output width overflowed".to_owned()),
    };
    let height: usize = match source[1].checked_mul(scale) {
        Some(height) => height,
        None => return Err("SR Lab SPAN x2 output height overflowed".to_owned()),
    };
    if !near(output[0], width) || !near(output[1], height) {
        let mut message = "SR Lab SPAN x2 requires near-".to_owned();
        text::push_decimal(&mut message, scale as u64);
        message.append("x output, got ");
        sizes::push_sizes(&mut message, source, output);
        return Err(message);
    }
    let exact: [usize; 2] = [width, height];
    assert(seq![exact[0] as int, exact[1] as int] =~= seq![source[0] * scale, source[1] * scale]);
    Ok(exact)
}

/// The message with which the outcome of a run is refused, where it is.
pub open spec fn run_refusal(exact: [usize; 2], got: [usize; 2], channels: usize) -> Option<
    Seq<char>,
> {
    if got[0] != exact[0] || got[1] != exact[1] {
        Some(
            "SR Lab SPAN x2 output size mismatch: expected "@ + text::decimal(exact[0] as int)
                + "x"@ + text::decimal(exact[1] as int) + ", got "@ + text::decimal(got[0] as int)
                + "x"@ + text::decimal(got[1] as int),
        )
    } else if channels != 3 {
        Some(
            "SR Lab SPAN x2 expected 3 output channels, got "@ + text::decimal(channels as int),
        )
    } else {
        None
    }
}

/// The network multiplies both sides of a picture by its scale, and a request is granted where the
/// output asked for is that size up to one pixel on either side.
pub proof fn sides_are_multiplied_by_the_scale(scale: int, source: [usize; 2], output: [usize; 2])
    requires
        0 <= scale,
        source[0] * scale <= usize::MAX,
        source[1] * scale <= usize::MAX,
    ensures
        exact_output_outcome(scale, source, output) is Ok <==> {
            &&& source[0] * scale - 1 <= output[0] <= source[0] * scale + 1
            &&& source[1] * scale - 1 <= output[1] <= source[1] * scale + 1
        },
        exact_output_outcome(scale, source, output) matches Ok(exact) ==> exact.len() == 2
            && exact[0] == source[0] * scale && exact[1] == source[1] * scale,
{
}

/// Accepts the outcome of a run that has the size expected and three channels.
pub fn check_span_run(exact: [usize; 2], got: [usize; 2], channels: usize) -> (checked: Result<
    (),
    String,
>)
    ensures
        sizes::check_of(checked) == run_refusal(exact, got, channels),
{
    if got[0] != exact[0] || got[1] != exact[1] {
        let mut message = "SR Lab SPAN x2 output size mismatch: expected ".to_owned();
        text::push_decimal(&mut message, exact[0] as u64);
        message.append("x");
        text::push_decimal(&mut message, exact[1] as u64);
        message.append(", got ");
        text::push_decimal(&mut message, got[0] as u64);
        message.append("x");
        text::push_decimal(&mut message, got[1] as u64);
        return Err(message);
    }
    if channels != 3 {
        let mut message = "SR Lab SPAN x2 expected 3 output channels, got ".to_owned();
        text::push_decimal(&mut message, channels as u64);
        return Err(message);
    }
    Ok(())
}

/// Whether bringing the pixels of a run to the size asked for may end like this: with the pixels
/// where they have it, and else with resized ones, or with a message where they do not make up
/// the size that the run had.
pub open spec fn may_fit(
    rgba: Seq<u8>,
    exact: [usize; 2],
    output: [usize; 2],
    fitted: Result<Seq<u8>, Seq<char>>,
) -> bool {
    if exact[0] == output[0] && exact[1] == output[1] {
        fitted == Ok::<Seq<u8>, Seq<char>>(rgba)
    } else {
        match fitted {
            Ok(pixels) => resize::is_broad(
                PixelLayout::Rgba,
                rgba,
                (exact[0] as u32, exact[1] as u32),
                (output[0] as u32, output[1] as u32),
                ImageFilter::Lanczos3,
                pixels,
            ),
            Err(message) => rgba.len() < exact[0] * exact[1] * 4 && message
                == "failed to build SR Lab SPAN x2 resize input image"@,
        }
    }
}

/// Brings the pixels of a run to the size asked for.
pub fn fit_span_output(rgba: Vec<u8>, exact: [usize; 2], output: [usize; 2]) -> (fitted: Result<
    Vec<u8>,
    String,
>)
    requires
        exact[0] <= u32::MAX && exact[1] <= u32::MAX,
        output[0] <= u32::MAX && output[1] <= u32::MAX,
        resize::rows_countable(
            (exact[0] as u32, exact[1] as u32),
            (output[0] as u32, output[1] as u32),
        ),
    ensures
        may_fit(
            rgba@,
            exact,
            output,
            match fitted {
                Ok(pixels) => Ok(pixels@),
                Err(error) => Err(error@),
            },
        ),
        rgba@.len() == exact[0] * exact[1] * 4 ==> fitted is Ok && fitted->Ok_0@.len() == output[0]
            * output[1] * 4,
{
    if exact[0] == output[0] && exact[1] == output[1] {
        return Ok(rgba);
    }
    match resize::resize_samples(
        PixelLayout::Rgba,
        rgba,
        (exact[0] as u32, exact[1] as u32),
        (output[0] as u32, output[1] as u32),
        ImageFilter::Lanczos3,
    ) {
        Some(resized) => Ok(resized),
        None => Err("failed to build SR Lab SPAN x2 resize input image".to_owned()),
    }
}

/// The manifest is looked for where a variable says, and only there if the variable names a place. A
/// default place is taken only where it exists, and the second one only where the first does not. The
/// second variable counts only where the first is not set at all.
pub proof fn manifests_are_taken_from_where_they_are(
    experiment: NamedPath,
    sr_lab: NamedPath,
    first_exists: bool,
    second_exists: bool,
)
    ensures
        ({
            let place = manifest_place_of(experiment, sr_lab, first_exists, second_exists);
            &&& place == Some(ManifestPlace::ExperimentVariable) <==> experiment == NamedPath::Given
            &&& place == Some(ManifestPlace::SrLabVariable) <==> experiment == NamedPath::Absent && sr_lab
                == NamedPath::Given
            &&& place == Some(ManifestPlace::FirstDefault) ==> first_exists
            &&& place == Some(ManifestPlace::SecondDefault) ==> second_exists && !first_exists
            &&& place is None ==> !first_exists && !second_exists && experiment != NamedPath::Given
        }),
{
}

/// The outcome of a run is accepted exactly where it has the size expected and three channels.
pub proof fn runs_have_the_size_expected(exact: [usize; 2], got: [usize; 2], channels: usize)
    ensures
        run_refusal(exact, got, channels) is None <==> got[0] == exact[0] && got[1] == exact[1] && channels
            == 3,
{
}

/// Pixels that have the size asked for are kept. Others are brought to it by the broad resizer, in red,
/// green, blue and alpha, with the filter for the setting of Lanczos3, and are refused only where there
/// are too few of them.
pub proof fn runs_are_brought_to_the_size_asked_for(
    rgba: Seq<u8>,
    exact: [usize; 2],
    output: [usize; 2],
    fitted: Result<Seq<u8>, Seq<char>>,
)
    requires
        may_fit(rgba, exact, output, fitted),
        exact[0] <= u32::MAX && exact[1] <= u32::MAX,
        output[0] <= u32::MAX && output[1] <= u32::MAX,
        rgba.len() == exact[0] * exact[1] * 4,
    ensures
        fitted is Ok,
        fitted->Ok_0.len() == output[0] * output[1] * 4,
        exact[0] == output[0] && exact[1] == output[1] ==> fitted->Ok_0 == rgba,
        exact[0] != output[0] || exact[1] != output[1] ==> resize::is_broad(
            PixelLayout::Rgba,
            rgba,
            (exact[0] as u32, exact[1] as u32),
            (output[0] as u32, output[1] as u32),
            resize::image_filter_of(crate::state::CpuScaleFilter::Lanczos3),
            fitted->Ok_0,
        ),
{
}

} // verus!
