//! The steps of a quality scan: which upscalers run on a page, and what becomes of their outcomes.
use crate::state::{ResizeFilter, WgpuUpscaleMethod};
use crate::text;
use crate::upscale_quality::report::{
    PageUpscaleQuality, QualityMetrics, UpscaleQualityRun, UpscaleQualitySummary,
    UpscaleQualityVisual,
};
use crate::upscale_quality::{report, visuals};
use vstd::prelude::*;

verus! {

/// An upscaler that runs on a page: a resizer on the CPU, or one on the GPU.
#[derive(Debug, Clone, Copy, PartialEq, Eq, Structural)]
pub enum ScanCase {
    Cpu(ResizeFilter),
    Gpu(WgpuUpscaleMethod),
}

impl ScanCase {
    /// The upscaler's name in the report.
    pub open spec fn label_spec(self) -> Seq<char> {
        match self {
            ScanCase::Cpu(ResizeFilter::Bicubic) => "Bicubic"@,
            ScanCase::Cpu(ResizeFilter::Lanczos3) => "Lanczos3"@,
            ScanCase::Cpu(ResizeFilter::FastTriangle) => "Fast/Triangle"@,
            ScanCase::Cpu(ResizeFilter::Nearest) => "Nearest"@,
            ScanCase::Gpu(method) => method.label_spec(),
        }
    }

    /// The upscaler's name in the report.
    pub fn label(self) -> (label: &'static str)
        ensures
            label@ == self.label_spec(),
    {
        match self {
            ScanCase::Cpu(ResizeFilter::Bicubic) => "Bicubic",
            ScanCase::Cpu(ResizeFilter::Lanczos3) => "Lanczos3",
            ScanCase::Cpu(ResizeFilter::FastTriangle) => "Fast/Triangle",
            ScanCase::Cpu(ResizeFilter::Nearest) => "Nearest",
            ScanCase::Gpu(method) => method.label(),
        }
    }

    /// The upscaler's name among the pictures that are written.
    pub open spec fn visual_name_spec(self) -> Seq<char> {
        match self {
            ScanCase::Cpu(ResizeFilter::Bicubic) => "cpu-bicubic"@,
            ScanCase::Cpu(ResizeFilter::Lanczos3) => "cpu-lanczos3"@,
            ScanCase::Cpu(ResizeFilter::FastTriangle) => "cpu-fast-triangle"@,
            ScanCase::Cpu(ResizeFilter::Nearest) => "cpu-nearest"@,
            ScanCase::Gpu(method) => visuals::slug(method.label_spec()),
        }
    }

    /// The upscaler's name among the pictures that are written.
    pub fn visual_name(self) -> (name: String)
        ensures
            name@ == self.visual_name_spec(),
    {
        match self {
            ScanCase::Cpu(ResizeFilter::Bicubic) => "cpu-bicubic".to_owned(),
            ScanCase::Cpu(ResizeFilter::Lanczos3) => "cpu-lanczos3".to_owned(),
            ScanCase::Cpu(ResizeFilter::FastTriangle) => "cpu-fast-triangle".to_owned(),
            ScanCase::Cpu(ResizeFilter::Nearest) => "cpu-nearest".to_owned(),
            ScanCase::Gpu(method) => visuals::sanitize_name(method.label()),
        }
    }
}

/// The name of the reference among the pictures that are written.
pub fn reference_name() -> (name: String)
    ensures
        name@ == "reference-lanczos3"@,
{
    "reference-lanczos3".to_owned()
}

/// The GPU upscalers that a scan runs: the one asked for, or those that are not benchmark-only.
pub open spec fn gpu_methods_of(filter: Option<WgpuUpscaleMethod>) -> Seq<WgpuUpscaleMethod> {
    match filter {
        Some(method) => seq![method],
        None => seq![
            WgpuUpscaleMethod::WgslFsrStyle,
            WgpuUpscaleMethod::WgslFsr1Easu,
            WgpuUpscaleMethod::WgslFsr1EasuRcas,
            WgpuUpscaleMethod::WgslAnime4kV32CnnX2S,
            WgpuUpscaleMethod::WgslAnime4kV32CnnX2M,
            WgpuUpscaleMethod::NvidiaNis,
            WgpuUpscaleMethod::WgslAcnetF8B4Luma,
            WgpuUpscaleMethod::WgslAcnetF8B4BoxLuma,
            WgpuUpscaleMethod::WgslAcnetF8B4HdnLuma,
            WgpuUpscaleMethod::WgslAcnetF8B4BoxHdnLuma,
        ],
    }
}

/// The GPU upscalers that a scan runs: the one asked for, or those that are not benchmark-only.
pub fn gpu_methods_for_filter(filter: Option<WgpuUpscaleMethod>) -> (methods: Vec<
    WgpuUpscaleMethod,
>)
    ensures
        methods@ == gpu_methods_of(filter),
{
    let methods: Vec<WgpuUpscaleMethod> = match filter {
        Some(method) => vec![method],
        None => vec![
            WgpuUpscaleMethod::WgslFsrStyle,
            WgpuUpscaleMethod::WgslFsr1Easu,
            WgpuUpscaleMethod::WgslFsr1EasuRcas,
            WgpuUpscaleMethod::WgslAnime4kV32CnnX2S,
            WgpuUpscaleMethod::WgslAnime4kV32CnnX2M,
            WgpuUpscaleMethod::NvidiaNis,
            WgpuUpscaleMethod::WgslAcnetF8B4Luma,
            WgpuUpscaleMethod::WgslAcnetF8B4BoxLuma,
            WgpuUpscaleMethod::WgslAcnetF8B4HdnLuma,
            WgpuUpscaleMethod::WgslAcnetF8B4BoxHdnLuma,
        ],
    };
    assert(methods@ =~= gpu_methods_of(filter));
    methods
}

/// The upscalers that run on each page, in order: three resizers, and, where the GPU is there,
/// those asked for.
pub open spec fn cases_of(gpu_available: bool, methods: Seq<WgpuUpscaleMethod>) -> Seq<ScanCase> {
    let resizers = seq![
        ScanCase::Cpu(ResizeFilter::Bicubic),
        ScanCase::Cpu(ResizeFilter::Lanczos3),
        ScanCase::Cpu(ResizeFilter::FastTriangle),
    ];
    if gpu_available {
        resizers + methods.map_values(|method: WgpuUpscaleMethod| ScanCase::Gpu(method))
    } else {
        resizers
    }
}

/// The upscalers that run on each page, in order.
pub fn scan_cases(gpu_available: bool, methods: &Vec<WgpuUpscaleMethod>) -> (cases: Vec<ScanCase>)
    ensures
        cases@ == cases_of(gpu_available, methods@),
{
    let mut cases: Vec<ScanCase> = vec![
        ScanCase::Cpu(ResizeFilter::Bicubic),
        ScanCase::Cpu(ResizeFilter::Lanczos3),
        ScanCase::Cpu(ResizeFilter::FastTriangle),
    ];
    assert(cases@ =~= cases_of(gpu_available, methods@.take(0)));
    if gpu_available {
        let mut i: usize = 0;
        while i < methods.len()
            invariant
                i <= methods@.len(),
                gpu_available,
                cases@ == cases_of(gpu_available, methods@.take(i as int)),
            decreases methods.len() - i,
        {
            cases.push(ScanCase::Gpu(methods[i]));
            i = i + 1;
            assert(cases@ =~= cases_of(gpu_available, methods@.take(i as int)));
        }
        assert(methods@.take(methods@.len() as int) =~= methods@);
    }
    cases
}

/// A page that nothing is known of yet.
pub fn new_page(index: usize, name: String) -> (page: PageUpscaleQuality)
    ensures
        page.index == index,
        page.name == name,
        page.source_width is None,
        page.source_height is None,
        page.output_width is None,
        page.output_height is None,
        page.contact_sheet is None,
        page.visuals@.len() == 0,
        page.runs@.len() == 0,
        page.error is None,
{
    PageUpscaleQuality {
        index,
        name,
        source_width: None,
        source_height: None,
        output_width: None,
        output_height: None,
        contact_sheet: None,
        visuals: Vec::new(),
        runs: Vec::new(),
        error: None,
    }
}

/// Whether two pages agree in all but their runs.
pub open spec fn same_but_runs(before: PageUpscaleQuality, after: PageUpscaleQuality) -> bool {
    after == (PageUpscaleQuality { runs: after.runs, ..before })
}

/// An upscaler's name and its measures.
pub type SummaryView = (Seq<char>, Seq<QualityMetrics>);

/// The summaries as plain data.
pub open spec fn summary_views(summaries: Seq<UpscaleQualitySummary>) -> Seq<SummaryView> {
    summaries.map_values(|summary: UpscaleQualitySummary| (summary.method@, summary.runs@))
}

/// The first place whose name does not come before `label`.
pub open spec fn place_of(summaries: Seq<SummaryView>, label: Seq<char>) -> int
    decreases summaries.len(),
{
    if summaries.len() == 0 || !text::precedes(summaries[0].0, label) {
        0
    } else {
        1 + place_of(summaries.skip(1), label)
    }
}

/// The summaries after a run: the upscaler has an entry at its place, and a run that succeeded is
/// in it.
pub open spec fn summarized(
    summaries: Seq<SummaryView>,
    label: Seq<char>,
    metrics: Option<QualityMetrics>,
) -> Seq<SummaryView> {
    let place = place_of(summaries, label);
    let fresh = match metrics {
        Some(metrics) => seq![metrics],
        None => Seq::empty(),
    };
    if place < summaries.len() && summaries[place].0 == label {
        summaries.update(place, (label, summaries[place].1 + fresh))
    } else {
        summaries.insert(place, (label, fresh))
    }
}

/// Whether the names are in order, each once.
pub open spec fn in_order(summaries: Seq<SummaryView>) -> bool {
    forall|i: int, j: int|
        0 <= i < j < summaries.len() ==> text::precedes(
            (#[trigger] summaries[i]).0,
            (#[trigger] summaries[j]).0,
        )
}

proof fn lemma_place(summaries: Seq<SummaryView>, label: Seq<char>)
    ensures
        0 <= place_of(summaries, label) <= summaries.len(),
        forall|i: int|
            0 <= i < place_of(summaries, label) ==> text::precedes(
                (#[trigger] summaries[i]).0,
                label,
            ),
        place_of(summaries, label) < summaries.len() ==> !text::precedes(
            summaries[place_of(summaries, label)].0,
            label,
        ),
    decreases summaries.len(),
{
    if summaries.len() > 0 && text::precedes(summaries[0].0, label) {
        let rest = summaries.skip(1);
        lemma_place(rest, label);
        let place = place_of(summaries, label);
        assert forall|i: int| 0 <= i < place implies text::precedes(
            (#[trigger] summaries[i]).0,
            label,
        ) by {
            if i > 0 {
                assert(rest[i - 1] == summaries[i]);
            }
        }
        if place < summaries.len() {
            assert(rest[place - 1] == summaries[place]);
        }
    }
}

/// Summaries stay in the order of their names, each name once.
pub proof fn summaries_stay_in_order(
    summaries: Seq<SummaryView>,
    label: Seq<char>,
    metrics: Option<QualityMetrics>,
)
    requires
        in_order(summaries),
    ensures
        in_order(summarized(summaries, label, metrics)),
{
    lemma_place(summaries, label);
    let place = place_of(summaries, label);
    let after = summarized(summaries, label, metrics);
    assert forall|i: int, j: int| 0 <= i < j < after.len() implies text::precedes(
        (#[trigger] after[i]).0,
        (#[trigger] after[j]).0,
    ) by {
        if place < summaries.len() && summaries[place].0 == label {
            assert(after[i].0 == summaries[i].0 && after[j].0 == summaries[j].0);
        } else {
            if place < summaries.len() {
                text::texts_are_ordered(label, summaries[place].0);
            }
            if i < place && j > place {
                assert(after[i] == summaries[i] && after[j] == summaries[j - 1]);
            } else if i < place && j < place {
                assert(after[i] == summaries[i] && after[j] == summaries[j]);
            } else if i > place {
                assert(after[i] == summaries[i - 1] && after[j] == summaries[j - 1]);
            } else if i == place {
                assert(after[j] == summaries[j - 1]);
                if j - 1 > place {
                    text::order_is_transitive(label, summaries[place].0, summaries[j - 1].0);
                }
            } else {
                assert(after[i] == summaries[i]);
            }
        }
    }
}

/// A run that succeeds is in the upscaler's summary and in no other.
pub proof fn summary_gains_the_run(
    summaries: Seq<SummaryView>,
    label: Seq<char>,
    metrics: QualityMetrics,
)
    requires
        in_order(summaries),
    ensures
        ({
            let after = summarized(summaries, label, Some(metrics));
            let place = place_of(summaries, label);
            &&& 0 <= place < after.len()
            &&& after[place].0 == label
            &&& after[place].1.last() == metrics
            &&& forall|i: int|
                0 <= i < after.len() && i != place ==> summaries.contains(#[trigger] after[i])
        }),
{
    lemma_place(summaries, label);
    let place = place_of(summaries, label);
    let after = summarized(summaries, label, Some(metrics));
    assert forall|i: int| 0 <= i < after.len() && i != place implies summaries.contains(
        #[trigger] after[i],
    ) by {
        if place < summaries.len() && summaries[place].0 == label {
            assert(after[i] == summaries[i]);
        } else if i < place {
            assert(after[i] == summaries[i]);
        } else {
            assert(after[i] == summaries[i - 1]);
        }
    }
}

/// The run of an upscaler whose output was compared with the reference.
pub open spec fn compared_run(
    run: UpscaleQualityRun,
    label: Seq<char>,
    compared: Result<QualityMetrics, String>,
) -> bool {
    &&& run.method@ == label
    &&& match compared {
        Ok(metrics) => run.metrics == metrics && run.error is None,
        Err(error) => run.metrics == report::no_metrics() && run.error == Some(error),
    }
}

/// Enters the run of an upscaler whose output was compared with the reference: into the page, and,
/// where the comparison succeeded, into the upscaler's summary.
pub fn push_run(
    label: &str,
    compared: Result<QualityMetrics, String>,
    page: &mut PageUpscaleQuality,
    summaries: &mut Vec<UpscaleQualitySummary>,
)
    ensures
        same_but_runs(*old(page), *final(page)),
        final(page).runs@.len() == old(page).runs@.len() + 1,
        final(page).runs@.drop_last() == old(page).runs@,
        compared_run(final(page).runs@.last(), label@, compared),
        summary_views(final(summaries)@) == summarized(
            summary_views(old(summaries)@),
            label@,
            match compared {
                Ok(metrics) => Some(metrics),
                Err(_) => None,
            },
        ),
{
    let ghost fresh_runs = match compared {
        Ok(metrics) => seq![metrics],
        Err(_) => Seq::empty(),
    };
    let (metrics, error) = match compared {
        Ok(metrics) => (metrics, None),
        Err(error) => (QualityMetrics::default(), Some(error)),
    };
    let succeeded = error.is_none();
    let ghost before = summary_views(summaries@);
    let mut place: usize = 0;
    assert(before.skip(0) =~= before);
    while place < summaries.len() && text::text_precedes(
        summaries[place].method.as_str(),
        label,
    )
        invariant
            place <= summaries@.len(),
            before == summary_views(summaries@),
            place_of(before, label@) == place + place_of(before.skip(place as int), label@),
        decreases summaries.len() - place,
    {
        assert(before.skip(place as int)[0] == before[place as int]);
        assert(before.skip(place as int).skip(1) =~= before.skip(place + 1));
        place = place + 1;
    }
    proof {
        if place < summaries@.len() {
            assert(before.skip(place as int)[0] == before[place as int]);
        }
        assert(place_of(before, label@) == place);
    }
    let fresh: Vec<QualityMetrics> = if succeeded {
        vec![metrics]
    } else {
        Vec::new()
    };
    let known = place < summaries.len() && text::same_text(
        summaries[place].method.as_str(),
        label,
    );
    assert(fresh@ =~= fresh_runs);
    if known {
        let mut kept = summaries.remove(place);
        if succeeded {
            kept.runs.push(metrics);
        }
        assert(kept.runs@ =~= before[place as int].1 + fresh_runs);
        summaries.insert(place, kept);
        assert(summary_views(summaries@) =~= before.update(
            place as int,
            (label@, before[place as int].1 + fresh_runs),
        ));
    } else {
        summaries.insert(place, UpscaleQualitySummary { method: label.to_owned(), runs: fresh });
        assert(summary_views(summaries@) =~= before.insert(place as int, (label@, fresh_runs)));
    }
    page.runs.push(UpscaleQualityRun { method: label.to_owned(), metrics, error });
    assert(page.runs@.drop_last() =~= old(page).runs@);
}

/// Enters the run of an upscaler that gave no picture. It has no summary.
pub fn push_failed_run(method: WgpuUpscaleMethod, error: String, page: &mut PageUpscaleQuality)
    ensures
        same_but_runs(*old(page), *final(page)),
        final(page).runs@.len() == old(page).runs@.len() + 1,
        final(page).runs@.drop_last() == old(page).runs@,
        compared_run(final(page).runs@.last(), method.label_spec(), Err(error)),
{
    page.runs.push(
        UpscaleQualityRun {
            method: method.label().to_owned(),
            metrics: QualityMetrics::default(),
            error: Some(error),
        },
    );
    assert(page.runs@.drop_last() =~= old(page).runs@);
}

/// Enters the sizes of a page's two pictures.
pub fn set_sizes(page: &mut PageUpscaleQuality, source: [usize; 2], output: [usize; 2])
    ensures
        *final(page) == (PageUpscaleQuality {
            source_width: Some(source[0]),
            source_height: Some(source[1]),
            output_width: Some(output[0]),
            output_height: Some(output[1]),
            ..*old(page)
        }),
{
    page.source_width = Some(source[0]);
    page.source_height = Some(source[1]);
    page.output_width = Some(output[0]);
    page.output_height = Some(output[1]);
}

/// Enters that a page could not be read or decoded, which is a failure.
pub fn fail_page(page: &mut PageUpscaleQuality, failures: &mut usize, error: String)
    requires
        *old(failures) < usize::MAX,
    ensures
        *final(page) == (PageUpscaleQuality { error: Some(error), ..*old(page) }),
        *final(failures) == *old(failures) + 1,
{
    page.error = Some(error);
    *failures = *failures + 1;
}

/// Enters the pictures that were written for a page, or, as a failure, that they could not be.
pub fn settle_visuals(
    page: &mut PageUpscaleQuality,
    failures: &mut usize,
    written: Result<(String, Vec<UpscaleQualityVisual>), String>,
)
    requires
        *old(failures) < usize::MAX,
    ensures
        match written {
            Ok((contact_sheet, visuals)) => {
                &&& *final(failures) == *old(failures)
                &&& *final(page) == (PageUpscaleQuality {
                    contact_sheet: Some(contact_sheet),
                    visuals,
                    ..*old(page)
                })
            },
            Err(error) => {
                &&& *final(failures) == *old(failures) + 1
                &&& final(page).error is Some
                &&& final(page).error->0@ == "visual export failed: "@ + error@
                &&& *final(page) == (PageUpscaleQuality { error: final(page).error, ..*old(page) })
            },
        },
{
    match written {
        Ok((contact_sheet, visuals)) => {
            page.contact_sheet = Some(contact_sheet);
            page.visuals = visuals;
        },
        Err(error) => {
            let mut message = "visual export failed: ".to_owned();
            message.append(error.as_str());
            page.error = Some(message);
            *failures = *failures + 1;
        },
    }
}

/// The largest difference of the runs in a summary.
pub open spec fn largest_of(runs: Seq<QualityMetrics>) -> u8
    decreases runs.len(),
{
    if runs.len() == 0 {
        0
    } else {
        let before = largest_of(runs.drop_last());
        if runs.last().max_abs_diff > before {
            runs.last().max_abs_diff
        } else {
            before
        }
    }
}

/// The largest difference of the runs in a summary.
pub fn largest_difference_of(summary: &UpscaleQualitySummary) -> (largest: u8)
    ensures
        largest == largest_of(summary.runs@),
{
    let mut largest: u8 = 0;
    let mut i: usize = 0;
    while i < summary.runs.len()
        invariant
            i <= summary.runs@.len(),
            largest == largest_of(summary.runs@.take(i as int)),
        decreases summary.runs.len() - i,
    {
        assert(summary.runs@.take(i + 1).drop_last() =~= summary.runs@.take(i as int));
        let diff: u8 = summary.runs[i].max_abs_diff;
        if diff > largest {
            largest = diff;
        }
        i = i + 1;
    }
    assert(summary.runs@.take(summary.runs@.len() as int) =~= summary.runs@);
    largest
}

/// The largest difference of some runs is that of one of them, and no run has a larger one.
pub proof fn the_largest_difference_is_that_of_a_run(runs: Seq<QualityMetrics>, i: int) -> (of: int)
    requires
        0 <= i < runs.len(),
    ensures
        runs[i].max_abs_diff <= largest_of(runs),
        0 <= of < runs.len() && runs[of].max_abs_diff == largest_of(runs),
    decreases runs.len(),
{
    let before = runs.drop_last();
    let last = runs.len() - 1;
    if runs.len() == 1 {
        0
    } else {
        let of = the_largest_difference_is_that_of_a_run(
            before,
            if i < last {
                i
            } else {
                0
            },
        );
        assert(before[of] == runs[of]);
        if i < last {
            assert(before[i] == runs[i]);
        }
        if runs[last].max_abs_diff > largest_of(before) {
            last
        } else {
            of
        }
    }
}

/// Every page is upscaled by the three resizers first and then, where the GPU is there, by each of
/// the upscalers asked for in turn, and by nothing else.
pub proof fn upscalers_follow_the_resizers(
    gpu_available: bool,
    methods: Seq<WgpuUpscaleMethod>,
    i: int,
)
    ensures
        cases_of(gpu_available, methods).len() == if gpu_available {
            3 + methods.len()
        } else {
            3
        },
        0 <= i < 3 ==> cases_of(gpu_available, methods)[i] is Cpu && cases_of(
            gpu_available,
            methods,
        )[i] != ScanCase::Cpu(ResizeFilter::Nearest),
        gpu_available && 0 <= i < methods.len() ==> cases_of(gpu_available, methods)[3 + i]
            == ScanCase::Gpu(methods[i]),
        cases_of(gpu_available, methods).take(3).no_duplicates(),
{
}

/// Where an upscaler is asked for, a scan runs it and no other. Otherwise it runs each upscaler at most
/// once, and none of the CuNNy, ArtCNN and SPAN networks.
pub proof fn scans_run_what_is_asked_for(method: WgpuUpscaleMethod, i: int)
    ensures
        gpu_methods_of(Some(method)) == seq![method],
        gpu_methods_of(None).no_duplicates(),
        0 <= i < gpu_methods_of(None).len() ==> {
            let scanned = gpu_methods_of(None)[i];
            &&& !scanned.is_cunny_spec()
            &&& scanned != WgpuUpscaleMethod::WgslSrLabSpanX2
            &&& scanned != WgpuUpscaleMethod::WgslArtcnnC4F16
            &&& scanned != WgpuUpscaleMethod::WgslArtcnnC4F16Dn
            &&& scanned != WgpuUpscaleMethod::WgslArtcnnC4F16Ds
            &&& scanned != WgpuUpscaleMethod::WgslArtcnnC4F32
            &&& scanned != WgpuUpscaleMethod::WgslArtcnnC4F32Dn
            &&& scanned != WgpuUpscaleMethod::WgslArtcnnC4F32Ds
        },
{
}

/// The picture of a resizer is named after the resizer: its name in the report in small letters, with
/// hyphens between the words, behind the letters cpu.
pub proof fn pictures_of_resizers_are_named_after_them(filter: ResizeFilter, i: int)
    ensures
        ({
            let name = ScanCase::Cpu(filter).visual_name_spec();
            let label = ScanCase::Cpu(filter).label_spec();
            &&& name.len() == 4 + label.len()
            &&& name[0] == 'c' && name[1] == 'p' && name[2] == 'u' && name[3] == '-'
            &&& 0 <= i < label.len() ==> name[4 + i] == if visuals::is_word_char(label[i]) {
                crate::text::ascii_lower(label[i])
            } else {
                '-'
            }
        }),
{
    reveal_strlit("Bicubic");
    reveal_strlit("Lanczos3");
    reveal_strlit("Fast/Triangle");
    reveal_strlit("Nearest");
    reveal_strlit("cpu-bicubic");
    reveal_strlit("cpu-lanczos3");
    reveal_strlit("cpu-fast-triangle");
    reveal_strlit("cpu-nearest");
}

} // verus!
