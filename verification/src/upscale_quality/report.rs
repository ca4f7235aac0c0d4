//! What a quality scan reports, and when the upscaler that it was asked for has failed.
use crate::state::WgpuUpscaleMethod;
use crate::text;
use vstd::prelude::*;

verus! {

/// The measures of one run. Those that are fractions are carried as the bits of their `binary64`
/// values.
#[derive(Debug, Clone, Copy, PartialEq, Eq, Structural)]
pub struct QualityMetrics {
    pub ssim: u64,
    pub mae: u64,
    pub rmse: u64,
    pub psnr: u64,
    pub max_abs_diff: u8,
    pub different_pixel_ratio: u64,
    pub edge_mae: u64,
    pub ringing_score: u64,
}

/// The measures of a run that failed: all zero.
pub open spec fn no_metrics() -> QualityMetrics {
    QualityMetrics {
        ssim: 0,
        mae: 0,
        rmse: 0,
        psnr: 0,
        max_abs_diff: 0,
        different_pixel_ratio: 0,
        edge_mae: 0,
        ringing_score: 0,
    }
}

impl Default for QualityMetrics {
    fn default() -> (metrics: Self)
        ensures
            metrics == no_metrics(),
    {
        QualityMetrics {
            ssim: 0,
            mae: 0,
            rmse: 0,
            psnr: 0,
            max_abs_diff: 0,
            different_pixel_ratio: 0,
            edge_mae: 0,
            ringing_score: 0,
        }
    }
}

/// One upscaler on one page.
#[derive(Debug)]
pub struct UpscaleQualityRun {
    pub method: String,
    pub metrics: QualityMetrics,
    pub error: Option<String>,
}

/// A picture that was written for a page.
#[derive(Debug)]
pub struct UpscaleQualityVisual {
    pub method: String,
    pub path: String,
}

/// What a scan found on one page.
#[derive(Debug)]
pub struct PageUpscaleQuality {
    pub index: usize,
    pub name: String,
    pub source_width: Option<usize>,
    pub source_height: Option<usize>,
    pub output_width: Option<usize>,
    pub output_height: Option<usize>,
    pub contact_sheet: Option<String>,
    pub visuals: Vec<UpscaleQualityVisual>,
    pub runs: Vec<UpscaleQualityRun>,
    pub error: Option<String>,
}

/// The measures of one upscaler on all pages on which it succeeded.
#[derive(Debug)]
pub struct UpscaleQualitySummary {
    pub method: String,
    pub runs: Vec<QualityMetrics>,
}

/// What a scan found.
#[derive(Debug)]
pub struct UpscaleQualityReport {
    pub path: String,
    pub title: String,
    pub page_count: usize,
    pub source_long_edge: u32,
    pub target_long_edge: u32,
    pub gpu_available: bool,
    pub gpu_error: Option<String>,
    pub failures: usize,
    pub methods: Vec<UpscaleQualitySummary>,
    pub pages: Vec<PageUpscaleQuality>,
}

/// The first of the errors of pages, where there is one.
pub open spec fn first_page_error(pages: Seq<PageUpscaleQuality>) -> Option<Seq<char>>
    decreases pages.len(),
{
    if pages.len() == 0 {
        None
    } else {
        match first_page_error(pages.drop_last()) {
            Some(error) => Some(error),
            None => match pages.last().error {
                Some(error) => Some(error@),
                None => None,
            },
        }
    }
}

/// The first error is that of the first page that has one; there is none where no page has one.
pub proof fn the_first_failed_page_is_named(pages: Seq<PageUpscaleQuality>, i: int)
    requires
        0 <= i < pages.len(),
        forall|j: int| 0 <= j < i ==> (#[trigger] pages[j]).error is None,
    ensures
        pages[i].error matches Some(error) ==> first_page_error(pages) == Some(error@),
        first_page_error(pages.take(i)) is None,
{
    lemma_no_error_before(pages, i);
    if pages[i].error is Some {
        assert(pages.take(i + 1).drop_last() =~= pages.take(i));
        assert(pages.take(i + 1).last() == pages[i]);
        lemma_first_stays(pages, i + 1);
    }
}

proof fn lemma_no_error_before(pages: Seq<PageUpscaleQuality>, i: int)
    requires
        0 <= i <= pages.len(),
        forall|j: int| 0 <= j < i ==> (#[trigger] pages[j]).error is None,
    ensures
        first_page_error(pages.take(i)) is None,
    decreases i,
{
    if i > 0 {
        lemma_no_error_before(pages, i - 1);
        assert(pages.take(i).drop_last() =~= pages.take(i - 1));
        assert(pages.take(i).last() == pages[i - 1]);
    }
}

/// The errors of the runs of an upscaler, in order.
pub open spec fn errors_in(runs: Seq<UpscaleQualityRun>, label: Seq<char>) -> Seq<Seq<char>>
    decreases runs.len(),
{
    if runs.len() == 0 {
        Seq::empty()
    } else {
        let before = errors_in(runs.drop_last(), label);
        match runs.last().error {
            Some(error) => if runs.last().method@ == label {
                before.push(error@)
            } else {
                before
            },
            None => before,
        }
    }
}

/// The errors of the runs of an upscaler on all pages, in order.
pub open spec fn run_errors(pages: Seq<PageUpscaleQuality>, label: Seq<char>) -> Seq<Seq<char>>
    decreases pages.len(),
{
    if pages.len() == 0 {
        Seq::empty()
    } else {
        run_errors(pages.drop_last(), label) + errors_in(pages.last().runs@, label)
    }
}

/// The number of pages on which an upscaler succeeded.
pub open spec fn successful_pages(methods: Seq<UpscaleQualitySummary>, label: Seq<char>) -> nat
    decreases methods.len(),
{
    if methods.len() == 0 {
        0
    } else if methods[0].method@ == label {
        methods[0].runs@.len()
    } else {
        successful_pages(methods.skip(1), label)
    }
}

/// The errors of an upscaler are those of its own failed runs and of no others.
pub proof fn errors_are_those_of_the_failed_runs(
    runs: Seq<UpscaleQualityRun>,
    label: Seq<char>,
    i: int,
    k: int,
) -> (of: int)
    ensures
        0 <= i < runs.len() && runs[i].method@ == label && runs[i].error is Some ==> errors_in(
            runs,
            label,
        ).contains(runs[i].error->0@),
        0 <= k < errors_in(runs, label).len() ==> 0 <= of < runs.len() && runs[of].method@ == label
            && runs[of].error is Some && errors_in(runs, label)[k] == runs[of].error->0@,
        errors_in(runs, label).len() <= runs.len(),
    decreases runs.len(),
{
    if runs.len() == 0 {
        0
    } else {
        let before = runs.drop_last();
        let last = runs.len() - 1;
        let earlier = errors_in(before, label);
        let of = errors_are_those_of_the_failed_runs(before, label, i, k);
        let all = errors_in(runs, label);
        if 0 <= i < runs.len() && runs[i].method@ == label && runs[i].error is Some {
            if i == last {
                assert(all.last() == runs[i].error->0@);
            } else {
                assert(before[i] == runs[i]);
                let at = choose|at: int| 0 <= at < earlier.len() && earlier[at] == runs[i].error->0@;
                assert(all[at] == earlier[at]);
            }
        }
        if k < earlier.len() {
            of
        } else {
            last
        }
    }
}

/// An upscaler that fails on no page has no errors on all pages; one that fails somewhere has the
/// error of that run among them.
pub proof fn failed_runs_are_found_on_every_page(
    pages: Seq<PageUpscaleQuality>,
    label: Seq<char>,
    page: int,
    run: int,
)
    ensures
        0 <= page < pages.len() && 0 <= run < pages[page].runs@.len()
            && pages[page].runs@[run].method@ == label && pages[page].runs@[run].error is Some
            ==> run_errors(pages, label).contains(pages[page].runs@[run].error->0@),
        (forall|p: int, r: int|
            #![trigger pages[p].runs@[r]]
            0 <= p < pages.len() && 0 <= r < pages[p].runs@.len() && pages[p].runs@[r].method@
                == label ==> pages[p].runs@[r].error is None) ==> run_errors(pages, label).len()
            == 0,
    decreases pages.len(),
{
    if pages.len() > 0 {
        let before = pages.drop_last();
        let last = pages.len() - 1;
        failed_runs_are_found_on_every_page(before, label, page, run);
        let earlier = run_errors(before, label);
        let here = errors_in(pages[last].runs@, label);
        let all = run_errors(pages, label);
        if 0 <= page < pages.len() && 0 <= run < pages[page].runs@.len()
            && pages[page].runs@[run].method@ == label && pages[page].runs@[run].error is Some {
            let error = pages[page].runs@[run].error->0@;
            if page == last {
                errors_are_those_of_the_failed_runs(pages[last].runs@, label, run, 0);
                let at = choose|at: int| 0 <= at < here.len() && here[at] == error;
                assert(all[earlier.len() + at] == error);
            } else {
                assert(before[page] == pages[page]);
                let at = choose|at: int| 0 <= at < earlier.len() && earlier[at] == error;
                assert(all[at] == error);
            }
        }
        if forall|p: int, r: int|
            #![trigger pages[p].runs@[r]]
            0 <= p < pages.len() && 0 <= r < pages[p].runs@.len() && pages[p].runs@[r].method@
                == label ==> pages[p].runs@[r].error is None {
            assert forall|p: int, r: int|
                #![trigger before[p].runs@[r]]
                0 <= p < before.len() && 0 <= r < before[p].runs@.len() && before[p].runs@[r].method@
                    == label implies before[p].runs@[r].error is None by {
                assert(before[p] == pages[p]);
                assert(pages[p].runs@[r].error is None);
            }
            if here.len() > 0 {
                let of = errors_are_those_of_the_failed_runs(pages[last].runs@, label, 0, 0);
                assert(pages[last].runs@[of].error is None);
            }
        }
    }
}

/// The pages on which an upscaler succeeded are counted in its own summary.
pub proof fn successes_are_counted_in_the_own_summary(
    methods: Seq<UpscaleQualitySummary>,
    label: Seq<char>,
    i: int,
)
    requires
        0 <= i < methods.len(),
        methods[i].method@ == label,
        forall|j: int| 0 <= j < i ==> (#[trigger] methods[j]).method@ != label,
    ensures
        successful_pages(methods, label) == methods[i].runs@.len(),
    decreases methods.len(),
{
    if i > 0 {
        let rest = methods.skip(1);
        assert(methods[0].method@ != label);
        assert(rest[i - 1] == methods[i]);
        assert forall|j: int| 0 <= j < i - 1 implies (#[trigger] rest[j]).method@ != label by {
            assert(rest[j] == methods[j + 1]);
        }
        successes_are_counted_in_the_own_summary(rest, label, i - 1);
    }
}

/// Why a scan counts as failed for an upscaler, where it does: the GPU was not there, a page
/// failed, a run of the upscaler failed, or none succeeded.
pub open spec fn failure_of(report: UpscaleQualityReport, method: WgpuUpscaleMethod) -> Option<
    Seq<char>,
> {
    let label = method.label_spec();
    let errors = run_errors(report.pages@, label);
    if !report.gpu_available {
        Some(
            label + " was requested but WGSL upscale quality scan is unavailable: "@ + match report.gpu_error {
                Some(error) => error@,
                None => "unknown error"@,
            },
        )
    } else if report.failures > 0 {
        Some(
            label + " quality scan had "@ + text::decimal(report.failures as int)
                + " page-level failure(s); first error: "@ + match first_page_error(report.pages@) {
                Some(error) => error,
                None => "unknown page-level error"@,
            },
        )
    } else if errors.len() > 0 {
        Some(
            label + " failed on "@ + text::decimal(errors.len() as int)
                + " page(s); first error: "@ + errors[0],
        )
    } else if successful_pages(report.methods@, label) == 0 {
        Some(label + " produced no successful quality runs"@)
    } else {
        None
    }
}

/// The view of an optional text.
pub open spec fn text_of(text: Option<String>) -> Option<Seq<char>> {
    match text {
        Some(text) => Some(text@),
        None => None,
    }
}

/// The first of the errors of pages, where there is one.
fn find_page_error(pages: &Vec<PageUpscaleQuality>) -> (found: Option<&str>)
    ensures
        match found {
            Some(error) => first_page_error(pages@) == Some(error@),
            None => first_page_error(pages@) == None::<Seq<char>>,
        },
{
    let mut i: usize = 0;
    while i < pages.len()
        invariant
            i <= pages@.len(),
            first_page_error(pages@.take(i as int)) == None::<Seq<char>>,
        decreases pages.len() - i,
    {
        proof {
            assert(pages@.take(i + 1).drop_last() =~= pages@.take(i as int));
        }
        match &pages[i].error {
            Some(error) => {
                proof {
                    lemma_first_stays(pages@, i + 1);
                }
                return Some(error.as_str());
            },
            None => {},
        }
        i = i + 1;
    }
    assert(pages@.take(pages@.len() as int) =~= pages@);
    None
}

/// The first error of some pages is the first error of all of them.
proof fn lemma_first_stays(pages: Seq<PageUpscaleQuality>, count: int)
    requires
        0 <= count <= pages.len(),
        first_page_error(pages.take(count)) is Some,
    ensures
        first_page_error(pages) == first_page_error(pages.take(count)),
    decreases pages.len() - count,
{
    if count == pages.len() {
        assert(pages.take(count) =~= pages);
    } else {
        assert(pages.take(count + 1).drop_last() =~= pages.take(count));
        lemma_first_stays(pages, count + 1);
    }
}

/// The number of errors of an upscaler, and the first of them.
struct RunErrors<'a> {
    count: usize,
    first: Option<&'a str>,
}

impl<'a> RunErrors<'a> {
    spec fn are(self, errors: Seq<Seq<char>>) -> bool {
        &&& self.count == errors.len()
        &&& match self.first {
            Some(first) => errors.len() > 0 && errors[0] == first@,
            None => errors.len() == 0,
        }
    }
}

/// Counts the errors of an upscaler on a page, after those that were `seen` before.
fn count_errors<'a>(runs: &'a Vec<UpscaleQualityRun>, label: &str, before: RunErrors<'a>, Ghost(
    seen,
): Ghost<Seq<Seq<char>>>) -> (after: RunErrors<'a>)
    requires
        before.are(seen),
        before.count + runs@.len() <= usize::MAX,
    ensures
        after.are(seen + errors_in(runs@, label@)),
        after.count <= before.count + runs@.len(),
{
    let start: usize = before.count;
    let mut errors = before;
    let mut i: usize = 0;
    assert(seen + errors_in(runs@.take(0), label@) =~= seen);
    while i < runs.len()
        invariant
            i <= runs@.len(),
            start + runs@.len() <= usize::MAX,
            errors.count <= start + i,
            errors.are(seen + errors_in(runs@.take(i as int), label@)),
        decreases runs.len() - i,
    {
        let ghost so_far = errors_in(runs@.take(i as int), label@);
        proof {
            assert(runs@.take(i + 1).drop_last() =~= runs@.take(i as int));
        }
        match &runs[i].error {
            Some(error) => {
                if text::same_text(runs[i].method.as_str(), label) {
                    assert(seen + so_far.push(error@) =~= (seen + so_far).push(error@));
                    errors = RunErrors {
                        count: errors.count + 1,
                        first: match errors.first {
                            Some(first) => Some(first),
                            None => Some(error.as_str()),
                        },
                    };
                }
            },
            None => {},
        }
        i = i + 1;
    }
    assert(runs@.take(runs@.len() as int) =~= runs@);
    errors
}

/// The number of runs on some pages.
pub open spec fn run_count(pages: Seq<PageUpscaleQuality>) -> nat
    decreases pages.len(),
{
    if pages.len() == 0 {
        0
    } else {
        run_count(pages.drop_last()) + pages.last().runs@.len()
    }
}

proof fn lemma_run_count_grows(pages: Seq<PageUpscaleQuality>, count: int)
    requires
        0 <= count <= pages.len(),
    ensures
        run_count(pages.take(count)) <= run_count(pages),
    decreases pages.len() - count,
{
    if count == pages.len() {
        assert(pages.take(count) =~= pages);
    } else {
        assert(pages.take(count + 1).drop_last() =~= pages.take(count));
        lemma_run_count_grows(pages, count + 1);
    }
}

/// The number of pages on which an upscaler succeeded.
fn count_successes(methods: &Vec<UpscaleQualitySummary>, label: &str) -> (pages: usize)
    ensures
        pages == successful_pages(methods@, label@),
{
    let mut i: usize = 0;
    assert(methods@.skip(0) =~= methods@);
    while i < methods.len()
        invariant
            i <= methods@.len(),
            successful_pages(methods@.skip(i as int), label@) == successful_pages(methods@, label@),
        decreases methods.len() - i,
    {
        if text::same_text(methods[i].method.as_str(), label) {
            return methods[i].runs.len();
        }
        assert(methods@.skip(i as int).skip(1) =~= methods@.skip(i + 1));
        i = i + 1;
    }
    0
}

/// Why a scan counts as failed for an upscaler, where it does.
pub fn selected_method_failure(report: &UpscaleQualityReport, method: WgpuUpscaleMethod) -> (failure:
    Option<String>)
    requires
        run_count(report.pages@) <= usize::MAX,
    ensures
        text_of(failure) == failure_of(*report, method),
{
    let label = method.label();
    if !report.gpu_available {
        let mut message = label.to_owned();
        message.append(" was requested but WGSL upscale quality scan is unavailable: ");
        match &report.gpu_error {
            Some(error) => message.append(error.as_str()),
            None => message.append("unknown error"),
        }
        return Some(message);
    }
    if report.failures > 0 {
        let mut message = label.to_owned();
        message.append(" quality scan had ");
        text::push_decimal(&mut message, report.failures as u64);
        message.append(" page-level failure(s); first error: ");
        match find_page_error(&report.pages) {
            Some(error) => message.append(error),
            None => message.append("unknown page-level error"),
        }
        return Some(message);
    }
    let pages = &report.pages;
    let ghost mut seen: Seq<Seq<char>> = Seq::empty();
    let mut errors = RunErrors { count: 0, first: None };
    let mut i: usize = 0;
    while i < pages.len()
        invariant
            i <= pages@.len(),
            run_count(pages@) <= usize::MAX,
            label@ == method.label_spec(),
            seen == run_errors(pages@.take(i as int), label@),
            errors.are(seen),
            errors.count <= run_count(pages@.take(i as int)),
        decreases pages.len() - i,
    {
        proof {
            assert(pages@.take(i + 1).drop_last() =~= pages@.take(i as int));
            lemma_run_count_grows(pages@, i + 1);
        }
        errors = count_errors(&pages[i].runs, label, errors, Ghost(seen));
        proof {
            seen = run_errors(pages@.take(i + 1), label@);
        }
        i = i + 1;
    }
    assert(pages@.take(pages@.len() as int) =~= pages@);
    if errors.count > 0 {
        let mut message = label.to_owned();
        message.append(" failed on ");
        text::push_decimal(&mut message, errors.count as u64);
        message.append(" page(s); first error: ");
        match errors.first {
            Some(error) => message.append(error),
            None => message.append("unknown error"),
        }
        return Some(message);
    }
    if count_successes(&report.methods, label) == 0 {
        let mut message = label.to_owned();
        message.append(" produced no successful quality runs");
        return Some(message);
    }
    None
}

/// The pages that a scan takes: all of them, or as many as it is limited to. A limit of 0 is none.
pub open spec fn scanned_pages(page_count: usize, max_pages: Option<usize>) -> usize {
    match max_pages {
        Some(limit) => if 0 < limit < page_count {
            limit
        } else {
            page_count
        },
        None => page_count,
    }
}

/// The pages that a scan takes: all of them, or as many as it is limited to. A limit of 0 is none.
pub fn scanned_page_count(page_count: usize, max_pages: Option<usize>) -> (pages: usize)
    ensures
        pages == scanned_pages(page_count, max_pages),
{
    match max_pages {
        Some(limit) => if 0 < limit && limit < page_count {
            limit
        } else {
            page_count
        },
        None => page_count,
    }
}

/// The longest edge of the pictures that the upscalers start from, within its limits.
pub fn clamp_upscale_source_long_edge(source_long_edge: u32) -> (clamped: u32)
    ensures
        clamped == if source_long_edge < 64 {
            64u32
        } else if source_long_edge > 4096 {
            4096u32
        } else {
            source_long_edge
        },
{
    if source_long_edge < 64 {
        64
    } else if source_long_edge > 4096 {
        4096
    } else {
        source_long_edge
    }
}

/// Where the report is written by default: the directory and the name of the file in it.
pub fn default_upscale_quality_report_path() -> (path: String)
    ensures
        path@ == "perf-fixtures/upscale-quality-report.json"@,
{
    "perf-fixtures/upscale-quality-report.json".to_owned()
}

/// A scan counts as a success for an upscaler exactly where the GPU was there, no page failed, no run
/// of the upscaler failed, and at least one succeeded.
pub proof fn scans_succeed_where_nothing_failed(
    report: UpscaleQualityReport,
    method: WgpuUpscaleMethod,
    page: int,
    run: int,
)
    ensures
        failure_of(report, method) is None <==> {
            &&& report.gpu_available
            &&& report.failures == 0
            &&& run_errors(report.pages@, method.label_spec()).len() == 0
            &&& successful_pages(report.methods@, method.label_spec()) > 0
        },
        failure_of(report, method) is None && 0 <= page < report.pages@.len() && 0 <= run
            < report.pages@[page].runs@.len() && report.pages@[page].runs@[run].method@
            == method.label_spec() ==> report.pages@[page].runs@[run].error is None,
{
    failed_runs_are_found_on_every_page(report.pages@, method.label_spec(), page, run);
}

/// A scan takes no more pages than there are, nor more than it is limited to, but as many as these two
/// allow. A limit of 0 limits nothing.
pub proof fn scans_take_as_many_pages_as_they_may(page_count: usize, max_pages: Option<usize>)
    ensures
        scanned_pages(page_count, max_pages) <= page_count,
        max_pages is Some && max_pages->0 > 0 ==> scanned_pages(page_count, max_pages) <= max_pages->0,
        scanned_pages(page_count, max_pages) < page_count ==> max_pages == Some(
            scanned_pages(page_count, max_pages),
        ),
        page_count > 0 ==> scanned_pages(page_count, max_pages) > 0,
{
}

} // verus!
