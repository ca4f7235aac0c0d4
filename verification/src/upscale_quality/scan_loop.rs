//! A quality scan as a loop: what is done next, and what is entered of its outcome.
use crate::upscale_quality::report::{
    PageUpscaleQuality, QualityMetrics, UpscaleQualitySummary, UpscaleQualityVisual,
};
use crate::upscale_quality::scan;
use crate::upscale_quality::scan::{
    fail_page, new_page, push_failed_run, push_run, set_sizes, settle_visuals, ScanCase,
};
use vstd::prelude::*;

verus! {

/// What a scan is waiting for.
#[derive(Debug, Clone, Copy, PartialEq, Eq, Structural)]
pub enum ScanPhase {
    Reading,
    Running,
    Writing,
    Done,
}

/// What is to be done next.
#[derive(Debug, Clone, Copy, PartialEq, Eq, Structural)]
pub enum ScanAction {
    /// Read a page and make its two pictures.
    Read(usize),
    /// Run an upscaler on the page, and compare its picture with the reference.
    Run(ScanCase),
    /// Write the pictures of a page.
    Write(usize),
    /// Nothing is left.
    Finish,
}

/// What came of it.
pub enum ScanEvent {
    /// The page's name, and the sizes of its two pictures or why there are none.
    Opened(String, Result<([usize; 2], [usize; 2]), String>),
    /// How the upscaler's picture compares.
    Compared(Result<QualityMetrics, String>),
    /// Why the upscaler, one on the GPU, gave no picture.
    NoPicture(String),
    /// Where the contact sheet and the pictures are, or why they could not be written.
    Written(Result<(String, Vec<UpscaleQualityVisual>), String>),
}

/// A scan of the first pages of a book.
pub struct ScanLoop {
    pub page_count: usize,
    pub cases: Vec<ScanCase>,
    pub visuals: bool,
    pub failures: usize,
    pub pages: Vec<PageUpscaleQuality>,
    pub summaries: Vec<UpscaleQualitySummary>,
    pub page: Option<PageUpscaleQuality>,
    pub phase: ScanPhase,
}

/// How many pages have an error.
pub open spec fn failed_pages(pages: Seq<PageUpscaleQuality>) -> nat
    decreases pages.len(),
{
    if pages.len() == 0 {
        0
    } else {
        failed_pages(pages.drop_last()) + if pages.last().error is Some {
            1nat
        } else {
            0nat
        }
    }
}

/// Whether a page's runs are those of the first upscalers, in order.
pub open spec fn runs_in_order(page: PageUpscaleQuality, cases: Seq<ScanCase>) -> bool {
    &&& page.runs@.len() <= cases.len()
    &&& forall|k: int|
        0 <= k < page.runs@.len() ==> (#[trigger] page.runs@[k]).method@ == cases[k].label_spec()
}

/// Whether a page has been through the scan: every upscaler has a run, in order, or none has and
/// the page has an error.
pub open spec fn is_scanned(page: PageUpscaleQuality, cases: Seq<ScanCase>, index: int) -> bool {
    &&& page.index == index
    &&& runs_in_order(page, cases)
    &&& page.runs@.len() == cases.len() || page.runs@.len() == 0 && page.error is Some
}

/// Whether a run was entered into a page.
pub open spec fn entered(
    before: PageUpscaleQuality,
    after: PageUpscaleQuality,
    label: Seq<char>,
    compared: Result<QualityMetrics, String>,
) -> bool {
    &&& scan::same_but_runs(before, after)
    &&& after.runs@.len() == before.runs@.len() + 1
    &&& after.runs@.drop_last() == before.runs@
    &&& scan::compared_run(after.runs@.last(), label, compared)
}

/// The measures of a comparison, where it succeeded.
pub open spec fn measured(compared: Result<QualityMetrics, String>) -> Option<QualityMetrics> {
    match compared {
        Ok(metrics) => Some(metrics),
        Err(_) => None,
    }
}

/// Whether the outcome of writing a page's pictures was entered into it.
pub open spec fn settled(
    before: PageUpscaleQuality,
    after: PageUpscaleQuality,
    written: Result<(String, Vec<UpscaleQualityVisual>), String>,
) -> bool {
    match written {
        Ok((contact_sheet, visuals)) => after == (PageUpscaleQuality {
            contact_sheet: Some(contact_sheet),
            visuals,
            ..before
        }),
        Err(error) => {
            &&& after.error is Some
            &&& after.error->0@ == "visual export failed: "@ + error@
            &&& after == (PageUpscaleQuality { error: after.error, ..before })
        },
    }
}

/// Whether a page is new, but for its error.
pub open spec fn is_new(page: PageUpscaleQuality, index: int, name: String) -> bool {
    &&& page.index == index
    &&& page.name == name
    &&& page.source_width is None
    &&& page.source_height is None
    &&& page.output_width is None
    &&& page.output_height is None
    &&& page.contact_sheet is None
    &&& page.visuals@.len() == 0
    &&& page.runs@.len() == 0
}

impl ScanLoop {
    /// The failures are the pages with an error, the pages that are done have been through the
    /// scan, the summaries are in order, and the page that is not done is at the next upscaler.
    pub open spec fn wf(self) -> bool {
        &&& self.cases@.len() > 0
        &&& self.failures == failed_pages(self.pages@)
        &&& forall|i: int|
            0 <= i < self.pages@.len() ==> is_scanned(#[trigger] self.pages@[i], self.cases@, i)
        &&& scan::in_order(scan::summary_views(self.summaries@))
        &&& match self.phase {
            ScanPhase::Reading => self.page is None && self.pages@.len() < self.page_count,
            ScanPhase::Running => self.page_is_open() && self.page->0.runs@.len()
                < self.cases@.len(),
            ScanPhase::Writing => self.page_is_open() && self.page->0.runs@.len()
                == self.cases@.len() && self.visuals,
            ScanPhase::Done => self.page is None && self.pages@.len() == self.page_count,
        }
    }

    /// Whether a page is being scanned, without an error so far.
    pub open spec fn page_is_open(self) -> bool {
        &&& self.pages@.len() < self.page_count
        &&& self.page is Some
        &&& self.page->0.index == self.pages@.len()
        &&& self.page->0.error is None
        &&& runs_in_order(self.page->0, self.cases@)
    }

    /// What is to be done next.
    pub open spec fn demanded(self) -> ScanAction {
        match self.phase {
            ScanPhase::Reading => ScanAction::Read(self.pages@.len() as usize),
            ScanPhase::Running => ScanAction::Run(self.cases@[self.page->0.runs@.len() as int]),
            ScanPhase::Writing => ScanAction::Write(self.pages@.len() as usize),
            ScanPhase::Done => ScanAction::Finish,
        }
    }

    /// The scan with a page done.
    pub open spec fn closed(
        self,
        page: PageUpscaleQuality,
        failures: int,
        summaries: Seq<scan::SummaryView>,
        after: ScanLoop,
    ) -> bool {
        &&& after.page_count == self.page_count && after.cases == self.cases && after.visuals
            == self.visuals
        &&& after.failures == failures
        &&& scan::summary_views(after.summaries@) == summaries
        &&& after.pages@ == self.pages@.push(page)
        &&& after.page is None
        &&& after.phase == if self.pages@.len() + 1 == self.page_count {
            ScanPhase::Done
        } else {
            ScanPhase::Reading
        }
    }

    /// The scan with a page that is not done.
    pub open spec fn held(
        self,
        page: PageUpscaleQuality,
        phase: ScanPhase,
        summaries: Seq<scan::SummaryView>,
        after: ScanLoop,
    ) -> bool {
        &&& after.page_count == self.page_count && after.cases == self.cases && after.visuals
            == self.visuals
        &&& after.failures == self.failures
        &&& scan::summary_views(after.summaries@) == summaries
        &&& after.pages == self.pages
        &&& after.page == Some(page)
        &&& after.phase == phase
    }

    /// The scan after a run: at the next upscaler, or behind the last one.
    pub open spec fn advanced(
        self,
        page: PageUpscaleQuality,
        summaries: Seq<scan::SummaryView>,
        after: ScanLoop,
    ) -> bool {
        if page.runs@.len() < self.cases@.len() {
            self.held(page, ScanPhase::Running, summaries, after)
        } else if self.visuals {
            self.held(page, ScanPhase::Writing, summaries, after)
        } else {
            self.closed(page, self.failures as int, summaries, after)
        }
    }

    /// The scan after an event. One that it does not wait for changes nothing.
    pub open spec fn stepped(self, event: ScanEvent, after: ScanLoop) -> bool {
        let summaries = scan::summary_views(self.summaries@);
        match (self.phase, event) {
            (ScanPhase::Reading, ScanEvent::Opened(name, Err(error))) => {
                exists|page: PageUpscaleQuality|
                    #[trigger] is_new(page, self.pages@.len() as int, name) && page.error == Some(
                        error,
                    ) && self.closed(page, self.failures + 1, summaries, after)
            },
            (ScanPhase::Reading, ScanEvent::Opened(name, Ok((source, output)))) => {
                exists|page: PageUpscaleQuality|
                    #[trigger] is_new(page, self.pages@.len() as int, name) && page.error is None
                        && self.held(
                        PageUpscaleQuality {
                            source_width: Some(source[0]),
                            source_height: Some(source[1]),
                            output_width: Some(output[0]),
                            output_height: Some(output[1]),
                            ..page
                        },
                        ScanPhase::Running,
                        summaries,
                        after,
                    )
            },
            (ScanPhase::Running, ScanEvent::Compared(compared)) => {
                let label = self.cases@[self.page->0.runs@.len() as int].label_spec();
                let summarized = scan::summarized(summaries, label, measured(compared));
                exists|page: PageUpscaleQuality|
                    #[trigger] entered(self.page->0, page, label, compared) && self.advanced(
                        page,
                        summarized,
                        after,
                    )
            },
            (ScanPhase::Running, ScanEvent::NoPicture(error)) => {
                match self.cases@[self.page->0.runs@.len() as int] {
                    ScanCase::Cpu(_) => after == self,
                    ScanCase::Gpu(method) => exists|page: PageUpscaleQuality|
                        #[trigger] entered(self.page->0, page, method.label_spec(), Err(error))
                            && self.advanced(page, summaries, after),
                }
            },
            (ScanPhase::Writing, ScanEvent::Written(written)) => {
                exists|page: PageUpscaleQuality|
                    #[trigger] settled(self.page->0, page, written) && self.closed(
                        page,
                        self.failures + if written is Err {
                            1int
                        } else {
                            0
                        },
                        summaries,
                        after,
                    )
            },
            _ => after == self,
        }
    }

    /// A scan of so many pages, with these upscalers, with or without their pictures written.
    pub fn new(page_count: usize, cases: Vec<ScanCase>, visuals: bool) -> (scan: ScanLoop)
        requires
            cases@.len() > 0,
        ensures
            scan.page_count == page_count && scan.cases == cases && scan.visuals == visuals,
            scan.failures == 0,
            scan.pages@.len() == 0,
            scan.summaries@.len() == 0,
            scan.page is None,
            scan.phase == if page_count == 0 {
                ScanPhase::Done
            } else {
                ScanPhase::Reading
            },
            scan.wf(),
    {
        ScanLoop {
            page_count,
            cases,
            visuals,
            failures: 0,
            pages: Vec::new(),
            summaries: Vec::new(),
            page: None,
            phase: if page_count == 0 {
                ScanPhase::Done
            } else {
                ScanPhase::Reading
            },
        }
    }

    /// What is to be done next.
    pub fn action(&self) -> (action: ScanAction)
        requires
            self.wf(),
        ensures
            action == self.demanded(),
    {
        match self.phase {
            ScanPhase::Reading => ScanAction::Read(self.pages.len()),
            ScanPhase::Running => match &self.page {
                Some(page) => ScanAction::Run(self.cases[page.runs.len()]),
                None => ScanAction::Finish,
            },
            ScanPhase::Writing => ScanAction::Write(self.pages.len()),
            ScanPhase::Done => ScanAction::Finish,
        }
    }

    /// Enters a page that is done.
    fn close(&mut self, page: PageUpscaleQuality)
        requires
            old(self).cases@.len() > 0,
            old(self).page is None,
            old(self).pages@.len() < old(self).page_count,
            old(self).failures == failed_pages(old(self).pages@) + if page.error is Some {
                1nat
            } else {
                0nat
            },
            forall|i: int|
                0 <= i < old(self).pages@.len() ==> is_scanned(
                    #[trigger] old(self).pages@[i],
                    old(self).cases@,
                    i,
                ),
            is_scanned(page, old(self).cases@, old(self).pages@.len() as int),
            scan::in_order(scan::summary_views(old(self).summaries@)),
        ensures
            old(self).closed(
                page,
                old(self).failures as int,
                scan::summary_views(old(self).summaries@),
                *final(self),
            ),
            final(self).wf(),
    {
        self.pages.push(page);
        assert(self.pages@.drop_last() =~= old(self).pages@);
        self.phase = if self.pages.len() == self.page_count {
            ScanPhase::Done
        } else {
            ScanPhase::Reading
        };
    }

    /// Takes a page with a run more to the next upscaler, or behind the last one.
    fn advance(&mut self, page: PageUpscaleQuality)
        requires
            old(self).cases@.len() > 0,
            old(self).page is None,
            old(self).pages@.len() < old(self).page_count,
            old(self).failures == failed_pages(old(self).pages@),
            forall|i: int|
                0 <= i < old(self).pages@.len() ==> is_scanned(
                    #[trigger] old(self).pages@[i],
                    old(self).cases@,
                    i,
                ),
            page.index == old(self).pages@.len(),
            page.error is None,
            runs_in_order(page, old(self).cases@),
            scan::in_order(scan::summary_views(old(self).summaries@)),
        ensures
            old(self).advanced(page, scan::summary_views(old(self).summaries@), *final(self)),
            final(self).wf(),
    {
        if page.runs.len() < self.cases.len() {
            self.phase = ScanPhase::Running;
            self.page = Some(page);
        } else if self.visuals {
            self.phase = ScanPhase::Writing;
            self.page = Some(page);
        } else {
            self.close(page);
        }
    }

    /// What to do next, given what came of the last action: see `stepped`.
    pub fn step(&mut self, event: ScanEvent) -> (action: ScanAction)
        requires
            old(self).wf(),
        ensures
            old(self).stepped(event, *final(self)),
            final(self).wf(),
            action == final(self).demanded(),
    {
        proof {
            lemma_failures_are_bounded(self.pages@);
        }
        match (self.phase, event) {
            (ScanPhase::Reading, ScanEvent::Opened(name, opened)) => {
                let mut page = new_page(self.pages.len(), name);
                let ghost fresh = page;
                match opened {
                    Ok((source, output)) => {
                        assert(is_new(fresh, old(self).pages@.len() as int, name));
                        set_sizes(&mut page, source, output);
                        self.phase = ScanPhase::Running;
                        self.page = Some(page);
                        assert(old(self).held(
                            PageUpscaleQuality {
                                source_width: Some(source[0]),
                                source_height: Some(source[1]),
                                output_width: Some(output[0]),
                                output_height: Some(output[1]),
                                ..fresh
                            },
                            ScanPhase::Running,
                            scan::summary_views(old(self).summaries@),
                            *self,
                        ));
                    },
                    Err(error) => {
                        let mut failures: usize = self.failures;
                        fail_page(&mut page, &mut failures, error);
                        self.failures = failures;
                        let ghost failed = page;
                        assert(is_new(failed, old(self).pages@.len() as int, name));
                        self.close(page);
                        assert(old(self).closed(
                            failed,
                            old(self).failures + 1,
                            scan::summary_views(old(self).summaries@),
                            *self,
                        ));
                    },
                }
            },
            (ScanPhase::Running, ScanEvent::Compared(compared)) => {
                if let Some(mut page) = self.page.take() {
                    let case = self.cases[page.runs.len()];
                    let ghost before = page;
                    let ghost summaries = scan::summary_views(self.summaries@);
                    let ghost metrics = measured(compared);
                    push_run(case.label(), compared, &mut page, &mut self.summaries);
                    proof {
                        scan::summaries_stay_in_order(summaries, case.label_spec(), metrics);
                        lemma_runs_in_order(before, page, self.cases@);
                    }
                    let ghost entered_page = page;
                    self.advance(page);
                    assert(entered(before, entered_page, case.label_spec(), compared));
                    assert(old(self).advanced(
                        entered_page,
                        scan::summarized(summaries, case.label_spec(), metrics),
                        *self,
                    ));
                }
            },
            (ScanPhase::Running, ScanEvent::NoPicture(error)) => {
                let case = match &self.page {
                    Some(page) => self.cases[page.runs.len()],
                    None => {
                        return ScanAction::Finish;
                    },
                };
                if let ScanCase::Gpu(method) = case {
                    if let Some(mut page) = self.page.take() {
                        let ghost before = page;
                        push_failed_run(method, error, &mut page);
                        proof {
                            lemma_runs_in_order(before, page, self.cases@);
                        }
                        let ghost entered_page = page;
                        self.advance(page);
                        assert(entered(before, entered_page, method.label_spec(), Err(error)));
                        assert(old(self).advanced(
                            entered_page,
                            scan::summary_views(old(self).summaries@),
                            *self,
                        ));
                    }
                }
            },
            (ScanPhase::Writing, ScanEvent::Written(written)) => {
                if let Some(mut page) = self.page.take() {
                    let ghost before = page;
                    let mut failures: usize = self.failures;
                    settle_visuals(&mut page, &mut failures, written);
                    self.failures = failures;
                    let ghost settled_page = page;
                    self.close(page);
                    assert(settled(before, settled_page, written));
                    assert(old(self).closed(
                        settled_page,
                        old(self).failures + if written is Err {
                            1int
                        } else {
                            0
                        },
                        scan::summary_views(old(self).summaries@),
                        *self,
                    ));
                }
            },
            _ => {},
        }
        self.action()
    }
}

proof fn lemma_failures_are_bounded(pages: Seq<PageUpscaleQuality>)
    ensures
        failed_pages(pages) <= pages.len(),
    decreases pages.len(),
{
    if pages.len() > 0 {
        lemma_failures_are_bounded(pages.drop_last());
    }
}

proof fn lemma_runs_in_order(
    before: PageUpscaleQuality,
    after: PageUpscaleQuality,
    cases: Seq<ScanCase>,
)
    requires
        runs_in_order(before, cases),
        before.runs@.len() < cases.len(),
        after.runs@.len() == before.runs@.len() + 1,
        after.runs@.drop_last() == before.runs@,
        after.runs@.last().method@ == cases[before.runs@.len() as int].label_spec(),
    ensures
        runs_in_order(after, cases),
{
    assert forall|k: int| 0 <= k < after.runs@.len() implies (#[trigger] after.runs@[k]).method@
        == cases[k].label_spec() by {
        if k < before.runs@.len() {
            assert(after.runs@[k] == after.runs@.drop_last()[k]);
        }
    }
}

/// A scan that is done has all its pages, each with a run of every upscaler in the order in which
/// they are asked for, unless the page could not be read; and it has failed as often as pages have
/// an error.
pub proof fn finished_scans_are_complete(scan: ScanLoop, page: int, case: int)
    requires
        scan.wf(),
        scan.phase == ScanPhase::Done,
        0 <= page < scan.page_count,
        0 <= case < scan.cases@.len(),
    ensures
        scan.pages@.len() == scan.page_count,
        scan.failures == failed_pages(scan.pages@),
        scan.failures <= scan.page_count,
        scan.pages@[page].index == page,
        scan.pages@[page].error is None ==> scan.pages@[page].runs@.len() == scan.cases@.len()
            && scan.pages@[page].runs@[case].method@ == scan.cases@[case].label_spec(),
{
    lemma_failures_are_bounded(scan.pages@);
    assert(is_scanned(scan.pages@[page], scan.cases@, page));
}

/// Every page with an error counts as one failure, and no other page counts.
pub proof fn every_failed_page_counts_once(pages: Seq<PageUpscaleQuality>, page: PageUpscaleQuality, i: int)
    ensures
        failed_pages(pages.push(page)) == failed_pages(pages) + (if page.error is Some {
            1nat
        } else {
            0nat
        }),
        0 <= i < pages.len() && pages[i].error is Some ==> failed_pages(pages) > 0,
        (forall|k: int| 0 <= k < pages.len() ==> (#[trigger] pages[k]).error is None)
            ==> failed_pages(pages) == 0,
    decreases pages.len(),
{
    assert(pages.push(page).drop_last() =~= pages);
    if pages.len() > 0 {
        let before = pages.drop_last();
        every_failed_page_counts_once(before, page, i);
        if 0 <= i < pages.len() - 1 {
            assert(before[i] == pages[i]);
        }
        if forall|k: int| 0 <= k < pages.len() ==> (#[trigger] pages[k]).error is None {
            assert forall|k: int| 0 <= k < before.len() implies (#[trigger] before[k]).error is None by {
                assert(before[k] == pages[k]);
            }
            assert(pages[pages.len() - 1].error is None);
        }
    }
}

/// What is asked for is what the scan waits for: the page after those that are done is read, the
/// upscaler that is run is the one under whose name the outcome is entered, and pictures are written
/// of the page that is being scanned.
pub proof fn what_is_asked_for_is_entered(scan: ScanLoop, event: ScanEvent, after: ScanLoop)
    requires
        scan.wf(),
        scan.stepped(event, after),
    ensures
        scan.demanded() matches ScanAction::Read(index) ==> scan.phase == ScanPhase::Reading && (event
            matches ScanEvent::Opened(name, opened) ==> {
            &&& opened matches Ok((source, output)) ==> {
                let page = after.page->0;
                &&& after.page is Some && page.index == index && page.name == name
                &&& page.source_width == Some(source[0]) && page.source_height == Some(source[1])
                &&& page.output_width == Some(output[0]) && page.output_height == Some(output[1])
                &&& page.runs@.len() == 0
            }
            &&& opened matches Err(error) ==> after.pages@.len() == scan.pages@.len() + 1
                && after.pages@.last().index == index && after.pages@.last().name == name
                && after.pages@.last().error == Some(error) && after.failures == scan.failures + 1
        }),
        scan.demanded() matches ScanAction::Run(case) ==> scan.phase == ScanPhase::Running && (event
            matches ScanEvent::Compared(compared) ==> {
            let page = if after.page is Some {
                after.page->0
            } else {
                after.pages@.last()
            };
            &&& page.runs@.len() == scan.page->0.runs@.len() + 1
            &&& page.runs@.last().method@ == case.label_spec()
            &&& compared matches Ok(metrics) ==> page.runs@.last().metrics == metrics
                && page.runs@.last().error is None
            &&& compared matches Err(error) ==> page.runs@.last().error == Some(error)
        }),
        scan.demanded() == ScanAction::Finish <==> scan.phase == ScanPhase::Done,
        scan.demanded() is Write <==> scan.phase == ScanPhase::Writing,
{
}

/// A page is done once every upscaler has run on it, and after that its pictures are written where that
/// is asked for. Until every upscaler has run, the next one does.
pub proof fn pictures_are_written_behind_the_last_run(
    scan: ScanLoop,
    page: PageUpscaleQuality,
    summaries: Seq<scan::SummaryView>,
    after: ScanLoop,
)
    requires
        scan.advanced(page, summaries, after),
    ensures
        page.runs@.len() < scan.cases@.len() ==> after.phase == ScanPhase::Running && after.pages
            == scan.pages && after.page == Some(page),
        page.runs@.len() >= scan.cases@.len() && scan.visuals ==> after.phase == ScanPhase::Writing
            && after.pages == scan.pages && after.page == Some(page),
        page.runs@.len() >= scan.cases@.len() && !scan.visuals ==> after.pages@ == scan.pages@.push(page)
            && after.page is None && after.phase != ScanPhase::Writing,
        after.cases == scan.cases && after.page_count == scan.page_count && after.failures
            == scan.failures,
{
}

} // verus!
