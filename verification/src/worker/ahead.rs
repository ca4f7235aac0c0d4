//! Pages that are read or decoded while another one is prepared.
use crate::source::{BookSnapshot, PageId};
use crate::text;
use crate::worker::api::{DecodeOptions, PageView, PreparedPage, WorkerOptions};
use crate::worker::cache::{
    holds_page, page_cache_key, should_skip_published_app_cache_hint, PublishedAppCacheHints,
};
use crate::worker::decode_policy::DecodeAheadCandidate;
use crate::worker::scheduler::{is_visible_page_index, should_skip_ai_preview_or_prefetch, PageJob};
use lru::LruCache;
use std::sync::Arc;
use vstd::prelude::*;

verus! {

/// A page that is being read ahead. A cancelled one keeps its lane until the read is over.
pub struct ReadAhead {
    pub book_id: String,
    pub book_epoch: usize,
    pub page_id: PageId,
    pub index: usize,
    pub cancelled: bool,
}

/// Such a page as plain data.
pub struct ReadAheadView {
    pub book_id: Seq<char>,
    pub book_epoch: usize,
    pub page_id: PageId,
    pub index: usize,
    pub cancelled: bool,
}

impl View for ReadAhead {
    type V = ReadAheadView;

    open spec fn view(&self) -> ReadAheadView {
        ReadAheadView {
            book_id: self.book_id@,
            book_epoch: self.book_epoch,
            page_id: self.page_id,
            index: self.index,
            cancelled: self.cancelled,
        }
    }
}

/// A page that is being decoded ahead.
pub struct DecodeAhead {
    pub book_id: String,
    pub book_epoch: usize,
    pub page_id: PageId,
    pub index: usize,
    pub target_long_edge: u32,
    pub decode: DecodeOptions,
    pub cancelled: bool,
}

/// Such a page as plain data.
pub struct DecodeAheadView {
    pub book_id: Seq<char>,
    pub book_epoch: usize,
    pub page_id: PageId,
    pub index: usize,
    pub target_long_edge: u32,
    pub decode: DecodeOptions,
    pub cancelled: bool,
}

impl View for DecodeAhead {
    type V = DecodeAheadView;

    open spec fn view(&self) -> DecodeAheadView {
        DecodeAheadView {
            book_id: self.book_id@,
            book_epoch: self.book_epoch,
            page_id: self.page_id,
            index: self.index,
            target_long_edge: self.target_long_edge,
            decode: self.decode,
            cancelled: self.cancelled,
        }
    }
}

/// What is being read ahead, as plain data.
pub open spec fn read_lane(pending: Option<ReadAhead>) -> Option<ReadAheadView> {
    match pending {
        Some(read) => Some(read@),
        None => None,
    }
}

/// What is being decoded ahead, as plain data.
pub open spec fn decode_lane(pending: Option<DecodeAhead>) -> Option<DecodeAheadView> {
    match pending {
        Some(decode) => Some(decode@),
        None => None,
    }
}

impl ReadAheadView {
    /// Whether this is the page asked for, and still wanted.
    pub open spec fn matches(self, book_id: Seq<char>, book_epoch: usize, page_id: PageId) -> bool {
        !self.cancelled && self.book_id == book_id && self.book_epoch == book_epoch && self.page_id
            == page_id
    }
}

impl DecodeAheadView {
    /// Whether this is the page asked for, and still wanted.
    pub open spec fn matches(
        self,
        book_id: Seq<char>,
        book_epoch: usize,
        page_id: PageId,
        target_long_edge: u32,
        decode: DecodeOptions,
    ) -> bool {
        !self.cancelled && self.book_id == book_id && self.book_epoch == book_epoch && self.page_id
            == page_id && self.target_long_edge == target_long_edge && self.decode == decode
    }

    /// Whether a job asks for the same page at the same size.
    pub open spec fn is_job(self, source: BookSnapshot, job: PageJob) -> bool {
        source.id_at(job.index as int) == Some(self.page_id) && self.target_long_edge
            == job.target_long_edge
    }
}

impl ReadAhead {
    pub fn matches(&self, book_id: &str, book_epoch: usize, page_id: PageId) -> (matching: bool)
        ensures
            matching == self@.matches(book_id@, book_epoch, page_id),
    {
        !self.cancelled && text::same_text(self.book_id.as_str(), book_id) && self.book_epoch
            == book_epoch && self.page_id == page_id
    }
}

impl DecodeAhead {
    pub fn matches(
        &self,
        book_id: &str,
        book_epoch: usize,
        page_id: PageId,
        target_long_edge: u32,
        decode: DecodeOptions,
    ) -> (matching: bool)
        ensures
            matching == self@.matches(book_id@, book_epoch, page_id, target_long_edge, decode),
    {
        !self.cancelled && text::same_text(self.book_id.as_str(), book_id) && self.book_epoch
            == book_epoch && self.page_id == page_id && self.target_long_edge == target_long_edge
            && self.decode == decode
    }

    pub fn matches_job(&self, source: &BookSnapshot, job: PageJob) -> (matching: bool)
        ensures
            matching == self@.is_job(*source, job),
    {
        match source.page_id(job.index) {
            Some(page_id) => self.page_id == page_id && self.target_long_edge
                == job.target_long_edge,
            None => false,
        }
    }
}

/// A read that is no longer wanted.
pub open spec fn cancelled_read(pending: Option<ReadAheadView>) -> Option<ReadAheadView> {
    match pending {
        Some(read) => Some(ReadAheadView { cancelled: true, ..read }),
        None => None,
    }
}

/// A decode that is no longer wanted.
pub open spec fn cancelled_decode(pending: Option<DecodeAheadView>) -> Option<DecodeAheadView> {
    match pending {
        Some(decode) => Some(DecodeAheadView { cancelled: true, ..decode }),
        None => None,
    }
}

pub fn cancel_pending(pending: &mut Option<ReadAhead>)
    ensures
        read_lane(*final(pending)) == cancelled_read(read_lane(*old(pending))),
{
    if let Some(read) = pending.take() {
        *pending = Some(ReadAhead { cancelled: true, ..read });
    }
}

pub fn cancel_pending_decode(pending: &mut Option<DecodeAhead>)
    ensures
        decode_lane(*final(pending)) == cancelled_decode(decode_lane(*old(pending))),
{
    if let Some(decode) = pending.take() {
        *pending = Some(DecodeAhead { cancelled: true, ..decode });
    }
}

/// The lane of a read once it is known whether the read is over: a cancelled read that is over
/// leaves it.
pub open spec fn freed_read(pending: Option<ReadAheadView>, finished: bool) -> Option<
    ReadAheadView,
> {
    match pending {
        Some(read) => if read.cancelled && finished {
            None
        } else {
            pending
        },
        None => None,
    }
}

/// The lane of a decode once it is known whether the decode is over.
pub open spec fn freed_decode(pending: Option<DecodeAheadView>, finished: bool) -> Option<
    DecodeAheadView,
> {
    match pending {
        Some(decode) => if decode.cancelled && finished {
            None
        } else {
            pending
        },
        None => None,
    }
}

pub fn discard_finished_read(pending: &mut Option<ReadAhead>, finished: bool)
    ensures
        read_lane(*final(pending)) == freed_read(read_lane(*old(pending)), finished),
{
    if let Some(read) = pending.take() {
        if !(read.cancelled && finished) {
            *pending = Some(read);
        }
    }
}

pub fn discard_finished_decode(pending: &mut Option<DecodeAhead>, finished: bool)
    ensures
        decode_lane(*final(pending)) == freed_decode(decode_lane(*old(pending)), finished),
{
    if let Some(decode) = pending.take() {
        if !(decode.cancelled && finished) {
            *pending = Some(decode);
        }
    }
}

/// Whether a decode is for the context that a request sets.
pub open spec fn in_context(
    pending: Option<DecodeAheadView>,
    book_id: Option<Seq<char>>,
    book_epoch: usize,
    target_long_edge: u32,
    decode: DecodeOptions,
) -> bool {
    pending matches Some(ahead) && Some(ahead.book_id) == book_id && ahead.book_epoch == book_epoch
        && ahead.target_long_edge == target_long_edge && ahead.decode == decode
}

/// Cancels a decode that is for another context.
pub fn clear_pending_decode_if_context_changed(
    pending: &mut Option<DecodeAhead>,
    book_id: Option<&str>,
    book_epoch: usize,
    target_long_edge: u32,
    decode: DecodeOptions,
)
    ensures
        decode_lane(*final(pending)) == if in_context(
            decode_lane(*old(pending)),
            crate::worker::cache::text_of(book_id),
            book_epoch,
            target_long_edge,
            decode,
        ) {
            decode_lane(*old(pending))
        } else {
            cancelled_decode(decode_lane(*old(pending)))
        },
{
    let kept = match (pending.as_ref(), book_id) {
        (Some(ahead), Some(book_id)) => text::same_text(ahead.book_id.as_str(), book_id)
            && ahead.book_epoch == book_epoch && ahead.target_long_edge == target_long_edge
            && ahead.decode == decode,
        _ => false,
    };
    if !kept {
        cancel_pending_decode(pending);
    }
}

/// Whether a job is worth doing ahead: the page is there, is not left out for what it is, and is
/// neither in the worker's cache nor held by the application.
pub open spec fn wanted_ahead(
    source: BookSnapshot,
    job: PageJob,
    center: usize,
    visible_pages: usize,
    options: WorkerOptions,
    pages: Seq<(Seq<char>, PageView)>,
    hints: Seq<crate::worker::api::CachedPageKey>,
) -> bool {
    match source.id_at(job.index as int) {
        None => false,
        Some(page_id) => {
            &&& !crate::worker::scheduler::skips_ai_page(
                source.name_at(job.index as int),
                center,
                visible_pages,
                job.index,
                job.target_long_edge,
            )
            &&& !crate::worker::cache::has_key(
                pages,
                crate::worker::cache::page_key(
                    source.book_id@,
                    source.cache_id,
                    page_id,
                    job.target_long_edge,
                    options.decode,
                ),
            )
            &&& !crate::worker::api::any_covers(
                options.app_cached_pages@,
                page_id,
                job.target_long_edge,
                options.decode,
            )
            &&& crate::worker::scheduler::is_shown(job.index, center, visible_pages)
                || !crate::worker::api::any_covers(
                hints,
                page_id,
                job.target_long_edge,
                options.decode,
            )
        },
    }
}

/// Whether `job` is the first one from `start` on that is worth doing ahead.
pub open spec fn is_next_job(
    source: BookSnapshot,
    jobs: Seq<PageJob>,
    start: int,
    center: usize,
    visible_pages: usize,
    options: WorkerOptions,
    pages: Seq<(Seq<char>, PageView)>,
    hints: Seq<crate::worker::api::CachedPageKey>,
    job: Option<PageJob>,
) -> bool {
    match job {
        Some(job) => exists|place: int|
            start <= place < jobs.len() && #[trigger] jobs[place] == job && wanted_ahead(
                source,
                job,
                center,
                visible_pages,
                options,
                pages,
                hints,
            ) && forall|k: int|
                start <= k < place ==> !wanted_ahead(
                    source,
                    #[trigger] jobs[k],
                    center,
                    visible_pages,
                    options,
                    pages,
                    hints,
                ),
        None => forall|k: int|
            start <= k < jobs.len() ==> !wanted_ahead(
                source,
                #[trigger] jobs[k],
                center,
                visible_pages,
                options,
                pages,
                hints,
            ),
    }
}

fn is_wanted_ahead(
    source: &BookSnapshot,
    job: PageJob,
    center: usize,
    visible_pages: usize,
    options: &WorkerOptions,
    cache: &LruCache<String, Arc<PreparedPage>>,
    hints: &PublishedAppCacheHints,
) -> (wanted: bool)
    ensures
        wanted == wanted_ahead(
            *source,
            job,
            center,
            visible_pages,
            *options,
            crate::worker::cache::cached_pages(*cache),
            hints@,
        ),
{
    let page_id: PageId = match source.page_id(job.index) {
        Some(page_id) => page_id,
        None => {
            return false;
        },
    };
    if should_skip_ai_preview_or_prefetch(
        source.page_name(job.index),
        center,
        visible_pages,
        job.index,
        job.target_long_edge,
    ) {
        return false;
    }
    let key = page_cache_key(
        source.book_id.as_str(),
        source.cache_id,
        page_id,
        job.target_long_edge,
        options.decode,
    );
    if holds_page(cache, key.as_str()) {
        return false;
    }
    if options.app_cache_covers(page_id, job.target_long_edge) {
        return false;
    }
    !should_skip_published_app_cache_hint(
        hints,
        is_visible_page_index(job.index, center, visible_pages),
        page_id,
        job.target_long_edge,
        options.decode,
    )
}

/// The next job that is worth doing ahead.
pub fn next_job(
    source: &BookSnapshot,
    jobs: &Vec<PageJob>,
    start_position: usize,
    center: usize,
    visible_pages: usize,
    options: &WorkerOptions,
    cache: &LruCache<String, Arc<PreparedPage>>,
    hints: &PublishedAppCacheHints,
) -> (job: Option<PageJob>)
    ensures
        is_next_job(
            *source,
            jobs@,
            start_position as int,
            center,
            visible_pages,
            *options,
            crate::worker::cache::cached_pages(*cache),
            hints@,
            job,
        ),
{
    let mut place: usize = start_position;
    while place < jobs.len()
        invariant
            start_position <= place,
            forall|k: int|
                start_position <= k < place && k < jobs@.len() ==> !wanted_ahead(
                    *source,
                    #[trigger] jobs@[k],
                    center,
                    visible_pages,
                    *options,
                    crate::worker::cache::cached_pages(*cache),
                    hints@,
                ),
        decreases jobs.len() - place,
    {
        if is_wanted_ahead(source, jobs[place], center, visible_pages, options, cache, hints) {
            assert(jobs@[place as int] == jobs[place as int]);
            return Some(jobs[place]);
        }
        place = place + 1;
    }
    None
}

/// Whether a decode is still the next thing worth doing when its own job comes up.
pub open spec fn still_scheduled(
    pending: Option<DecodeAheadView>,
    source: BookSnapshot,
    book_epoch: usize,
    jobs: Seq<PageJob>,
    center: usize,
    visible_pages: usize,
    options: WorkerOptions,
    pages: Seq<(Seq<char>, PageView)>,
    hints: Seq<crate::worker::api::CachedPageKey>,
) -> bool {
    &&& pending matches Some(ahead)
    &&& !ahead.cancelled
    &&& ahead.book_id == source.book_id@
    &&& ahead.book_epoch == book_epoch
    &&& ahead.decode == options.decode
    &&& exists|place: int, next: PageJob|
        {
            &&& 0 <= place < jobs.len()
            &&& ahead.is_job(source, #[trigger] jobs[place])
            &&& forall|k: int| 0 <= k < place ==> !ahead.is_job(source, #[trigger] jobs[k])
            &&& #[trigger] is_next_job(
                source,
                jobs,
                place,
                center,
                visible_pages,
                options,
                pages,
                hints,
                Some(next),
            )
            &&& ahead.is_job(source, next)
        }
}

proof fn lemma_next_job_is_unique(
    source: BookSnapshot,
    jobs: Seq<PageJob>,
    start: int,
    center: usize,
    visible_pages: usize,
    options: WorkerOptions,
    pages: Seq<(Seq<char>, PageView)>,
    hints: Seq<crate::worker::api::CachedPageKey>,
    one: Option<PageJob>,
    other: Option<PageJob>,
)
    requires
        is_next_job(source, jobs, start, center, visible_pages, options, pages, hints, one),
        is_next_job(source, jobs, start, center, visible_pages, options, pages, hints, other),
    ensures
        one == other,
{
}

/// Cancels a decode that the schedule no longer leads to.
pub fn cancel_pending_decode_if_not_scheduled(
    pending: &mut Option<DecodeAhead>,
    source: &BookSnapshot,
    book_epoch: usize,
    jobs: &Vec<PageJob>,
    center: usize,
    visible_pages: usize,
    options: &WorkerOptions,
    cache: &LruCache<String, Arc<PreparedPage>>,
    hints: &PublishedAppCacheHints,
)
    ensures
        decode_lane(*final(pending)) == if still_scheduled(
            decode_lane(*old(pending)),
            *source,
            book_epoch,
            jobs@,
            center,
            visible_pages,
            *options,
            crate::worker::cache::cached_pages(*cache),
            hints@,
        ) {
            decode_lane(*old(pending))
        } else {
            cancelled_decode(decode_lane(*old(pending)))
        },
{
    let ahead: DecodeAhead = match pending.take() {
        Some(ahead) => ahead,
        None => {
            return;
        },
    };
    let ghost pages = crate::worker::cache::cached_pages(*cache);
    let mut kept = false;
    if !ahead.cancelled && text::same_text(ahead.book_id.as_str(), source.book_id.as_str())
        && ahead.book_epoch == book_epoch && ahead.decode == options.decode {
        let mut place: usize = 0;
        let mut found = false;
        while place < jobs.len()
            invariant_except_break
                !found,
            invariant
                place <= jobs@.len(),
                forall|k: int| 0 <= k < place ==> !ahead@.is_job(*source, #[trigger] jobs@[k]),
            ensures
                found ==> place < jobs@.len() && ahead@.is_job(*source, jobs@[place as int]),
                forall|k: int| 0 <= k < place ==> !ahead@.is_job(*source, #[trigger] jobs@[k]),
                !found ==> place == jobs@.len(),
            decreases jobs.len() - place,
        {
            if ahead.matches_job(source, jobs[place]) {
                found = true;
                break;
            }
            place = place + 1;
        }
        if found {
            let next = next_job(source, jobs, place, center, visible_pages, options, cache, hints);
            if let Some(job) = next {
                kept = ahead.matches_job(source, job);
            }
            proof {
                let state = still_scheduled(
                    Some(ahead@),
                    *source,
                    book_epoch,
                    jobs@,
                    center,
                    visible_pages,
                    *options,
                    pages,
                    hints@,
                );
                if kept {
                    assert(ahead@.is_job(*source, jobs@[place as int]));
                    assert(state);
                } else if state {
                    let (p, n) = choose|p: int, n: PageJob|
                        {
                            &&& 0 <= p < jobs@.len()
                            &&& ahead@.is_job(*source, #[trigger] jobs@[p])
                            &&& forall|k: int|
                                0 <= k < p ==> !ahead@.is_job(*source, #[trigger] jobs@[k])
                            &&& #[trigger] is_next_job(
                                *source,
                                jobs@,
                                p,
                                center,
                                visible_pages,
                                *options,
                                pages,
                                hints@,
                                Some(n),
                            )
                            &&& ahead@.is_job(*source, n)
                        };
                    assert(p == place) by {
                        if p < place {
                            assert(!ahead@.is_job(*source, jobs@[p]));
                        } else if place < p {
                            assert(!ahead@.is_job(*source, jobs@[place as int]));
                        }
                    }
                    lemma_next_job_is_unique(
                        *source,
                        jobs@,
                        p,
                        center,
                        visible_pages,
                        *options,
                        pages,
                        hints@,
                        Some(n),
                        next,
                    );
                }
            }
        } else {
            assert(!still_scheduled(
                Some(ahead@),
                *source,
                book_epoch,
                jobs@,
                center,
                visible_pages,
                *options,
                pages,
                hints@,
            ));
        }
    }
    *pending = Some(ahead);
    if !kept {
        cancel_pending_decode(pending);
    }
}

/// Whether a job of the schedule is for a page.
pub open spec fn schedules(source: BookSnapshot, jobs: Seq<PageJob>, page_id: PageId) -> bool {
    exists|k: int|
        0 <= k < jobs.len() && source.id_at((#[trigger] jobs[k]).index as int) == Some(page_id)
}

pub fn is_scheduled(source: &BookSnapshot, jobs: &Vec<PageJob>, page_id: PageId) -> (scheduled: bool)
    ensures
        scheduled == schedules(*source, jobs@, page_id),
{
    let mut k: usize = 0;
    while k < jobs.len()
        invariant
            k <= jobs@.len(),
            forall|i: int|
                0 <= i < k ==> source.id_at((#[trigger] jobs@[i]).index as int) != Some(page_id),
        decreases jobs.len() - k,
    {
        match source.page_id(jobs[k].index) {
            Some(found) => {
                if found == page_id {
                    assert(source.id_at(jobs@[k as int].index as int) == Some(page_id));
                    return true;
                }
            },
            None => {},
        }
        k = k + 1;
    }
    false
}

/// Cancels a read that no job asks for.
pub fn cancel_if_not_scheduled(
    pending: &mut Option<ReadAhead>,
    source: &BookSnapshot,
    book_epoch: usize,
    jobs: &Vec<PageJob>,
)
    ensures
        read_lane(*final(pending)) == match read_lane(*old(pending)) {
            Some(read) => if read.book_epoch == book_epoch && schedules(
                *source,
                jobs@,
                read.page_id,
            ) {
                Some(read)
            } else {
                cancelled_read(Some(read))
            },
            None => None,
        },
{
    let read: ReadAhead = match pending.take() {
        Some(read) => read,
        None => {
            return;
        },
    };
    let kept = read.book_epoch == book_epoch && is_scheduled(source, jobs, read.page_id);
    *pending = Some(read);
    if !kept {
        cancel_pending(pending);
    }
}

/// What is started beside the page that is being prepared.
pub enum Overlap {
    Nothing,
    Read(PageJob, PageId),
    Decode(PageJob, PageId),
}

/// What is to be started, given that both lanes are free: a decode where the policy offers the
/// next job for it, a read otherwise. Nothing is started while a command waits.
pub open spec fn is_overlap(
    source: BookSnapshot,
    candidate: Option<DecodeAheadCandidate>,
    commands_waiting: bool,
    next: Option<PageJob>,
    overlap: Overlap,
) -> bool {
    if commands_waiting || next is None {
        overlap is Nothing
    } else {
        let job = next->0;
        let page = source.id_at(job.index as int);
        if candidate is Some && source.concurrent_reads && candidate->0.matches_spec(
            source,
            job.index as int,
        ) {
            page is Some && overlap == Overlap::Decode(job, page->0)
        } else {
            page is Some && overlap == Overlap::Read(job, page->0)
        }
    }
}

/// Decides what to start beside the page that is being prepared: see `is_overlap`.
pub fn choose_overlap(
    source: &BookSnapshot,
    jobs: &Vec<PageJob>,
    start_position: usize,
    center: usize,
    visible_pages: usize,
    options: &WorkerOptions,
    cache: &LruCache<String, Arc<PreparedPage>>,
    hints: &PublishedAppCacheHints,
    candidate: Option<DecodeAheadCandidate>,
    commands_waiting: bool,
) -> (overlap: Overlap)
    ensures
        exists|next: Option<PageJob>|
            #[trigger] is_next_job(
                *source,
                jobs@,
                start_position as int,
                center,
                visible_pages,
                *options,
                crate::worker::cache::cached_pages(*cache),
                hints@,
                next,
            ) && is_overlap(*source, candidate, commands_waiting, next, overlap),
{
    let next = next_job(
        source,
        jobs,
        start_position,
        center,
        visible_pages,
        options,
        cache,
        hints,
    );
    if commands_waiting {
        return Overlap::Nothing;
    }
    let job: PageJob = match next {
        Some(job) => job,
        None => {
            return Overlap::Nothing;
        },
    };
    let page_id: PageId = match source.page_id(job.index) {
        Some(page_id) => page_id,
        None => {
            return Overlap::Nothing;
        },
    };
    if let Some(candidate) = candidate {
        if source.concurrent_reads && candidate.matches_job(source, job.index) {
            return Overlap::Decode(job, page_id);
        }
    }
    Overlap::Read(job, page_id)
}

/// What was cancelled is never taken for a page asked for, and its lane is freed once it is over; what
/// was not cancelled keeps its lane.
pub proof fn cancelled_work_is_never_used(
    read: ReadAheadView,
    ahead: DecodeAheadView,
    book_id: Seq<char>,
    book_epoch: usize,
    page_id: PageId,
    target_long_edge: u32,
    decode: DecodeOptions,
    finished: bool,
)
    ensures
        cancelled_read(Some(read)) matches Some(after) && !after.matches(
            book_id,
            book_epoch,
            page_id,
        ) && after.page_id == read.page_id,
        cancelled_decode(Some(ahead)) matches Some(after) && !after.matches(
            book_id,
            book_epoch,
            page_id,
            target_long_edge,
            decode,
        ) && after.page_id == ahead.page_id,
        freed_read(cancelled_read(Some(read)), true) is None,
        freed_decode(cancelled_decode(Some(ahead)), true) is None,
        !read.cancelled || !finished ==> freed_read(Some(read), finished) == Some(read),
        !ahead.cancelled || !finished ==> freed_decode(Some(ahead), finished) == Some(ahead),
        read.matches(book_id, book_epoch, page_id) ==> read.book_id == book_id && read.book_epoch
            == book_epoch && read.page_id == page_id,
        ahead.matches(book_id, book_epoch, page_id, target_long_edge, decode) ==> ahead.book_id
            == book_id && ahead.book_epoch == book_epoch && ahead.page_id == page_id
            && ahead.target_long_edge == target_long_edge && ahead.decode == decode,
{
}

/// A page that is at hand is not worked on ahead: neither one in the worker's cache nor one that the
/// application holds. A page of the book that nobody holds is, unless it is an Illustrator file that
/// is left out.
pub proof fn pages_at_hand_are_not_worked_on(
    source: BookSnapshot,
    job: PageJob,
    center: usize,
    visible_pages: usize,
    options: WorkerOptions,
    pages: Seq<(Seq<char>, PageView)>,
    hints: Seq<crate::worker::api::CachedPageKey>,
    i: int,
)
    requires
        job.index < source.pages@.len(),
    ensures
        ({
            let page_id = source.pages@[job.index as int].page_id;
            let key = crate::worker::cache::page_key(
                source.book_id@,
                source.cache_id,
                page_id,
                job.target_long_edge,
                options.decode,
            );
            let wanted = wanted_ahead(source, job, center, visible_pages, options, pages, hints);
            &&& 0 <= i < pages.len() && pages[i].0 == key ==> !wanted
            &&& 0 <= i < options.app_cached_pages@.len() && options.app_cached_pages@[i].covers_spec(
                page_id,
                job.target_long_edge,
                options.decode,
            ) ==> !wanted
            &&& 0 <= i < hints.len() && hints[i].covers_spec(
                page_id,
                job.target_long_edge,
                options.decode,
            ) && !crate::worker::scheduler::is_shown(job.index, center, visible_pages) ==> !wanted
            &&& pages.len() == 0 && options.app_cached_pages@.len() == 0 && (hints.len() == 0
                || crate::worker::scheduler::is_shown(job.index, center, visible_pages))
                && !crate::text::has_extension_spec(
                source.pages@[job.index as int].name@,
                "ai"@,
            ) ==> wanted
        }),
        !wanted_ahead(
            source,
            PageJob { index: usize::MAX, ..job },
            center,
            visible_pages,
            options,
            pages,
            hints,
        ) || source.pages@.len() > usize::MAX,
{
}

/// Nothing is started while a command waits or where there is no job. Otherwise the next job's own
/// page is started: decoded where the policy offers it and pages can be read side by side, and read
/// where not.
pub proof fn the_next_page_is_started(
    source: BookSnapshot,
    candidate: Option<DecodeAheadCandidate>,
    job: PageJob,
    overlap: Overlap,
)
    requires
        job.index < source.pages@.len(),
        is_overlap(source, candidate, false, Some(job), overlap),
    ensures
        !(overlap is Nothing),
        overlap matches Overlap::Read(started, page_id) ==> started == job && page_id
            == source.pages@[job.index as int].page_id,
        overlap matches Overlap::Decode(started, page_id) ==> {
            &&& started == job && page_id == source.pages@[job.index as int].page_id
            &&& source.concurrent_reads && candidate is Some
        },
        candidate == Some(DecodeAheadCandidate::Any) && source.concurrent_reads ==> overlap is Decode,
        candidate is None || !source.concurrent_reads ==> overlap is Read,
        is_overlap(source, candidate, true, Some(job), Overlap::Nothing),
        !is_overlap(source, candidate, true, Some(job), overlap),
{
}

/// A decode stays of use only for its own book and epoch, at its own size and in its own way to
/// decode.
pub proof fn decodes_belong_to_their_context(
    ahead: DecodeAheadView,
    book_id: Option<Seq<char>>,
    book_epoch: usize,
    target_long_edge: u32,
    decode: DecodeOptions,
)
    ensures
        in_context(Some(ahead), book_id, book_epoch, target_long_edge, decode) ==> book_id == Some(
            ahead.book_id,
        ) && book_epoch == ahead.book_epoch && target_long_edge == ahead.target_long_edge && decode
            == ahead.decode,
        in_context(
            Some(ahead),
            Some(ahead.book_id),
            ahead.book_epoch,
            ahead.target_long_edge,
            ahead.decode,
        ),
        !in_context(None, book_id, book_epoch, target_long_edge, decode),
{
}

/// A decode that is still scheduled is not cancelled, belongs to the book and the epoch, is decoded as
/// the request asks, and has a job that asks for its page at its size.
pub proof fn scheduled_decodes_have_a_job(
    ahead: DecodeAheadView,
    source: BookSnapshot,
    book_epoch: usize,
    jobs: Seq<PageJob>,
    center: usize,
    visible_pages: usize,
    options: WorkerOptions,
    pages: Seq<(Seq<char>, PageView)>,
    hints: Seq<crate::worker::api::CachedPageKey>,
) -> (place: int)
    requires
        still_scheduled(
            Some(ahead),
            source,
            book_epoch,
            jobs,
            center,
            visible_pages,
            options,
            pages,
            hints,
        ),
    ensures
        !ahead.cancelled && ahead.book_id == source.book_id@ && ahead.book_epoch == book_epoch
            && ahead.decode == options.decode,
        0 <= place < jobs.len(),
        jobs[place].index < source.pages@.len(),
        source.pages@[jobs[place].index as int].page_id == ahead.page_id,
        jobs[place].target_long_edge == ahead.target_long_edge,
        wanted_ahead(source, jobs[place], center, visible_pages, options, pages, hints),
{
    let (start, next) = choose|place: int, next: PageJob|
        {
            &&& 0 <= place < jobs.len()
            &&& ahead.is_job(source, #[trigger] jobs[place])
            &&& forall|k: int| 0 <= k < place ==> !ahead.is_job(source, #[trigger] jobs[k])
            &&& #[trigger] is_next_job(
                source,
                jobs,
                place,
                center,
                visible_pages,
                options,
                pages,
                hints,
                Some(next),
            )
            &&& ahead.is_job(source, next)
        };
    let found = choose|place: int|
        start <= place < jobs.len() && #[trigger] jobs[place] == next && wanted_ahead(
            source,
            next,
            center,
            visible_pages,
            options,
            pages,
            hints,
        ) && forall|k: int|
            start <= k < place ==> !wanted_ahead(
                source,
                #[trigger] jobs[k],
                center,
                visible_pages,
                options,
                pages,
                hints,
            );
    found
}

} // verus!
