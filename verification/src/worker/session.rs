//! One place where a command changes the book, the request and what is being worked on. Encoded
//! bytes survive changes of size and policy within the same snapshot.
use crate::source::{BookSnapshot, PageId};
use crate::worker::ahead::{
    cancel_if_not_scheduled, cancel_pending, cancel_pending_decode_if_not_scheduled,
    clear_pending_decode_if_context_changed, is_scheduled, DecodeAhead, DecodeAheadView, ReadAhead,
    ReadAheadView,
};
use crate::worker::api::{
    CachedPageKey, DecodeOptions, NavigationDirection, PageView, PreparedPage, WorkerCommand,
    WorkerOptions, DEFAULT_TARGET_LONG_EDGE, WORKER_CACHE_BYTES,
};
use crate::worker::cache::{
    clear_cache_on_source_or_decode_change, clear_published_app_cache_hints_on_context_change,
    list_pages, new_page_cache, prune_worker_cache, update_book_epoch, PublishedAppCacheHints,
};
use crate::worker::decode_policy::DecodeAheadPolicy;
use crate::worker::scheduler::PageJob;
use crate::worker::source_bytes::{SourceBytesCache, SourceBytesView, SourcePageBytes};
use lru::LruCache;
use std::sync::Arc;
use vstd::prelude::*;

verus! {

/// How many prepared pages the worker keeps.
pub const WORKER_CACHE_PAGES: usize = 12;

/// A page that was read but not yet prepared.
pub struct CompletedRead {
    pub epoch: usize,
    pub page_id: PageId,
    pub bytes: Result<SourcePageBytes, String>,
}

/// A page that was prepared but not yet published.
pub struct CompletedPage {
    pub epoch: usize,
    pub page_id: PageId,
    pub decode: DecodeOptions,
    pub page: Arc<PreparedPage>,
}

/// All that the worker knows between two commands.
pub struct WorkerSession {
    pub source: Option<BookSnapshot>,
    pub center: usize,
    pub direction: NavigationDirection,
    pub target_long_edge: u32,
    pub visible_pages: usize,
    pub options: WorkerOptions,
    pub book_epoch: usize,
    pub cache: LruCache<String, Arc<PreparedPage>>,
    pub cache_bytes: usize,
    pub published_app_cache_hints: PublishedAppCacheHints,
    pub source_bytes_cache: Option<SourceBytesCache>,
    pub read_ahead: Option<ReadAhead>,
    pub decode_ahead: Option<DecodeAhead>,
    pub decode_ahead_policy: DecodeAheadPolicy,
    pub completed_read: Option<CompletedRead>,
    pub completed_page: Option<CompletedPage>,
}

/// A session as plain data.
pub struct SessionView {
    pub source: Option<BookSnapshot>,
    pub center: usize,
    pub direction: NavigationDirection,
    pub target_long_edge: u32,
    pub visible_pages: usize,
    pub options: WorkerOptions,
    pub book_epoch: usize,
    pub pages: Seq<(Seq<char>, PageView)>,
    pub capacity: nat,
    pub bytes: int,
    pub hints: Seq<CachedPageKey>,
    pub sources: Option<SourceBytesView>,
    pub read_ahead: Option<ReadAheadView>,
    pub decode_ahead: Option<DecodeAheadView>,
    pub policy: DecodeAheadPolicy,
    pub completed_read: Option<CompletedRead>,
    pub completed_page: Option<CompletedPage>,
}

impl View for WorkerSession {
    type V = SessionView;

    open spec fn view(&self) -> SessionView {
        SessionView {
            source: self.source,
            center: self.center,
            direction: self.direction,
            target_long_edge: self.target_long_edge,
            visible_pages: self.visible_pages,
            options: self.options,
            book_epoch: self.book_epoch,
            pages: crate::worker::cache::cached_pages(self.cache),
            capacity: crate::worker::cache::page_capacity(self.cache),
            bytes: self.cache_bytes as int,
            hints: self.published_app_cache_hints@,
            sources: match self.source_bytes_cache {
                Some(cache) => Some(cache@),
                None => None,
            },
            read_ahead: crate::worker::ahead::read_lane(self.read_ahead),
            decode_ahead: crate::worker::ahead::decode_lane(self.decode_ahead),
            policy: self.decode_ahead_policy,
            completed_read: self.completed_read,
            completed_page: self.completed_page,
        }
    }
}

/// The options while no book is open.
pub open spec fn are_default(options: WorkerOptions) -> bool {
    &&& options.decode == crate::worker::api::default_options()
    &&& options.target_intent == crate::worker::api::PreparedTargetIntent::NormalNavigation
    &&& options.prefetch_enabled
    &&& options.progressive_preview_enabled
    &&& options.cache_bytes == WORKER_CACHE_BYTES
    &&& options.app_cached_pages@ == Seq::<CachedPageKey>::empty()
}

impl SessionView {
    /// Whether the book, or the bytes behind it, are others than they were.
    pub open spec fn is_other_source(self, book_id: Option<Seq<char>>, cache_id: Option<u64>) -> bool {
        crate::worker::cache::book_of(self.source) != book_id || crate::worker::cache::cache_id_of(
            self.source,
        ) != cache_id
    }

    /// The session after a book and a request have been set, given what was set before. What
    /// belongs to another book, other bytes, another way to decode or another size is let go.
    pub open spec fn settled(
        self,
        book_id: Option<Seq<char>>,
        instance_id: Option<u64>,
        cache_id: Option<u64>,
        decode: DecodeOptions,
        target_long_edge: u32,
    ) -> SessionView {
        let other_source = self.is_other_source(book_id, cache_id);
        let other_decode = decode != self.options.decode;
        let epoch = crate::worker::cache::epoch_after(
            self.book_epoch,
            self.source,
            book_id,
            instance_id,
        );
        let (pages, bytes) = if other_source || other_decode {
            (Seq::empty(), 0)
        } else {
            (self.pages, self.bytes)
        };
        let (pages, bytes) = crate::worker::cache::pruned(
            pages,
            crate::worker::cache::page_size(),
            bytes,
            self.options.cache_bytes as int,
        );
        SessionView {
            book_epoch: epoch,
            pages,
            bytes,
            hints: if other_source || other_decode || crate::worker::api::clamped_target(
                target_long_edge,
            ) != crate::worker::api::clamped_target(self.target_long_edge) {
                Seq::empty()
            } else {
                self.hints
            },
            sources: match self.sources {
                Some(cache) => if other_source {
                    Some(cache.cleared())
                } else {
                    Some(cache)
                },
                None => None,
            },
            read_ahead: if self.source is None {
                crate::worker::ahead::cancelled_read(self.read_ahead)
            } else {
                self.read_ahead
            },
            decode_ahead: if crate::worker::ahead::in_context(
                self.decode_ahead,
                crate::worker::cache::book_of(self.source),
                epoch,
                self.target_long_edge,
                self.options.decode,
            ) {
                self.decode_ahead
            } else {
                crate::worker::ahead::cancelled_decode(self.decode_ahead)
            },
            policy: if other_source || other_decode || target_long_edge != self.target_long_edge {
                self.policy.forgotten()
            } else {
                self.policy
            },
            completed_read: if self.source is None {
                None
            } else {
                self.completed_read
            },
            completed_page: if self.source is None {
                None
            } else {
                self.completed_page
            },
            ..self
        }
    }

    /// The session once a command has set the book and the request.
    pub open spec fn changed(
        self,
        source: Option<BookSnapshot>,
        center: usize,
        direction: NavigationDirection,
        target_long_edge: u32,
        visible_pages: usize,
        options: WorkerOptions,
    ) -> SessionView {
        let request = SessionView {
            source,
            center,
            direction,
            target_long_edge,
            visible_pages: if visible_pages == 0 {
                1
            } else {
                visible_pages
            },
            options,
            ..self
        };
        request.settled(
            crate::worker::cache::book_of(self.source),
            crate::worker::cache::instance_of(self.source),
            crate::worker::cache::cache_id_of(self.source),
            self.options.decode,
            self.target_long_edge,
        )
    }

    /// Whether `after` is the session once a command has been applied.
    pub open spec fn applied(self, command: WorkerCommand, after: SessionView) -> bool {
        match command {
            WorkerCommand::LoadBook {
                source,
                center,
                direction,
                target_long_edge,
                visible_pages,
                options,
            } => after == self.changed(
                Some(source),
                center,
                direction,
                target_long_edge,
                visible_pages,
                options.within_limits(),
            ),
            WorkerCommand::SetPage {
                center,
                direction,
                target_long_edge,
                visible_pages,
                options,
            } => after == self.changed(
                self.source,
                center,
                direction,
                target_long_edge,
                visible_pages,
                options.within_limits(),
            ),
            WorkerCommand::ClearBook { ack } => are_default(after.options) && after
                == self.changed(
                None,
                0,
                NavigationDirection::Forward,
                DEFAULT_TARGET_LONG_EDGE,
                1,
                after.options,
            ),
            WorkerCommand::Shutdown => after == self,
        }
    }

    /// Whether a read is still of use for a schedule.
    pub open spec fn keeps_read(self, source: BookSnapshot, jobs: Seq<PageJob>) -> bool {
        self.completed_read matches Some(read) && read.epoch == self.book_epoch
            && crate::worker::ahead::schedules(source, jobs, read.page_id)
    }

    /// Whether a prepared page is still of use for a schedule.
    pub open spec fn keeps_page(self, source: BookSnapshot, jobs: Seq<PageJob>) -> bool {
        self.completed_page matches Some(done) && done.epoch == self.book_epoch && done.decode
            == self.options.decode && schedules_at(
            source,
            jobs,
            done.page_id,
            done.page.target_long_edge,
        )
    }

    /// The session once a schedule has been made: what no job asks for is let go.
    pub open spec fn reconciled(self, source: BookSnapshot, jobs: Seq<PageJob>) -> SessionView {
        SessionView {
            completed_read: if self.keeps_read(source, jobs) {
                self.completed_read
            } else {
                None
            },
            completed_page: if self.keeps_page(source, jobs) {
                self.completed_page
            } else {
                None
            },
            read_ahead: match self.read_ahead {
                Some(read) => if read.book_epoch == self.book_epoch
                    && crate::worker::ahead::schedules(source, jobs, read.page_id) {
                    self.read_ahead
                } else {
                    crate::worker::ahead::cancelled_read(self.read_ahead)
                },
                None => None,
            },
            decode_ahead: if crate::worker::ahead::still_scheduled(
                self.decode_ahead,
                source,
                self.book_epoch,
                jobs,
                self.center,
                self.visible_pages,
                self.options,
                self.pages,
                self.hints,
            ) {
                self.decode_ahead
            } else {
                crate::worker::ahead::cancelled_decode(self.decode_ahead)
            },
            ..self
        }
    }

    /// Whether the read that is kept is the one asked for.
    pub open spec fn offers_read(self, page_id: PageId) -> bool {
        self.completed_read matches Some(read) && read.epoch == self.book_epoch && read.page_id
            == page_id
    }

    /// Whether the page that is kept is the one asked for.
    pub open spec fn offers_page(self, page_id: PageId, target: u32) -> bool {
        self.completed_page matches Some(done) && done.epoch == self.book_epoch && done.page_id
            == page_id && done.decode == self.options.decode && done.page.target_long_edge
            == target
    }

    /// Whether the worker's byte count is the sum of what it keeps, within the budget.
    pub open spec fn accounted(self) -> bool {
        &&& crate::worker::cache::accounted(
            self.pages,
            crate::worker::cache::page_size(),
            self.bytes,
        )
        &&& self.bytes <= self.options.cache_bytes
    }
}

/// Whether a job asks for a page at a size.
pub open spec fn schedules_at(
    source: BookSnapshot,
    jobs: Seq<PageJob>,
    page_id: PageId,
    target_long_edge: u32,
) -> bool {
    exists|k: int|
        0 <= k < jobs.len() && source.id_at((#[trigger] jobs[k]).index as int) == Some(page_id)
            && jobs[k].target_long_edge == target_long_edge
}

fn is_scheduled_at(
    source: &BookSnapshot,
    jobs: &Vec<PageJob>,
    page_id: PageId,
    target_long_edge: u32,
) -> (scheduled: bool)
    ensures
        scheduled == schedules_at(*source, jobs@, page_id, target_long_edge),
{
    let mut k: usize = 0;
    while k < jobs.len()
        invariant
            k <= jobs@.len(),
            forall|i: int|
                0 <= i < k ==> !(source.id_at((#[trigger] jobs@[i]).index as int) == Some(page_id)
                    && jobs@[i].target_long_edge == target_long_edge),
        decreases jobs.len() - k,
    {
        match source.page_id(jobs[k].index) {
            Some(found) => {
                if found == page_id && jobs[k].target_long_edge == target_long_edge {
                    assert(source.id_at(jobs@[k as int].index as int) == Some(page_id));
                    return true;
                }
            },
            None => {},
        }
        k = k + 1;
    }
    false
}

/// What becomes of a command: whether the worker goes on, and whom it owes an answer.
pub struct Applied {
    pub alive: bool,
    pub acknowledge: Option<u64>,
}

/// `Arc::ptr_eq` of the standard library: a page that is at the same place is the same page.
#[verifier::external_body]
fn is_same_page(left: &Arc<PreparedPage>, right: &Arc<PreparedPage>) -> (same: bool)
    ensures
        same ==> left == right,
{
    Arc::ptr_eq(left, right)
}

/// A book's identity as text, for later comparison.
fn book_text(source: &Option<BookSnapshot>) -> (book_id: Option<String>)
    ensures
        match book_id {
            Some(book_id) => crate::worker::cache::book_of(*source) == Some(book_id@),
            None => crate::worker::cache::book_of(*source) is None,
        },
{
    match source {
        Some(source) => Some(source.book_id.as_str().to_owned()),
        None => None,
    }
}

fn borrowed(text: &Option<String>) -> (borrowed: Option<&str>)
    ensures
        crate::worker::cache::text_of(borrowed) == crate::worker::api::optional_text(*text),
{
    match text {
        Some(text) => Some(text.as_str()),
        None => None,
    }
}

fn differs(left: &Option<String>, right: &Option<BookSnapshot>) -> (differs: bool)
    ensures
        differs == (crate::worker::api::optional_text(*left) != crate::worker::cache::book_of(
            *right,
        )),
{
    match (left, right) {
        (Some(left), Some(right)) => !crate::text::same_text(
            left.as_str(),
            right.book_id.as_str(),
        ),
        (None, None) => false,
        _ => true,
    }
}

impl WorkerSession {
    /// A session without a book.
    pub fn new(source_bytes_budget: Option<usize>, policy: DecodeAheadPolicy) -> (session: Self)
        ensures
            are_default(session.options),
            session@ == (SessionView {
                source: None,
                center: 0,
                direction: NavigationDirection::Forward,
                target_long_edge: DEFAULT_TARGET_LONG_EDGE,
                visible_pages: 1,
                options: session.options,
                book_epoch: 0,
                pages: Seq::empty(),
                capacity: WORKER_CACHE_PAGES as nat,
                bytes: 0,
                hints: Seq::empty(),
                sources: match source_bytes_budget {
                    Some(budget) => Some(
                        SourceBytesView {
                            entries: Seq::empty(),
                            capacity: crate::worker::source_bytes::SOURCE_BYTES_CACHE_ENTRY_LIMIT
                                as nat,
                            bytes: 0,
                            budget: budget as int,
                        },
                    ),
                    None => None,
                },
                read_ahead: None,
                decode_ahead: None,
                policy,
                completed_read: None,
                completed_page: None,
            }),
    {
        WorkerSession {
            source: None,
            center: 0,
            direction: NavigationDirection::Forward,
            target_long_edge: DEFAULT_TARGET_LONG_EDGE,
            visible_pages: 1,
            options: WorkerOptions::default(),
            book_epoch: 0,
            cache: new_page_cache(WORKER_CACHE_PAGES),
            cache_bytes: 0,
            published_app_cache_hints: PublishedAppCacheHints::new(),
            source_bytes_cache: match source_bytes_budget {
                Some(budget) => Some(SourceBytesCache::new(budget)),
                None => None,
            },
            read_ahead: None,
            decode_ahead: None,
            decode_ahead_policy: policy,
            completed_read: None,
            completed_page: None,
        }
    }

    fn set_request(
        &mut self,
        center: usize,
        direction: NavigationDirection,
        target: u32,
        visible: usize,
        options: WorkerOptions,
    )
        ensures
            final(self)@ == (SessionView {
                center,
                direction,
                target_long_edge: target,
                visible_pages: if visible == 0 {
                    1
                } else {
                    visible
                },
                options: options.within_limits(),
                ..old(self)@
            }),
    {
        self.center = center;
        self.direction = direction;
        self.target_long_edge = target;
        self.visible_pages = if visible == 0 {
            1
        } else {
            visible
        };
        self.options = options.normalized();
    }

    /// Lets go of what belongs to the book and the request that were set before.
    fn settle(
        &mut self,
        previous_book_id: Option<String>,
        previous_instance: Option<u64>,
        previous_cache_id: Option<u64>,
        previous_decode: DecodeOptions,
        previous_target: u32,
    )
        ensures
            final(self)@ == old(self)@.settled(
                crate::worker::api::optional_text(previous_book_id),
                previous_instance,
                previous_cache_id,
                previous_decode,
                previous_target,
            ),
    {
        let previous: Option<&str> = borrowed(&previous_book_id);
        update_book_epoch(&mut self.book_epoch, &self.source, previous, previous_instance);
        clear_published_app_cache_hints_on_context_change(
            &self.source,
            previous,
            previous_cache_id,
            previous_decode,
            previous_target,
            self.options.decode,
            self.target_long_edge,
            &mut self.published_app_cache_hints,
        );
        clear_cache_on_source_or_decode_change(
            &self.source,
            previous,
            previous_cache_id,
            previous_decode,
            self.options.decode,
            &mut self.cache,
            &mut self.cache_bytes,
        );
        let current_cache_id: Option<u64> = match &self.source {
            Some(source) => Some(source.cache_id),
            None => None,
        };
        let other_bytes = match (previous_cache_id, current_cache_id) {
            (Some(left), Some(right)) => left != right,
            (None, None) => false,
            _ => true,
        };
        let source_changed = differs(&previous_book_id, &self.source) || other_bytes;
        if source_changed {
            if let Some(mut cache) = self.source_bytes_cache.take() {
                cache.clear();
                self.source_bytes_cache = Some(cache);
            }
        }
        if source_changed || previous_decode != self.options.decode || previous_target
            != self.target_long_edge {
            self.decode_ahead_policy.reset_context();
        }
        prune_worker_cache(&mut self.cache, &mut self.cache_bytes, self.options.cache_bytes);
        let current_book_id = book_text(&self.source);
        clear_pending_decode_if_context_changed(
            &mut self.decode_ahead,
            borrowed(&current_book_id),
            self.book_epoch,
            self.target_long_edge,
            self.options.decode,
        );
        if self.source.is_none() {
            cancel_pending(&mut self.read_ahead);
            self.completed_read = None;
            self.completed_page = None;
        }
    }

    /// Applies a command: see `SessionView::applied`. Whoever waits for a book to be closed is
    /// answered once it is.
    pub fn apply(&mut self, command: WorkerCommand) -> (applied: Applied)
        ensures
            applied.alive == !(command is Shutdown),
            applied.acknowledge == match command {
                WorkerCommand::ClearBook { ack } => Some(ack),
                _ => None,
            },
            old(self)@.applied(command, final(self)@),
    {
        let previous_book_id = book_text(&self.source);
        let previous_instance: Option<u64> = match &self.source {
            Some(source) => Some(source.instance_id),
            None => None,
        };
        let previous_cache_id: Option<u64> = match &self.source {
            Some(source) => Some(source.cache_id),
            None => None,
        };
        let previous_decode = self.options.decode;
        let previous_target: u32 = self.target_long_edge;
        let mut acknowledge: Option<u64> = None;
        match command {
            WorkerCommand::LoadBook {
                source,
                center,
                direction,
                target_long_edge,
                visible_pages,
                options,
            } => {
                self.source = Some(source);
                self.set_request(center, direction, target_long_edge, visible_pages, options);
            },
            WorkerCommand::SetPage {
                center,
                direction,
                target_long_edge,
                visible_pages,
                options,
            } => {
                self.set_request(center, direction, target_long_edge, visible_pages, options);
            },
            WorkerCommand::ClearBook { ack } => {
                self.source = None;
                self.set_request(
                    0,
                    NavigationDirection::Forward,
                    DEFAULT_TARGET_LONG_EDGE,
                    1,
                    WorkerOptions::default(),
                );
                acknowledge = Some(ack);
            },
            WorkerCommand::Shutdown => {
                return Applied { alive: false, acknowledge: None };
            },
        }
        self.settle(
            previous_book_id,
            previous_instance,
            previous_cache_id,
            previous_decode,
            previous_target,
        );
        Applied { alive: true, acknowledge }
    }

    /// Lets go of what a new schedule does not ask for: see `SessionView::reconciled`.
    pub fn reconcile(&mut self, jobs: &Vec<PageJob>)
        requires
            old(self).source is Some,
        ensures
            final(self)@ == old(self)@.reconciled(old(self).source->0, jobs@),
    {
        match &self.source {
            Some(source) => {
                let keep_read = match &self.completed_read {
                    Some(read) => read.epoch == self.book_epoch && is_scheduled(
                        source,
                        jobs,
                        read.page_id,
                    ),
                    None => false,
                };
                if !keep_read {
                    self.completed_read = None;
                }
                let keep_page = match &self.completed_page {
                    Some(done) => done.epoch == self.book_epoch && done.decode
                        == self.options.decode && is_scheduled_at(
                        source,
                        jobs,
                        done.page_id,
                        done.page.target_long_edge,
                    ),
                    None => false,
                };
                if !keep_page {
                    self.completed_page = None;
                }
                cancel_if_not_scheduled(&mut self.read_ahead, source, self.book_epoch, jobs);
                cancel_pending_decode_if_not_scheduled(
                    &mut self.decode_ahead,
                    source,
                    self.book_epoch,
                    jobs,
                    self.center,
                    self.visible_pages,
                    &self.options,
                    &self.cache,
                    &self.published_app_cache_hints,
                );
            },
            None => {},
        }
    }

    /// Keeps a page's bytes for the next schedule.
    pub fn keep_read(&mut self, page_id: PageId, bytes: Result<SourcePageBytes, String>)
        ensures
            final(self)@ == (SessionView {
                completed_read: Some(CompletedRead { epoch: old(self).book_epoch, page_id, bytes }),
                ..old(self)@
            }),
    {
        self.completed_read = Some(CompletedRead { epoch: self.book_epoch, page_id, bytes });
    }

    /// Takes the bytes that were kept, if they are those of the page.
    pub fn take_read(&mut self, page_id: PageId) -> (bytes: Option<Result<SourcePageBytes, String>>)
        ensures
            match bytes {
                Some(bytes) => old(self)@.offers_read(page_id) && bytes
                    == old(self).completed_read->0.bytes && final(self)@ == (SessionView {
                    completed_read: None,
                    ..old(self)@
                }),
                None => !old(self)@.offers_read(page_id) && final(self)@ == old(self)@,
            },
    {
        let offered = match &self.completed_read {
            Some(read) => read.epoch == self.book_epoch && read.page_id == page_id,
            None => false,
        };
        if !offered {
            return None;
        }
        match self.completed_read.take() {
            Some(read) => Some(read.bytes),
            None => None,
        }
    }

    /// Compares a page with each of those in the worker's cache, in their order: whether the two are
    /// at the same place. Pages that differ are not; of equal ones, only their places decide.
    fn places_shared(&self, page: &Arc<PreparedPage>) -> (same: Vec<bool>)
        ensures
            same@.len() == self@.pages.len(),
            forall|i: int| 0 <= i < same@.len() && #[trigger] same@[i] ==> self@.pages[i].1 == page@,
    {
        let pages = list_pages(&self.cache);
        let mut same: Vec<bool> = Vec::new();
        let mut i: usize = 0;
        while i < pages.len()
            invariant
                i <= pages@.len(),
                pages@.len() == self@.pages.len(),
                forall|k: int| 0 <= k < pages@.len() ==> (#[trigger] pages@[k])@ == self@.pages[k].1,
                same@.len() == i,
                forall|k: int| 0 <= k < i && #[trigger] same@[k] ==> self@.pages[k].1 == page@,
            decreases pages.len() - i,
        {
            assert(pages@[i as int]@ == self@.pages[i as int].1);
            same.push(is_same_page(&pages[i], page));
            i = i + 1;
        }
        same
    }

    /// Whether a page is one of those in the worker's cache, by whether it is at the place of each
    /// of them.
    pub fn is_cached(same: &Vec<bool>) -> (cached: bool)
        ensures
            cached == exists|i: int| 0 <= i < same@.len() && #[trigger] same@[i],
    {
        let mut i: usize = 0;
        while i < same.len()
            invariant
                i <= same@.len(),
                forall|k: int| 0 <= k < i ==> !#[trigger] same@[k],
            decreases same.len() - i,
        {
            if same[i] {
                return true;
            }
            i = i + 1;
        }
        false
    }

    /// Keeps a page that could not be published yet, as `keep_page_unless_cached` does.
    pub fn keep_page(&mut self, page_id: PageId, decode: DecodeOptions, page: Arc<PreparedPage>)
        ensures
            final(self)@ == old(self)@.page_kept(page_id, decode, page, false) || old(
                self,
            )@.holds_equal(page@) && final(self)@ == old(self)@.page_kept(
                page_id,
                decode,
                page,
                true,
            ),
    {
        let same = self.places_shared(&page);
        let cached = WorkerSession::is_cached(&same);
        self.keep_page_unless_cached(page_id, decode, page, cached);
    }

    /// Keeps a page that could not be published yet. One that is in the cache survives there, and
    /// does not take the place of one that is kept.
    pub fn keep_page_unless_cached(
        &mut self,
        page_id: PageId,
        decode: DecodeOptions,
        page: Arc<PreparedPage>,
        cached: bool,
    )
        ensures
            final(self)@ == old(self)@.page_kept(page_id, decode, page, cached),
    {
        if self.completed_page.is_some() && cached {
            return;
        }
        self.completed_page = Some(CompletedPage { epoch: self.book_epoch, page_id, decode, page });
    }

    /// Takes the page that was kept, if it is the one asked for.
    pub fn take_page(&mut self, page_id: PageId, target: u32) -> (page: Option<Arc<PreparedPage>>)
        ensures
            match page {
                Some(page) => old(self)@.offers_page(page_id, target) && page
                    == old(self).completed_page->0.page && final(self)@ == (SessionView {
                    completed_page: None,
                    ..old(self)@
                }),
                None => !old(self)@.offers_page(page_id, target) && final(self)@ == old(self)@,
            },
    {
        let offered = match &self.completed_page {
            Some(done) => done.epoch == self.book_epoch && done.page_id == page_id && done.decode
                == self.options.decode && done.page.target_long_edge == target,
            None => false,
        };
        if !offered {
            return None;
        }
        match self.completed_page.take() {
            Some(done) => Some(done.page),
            None => None,
        }
    }

    /// Whether something is kept for the next schedule.
    pub fn has_completed_work(&self) -> (kept: bool)
        ensures
            kept == (self.completed_read is Some || self.completed_page is Some),
    {
        self.completed_read.is_some() || self.completed_page.is_some()
    }

    /// Lets go of what was kept: the schedule is done.
    pub fn finish_schedule(&mut self)
        ensures
            final(self)@ == (SessionView {
                completed_read: None,
                completed_page: None,
                ..old(self)@
            }),
    {
        self.completed_read = None;
        self.completed_page = None;
    }
}

impl SessionView {
    /// Whether a page in the cache equals this one. Only then can it be the same one.
    pub open spec fn holds_equal(self, page: PageView) -> bool {
        exists|i: int| 0 <= i < self.pages.len() && (#[trigger] self.pages[i]).1 == page
    }

    /// The session once a page that could not be published is kept.
    pub open spec fn page_kept(
        self,
        page_id: PageId,
        decode: DecodeOptions,
        page: Arc<PreparedPage>,
        cached: bool,
    ) -> SessionView {
        if self.completed_page is Some && cached {
            self
        } else {
            SessionView {
                completed_page: Some(
                    CompletedPage { epoch: self.book_epoch, page_id, decode, page },
                ),
                ..self
            }
        }
    }
}

/// A page that is kept is handed out again for the same page, size and way to decode, as long as
/// no other snapshot came in between.
pub proof fn kept_page_is_offered(
    session: SessionView,
    page_id: PageId,
    page: Arc<PreparedPage>,
)
    requires
        session.completed_page is None,
    ensures
        forall|cached: bool|
            #[trigger] session.page_kept(
                page_id,
                session.options.decode,
                page,
                cached,
            ).offers_page(page_id, page.target_long_edge),
{
}

/// A page that is kept and not in the cache is not displaced by one that is.
pub proof fn cached_page_displaces_nothing(
    session: SessionView,
    page_id: PageId,
    decode: DecodeOptions,
    page: Arc<PreparedPage>,
)
    requires
        session.completed_page is Some,
    ensures
        session.page_kept(page_id, decode, page, true) == session,
{
}

/// A new snapshot of the same book and the same bytes makes what was read or prepared before it
/// useless, even though the cache survives.
pub proof fn new_snapshot_outdates_kept_work(
    session: SessionView,
    source: BookSnapshot,
    center: usize,
    direction: NavigationDirection,
    target_long_edge: u32,
    visible_pages: usize,
    options: WorkerOptions,
    page_id: PageId,
    target: u32,
)
    requires
        session.book_epoch < usize::MAX,
        crate::worker::cache::instance_of(session.source) != Some(source.instance_id)
            || crate::worker::cache::book_of(session.source) != Some(source.book_id@),
        session.completed_read matches Some(read) ==> read.epoch <= session.book_epoch,
        session.completed_page matches Some(done) ==> done.epoch <= session.book_epoch,
    ensures
        ({
            let after = session.changed(
                Some(source),
                center,
                direction,
                target_long_edge,
                visible_pages,
                options,
            );
            &&& after.book_epoch == session.book_epoch + 1
            &&& !after.offers_read(page_id)
            &&& !after.offers_page(page_id, target)
        }),
{
}

/// A change of size or of the way to decode leaves the bytes that were read in place.
pub proof fn kept_bytes_survive_other_requests(
    session: SessionView,
    center: usize,
    direction: NavigationDirection,
    target_long_edge: u32,
    visible_pages: usize,
    options: WorkerOptions,
    page_id: PageId,
)
    requires
        session.source is Some,
    ensures
        ({
            let after = session.changed(
                session.source,
                center,
                direction,
                target_long_edge,
                visible_pages,
                options,
            );
            &&& after.book_epoch == session.book_epoch
            &&& after.completed_read == session.completed_read
            &&& after.offers_read(page_id) == session.offers_read(page_id)
            &&& after.sources == session.sources
        }),
{
}

/// Every command leaves the worker's byte count true and within the budget that it sets.
pub proof fn commands_keep_the_cache_accounted(
    session: SessionView,
    command: WorkerCommand,
    after: SessionView,
)
    requires
        session.accounted(),
        session.applied(command, after),
    ensures
        after.accounted(),
        after.capacity == session.capacity,
        after.pages.len() <= session.pages.len(),
{
    let size = crate::worker::cache::page_size();
    let empty = Seq::<(Seq<char>, PageView)>::empty();
    assert(crate::worker::cache::total_bytes(empty, size) == 0);
    crate::worker::cache::lemma_total_is_positive(session.pages, size);
    let budget = after.options.cache_bytes as int;
    crate::worker::cache::pruned_cache_is_within_the_budget(empty, size, 0, budget);
    crate::worker::cache::pruned_cache_is_within_the_budget(
        session.pages,
        size,
        session.bytes,
        budget,
    );
    let kept = crate::worker::cache::pruned(session.pages, size, session.bytes, budget).0;
    assert forall|i: int| 0 <= i < kept.len() implies kept[i] == session.pages[i] by {}
    assert(crate::worker::cache::distinct(kept));
    assert(crate::worker::cache::sized(kept, size));
}

/// While no book is open nothing of one is kept: neither its pages nor its bytes nor what was
/// published of it.
pub proof fn closed_book_leaves_nothing(session: SessionView, ack: u64, after: SessionView)
    requires
        session.applied(WorkerCommand::ClearBook { ack }, after),
        session.source is Some,
    ensures
        after.source is None,
        after.pages.len() == 0,
        after.bytes == 0,
        after.hints.len() == 0,
        after.sources matches Some(sources) ==> sources.entries.len() == 0,
        after.completed_read is None,
        after.completed_page is None,
        after.read_ahead matches Some(read) ==> read.cancelled,
        after.decode_ahead matches Some(decode) ==> decode.cancelled,
{
}

/// One of two commands in a row that has the effect of both, and whom the first one owes an
/// answer. A book that is to be opened stays so when only the page changes.
pub open spec fn folded(previous: WorkerCommand, next: WorkerCommand) -> (
    WorkerCommand,
    Option<u64>,
) {
    match (previous, next) {
        (WorkerCommand::Shutdown, _) => (WorkerCommand::Shutdown, None),
        (WorkerCommand::ClearBook { ack }, _) => (next, Some(ack)),
        (
            WorkerCommand::LoadBook { source, .. },
            WorkerCommand::SetPage {
                center,
                direction,
                target_long_edge,
                visible_pages,
                options,
            },
        ) => (
            WorkerCommand::LoadBook {
                source,
                center,
                direction,
                target_long_edge,
                visible_pages,
                options,
            },
            None,
        ),
        _ => (next, None),
    }
}

/// Folds two commands into one: see `folded`.
pub fn fold_command(previous: Option<WorkerCommand>, next: WorkerCommand) -> (result: (
    WorkerCommand,
    Option<u64>,
))
    ensures
        result == match previous {
            Some(previous) => folded(previous, next),
            None => (next, None),
        },
{
    let previous: WorkerCommand = match previous {
        Some(previous) => previous,
        None => {
            return (next, None);
        },
    };
    match (previous, next) {
        (WorkerCommand::Shutdown, _) => (WorkerCommand::Shutdown, None),
        (WorkerCommand::ClearBook { ack }, next) => (next, Some(ack)),
        (
            WorkerCommand::LoadBook { source, .. },
            WorkerCommand::SetPage {
                center,
                direction,
                target_long_edge,
                visible_pages,
                options,
            },
        ) => (
            WorkerCommand::LoadBook {
                source,
                center,
                direction,
                target_long_edge,
                visible_pages,
                options,
            },
            None,
        ),
        (_, next) => (next, None),
    }
}

/// A book and a request that follow each other have, folded into one command, the book and the
/// request that they would have one after the other.
pub proof fn folding_keeps_book_and_request(
    session: SessionView,
    previous: WorkerCommand,
    next: WorkerCommand,
    between: SessionView,
    after: SessionView,
    at_once: SessionView,
)
    requires
        !(previous is Shutdown),
        !(next is Shutdown),
        !(previous is ClearBook && next is SetPage),
        session.applied(previous, between),
        between.applied(next, after),
        session.applied(folded(previous, next).0, at_once),
    ensures
        at_once.source == after.source,
        at_once.center == after.center,
        at_once.direction == after.direction,
        at_once.target_long_edge == after.target_long_edge,
        at_once.visible_pages == after.visible_pages,
        !(next is ClearBook) ==> at_once.options == after.options,
{
}

/// A request for another book, or for other bytes of the same book, keeps no page, no bytes and no
/// hint of the one before. One that decodes differently keeps no page and no hint. One that does
/// neither keeps every page that the new budget has room for.
pub proof fn other_books_share_nothing(
    session: SessionView,
    source: BookSnapshot,
    center: usize,
    direction: NavigationDirection,
    target_long_edge: u32,
    visible_pages: usize,
    options: WorkerOptions,
)
    requires
        session.accounted(),
    ensures
        ({
            let after = session.changed(
                Some(source),
                center,
                direction,
                target_long_edge,
                visible_pages,
                options,
            );
            let same_bytes = session.source matches Some(before) && before.book_id@
                == source.book_id@ && before.cache_id == source.cache_id;
            let same_decode = options.decode == session.options.decode;
            &&& !same_bytes ==> after.pages.len() == 0 && after.bytes == 0 && after.hints.len() == 0
            &&& !same_bytes ==> (after.sources matches Some(sources) ==> sources.entries.len() == 0)
            &&& !same_decode ==> after.pages.len() == 0 && after.hints.len() == 0
            &&& same_bytes ==> after.sources == session.sources
            &&& same_bytes && same_decode && options.cache_bytes >= session.options.cache_bytes
                ==> after.pages == session.pages && after.bytes == session.bytes
            &&& same_bytes && same_decode && target_long_edge == session.target_long_edge
                ==> after.hints == session.hints && after.policy == session.policy
            &&& after.source == Some(source) && after.center == center && after.direction
                == direction && after.target_long_edge == target_long_edge && after.options
                == options
            &&& after.visible_pages >= 1 && (visible_pages >= 1 ==> after.visible_pages
                == visible_pages)
        }),
{
    let after = session.changed(
        Some(source),
        center,
        direction,
        target_long_edge,
        visible_pages,
        options,
    );
    if let Some(sources) = after.sources {
        assert(sources.entries.len() == 0 || sources == session.sources->0);
    }
}

/// A finished read or page is kept only where the schedule still asks for it, in the same epoch; a
/// page also only at its size and in its way to decode.
pub proof fn kept_work_is_still_asked_for(
    session: SessionView,
    source: BookSnapshot,
    jobs: Seq<PageJob>,
)
    ensures
        ({
            let after = session.reconciled(source, jobs);
            &&& after.completed_read matches Some(read) ==> read.epoch == session.book_epoch
                && exists|k: int|
                0 <= k < jobs.len() && source.id_at((#[trigger] jobs[k]).index as int) == Some(
                    read.page_id,
                )
            &&& after.completed_page matches Some(done) ==> done.epoch == session.book_epoch
                && done.decode == session.options.decode && exists|k: int|
                0 <= k < jobs.len() && source.id_at((#[trigger] jobs[k]).index as int) == Some(
                    done.page_id,
                ) && jobs[k].target_long_edge == done.page.target_long_edge
            &&& after.read_ahead matches Some(read) ==> read.cancelled || read.book_epoch
                == session.book_epoch
            &&& after.pages == session.pages && after.hints == session.hints && after.sources
                == session.sources
        }),
{
}

/// What is handed out again is what was asked for: a read of the same page in the same epoch, and a
/// page of the same size and way to decode.
pub proof fn handed_out_work_is_what_was_asked_for(
    session: SessionView,
    page_id: PageId,
    target: u32,
)
    ensures
        session.offers_read(page_id) <==> session.completed_read is Some
            && session.completed_read->0.page_id == page_id && session.completed_read->0.epoch
            == session.book_epoch,
        session.offers_page(page_id, target) ==> session.completed_page is Some
            && session.completed_page->0.page_id == page_id && session.completed_page->0.epoch
            == session.book_epoch && session.completed_page->0.decode == session.options.decode
            && session.completed_page->0.page.target_long_edge == target,
        session.completed_page matches Some(done) ==> (done.epoch == session.book_epoch
            && done.decode == session.options.decode ==> session.offers_page(
            done.page_id,
            done.page.target_long_edge,
        )),
{
}

/// What was published counts no longer once another size is asked for, and still counts where nothing
/// but the page and the direction changes.
pub proof fn published_pages_count_for_one_size(
    session: SessionView,
    source: Option<BookSnapshot>,
    center: usize,
    direction: NavigationDirection,
    target_long_edge: u32,
    visible_pages: usize,
    options: WorkerOptions,
)
    ensures
        ({
            let after = session.changed(
                source,
                center,
                direction,
                target_long_edge,
                visible_pages,
                options,
            );
            &&& crate::worker::api::clamped_target(target_long_edge)
                != crate::worker::api::clamped_target(session.target_long_edge) ==> after.hints.len() == 0
            &&& source == session.source && target_long_edge == session.target_long_edge
                && options.decode == session.options.decode ==> after.hints == session.hints
                && after.policy == session.policy && after.book_epoch == session.book_epoch
            &&& after.source == source && after.center == center && after.direction == direction
            &&& after.target_long_edge == target_long_edge && after.options == options
            &&& after.visible_pages >= 1 && (visible_pages >= 1 ==> after.visible_pages == visible_pages)
        }),
{
}

} // verus!
