//! The worker's course: what it does next, given what happened. The caller performs each action
//! and reports what came of it.
use crate::source::{BookSnapshot, PageId};
use crate::worker::ahead::{
    cancel_pending, cancel_pending_decode, choose_overlap, discard_finished_decode,
    discard_finished_read, DecodeAhead, DecodeAheadView, Overlap, ReadAhead, ReadAheadView,
};
use crate::worker::api::{
    CachedPageKey, DecodeOptions, PageView, PreparedPage, WorkerCommand, WorkerEvent,
};
use crate::worker::cache::{
    forget_published_app_cache_hint, insert_worker_cache_with_budget, page_cache_key, prune_worker_cache,
    remember_published_app_cache_hint, should_skip_published_app_cache_hint, use_page,
};
use crate::worker::scheduler::{
    is_visible_page_index, prioritized_jobs, should_skip_ai_preview_or_prefetch, PageJob,
};
use crate::worker::session::{fold_command, Applied, SessionView, WorkerSession};
use crate::worker::source_bytes::SourcePageBytes;
use std::collections::VecDeque;
use std::sync::Arc;
use vstd::prelude::*;

verus! {

/// What the worker waits for.
#[derive(Debug, Clone, Copy, PartialEq, Eq, Structural)]
pub enum Phase {
    /// A command.
    Idle,
    /// The commands that wait already, before the next job.
    Polling,
    /// The commands that wait already, before a new schedule.
    Replanning,
    /// The bytes of a page.
    Reading,
    /// A page.
    Preparing,
    /// The delivery of a result.
    Publishing,
    /// Nothing any more.
    Stopped,
}

/// A page, and how many nanoseconds it took where that matters.
pub struct TimedPage {
    pub page: PreparedPage,
    pub prepare_nanos: Option<u128>,
}

/// What is to be done next.
pub enum Action {
    /// Wait for a command.
    Await,
    /// Take the commands that wait, folded into one.
    Poll,
    /// Wait for the read that is under way ahead.
    JoinRead,
    /// Read the page at `index`.
    Read { index: usize },
    /// Wait for the decode that is under way ahead.
    JoinDecode,
    /// Start `overlap`, then prepare the page.
    Prepare {
        bytes: SourcePageBytes,
        job: PageJob,
        decode: DecodeOptions,
        timed: bool,
        overlap: Overlap,
    },
    /// Deliver a result as soon as `budget_bytes` allows, unless a command comes first.
    Publish { event: WorkerEvent, budget_bytes: usize },
    /// End.
    Stop,
}

/// What came of an action.
pub enum Happening {
    Command(WorkerCommand),
    NoCommand,
    Bytes(Result<Vec<u8>, String>),
    Prepared(Result<TimedPage, String>),
    Sent,
    Interrupted(WorkerCommand, WorkerEvent),
    Disconnected,
}

/// What the caller sees beside what happened.
#[derive(Debug, Clone, Copy, PartialEq, Eq, Structural)]
pub struct Observed {
    pub commands_waiting: bool,
    pub read_finished: bool,
    pub decode_finished: bool,
}

/// The worker between two actions.
pub struct WorkerLoop {
    pub session: WorkerSession,
    pub jobs: Vec<PageJob>,
    pub position: usize,
    pub phase: Phase,
}

/// The worker as plain data.
pub struct LoopView {
    pub session: SessionView,
    pub jobs: Seq<PageJob>,
    pub position: int,
    pub phase: Phase,
}

impl View for WorkerLoop {
    type V = LoopView;

    open spec fn view(&self) -> LoopView {
        LoopView {
            session: self.session@,
            jobs: self.jobs@,
            position: self.position as int,
            phase: self.phase,
        }
    }
}

/// Bytes, or why there are none, as plain data.
pub open spec fn bytes_view(bytes: Result<SourcePageBytes, String>) -> Result<Seq<u8>, Seq<char>> {
    match bytes {
        Ok(bytes) => Ok(bytes@),
        Err(message) => Err(message@),
    }
}

impl LoopView {
    /// While a job is under way there is a book, and the job is one of the schedule.
    pub open spec fn wf(self) -> bool {
        self.phase == Phase::Idle || self.phase == Phase::Stopped || self.phase == Phase::Replanning
            || (self.session.source is Some && 0 <= self.position < self.jobs.len())
    }

    /// The schedule that a request asks for.
    pub open spec fn schedule(self, source: BookSnapshot) -> Seq<PageJob> {
        crate::worker::scheduler::job_order(
            self.session.center,
            source.pages@.len() as usize,
            self.session.direction,
            self.session.target_long_edge,
            self.session.options.target_intent,
            self.session.visible_pages,
            self.session.options.prefetch_enabled,
            self.session.options.progressive_preview_enabled,
        )
    }

    /// What follows once the schedule has been gone through up to `position`.
    pub open spec fn advanced(self, action: Action, after: LoopView) -> bool {
        if self.position >= self.jobs.len() {
            &&& action is Await
            &&& after == LoopView {
                session: SessionView {
                    completed_read: None,
                    completed_page: None,
                    ..self.session
                },
                phase: Phase::Idle,
                ..self
            }
        } else {
            action is Poll && after == LoopView { phase: Phase::Polling, ..self }
        }
    }

    /// What follows once the job at `position` is done with.
    pub open spec fn skipped(self, action: Action, after: LoopView) -> bool {
        LoopView { position: self.position + 1, ..self }.advanced(action, after)
    }

    /// What follows once a command has been applied: a new schedule, if there is a book.
    pub open spec fn planned(self, action: Action, after: LoopView) -> bool {
        match self.session.source {
            None => action is Await && after == LoopView { phase: Phase::Idle, ..self },
            Some(source) => {
                let jobs = self.schedule(source);
                LoopView {
                    session: self.session.reconciled(source, jobs),
                    jobs,
                    position: 0,
                    ..self
                }.advanced(action, after)
            },
        }
    }

    /// What follows a command.
    pub open spec fn commanded(self, command: WorkerCommand, action: Action, after: LoopView) -> bool {
        if command is Shutdown {
            action is Stop && after == LoopView { phase: Phase::Stopped, ..self }
        } else {
            exists|session: SessionView|
                #[trigger] self.session.applied(command, session) && LoopView {
                    session,
                    ..self
                }.planned(action, after)
        }
    }

    /// What follows once a page is there to be shown: it is published, and remembered as such.
    pub open spec fn publishes(
        self,
        source: BookSnapshot,
        page_id: PageId,
        page: PageView,
        action: Action,
        after: LoopView,
    ) -> bool {
        let job = self.jobs[self.position];
        let key = CachedPageKey {
            page_id,
            target_long_edge: crate::worker::api::clamped_target(job.target_long_edge),
            decode: self.session.options.decode,
        };
        &&& action matches Action::Publish { event, budget_bytes } && budget_bytes
            == self.session.options.cache_bytes && match event {
            WorkerEvent::PageReady {
                book_id,
                source_instance_id,
                page_id: id,
                decode,
                page: ready,
            } => book_id@ == source.book_id@ && source_instance_id == source.instance_id && id
                == page_id && decode == self.session.options.decode && ready@ == page,
            WorkerEvent::PageFailed { .. } => false,
        }
        &&& after == LoopView {
            session: SessionView {
                hints: crate::worker::cache::with_hint(self.session.hints, key),
                ..self.session
            },
            phase: Phase::Publishing,
            ..self
        }
    }

    /// What follows once it is known that a page cannot be shown: that is published.
    pub open spec fn reports(
        self,
        source: BookSnapshot,
        page_id: PageId,
        message: Seq<char>,
        action: Action,
        after: LoopView,
    ) -> bool {
        let job = self.jobs[self.position];
        &&& action matches Action::Publish { event, budget_bytes } && budget_bytes
            == self.session.options.cache_bytes && match event {
            WorkerEvent::PageReady { .. } => false,
            WorkerEvent::PageFailed {
                book_id,
                source_instance_id,
                page_id: id,
                target_long_edge,
                decode,
                message: text,
            } => book_id@ == source.book_id@ && source_instance_id == source.instance_id && id
                == page_id && target_long_edge == job.target_long_edge && decode
                == self.session.options.decode && text@ == message,
        }
        &&& after == LoopView { phase: Phase::Publishing, ..self }
    }

    /// The session once it is known which lanes are over.
    pub open spec fn with_lanes(self, seen: Observed) -> SessionView {
        SessionView {
            read_ahead: crate::worker::ahead::freed_read(
                self.session.read_ahead,
                seen.read_finished,
            ),
            decode_ahead: crate::worker::ahead::freed_decode(
                self.session.decode_ahead,
                seen.decode_finished,
            ),
            ..self.session
        }
    }

    /// Whether nothing may be started beside the page: something is kept, or a lane is taken.
    pub open spec fn is_occupied(self, seen: Observed) -> bool {
        let lanes = self.with_lanes(seen);
        self.session.completed_read is Some || self.session.completed_page is Some
            || lanes.read_ahead is Some || lanes.decode_ahead is Some
    }

    /// Whether `overlap` is what may be started beside the page.
    pub open spec fn overlaps(self, source: BookSnapshot, seen: Observed, overlap: Overlap) -> bool {
        if self.is_occupied(seen) {
            overlap is Nothing
        } else {
            exists|next: Option<PageJob>|
                #[trigger] crate::worker::ahead::is_next_job(
                    source,
                    self.jobs,
                    self.position + 1,
                    self.session.center,
                    self.session.visible_pages,
                    self.session.options,
                    self.session.pages,
                    self.session.hints,
                    next,
                ) && crate::worker::ahead::is_overlap(
                    source,
                    self.session.policy.candidate_spec(),
                    seen.commands_waiting,
                    next,
                    overlap,
                )
        }
    }

    /// The session once `overlap` has been started.
    pub open spec fn overlapped(self, source: BookSnapshot, seen: Observed, overlap: Overlap) -> SessionView {
        let lanes = self.with_lanes(seen);
        match overlap {
            Overlap::Nothing => lanes,
            Overlap::Read(job, page_id) => SessionView {
                read_ahead: Some(
                    ReadAheadView {
                        book_id: source.book_id@,
                        book_epoch: self.session.book_epoch,
                        page_id,
                        index: job.index,
                        cancelled: false,
                    },
                ),
                ..lanes
            },
            Overlap::Decode(job, page_id) => SessionView {
                decode_ahead: Some(
                    DecodeAheadView {
                        book_id: source.book_id@,
                        book_epoch: self.session.book_epoch,
                        page_id,
                        index: job.index,
                        target_long_edge: job.target_long_edge,
                        decode: self.session.options.decode,
                        cancelled: false,
                    },
                ),
                ..lanes
            },
        }
    }

    /// Whether the job at `position` is for a page that is shown.
    pub open spec fn is_visible(self) -> bool {
        crate::worker::scheduler::is_shown(
            self.jobs[self.position].index,
            self.session.center,
            self.session.visible_pages,
        )
    }

    /// What follows once the bytes of a page are there. For a page that is not shown a command
    /// that waits comes first: the bytes are kept, and the schedule is made anew.
    pub open spec fn proceeds(
        self,
        source: BookSnapshot,
        page_id: PageId,
        bytes: Result<Seq<u8>, Seq<char>>,
        seen: Observed,
        action: Action,
        after: LoopView,
    ) -> bool {
        let job = self.jobs[self.position];
        if !self.is_visible() && seen.commands_waiting {
            &&& action is Poll
            &&& after.session.completed_read matches Some(read) && read.epoch
                == self.session.book_epoch && read.page_id == page_id && bytes_view(read.bytes)
                == bytes
            &&& after == LoopView {
                session: SessionView {
                    completed_read: after.session.completed_read,
                    ..self.session
                },
                phase: Phase::Replanning,
                ..self
            }
        } else {
            match bytes {
                Err(message) => self.reports(source, page_id, message, action, after),
                Ok(bytes) => {
                    &&& action matches Action::Prepare {
                        bytes: given,
                        job: prepared,
                        decode,
                        timed,
                        overlap,
                    } && given@ == bytes && prepared == job && decode
                        == self.session.options.decode && timed
                        == self.session.policy.needs_timing_spec(source, job.index as int)
                        && self.overlaps(source, seen, overlap) && after == LoopView {
                        session: self.overlapped(source, seen, overlap),
                        phase: Phase::Preparing,
                        ..self
                    }
                },
            }
        }
    }

    /// What follows where a page is neither kept nor cached: its bytes are taken from where they
    /// are, or read.
    pub open spec fn fetches(
        self,
        source: BookSnapshot,
        page_id: PageId,
        seen: Observed,
        action: Action,
        after: LoopView,
    ) -> bool {
        let job = self.jobs[self.position];
        let found = match self.session.sources {
            Some(cache) => cache.found(source.book_id@, page_id),
            None => None,
        };
        let looked_up = SessionView {
            sources: match self.session.sources {
                Some(cache) => Some(cache.looked_up(source.book_id@, page_id)),
                None => None,
            },
            ..self.session
        };
        let ahead = self.session.read_ahead matches Some(read) && read.matches(
            source.book_id@,
            self.session.book_epoch,
            page_id,
        );
        if self.session.offers_read(page_id) {
            LoopView {
                session: SessionView { completed_read: None, ..self.session },
                ..self
            }.proceeds(
                source,
                page_id,
                bytes_view(self.session.completed_read->0.bytes),
                seen,
                action,
                after,
            )
        } else if found is Some {
            LoopView {
                session: SessionView {
                    read_ahead: if ahead {
                        crate::worker::ahead::cancelled_read(self.session.read_ahead)
                    } else {
                        self.session.read_ahead
                    },
                    ..looked_up
                },
                ..self
            }.proceeds(source, page_id, Ok(found->0), seen, action, after)
        } else if ahead {
            action is JoinRead && after == LoopView {
                session: SessionView { read_ahead: None, ..looked_up },
                phase: Phase::Reading,
                ..self
            }
        } else {
            action == (Action::Read { index: job.index }) && after == LoopView {
                session: SessionView {
                    read_ahead: crate::worker::ahead::cancelled_read(self.session.read_ahead),
                    ..looked_up
                },
                phase: Phase::Reading,
                ..self
            }
        }
    }

    /// What follows where no command waits: the job at `position` is taken up.
    pub open spec fn takes_up(self, source: BookSnapshot, seen: Observed, action: Action, after: LoopView) -> bool {
        let job = self.jobs[self.position];
        let session = self.session;
        match source.id_at(job.index as int) {
            None => self.skipped(action, after),
            Some(page_id) => {
                let key = crate::worker::cache::page_key(
                    source.book_id@,
                    source.cache_id,
                    page_id,
                    job.target_long_edge,
                    session.options.decode,
                );
                if crate::worker::scheduler::skips_ai_page(
                    source.name_at(job.index as int),
                    session.center,
                    session.visible_pages,
                    job.index,
                    job.target_long_edge,
                ) {
                    self.skipped(action, after)
                } else if !self.is_visible() && crate::worker::api::any_covers(
                    session.options.app_cached_pages@,
                    page_id,
                    job.target_long_edge,
                    session.options.decode,
                ) {
                    self.skipped(action, after)
                } else if session.offers_page(page_id, job.target_long_edge) {
                    LoopView {
                        session: SessionView { completed_page: None, ..session },
                        ..self
                    }.publishes(source, page_id, session.completed_page->0.page@, action, after)
                } else if crate::worker::cache::has_key(session.pages, key) {
                    LoopView {
                        session: SessionView {
                            pages: crate::worker::cache::touched(session.pages, key),
                            ..session
                        },
                        ..self
                    }.publishes(
                        source,
                        page_id,
                        crate::worker::cache::entry_of(session.pages, key)->0,
                        action,
                        after,
                    )
                } else if !self.is_visible() && crate::worker::api::any_covers(
                    session.hints,
                    page_id,
                    job.target_long_edge,
                    session.options.decode,
                ) {
                    self.skipped(action, after)
                } else if session.decode_ahead matches Some(ahead) && ahead.matches(
                    source.book_id@,
                    session.book_epoch,
                    page_id,
                    job.target_long_edge,
                    session.options.decode,
                ) {
                    action is JoinDecode && after == LoopView {
                        session: SessionView { decode_ahead: None, ..session },
                        phase: Phase::Preparing,
                        ..self
                    }
                } else {
                    LoopView {
                        session: SessionView {
                            decode_ahead: crate::worker::ahead::cancelled_decode(
                                session.decode_ahead,
                            ),
                            ..session
                        },
                        ..self
                    }.fetches(source, page_id, seen, action, after)
                }
            },
        }
    }

    /// The session once a page has been prepared: the policy has seen how long it took, and the
    /// page is cached unless it is beyond the budget alone.
    pub open spec fn observed(self, source: BookSnapshot, page_id: PageId, page: PageView, nanos: Option<u128>) -> SessionView {
        let job = self.jobs[self.position];
        let session = self.session;
        let policy = session.policy.observed(
            source,
            job.index as int,
            page.decode_backend,
            nanos,
        );
        let key = crate::worker::cache::page_key(
            source.book_id@,
            source.cache_id,
            page_id,
            job.target_long_edge,
            session.options.decode,
        );
        let budget = session.options.cache_bytes as int;
        let (pages, bytes) = if page.byte_size <= budget {
            crate::worker::cache::pruned(
                crate::worker::cache::pushed(session.pages, session.capacity, key, page),
                crate::worker::cache::page_size(),
                crate::worker::cache::bytes_after_push(
                    session.pages,
                    crate::worker::cache::page_size(),
                    session.capacity,
                    session.bytes,
                    key,
                    page,
                ),
                budget,
            )
        } else {
            (session.pages, session.bytes)
        };
        SessionView {
            policy,
            decode_ahead: if policy.candidate_spec() is None {
                crate::worker::ahead::cancelled_decode(session.decode_ahead)
            } else {
                session.decode_ahead
            },
            pages,
            bytes,
            ..session
        }
    }

    /// What follows once a page has been prepared, or could not be.
    pub open spec fn concludes(
        self,
        source: BookSnapshot,
        page_id: PageId,
        result: Result<(PageView, Option<u128>), Seq<char>>,
        action: Action,
        after: LoopView,
    ) -> bool {
        match result {
            Err(message) => self.reports(source, page_id, message, action, after),
            Ok((page, nanos)) => LoopView {
                session: self.observed(source, page_id, page, nanos),
                ..self
            }.publishes(source, page_id, page, action, after),
        }
    }

    /// The worker has ended.
    pub open spec fn stopped(self, action: Action, after: LoopView) -> bool {
        action is Stop && after == LoopView { phase: Phase::Stopped, ..self }
    }

    /// What follows once bytes that were waited for are there: they are kept for later use.
    pub open spec fn receives(
        self,
        source: BookSnapshot,
        page_id: PageId,
        bytes: Result<Seq<u8>, Seq<char>>,
        seen: Observed,
        action: Action,
        after: LoopView,
    ) -> bool {
        let session = SessionView {
            sources: match (self.session.sources, bytes) {
                (Some(cache), Ok(bytes)) => Some(cache.inserted(source.book_id@, page_id, bytes)),
                _ => self.session.sources,
            },
            ..self.session
        };
        LoopView { session, ..self }.proceeds(source, page_id, bytes, seen, action, after)
    }

    /// What follows what happened. Where something happened that was not waited for, the worker
    /// ends.
    pub open spec fn stepped(self, happening: Happening, seen: Observed, action: Action, after: LoopView) -> bool {
        let job = self.jobs[self.position];
        let page = match self.session.source {
            Some(source) => source.id_at(job.index as int),
            None => None,
        };
        match (self.phase, happening) {
            (Phase::Idle, Happening::Command(command)) => self.commanded(command, action, after),
            (Phase::Polling, Happening::Command(command)) => self.commanded(
                command,
                action,
                after,
            ),
            (Phase::Polling, Happening::NoCommand) => self.takes_up(
                self.session.source->0,
                seen,
                action,
                after,
            ),
            (Phase::Replanning, Happening::Command(command)) => self.commanded(
                command,
                action,
                after,
            ),
            (Phase::Replanning, Happening::NoCommand) => self.planned(action, after),
            (Phase::Reading, Happening::Bytes(bytes)) => if page is Some {
                self.receives(
                    self.session.source->0,
                    page->0,
                    match bytes {
                        Ok(bytes) => Ok(bytes@),
                        Err(message) => Err(message@),
                    },
                    seen,
                    action,
                    after,
                )
            } else {
                self.stopped(action, after)
            },
            (Phase::Preparing, Happening::Prepared(result)) => if page is Some {
                self.concludes(
                    self.session.source->0,
                    page->0,
                    match result {
                        Ok(timed) => Ok((timed.page@, timed.prepare_nanos)),
                        Err(message) => Err(message@),
                    },
                    action,
                    after,
                )
            } else {
                self.stopped(action, after)
            },
            (Phase::Publishing, Happening::Sent) => self.skipped(action, after),
            (Phase::Publishing, Happening::Interrupted(command, event)) => match event {
                WorkerEvent::PageReady { page_id, decode, page, .. } => exists|cached: bool|
                    (cached ==> self.session.holds_equal(page@)) && LoopView {
                        session: #[trigger] self.session.page_kept(page_id, decode, page, cached),
                        ..self
                    }.commanded(command, action, after),
                WorkerEvent::PageFailed { .. } => self.commanded(command, action, after),
            },
            _ => self.stopped(action, after),
        }
    }
}

/// The keys without any that equals one.
pub open spec fn without_key(keys: Seq<CachedPageKey>, key: CachedPageKey) -> Seq<CachedPageKey>
    decreases keys.len(),
{
    if keys.len() == 0 {
        keys
    } else {
        let before = without_key(keys.drop_last(), key);
        if keys.last() == key {
            before
        } else {
            before.push(keys.last())
        }
    }
}

impl WorkerLoop {
    /// A worker without a book, that waits for a command.
    pub fn new(session: WorkerSession) -> (worker: Self)
        ensures
            worker@ == (LoopView {
                session: session@,
                jobs: Seq::empty(),
                position: 0,
                phase: Phase::Idle,
            }),
            worker@.wf(),
    {
        WorkerLoop { session, jobs: Vec::new(), position: 0, phase: Phase::Idle }
    }

    /// Forgets that a page was published, because nobody holds it any more.
    pub fn forget_published(&mut self, key: CachedPageKey)
        requires
            old(self)@.wf(),
        ensures
            final(self)@ == (LoopView {
                session: SessionView {
                    hints: crate::worker::cache::without_hint(old(self)@.session.hints, key),
                    ..old(self)@.session
                },
                ..old(self)@
            }),
            final(self)@.wf(),
    {
        forget_published_app_cache_hint(&mut self.session.published_app_cache_hints, key);
    }

    /// Forgets that the application holds a page, because it let go of it.
    pub fn forget_observed(&mut self, key: CachedPageKey)
        requires
            old(self)@.wf(),
        ensures
            final(self)@ == (LoopView {
                session: SessionView {
                    options: crate::worker::api::WorkerOptions {
                        app_cached_pages: final(self)@.session.options.app_cached_pages,
                        ..old(self)@.session.options
                    },
                    ..old(self)@.session
                },
                ..old(self)@
            }),
            final(self)@.session.options.app_cached_pages@ == without_key(
                old(self)@.session.options.app_cached_pages@,
                key,
            ),
            final(self)@.wf(),
    {
        let mut kept: Vec<CachedPageKey> = Vec::new();
        let mut i: usize = 0;
        while i < self.session.options.app_cached_pages.len()
            invariant
                i <= self.session.options.app_cached_pages@.len(),
                self == old(self),
                kept@ == without_key(
                    self.session.options.app_cached_pages@.take(i as int),
                    key,
                ),
            decreases self.session.options.app_cached_pages@.len() - i,
        {
            let held: CachedPageKey = self.session.options.app_cached_pages[i];
            assert(self.session.options.app_cached_pages@.take(i + 1).drop_last()
                =~= self.session.options.app_cached_pages@.take(i as int));
            if held != key {
                kept.push(held);
            }
            i = i + 1;
        }
        assert(self.session.options.app_cached_pages@.take(i as int)
            =~= self.session.options.app_cached_pages@);
        self.session.options.app_cached_pages = kept;
    }

    fn stop(&mut self) -> (action: Action)
        ensures
            old(self)@.stopped(action, final(self)@),
            final(self)@.wf(),
    {
        self.phase = Phase::Stopped;
        Action::Stop
    }

    fn advance(&mut self) -> (action: Action)
        requires
            old(self).session.source is Some,
        ensures
            old(self)@.advanced(action, final(self)@),
            final(self)@.wf(),
    {
        if self.position >= self.jobs.len() {
            self.session.finish_schedule();
            self.phase = Phase::Idle;
            Action::Await
        } else {
            self.phase = Phase::Polling;
            Action::Poll
        }
    }

    fn skip(&mut self) -> (action: Action)
        requires
            old(self).session.source is Some,
            old(self).position < old(self).jobs@.len(),
        ensures
            old(self)@.skipped(action, final(self)@),
            final(self)@.wf(),
    {
        assert(self.jobs.len() == self.jobs@.len());
        self.position = self.position + 1;
        self.advance()
    }

    fn plan(&mut self) -> (action: Action)
        ensures
            old(self)@.planned(action, final(self)@),
            final(self)@.wf(),
    {
        let jobs = match &self.session.source {
            Some(source) => prioritized_jobs(
                self.session.center,
                source.page_count(),
                self.session.direction,
                self.session.target_long_edge,
                self.session.options.target_intent,
                self.session.visible_pages,
                self.session.options.prefetch_enabled,
                self.session.options.progressive_preview_enabled,
            ),
            None => {
                self.phase = Phase::Idle;
                return Action::Await;
            },
        };
        self.session.reconcile(&jobs);
        self.jobs = jobs;
        self.position = 0;
        self.advance()
    }

    fn obey(&mut self, command: WorkerCommand) -> (result: (Action, Option<u64>))
        ensures
            old(self)@.commanded(command, result.0, final(self)@),
            result.1 == match command {
                WorkerCommand::ClearBook { ack } => Some(ack),
                _ => None,
            },
            final(self)@.wf(),
    {
        let applied: Applied = self.session.apply(command);
        if !applied.alive {
            return (self.stop(), None);
        }
        (self.plan(), applied.acknowledge)
    }

    fn publish(&mut self, page_id: PageId, page: Arc<PreparedPage>) -> (action: Action)
        requires
            old(self).session.source is Some,
            old(self).position < old(self).jobs@.len(),
        ensures
            old(self)@.publishes(
                old(self).session.source->0,
                page_id,
                page@,
                action,
                final(self)@,
            ),
            final(self)@.wf(),
    {
        let job: PageJob = self.jobs[self.position];
        let decode = self.session.options.decode;
        remember_published_app_cache_hint(
            &mut self.session.published_app_cache_hints,
            CachedPageKey::new(page_id, job.target_long_edge, decode),
        );
        self.phase = Phase::Publishing;
        let budget_bytes: usize = self.session.options.cache_bytes;
        match &self.session.source {
            Some(source) => Action::Publish {
                event: WorkerEvent::PageReady {
                    book_id: source.book_id.as_str().to_owned(),
                    source_instance_id: source.instance_id,
                    page_id,
                    decode,
                    page,
                },
                budget_bytes,
            },
            None => Action::Stop,
        }
    }

    fn report(&mut self, page_id: PageId, message: String) -> (action: Action)
        requires
            old(self).session.source is Some,
            old(self).position < old(self).jobs@.len(),
        ensures
            old(self)@.reports(
                old(self).session.source->0,
                page_id,
                message@,
                action,
                final(self)@,
            ),
            final(self)@.wf(),
    {
        let job: PageJob = self.jobs[self.position];
        self.phase = Phase::Publishing;
        match &self.session.source {
            Some(source) => Action::Publish {
                event: WorkerEvent::PageFailed {
                    book_id: source.book_id.as_str().to_owned(),
                    source_instance_id: source.instance_id,
                    page_id,
                    target_long_edge: job.target_long_edge,
                    decode: self.session.options.decode,
                    message,
                },
                budget_bytes: self.session.options.cache_bytes,
            },
            None => Action::Stop,
        }
    }

    fn start_overlap(&mut self, seen: Observed) -> (overlap: Overlap)
        requires
            old(self).session.source is Some,
            old(self).position < old(self).jobs@.len(),
        ensures
            old(self)@.overlaps(old(self).session.source->0, seen, overlap),
            final(self)@ == (LoopView {
                session: old(self)@.overlapped(old(self).session.source->0, seen, overlap),
                ..old(self)@
            }),
    {
        discard_finished_read(&mut self.session.read_ahead, seen.read_finished);
        discard_finished_decode(&mut self.session.decode_ahead, seen.decode_finished);
        if self.session.has_completed_work() || self.session.read_ahead.is_some()
            || self.session.decode_ahead.is_some() {
            return Overlap::Nothing;
        }
        assert(self.jobs.len() == self.jobs@.len());
        match &self.session.source {
            Some(source) => {
                let overlap = choose_overlap(
                    source,
                    &self.jobs,
                    self.position + 1,
                    self.session.center,
                    self.session.visible_pages,
                    &self.session.options,
                    &self.session.cache,
                    &self.session.published_app_cache_hints,
                    self.session.decode_ahead_policy.candidate(),
                    seen.commands_waiting,
                );
                match &overlap {
                    Overlap::Nothing => {},
                    Overlap::Read(job, page_id) => {
                        self.session.read_ahead = Some(
                            ReadAhead {
                                book_id: source.book_id.as_str().to_owned(),
                                book_epoch: self.session.book_epoch,
                                page_id: *page_id,
                                index: job.index,
                                cancelled: false,
                            },
                        );
                    },
                    Overlap::Decode(job, page_id) => {
                        self.session.decode_ahead = Some(
                            DecodeAhead {
                                book_id: source.book_id.as_str().to_owned(),
                                book_epoch: self.session.book_epoch,
                                page_id: *page_id,
                                index: job.index,
                                target_long_edge: job.target_long_edge,
                                decode: self.session.options.decode,
                                cancelled: false,
                            },
                        );
                    },
                }
                overlap
            },
            None => Overlap::Nothing,
        }
    }

    fn proceed(
        &mut self,
        page_id: PageId,
        bytes: Result<SourcePageBytes, String>,
        seen: Observed,
    ) -> (action: Action)
        requires
            old(self).session.source is Some,
            old(self).position < old(self).jobs@.len(),
        ensures
            old(self)@.proceeds(
                old(self).session.source->0,
                page_id,
                bytes_view(bytes),
                seen,
                action,
                final(self)@,
            ),
            final(self)@.wf(),
    {
        let job: PageJob = self.jobs[self.position];
        let visible = is_visible_page_index(
            job.index,
            self.session.center,
            self.session.visible_pages,
        );
        if !visible && seen.commands_waiting {
            self.session.keep_read(page_id, bytes);
            self.phase = Phase::Replanning;
            return Action::Poll;
        }
        match bytes {
            Err(message) => self.report(page_id, message),
            Ok(bytes) => {
                let timed = match &self.session.source {
                    Some(source) => self.session.decode_ahead_policy.needs_prepare_timing_for(
                        source,
                        job.index,
                    ),
                    None => false,
                };
                let overlap = self.start_overlap(seen);
                self.phase = Phase::Preparing;
                Action::Prepare { bytes, job, decode: self.session.options.decode, timed, overlap }
            },
        }
    }

    fn fetch(&mut self, page_id: PageId, seen: Observed) -> (action: Action)
        requires
            old(self).session.source is Some,
            old(self).position < old(self).jobs@.len(),
        ensures
            old(self)@.fetches(old(self).session.source->0, page_id, seen, action, final(self)@),
            final(self)@.wf(),
    {
        let job: PageJob = self.jobs[self.position];
        if let Some(bytes) = self.session.take_read(page_id) {
            return self.proceed(page_id, bytes, seen);
        }
        let book_id: String = match &self.session.source {
            Some(source) => source.book_id.as_str().to_owned(),
            None => {
                return self.stop();
            },
        };
        let ahead = match &self.session.read_ahead {
            Some(read) => read.matches(book_id.as_str(), self.session.book_epoch, page_id),
            None => false,
        };
        if let Some(mut cache) = self.session.source_bytes_cache.take() {
            let found = cache.get(book_id.as_str(), page_id);
            self.session.source_bytes_cache = Some(cache);
            if let Some(bytes) = found {
                if ahead {
                    cancel_pending(&mut self.session.read_ahead);
                }
                return self.proceed(page_id, Ok(SourcePageBytes::Shared(bytes)), seen);
            }
        }
        self.phase = Phase::Reading;
        if ahead {
            self.session.read_ahead = None;
            Action::JoinRead
        } else {
            cancel_pending(&mut self.session.read_ahead);
            Action::Read { index: job.index }
        }
    }

    fn take_up(&mut self, seen: Observed) -> (action: Action)
        requires
            old(self).session.source is Some,
            old(self).position < old(self).jobs@.len(),
        ensures
            old(self)@.takes_up(old(self).session.source->0, seen, action, final(self)@),
            final(self)@.wf(),
    {
        let job: PageJob = self.jobs[self.position];
        let decode = self.session.options.decode;
        let (page_id, left_out, book_id, key): (PageId, bool, String, String) = match &self.session.source {
            Some(source) => match source.page_id(job.index) {
                Some(page_id) => (
                    page_id,
                    should_skip_ai_preview_or_prefetch(
                        source.page_name(job.index),
                        self.session.center,
                        self.session.visible_pages,
                        job.index,
                        job.target_long_edge,
                    ),
                    source.book_id.as_str().to_owned(),
                    page_cache_key(
                        source.book_id.as_str(),
                        source.cache_id,
                        page_id,
                        job.target_long_edge,
                        decode,
                    ),
                ),
                None => {
                    return self.skip();
                },
            },
            None => {
                return self.stop();
            },
        };
        if left_out {
            return self.skip();
        }
        let visible = is_visible_page_index(
            job.index,
            self.session.center,
            self.session.visible_pages,
        );
        if !visible && self.session.options.app_cache_covers(page_id, job.target_long_edge) {
            return self.skip();
        }
        if let Some(page) = self.session.take_page(page_id, job.target_long_edge) {
            return self.publish(page_id, page);
        }
        if let Some(page) = use_page(&mut self.session.cache, key.as_str()) {
            return self.publish(page_id, page);
        }
        if should_skip_published_app_cache_hint(
            &self.session.published_app_cache_hints,
            visible,
            page_id,
            job.target_long_edge,
            decode,
        ) {
            return self.skip();
        }
        let ahead = match &self.session.decode_ahead {
            Some(ahead) => ahead.matches(
                book_id.as_str(),
                self.session.book_epoch,
                page_id,
                job.target_long_edge,
                decode,
            ),
            None => false,
        };
        if ahead {
            self.session.decode_ahead = None;
            self.phase = Phase::Preparing;
            return Action::JoinDecode;
        }
        cancel_pending_decode(&mut self.session.decode_ahead);
        self.fetch(page_id, seen)
    }

    fn conclude(&mut self, page_id: PageId, result: Result<TimedPage, String>) -> (action: Action)
        requires
            old(self).session.source is Some,
            old(self).position < old(self).jobs@.len(),
        ensures
            old(self)@.concludes(
                old(self).session.source->0,
                page_id,
                match result {
                    Ok(timed) => Ok((timed.page@, timed.prepare_nanos)),
                    Err(message) => Err(message@),
                },
                action,
                final(self)@,
            ),
            final(self)@.wf(),
    {
        let job: PageJob = self.jobs[self.position];
        let timed: TimedPage = match result {
            Ok(timed) => timed,
            Err(message) => {
                return self.report(page_id, message);
            },
        };
        let prepare_nanos: Option<u128> = timed.prepare_nanos;
        let page = Arc::new(timed.page);
        let key: String = match &self.session.source {
            Some(source) => {
                self.session.decode_ahead_policy.observe_prepare(
                    source,
                    job.index,
                    page.decode_backend,
                    prepare_nanos,
                );
                page_cache_key(
                    source.book_id.as_str(),
                    source.cache_id,
                    page_id,
                    job.target_long_edge,
                    self.session.options.decode,
                )
            },
            None => {
                return self.stop();
            },
        };
        if self.session.decode_ahead_policy.candidate().is_none() {
            cancel_pending_decode(&mut self.session.decode_ahead);
        }
        let budget_bytes: usize = self.session.options.cache_bytes;
        if insert_worker_cache_with_budget(
            &mut self.session.cache,
            &mut self.session.cache_bytes,
            key,
            &page,
            budget_bytes,
        ) {
            prune_worker_cache(&mut self.session.cache, &mut self.session.cache_bytes, budget_bytes);
        }
        self.publish(page_id, page)
    }

    fn receive(
        &mut self,
        page_id: PageId,
        bytes: Result<Vec<u8>, String>,
        seen: Observed,
    ) -> (action: Action)
        requires
            old(self).session.source is Some,
            old(self).position < old(self).jobs@.len(),
        ensures
            old(self)@.receives(
                old(self).session.source->0,
                page_id,
                match bytes {
                    Ok(bytes) => Ok(bytes@),
                    Err(message) => Err(message@),
                },
                seen,
                action,
                final(self)@,
            ),
            final(self)@.wf(),
    {
        let bytes: Vec<u8> = match bytes {
            Ok(bytes) => bytes,
            Err(message) => {
                return self.proceed(page_id, Err(message), seen);
            },
        };
        let book_id: String = match &self.session.source {
            Some(source) => source.book_id.as_str().to_owned(),
            None => {
                return self.stop();
            },
        };
        let kept: SourcePageBytes = match self.session.source_bytes_cache.take() {
            Some(mut cache) => {
                let kept = cache.insert(book_id.as_str(), page_id, bytes);
                self.session.source_bytes_cache = Some(cache);
                kept
            },
            None => SourcePageBytes::Owned(bytes),
        };
        self.proceed(page_id, Ok(kept), seen)
    }

    /// The page of the job that is under way.
    fn current_page(&self) -> (page_id: Option<PageId>)
        ensures
            page_id == if self.position < self.jobs@.len() {
                match self.session.source {
                    Some(source) => source.id_at(self.jobs@[self.position as int].index as int),
                    None => None,
                }
            } else {
                None
            },
    {
        if self.position >= self.jobs.len() {
            return None;
        }
        match &self.session.source {
            Some(source) => source.page_id(self.jobs[self.position].index),
            None => None,
        }
    }

    /// What to do next, given what happened: see `LoopView::stepped`. Beside it stands whom a
    /// command owes an answer.
    pub fn step(&mut self, happening: Happening, seen: Observed) -> (result: (Action, Option<u64>))
        requires
            old(self)@.wf(),
        ensures
            old(self)@.stepped(happening, seen, result.0, final(self)@),
            result.1 == old(self)@.owed(happening),
            final(self)@.wf(),
    {
        match (self.phase, happening) {
            (Phase::Idle, Happening::Command(command)) => self.obey(command),
            (Phase::Polling, Happening::Command(command)) => self.obey(command),
            (Phase::Polling, Happening::NoCommand) => (self.take_up(seen), None),
            (Phase::Replanning, Happening::Command(command)) => self.obey(command),
            (Phase::Replanning, Happening::NoCommand) => (self.plan(), None),
            (Phase::Reading, Happening::Bytes(bytes)) => match self.current_page() {
                Some(page_id) => (self.receive(page_id, bytes, seen), None),
                None => (self.stop(), None),
            },
            (Phase::Preparing, Happening::Prepared(result)) => match self.current_page() {
                Some(page_id) => (self.conclude(page_id, result), None),
                None => (self.stop(), None),
            },
            (Phase::Publishing, Happening::Sent) => (self.skip(), None),
            (Phase::Publishing, Happening::Interrupted(command, event)) => {
                if let WorkerEvent::PageReady { page_id, decode, page, .. } = event {
                    self.session.keep_page(page_id, decode, page);
                }
                self.obey(command)
            },
            _ => (self.stop(), None),
        }
    }
}

impl LoopView {
    /// Whom what happened owes an answer: whoever asked for a book to be closed.
    pub open spec fn owed(self, happening: Happening) -> Option<u64> {
        match (self.phase, happening) {
            (
                Phase::Idle | Phase::Polling | Phase::Replanning,
                Happening::Command(WorkerCommand::ClearBook { ack }),
            ) => Some(ack),
            (
                Phase::Publishing,
                Happening::Interrupted(WorkerCommand::ClearBook { ack }, _),
            ) => Some(ack),
            _ => None,
        }
    }
}

/// A page that is shown is never passed over because of what the application is believed to hold:
/// it is published, or read or decoded to be published. Only an Illustrator preview is left out.
pub proof fn shown_page_is_never_passed_over(
    worker: LoopView,
    seen: Observed,
    action: Action,
    after: LoopView,
)
    requires
        worker.wf(),
        worker.phase == Phase::Polling,
        worker.is_visible(),
        worker.session.source->0.id_at(worker.jobs[worker.position].index as int) is Some,
        !crate::worker::scheduler::skips_ai_page(
            worker.session.source->0.name_at(worker.jobs[worker.position].index as int),
            worker.session.center,
            worker.session.visible_pages,
            worker.jobs[worker.position].index,
            worker.jobs[worker.position].target_long_edge,
        ),
        worker.stepped(Happening::NoCommand, seen, action, after),
    ensures
        action is Publish || action is JoinDecode || action is JoinRead || action is Read
            || action is Prepare,
        after.position == worker.position,
{
}

/// No more than one page is read or decoded ahead at a time, and nothing is while something that
/// was kept is still of use.
pub proof fn overlap_takes_a_free_lane(
    worker: LoopView,
    source: BookSnapshot,
    seen: Observed,
    overlap: Overlap,
)
    requires
        worker.overlaps(source, seen, overlap),
        !(overlap is Nothing),
    ensures
        worker.session.completed_read is None,
        worker.session.completed_page is None,
        worker.with_lanes(seen).read_ahead is None,
        worker.with_lanes(seen).decode_ahead is None,
        !seen.commands_waiting,
        worker.overlapped(source, seen, overlap).read_ahead is Some
            != worker.overlapped(source, seen, overlap).decode_ahead is Some,
{
}

/// Every step leaves the worker's byte count true and within its budget, as long as an address can
/// count twice that budget.
pub proof fn steps_keep_the_cache_accounted(
    worker: LoopView,
    happening: Happening,
    seen: Observed,
    action: Action,
    after: LoopView,
)
    requires
        worker.wf(),
        worker.session.accounted(),
        worker.session.capacity > 0,
        2 * worker.session.options.cache_bytes <= usize::MAX,
        worker.stepped(happening, seen, action, after),
    ensures
        after.session.accounted(),
        after.session.capacity == worker.session.capacity,
{
    let session = worker.session;
    let size = crate::worker::cache::page_size();
    match (worker.phase, happening) {
        (Phase::Idle, Happening::Command(command)) => {
            lemma_commands_keep_the_cache_accounted(worker, command, action, after);
        },
        (Phase::Polling, Happening::Command(command)) => {
            lemma_commands_keep_the_cache_accounted(worker, command, action, after);
        },
        (Phase::Replanning, Happening::Command(command)) => {
            lemma_commands_keep_the_cache_accounted(worker, command, action, after);
        },
        (Phase::Polling, Happening::NoCommand) => {
            let source = session.source->0;
            let job = worker.jobs[worker.position];
            if let Some(page_id) = source.id_at(job.index as int) {
                crate::worker::cache::touched_cache_stays_accounted(
                    session.pages,
                    size,
                    session.bytes,
                    crate::worker::cache::page_key(
                        source.book_id@,
                        source.cache_id,
                        page_id,
                        job.target_long_edge,
                        session.options.decode,
                    ),
                );
            }
        },
        (Phase::Preparing, Happening::Prepared(Ok(timed))) => {
            let source = session.source->0;
            let job = worker.jobs[worker.position];
            if let Some(page_id) = source.id_at(job.index as int) {
                let page = timed.page@;
                if page.byte_size <= session.options.cache_bytes {
                    crate::worker::cache::added_value_is_found(
                        session.pages,
                        size,
                        session.capacity,
                        session.bytes,
                        session.options.cache_bytes as int,
                        crate::worker::cache::page_key(
                            source.book_id@,
                            source.cache_id,
                            page_id,
                            job.target_long_edge,
                            session.options.decode,
                        ),
                        page,
                    );
                }
            }
        },
        (Phase::Publishing, Happening::Interrupted(command, event)) => {
            match event {
                WorkerEvent::PageReady { page_id, decode, page, .. } => {
                    let cached = choose|cached: bool|
                        LoopView {
                            session: #[trigger] session.page_kept(page_id, decode, page, cached),
                            ..worker
                        }.commanded(command, action, after);
                    lemma_commands_keep_the_cache_accounted(
                        LoopView {
                            session: session.page_kept(page_id, decode, page, cached),
                            ..worker
                        },
                        command,
                        action,
                        after,
                    );
                },
                WorkerEvent::PageFailed { .. } => {
                    lemma_commands_keep_the_cache_accounted(worker, command, action, after);
                },
            }
        },
        _ => {},
    }
}

proof fn lemma_commands_keep_the_cache_accounted(
    worker: LoopView,
    command: WorkerCommand,
    action: Action,
    after: LoopView,
)
    requires
        worker.session.accounted(),
        worker.commanded(command, action, after),
    ensures
        after.session.accounted(),
        after.session.capacity == worker.session.capacity,
{
    if !(command is Shutdown) {
        let session = choose|session: SessionView|
            #[trigger] worker.session.applied(command, session) && LoopView {
                session,
                ..worker
            }.planned(action, after);
        crate::worker::session::commands_keep_the_cache_accounted(
            worker.session,
            command,
            session,
        );
    }
}

/// Commands that wait, folded into one, and whom the ones before it owe an answer.
pub open spec fn drained(commands: Seq<WorkerCommand>) -> (Option<WorkerCommand>, Seq<u64>)
    decreases commands.len(),
{
    if commands.len() == 0 {
        (None, Seq::empty())
    } else {
        let (before, owed) = drained(commands.drop_last());
        match before {
            None => (Some(commands.last()), owed),
            Some(previous) => {
                let (next, answer) = crate::worker::session::folded(previous, commands.last());
                (
                    Some(next),
                    match answer {
                        Some(ack) => owed.push(ack),
                        None => owed,
                    },
                )
            },
        }
    }
}

/// Folds the commands that wait, in the order in which they came: see `drained`.
pub fn drain_latest_command(commands: VecDeque<WorkerCommand>) -> (result: (
    Option<WorkerCommand>,
    Vec<u64>,
))
    ensures
        result.0 == drained(commands@).0,
        result.1@ == drained(commands@).1,
{
    let ghost all = commands@;
    let mut waiting = commands;
    let mut latest: Option<WorkerCommand> = None;
    let mut owed: Vec<u64> = Vec::new();
    let ghost mut taken: int = 0;
    assert(all.take(0) =~= Seq::<WorkerCommand>::empty());
    assert(all.skip(0) =~= all);
    while waiting.len() > 0
        invariant
            0 <= taken <= all.len(),
            waiting@ == all.skip(taken),
            latest == drained(all.take(taken)).0,
            owed@ == drained(all.take(taken)).1,
        ensures
            taken == all.len(),
        decreases waiting@.len(),
    {
        let command: WorkerCommand = match waiting.pop_front() {
            Some(command) => command,
            None => {
                break;
            },
        };
        let (next, answer) = fold_command(latest, command);
        proof {
            assert(all.take(taken + 1).drop_last() =~= all.take(taken));
            assert(all.take(taken + 1).last() == command);
            assert(waiting@ =~= all.skip(taken + 1));
            taken = taken + 1;
        }
        latest = Some(next);
        if let Some(ack) = answer {
            owed.push(ack);
        }
    }
    assert(all.take(taken) =~= all);
    (latest, owed)
}

/// Nothing that comes behind a shutdown undoes it.
pub proof fn shutdown_is_final(commands: Seq<WorkerCommand>, i: int)
    requires
        0 <= i < commands.len(),
        commands[i] is Shutdown,
    ensures
        drained(commands).0 == Some(WorkerCommand::Shutdown),
    decreases commands.len(),
{
    if i < commands.len() - 1 {
        shutdown_is_final(commands.drop_last(), i);
    }
}

/// A book that is opened last, with nothing but page changes behind it, is the one that is open
/// afterwards, at the last page asked for.
pub proof fn last_book_survives_page_changes(commands: Seq<WorkerCommand>, i: int)
    requires
        0 <= i < commands.len(),
        commands[i] is LoadBook,
        forall|k: int| i < k < commands.len() ==> (#[trigger] commands[k]) is SetPage,
        forall|k: int| 0 <= k < i ==> !((#[trigger] commands[k]) is Shutdown),
    ensures
        drained(commands).0 matches Some(command) && command is LoadBook
            && command->LoadBook_source == commands[i]->LoadBook_source && (if i
            == commands.len() - 1 {
            command == commands[i]
        } else {
            command->LoadBook_center == commands.last()->SetPage_center
                && command->LoadBook_target_long_edge == commands.last()->SetPage_target_long_edge
                && command->LoadBook_visible_pages == commands.last()->SetPage_visible_pages
                && command->LoadBook_options == commands.last()->SetPage_options
        }),
    decreases commands.len(),
{
    if i == commands.len() - 1 {
        lemma_no_shutdown(commands.drop_last());
    } else {
        assert forall|k: int| i < k < commands.drop_last().len() implies (
        #[trigger] commands.drop_last()[k]) is SetPage by {
            assert(commands.drop_last()[k] == commands[k]);
        }
        assert forall|k: int| 0 <= k < i implies !((#[trigger] commands.drop_last()[k]) is Shutdown) by {
            assert(commands.drop_last()[k] == commands[k]);
        }
        last_book_survives_page_changes(commands.drop_last(), i);
        assert(commands[commands.len() - 1] is SetPage);
    }
}

proof fn lemma_no_shutdown(commands: Seq<WorkerCommand>)
    requires
        forall|k: int| 0 <= k < commands.len() ==> !((#[trigger] commands[k]) is Shutdown),
    ensures
        drained(commands).0 matches Some(command) ==> !(command is Shutdown),
    decreases commands.len(),
{
    if commands.len() > 0 {
        assert forall|k: int| 0 <= k < commands.drop_last().len() implies !((
        #[trigger] commands.drop_last()[k]) is Shutdown) by {
            assert(commands.drop_last()[k] == commands[k]);
        }
        lemma_no_shutdown(commands.drop_last());
        assert(!(commands[commands.len() - 1] is Shutdown));
    }
}

/// A page that was prepared is published as the page that the job asked for, and one that could not be
/// prepared is published as failed with that message. The page is cached under its own key where the
/// budget has room for it.
pub proof fn prepared_pages_are_published(
    worker: LoopView,
    seen: Observed,
    source: BookSnapshot,
    page_id: PageId,
    result: Result<TimedPage, String>,
    action: Action,
    after: LoopView,
)
    requires
        worker.phase == Phase::Preparing,
        worker.session.source == Some(source),
        source.id_at(worker.jobs[worker.position].index as int) == Some(page_id),
        worker.session.accounted(),
        worker.session.capacity > 0,
        2 * worker.session.options.cache_bytes <= usize::MAX,
        worker.stepped(Happening::Prepared(result), seen, action, after),
    ensures
        action matches Action::Publish { event, budget_bytes } && budget_bytes
            == worker.session.options.cache_bytes && match (result, event) {
            (
                Ok(timed),
                WorkerEvent::PageReady { book_id, source_instance_id, page_id: id, decode, page },
            ) => {
                &&& book_id@ == source.book_id@ && source_instance_id == source.instance_id
                &&& id == page_id && decode == worker.session.options.decode
                &&& page@ == timed.page@
            },
            (
                Err(message),
                WorkerEvent::PageFailed {
                    book_id,
                    source_instance_id,
                    page_id: id,
                    target_long_edge,
                    decode,
                    message: text,
                },
            ) => {
                &&& book_id@ == source.book_id@ && source_instance_id == source.instance_id
                &&& id == page_id && decode == worker.session.options.decode
                &&& target_long_edge == worker.jobs[worker.position].target_long_edge
                &&& text@ == message@
            },
            _ => false,
        },
        after.phase == Phase::Publishing && after.position == worker.position,
        result matches Ok(timed) ==> 0 <= timed.page.byte_size
            <= worker.session.options.cache_bytes ==> crate::worker::cache::entry_of(
            after.session.pages,
            crate::worker::cache::page_key(
                source.book_id@,
                source.cache_id,
                page_id,
                worker.jobs[worker.position].target_long_edge,
                worker.session.options.decode,
            ),
        ) == Some(timed.page@),
        result is Err ==> after.session.pages == worker.session.pages,
        result is Ok ==> after.session.hints.len() > 0 && after.session.hints.last() == (
        CachedPageKey {
            page_id,
            target_long_edge: crate::worker::api::clamped_target(
                worker.jobs[worker.position].target_long_edge,
            ),
            decode: worker.session.options.decode,
        }),
{
    if let Ok(timed) = result {
        if timed.page.byte_size <= worker.session.options.cache_bytes {
            crate::worker::cache::added_value_is_found(
                worker.session.pages,
                crate::worker::cache::page_size(),
                worker.session.capacity,
                worker.session.bytes,
                worker.session.options.cache_bytes as int,
                crate::worker::cache::page_key(
                    source.book_id@,
                    source.cache_id,
                    page_id,
                    worker.jobs[worker.position].target_long_edge,
                    worker.session.options.decode,
                ),
                timed.page@,
            );
        }
    }
}

/// A shown page that is in the cache is published from there, without reading or decoding anything,
/// unless a page that was kept is handed out first.
pub proof fn cached_pages_are_published_at_once(
    worker: LoopView,
    seen: Observed,
    source: BookSnapshot,
    page_id: PageId,
    action: Action,
    after: LoopView,
)
    requires
        worker.wf(),
        worker.phase == Phase::Polling,
        worker.is_visible(),
        worker.session.source == Some(source),
        worker.session.completed_page is None,
        source.id_at(worker.jobs[worker.position].index as int) == Some(page_id),
        !crate::worker::scheduler::skips_ai_page(
            source.name_at(worker.jobs[worker.position].index as int),
            worker.session.center,
            worker.session.visible_pages,
            worker.jobs[worker.position].index,
            worker.jobs[worker.position].target_long_edge,
        ),
        worker.stepped(Happening::NoCommand, seen, action, after),
    ensures
        crate::worker::cache::entry_of(
            worker.session.pages,
            crate::worker::cache::page_key(
                source.book_id@,
                source.cache_id,
                page_id,
                worker.jobs[worker.position].target_long_edge,
                worker.session.options.decode,
            ),
        ) matches Some(cached) ==> action is Publish && action->event is PageReady
            && action->event->PageReady_page@ == cached && action->event->PageReady_page_id
            == page_id,
{
}

/// The bytes that were read for a shown page are the ones that it is prepared from, for the job that
/// asked for them; where they could not be read, that is what is published.
pub proof fn pages_are_prepared_from_their_own_bytes(
    worker: LoopView,
    seen: Observed,
    source: BookSnapshot,
    page_id: PageId,
    bytes: Result<Vec<u8>, String>,
    action: Action,
    after: LoopView,
)
    requires
        worker.phase == Phase::Reading,
        worker.is_visible() || !seen.commands_waiting,
        worker.session.source == Some(source),
        source.id_at(worker.jobs[worker.position].index as int) == Some(page_id),
        worker.stepped(Happening::Bytes(bytes), seen, action, after),
    ensures
        bytes matches Ok(bytes) ==> action is Prepare && action->bytes@ == bytes@ && action->job
            == worker.jobs[worker.position] && action->Prepare_decode
            == worker.session.options.decode,
        bytes matches Err(message) ==> action is Publish && action->event is PageFailed
            && action->event->PageFailed_message@ == message@ && action->event->PageFailed_page_id
            == page_id,
        after.position == worker.position && after.jobs == worker.jobs,
{
}

/// Whoever asks for a book to be closed is answered: by the command that the closing is folded into,
/// or beside it. Only what comes behind a shutdown is not.
pub proof fn every_closing_is_answered(commands: Seq<WorkerCommand>, i: int)
    requires
        0 <= i < commands.len(),
        commands[i] is ClearBook,
        forall|k: int| 0 <= k < i ==> !((#[trigger] commands[k]) is Shutdown),
    ensures
        drained(commands).1.contains(commands[i]->ack) || drained(commands).0 == Some(commands[i]),
    decreases commands.len(),
{
    let before = commands.drop_last();
    let last = commands.len() - 1;
    let (folded, owed) = drained(before);
    if i == last {
        assert forall|k: int| 0 <= k < before.len() implies !((#[trigger] before[k]) is Shutdown) by {
            assert(before[k] == commands[k]);
        }
        lemma_no_shutdown(before);
    } else {
        assert forall|k: int| 0 <= k < i implies !((#[trigger] before[k]) is Shutdown) by {
            assert(before[k] == commands[k]);
        }
        assert(before[i] == commands[i]);
        every_closing_is_answered(before, i);
        let all = drained(commands).1;
        if owed.contains(commands[i]->ack) {
            let at = choose|at: int| 0 <= at < owed.len() && owed[at] == commands[i]->ack;
            assert(all[at] == owed[at]);
        } else {
            assert(all.last() == commands[i]->ack);
        }
    }
}

/// A page that the application no longer holds is struck from its list, every time it is there, and
/// nothing else is.
pub proof fn only_the_key_is_struck(keys: Seq<CachedPageKey>, key: CachedPageKey, other: CachedPageKey)
    ensures
        !without_key(keys, key).contains(key),
        other != key ==> (without_key(keys, key).contains(other) <==> keys.contains(other)),
        without_key(keys, key).len() <= keys.len(),
    decreases keys.len(),
{
    if keys.len() > 0 {
        let front = keys.drop_last();
        let last = keys.last();
        only_the_key_is_struck(front, key, other);
        let before = without_key(front, key);
        let after = without_key(keys, key);
        assert(keys =~= front.push(last));
        assert(keys.contains(other) <==> front.contains(other) || other == last) by {
            if keys.contains(other) {
                let at = choose|at: int| 0 <= at < keys.len() && keys[at] == other;
                if at < front.len() {
                    assert(front[at] == other);
                }
            }
            if front.contains(other) {
                let at = choose|at: int| 0 <= at < front.len() && front[at] == other;
                assert(keys[at] == other);
            }
            if other == last {
                assert(keys[keys.len() - 1] == other);
            }
        }
        if last != key {
            assert(after.contains(other) <==> before.contains(other) || other == last) by {
                if after.contains(other) {
                    let at = choose|at: int| 0 <= at < after.len() && after[at] == other;
                    if at < before.len() {
                        assert(before[at] == other);
                    }
                }
                if before.contains(other) {
                    let at = choose|at: int| 0 <= at < before.len() && before[at] == other;
                    assert(after[at] == other);
                }
                if other == last {
                    assert(after[after.len() - 1] == other);
                }
            }
            if after.contains(key) {
                let at = choose|at: int| 0 <= at < after.len() && after[at] == key;
                if at < before.len() {
                    assert(before[at] == key);
                }
            }
        }
    }
}

/// A shown page whose bytes are kept is prepared from those bytes, without reading the page again.
pub proof fn kept_bytes_are_not_read_again(
    worker: LoopView,
    seen: Observed,
    source: BookSnapshot,
    page_id: PageId,
    sources: crate::worker::source_bytes::SourceBytesView,
    bytes: Seq<u8>,
    action: Action,
    after: LoopView,
)
    requires
        worker.wf(),
        worker.phase == Phase::Polling,
        worker.is_visible(),
        worker.session.source == Some(source),
        worker.session.completed_page is None,
        worker.session.completed_read is None,
        worker.session.decode_ahead is None,
        worker.session.sources == Some(sources),
        sources.found(source.book_id@, page_id) == Some(bytes),
        source.id_at(worker.jobs[worker.position].index as int) == Some(page_id),
        !crate::worker::scheduler::skips_ai_page(
            source.name_at(worker.jobs[worker.position].index as int),
            worker.session.center,
            worker.session.visible_pages,
            worker.jobs[worker.position].index,
            worker.jobs[worker.position].target_long_edge,
        ),
        !crate::worker::cache::has_key(
            worker.session.pages,
            crate::worker::cache::page_key(
                source.book_id@,
                source.cache_id,
                page_id,
                worker.jobs[worker.position].target_long_edge,
                worker.session.options.decode,
            ),
        ),
        worker.stepped(Happening::NoCommand, seen, action, after),
    ensures
        action is Prepare && action->bytes@ == bytes && action->job == worker.jobs[worker.position],
        after.session.pages == worker.session.pages && after.position == worker.position,
{
}

/// A shutdown ends the worker in every phase in which a command is waited for, and whoever asks for a
/// book to be closed in such a phase is owed an answer.
pub proof fn shutdowns_end_the_worker(
    worker: LoopView,
    seen: Observed,
    action: Action,
    after: LoopView,
    ack: u64,
)
    requires
        worker.phase == Phase::Idle || worker.phase == Phase::Polling || worker.phase
            == Phase::Replanning,
    ensures
        worker.stepped(Happening::Command(WorkerCommand::Shutdown), seen, action, after) ==> action
            is Stop && after.phase == Phase::Stopped,
        worker.stepped(Happening::Disconnected, seen, action, after) ==> action is Stop && after.phase
            == Phase::Stopped,
        worker.owed(Happening::Command(WorkerCommand::ClearBook { ack })) == Some(ack),
        worker.owed(Happening::Command(WorkerCommand::Shutdown)) is None,
        worker.owed(Happening::NoCommand) is None,
{
}

/// A page that is not shown is passed over where the application holds it or was given it already, and
/// the job behind it comes next.
pub proof fn held_pages_are_passed_over_unless_shown(
    worker: LoopView,
    seen: Observed,
    source: BookSnapshot,
    page_id: PageId,
    action: Action,
    after: LoopView,
)
    requires
        worker.wf(),
        worker.phase == Phase::Polling,
        !worker.is_visible(),
        worker.session.source == Some(source),
        source.id_at(worker.jobs[worker.position].index as int) == Some(page_id),
        crate::worker::api::any_covers(
            worker.session.options.app_cached_pages@,
            page_id,
            worker.jobs[worker.position].target_long_edge,
            worker.session.options.decode,
        ),
        worker.stepped(Happening::NoCommand, seen, action, after),
    ensures
        after.position == worker.position + 1,
        worker.position + 1 < worker.jobs.len() ==> action is Poll && after.phase == Phase::Polling,
        worker.position + 1 >= worker.jobs.len() ==> action is Await && after.phase == Phase::Idle,
        after.session.pages == worker.session.pages,
{
}

/// The bytes of a page that is not shown give way to a command that waits: they are kept for the same
/// page, and the schedule is made anew.
pub proof fn waiting_commands_come_before_hidden_pages(
    worker: LoopView,
    seen: Observed,
    source: BookSnapshot,
    page_id: PageId,
    bytes: Vec<u8>,
    action: Action,
    after: LoopView,
)
    requires
        worker.phase == Phase::Reading,
        !worker.is_visible(),
        seen.commands_waiting,
        worker.session.source == Some(source),
        source.id_at(worker.jobs[worker.position].index as int) == Some(page_id),
        worker.stepped(Happening::Bytes(Ok(bytes)), seen, action, after),
    ensures
        action is Poll,
        after.phase == Phase::Replanning,
        after.session.completed_read is Some,
        after.session.completed_read->0.page_id == page_id,
        after.session.completed_read->0.epoch == worker.session.book_epoch,
        bytes_view(after.session.completed_read->0.bytes) == Ok::<Seq<u8>, Seq<char>>(bytes@),
{
}

/// What is started ahead is for the book as it is now, and is found again under the page that it is for:
/// a read under the page, a decode under the page at the size of its job and with the options asked for.
/// The other lane keeps what it had.
pub proof fn work_ahead_is_found_again(
    worker: LoopView,
    source: BookSnapshot,
    seen: Observed,
    job: PageJob,
    page_id: PageId,
)
    ensures
        ({
            let after = worker.overlapped(source, seen, Overlap::Read(job, page_id));
            &&& after.read_ahead is Some
            &&& after.read_ahead->0.matches(source.book_id@, worker.session.book_epoch, page_id)
            &&& after.read_ahead->0.index == job.index
            &&& after.decode_ahead == worker.with_lanes(seen).decode_ahead
            &&& after.pages == worker.session.pages
        }),
        ({
            let after = worker.overlapped(source, seen, Overlap::Decode(job, page_id));
            &&& after.decode_ahead is Some
            &&& after.decode_ahead->0.matches(
                source.book_id@,
                worker.session.book_epoch,
                page_id,
                job.target_long_edge,
                worker.session.options.decode,
            )
            &&& after.decode_ahead->0.index == job.index
            &&& after.read_ahead == worker.with_lanes(seen).read_ahead
            &&& after.pages == worker.session.pages
        }),
{
}

} // verus!
