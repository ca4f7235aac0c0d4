//! The worker as a whole, driven step by step: reads, prefetching, delivery and commands.
use image::{DynamicImage, ImageFormat, Rgb, RgbImage};
use lru::LruCache;
use std::collections::VecDeque;
use std::io::Cursor;
use std::num::NonZeroUsize;
use std::sync::{Arc, Weak};
use suisuiview::source::{BookSnapshot, PageEntry, PageId};
use suisuiview::worker::ahead::{
    cancel_if_not_scheduled, cancel_pending, cancel_pending_decode,
    cancel_pending_decode_if_not_scheduled, choose_overlap,
    clear_pending_decode_if_context_changed, discard_finished_decode, discard_finished_read,
    is_scheduled, DecodeAhead, Overlap, ReadAhead,
};
use suisuiview::worker::api::{
    clamp_target_long_edge, CachedPageKey, DecodeBackend, DecodeOptions, NavigationDirection,
    PagePixels, PreparedPage, WorkerCommand, WorkerEvent, WorkerOptions,
    MAX_ORIGINAL_TARGET_LONG_EDGE, MIN_WORKER_CACHE_BYTES,
};
use suisuiview::worker::cache::{
    insert_worker_cache_with_budget, page_cache_key, PublishedAppCacheHints,
};
use suisuiview::worker::decode_policy::{
    DecodeAheadCandidate, DecodeAheadMode, DecodeAheadPolicy,
};
use suisuiview::worker::delivery::{event_bytes, DeliveryUsage, MAX_PENDING_EVENTS};
use suisuiview::worker::prepare::prepare_image_with_options;
use suisuiview::worker::run_loop::{
    drain_latest_command, Action, Happening, Observed, Phase, TimedPage, WorkerLoop,
};
use suisuiview::worker::scheduler::PageJob;
use suisuiview::worker::session::WorkerSession;

fn snapshot(book: &str, instance: u64, count: usize, name: &str) -> BookSnapshot {
    BookSnapshot {
        book_id: book.to_owned(),
        instance_id: instance,
        cache_id: 7,
        concurrent_reads: false,
        pages: (0..count)
            .map(|index| PageEntry {
                page_id: PageId(index as u32),
                name: name.to_owned(),
            })
            .collect(),
    }
}

/// A 24-bit bitmap of one color.
fn bitmap(edge: usize) -> Vec<u8> {
    let stride = (edge * 3 + 3) & !3;
    let mut encoded = vec![0; 54 + stride * edge];
    let length = encoded.len() as u32;
    for (offset, value) in [
        (2, length),
        (10, 54),
        (14, 40),
        (18, edge as u32),
        (22, edge as u32),
    ] {
        encoded[offset..offset + 4].copy_from_slice(&value.to_le_bytes());
    }
    encoded[..2].copy_from_slice(b"BM");
    encoded[26..28].copy_from_slice(&1u16.to_le_bytes());
    encoded[28..30].copy_from_slice(&24u16.to_le_bytes());
    for row in encoded[54..].chunks_mut(stride) {
        for pixel in row[..edge * 3].chunks_mut(3) {
            pixel.copy_from_slice(&[17, 80, 160]);
        }
    }
    encoded
}

/// A book in memory that counts its reads.
struct Book {
    snapshot: BookSnapshot,
    encoded: Vec<u8>,
    reads: Vec<usize>,
}

impl Book {
    fn new(book: &str, instance: u64, count: usize, edge: usize) -> Self {
        Self {
            snapshot: snapshot(book, instance, count, "page.bmp"),
            encoded: bitmap(edge),
            reads: vec![0; count],
        }
    }

    fn read(&mut self, index: usize) -> Vec<u8> {
        self.reads[index] += 1;
        self.encoded.clone()
    }
}

/// What one run of the driver ended with.
#[derive(Debug, PartialEq, Eq)]
enum Rest {
    /// The worker waits for a command.
    Idle,
    /// The result queue is full.
    Blocked,
    /// The read that is under way ahead has not ended.
    Joining,
    Stopped,
}

/// Performs the worker's actions on books in memory, one after the other.
struct Driver {
    worker: WorkerLoop,
    next: Action,
    books: Vec<Book>,
    commands: VecDeque<WorkerCommand>,
    read_lane: Option<Result<Vec<u8>, String>>,
    decode_lane: Option<Result<TimedPage, String>>,
    held_back: bool,
    usage: DeliveryUsage,
    queue: VecDeque<WorkerEvent>,
    published: Vec<(CachedPageKey, Weak<PreparedPage>)>,
    acks: Vec<u64>,
    steps: usize,
    command_on_read: Option<(usize, WorkerCommand)>,
}

impl Driver {
    fn new(books: Vec<Book>) -> Self {
        Self::with_budget(books, None)
    }

    fn with_budget(books: Vec<Book>, source_bytes: Option<usize>) -> Self {
        let policy = DecodeAheadPolicy::new(DecodeAheadMode::Adaptive);
        Self {
            worker: WorkerLoop::new(WorkerSession::new(source_bytes, policy)),
            next: Action::Await,
            books,
            commands: VecDeque::new(),
            read_lane: None,
            decode_lane: None,
            held_back: false,
            usage: DeliveryUsage::default(),
            queue: VecDeque::new(),
            published: Vec::new(),
            acks: Vec::new(),
            steps: 0,
            command_on_read: None,
        }
    }

    fn load_book(&mut self, book: usize, center: usize, target: u32, options: WorkerOptions) {
        self.commands.push_back(WorkerCommand::LoadBook {
            source: self.books[book].snapshot.clone(),
            center,
            direction: NavigationDirection::Forward,
            target_long_edge: target,
            visible_pages: 1,
            options,
        });
    }

    fn set_page(&mut self, center: usize, target: u32, options: WorkerOptions) {
        self.commands.push_back(WorkerCommand::SetPage {
            center,
            direction: NavigationDirection::Forward,
            target_long_edge: target,
            visible_pages: 1,
            options,
        });
    }

    fn read(&mut self, index: usize) -> Vec<u8> {
        if let Some((page, _)) = &self.command_on_read {
            if *page == index {
                let (_, command) = self.command_on_read.take().unwrap();
                self.commands.push_back(command);
            }
        }
        let instance = self.worker.session.source.as_ref().unwrap().instance_id;
        self.books
            .iter_mut()
            .find(|book| book.snapshot.instance_id == instance)
            .unwrap()
            .read(index)
    }

    /// Performs one action, unless the worker is at rest.
    fn perform(&mut self) -> Option<Rest> {
        let action = std::mem::replace(&mut self.next, Action::Await);
        let happening = match action {
            Action::Await => match self.commands.pop_front() {
                Some(command) => Happening::Command(command),
                None => return Some(Rest::Idle),
            },
            Action::Poll => {
                let waiting = std::mem::take(&mut self.commands);
                let (command, acks) = drain_latest_command(waiting);
                self.acks.extend(acks);
                match command {
                    Some(command) => Happening::Command(command),
                    None => Happening::NoCommand,
                }
            }
            Action::JoinRead => {
                if self.held_back {
                    self.next = Action::JoinRead;
                    return Some(Rest::Joining);
                }
                Happening::Bytes(self.read_lane.take().unwrap())
            }
            Action::Read { index } => Happening::Bytes(Ok(self.read(index))),
            Action::JoinDecode => Happening::Prepared(self.decode_lane.take().unwrap()),
            Action::Prepare {
                bytes,
                job,
                decode,
                overlap,
                ..
            } => {
                match overlap {
                    Overlap::Nothing => {}
                    Overlap::Read(ahead, _) => {
                        let bytes = self.read(ahead.index);
                        self.read_lane = Some(Ok(bytes));
                    }
                    Overlap::Decode(ahead, _) => {
                        let bytes = self.read(ahead.index);
                        let page =
                            prepare_image_with_options(&bytes, ahead.target_long_edge, decode);
                        self.decode_lane = Some(page.map(|page| TimedPage {
                            page,
                            prepare_nanos: None,
                        }));
                    }
                }
                let page =
                    prepare_image_with_options(bytes.as_slice(), job.target_long_edge, decode);
                Happening::Prepared(page.map(|page| TimedPage {
                    page,
                    prepare_nanos: None,
                }))
            }
            Action::Publish {
                event,
                budget_bytes,
            } => {
                if self.usage.accept(event_bytes(&event), budget_bytes) {
                    if let WorkerEvent::PageReady {
                        page_id,
                        decode,
                        page,
                        ..
                    } = &event
                    {
                        let key = CachedPageKey::new(*page_id, page.target_long_edge, *decode);
                        self.published.retain(|(known, _)| *known != key);
                        self.published.push((key, Arc::downgrade(page)));
                    }
                    self.queue.push_back(event);
                    Happening::Sent
                } else if let Some(command) = self.commands.pop_front() {
                    Happening::Interrupted(command, event)
                } else {
                    self.next = Action::Publish {
                        event,
                        budget_bytes,
                    };
                    return Some(Rest::Blocked);
                }
            }
            Action::Stop => return Some(Rest::Stopped),
        };
        let gone: Vec<CachedPageKey> = self
            .published
            .iter()
            .filter(|(_, page)| page.strong_count() == 0)
            .map(|(key, _)| *key)
            .collect();
        for key in gone {
            self.worker.forget_published(key);
        }
        self.published.retain(|(_, page)| page.strong_count() > 0);
        let seen = Observed {
            commands_waiting: !self.commands.is_empty(),
            read_finished: self.read_lane.is_some() && !self.held_back,
            decode_finished: self.decode_lane.is_some(),
        };
        let (action, ack) = self.worker.step(happening, seen);
        self.next = action;
        self.acks.extend(ack);
        self.steps += 1;
        if self.worker.session.read_ahead.is_none() && !matches!(self.next, Action::JoinRead) {
            self.read_lane = None;
        }
        if self.worker.session.decode_ahead.is_none()
            && !matches!(self.next, Action::JoinDecode)
        {
            self.decode_lane = None;
        }
        None
    }

    /// Performs at most `limit` actions.
    fn run(&mut self, limit: usize) -> Rest {
        for _ in 0..limit {
            if let Some(rest) = self.perform() {
                return rest;
            }
        }
        panic!("the worker did not come to rest");
    }

    fn take_event(&mut self) -> Option<WorkerEvent> {
        let event = self.queue.pop_front()?;
        self.usage.release(event_bytes(&event));
        Some(event)
    }

    /// Runs until the worker is idle, taking every result as soon as it is there.
    fn receive_all(&mut self) -> Vec<WorkerEvent> {
        let mut events = Vec::new();
        loop {
            let rest = self.run(10_000);
            while let Some(event) = self.take_event() {
                if let WorkerEvent::PageFailed { message, .. } = &event {
                    panic!("synthetic image: {message}");
                }
                events.push(event);
            }
            match rest {
                Rest::Blocked => {}
                Rest::Idle | Rest::Stopped => return events,
                Rest::Joining => panic!("synthetic read was not released"),
            }
        }
    }
}

fn options(prefetch: bool) -> WorkerOptions {
    WorkerOptions {
        prefetch_enabled: prefetch,
        progressive_preview_enabled: false,
        cache_bytes: 8 * 1024 * 1024,
        ..WorkerOptions::default()
    }
}

/// A worker that shows page 0 and reads page 1 ahead; that read has not ended.
fn waiting_prefetch(concurrent_reads: bool, others: Vec<Book>) -> Driver {
    let mut book = Book::new("book-a", 1, 2, 8);
    book.snapshot.concurrent_reads = concurrent_reads;
    let mut books = vec![book];
    books.extend(others);
    let mut driver = Driver::new(books);
    driver.held_back = true;
    driver.load_book(0, 0, 1024, options(true));
    assert_eq!(driver.run(10_000), Rest::Joining);
    assert_eq!(driver.books[0].reads, vec![1, 1]);
    driver
}

fn page_number(event: &WorkerEvent) -> u32 {
    match event {
        WorkerEvent::PageReady { page_id, .. } => page_id.0,
        WorkerEvent::PageFailed { page_id, .. } => page_id.0,
    }
}

#[test]
fn promoting_prefetched_bytes_reads_once_with_either_prefetch_policy() {
    for prefetch in [true, false] {
        let mut driver = waiting_prefetch(false, Vec::new());
        driver.set_page(1, 1024, options(prefetch));
        driver.held_back = false;
        let events = driver.receive_all();
        assert!(events.iter().any(|event| page_number(event) == 1));
        assert_eq!(driver.books[0].reads[1], 1);
        driver.commands.push_back(WorkerCommand::Shutdown);
        assert_eq!(driver.run(10), Rest::Stopped);
    }
}

#[test]
fn completed_encoded_read_survives_decode_and_target_changes() {
    let mut driver = waiting_prefetch(false, Vec::new());
    let mut changed = options(false);
    changed.decode.apply_exif_orientation = true;
    driver.set_page(1, 2048, changed);
    driver.held_back = false;
    let events = driver.receive_all();
    assert!(
        matches!(events.last(), Some(WorkerEvent::PageReady { decode, page, .. }) if decode.apply_exif_orientation && page.target_long_edge == 2048)
    );
    assert_eq!(page_number(events.last().unwrap()), 1);
    assert_eq!(driver.books[0].reads[1], 1);
}

#[test]
fn source_switch_and_snapshot_refresh_reject_old_completed_bytes() {
    for book in ["book-a", "book-b"] {
        let mut driver = waiting_prefetch(false, vec![Book::new(book, 2, 2, 8)]);
        driver.load_book(1, 1, 1024, options(false));
        driver.held_back = false;
        let events = driver.receive_all();
        assert!(
            matches!(events.last(), Some(WorkerEvent::PageReady { source_instance_id: 2, book_id, .. }) if book_id == book)
        );
        assert_eq!(page_number(events.last().unwrap()), 1);
        assert_eq!(driver.books[0].reads[1], 1);
        assert_eq!(driver.books[1].reads[1], 1);
    }
}

#[test]
fn target_change_reuses_offscreen_bytes_without_duplicate_overlap() {
    let mut driver = waiting_prefetch(true, Vec::new());
    driver.set_page(0, 2048, options(true));
    driver.held_back = false;
    let events = driver.receive_all();
    assert!(
        matches!(events.last(), Some(WorkerEvent::PageReady { page, .. }) if page.target_long_edge == 2048)
    );
    assert_eq!(page_number(events.last().unwrap()), 1);
    assert_eq!(driver.books[0].reads[1], 1);
}

#[test]
fn no_moment_of_a_page_turn_reads_a_page_twice() {
    // However many steps have been taken when the page is turned, the read that was begun is
    // the one that is used.
    for steps in 1..12 {
        let mut driver = Driver::new(vec![Book::new("book-a", 1, 2, 8)]);
        driver.load_book(0, 0, 1024, options(true));
        while driver.steps < steps && driver.perform().is_none() {}
        driver.set_page(1, 1024, options(true));
        let events = driver.receive_all();
        assert!(events.iter().any(|event| page_number(event) == 1));
        assert!(driver.books[0].reads.iter().all(|reads| *reads <= 1));
    }
}

#[test]
fn dropped_publications_are_prefetched_again_after_worker_lru_eviction() {
    let mut driver = Driver::new(vec![Book::new("book", 1, 13, 8)]);
    driver.load_book(0, 0, 1024, options(true));
    let first = driver.receive_all();
    assert_eq!(first.iter().map(page_number).max(), Some(12));
    drop(first);
    driver.set_page(0, 1024, options(true));
    let events = driver.receive_all();
    assert!(events
        .iter()
        .any(|event| matches!(event, WorkerEvent::PageReady { page_id, .. } if page_id.0 == 1)));
    assert_eq!(driver.books[0].reads[1], 2);
}

#[test]
fn publications_that_are_still_held_are_not_prefetched_again() {
    let mut driver = Driver::new(vec![Book::new("book", 1, 13, 8)]);
    driver.load_book(0, 0, 1024, options(true));
    let held = driver.receive_all();
    driver.set_page(0, 1024, options(true));
    let events = driver.receive_all();
    assert!(events.iter().any(|event| page_number(event) == 0));
    assert_eq!(driver.books[0].reads[1], 1);
    drop(held);
}

#[test]
fn expired_app_cache_observation_cannot_hide_a_visible_request() {
    for clear_worker_cache in [false, true] {
        let mut driver = Driver::new(vec![Book::new("book", 1, 2, 8)]);
        driver.load_book(0, 0, 1024, options(false));
        let events = driver.receive_all();
        let WorkerEvent::PageReady {
            page_id,
            page,
            decode,
            ..
        } = &events[0]
        else {
            unreachable!()
        };
        let key = CachedPageKey::new(*page_id, 1024, *decode);
        let observed = Arc::downgrade(page);
        if clear_worker_cache {
            driver.commands.push_back(WorkerCommand::ClearBook { ack: 3 });
            assert_eq!(driver.run(100), Rest::Idle);
            assert_eq!(driver.acks, vec![3]);
        }
        drop(events);
        assert_eq!(observed.strong_count() > 0, !clear_worker_cache);
        let mut request = options(false);
        if observed.strong_count() > 0 {
            request.app_cached_pages.push(key);
        }
        driver.load_book(0, 0, 1024, request);
        let events = driver.receive_all();
        assert!(events.iter().any(|event| page_number(event) == 0));
        assert_eq!(
            driver.books[0].reads[0],
            if clear_worker_cache { 2 } else { 1 }
        );
    }
}

#[test]
fn deferred_results_keep_their_budget_and_full_queue_accepts_clear() {
    let mut driver = Driver::new(vec![Book::new("queue", 1, 14, 1024)]);
    driver.load_book(0, 0, 1024, options(true));
    let budget = options(true).cache_bytes;
    assert_eq!(driver.run(10_000), Rest::Blocked);
    assert_eq!(driver.usage.bytes, budget);
    let deferred = driver.queue.pop_front().unwrap();
    // Removing from the transport does not release admission while UI defers it.
    assert_eq!(driver.usage.bytes, budget);
    driver.commands.push_back(WorkerCommand::ClearBook { ack: 9 });
    assert_eq!(driver.run(100), Rest::Idle);
    assert_eq!(
        driver.acks,
        vec![9],
        "full result queue must not hide commands"
    );
    driver.usage.release(event_bytes(&deferred));
    while driver.take_event().is_some() {}
    assert_eq!(driver.usage.bytes, 0);
    assert_eq!(driver.usage, DeliveryUsage::default());
}

#[test]
fn worker_publishes_completed_page_before_handling_queued_command() {
    let image = RgbImage::from_fn(48, 32, |x, y| {
        Rgb([
            ((x * 3 + y) % 255) as u8,
            ((x + y * 5) % 255) as u8,
            ((x * 7 + y * 11) % 255) as u8,
        ])
    });
    let mut encoded = Vec::new();
    DynamicImage::ImageRgb8(image)
        .write_to(&mut Cursor::new(&mut encoded), ImageFormat::Png)
        .unwrap();
    let mut driver = Driver::new(vec![Book {
        snapshot: snapshot("commanding", 1, 2, "page-0000.png"),
        encoded,
        reads: vec![0; 2],
    }]);
    driver.command_on_read = Some((
        0,
        WorkerCommand::SetPage {
            center: 1,
            direction: NavigationDirection::Forward,
            target_long_edge: 2048,
            visible_pages: 1,
            options: WorkerOptions::default(),
        },
    ));
    driver.load_book(0, 0, 2048, WorkerOptions::default());
    let events = driver.receive_all();

    match &events[0] {
        WorkerEvent::PageReady { page_id, .. } => assert_eq!(*page_id, PageId(0)),
        WorkerEvent::PageFailed { message, .. } => panic!("page failed: {message}"),
    }
}

#[test]
fn read_source_bytes_uses_cache_before_source() {
    // The pages are too large for the page cache, so each request decodes them anew.
    let mut driver = Driver::with_budget(vec![Book::new("counting-source", 1, 4, 8)], Some(1024));
    let mut request = options(false);
    request.cache_bytes = 16;
    driver.load_book(0, 2, 1024, request.clone());
    let first = driver.receive_all();
    driver.set_page(2, 1024, request);
    let second = driver.receive_all();

    for events in [&first, &second] {
        assert!(
            matches!(events.last(), Some(WorkerEvent::PageReady { page, .. }) if page.display_width == 8)
        );
    }
    assert_eq!(driver.books[0].reads[2], 1);
}

#[test]
fn a_page_that_cannot_be_decoded_is_reported() {
    let mut driver = Driver::new(vec![Book {
        snapshot: snapshot("broken", 4, 1, "page.png"),
        encoded: b"not-an-image".to_vec(),
        reads: vec![0],
    }]);
    driver.load_book(0, 0, 1024, options(true));
    assert_eq!(driver.run(1000), Rest::Idle);
    match driver.take_event().unwrap() {
        WorkerEvent::PageFailed {
            book_id,
            source_instance_id,
            page_id,
            target_long_edge,
            message,
            ..
        } => {
            assert_eq!(book_id, "broken");
            assert_eq!(source_instance_id, 4);
            assert_eq!(page_id, PageId(0));
            assert_eq!(target_long_edge, 1024);
            assert!(!message.is_empty());
        }
        WorkerEvent::PageReady { .. } => panic!("the page is no image"),
    }
}

#[test]
fn a_happening_out_of_turn_stops_the_worker() {
    let mut driver = Driver::new(Vec::new());
    let seen = Observed {
        commands_waiting: false,
        read_finished: false,
        decode_finished: false,
    };
    let (action, ack) = driver.worker.step(Happening::Disconnected, seen);
    assert!(matches!(action, Action::Stop));
    assert_eq!(ack, None);
    assert_eq!(driver.worker.phase, Phase::Stopped);
}

fn load_command(book_id: &str, center: usize) -> WorkerCommand {
    WorkerCommand::LoadBook {
        source: snapshot(book_id, 0, 1, "001.png"),
        center,
        direction: NavigationDirection::Forward,
        target_long_edge: 2048,
        visible_pages: 1,
        options: WorkerOptions::default(),
    }
}

fn page_command(center: usize) -> WorkerCommand {
    WorkerCommand::SetPage {
        center,
        direction: NavigationDirection::Forward,
        target_long_edge: 4096,
        visible_pages: 2,
        options: WorkerOptions::default(),
    }
}

#[test]
fn drain_keeps_the_book_install_when_a_set_page_lands_behind_it() {
    let (folded, acks) =
        drain_latest_command(VecDeque::from([load_command("book-b", 0), page_command(7)]));

    match folded.expect("a command") {
        WorkerCommand::LoadBook {
            source,
            center,
            target_long_edge,
            visible_pages,
            ..
        } => {
            assert_eq!(source.book_id, "book-b");
            // The newest page parameters still win.
            assert_eq!(center, 7);
            assert_eq!(target_long_edge, 4096);
            assert_eq!(visible_pages, 2);
        }
        _ => panic!("book install was dropped by the drain"),
    }
    assert!(acks.is_empty());
}

#[test]
fn drain_keeps_the_newest_book_when_two_loads_are_queued() {
    let waiting = VecDeque::from([load_command("book-a", 0), load_command("book-b", 3)]);
    match drain_latest_command(waiting).0.expect("a command") {
        WorkerCommand::LoadBook { source, center, .. } => {
            assert_eq!(source.book_id, "book-b");
            assert_eq!(center, 3);
        }
        _ => panic!("newest book install was dropped by the drain"),
    }
}

#[test]
fn drain_acknowledges_a_superseded_clear_book() {
    let waiting = VecDeque::from([
        WorkerCommand::ClearBook { ack: 11 },
        load_command("book-b", 0),
    ]);
    let (folded, acks) = drain_latest_command(waiting);

    assert_eq!(
        acks,
        vec![11],
        "clear_book_blocking would report a timeout for a release that happened"
    );
    assert!(matches!(folded, Some(WorkerCommand::LoadBook { .. })));
}

#[test]
fn drain_never_supersedes_shutdown() {
    let waiting = VecDeque::from([WorkerCommand::Shutdown, page_command(2)]);
    assert!(matches!(
        drain_latest_command(waiting).0.expect("a command"),
        WorkerCommand::Shutdown
    ));
}

#[test]
fn nothing_to_drain_is_no_command() {
    let (folded, acks) = drain_latest_command(VecDeque::new());
    assert!(folded.is_none());
    assert!(acks.is_empty());
}

fn page_of(height: usize) -> Arc<PreparedPage> {
    Arc::new(PreparedPage {
        pixels: PagePixels::Rgba(vec![0; 2048 * height * 4].into()),
        original_width: 2048,
        original_height: height,
        display_width: 2048,
        display_height: height,
        byte_size: 2048 * height * 4,
        target_long_edge: 2048,
        decode_backend: DecodeBackend::ImageCrate,
        notice: None,
    })
}

fn ready(id: u32, page: Arc<PreparedPage>) -> WorkerEvent {
    WorkerEvent::PageReady {
        book_id: "book".to_owned(),
        source_instance_id: 0,
        page_id: PageId(id),
        decode: DecodeOptions::default(),
        page,
    }
}

const NOTHING_SEEN: Observed = Observed {
    commands_waiting: false,
    read_finished: false,
    decode_finished: false,
};

/// A worker that is about to publish a result.
fn publishing(session: WorkerSession) -> WorkerLoop {
    let mut worker = WorkerLoop::new(session);
    worker.jobs = vec![PageJob {
        index: 0,
        target_long_edge: 2048,
    }];
    worker.phase = Phase::Publishing;
    worker
}

#[test]
fn backpressure_replans_do_not_displace_the_uncached_result() {
    let cached = page_of(1024);
    let uncached = page_of(2048);
    let options = WorkerOptions {
        cache_bytes: cached.byte_size,
        ..WorkerOptions::default()
    };
    let open = |count: usize| {
        let mut session =
            WorkerSession::new(None, DecodeAheadPolicy::new(DecodeAheadMode::Adaptive));
        session.apply(WorkerCommand::LoadBook {
            source: snapshot("book", 0, count, "001.png"),
            center: 0,
            direction: NavigationDirection::Forward,
            target_long_edge: 2048,
            visible_pages: 1,
            options: options.clone(),
        });
        let key = page_cache_key("book", 7, PageId(0), 2048, options.decode);
        assert!(insert_worker_cache_with_budget(
            &mut session.cache,
            &mut session.cache_bytes,
            key,
            &cached,
            options.cache_bytes
        ));
        session
    };
    let command = || WorkerCommand::SetPage {
        center: 0,
        direction: NavigationDirection::Forward,
        target_long_edge: 2048,
        visible_pages: 1,
        options: options.clone(),
    };
    let results = [(1, uncached.clone()), (0, cached.clone()), (0, cached.clone())];
    assert!(uncached.byte_size > options.cache_bytes);
    let mut usage = DeliveryUsage::default();
    assert!(usage.accept(cached.byte_size, options.cache_bytes));

    // Delivery is interrupted by a command: the result is kept, and the command applied.
    let mut session = open(1);
    for (id, page) in results.clone() {
        assert!(!usage.admits(page.byte_size, options.cache_bytes));
        session.keep_page(PageId(id), DecodeOptions::default(), page);
        assert!(session.apply(command()).alive);
    }
    assert!(Arc::ptr_eq(
        &session.take_page(PageId(1), 2048).unwrap(),
        &uncached
    ));

    // The loop also plans anew each time, so the book has both pages.
    let mut worker = publishing(open(2));
    for (id, page) in results {
        let (action, ack) =
            worker.step(Happening::Interrupted(command(), ready(id, page)), NOTHING_SEEN);
        assert!(matches!(action, Action::Poll));
        assert_eq!(ack, None);
        worker.phase = Phase::Publishing;
    }
    assert!(Arc::ptr_eq(
        &worker.session.take_page(PageId(1), 2048).unwrap(),
        &uncached
    ));
}

#[test]
fn a_page_that_the_application_let_go_of_is_forgotten() {
    let key = |id| CachedPageKey::new(PageId(id), 2048, DecodeOptions::default());
    let mut session =
        WorkerSession::new(None, DecodeAheadPolicy::new(DecodeAheadMode::Adaptive));
    session.options.app_cached_pages = vec![key(1), key(2), key(1), key(3)];
    let mut worker = WorkerLoop::new(session);
    worker.forget_observed(key(1));
    assert_eq!(worker.session.options.app_cached_pages, vec![key(2), key(3)]);
    worker.forget_observed(key(9));
    assert_eq!(worker.session.options.app_cached_pages, vec![key(2), key(3)]);
}

#[test]
fn delivery_interruption_retains_pixels_before_budget_reduction_prunes_them() {
    let page = Arc::new(PreparedPage {
        pixels: PagePixels::Rgba(vec![0; 12 * 1024 * 1024].into()),
        original_width: 2048,
        original_height: 1536,
        display_width: 2048,
        display_height: 1536,
        byte_size: 12 * 1024 * 1024,
        target_long_edge: 2048,
        decode_backend: DecodeBackend::ImageCrate,
        notice: None,
    });
    let mut session =
        WorkerSession::new(None, DecodeAheadPolicy::new(DecodeAheadMode::Adaptive));
    session.apply(load_command("book", 0));
    session.options.cache_bytes = 16 * 1024 * 1024;
    let key = page_cache_key("book", 7, PageId(0), 2048, session.options.decode);
    let budget = session.options.cache_bytes;
    assert!(insert_worker_cache_with_budget(
        &mut session.cache,
        &mut session.cache_bytes,
        key,
        &page,
        budget
    ));
    let mut usage = DeliveryUsage::default();
    assert!(usage.accept(page.byte_size, budget));
    assert!(!usage.admits(page.byte_size, budget));
    let command = WorkerCommand::SetPage {
        center: 0,
        direction: NavigationDirection::Forward,
        target_long_edge: 2048,
        visible_pages: 1,
        options: WorkerOptions {
            cache_bytes: 8 * 1024 * 1024,
            ..WorkerOptions::default()
        },
    };
    let mut worker = publishing(session);
    let (action, _) = worker.step(
        Happening::Interrupted(command, ready(0, page.clone())),
        NOTHING_SEEN,
    );
    assert!(matches!(action, Action::Poll));
    assert!(worker.session.cache.is_empty());
    assert!(Arc::ptr_eq(
        &worker.session.take_page(PageId(0), 2048).unwrap(),
        &page
    ));
}

#[test]
fn full_or_single_oversize_delivery_still_accepts_shutdown() {
    let event = || {
        ready(
            0,
            Arc::new(PreparedPage {
                pixels: PagePixels::Rgba(vec![0; 4].into()),
                original_width: 1,
                original_height: 1,
                display_width: 1,
                display_height: 1,
                byte_size: 4,
                target_long_edge: 1024,
                decode_backend: DecodeBackend::ImageCrate,
                notice: None,
            }),
        )
    };
    for budget in [2, 4] {
        let mut usage = DeliveryUsage::default();
        assert!(usage.accept(event_bytes(&event()), budget));
        assert_eq!(usage.bytes, 4);
        // The first result remains queued, so the next one is not admitted.
        assert!(!usage.accept(event_bytes(&event()), budget));
        let mut session =
            WorkerSession::new(None, DecodeAheadPolicy::new(DecodeAheadMode::Adaptive));
        session.apply(load_command("book", 0));
        let mut worker = publishing(session);
        let (action, _) = worker.step(
            Happening::Interrupted(WorkerCommand::Shutdown, event()),
            NOTHING_SEEN,
        );
        assert!(matches!(action, Action::Stop));
        assert_eq!(usage.bytes, 4);
        usage.release(4);
        assert_eq!(usage.bytes, 0);
    }
}

#[test]
fn accepting_a_deferred_result_wakes_blocked_delivery() {
    let mut usage = DeliveryUsage::default();
    assert!(usage.accept(4, 4));
    assert!(!usage.accept(4, 4));
    usage.release(4);
    assert!(usage.accept(4, 4));
}

#[test]
fn at_most_so_many_results_wait() {
    let mut usage = DeliveryUsage::default();
    for _ in 0..MAX_PENDING_EVENTS {
        assert!(usage.accept(0, 4));
    }
    assert!(!usage.accept(0, 4));
    assert_eq!(usage.events, 64);
}

fn read_ahead(page: u32) -> ReadAhead {
    ReadAhead {
        book_id: "book".to_owned(),
        book_epoch: 7,
        page_id: PageId(page),
        index: page as usize,
        cancelled: false,
    }
}

fn decode_ahead(page: u32, index: usize) -> DecodeAhead {
    DecodeAhead {
        book_id: "book".to_owned(),
        book_epoch: 7,
        page_id: PageId(page),
        index,
        target_long_edge: 2048,
        decode: DecodeOptions::default(),
        cancelled: false,
    }
}

fn full_jobs(indices: &[usize]) -> Vec<PageJob> {
    indices
        .iter()
        .map(|index| PageJob {
            index: *index,
            target_long_edge: 2048,
        })
        .collect()
}

fn empty_cache() -> LruCache<String, Arc<PreparedPage>> {
    LruCache::new(NonZeroUsize::new(4).unwrap())
}

#[test]
fn read_ahead_matches_book_epoch_and_page() {
    let read = read_ahead(1);

    assert!(read.matches("book", 7, PageId(1)));
    assert!(!read.matches("book", 8, PageId(1)));
    assert!(!read.matches("other", 7, PageId(1)));
    assert!(!read.matches("book", 7, PageId(2)));
}

#[test]
fn decode_ahead_consume_matches_page_id_not_index_and_rejects_post_swap_epoch() {
    // A decode spawned pre-swap carries page_id 5 while sitting at index 0.
    // A request is matched by page_id (not index), and a post-swap
    // request (bumped epoch) no longer matches even at the same page_id.
    let decode = DecodeOptions::default();
    let pending = decode_ahead(5, 0);

    assert!(pending.matches("book", 7, PageId(5), 2048, decode));
    // Wrong page_id (the index value) does not match.
    assert!(!pending.matches("book", 7, PageId(0), 2048, decode));
    // Post-swap epoch (bumped) does not match the same page_id.
    assert!(!pending.matches("book", 8, PageId(5), 2048, decode));
}

#[test]
fn clear_pending_decode_keeps_matching_context() {
    let mut pending = Some(decode_ahead(1, 1));
    clear_pending_decode_if_context_changed(
        &mut pending,
        Some("book"),
        7,
        2048,
        DecodeOptions::default(),
    );
    assert!(pending.as_ref().is_some_and(|decode| !decode.cancelled));

    clear_pending_decode_if_context_changed(
        &mut pending,
        Some("book"),
        7,
        4096,
        DecodeOptions::default(),
    );
    assert!(pending.is_none_or(|decode| decode.cancelled));
}

#[test]
fn cancelled_decode_is_not_consumed_as_page_result() {
    let mut pending = Some(decode_ahead(1, 1));
    cancel_pending_decode(&mut pending);
    assert!(!pending
        .as_ref()
        .unwrap()
        .matches("book", 7, PageId(1), 2048, DecodeOptions::default()));
    // It keeps its lane until it has ended.
    discard_finished_decode(&mut pending, false);
    assert!(pending.is_some());
    discard_finished_decode(&mut pending, true);
    assert!(pending.is_none());
}

#[test]
fn cancelled_read_keeps_its_lane_until_it_has_ended() {
    let mut pending = Some(read_ahead(1));
    cancel_pending(&mut pending);
    assert!(!pending.as_ref().unwrap().matches("book", 7, PageId(1)));
    discard_finished_read(&mut pending, false);
    assert!(pending.is_some());
    discard_finished_read(&mut pending, true);
    assert!(pending.is_none());
}

#[test]
fn cancel_pending_decode_if_not_scheduled_rechecks_app_cache() {
    let mut pending = Some(decode_ahead(1, 1));
    let source = snapshot("book", 0, 2, "page-0000.png");
    let options = WorkerOptions {
        progressive_preview_enabled: false,
        app_cached_pages: vec![CachedPageKey::new(
            PageId(1),
            2048,
            DecodeOptions::default(),
        )],
        ..WorkerOptions::default()
    };
    cancel_pending_decode_if_not_scheduled(
        &mut pending,
        &source,
        7,
        &full_jobs(&[1]),
        1,
        1,
        &options,
        &empty_cache(),
        &PublishedAppCacheHints::new(),
    );
    assert!(pending.is_none_or(|decode| decode.cancelled));
}

#[test]
fn a_scheduled_decode_goes_on() {
    let mut pending = Some(decode_ahead(1, 1));
    cancel_pending_decode_if_not_scheduled(
        &mut pending,
        &snapshot("book", 0, 2, "page-0000.png"),
        7,
        &full_jobs(&[1]),
        1,
        1,
        &WorkerOptions::default(),
        &empty_cache(),
        &PublishedAppCacheHints::new(),
    );
    assert!(pending.is_some_and(|decode| !decode.cancelled));
}

#[test]
fn a_read_that_no_job_leads_to_is_cancelled() {
    let source = snapshot("book", 0, 3, "page-0000.png");
    assert!(is_scheduled(&source, &full_jobs(&[0, 1]), PageId(1)));
    assert!(!is_scheduled(&source, &full_jobs(&[0, 1]), PageId(2)));
    let mut pending = Some(read_ahead(2));
    cancel_if_not_scheduled(&mut pending, &source, 7, &full_jobs(&[0, 1]));
    assert!(pending.is_none_or(|read| read.cancelled));
}

fn overlap_of(
    source: &BookSnapshot,
    jobs: &[usize],
    start: usize,
    candidate: Option<DecodeAheadCandidate>,
    commands_waiting: bool,
) -> Overlap {
    let options = WorkerOptions {
        progressive_preview_enabled: false,
        ..WorkerOptions::default()
    };
    choose_overlap(
        source,
        &full_jobs(jobs),
        start,
        0,
        1,
        &options,
        &empty_cache(),
        &PublishedAppCacheHints::new(),
        candidate,
        commands_waiting,
    )
}

#[test]
fn serialized_source_does_not_start_speculative_decode() {
    let mut source = snapshot("book", 0, 2, "page-0000.png");
    let any = Some(DecodeAheadCandidate::Any);
    let overlap = overlap_of(&source, &[1], 0, any, false);
    assert!(!matches!(overlap, Overlap::Decode(..)));

    source.concurrent_reads = true;
    let overlap = overlap_of(&source, &[1], 0, any, false);
    assert!(matches!(overlap, Overlap::Decode(job, PageId(1)) if job.index == 1));
}

#[test]
fn adaptive_candidate_does_not_skip_nearer_non_matching_job() {
    let mut source = snapshot("book", 0, 3, "");
    source.concurrent_reads = true;
    for (page, name) in source
        .pages
        .iter_mut()
        .zip(["page-0000.jpg", "page-0001.webp", "page-0002.webp"])
    {
        page.name = name.to_owned();
    }
    let webp = Some(DecodeAheadCandidate::WebpCluster);
    let overlap = overlap_of(&source, &[0, 1, 2], 0, webp, false);
    assert!(!matches!(overlap, Overlap::Decode(..)));
    let overlap = overlap_of(&source, &[0, 1, 2], 1, webp, false);
    assert!(matches!(overlap, Overlap::Decode(job, PageId(1)) if job.index == 1));
}

#[test]
fn next_job_is_read_ahead_unless_a_command_waits() {
    let source = snapshot("book", 0, 2, "page-0000.png");
    let overlap = overlap_of(&source, &[0, 1], 1, None, false);
    assert!(matches!(overlap, Overlap::Read(job, PageId(1)) if job.index == 1));
    let overlap = overlap_of(&source, &[0, 1], 1, None, true);
    assert!(matches!(overlap, Overlap::Nothing));
    let overlap = overlap_of(&source, &[0, 1], 2, None, false);
    assert!(matches!(overlap, Overlap::Nothing));
}

#[test]
fn commands_stay_within_their_limits() {
    let options = || WorkerOptions {
        cache_bytes: 0,
        ..WorkerOptions::default()
    };
    let forward = NavigationDirection::Forward;
    match WorkerCommand::set_page(3, forward, 1, 0, options()) {
        WorkerCommand::SetPage {
            center,
            target_long_edge,
            visible_pages,
            options,
            ..
        } => {
            assert_eq!((center, visible_pages), (3, 1));
            assert_eq!(target_long_edge, clamp_target_long_edge(1));
            assert_eq!(options.cache_bytes, MIN_WORKER_CACHE_BYTES);
        }
        _ => panic!("a page is to be set"),
    }
    match WorkerCommand::load_book(
        snapshot("book", 5, 1, "001.png"),
        0,
        forward,
        u32::MAX,
        2,
        WorkerOptions::default(),
    ) {
        WorkerCommand::LoadBook {
            source,
            target_long_edge,
            visible_pages,
            options,
            ..
        } => {
            assert_eq!(source.instance_id, 5);
            assert_eq!(target_long_edge, MAX_ORIGINAL_TARGET_LONG_EDGE);
            assert_eq!(visible_pages, 2);
            assert_eq!(options.cache_bytes, WorkerOptions::default().cache_bytes);
        }
        _ => panic!("a book is to be loaded"),
    }
}

#[test]
fn a_page_is_cached_where_it_is_at_the_place_of_one() {
    assert!(!WorkerSession::is_cached(&vec![]));
    assert!(!WorkerSession::is_cached(&vec![false, false]));
    assert!(WorkerSession::is_cached(&vec![false, true]));
    assert!(WorkerSession::is_cached(&vec![true, false, false]));
}
