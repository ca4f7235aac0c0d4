//! The optional cache of encoded pages.
use crate::source::PageId;
use crate::text;
use crate::worker::prepare::shared_bytes;
use lru::LruCache;
use std::sync::Arc;
use vstd::prelude::*;

verus! {

pub const DEFAULT_SOURCE_BYTES_CACHE_MB: usize = 64;

pub const MIN_SOURCE_BYTES_CACHE_MB: usize = 8;

pub const MAX_SOURCE_BYTES_CACHE_MB: usize = 256;

pub const SOURCE_BYTES_CACHE_ENTRY_LIMIT: usize = 128;

/// The encoded pages in a cache under their keys, the most recently used first.
pub uninterp spec fn cached_sources(cache: LruCache<String, Arc<[u8]>>) -> Seq<
    (Seq<char>, Seq<u8>),
>;

/// How many encoded pages a cache can hold.
pub uninterp spec fn source_capacity(cache: LruCache<String, Arc<[u8]>>) -> nat;

/// `lru::LruCache::new`.
#[verifier::external_body]
fn new_source_cache(capacity: usize) -> (cache: LruCache<String, Arc<[u8]>>)
    requires
        capacity > 0,
    ensures
        cached_sources(cache) == Seq::<(Seq<char>, Seq<u8>)>::empty(),
        source_capacity(cache) == capacity,
{
    LruCache::new(std::num::NonZeroUsize::new(capacity).unwrap())
}

/// `lru::LruCache::push`: the entry that had the key, or else the one that gave way, is handed
/// back.
#[verifier::external_body]
fn push_source(cache: &mut LruCache<String, Arc<[u8]>>, key: String, bytes: Arc<[u8]>) -> (lost:
    Option<(String, Arc<[u8]>)>)
    ensures
        cached_sources(*final(cache)) == crate::worker::cache::pushed(
            cached_sources(*old(cache)),
            source_capacity(*old(cache)),
            key@,
            bytes@,
        ),
        source_capacity(*final(cache)) == source_capacity(*old(cache)),
        match lost {
            Some((lost_key, lost_bytes)) => crate::worker::cache::displaced(
                cached_sources(*old(cache)),
                source_capacity(*old(cache)),
                key@,
            ) == Some((lost_key@, lost_bytes@)),
            None => crate::worker::cache::displaced(
                cached_sources(*old(cache)),
                source_capacity(*old(cache)),
                key@,
            ) == None::<(Seq<char>, Seq<u8>)>,
        },
{
    cache.push(key, bytes)
}

/// `lru::LruCache::pop_lru`: the least recently used entry leaves.
#[verifier::external_body]
fn pop_oldest_source(cache: &mut LruCache<String, Arc<[u8]>>) -> (oldest: Option<
    (String, Arc<[u8]>),
>)
    ensures
        source_capacity(*final(cache)) == source_capacity(*old(cache)),
        match oldest {
            Some((key, bytes)) => {
                &&& cached_sources(*old(cache)).len() > 0
                &&& cached_sources(*old(cache)).last() == (key@, bytes@)
                &&& cached_sources(*final(cache)) == cached_sources(*old(cache)).drop_last()
            },
            None => cached_sources(*old(cache)).len() == 0 && cached_sources(*final(cache))
                == cached_sources(*old(cache)),
        },
{
    cache.pop_lru()
}

/// `lru::LruCache::get`, with the bytes shared: the entry becomes the most recently used.
#[verifier::external_body]
fn use_source(cache: &mut LruCache<String, Arc<[u8]>>, key: &str) -> (bytes: Option<Arc<[u8]>>)
    ensures
        source_capacity(*final(cache)) == source_capacity(*old(cache)),
        cached_sources(*final(cache)) == crate::worker::cache::touched(
            cached_sources(*old(cache)),
            key@,
        ),
        match bytes {
            Some(bytes) => crate::worker::cache::entry_of(cached_sources(*old(cache)), key@)
                == Some(bytes@),
            None => crate::worker::cache::entry_of(cached_sources(*old(cache)), key@) == None::<
                Seq<u8>,
            >,
        },
{
    cache.get(key).cloned()
}

/// `lru::LruCache::clear`.
#[verifier::external_body]
fn clear_sources(cache: &mut LruCache<String, Arc<[u8]>>)
    ensures
        cached_sources(*final(cache)) == Seq::<(Seq<char>, Seq<u8>)>::empty(),
        source_capacity(*final(cache)) == source_capacity(*old(cache)),
{
    cache.clear()
}

/// `Arc::clone` of the standard library: the bytes themselves are shared.
#[verifier::external_body]
fn share_bytes(bytes: &Arc<[u8]>) -> (shared: Arc<[u8]>)
    ensures
        shared@ == bytes@,
{
    bytes.clone()
}

/// The encoded bytes of a page.
pub enum SourcePageBytes {
    Owned(Vec<u8>),
    Shared(Arc<[u8]>),
}

impl View for SourcePageBytes {
    type V = Seq<u8>;

    open spec fn view(&self) -> Seq<u8> {
        match self {
            SourcePageBytes::Owned(bytes) => bytes@,
            SourcePageBytes::Shared(bytes) => bytes@,
        }
    }
}

impl SourcePageBytes {
    pub fn as_slice(&self) -> (bytes: &[u8])
        ensures
            bytes@ == self@,
    {
        match self {
            SourcePageBytes::Owned(bytes) => bytes.as_slice(),
            SourcePageBytes::Shared(bytes) => bytes,
        }
    }
}

/// The bytes that an encoded page counts for.
pub open spec fn source_size() -> spec_fn(Seq<u8>) -> int {
    |bytes: Seq<u8>| bytes.len() as int
}

/// Encoded pages, up to a budget.
pub struct SourceBytesCache {
    pub entries: LruCache<String, Arc<[u8]>>,
    pub bytes: usize,
    pub budget_bytes: usize,
}

/// Such a cache as plain data.
pub struct SourceBytesView {
    pub entries: Seq<(Seq<char>, Seq<u8>)>,
    pub capacity: nat,
    pub bytes: int,
    pub budget: int,
}

impl View for SourceBytesCache {
    type V = SourceBytesView;

    open spec fn view(&self) -> SourceBytesView {
        SourceBytesView {
            entries: cached_sources(self.entries),
            capacity: source_capacity(self.entries),
            bytes: self.bytes as int,
            budget: self.budget_bytes as int,
        }
    }
}

/// The key of an encoded page.
pub open spec fn source_key(book_id: Seq<char>, page_id: PageId) -> Seq<char> {
    book_id + ":"@ + text::decimal(page_id.0 as int)
}

pub fn source_bytes_key(book_id: &str, page_id: PageId) -> (key: String)
    ensures
        key@ == source_key(book_id@, page_id),
{
    let mut key = book_id.to_owned();
    key.append(":");
    text::push_decimal(&mut key, page_id.0 as u64);
    key
}

impl SourceBytesView {
    /// The cache once a page has been looked up.
    pub open spec fn looked_up(self, book_id: Seq<char>, page_id: PageId) -> SourceBytesView {
        SourceBytesView {
            entries: crate::worker::cache::touched(self.entries, source_key(book_id, page_id)),
            ..self
        }
    }

    /// The bytes of a page.
    pub open spec fn found(self, book_id: Seq<char>, page_id: PageId) -> Option<Seq<u8>> {
        crate::worker::cache::entry_of(self.entries, source_key(book_id, page_id))
    }

    /// The cache once a page has been added: not at all where it alone is beyond the budget, and
    /// otherwise with as many of the least recently used ones gone as the budget asks for.
    pub open spec fn inserted(self, book_id: Seq<char>, page_id: PageId, bytes: Seq<u8>) -> SourceBytesView {
        let key = source_key(book_id, page_id);
        let (entries, count) = crate::worker::cache::pruned(
            crate::worker::cache::pushed(self.entries, self.capacity, key, bytes),
            source_size(),
            crate::worker::cache::bytes_after_push(
                self.entries,
                source_size(),
                self.capacity,
                self.bytes,
                key,
                bytes,
            ),
            self.budget,
        );
        if bytes.len() > self.budget {
            self
        } else {
            SourceBytesView { entries, bytes: count, ..self }
        }
    }

    /// The cache without its pages.
    pub open spec fn cleared(self) -> SourceBytesView {
        SourceBytesView { entries: Seq::empty(), bytes: 0, ..self }
    }
}

impl SourceBytesCache {
    pub fn new(budget_bytes: usize) -> (cache: Self)
        ensures
            cache@ == (SourceBytesView {
                entries: Seq::empty(),
                capacity: SOURCE_BYTES_CACHE_ENTRY_LIMIT as nat,
                bytes: 0,
                budget: budget_bytes as int,
            }),
    {
        SourceBytesCache {
            entries: new_source_cache(SOURCE_BYTES_CACHE_ENTRY_LIMIT),
            bytes: 0,
            budget_bytes,
        }
    }

    pub fn get(&mut self, book_id: &str, page_id: PageId) -> (bytes: Option<Arc<[u8]>>)
        ensures
            final(self)@ == old(self)@.looked_up(book_id@, page_id),
            match bytes {
                Some(bytes) => old(self)@.found(book_id@, page_id) == Some(bytes@),
                None => old(self)@.found(book_id@, page_id) is None,
            },
    {
        let key = source_bytes_key(book_id, page_id);
        use_source(&mut self.entries, key.as_str())
    }

    pub fn insert(&mut self, book_id: &str, page_id: PageId, bytes: Vec<u8>) -> (kept:
        SourcePageBytes)
        ensures
            final(self)@ == old(self)@.inserted(book_id@, page_id, bytes@),
            kept@ == bytes@,
            kept is Shared <==> bytes@.len() <= old(self).budget_bytes,
    {
        let byte_len: usize = bytes.len();
        if byte_len > self.budget_bytes {
            return SourcePageBytes::Owned(bytes);
        }
        let ghost before = self@;
        let shared = shared_bytes(bytes);
        let key = source_bytes_key(book_id, page_id);
        if let Some((_, lost)) = push_source(&mut self.entries, key, share_bytes(&shared)) {
            self.bytes = self.bytes.saturating_sub(lost.len());
        }
        self.bytes = self.bytes.saturating_add(byte_len);
        let ghost target = crate::worker::cache::pruned(
            self@.entries,
            source_size(),
            self@.bytes,
            self@.budget,
        );
        while self.bytes > self.budget_bytes
            invariant
                self@.capacity == before.capacity,
                self@.budget == before.budget,
                crate::worker::cache::pruned(
                    self@.entries,
                    source_size(),
                    self@.bytes,
                    self@.budget,
                ) == target,
            ensures
                (self@.entries, self@.bytes) == target,
            decreases self@.entries.len(),
        {
            match pop_oldest_source(&mut self.entries) {
                Some((_, lost)) => {
                    self.bytes = self.bytes.saturating_sub(lost.len());
                },
                None => {
                    break;
                },
            }
        }
        SourcePageBytes::Shared(shared)
    }

    pub fn clear(&mut self)
        ensures
            final(self)@ == old(self)@.cleared(),
    {
        clear_sources(&mut self.entries);
        self.bytes = 0;
    }
}

impl SourceBytesView {
    /// The byte count is the sum of what is held, which is within the budget and the capacity.
    pub open spec fn wf(self) -> bool {
        &&& crate::worker::cache::accounted(self.entries, source_size(), self.bytes)
        &&& self.bytes <= self.budget <= usize::MAX / 2
        &&& self.entries.len() <= self.capacity
        &&& self.capacity > 0
    }
}

/// Whatever is done to a cache keeps its byte count true and within the budget, and what was put
/// into it is found in it again as long as it fits the budget.
pub proof fn source_cache_stays_sound(
    cache: SourceBytesView,
    book_id: Seq<char>,
    page_id: PageId,
    bytes: Seq<u8>,
)
    requires
        cache.wf(),
    ensures
        cache.cleared().wf(),
        cache.looked_up(book_id, page_id).wf(),
        cache.looked_up(book_id, page_id).found(book_id, page_id) == cache.found(book_id, page_id),
        cache.inserted(book_id, page_id, bytes).wf(),
        bytes.len() <= cache.budget ==> cache.inserted(book_id, page_id, bytes).found(
            book_id,
            page_id,
        ) == Some(bytes),
        bytes.len() > cache.budget ==> cache.inserted(book_id, page_id, bytes) == cache,
{
    let key = source_key(book_id, page_id);
    crate::worker::cache::lemma_total_is_positive(cache.entries, source_size());
    crate::worker::cache::touched_cache_stays_accounted(
        cache.entries,
        source_size(),
        cache.bytes,
        key,
    );
    if bytes.len() <= cache.budget {
        crate::worker::cache::added_value_is_found(
            cache.entries,
            source_size(),
            cache.capacity,
            cache.bytes,
            cache.budget,
            key,
            bytes,
        );
    }
}

/// Whether a setting turns something on.
pub open spec fn is_enabled(value: Seq<char>) -> bool {
    let word = text::setting(value);
    word == "1"@ || word == "true"@ || word == "yes"@ || word == "on"@ || word == "auto"@
}

pub fn enabled_value(value: &str) -> (enabled: bool)
    ensures
        enabled == is_enabled(value@),
{
    let word = text::setting_word(value);
    let word: &str = word.as_str();
    text::same_text(word, "1") || text::same_text(word, "true") || text::same_text(word, "yes")
        || text::same_text(word, "on") || text::same_text(word, "auto")
}

/// The budget that two settings stand for: none unless the first is on and the second is not zero.
pub fn source_bytes_cache_budget(gate: Option<&str>, budget_mb: Option<usize>) -> (budget: Option<
    usize,
>)
    ensures
        budget == if !(gate matches Some(value) && is_enabled(value@)) || budget_mb == Some(
            0usize,
        ) {
            None
        } else {
            let mb = match budget_mb {
                Some(mb) => mb,
                None => DEFAULT_SOURCE_BYTES_CACHE_MB,
            };
            Some(
                ((if mb < MIN_SOURCE_BYTES_CACHE_MB {
                    MIN_SOURCE_BYTES_CACHE_MB
                } else if mb > MAX_SOURCE_BYTES_CACHE_MB {
                    MAX_SOURCE_BYTES_CACHE_MB
                } else {
                    mb
                }) * 1_048_576) as usize,
            )
        },
{
    match gate {
        Some(value) => {
            if !enabled_value(value) {
                return None;
            }
        },
        None => {
            return None;
        },
    }
    let mb: usize = match budget_mb {
        Some(mb) => mb,
        None => DEFAULT_SOURCE_BYTES_CACHE_MB,
    };
    if mb == 0 {
        return None;
    }
    let clamped: usize = if mb < MIN_SOURCE_BYTES_CACHE_MB {
        MIN_SOURCE_BYTES_CACHE_MB
    } else if mb > MAX_SOURCE_BYTES_CACHE_MB {
        MAX_SOURCE_BYTES_CACHE_MB
    } else {
        mb
    };
    Some(clamped * 1_048_576)
}

} // verus!
