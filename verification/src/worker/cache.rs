//! The worker's own cache of prepared pages, and what it remembers of the pages it has published.
use crate::source::{BookSnapshot, PageId};
use crate::text;
use crate::worker::api::{
    clamp_target_long_edge, CachedPageKey, DecodeOptions, PageView, PreparedPage,
};
use lru::LruCache;
use std::collections::VecDeque;
use std::sync::Arc;
use vstd::prelude::*;

verus! {

/// `lru::LruCache`.
#[verifier::external_type_specification]
#[verifier::external_body]
#[verifier::reject_recursive_types(K)]
#[verifier::reject_recursive_types(V)]
#[verifier::reject_recursive_types(S)]
pub struct ExLruCache<K, V, S>(lru::LruCache<K, V, S>);

/// The hasher that `lru::LruCache` uses.
#[verifier::external_type_specification]
#[verifier::external_body]
pub struct ExLruHasher(lru::DefaultHasher);

/// The pages in a cache under their keys, the most recently used first.
pub uninterp spec fn cached_pages(cache: LruCache<String, Arc<PreparedPage>>) -> Seq<
    (Seq<char>, PageView),
>;

/// How many pages a cache can hold.
pub uninterp spec fn page_capacity(cache: LruCache<String, Arc<PreparedPage>>) -> nat;

/// Whether there is an entry under a key.
pub open spec fn has_key<V>(entries: Seq<(Seq<char>, V)>, key: Seq<char>) -> bool {
    exists|i: int| 0 <= i < entries.len() && (#[trigger] entries[i]).0 == key
}

/// Where the entry under a key stands.
pub open spec fn key_place<V>(entries: Seq<(Seq<char>, V)>, key: Seq<char>) -> int {
    choose|i: int| 0 <= i < entries.len() && (#[trigger] entries[i]).0 == key
}

/// The entries after one is added under a key: it takes the place of the one under that key, or
/// else, where there is no room, of the least recently used one, and is the most recently used.
pub open spec fn pushed<V>(
    entries: Seq<(Seq<char>, V)>,
    capacity: nat,
    key: Seq<char>,
    value: V,
) -> Seq<(Seq<char>, V)> {
    let rest = if has_key(entries, key) {
        entries.remove(key_place(entries, key))
    } else if entries.len() >= capacity {
        entries.drop_last()
    } else {
        entries
    };
    seq![(key, value)] + rest
}

/// The entry that is lost when one is added under a key.
pub open spec fn displaced<V>(entries: Seq<(Seq<char>, V)>, capacity: nat, key: Seq<char>) -> Option<
    (Seq<char>, V),
> {
    if has_key(entries, key) {
        Some(entries[key_place(entries, key)])
    } else if entries.len() >= capacity {
        Some(entries.last())
    } else {
        None
    }
}

/// The entries after the one under a key is used.
pub open spec fn touched<V>(entries: Seq<(Seq<char>, V)>, key: Seq<char>) -> Seq<(Seq<char>, V)> {
    if has_key(entries, key) {
        let place = key_place(entries, key);
        seq![entries[place]] + entries.remove(place)
    } else {
        entries
    }
}

/// The value under a key.
pub open spec fn entry_of<V>(entries: Seq<(Seq<char>, V)>, key: Seq<char>) -> Option<V> {
    if has_key(entries, key) {
        Some(entries[key_place(entries, key)].1)
    } else {
        None
    }
}

/// `lru::LruCache::new`.
#[verifier::external_body]
pub(crate) fn new_page_cache(capacity: usize) -> (cache: LruCache<String, Arc<PreparedPage>>)
    requires
        capacity > 0,
    ensures
        cached_pages(cache) == Seq::<(Seq<char>, PageView)>::empty(),
        page_capacity(cache) == capacity,
{
    LruCache::new(std::num::NonZeroUsize::new(capacity).unwrap())
}

/// `lru::LruCache::push`: the entry that had the key, or else the one that gave way, is handed
/// back. There is always room for one entry.
#[verifier::external_body]
fn push_page(
    cache: &mut LruCache<String, Arc<PreparedPage>>,
    key: String,
    page: Arc<PreparedPage>,
) -> (lost: Option<(String, Arc<PreparedPage>)>)
    ensures
        cached_pages(*final(cache)) == pushed(
            cached_pages(*old(cache)),
            page_capacity(*old(cache)),
            key@,
            page@,
        ),
        page_capacity(*final(cache)) == page_capacity(*old(cache)),
        match lost {
            Some((lost_key, lost_page)) => displaced(
                cached_pages(*old(cache)),
                page_capacity(*old(cache)),
                key@,
            ) == Some((lost_key@, lost_page@)),
            None => displaced(cached_pages(*old(cache)), page_capacity(*old(cache)), key@)
                == None::<(Seq<char>, PageView)>,
        },
{
    cache.push(key, page)
}

/// `lru::LruCache::pop_lru`: the least recently used entry leaves.
#[verifier::external_body]
fn pop_oldest_page(cache: &mut LruCache<String, Arc<PreparedPage>>) -> (oldest: Option<
    (String, Arc<PreparedPage>),
>)
    ensures
        page_capacity(*final(cache)) == page_capacity(*old(cache)),
        match oldest {
            Some((key, page)) => {
                &&& cached_pages(*old(cache)).len() > 0
                &&& cached_pages(*old(cache)).last() == (key@, page@)
                &&& cached_pages(*final(cache)) == cached_pages(*old(cache)).drop_last()
            },
            None => cached_pages(*old(cache)).len() == 0 && cached_pages(*final(cache))
                == cached_pages(*old(cache)),
        },
{
    cache.pop_lru()
}

/// `lru::LruCache::get`, with the page shared: the entry becomes the most recently used.
#[verifier::external_body]
pub(crate) fn use_page(cache: &mut LruCache<String, Arc<PreparedPage>>, key: &str) -> (page: Option<
    Arc<PreparedPage>,
>)
    ensures
        page_capacity(*final(cache)) == page_capacity(*old(cache)),
        cached_pages(*final(cache)) == touched(cached_pages(*old(cache)), key@),
        match page {
            Some(page) => entry_of(cached_pages(*old(cache)), key@) == Some(page@),
            None => entry_of(cached_pages(*old(cache)), key@) == None::<PageView>,
        },
{
    cache.get(key).cloned()
}

/// `lru::LruCache::contains`.
#[verifier::external_body]
pub(crate) fn holds_page(cache: &LruCache<String, Arc<PreparedPage>>, key: &str) -> (held: bool)
    ensures
        held == has_key(cached_pages(*cache), key@),
{
    cache.contains(key)
}

/// `lru::LruCache::clear`.
#[verifier::external_body]
fn clear_pages(cache: &mut LruCache<String, Arc<PreparedPage>>)
    ensures
        cached_pages(*final(cache)) == Seq::<(Seq<char>, PageView)>::empty(),
        page_capacity(*final(cache)) == page_capacity(*old(cache)),
{
    cache.clear()
}

/// `lru::LruCache::iter`, the pages alone and shared.
#[verifier::external_body]
pub(crate) fn list_pages(cache: &LruCache<String, Arc<PreparedPage>>) -> (pages: Vec<
    Arc<PreparedPage>,
>)
    ensures
        pages@.len() == cached_pages(*cache).len(),
        forall|i: int|
            0 <= i < pages@.len() ==> (#[trigger] pages@[i])@ == cached_pages(*cache)[i].1,
{
    cache.iter().map(|(_, page)| page.clone()).collect()
}

/// `Arc::clone` of the standard library: the page itself is shared.
#[verifier::external_body]
pub(crate) fn share_page(page: &Arc<PreparedPage>) -> (shared: Arc<PreparedPage>)
    ensures
        shared == *page,
{
    page.clone()
}

/// The key of a page in the worker's cache.
pub open spec fn page_key(
    book_id: Seq<char>,
    source_cache_id: u64,
    page_id: PageId,
    target_long_edge: u32,
    decode: DecodeOptions,
) -> Seq<char> {
    book_id + ":"@ + text::decimal(source_cache_id as int) + ":"@ + text::decimal(page_id.0 as int)
        + ":"@ + text::decimal(crate::worker::api::clamped_target(target_long_edge) as int) + ":"@
        + decode.cache_token_spec()
}

pub fn page_cache_key(
    book_id: &str,
    source_cache_id: u64,
    page_id: PageId,
    target_long_edge: u32,
    decode: DecodeOptions,
) -> (key: String)
    ensures
        key@ == page_key(book_id@, source_cache_id, page_id, target_long_edge, decode),
{
    let mut key = book_id.to_owned();
    key.append(":");
    text::push_decimal(&mut key, source_cache_id);
    key.append(":");
    text::push_decimal(&mut key, page_id.0 as u64);
    key.append(":");
    text::push_decimal(&mut key, clamp_target_long_edge(target_long_edge) as u64);
    key.append(":");
    key.append(decode.cache_token().as_str());
    key
}

/// `a` less `b`, and nothing where `b` is larger.
pub open spec fn less(a: int, b: int) -> int {
    if a >= b {
        a - b
    } else {
        0
    }
}

/// `a` and `b`, up to what an address can count.
pub open spec fn plus(a: int, b: int) -> int {
    if a + b <= usize::MAX {
        a + b
    } else {
        usize::MAX as int
    }
}

/// The bytes that a page counts for.
pub open spec fn page_size() -> spec_fn(PageView) -> int {
    |page: PageView| page.byte_size
}

/// The byte count of a cache after a value is added.
pub open spec fn bytes_after_push<V>(
    entries: Seq<(Seq<char>, V)>,
    size: spec_fn(V) -> int,
    capacity: nat,
    bytes: int,
    key: Seq<char>,
    value: V,
) -> int {
    plus(
        match displaced(entries, capacity, key) {
            Some((_, lost)) => less(bytes, size(lost)),
            None => bytes,
        },
        size(value),
    )
}

/// Adds a page unless it alone is beyond the budget.
pub fn insert_worker_cache_with_budget(
    cache: &mut LruCache<String, Arc<PreparedPage>>,
    cache_bytes: &mut usize,
    key: String,
    page: &Arc<PreparedPage>,
    budget_bytes: usize,
) -> (inserted: bool)
    ensures
        inserted == (page.byte_size <= budget_bytes),
        page_capacity(*final(cache)) == page_capacity(*old(cache)),
        cached_pages(*final(cache)) == if inserted {
            pushed(cached_pages(*old(cache)), page_capacity(*old(cache)), key@, page@)
        } else {
            cached_pages(*old(cache))
        },
        *final(cache_bytes) == if inserted {
            bytes_after_push(
                cached_pages(*old(cache)),
                page_size(),
                page_capacity(*old(cache)),
                *old(cache_bytes) as int,
                key@,
                page@,
            )
        } else {
            *old(cache_bytes) as int
        },
{
    let byte_size: usize = page.byte_size;
    if byte_size > budget_bytes {
        return false;
    }
    if let Some((_, lost)) = push_page(cache, key, share_page(page)) {
        *cache_bytes = (*cache_bytes).saturating_sub(lost.byte_size);
    }
    *cache_bytes = (*cache_bytes).saturating_add(byte_size);
    true
}

/// The entries and the byte count after the least recently used ones have left until the count
/// is within the budget.
pub open spec fn pruned<V>(
    entries: Seq<(Seq<char>, V)>,
    size: spec_fn(V) -> int,
    bytes: int,
    budget: int,
) -> (Seq<(Seq<char>, V)>, int)
    decreases entries.len(),
{
    if bytes > budget && entries.len() > 0 {
        pruned(entries.drop_last(), size, less(bytes, size(entries.last().1)), budget)
    } else {
        (entries, bytes)
    }
}

/// Lets the least recently used pages go until the byte count is within the budget.
pub fn prune_worker_cache(
    cache: &mut LruCache<String, Arc<PreparedPage>>,
    cache_bytes: &mut usize,
    budget_bytes: usize,
)
    ensures
        page_capacity(*final(cache)) == page_capacity(*old(cache)),
        (cached_pages(*final(cache)), *final(cache_bytes) as int) == pruned(
            cached_pages(*old(cache)),
            page_size(),
            *old(cache_bytes) as int,
            budget_bytes as int,
        ),
{
    while *cache_bytes > budget_bytes
        invariant
            page_capacity(*cache) == page_capacity(*old(cache)),
            pruned(cached_pages(*cache), page_size(), *cache_bytes as int, budget_bytes as int)
                == pruned(
                cached_pages(*old(cache)),
                page_size(),
                *old(cache_bytes) as int,
                budget_bytes as int,
            ),
        ensures
            pruned(cached_pages(*cache), page_size(), *cache_bytes as int, budget_bytes as int) == (
                cached_pages(*cache),
                *cache_bytes as int,
            ),
        decreases cached_pages(*cache).len(),
    {
        match pop_oldest_page(cache) {
            Some((_, page)) => {
                *cache_bytes = (*cache_bytes).saturating_sub(page.byte_size);
            },
            None => {
                break;
            },
        }
    }
}

/// The bytes of all entries together.
pub open spec fn total_bytes<V>(entries: Seq<(Seq<char>, V)>, size: spec_fn(V) -> int) -> int
    decreases entries.len(),
{
    if entries.len() == 0 {
        0
    } else {
        total_bytes(entries.drop_last(), size) + size(entries.last().1)
    }
}

/// No entry has a negative size.
pub open spec fn sized<V>(entries: Seq<(Seq<char>, V)>, size: spec_fn(V) -> int) -> bool {
    forall|i: int| 0 <= i < entries.len() ==> size((#[trigger] entries[i]).1) >= 0
}

/// A byte count that is the sum of the sizes stays so while entries leave, and then is within the
/// budget: the budget bounds what is kept. The most recently used entries stay, and no more leave
/// than must.
pub proof fn pruned_cache_is_within_the_budget<V>(
    entries: Seq<(Seq<char>, V)>,
    size: spec_fn(V) -> int,
    bytes: int,
    budget: int,
)
    requires
        sized(entries, size),
        bytes == total_bytes(entries, size),
        budget >= 0,
    ensures
        ({
            let (kept, count) = pruned(entries, size, bytes, budget);
            &&& count == total_bytes(kept, size)
            &&& count <= budget
            &&& kept.len() <= entries.len()
            &&& kept == entries.take(kept.len() as int)
            &&& kept.len() < entries.len() ==> total_bytes(
                entries.take(kept.len() + 1int),
                size,
            ) > budget
        }),
    decreases entries.len(),
{
    if bytes > budget && entries.len() > 0 {
        lemma_total_is_positive(entries.drop_last(), size);
        pruned_cache_is_within_the_budget(
            entries.drop_last(),
            size,
            less(bytes, size(entries.last().1)),
            budget,
        );
        let (kept, count) = pruned(entries, size, bytes, budget);
        assert(entries.drop_last().take(kept.len() as int) =~= entries.take(kept.len() as int));
        if kept.len() + 1 < entries.len() {
            assert(entries.drop_last().take(kept.len() + 1int) =~= entries.take(
                kept.len() + 1int,
            ));
        } else {
            assert(entries.take(kept.len() + 1int) =~= entries);
        }
    } else {
        assert(entries.take(entries.len() as int) =~= entries);
    }
}

pub proof fn lemma_total_is_positive<V>(entries: Seq<(Seq<char>, V)>, size: spec_fn(V) -> int)
    requires
        sized(entries, size),
    ensures
        total_bytes(entries, size) >= 0,
    decreases entries.len(),
{
    if entries.len() > 0 {
        assert forall|i: int| 0 <= i < entries.drop_last().len() implies size(
            (#[trigger] entries.drop_last()[i]).1,
        ) >= 0 by {
            assert(entries.drop_last()[i] == entries[i]);
        }
        lemma_total_is_positive(entries.drop_last(), size);
    }
}

pub proof fn lemma_total_of_remove<V>(
    entries: Seq<(Seq<char>, V)>,
    size: spec_fn(V) -> int,
    i: int,
)
    requires
        0 <= i < entries.len(),
    ensures
        total_bytes(entries.remove(i), size) == total_bytes(entries, size) - size(entries[i].1),
    decreases entries.len(),
{
    if i == entries.len() - 1 {
        assert(entries.remove(i) =~= entries.drop_last());
    } else {
        assert(entries.remove(i).drop_last() =~= entries.drop_last().remove(i));
        assert(entries.remove(i).last() == entries.last());
        lemma_total_of_remove(entries.drop_last(), size, i);
    }
}

pub proof fn lemma_total_of_front<V>(
    entry: (Seq<char>, V),
    entries: Seq<(Seq<char>, V)>,
    size: spec_fn(V) -> int,
)
    ensures
        total_bytes(seq![entry] + entries, size) == size(entry.1) + total_bytes(entries, size),
    decreases entries.len(),
{
    let all = seq![entry] + entries;
    if entries.len() == 0 {
        assert(all.drop_last() =~= Seq::<(Seq<char>, V)>::empty());
        assert(all.last() == entry);
        assert(total_bytes(all.drop_last(), size) == 0);
    } else {
        assert(all.drop_last() =~= seq![entry] + entries.drop_last());
        assert(all.last() == entries.last());
        lemma_total_of_front(entry, entries.drop_last(), size);
    }
}

/// A byte count that is the sum of the sizes stays so when a value is added, as long as an address
/// can count it.
pub proof fn pushed_cache_counts_its_bytes<V>(
    entries: Seq<(Seq<char>, V)>,
    size: spec_fn(V) -> int,
    capacity: nat,
    bytes: int,
    key: Seq<char>,
    value: V,
)
    requires
        sized(entries, size),
        capacity > 0,
        size(value) >= 0,
        bytes == total_bytes(entries, size),
        bytes + size(value) <= usize::MAX,
    ensures
        bytes_after_push(entries, size, capacity, bytes, key, value) == total_bytes(
            pushed(entries, capacity, key, value),
            size,
        ),
        sized(pushed(entries, capacity, key, value), size),
{
    let place = key_place(entries, key);
    let rest = if has_key(entries, key) {
        entries.remove(place)
    } else if entries.len() >= capacity {
        entries.drop_last()
    } else {
        entries
    };
    lemma_total_of_front((key, value), rest, size);
    assert forall|i: int| 0 <= i < rest.len() implies size((#[trigger] rest[i]).1) >= 0 by {
        if has_key(entries, key) && i >= place {
            assert(rest[i] == entries[i + 1]);
        } else {
            assert(rest[i] == entries[i]);
        }
    }
    if has_key(entries, key) {
        lemma_total_of_remove(entries, size, place);
    }
    lemma_total_is_positive(rest, size);
    let all = pushed(entries, capacity, key, value);
    assert forall|i: int| 0 <= i < all.len() implies size((#[trigger] all[i]).1) >= 0 by {
        if i > 0 {
            assert(all[i] == rest[i - 1]);
        }
    }
}

/// No two entries have the same key.
pub open spec fn distinct<V>(entries: Seq<(Seq<char>, V)>) -> bool {
    forall|i: int, j: int|
        0 <= i < j < entries.len() ==> (#[trigger] entries[i]).0 != (#[trigger] entries[j]).0
}

/// A cache whose byte count is the sum of the sizes of its entries, each of which has a key of its
/// own.
pub open spec fn accounted<V>(
    entries: Seq<(Seq<char>, V)>,
    size: spec_fn(V) -> int,
    bytes: int,
) -> bool {
    distinct(entries) && sized(entries, size) && bytes == total_bytes(entries, size)
}

/// Using an entry keeps a cache accounted for, and changes only the order of its entries.
pub proof fn touched_cache_stays_accounted<V>(
    entries: Seq<(Seq<char>, V)>,
    size: spec_fn(V) -> int,
    bytes: int,
    key: Seq<char>,
)
    requires
        accounted(entries, size, bytes),
    ensures
        accounted(touched(entries, key), size, bytes),
        touched(entries, key).len() == entries.len(),
        entry_of(touched(entries, key), key) == entry_of(entries, key),
{
    if has_key(entries, key) {
        let place = key_place(entries, key);
        let rest = entries.remove(place);
        let all = touched(entries, key);
        lemma_total_of_front(entries[place], rest, size);
        lemma_total_of_remove(entries, size, place);
        lemma_rest_is_distinct(entries, place);
        assert forall|i: int| 0 <= i < all.len() implies size((#[trigger] all[i]).1) >= 0 by {
            if i > 0 {
                assert(all[i] == rest[i - 1]);
                if i - 1 < place {
                    assert(rest[i - 1] == entries[i - 1]);
                } else {
                    assert(rest[i - 1] == entries[i]);
                }
            }
        }
        lemma_front_is_distinct((key, entries[place].1), rest);
        assert(all[0].0 == key);
        let found = key_place(all, key);
        assert(0 <= found < all.len() && all[found].0 == key);
        assert(found == 0);
    }
}

proof fn lemma_rest_is_distinct<V>(entries: Seq<(Seq<char>, V)>, place: int)
    requires
        distinct(entries),
        0 <= place < entries.len(),
    ensures
        distinct(entries.remove(place)),
        !has_key(entries.remove(place), entries[place].0),
{
    let rest = entries.remove(place);
    assert forall|i: int, j: int| 0 <= i < j < rest.len() implies (#[trigger] rest[i]).0 != (
    #[trigger] rest[j]).0 by {
        let a = if i < place {
            i
        } else {
            i + 1
        };
        let b = if j < place {
            j
        } else {
            j + 1
        };
        assert(rest[i] == entries[a] && rest[j] == entries[b]);
    }
    assert forall|i: int| 0 <= i < rest.len() implies (#[trigger] rest[i]).0
        != entries[place].0 by {
        let a = if i < place {
            i
        } else {
            i + 1
        };
        assert(rest[i] == entries[a]);
    }
}

proof fn lemma_front_is_distinct<V>(entry: (Seq<char>, V), rest: Seq<(Seq<char>, V)>)
    requires
        distinct(rest),
        !has_key(rest, entry.0),
    ensures
        distinct(seq![entry] + rest),
{
    let all = seq![entry] + rest;
    assert forall|i: int, j: int| 0 <= i < j < all.len() implies (#[trigger] all[i]).0 != (
    #[trigger] all[j]).0 by {
        assert(all[j] == rest[j - 1]);
        if i > 0 {
            assert(all[i] == rest[i - 1]);
        }
    }
}

/// Adding a value and then letting go of what is beyond the budget keeps a cache accounted for;
/// a value within the budget is found in it, and what is kept is within the budget.
pub proof fn added_value_is_found<V>(
    entries: Seq<(Seq<char>, V)>,
    size: spec_fn(V) -> int,
    capacity: nat,
    bytes: int,
    budget: int,
    key: Seq<char>,
    value: V,
)
    requires
        accounted(entries, size, bytes),
        capacity > 0,
        0 <= size(value) <= budget,
        bytes + size(value) <= usize::MAX,
    ensures
        ({
            let (kept, count) = pruned(
                pushed(entries, capacity, key, value),
                size,
                bytes_after_push(entries, size, capacity, bytes, key, value),
                budget,
            );
            &&& accounted(kept, size, count)
            &&& count <= budget
            &&& entry_of(kept, key) == Some(value)
            &&& entries.len() <= capacity ==> kept.len() <= capacity
        }),
{
    let all = pushed(entries, capacity, key, value);
    let after = bytes_after_push(entries, size, capacity, bytes, key, value);
    let place = key_place(entries, key);
    let rest = if has_key(entries, key) {
        entries.remove(place)
    } else if entries.len() >= capacity {
        entries.drop_last()
    } else {
        entries
    };
    pushed_cache_counts_its_bytes(entries, size, capacity, bytes, key, value);
    pruned_cache_is_within_the_budget(all, size, after, budget);
    if has_key(entries, key) {
        lemma_rest_is_distinct(entries, place);
    } else {
        assert forall|i: int| 0 <= i < rest.len() implies (#[trigger] rest[i]).0 != key by {
            assert(rest[i] == entries[i]);
        }
        assert forall|i: int, j: int| 0 <= i < j < rest.len() implies (#[trigger] rest[i]).0 != (
        #[trigger] rest[j]).0 by {
            assert(rest[i] == entries[i] && rest[j] == entries[j]);
        }
    }
    lemma_front_is_distinct((key, value), rest);
    let (kept, count) = pruned(all, size, after, budget);
    assert forall|i: int| 0 <= i < kept.len() implies kept[i] == all[i] by {}
    assert(distinct(kept));
    assert(sized(kept, size));
    if kept.len() == 0 {
        assert(all.take(1).drop_last() =~= Seq::<(Seq<char>, V)>::empty());
        assert(total_bytes(all.take(1).drop_last(), size) == 0);
        assert(all.take(1).last() == all[0]);
        assert(total_bytes(all.take(1), size) == size(value));
    }
    assert(kept[0] == (key, value));
    let found = key_place(kept, key);
    assert(0 <= found < kept.len() && kept[found].0 == key);
    assert(found == 0);
}

/// The book that a snapshot belongs to.
pub open spec fn book_of(source: Option<BookSnapshot>) -> Option<Seq<char>> {
    match source {
        Some(source) => Some(source.book_id@),
        None => None,
    }
}

/// The text of an optional text.
pub open spec fn text_of(text: Option<&str>) -> Option<Seq<char>> {
    match text {
        Some(text) => Some(text@),
        None => None,
    }
}

/// The snapshot's number, which is new with every snapshot.
pub open spec fn instance_of(source: Option<BookSnapshot>) -> Option<u64> {
    match source {
        Some(source) => Some(source.instance_id),
        None => None,
    }
}

/// The number under which pages of the snapshot are cached.
pub open spec fn cache_id_of(source: Option<BookSnapshot>) -> Option<u64> {
    match source {
        Some(source) => Some(source.cache_id),
        None => None,
    }
}

fn same_book(source: &Option<BookSnapshot>, book_id: Option<&str>) -> (same: bool)
    ensures
        same == (book_of(*source) == text_of(book_id)),
{
    match (source, book_id) {
        (Some(source), Some(book_id)) => text::same_text(source.book_id.as_str(), book_id),
        (None, None) => true,
        _ => false,
    }
}

fn same_number(left: Option<u64>, right: Option<u64>) -> (same: bool)
    ensures
        same == (left == right),
{
    match (left, right) {
        (Some(left), Some(right)) => left == right,
        (None, None) => true,
        _ => false,
    }
}

fn cache_id(source: &Option<BookSnapshot>) -> (id: Option<u64>)
    ensures
        id == cache_id_of(*source),
{
    match source {
        Some(source) => Some(source.cache_id),
        None => None,
    }
}

/// Empties the cache where the book, the bytes behind it or the way pages are decoded changed.
pub fn clear_cache_on_source_or_decode_change(
    source: &Option<BookSnapshot>,
    previous_book_id: Option<&str>,
    previous_source_cache_id: Option<u64>,
    previous_decode: DecodeOptions,
    current_decode: DecodeOptions,
    cache: &mut LruCache<String, Arc<PreparedPage>>,
    cache_bytes: &mut usize,
)
    ensures
        page_capacity(*final(cache)) == page_capacity(*old(cache)),
        (cached_pages(*final(cache)), *final(cache_bytes)) == if book_of(*source) != text_of(
            previous_book_id,
        ) || cache_id_of(*source) != previous_source_cache_id || previous_decode
            != current_decode {
            (Seq::<(Seq<char>, PageView)>::empty(), 0usize)
        } else {
            (cached_pages(*old(cache)), *old(cache_bytes))
        },
{
    if !same_book(source, previous_book_id) || !same_number(
        cache_id(source),
        previous_source_cache_id,
    ) || previous_decode != current_decode {
        clear_pages(cache);
        *cache_bytes = 0;
    }
}

/// How many published pages are remembered.
pub const PUBLISHED_APP_CACHE_HINT_LIMIT: usize = 64;

/// The pages published last, the latest at the end.
pub type PublishedAppCacheHints = VecDeque<CachedPageKey>;

/// Forgets what was published where the book, its bytes, the way pages are decoded or the size
/// changed.
pub fn clear_published_app_cache_hints_on_context_change(
    source: &Option<BookSnapshot>,
    previous_book_id: Option<&str>,
    previous_source_cache_id: Option<u64>,
    previous_decode: DecodeOptions,
    previous_target_long_edge: u32,
    current_decode: DecodeOptions,
    current_target_long_edge: u32,
    hints: &mut PublishedAppCacheHints,
)
    ensures
        final(hints)@ == if book_of(*source) != text_of(previous_book_id) || cache_id_of(*source)
            != previous_source_cache_id || previous_decode != current_decode
            || crate::worker::api::clamped_target(previous_target_long_edge)
            != crate::worker::api::clamped_target(current_target_long_edge) {
            Seq::<CachedPageKey>::empty()
        } else {
            old(hints)@
        },
{
    if !same_book(source, previous_book_id) || !same_number(
        cache_id(source),
        previous_source_cache_id,
    ) || previous_decode != current_decode || clamp_target_long_edge(previous_target_long_edge)
        != clamp_target_long_edge(current_target_long_edge) {
        hints.clear();
    }
}

/// Whether a page need not be prepared because it was published. A page that is shown is always
/// prepared.
pub fn should_skip_published_app_cache_hint(
    hints: &PublishedAppCacheHints,
    visible: bool,
    page_id: PageId,
    target_long_edge: u32,
    decode: DecodeOptions,
) -> (skip: bool)
    ensures
        skip == (!visible && crate::worker::api::any_covers(
            hints@,
            page_id,
            target_long_edge,
            decode,
        )),
{
    if visible {
        return false;
    }
    let mut i: usize = 0;
    while i < hints.len()
        invariant
            !visible,
            i <= hints@.len(),
            forall|k: int|
                0 <= k < i ==> !(#[trigger] hints@[k]).covers_spec(
                    page_id,
                    target_long_edge,
                    decode,
                ),
        decreases hints@.len() - i,
    {
        let hint: CachedPageKey = hints[i];
        if hint.covers(page_id, target_long_edge, decode) {
            return true;
        }
        i = i + 1;
    }
    false
}

/// Whether `place` is where a hint stands first.
pub open spec fn is_first_place(hints: Seq<CachedPageKey>, key: CachedPageKey, place: int) -> bool {
    &&& 0 <= place < hints.len()
    &&& hints[place] == key
    &&& forall|i: int| 0 <= i < place ==> hints[i] != key
}

/// The hints without the first one for a key.
pub open spec fn without_hint(hints: Seq<CachedPageKey>, key: CachedPageKey) -> Seq<CachedPageKey> {
    if hints.contains(key) {
        hints.remove(choose|place: int| is_first_place(hints, key, place))
    } else {
        hints
    }
}

/// The last `count` of the hints.
pub open spec fn last_hints(hints: Seq<CachedPageKey>, count: int) -> Seq<CachedPageKey> {
    if hints.len() > count {
        hints.skip(hints.len() - count)
    } else {
        hints
    }
}

/// The hints once a page has been published.
pub open spec fn with_hint(hints: Seq<CachedPageKey>, key: CachedPageKey) -> Seq<CachedPageKey> {
    last_hints(without_hint(hints, key).push(key), PUBLISHED_APP_CACHE_HINT_LIMIT as int)
}

/// Forgets one published page.
pub fn forget_published_app_cache_hint(hints: &mut PublishedAppCacheHints, key: CachedPageKey)
    ensures
        final(hints)@ == without_hint(old(hints)@, key),
{
    let mut place: usize = 0;
    while place < hints.len()
        invariant
            place <= hints@.len(),
            hints@ == old(hints)@,
            forall|i: int| 0 <= i < place ==> hints@[i] != key,
        decreases hints@.len() - place,
    {
        let hint: CachedPageKey = hints[place];
        if hint == key {
            proof {
                assert(is_first_place(hints@, key, place as int));
                assert(hints@.contains(key));
                let chosen = choose|p: int| is_first_place(hints@, key, p);
                assert(is_first_place(hints@, key, chosen));
                assert(chosen == place);
            }
            let _ = hints.remove(place);
            return;
        }
        place = place + 1;
    }
    assert(!hints@.contains(key));
}

/// Remembers that a page has been published.
pub fn remember_published_app_cache_hint(hints: &mut PublishedAppCacheHints, key: CachedPageKey)
    ensures
        final(hints)@ == with_hint(old(hints)@, key),
{
    forget_published_app_cache_hint(hints, key);
    hints.push_back(key);
    let ghost all = hints@;
    assert(hints.len() == all.len());
    let mut left: usize = 0;
    assert(all.skip(0) =~= all);
    while hints.len() > PUBLISHED_APP_CACHE_HINT_LIMIT
        invariant
            left <= all.len(),
            hints@ == all.skip(left as int),
            left > 0 ==> all.len() - left >= PUBLISHED_APP_CACHE_HINT_LIMIT,
            all.len() <= usize::MAX,
        decreases hints@.len(),
    {
        let _ = hints.pop_front();
        left = left + 1;
        assert(hints@ =~= all.skip(left as int));
    }
}

/// What was published is remembered once, however often it is published, and forgetting something
/// keeps that.
pub proof fn hints_are_held_once(hints: Seq<CachedPageKey>, key: CachedPageKey)
    requires
        hints.no_duplicates(),
    ensures
        with_hint(hints, key).no_duplicates(),
        without_hint(hints, key).no_duplicates(),
        !without_hint(hints, key).contains(key),
{
    let kept = without_hint(hints, key);
    if hints.contains(key) {
        lemma_first_place(hints, key);
        let place = choose|p: int| is_first_place(hints, key, p);
        assert forall|i: int| 0 <= i < kept.len() implies kept[i] != key by {
            assert(kept[i] == hints[if i < place {
                i
            } else {
                i + 1
            }]);
        }
        assert forall|i: int, j: int| 0 <= i < kept.len() && 0 <= j < kept.len() && i != j implies kept[i]
            != kept[j] by {
            assert(kept[i] == hints[if i < place {
                i
            } else {
                i + 1
            }]);
            assert(kept[j] == hints[if j < place {
                j
            } else {
                j + 1
            }]);
        }
    }
    assert(kept.no_duplicates());
    assert(!kept.contains(key));
    assert(kept.push(key).no_duplicates());
}

/// What is published last is remembered, and no more than the limit is.
pub proof fn hints_are_bounded_and_recent(hints: Seq<CachedPageKey>, key: CachedPageKey)
    ensures
        with_hint(hints, key).len() <= PUBLISHED_APP_CACHE_HINT_LIMIT,
        with_hint(hints, key).last() == key,
        hints.len() < PUBLISHED_APP_CACHE_HINT_LIMIT ==> forall|k: CachedPageKey|
            hints.contains(k) ==> #[trigger] with_hint(hints, key).contains(k),
{
    let kept = without_hint(hints, key);
    let all = kept.push(key);
    if hints.contains(key) {
        lemma_first_place(hints, key);
    }
    assert forall|k: CachedPageKey|
        hints.len() < PUBLISHED_APP_CACHE_HINT_LIMIT && hints.contains(
            k,
        ) implies #[trigger] with_hint(hints, key).contains(k) by {
        if k == key {
            assert(all[all.len() - 1] == key);
        } else {
            let i = choose|i: int| 0 <= i < hints.len() && hints[i] == k;
            if hints.contains(key) {
                let place = choose|place: int| is_first_place(hints, key, place);
                assert(is_first_place(hints, key, place));
                if i < place {
                    assert(all[i] == k);
                } else {
                    assert(all[i - 1] == k);
                }
            } else {
                assert(all[i] == k);
            }
        }
    }
}

proof fn lemma_first_place(hints: Seq<CachedPageKey>, key: CachedPageKey)
    requires
        hints.contains(key),
    ensures
        exists|place: int| is_first_place(hints, key, place),
    decreases hints.len(),
{
    if hints.drop_last().contains(key) {
        lemma_first_place(hints.drop_last(), key);
        let place = choose|place: int| is_first_place(hints.drop_last(), key, place);
        assert forall|i: int| 0 <= i < place implies hints[i] != key by {
            assert(hints.drop_last()[i] != key);
        }
        assert(hints.drop_last()[place] == key);
        assert(is_first_place(hints, key, place));
    } else {
        let i = choose|i: int| 0 <= i < hints.len() && hints[i] == key;
        if i < hints.len() - 1 {
            assert(hints.drop_last()[i] == key);
        }
        assert forall|k: int| 0 <= k < hints.len() - 1 implies hints[k] != key by {
            assert(hints.drop_last()[k] == hints[k]);
            if hints[k] == key {
                assert(hints.drop_last().contains(key));
            }
        }
        assert(is_first_place(hints, key, hints.len() - 1));
    }
}

/// The epoch after a change of snapshot: it grows with every new snapshot of a book, and with
/// every other book.
pub open spec fn epoch_after(
    book_epoch: usize,
    source: Option<BookSnapshot>,
    previous_book_id: Option<Seq<char>>,
    previous_instance_id: Option<u64>,
) -> usize {
    if source is Some && (book_of(source) != previous_book_id || instance_of(source)
        != previous_instance_id) && book_epoch < usize::MAX {
        (book_epoch + 1) as usize
    } else {
        book_epoch
    }
}

pub fn update_book_epoch(
    book_epoch: &mut usize,
    source: &Option<BookSnapshot>,
    previous_book_id: Option<&str>,
    previous_instance_id: Option<u64>,
)
    ensures
        *final(book_epoch) == epoch_after(
            *old(book_epoch),
            *source,
            text_of(previous_book_id),
            previous_instance_id,
        ),
{
    match source {
        Some(snapshot) => {
            if !same_book(source, previous_book_id) || !same_number(
                Some(snapshot.instance_id),
                previous_instance_id,
            ) {
                *book_epoch = (*book_epoch).saturating_add(1);
            }
        },
        None => {},
    }
}

/// Where each key has one entry, the entry under a key is the one that stands there.
proof fn lemma_entry_at<V>(entries: Seq<(Seq<char>, V)>, i: int)
    requires
        distinct(entries),
        0 <= i < entries.len(),
    ensures
        has_key(entries, entries[i].0),
        key_place(entries, entries[i].0) == i,
        entry_of(entries, entries[i].0) == Some(entries[i].1),
{
    let key = entries[i].0;
    assert(has_key(entries, key));
    let place = key_place(entries, key);
    assert(0 <= place < entries.len() && entries[place].0 == key);
    if place < i {
        assert(entries[place].0 != entries[i].0);
    } else if i < place {
        assert(entries[i].0 != entries[place].0);
    }
}

/// Adding a value puts it under its key and leaves every other entry as it was, but for the least
/// recently used one where there was no room. What was added last is lost last.
pub proof fn only_the_oldest_entry_makes_room<V>(
    entries: Seq<(Seq<char>, V)>,
    capacity: nat,
    key: Seq<char>,
    value: V,
    i: int,
)
    requires
        distinct(entries),
        0 <= i < entries.len() <= capacity,
        entries[i].0 != key,
    ensures
        ({
            let after = pushed(entries, capacity, key, value);
            let crowded = !has_key(entries, key) && entries.len() == capacity;
            &&& after.len() <= capacity && after[0] == (key, value)
            &&& crowded && i == entries.len() - 1 ==> !has_key(after, entries[i].0)
            &&& !(crowded && i == entries.len() - 1) ==> has_key(after, entries[i].0) && entry_of(
                after,
                entries[i].0,
            ) == Some(entries[i].1)
        }),
{
    let after = pushed(entries, capacity, key, value);
    let place = key_place(entries, key);
    let rest = if has_key(entries, key) {
        entries.remove(place)
    } else if entries.len() >= capacity {
        entries.drop_last()
    } else {
        entries
    };
    if has_key(entries, key) {
        lemma_rest_is_distinct(entries, place);
    } else {
        assert forall|j: int| 0 <= j < rest.len() implies (#[trigger] rest[j]).0 != key by {
            assert(rest[j] == entries[j]);
        }
        assert forall|j: int, k: int| 0 <= j < k < rest.len() implies (#[trigger] rest[j]).0 != (
        #[trigger] rest[k]).0 by {
            assert(rest[j] == entries[j] && rest[k] == entries[k]);
        }
    }
    lemma_front_is_distinct((key, value), rest);
    let crowded = !has_key(entries, key) && entries.len() == capacity;
    if crowded && i == entries.len() - 1 {
        if has_key(after, entries[i].0) {
            let j = key_place(after, entries[i].0);
            assert(0 <= j < after.len() && after[j].0 == entries[i].0);
            assert(after[j] == rest[j - 1] && rest[j - 1] == entries[j - 1]);
        }
    } else {
        let at = if has_key(entries, key) && i > place {
            i
        } else {
            i + 1
        };
        assert(after[at] == rest[at - 1]);
        assert(after[at] == entries[i]);
        lemma_entry_at(after, at);
    }
}

/// An entry that is used becomes the most recently used one; no entry changes or is lost by that, and
/// the others keep their order.
pub proof fn used_entries_come_first<V>(entries: Seq<(Seq<char>, V)>, i: int, j: int)
    requires
        distinct(entries),
        0 <= i < entries.len(),
        0 <= j < entries.len(),
    ensures
        ({
            let after = touched(entries, entries[i].0);
            &&& after.len() == entries.len()
            &&& after[0] == entries[i]
            &&& j < i ==> after[j + 1] == entries[j]
            &&& j > i ==> after[j] == entries[j]
        }),
{
    lemma_entry_at(entries, i);
}

/// The epoch changes with every other book and with every other snapshot of it, as far as it can be
/// counted, and stays while they do.
pub proof fn epochs_tell_snapshots_apart(
    book_epoch: usize,
    source: BookSnapshot,
    previous_book_id: Option<Seq<char>>,
    previous_instance_id: Option<u64>,
)
    ensures
        book_epoch < usize::MAX ==> (epoch_after(
            book_epoch,
            Some(source),
            previous_book_id,
            previous_instance_id,
        ) != book_epoch <==> previous_book_id != Some(source.book_id@) || previous_instance_id
            != Some(source.instance_id)),
        epoch_after(book_epoch, Some(source), previous_book_id, previous_instance_id) >= book_epoch,
        epoch_after(book_epoch, None, previous_book_id, previous_instance_id) == book_epoch,
{
}

} // verus!
