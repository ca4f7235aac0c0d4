//! The order in which pages are prepared.
use crate::text::has_extension;
use crate::worker::api::{
    clamp_target_long_edge, NavigationDirection, PreparedTargetIntent,
    FULL_QUALITY_PREFETCH_BACKWARD_PAGES, FULL_QUALITY_PREFETCH_FORWARD_PAGES,
    PREVIEW_PREFETCH_BACKWARD_PAGES, PREVIEW_PREFETCH_FORWARD_PAGES, PREVIEW_TARGET_LONG_EDGE,
};
use vstd::prelude::*;

verus! {

/// One page to prepare at one size.
#[derive(Debug, Clone, Copy, PartialEq, Eq, Structural)]
pub struct PageJob {
    pub index: usize,
    pub target_long_edge: u32,
}

/// Page indices as integers.
pub open spec fn as_ints(indices: Seq<usize>) -> Seq<int> {
    indices.map_values(|i: usize| i as int)
}

/// `kept` followed by `candidate`, if that is a page of the book and not there already.
pub open spec fn with_index(kept: Seq<int>, candidate: int, page_count: int) -> Seq<int> {
    if 0 <= candidate < page_count && !kept.contains(candidate) {
        kept.push(candidate)
    } else {
        kept
    }
}

/// `kept` followed by those of `candidates` that are pages of the book, each once, in order.
pub open spec fn with_indices(kept: Seq<int>, candidates: Seq<int>, page_count: int) -> Seq<int>
    decreases candidates.len(),
{
    if candidates.len() == 0 {
        kept
    } else {
        with_index(
            with_indices(kept, candidates.drop_last(), page_count),
            candidates.last(),
            page_count,
        )
    }
}

/// The `count` indices from `first` on, ascending.
pub open spec fn ascending(first: int, count: int) -> Seq<int> {
    Seq::new(count as nat, |i: int| first + i)
}

/// The `count` indices from `first` on, descending.
pub open spec fn descending(first: int, count: int) -> Seq<int> {
    Seq::new(count as nat, |i: int| first - i)
}

/// The number of pages shown, which is at least one.
pub open spec fn shown(visible_pages: usize) -> int {
    if visible_pages == 0 {
        1
    } else {
        visible_pages as int
    }
}

/// The pages shown, from `center` on.
pub open spec fn visible_window(center: usize, page_count: usize, visible_pages: usize) -> Seq<int> {
    with_indices(seq![], ascending(center as int, shown(visible_pages)), page_count as int)
}

/// `kept`, then the `ahead` pages in the reading direction, then the `behind` pages against it.
pub open spec fn around(
    kept: Seq<int>,
    center: int,
    page_count: int,
    direction: NavigationDirection,
    ahead: int,
    behind: int,
) -> Seq<int> {
    match direction {
        NavigationDirection::Forward => with_indices(
            with_indices(kept, ascending(center + 1, ahead), page_count),
            descending(center - 1, behind),
            page_count,
        ),
        NavigationDirection::Backward => with_indices(
            with_indices(kept, descending(center - 1, ahead), page_count),
            ascending(center + 1, behind),
            page_count,
        ),
    }
}

/// The pages to prepare at full quality.
pub open spec fn full_quality_order(
    center: usize,
    page_count: usize,
    direction: NavigationDirection,
    visible_pages: usize,
) -> Seq<int> {
    around(
        with_indices(seq![], seq![center as int], page_count as int),
        center as int,
        page_count as int,
        direction,
        if visible_pages > FULL_QUALITY_PREFETCH_FORWARD_PAGES + 1 {
            visible_pages - 1
        } else {
            FULL_QUALITY_PREFETCH_FORWARD_PAGES as int
        },
        FULL_QUALITY_PREFETCH_BACKWARD_PAGES as int,
    )
}

/// The pages to prepare as previews, around a center inside the book.
pub open spec fn preview_order(
    center: usize,
    page_count: usize,
    direction: NavigationDirection,
    visible_pages: usize,
) -> Seq<int> {
    let middle = if center < page_count {
        center as int
    } else {
        page_count - 1
    };
    around(
        with_indices(seq![], ascending(middle, shown(visible_pages)), page_count as int),
        middle,
        page_count as int,
        direction,
        PREVIEW_PREFETCH_FORWARD_PAGES as int,
        PREVIEW_PREFETCH_BACKWARD_PAGES as int,
    )
}

/// `jobs` followed by `job`, if it is not there already.
pub open spec fn with_job(jobs: Seq<PageJob>, job: PageJob) -> Seq<PageJob> {
    if jobs.contains(job) {
        jobs
    } else {
        jobs.push(job)
    }
}

/// `jobs` followed by one job per index at `target_long_edge`, each once, in order.
pub open spec fn with_jobs(jobs: Seq<PageJob>, indices: Seq<int>, target_long_edge: u32) -> Seq<
    PageJob,
>
    decreases indices.len(),
{
    if indices.len() == 0 {
        jobs
    } else {
        with_job(
            with_jobs(jobs, indices.drop_last(), target_long_edge),
            PageJob { index: indices.last() as usize, target_long_edge },
        )
    }
}

/// The jobs for a request: the exact target first, then the previews.
pub open spec fn job_order(
    center: usize,
    page_count: usize,
    direction: NavigationDirection,
    target_long_edge: u32,
    target_intent: PreparedTargetIntent,
    visible_pages: usize,
    prefetch_enabled: bool,
    progressive_preview_enabled: bool,
) -> Seq<PageJob> {
    let target = crate::worker::api::clamped_target(target_long_edge);
    let exact = with_jobs(
        seq![],
        if target_intent == PreparedTargetIntent::NormalNavigation && prefetch_enabled {
            full_quality_order(center, page_count, direction, visible_pages)
        } else {
            visible_window(center, page_count, visible_pages)
        },
        target,
    );
    if target_intent != PreparedTargetIntent::OriginalInspection && progressive_preview_enabled
        && target > PREVIEW_TARGET_LONG_EDGE {
        with_jobs(
            exact,
            if prefetch_enabled && page_count > 0 {
                preview_order(center, page_count, direction, visible_pages)
            } else {
                visible_window(center, page_count, visible_pages)
            },
            PREVIEW_TARGET_LONG_EDGE,
        )
    } else {
        exact
    }
}

fn contains_index(indices: &Vec<usize>, index: usize) -> (found: bool)
    ensures
        found == as_ints(indices@).contains(index as int),
{
    let mut i: usize = 0;
    while i < indices.len()
        invariant
            i <= indices@.len(),
            forall|k: int| 0 <= k < i ==> indices@[k] != index,
        decreases indices.len() - i,
    {
        if indices[i] == index {
            assert(as_ints(indices@)[i as int] == index);
            return true;
        }
        i = i + 1;
    }
    assert(forall|k: int|
        0 <= k < as_ints(indices@).len() ==> #[trigger] as_ints(indices@)[k] == indices@[k]);
    false
}

/// Adds `index` if it is a page of the book and not there already.
fn push_index(indices: &mut Vec<usize>, index: usize, page_count: usize)
    ensures
        as_ints(final(indices)@) == with_index(
            as_ints(old(indices)@),
            index as int,
            page_count as int,
        ),
{
    if index < page_count && !contains_index(indices, index) {
        indices.push(index);
        assert(as_ints(indices@) =~= as_ints(old(indices)@).push(index as int));
    }
}

/// Adds `center + from`, .. up to `count` indices.
fn push_ascending(
    indices: &mut Vec<usize>,
    center: usize,
    from: usize,
    count: usize,
    page_count: usize,
)
    requires
        from + count <= usize::MAX,
    ensures
        as_ints(final(indices)@) == with_indices(
            as_ints(old(indices)@),
            ascending(center + from, count as int),
            page_count as int,
        ),
{
    let mut i: usize = 0;
    assert(ascending(center + from, 0) =~= seq![]);
    while i < count
        invariant
            i <= count,
            from + count <= usize::MAX,
            as_ints(indices@) == with_indices(
                as_ints(old(indices)@),
                ascending(center + from, i as int),
                page_count as int,
            ),
        decreases count - i,
    {
        assert(ascending(center + from, i + 1).drop_last() =~= ascending(center + from, i as int));
        assert(ascending(center + from, i + 1).last() == center + from + i);
        if let Some(index) = center.checked_add(from + i) {
            push_index(indices, index, page_count);
        }
        i = i + 1;
    }
}

/// Adds `center - 1`, `center - 2`, .. up to `count` indices.
fn push_descending(indices: &mut Vec<usize>, center: usize, count: usize, page_count: usize)
    requires
        count < usize::MAX,
    ensures
        as_ints(final(indices)@) == with_indices(
            as_ints(old(indices)@),
            descending(center - 1, count as int),
            page_count as int,
        ),
{
    let mut i: usize = 0;
    assert(descending(center - 1, 0) =~= seq![]);
    while i < count
        invariant
            i <= count,
            count < usize::MAX,
            as_ints(indices@) == with_indices(
                as_ints(old(indices)@),
                descending(center - 1, i as int),
                page_count as int,
            ),
        decreases count - i,
    {
        assert(descending(center - 1, i + 1).drop_last() =~= descending(center - 1, i as int));
        assert(descending(center - 1, i + 1).last() == center - 1 - i);
        if let Some(index) = center.checked_sub(i + 1) {
            push_index(indices, index, page_count);
        }
        i = i + 1;
    }
}

/// Adds the pages around `center` in reading order.
fn push_around(
    indices: &mut Vec<usize>,
    center: usize,
    page_count: usize,
    direction: NavigationDirection,
    ahead: usize,
    behind: usize,
)
    requires
        ahead < usize::MAX,
        behind < usize::MAX,
    ensures
        as_ints(final(indices)@) == around(
            as_ints(old(indices)@),
            center as int,
            page_count as int,
            direction,
            ahead as int,
            behind as int,
        ),
{
    match direction {
        NavigationDirection::Forward => {
            push_ascending(indices, center, 1, ahead, page_count);
            push_descending(indices, center, behind, page_count);
        },
        NavigationDirection::Backward => {
            push_descending(indices, center, ahead, page_count);
            push_ascending(indices, center, 1, behind, page_count);
        },
    }
}

fn at_least_one(visible_pages: usize) -> (count: usize)
    ensures
        count == shown(visible_pages),
{
    if visible_pages == 0 {
        1
    } else {
        visible_pages
    }
}

/// The pages that are prepared as previews: the visible ones, then those around them.
pub fn preview_prefetch_indices(
    center: usize,
    page_count: usize,
    direction: NavigationDirection,
    visible_pages: usize,
) -> (indices: Vec<usize>)
    ensures
        as_ints(indices@) == if page_count == 0 {
            Seq::<int>::empty()
        } else {
            preview_order(center, page_count, direction, visible_pages)
        },
{
    let mut indices: Vec<usize> = Vec::new();
    assert(as_ints(indices@) =~= Seq::<int>::empty());
    if page_count == 0 {
        return indices;
    }
    let center: usize = if center < page_count {
        center
    } else {
        page_count - 1
    };
    push_ascending(&mut indices, center, 0, at_least_one(visible_pages), page_count);
    push_around(
        &mut indices,
        center,
        page_count,
        direction,
        PREVIEW_PREFETCH_FORWARD_PAGES,
        PREVIEW_PREFETCH_BACKWARD_PAGES,
    );
    indices
}

/// The pages shown, from `center` on.
pub fn visible_indices(center: usize, page_count: usize, visible_pages: usize) -> (indices: Vec<
    usize,
>)
    ensures
        as_ints(indices@) == visible_window(center, page_count, visible_pages),
{
    let mut indices: Vec<usize> = Vec::new();
    assert(as_ints(indices@) =~= Seq::<int>::empty());
    push_ascending(&mut indices, center, 0, at_least_one(visible_pages), page_count);
    indices
}

/// The pages that are prepared at full quality: the center, then those around it.
pub fn prioritized_indices(
    center: usize,
    page_count: usize,
    direction: NavigationDirection,
    visible_pages: usize,
) -> (indices: Vec<usize>)
    ensures
        as_ints(indices@) == full_quality_order(center, page_count, direction, visible_pages),
{
    let mut indices: Vec<usize> = Vec::new();
    assert(as_ints(indices@) =~= Seq::<int>::empty());
    let ahead: usize = if visible_pages > FULL_QUALITY_PREFETCH_FORWARD_PAGES + 1 {
        visible_pages - 1
    } else {
        FULL_QUALITY_PREFETCH_FORWARD_PAGES
    };
    push_ascending(&mut indices, center, 0, 1, page_count);
    assert(ascending(center as int, 1) =~= seq![center as int]);
    push_around(
        &mut indices,
        center,
        page_count,
        direction,
        ahead,
        FULL_QUALITY_PREFETCH_BACKWARD_PAGES,
    );
    indices
}

fn push_job(jobs: &mut Vec<PageJob>, index: usize, target_long_edge: u32)
    ensures
        final(jobs)@ == with_job(old(jobs)@, (PageJob { index, target_long_edge })),
{
    let job = PageJob { index, target_long_edge };
    let mut i: usize = 0;
    while i < jobs.len()
        invariant
            i <= jobs@.len(),
            jobs@ == old(jobs)@,
            job == (PageJob { index, target_long_edge }),
            forall|k: int| 0 <= k < i ==> jobs@[k] != job,
        decreases jobs.len() - i,
    {
        if jobs[i] == job {
            assert(old(jobs)@[i as int] == job);
            return;
        }
        i = i + 1;
    }
    jobs.push(job);
}

fn push_jobs(jobs: &mut Vec<PageJob>, indices: &Vec<usize>, target_long_edge: u32)
    ensures
        final(jobs)@ == with_jobs(old(jobs)@, as_ints(indices@), target_long_edge),
{
    let mut i: usize = 0;
    while i < indices.len()
        invariant
            i <= indices@.len(),
            jobs@ == with_jobs(old(jobs)@, as_ints(indices@).take(i as int), target_long_edge),
        decreases indices.len() - i,
    {
        let ghost all = as_ints(indices@);
        assert(all.take(i + 1).drop_last() =~= all.take(i as int));
        push_job(jobs, indices[i], target_long_edge);
        i = i + 1;
    }
    assert(as_ints(indices@).take(i as int) =~= as_ints(indices@));
}

/// The jobs for a request, most urgent first.
pub fn prioritized_jobs(
    center: usize,
    page_count: usize,
    direction: NavigationDirection,
    target_long_edge: u32,
    target_intent: PreparedTargetIntent,
    visible_pages: usize,
    prefetch_enabled: bool,
    progressive_preview_enabled: bool,
) -> (jobs: Vec<PageJob>)
    ensures
        jobs@ == job_order(
            center,
            page_count,
            direction,
            target_long_edge,
            target_intent,
            visible_pages,
            prefetch_enabled,
            progressive_preview_enabled,
        ),
{
    let target: u32 = clamp_target_long_edge(target_long_edge);
    let full_indices = if target_intent.keeps_exact_prefetch_lightweight() {
        visible_indices(center, page_count, visible_pages)
    } else if prefetch_enabled {
        prioritized_indices(center, page_count, direction, visible_pages)
    } else {
        visible_indices(center, page_count, visible_pages)
    };
    let mut jobs: Vec<PageJob> = Vec::new();
    push_jobs(&mut jobs, &full_indices, target);
    if !target_intent.is_original_inspection() && progressive_preview_enabled && target
        > PREVIEW_TARGET_LONG_EDGE {
        let preview_indices = if prefetch_enabled {
            preview_prefetch_indices(center, page_count, direction, visible_pages)
        } else {
            visible_indices(center, page_count, visible_pages)
        };
        proof {
            if page_count == 0 {
                lemma_with_indices_of_empty_book(
                    seq![],
                    ascending(center as int, shown(visible_pages)),
                );
            }
        }
        push_jobs(&mut jobs, &preview_indices, PREVIEW_TARGET_LONG_EDGE);
    }
    jobs
}

/// Whether `index` is one of the pages shown.
pub open spec fn is_shown(index: usize, center: usize, visible_pages: usize) -> bool {
    center <= index && (index < center + shown(visible_pages) && index < usize::MAX)
}

/// Whether `index` is one of the pages shown.
pub fn is_visible_page_index(index: usize, center: usize, visible_pages: usize) -> (visible: bool)
    ensures
        visible == is_shown(index, center, visible_pages),
{
    index >= center && index < center.saturating_add(at_least_one(visible_pages))
}

/// Whether a job is left out because the page is an Illustrator file: these are rendered only
/// when shown, and never as previews.
pub open spec fn skips_ai_page(
    page_name: Option<Seq<char>>,
    center: usize,
    visible_pages: usize,
    index: usize,
    target_long_edge: u32,
) -> bool {
    &&& page_name matches Some(name) && crate::text::has_extension_spec(name, "ai"@)
    &&& target_long_edge == PREVIEW_TARGET_LONG_EDGE || !is_shown(index, center, visible_pages)
}

pub fn should_skip_ai_preview_or_prefetch(
    page_name: Option<&str>,
    center: usize,
    visible_pages: usize,
    index: usize,
    target_long_edge: u32,
) -> (skip: bool)
    ensures
        skip == skips_ai_page(
            match page_name {
                Some(name) => Some(name@),
                None => None,
            },
            center,
            visible_pages,
            index,
            target_long_edge,
        ),
{
    match page_name {
        Some(name) => {
            if !has_extension(name, "ai") {
                return false;
            }
            if target_long_edge == PREVIEW_TARGET_LONG_EDGE {
                return true;
            }
            !is_visible_page_index(index, center, visible_pages)
        },
        None => false,
    }
}

/// A book without pages has no indices.
pub proof fn lemma_with_indices_of_empty_book(kept: Seq<int>, candidates: Seq<int>)
    ensures
        with_indices(kept, candidates, 0) == kept,
    decreases candidates.len(),
{
    if candidates.len() > 0 {
        lemma_with_indices_of_empty_book(kept, candidates.drop_last());
    }
}

/// What a list of indices gains from candidates: it stays a prefix, stays free of repetitions
/// and inside the book, and holds exactly the old indices and the candidates inside the book.
pub proof fn lemma_with_indices(kept: Seq<int>, candidates: Seq<int>, page_count: int)
    requires
        kept.no_duplicates(),
        forall|i: int| 0 <= i < kept.len() ==> 0 <= #[trigger] kept[i] < page_count,
    ensures
        ({
            let all = with_indices(kept, candidates, page_count);
            &&& kept.is_prefix_of(all)
            &&& all.no_duplicates()
            &&& forall|i: int| 0 <= i < all.len() ==> 0 <= #[trigger] all[i] < page_count
            &&& forall|x: int| #[trigger]
                all.contains(x) <==> kept.contains(x) || (candidates.contains(x) && 0 <= x
                    < page_count)
        }),
    decreases candidates.len(),
{
    let all = with_indices(kept, candidates, page_count);
    if candidates.len() > 0 {
        let rest = candidates.drop_last();
        let c = candidates.last();
        lemma_with_indices(kept, rest, page_count);
        let before = with_indices(kept, rest, page_count);
        assert(candidates =~= rest.push(c));
        assert forall|x: int| #[trigger] candidates.contains(x) <==> rest.contains(x) || x == c by {
            if rest.contains(x) {
                let k = rest.index_of(x);
                assert(candidates[k] == x);
            }
            if x == c {
                assert(candidates[candidates.len() - 1] == x);
            }
        }
        assert forall|x: int| #[trigger]
            all.contains(x) <==> kept.contains(x) || (candidates.contains(x) && 0 <= x
                < page_count) by {
            assert(before.contains(x) <==> kept.contains(x) || (rest.contains(x) && 0 <= x
                < page_count));
            if all.len() == before.len() + 1 {
                assert(all[before.len() as int] == c);
                if before.contains(x) {
                    let k = before.index_of(x);
                    assert(all[k] == x);
                }
            }
        }
    }
}

/// Whether `x` is within `ahead` pages of `center` in the reading direction, or `behind` pages
/// against it, the center itself apart.
pub open spec fn is_around(
    x: int,
    center: int,
    direction: NavigationDirection,
    ahead: int,
    behind: int,
) -> bool {
    match direction {
        NavigationDirection::Forward => center - behind <= x <= center + ahead && x != center,
        NavigationDirection::Backward => center - ahead <= x <= center + behind && x != center,
    }
}

proof fn lemma_around(
    kept: Seq<int>,
    center: int,
    page_count: int,
    direction: NavigationDirection,
    ahead: int,
    behind: int,
)
    requires
        kept.no_duplicates(),
        forall|i: int| 0 <= i < kept.len() ==> 0 <= #[trigger] kept[i] < page_count,
        ahead >= 0,
        behind >= 0,
    ensures
        ({
            let all = around(kept, center, page_count, direction, ahead, behind);
            &&& kept.is_prefix_of(all)
            &&& all.no_duplicates()
            &&& forall|i: int| 0 <= i < all.len() ==> 0 <= #[trigger] all[i] < page_count
            &&& forall|x: int| #[trigger]
                all.contains(x) <==> kept.contains(x) || (is_around(
                    x,
                    center,
                    direction,
                    ahead,
                    behind,
                ) && 0 <= x < page_count)
        }),
{
    let (up, down) = match direction {
        NavigationDirection::Forward => (ahead, behind),
        NavigationDirection::Backward => (behind, ahead),
    };
    let higher = ascending(center + 1, up);
    let lower = descending(center - 1, down);
    assert forall|x: int| #[trigger] higher.contains(x) <==> center < x <= center + up by {
        if center < x <= center + up {
            assert(higher[x - center - 1] == x);
        }
    }
    assert forall|x: int| #[trigger] lower.contains(x) <==> center - down <= x < center by {
        if center - down <= x < center {
            assert(lower[center - 1 - x] == x);
        }
    }
    match direction {
        NavigationDirection::Forward => {
            lemma_with_indices(kept, higher, page_count);
            lemma_with_indices(with_indices(kept, higher, page_count), lower, page_count);
        },
        NavigationDirection::Backward => {
            lemma_with_indices(kept, lower, page_count);
            lemma_with_indices(with_indices(kept, lower, page_count), higher, page_count);
        },
    }
}

proof fn lemma_window(center: int, page_count: int, count: int)
    requires
        count >= 0,
    ensures
        ({
            let window = with_indices(seq![], ascending(center, count), page_count);
            &&& window.no_duplicates()
            &&& forall|i: int| 0 <= i < window.len() ==> 0 <= #[trigger] window[i] < page_count
            &&& forall|x: int| #[trigger]
                window.contains(x) <==> center <= x < center + count && 0 <= x < page_count
            &&& 0 <= center < page_count && count > 0 ==> window.len() > 0 && window[0] == center
        }),
{
    let run = ascending(center, count);
    lemma_with_indices(seq![], run, page_count);
    assert forall|x: int| #[trigger] run.contains(x) <==> center <= x < center + count by {
        if center <= x < center + count {
            assert(run[x - center] == x);
        }
    }
    if 0 <= center < page_count && count > 0 {
        lemma_window_first(center, page_count, count);
    }
}

proof fn lemma_window_first(center: int, page_count: int, count: int)
    requires
        0 <= center < page_count,
        count > 0,
    ensures
        with_indices(seq![], ascending(center, count), page_count).len() > 0,
        with_indices(seq![], ascending(center, count), page_count)[0] == center,
    decreases count,
{
    let run = ascending(center, count);
    assert(run.drop_last() =~= ascending(center, count - 1));
    if count == 1 {
        assert(with_indices(seq![], run.drop_last(), page_count) =~= seq![]);
        assert(run.last() == center);
    } else {
        lemma_window_first(center, page_count, count - 1);
    }
}

/// The full-quality order names each page once, only pages of the book, and exactly those within
/// reach of the center; the center, where it is a page of the book, comes first.
pub proof fn full_quality_order_reaches_the_neighbourhood(
    center: usize,
    page_count: usize,
    direction: NavigationDirection,
    visible_pages: usize,
)
    ensures
        ({
            let order = full_quality_order(center, page_count, direction, visible_pages);
            let ahead = if visible_pages > FULL_QUALITY_PREFETCH_FORWARD_PAGES + 1 {
                visible_pages - 1
            } else {
                FULL_QUALITY_PREFETCH_FORWARD_PAGES as int
            };
            &&& order.no_duplicates()
            &&& forall|x: int| #[trigger]
                order.contains(x) <==> 0 <= x < page_count && (x == center || is_around(
                    x,
                    center as int,
                    direction,
                    ahead,
                    FULL_QUALITY_PREFETCH_BACKWARD_PAGES as int,
                ))
            &&& center < page_count ==> order.len() > 0 && order[0] == center
        }),
{
    let first = with_indices(seq![], seq![center as int], page_count as int);
    assert(seq![center as int] =~= ascending(center as int, 1));
    lemma_window(center as int, page_count as int, 1);
    let ahead = if visible_pages > FULL_QUALITY_PREFETCH_FORWARD_PAGES + 1 {
        visible_pages - 1
    } else {
        FULL_QUALITY_PREFETCH_FORWARD_PAGES as int
    };
    lemma_around(
        first,
        center as int,
        page_count as int,
        direction,
        ahead,
        FULL_QUALITY_PREFETCH_BACKWARD_PAGES as int,
    );
}

/// The preview order names each page once, only pages of the book, and exactly the visible ones
/// and those within reach of the center; the center comes first.
pub proof fn preview_order_reaches_the_neighbourhood(
    center: usize,
    page_count: usize,
    direction: NavigationDirection,
    visible_pages: usize,
)
    requires
        page_count > 0,
    ensures
        ({
            let order = preview_order(center, page_count, direction, visible_pages);
            let middle = if center < page_count {
                center as int
            } else {
                page_count - 1
            };
            &&& order.no_duplicates()
            &&& forall|x: int| #[trigger]
                order.contains(x) <==> 0 <= x < page_count && (middle <= x < middle + shown(
                    visible_pages,
                ) || is_around(
                    x,
                    middle,
                    direction,
                    PREVIEW_PREFETCH_FORWARD_PAGES as int,
                    PREVIEW_PREFETCH_BACKWARD_PAGES as int,
                ))
            &&& order.len() > 0 && order[0] == middle
        }),
{
    let middle = if center < page_count {
        center as int
    } else {
        page_count - 1
    };
    let first = with_indices(seq![], ascending(middle, shown(visible_pages)), page_count as int);
    lemma_window(middle, page_count as int, shown(visible_pages));
    lemma_around(
        first,
        middle,
        page_count as int,
        direction,
        PREVIEW_PREFETCH_FORWARD_PAGES as int,
        PREVIEW_PREFETCH_BACKWARD_PAGES as int,
    );
}

/// Appending a run of ascending pages that are not there yet appends those inside the book.
proof fn lemma_ascending_is_appended(kept: Seq<int>, first: int, count: int, page_count: int)
    requires
        0 <= first,
        0 <= count,
        forall|i: int| 0 <= i < kept.len() ==> #[trigger] kept[i] < first,
    ensures
        with_indices(kept, ascending(first, count), page_count) == kept + ascending(
            first,
            if first + count <= page_count {
                count
            } else if first <= page_count {
                page_count - first
            } else {
                0
            },
        ),
    decreases count,
{
    let run = ascending(first, count);
    if count > 0 {
        assert(run.drop_last() =~= ascending(first, count - 1));
        lemma_ascending_is_appended(kept, first, count - 1, page_count);
        let before = with_indices(kept, run.drop_last(), page_count);
        let x = first + count - 1;
        assert(run.last() == x);
        assert(!before.contains(x)) by {
            if before.contains(x) {
                let at = choose|at: int| 0 <= at < before.len() && before[at] == x;
                if at < kept.len() {
                    assert(before[at] == kept[at]);
                }
            }
        }
        if x < page_count {
            assert(before.push(x) =~= kept + ascending(first, count));
        }
    } else {
        assert(kept =~= kept + ascending(first, 0));
        assert(kept =~= kept + ascending(first, count));
        if first <= page_count {
            assert(ascending(first, count) =~= ascending(first, 0));
        }
    }
}

/// Appending a run of descending pages that are not there yet appends those inside the book.
proof fn lemma_descending_is_appended(kept: Seq<int>, first: int, count: int, page_count: int)
    requires
        -1 <= first < page_count,
        0 <= count,
        forall|i: int| 0 <= i < kept.len() ==> #[trigger] kept[i] > first,
    ensures
        with_indices(kept, descending(first, count), page_count) == kept + descending(
            first,
            if count <= first + 1 {
                count
            } else {
                first + 1
            },
        ),
    decreases count,
{
    let run = descending(first, count);
    if count > 0 {
        assert(run.drop_last() =~= descending(first, count - 1));
        lemma_descending_is_appended(kept, first, count - 1, page_count);
        let before = with_indices(kept, run.drop_last(), page_count);
        let x = first - count + 1;
        assert(run.last() == x);
        assert(!before.contains(x)) by {
            if before.contains(x) {
                let at = choose|at: int| 0 <= at < before.len() && before[at] == x;
                if at < kept.len() {
                    assert(before[at] == kept[at]);
                }
            }
        }
        if 0 <= x {
            assert(before.push(x) =~= kept + descending(first, count));
        }
    } else {
        assert(kept =~= kept + descending(first, 0));
    }
}

/// Pages are prepared at full quality from the center outward in the reading direction, one after
/// the other, as many as are shown and at least twelve of them; then the page on the other side. So
/// nearer pages come before farther ones, and those ahead before the one behind.
pub proof fn pages_are_prepared_outward(
    center: usize,
    page_count: usize,
    direction: NavigationDirection,
    visible_pages: usize,
    i: int,
)
    requires
        center < page_count,
    ensures
        ({
            let order = full_quality_order(center, page_count, direction, visible_pages);
            let reach = if visible_pages > 13 {
                visible_pages - 1
            } else {
                12
            };
            let room = if direction == NavigationDirection::Forward {
                page_count - 1 - center
            } else {
                center as int
            };
            let ahead = if reach <= room {
                reach
            } else {
                room
            };
            &&& order.len() >= ahead + 1
            &&& 0 <= i <= ahead && direction == NavigationDirection::Forward ==> order[i] == center
                + i
            &&& 0 <= i <= ahead && direction == NavigationDirection::Backward ==> order[i] == center
                - i
            &&& direction == NavigationDirection::Forward && center > 0 ==> order.len() == ahead + 2
                && order[ahead + 1] == center - 1
            &&& direction == NavigationDirection::Forward && center == 0 ==> order.len() == ahead + 1
            &&& direction == NavigationDirection::Backward && center + 1 < page_count ==> order.len()
                == ahead + 2 && order[ahead + 1] == center + 1
            &&& direction == NavigationDirection::Backward && center + 1 == page_count ==> order.len()
                == ahead + 1
        }),
{
    let c = center as int;
    let n = page_count as int;
    let reach = if visible_pages > 13 {
        visible_pages - 1
    } else {
        12
    };
    let start = with_indices(seq![], seq![c], n);
    assert(seq![c].drop_last() =~= Seq::<int>::empty());
    assert(with_indices(seq![], seq![c].drop_last(), n) =~= Seq::<int>::empty());
    assert(start =~= seq![c]);
    match direction {
        NavigationDirection::Forward => {
            lemma_ascending_is_appended(start, c + 1, reach, n);
            let first = with_indices(start, ascending(c + 1, reach), n);
            lemma_descending_is_appended(first, c - 1, 1, n);
        },
        NavigationDirection::Backward => {
            lemma_descending_is_appended(start, c - 1, reach, n);
            let first = with_indices(start, descending(c - 1, reach), n);
            lemma_ascending_is_appended(first, c + 1, 1, n);
        },
    }
}

/// The pages that are shown are those from the center on, in order, as far as the book goes.
pub proof fn shown_pages_follow_the_center(
    center: usize,
    page_count: usize,
    visible_pages: usize,
    i: int,
)
    requires
        center < page_count,
    ensures
        ({
            let window = visible_window(center, page_count, visible_pages);
            let count = if visible_pages == 0 {
                1
            } else {
                visible_pages as int
            };
            let left = page_count - center;
            &&& window.len() == if count <= left {
                count
            } else {
                left
            }
            &&& 0 <= i < window.len() ==> window[i] == center + i
        }),
        visible_pages > 0 ==> (is_shown((center + 1) as usize, center, visible_pages) ==> visible_pages
            > 1),
        is_shown(center, center, visible_pages),
{
    let count = shown(visible_pages);
    lemma_ascending_is_appended(seq![], center as int, count, page_count as int);
}

/// Previews are prepared of the pages that are shown, in order, before those further off in the reading
/// direction, nearest first, up to twenty-four pages off; then of the two pages on the other side.
pub proof fn previews_are_prepared_outward(
    center: usize,
    page_count: usize,
    visible_pages: usize,
    i: int,
)
    requires
        center < page_count,
        visible_pages <= 25,
    ensures
        ({
            let order = preview_order(
                center,
                page_count,
                NavigationDirection::Forward,
                visible_pages,
            );
            let left = page_count - 1 - center;
            let ahead = if 24 <= left {
                24
            } else {
                left
            };
            let behind = if 2 <= center {
                2
            } else {
                center as int
            };
            &&& order.len() == 1 + ahead + behind
            &&& 0 <= i <= ahead ==> order[i] == center + i
            &&& 0 < i <= behind ==> order[ahead + i] == center - i
        }),
{
    let c = center as int;
    let n = page_count as int;
    let count = shown(visible_pages);
    lemma_ascending_is_appended(seq![], c, count, n);
    let start = with_indices(seq![], ascending(c, count), n);
    let left = n - 1 - c;
    let kept = start.len() as int;
    assert(start =~= ascending(c, kept));
    // The pages ahead begin among those that are shown.
    lemma_skip_known(start, c + 1, 24, kept - 1, n);
    let first = with_indices(start, ascending(c + 1, 24), n);
    let ahead = if 24 <= left {
        24
    } else {
        left
    };
    assert(first =~= ascending(c, ahead + 1));
    lemma_descending_is_appended(first, c - 1, 2, n);
}

/// Of a run of ascending pages those at its beginning that are there already add nothing.
proof fn lemma_skip_known(kept: Seq<int>, first: int, count: int, known: int, page_count: int)
    requires
        0 <= known,
        0 <= count,
        0 <= first - 1,
        kept == ascending(first - 1, known + 1),
        first + known <= page_count,
    ensures
        with_indices(kept, ascending(first, count), page_count) == ascending(
            first - 1,
            if count <= known {
                known + 1
            } else if first + count <= page_count {
                count + 1
            } else {
                page_count - first + 1
            },
        ),
    decreases count,
{
    let run = ascending(first, count);
    if count > 0 {
        assert(run.drop_last() =~= ascending(first, count - 1));
        lemma_skip_known(kept, first, count - 1, known, page_count);
        let before = with_indices(kept, run.drop_last(), page_count);
        let x = first + count - 1;
        assert(run.last() == x);
        if count <= known {
            assert(before[count] == x);
            assert(before.contains(x));
        } else {
            assert(!before.contains(x)) by {
                if before.contains(x) {
                    let at = choose|at: int| 0 <= at < before.len() && before[at] == x;
                    assert(before[at] == first - 1 + at);
                }
            }
            if x < page_count {
                assert(before.push(x) =~= ascending(first - 1, count + 1));
            }
        }
    } else {
        assert(with_indices(kept, run, page_count) == kept);
    }
}

/// A plan holds previews only beside a larger size, and never while originals are inspected or where
/// they are not wanted.
pub proof fn previews_accompany_larger_sizes(
    center: usize,
    page_count: usize,
    direction: NavigationDirection,
    target_long_edge: u32,
    target_intent: PreparedTargetIntent,
    visible_pages: usize,
    prefetch_enabled: bool,
    progressive_preview_enabled: bool,
    i: int,
)
    requires
        target_long_edge <= 1024 || target_intent == PreparedTargetIntent::OriginalInspection
            || !progressive_preview_enabled,
    ensures
        ({
            let jobs = job_order(
                center,
                page_count,
                direction,
                target_long_edge,
                target_intent,
                visible_pages,
                prefetch_enabled,
                progressive_preview_enabled,
            );
            0 <= i < jobs.len() ==> jobs[i].target_long_edge
                == crate::worker::api::clamped_target(target_long_edge)
        }),
{
    let indices = if target_intent == PreparedTargetIntent::NormalNavigation && prefetch_enabled {
        full_quality_order(center, page_count, direction, visible_pages)
    } else {
        visible_window(center, page_count, visible_pages)
    };
    lemma_with_jobs(seq![], indices, crate::worker::api::clamped_target(target_long_edge));
}

proof fn lemma_with_jobs(jobs: Seq<PageJob>, indices: Seq<int>, target_long_edge: u32)
    requires
        jobs.no_duplicates(),
    ensures
        ({
            let all = with_jobs(jobs, indices, target_long_edge);
            &&& jobs.is_prefix_of(all)
            &&& all.no_duplicates()
            &&& forall|i: int|
                jobs.len() <= i < all.len() ==> (#[trigger] all[i]).target_long_edge
                    == target_long_edge
            &&& forall|job: PageJob| #[trigger]
                all.contains(job) <==> jobs.contains(job) || (job.target_long_edge
                    == target_long_edge && exists|k: int|
                    0 <= k < indices.len() && job.index == #[trigger] indices[k] as usize)
        }),
    decreases indices.len(),
{
    let all = with_jobs(jobs, indices, target_long_edge);
    if indices.len() > 0 {
        let rest = indices.drop_last();
        lemma_with_jobs(jobs, rest, target_long_edge);
        let before = with_jobs(jobs, rest, target_long_edge);
        let added = PageJob { index: indices.last() as usize, target_long_edge };
        assert forall|job: PageJob| #[trigger]
            all.contains(job) <==> jobs.contains(job) || (job.target_long_edge == target_long_edge
                && exists|k: int|
                0 <= k < indices.len() && job.index == #[trigger] indices[k] as usize) by {
            assert(all.contains(job) <==> before.contains(job) || job == added) by {
                if before.contains(job) {
                    let k = before.index_of(job);
                    assert(all[k] == job);
                }
                if job == added && !before.contains(added) {
                    assert(all[before.len() as int] == added);
                }
            }
            if before.contains(job) && !jobs.contains(job) {
                let k = choose|k: int|
                    0 <= k < rest.len() && job.index == #[trigger] rest[k] as usize;
                assert(indices[k] == rest[k]);
            }
            if job == added {
                assert(indices[indices.len() - 1] as usize == job.index);
            }
            if exists|k: int| 0 <= k < indices.len() && job.index == #[trigger] indices[k] as usize {
                let k = choose|k: int|
                    0 <= k < indices.len() && job.index == #[trigger] indices[k] as usize;
                if k < rest.len() {
                    assert(rest[k] == indices[k]);
                }
            }
        }
    }
}

/// A plan holds no job twice, every job is at the requested target or at the preview size, and
/// the jobs at the requested target come before the previews.
pub proof fn job_order_puts_the_exact_target_first(
    center: usize,
    page_count: usize,
    direction: NavigationDirection,
    target_long_edge: u32,
    target_intent: PreparedTargetIntent,
    visible_pages: usize,
    prefetch_enabled: bool,
    progressive_preview_enabled: bool,
)
    ensures
        ({
            let jobs = job_order(
                center,
                page_count,
                direction,
                target_long_edge,
                target_intent,
                visible_pages,
                prefetch_enabled,
                progressive_preview_enabled,
            );
            let target = crate::worker::api::clamped_target(target_long_edge);
            &&& jobs.no_duplicates()
            &&& forall|i: int|
                0 <= i < jobs.len() ==> (#[trigger] jobs[i]).target_long_edge == target
                    || jobs[i].target_long_edge == PREVIEW_TARGET_LONG_EDGE
            &&& forall|i: int, j: int|
                0 <= i < j < jobs.len() && (#[trigger] jobs[i]).target_long_edge != target ==> (
                #[trigger] jobs[j]).target_long_edge != target
        }),
{
    let target = crate::worker::api::clamped_target(target_long_edge);
    let indices = if target_intent == PreparedTargetIntent::NormalNavigation && prefetch_enabled {
        full_quality_order(center, page_count, direction, visible_pages)
    } else {
        visible_window(center, page_count, visible_pages)
    };
    let exact = with_jobs(seq![], indices, target);
    lemma_with_jobs(seq![], indices, target);
    let previews = if prefetch_enabled && page_count > 0 {
        preview_order(center, page_count, direction, visible_pages)
    } else {
        visible_window(center, page_count, visible_pages)
    };
    lemma_with_jobs(exact, previews, PREVIEW_TARGET_LONG_EDGE);
    let jobs = with_jobs(exact, previews, PREVIEW_TARGET_LONG_EDGE);
    assert forall|i: int| 0 <= i < exact.len() implies #[trigger] jobs[i] == exact[i] by {
        assert(exact =~= jobs.subrange(0, exact.len() as int));
    }
}

/// Every visible page of the book is planned at the requested target. While pages are turned
/// backward with prefetching on, that reaches one page past the center.
pub proof fn job_order_serves_the_visible_pages(
    center: usize,
    page_count: usize,
    direction: NavigationDirection,
    target_long_edge: u32,
    target_intent: PreparedTargetIntent,
    visible_pages: usize,
    prefetch_enabled: bool,
    progressive_preview_enabled: bool,
    index: usize,
)
    requires
        center <= index < center + shown(visible_pages),
        index < page_count,
        direction == NavigationDirection::Backward && target_intent
            == PreparedTargetIntent::NormalNavigation && prefetch_enabled ==> index <= center + 1,
    ensures
        job_order(
            center,
            page_count,
            direction,
            target_long_edge,
            target_intent,
            visible_pages,
            prefetch_enabled,
            progressive_preview_enabled,
        ).contains(
            (PageJob {
                index,
                target_long_edge: crate::worker::api::clamped_target(target_long_edge),
            }),
        ),
{
    let target = crate::worker::api::clamped_target(target_long_edge);
    let job = PageJob { index, target_long_edge: target };
    let indices = if target_intent == PreparedTargetIntent::NormalNavigation && prefetch_enabled {
        full_quality_order(center, page_count, direction, visible_pages)
    } else {
        visible_window(center, page_count, visible_pages)
    };
    let exact = with_jobs(seq![], indices, target);
    lemma_with_jobs(seq![], indices, target);
    lemma_window(center as int, page_count as int, shown(visible_pages));
    full_quality_order_reaches_the_neighbourhood(center, page_count, direction, visible_pages);
    assert(indices.contains(index as int));
    let k = indices.index_of(index as int);
    assert(indices[k] as usize == index);
    assert(exact.contains(job));
    let previews = if prefetch_enabled && page_count > 0 {
        preview_order(center, page_count, direction, visible_pages)
    } else {
        visible_window(center, page_count, visible_pages)
    };
    lemma_with_jobs(exact, previews, PREVIEW_TARGET_LONG_EDGE);
    assert(with_jobs(exact, previews, PREVIEW_TARGET_LONG_EDGE).contains(job));
}

/// Illustrator files are prepared at full size where they are shown and nowhere else; every other page
/// is prepared wherever it is scheduled.
pub proof fn illustrator_files_are_prepared_where_shown(
    page_name: Seq<char>,
    center: usize,
    visible_pages: usize,
    index: usize,
    target_long_edge: u32,
)
    ensures
        !crate::text::has_extension_spec(page_name, "ai"@) ==> !skips_ai_page(
            Some(page_name),
            center,
            visible_pages,
            index,
            target_long_edge,
        ),
        crate::text::has_extension_spec(page_name, "ai"@) ==> (skips_ai_page(
            Some(page_name),
            center,
            visible_pages,
            index,
            target_long_edge,
        ) <==> target_long_edge == 1024 || !is_shown(index, center, visible_pages)),
        !skips_ai_page(None, center, visible_pages, index, target_long_edge),
        index < usize::MAX ==> (is_shown(index, center, visible_pages) <==> center <= index && (index
            == center || index < center + visible_pages)),
{
}

} // verus!
