//! How many results may wait for the application. A result counts until the application has
//! accepted or discarded it, also while it is deferred there.
use crate::worker::api::WorkerEvent;
use vstd::prelude::*;

verus! {

/// The most results that may wait.
pub const MAX_PENDING_EVENTS: usize = 64;

/// The results that wait: how many, and how many bytes of pixels they hold.
#[derive(Debug, Clone, Copy, PartialEq, Eq, Structural)]
pub struct DeliveryUsage {
    pub bytes: usize,
    pub events: usize,
}

impl Default for DeliveryUsage {
    fn default() -> (usage: Self)
        ensures
            usage == (DeliveryUsage { bytes: 0, events: 0 }),
    {
        DeliveryUsage { bytes: 0, events: 0 }
    }
}

/// The bytes of pixels in a result.
pub open spec fn event_size(event: WorkerEvent) -> usize {
    match event {
        WorkerEvent::PageReady { page, .. } => page.byte_size,
        WorkerEvent::PageFailed { .. } => 0,
    }
}

pub fn event_bytes(event: &WorkerEvent) -> (bytes: usize)
    ensures
        bytes == event_size(*event),
{
    match event {
        WorkerEvent::PageReady { page, .. } => page.byte_size,
        WorkerEvent::PageFailed { .. } => 0,
    }
}

impl DeliveryUsage {
    /// Whether another result may wait: one that fits the budget, or any one where none waits.
    pub open spec fn admits_spec(self, bytes: usize, budget_bytes: usize) -> bool {
        self.events < MAX_PENDING_EVENTS && (crate::worker::cache::plus(
            self.bytes as int,
            bytes as int,
        ) <= budget_bytes || self.events == 0)
    }

    pub fn admits(&self, bytes: usize, budget_bytes: usize) -> (admitted: bool)
        ensures
            admitted == self.admits_spec(bytes, budget_bytes),
    {
        self.events < MAX_PENDING_EVENTS && (self.bytes.saturating_add(bytes) <= budget_bytes
            || self.events == 0)
    }

    /// Counts a result if it may wait.
    pub fn accept(&mut self, bytes: usize, budget_bytes: usize) -> (accepted: bool)
        ensures
            accepted == old(self).admits_spec(bytes, budget_bytes),
            *final(self) == if accepted {
                DeliveryUsage {
                    bytes: crate::worker::cache::plus(old(self).bytes as int, bytes as int)
                        as usize,
                    events: (old(self).events + 1) as usize,
                }
            } else {
                *old(self)
            },
    {
        if !self.admits(bytes, budget_bytes) {
            return false;
        }
        self.bytes = self.bytes.saturating_add(bytes);
        self.events = self.events + 1;
        true
    }

    /// Counts a result no longer.
    pub fn release(&mut self, bytes: usize)
        requires
            old(self).events > 0,
            bytes <= old(self).bytes,
        ensures
            final(self).bytes == old(self).bytes - bytes,
            final(self).events == old(self).events - 1,
    {
        self.bytes = self.bytes - bytes;
        self.events = self.events - 1;
    }
}

/// The bytes of several results together.
pub open spec fn waiting_bytes(waiting: Seq<int>) -> int
    decreases waiting.len(),
{
    if waiting.len() == 0 {
        0
    } else {
        waiting_bytes(waiting.drop_last()) + waiting.last()
    }
}

/// Results that were admitted one after the other under a budget, none of them released yet.
pub open spec fn admitted_under(waiting: Seq<int>, budget: usize) -> bool
    decreases waiting.len(),
{
    if waiting.len() == 0 {
        true
    } else {
        &&& admitted_under(waiting.drop_last(), budget)
        &&& waiting.last() >= 0
        &&& waiting.len() <= MAX_PENDING_EVENTS
        &&& waiting_bytes(waiting) <= budget || waiting.len() == 1
    }
}

/// What waits is within the budget, but for a single result that is beyond it alone; and it is
/// never more than the limit.
pub proof fn waiting_results_are_bounded(waiting: Seq<int>, budget: usize)
    requires
        admitted_under(waiting, budget),
    ensures
        waiting.len() <= MAX_PENDING_EVENTS,
        waiting.len() != 1 ==> waiting_bytes(waiting) <= budget,
{
}

/// Beside a result that is beyond the budget alone no other one is admitted, however small.
pub proof fn no_second_oversize_result(usage: DeliveryUsage, bytes: usize, budget: usize)
    requires
        usage.events > 0,
        usage.bytes > budget,
    ensures
        !usage.admits_spec(bytes, budget),
{
}

/// A result is admitted exactly where the results that wait stay admitted under the budget.
pub proof fn admission_keeps_the_bound(waiting: Seq<int>, bytes: usize, budget: usize)
    requires
        admitted_under(waiting, budget),
        waiting_bytes(waiting) + bytes <= usize::MAX,
        0 <= waiting_bytes(waiting),
    ensures
        (DeliveryUsage {
            bytes: waiting_bytes(waiting) as usize,
            events: waiting.len() as usize,
        }).admits_spec(bytes, budget) == admitted_under(waiting.push(bytes as int), budget),
{
    let more = waiting.push(bytes as int);
    assert(more.drop_last() =~= waiting);
}

/// A result that fits beside those that wait is admitted as long as fewer than 64 of them wait, and
/// none is admitted beside 64. Where none waits, one is admitted whatever its size.
pub proof fn results_wait_as_long_as_there_is_room(
    usage: DeliveryUsage,
    bytes: usize,
    less: usize,
    budget: usize,
)
    ensures
        usage.events >= 64 ==> !usage.admits_spec(bytes, budget),
        usage.events < 64 && usage.bytes + bytes <= budget ==> usage.admits_spec(bytes, budget),
        0 < usage.events && usage.bytes + bytes > budget && budget < usize::MAX ==> !usage.admits_spec(
            bytes,
            budget,
        ),
        usage.events == 0 ==> usage.admits_spec(bytes, budget),
        less <= bytes && usage.admits_spec(bytes, budget) ==> usage.admits_spec(less, budget),
{
}

} // verus!
