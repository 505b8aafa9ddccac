//! Outlier-resistant estimation of the current slot from slot events.

use std::collections::VecDeque;

use vstd::prelude::*;
use vstd::relations::sorted_by;
use vstd::seq_lib::lemma_sorted_unique;

use crate::{Slot, MAX_SLOT_SKIP_DISTANCE, RECENT_LEADER_SLOTS_CAPACITY};

verus! {

broadcast use vstd::seq_lib::group_to_multiset_ensures;

/// A slot event: the first shred of a slot arrived, or the slot completed.
#[derive(Debug, Clone, Copy, PartialEq, Eq, Structural)]
pub enum SlotEvent {
    /// First shred received for a slot.
    Start(Slot),
    /// Slot completed.
    End(Slot),
}

impl SlotEvent {
    pub open spec fn slot_of(self) -> Slot {
        match self {
            SlotEvent::Start(s) => s,
            SlotEvent::End(s) => s,
        }
    }

    /// Returns the slot number of this event.
    pub fn slot(&self) -> (r: Slot)
        ensures
            r == self.slot_of(),
    {
        match self {
            SlotEvent::Start(s) => *s,
            SlotEvent::End(s) => *s,
        }
    }

    /// Returns true if this is a slot start event.
    pub fn is_start(&self) -> (r: bool)
        ensures
            r == (*self is Start),
    {
        match self {
            SlotEvent::Start(_) => true,
            SlotEvent::End(_) => false,
        }
    }

    /// The slot this event says the network has reached: a started slot is
    /// current, a completed one means the next slot is.
    pub open spec fn reached(self) -> Slot {
        match self {
            SlotEvent::Start(s) => s,
            SlotEvent::End(s) => if s == u64::MAX { s } else { (s + 1) as Slot },
        }
    }
}

/// Event order: by slot, and a start before an end of the same slot.
pub open spec fn event_le(a: SlotEvent, b: SlotEvent) -> bool {
    a.slot_of() < b.slot_of() || (a.slot_of() == b.slot_of() && (a is Start || b is End))
}

pub open spec fn event_order() -> spec_fn(SlotEvent, SlotEvent) -> bool {
    |a: SlotEvent, b: SlotEvent| event_le(a, b)
}

/// The events in event order.
pub open spec fn sorted_events(events: Seq<SlotEvent>) -> Seq<SlotEvent> {
    events.sort_by(event_order())
}

/// Index of the last event before `hi` whose slot is at most `cap`, or -1.
pub open spec fn last_within(s: Seq<SlotEvent>, cap: int, hi: int) -> int
    decreases hi,
{
    if hi <= 0 {
        -1
    } else if s[hi - 1].slot_of() <= cap {
        hi - 1
    } else {
        last_within(s, cap, hi - 1)
    }
}

/// The median index of a sorted sequence of `n` events.
pub open spec fn median_index(n: int) -> int {
    (n - 1) / 2
}

/// The largest slot still believable: the median slot, plus the events after
/// the median, plus the skip allowance.
pub open spec fn max_reasonable(s: Seq<SlotEvent>) -> int {
    let mid = median_index(s.len() as int);
    s[mid].slot_of() + (s.len() - 1 - mid) + MAX_SLOT_SKIP_DISTANCE
}

/// The estimate from events already in event order (non-empty): the last
/// event within the believable range, or the median if there is none.
pub open spec fn estimate_sorted(s: Seq<SlotEvent>) -> Slot {
    let k = last_within(s, max_reasonable(s), s.len() as int);
    let idx = if k < 0 { median_index(s.len() as int) } else { k };
    s[idx].reached()
}

/// The estimate of the current slot from a ring of events; `previous` when
/// the ring is empty.
pub open spec fn estimate(events: Seq<SlotEvent>, previous: Slot) -> Slot {
    if events.len() == 0 {
        previous
    } else {
        estimate_sorted(sorted_events(events))
    }
}

/// The ring after appending an event: the most recent events, at most the capacity.
pub open spec fn keep_recent(events: Seq<SlotEvent>) -> Seq<SlotEvent> {
    if events.len() > RECENT_LEADER_SLOTS_CAPACITY {
        events.subrange(events.len() - RECENT_LEADER_SLOTS_CAPACITY, events.len() as int)
    } else {
        events
    }
}

/// The ring and estimate after a slot from a monotonic source: a newer slot
/// replaces the ring with its start event and becomes current; any other
/// slot changes nothing.
pub open spec fn after_monotonic(events: Seq<SlotEvent>, current: Slot, slot: Slot) -> (Seq<SlotEvent>, Slot) {
    if slot > current {
        (seq![SlotEvent::Start(slot)], slot)
    } else {
        (events, current)
    }
}

/// Recording slot `a` and then a slot `b <= a` from a monotonic source leaves
/// `a` as the current slot (when `a` is at least the slot held before).
pub proof fn lemma_monotonic_keeps_newest(events: Seq<SlotEvent>, current: Slot, a: Slot, b: Slot)
    requires
        b <= a,
        current <= a,
    ensures
        ({
            let first = after_monotonic(events, current, a);
            after_monotonic(first.0, first.1, b).1 == a
        }),
{
}

fn event_le_exec(a: &SlotEvent, b: &SlotEvent) -> (r: bool)
    ensures
        r == event_le(*a, *b),
{
    a.slot() < b.slot() || (a.slot() == b.slot() && (a.is_start() || !b.is_start()))
}

/// Copies the ring into a vector in event order (insertion sort; the ring is small).
fn sort_events(events: &VecDeque<SlotEvent>) -> (r: Vec<SlotEvent>)
    ensures
        r@ == sorted_events(events@),
{
    let n = events.len();
    let mut r: Vec<SlotEvent> = Vec::new();
    let mut i: usize = 0;
    while i < n
        invariant
            n == events@.len(),
            i <= n,
            sorted_by(r@, event_order()),
            r@.to_multiset() == events@.take(i as int).to_multiset(),
        decreases n - i,
    {
        let e = events[i];
        let mut pos: usize = 0;
        while pos < r.len() && event_le_exec(&r[pos], &e)
            invariant
                pos <= r@.len(),
                forall|k: int| 0 <= k < pos ==> event_le(#[trigger] r@[k], e),
            decreases r@.len() - pos,
        {
            pos = pos + 1;
        }
        let ghost before = r@;
        r.insert(pos, e);
        proof {
            assert(r@ == before.insert(pos as int, e));
            assert(events@.take(i + 1) =~= events@.take(i as int).push(e));
            assert forall|a: int, b: int| 0 <= a < b < r@.len() implies #[trigger] event_le(
                r@[a],
                r@[b],
            ) by {
                let p = pos as int;
                assert(a < p ==> r@[a] == before[a]);
                assert(a > p ==> r@[a] == before[a - 1]);
                assert(b < p ==> r@[b] == before[b]);
                assert(b > p ==> r@[b] == before[b - 1]);
                assert(r@[p] == e);
                if b < p {
                    assert(event_order()(before[a], before[b]));
                } else if a < p && b == p {
                } else if a < p {
                    assert(event_order()(before[a], before[b - 1]));
                } else if a == p {
                    assert(p < before.len());
                    assert(!event_le(before[p], e));
                    if b - 1 > p {
                        assert(event_order()(before[p], before[b - 1]));
                    }
                } else {
                    assert(event_order()(before[a - 1], before[b - 1]));
                }
            }
            assert(sorted_by(r@, event_order()));
        }
        i = i + 1;
    }
    proof {
        let ghost s = events@;
        s.lemma_sort_by_ensures(event_order());
        assert(s.take(n as int) =~= s);
        lemma_sorted_unique(r@, sorted_events(s), event_order());
    }
    r
}

/// Tracks recent slot events and estimates the current slot.
#[derive(Debug)]
pub struct SlotsTracker {
    recent_events: VecDeque<SlotEvent>,
    current_slot: Slot,
}

impl SlotsTracker {
    /// The ring of recent events, oldest first.
    pub closed spec fn events(&self) -> Seq<SlotEvent> {
        self.recent_events@
    }

    /// The current slot estimate.
    pub closed spec fn current(&self) -> Slot {
        self.current_slot
    }

    /// Creates a tracker with no events and slot 0.
    pub fn new() -> (r: Self)
        ensures
            r.events() == Seq::<SlotEvent>::empty(),
            r.current() == 0,
    {
        SlotsTracker { recent_events: VecDeque::with_capacity(RECENT_LEADER_SLOTS_CAPACITY), current_slot: 0 }
    }

    /// Returns the current estimated slot.
    pub fn current_slot(&self) -> (r: Slot)
        ensures
            r == self.current(),
    {
        self.current_slot
    }

    /// Estimates the current slot from the ring: the median anchors against
    /// outliers, the events after it account for newer data, and the skip
    /// allowance caps how far ahead a claimed slot may be.
    fn estimate_current_slot(&self) -> (r: Slot)
        ensures
            r == estimate(self.events(), self.current()),
    {
        if self.recent_events.len() == 0 {
            return self.current_slot;
        }
        let sorted = sort_events(&self.recent_events);
        let ghost s = sorted@;
        proof {
            self.recent_events@.lemma_sort_by_ensures(event_order());
            assert(s.len() == self.recent_events@.len()) by {
                assert(s.to_multiset().len() == self.recent_events@.to_multiset().len());
            }
        }
        let n = sorted.len();
        let max_idx = n - 1;
        let mid = max_idx / 2;
        let median_slot = sorted[mid].slot();
        let cap = median_slot.saturating_add((max_idx - mid) as u64).saturating_add(
            MAX_SLOT_SKIP_DISTANCE,
        );
        let ghost cap_int = max_reasonable(s);
        assert(cap as int == if cap_int > u64::MAX { u64::MAX as int } else { cap_int });
        let mut hi: usize = n;
        while hi > 0 && sorted[hi - 1].slot() > cap
            invariant
                n == s.len(),
                sorted@ == s,
                hi <= n,
                cap as int == if cap_int > u64::MAX { u64::MAX as int } else { cap_int },
                last_within(s, cap_int, n as int) == last_within(s, cap_int, hi as int),
            decreases hi,
        {
            hi = hi - 1;
        }
        let idx = if hi == 0 { mid } else { hi - 1 };
        let picked = sorted[idx];
        if picked.is_start() {
            picked.slot()
        } else {
            picked.slot().saturating_add(1)
        }
    }

    /// Records a slot event and returns the new current slot estimate.
    pub fn record(&mut self, event: SlotEvent) -> (r: Slot)
        ensures
            final(self).events() == keep_recent(old(self).events().push(event)),
            final(self).current() == estimate(final(self).events(), old(self).current()),
            r == final(self).current(),
    {
        let ghost pushed = self.recent_events@.push(event);
        self.recent_events.push_back(event);
        while self.recent_events.len() > RECENT_LEADER_SLOTS_CAPACITY
            invariant
                pushed.len() >= self.recent_events@.len(),
                pushed.len() <= RECENT_LEADER_SLOTS_CAPACITY ==> self.recent_events@.len()
                    == pushed.len(),
                pushed.len() > RECENT_LEADER_SLOTS_CAPACITY ==> self.recent_events@.len()
                    >= RECENT_LEADER_SLOTS_CAPACITY,
                self.recent_events@ == pushed.subrange(
                    pushed.len() - self.recent_events@.len(),
                    pushed.len() as int,
                ),
            decreases self.recent_events@.len(),
        {
            self.recent_events.pop_front();
        }
        assert(self.recent_events@ =~= keep_recent(pushed));
        let estimated = self.estimate_current_slot();
        self.current_slot = estimated;
        estimated
    }

    /// Records a slot start event (first shred received).
    pub fn record_start(&mut self, slot: Slot) -> (r: Slot)
        ensures
            final(self).events() == keep_recent(old(self).events().push(SlotEvent::Start(slot))),
            final(self).current() == estimate(final(self).events(), old(self).current()),
            r == final(self).current(),
    {
        self.record(SlotEvent::Start(slot))
    }

    /// Records a slot end event (slot completed).
    pub fn record_end(&mut self, slot: Slot) -> (r: Slot)
        ensures
            final(self).events() == keep_recent(old(self).events().push(SlotEvent::End(slot))),
            final(self).current() == estimate(final(self).events(), old(self).current()),
            r == final(self).current(),
    {
        self.record(SlotEvent::End(slot))
    }

    /// Records a slot from a trusted monotonic source, bypassing outlier
    /// filtering: a newer slot replaces the ring, anything else is ignored.
    pub fn record_monotonic(&mut self, slot: Slot) -> (r: Slot)
        ensures
            (final(self).events(), final(self).current()) == after_monotonic(
                old(self).events(),
                old(self).current(),
                slot,
            ),
            r == final(self).current(),
    {
        if slot <= self.current_slot {
            return self.current_slot;
        }
        self.recent_events.clear();
        self.recent_events.push_back(SlotEvent::Start(slot));
        assert(self.recent_events@ =~= seq![SlotEvent::Start(slot)]);
        self.current_slot = slot;
        self.current_slot
    }
}

impl Default for SlotsTracker {
    fn default() -> (r: Self)
        ensures
            r.events() == Seq::<SlotEvent>::empty(),
            r.current() == 0,
    {
        Self::new()
    }
}

} // verus!
