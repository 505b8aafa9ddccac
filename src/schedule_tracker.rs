//! Per-epoch leader schedules: the current epoch's and the prefetched next
//! epoch's, with rotation at the epoch boundary.

use std::collections::HashMap;

use vstd::prelude::*;

use crate::Slot;

verus! {

broadcast use vstd::std_specs::hash::group_hash_axioms;

/// Why epoch information or a fetched schedule was rejected.
#[derive(Debug, Clone, Copy, PartialEq, Eq, Structural)]
pub enum ScheduleError {
    /// The epoch has no slots.
    ZeroSlotsInEpoch,
    /// The slot index is not inside the epoch.
    SlotIndexOutOfRange,
    /// The slot index is larger than the absolute slot.
    SlotIndexBeyondSlot,
    /// The epoch ends beyond the slot counter, or is longer than an index can address.
    EpochOutOfRange,
    /// The fetched schedule assigns no slot at all.
    EmptySchedule,
}

/// The schedule of one epoch after assigning every index in `indices` to `identity`.
pub open spec fn assign_all(schedule: Map<usize, String>, indices: Seq<usize>, identity: String) -> Map<usize, String>
    decreases indices.len(),
{
    if indices.len() == 0 {
        schedule
    } else {
        assign_all(schedule, indices.drop_last(), identity).insert(indices.last(), identity)
    }
}

/// The inverse of a leader schedule `[(identity, [slot_index, ...]), ...]`:
/// each slot index maps to the identity of the last entry that lists it.
pub open spec fn inverted(entries: Seq<(String, Vec<usize>)>) -> Map<usize, String>
    decreases entries.len(),
{
    if entries.len() == 0 {
        Map::empty()
    } else {
        assign_all(inverted(entries.drop_last()), entries.last().1@, entries.last().0)
    }
}

/// Whether any entry lists at least one slot index.
pub open spec fn assigns_any(entries: Seq<(String, Vec<usize>)>) -> bool {
    exists|j: int| 0 <= j < entries.len() && #[trigger] entries[j].1@.len() > 0
}

/// Inverts a fetched leader schedule, given as identities with the slot
/// indices they lead, into a map from slot index to identity. A schedule that
/// assigns no slot is rejected.
pub fn schedule_from_leader_slots(leader_schedule: &Vec<(String, Vec<usize>)>) -> (r: Result<HashMap<usize, String>, ScheduleError>)
    ensures
        match r {
            Ok(m) => assigns_any(leader_schedule@) && m@ == inverted(leader_schedule@),
            Err(e) => !assigns_any(leader_schedule@) && e == ScheduleError::EmptySchedule,
        },
{
    let ghost entries = leader_schedule@;
    let mut schedule: HashMap<usize, String> = HashMap::new();
    let mut any = false;
    let n = leader_schedule.len();
    let mut i: usize = 0;
    while i < n
        invariant
            n == entries.len(),
            entries == leader_schedule@,
            i <= n,
            schedule@ == inverted(entries.take(i as int)),
            any == exists|j: int| 0 <= j < i && #[trigger] entries[j].1@.len() > 0,
        decreases n - i,
    {
        let identity = &leader_schedule[i].0;
        let indices = &leader_schedule[i].1;
        let ghost base = schedule@;
        let m = indices.len();
        let mut k: usize = 0;
        while k < m
            invariant
                m == indices@.len(),
                k <= m,
                schedule@ == assign_all(base, indices@.take(k as int), *identity),
            decreases m - k,
        {
            schedule.insert(indices[k], identity.clone());
            assert(indices@.take(k + 1).drop_last() =~= indices@.take(k as int));
            k = k + 1;
        }
        assert(indices@.take(m as int) =~= indices@);
        assert(entries.take(i + 1).drop_last() =~= entries.take(i as int));
        if m > 0 {
            any = true;
        }
        i = i + 1;
    }
    assert(entries.take(n as int) =~= entries);
    if !any {
        return Err(ScheduleError::EmptySchedule);
    }
    Ok(schedule)
}

/// Leader schedules for the current and the next epoch.
#[derive(Debug)]
pub struct ScheduleTracker {
    curr_epoch_slot_start: Slot,
    next_epoch_slot_start: Slot,
    curr_schedule: HashMap<usize, String>,
    next_schedule: HashMap<usize, String>,
    slots_in_epoch: Slot,
}

impl ScheduleTracker {
    /// First slot of the current epoch.
    pub closed spec fn curr_start(&self) -> Slot {
        self.curr_epoch_slot_start
    }

    /// First slot of the next epoch.
    pub closed spec fn next_start(&self) -> Slot {
        self.next_epoch_slot_start
    }

    /// Number of slots in an epoch.
    pub closed spec fn epoch_len(&self) -> Slot {
        self.slots_in_epoch
    }

    /// Slot index within the current epoch to leader identity.
    pub closed spec fn curr_leaders(&self) -> Map<usize, String> {
        self.curr_schedule@
    }

    /// Slot index within the next epoch to leader identity.
    pub closed spec fn next_leaders(&self) -> Map<usize, String> {
        self.next_schedule@
    }

    /// The epochs are contiguous, non-empty, and indexable.
    pub open spec fn wf(&self) -> bool {
        &&& 0 < self.epoch_len() <= usize::MAX
        &&& self.next_start() == self.curr_start() + self.epoch_len()
    }

    /// The index of `slot` within the current epoch, if it lies in it.
    pub open spec fn index_of(&self, slot: Slot) -> Option<usize> {
        if self.curr_start() <= slot && slot < self.next_start() {
            Some((slot - self.curr_start()) as usize)
        } else {
            None
        }
    }

    /// Rotation applies once the slot reaches the next epoch (and the epoch
    /// after it still fits the slot counter).
    pub open spec fn rotation_due(&self, slot: Slot) -> bool {
        slot >= self.next_start() && self.next_start() + self.epoch_len() <= u64::MAX
    }

    /// `self` is what `prev` becomes when the slot `slot` is seen: rotated one
    /// epoch forward (the next schedule becoming current, and an empty next
    /// schedule) if rotation is due, else unchanged.
    pub open spec fn follows_rotation(&self, prev: &ScheduleTracker, slot: Slot) -> bool {
        if prev.rotation_due(slot) {
            &&& self.curr_start() == prev.next_start()
            &&& self.next_start() == prev.next_start() + prev.epoch_len()
            &&& self.epoch_len() == prev.epoch_len()
            &&& self.curr_leaders() == prev.next_leaders()
            &&& self.next_leaders() == Map::<usize, String>::empty()
        } else {
            self.same_as(prev)
        }
    }

    /// Same epochs and schedules.
    pub open spec fn same_as(&self, other: &ScheduleTracker) -> bool {
        &&& self.curr_start() == other.curr_start()
        &&& self.next_start() == other.next_start()
        &&& self.epoch_len() == other.epoch_len()
        &&& self.curr_leaders() == other.curr_leaders()
        &&& self.next_leaders() == other.next_leaders()
    }

    /// Builds the tracker from epoch information (absolute slot, its index
    /// within the epoch, and the epoch length) and the two fetched schedules.
    pub fn new(
        absolute_slot: Slot,
        slot_index: Slot,
        slots_in_epoch: Slot,
        curr_schedule: HashMap<usize, String>,
        next_schedule: HashMap<usize, String>,
    ) -> (r: Result<Self, ScheduleError>)
        ensures
            slots_in_epoch == 0 ==> r == Err::<Self, ScheduleError>(ScheduleError::ZeroSlotsInEpoch),
            slots_in_epoch > 0 && slot_index >= slots_in_epoch ==> r == Err::<Self, ScheduleError>(
                ScheduleError::SlotIndexOutOfRange,
            ),
            0 < slots_in_epoch && slot_index < slots_in_epoch && slot_index > absolute_slot ==> r
                == Err::<Self, ScheduleError>(ScheduleError::SlotIndexBeyondSlot),
            0 < slots_in_epoch && slot_index < slots_in_epoch && slot_index <= absolute_slot && (
            absolute_slot - slot_index + slots_in_epoch > u64::MAX || slots_in_epoch > usize::MAX)
                ==> r == Err::<Self, ScheduleError>(ScheduleError::EpochOutOfRange),
            r is Ok <==> (0 < slots_in_epoch && slot_index < slots_in_epoch && slot_index
                <= absolute_slot && absolute_slot - slot_index + slots_in_epoch <= u64::MAX
                && slots_in_epoch <= usize::MAX),
            r matches Ok(t) ==> {
                &&& t.wf()
                &&& t.curr_start() == absolute_slot - slot_index
                &&& t.epoch_len() == slots_in_epoch
                &&& t.curr_leaders() == curr_schedule@
                &&& t.next_leaders() == next_schedule@
            },
    {
        if slots_in_epoch == 0 {
            return Err(ScheduleError::ZeroSlotsInEpoch);
        }
        if slot_index >= slots_in_epoch {
            return Err(ScheduleError::SlotIndexOutOfRange);
        }
        if slot_index > absolute_slot {
            return Err(ScheduleError::SlotIndexBeyondSlot);
        }
        let curr_epoch_slot_start = absolute_slot - slot_index;
        if slots_in_epoch > u64::MAX - curr_epoch_slot_start || slots_in_epoch > usize::MAX as u64 {
            return Err(ScheduleError::EpochOutOfRange);
        }
        Ok(ScheduleTracker {
            curr_epoch_slot_start,
            next_epoch_slot_start: curr_epoch_slot_start + slots_in_epoch,
            curr_schedule,
            next_schedule,
            slots_in_epoch,
        })
    }

    /// Gets the leader for a slot index within the current epoch.
    pub fn get_leader_for_slot_index(&self, slot_index: usize) -> (r: Option<&str>)
        ensures
            match r {
                Some(s) => self.curr_leaders().contains_key(slot_index) && s@
                    == self.curr_leaders()[slot_index]@,
                None => !self.curr_leaders().contains_key(slot_index),
            },
    {
        match self.curr_schedule.get(&slot_index) {
            Some(s) => Some(s.as_str()),
            None => None,
        }
    }

    /// Returns the first slot of the current epoch.
    pub fn current_epoch_slot_start(&self) -> (r: Slot)
        ensures
            r == self.curr_start(),
    {
        self.curr_epoch_slot_start
    }

    /// Returns the first slot of the next epoch.
    pub fn next_epoch_slot_start(&self) -> (r: Slot)
        ensures
            r == self.next_start(),
    {
        self.next_epoch_slot_start
    }

    /// Returns the number of slots in an epoch.
    pub fn slots_in_epoch(&self) -> (r: Slot)
        ensures
            r == self.epoch_len(),
    {
        self.slots_in_epoch
    }

    /// Converts an absolute slot to its index within the current epoch, or
    /// `None` if the slot lies outside the current epoch.
    pub fn slot_to_index(&self, slot: Slot) -> (r: Option<usize>)
        ensures
            r == self.index_of(slot),
    {
        if slot < self.curr_epoch_slot_start {
            return None;
        }
        if slot >= self.next_epoch_slot_start {
            return None;
        }
        let index = slot - self.curr_epoch_slot_start;
        Some(index as usize)
    }

    /// Replaces the schedule of the next epoch (the prefetch result).
    pub fn set_next_schedule(&mut self, schedule: HashMap<usize, String>)
        ensures
            final(self).curr_start() == old(self).curr_start(),
            final(self).next_start() == old(self).next_start(),
            final(self).epoch_len() == old(self).epoch_len(),
            final(self).curr_leaders() == old(self).curr_leaders(),
            final(self).next_leaders() == schedule@,
    {
        self.next_schedule = schedule;
    }

    /// Rotates to the next epoch once `current_slot` has reached it: the next
    /// epoch becomes current, and the next schedule starts out empty until a
    /// prefetch is installed. Returns whether rotation occurred.
    pub fn maybe_rotate(&mut self, current_slot: Slot) -> (r: bool)
        ensures
            r == old(self).rotation_due(current_slot),
            r ==> final(self).curr_start() == old(self).next_start(),
            final(self).follows_rotation(old(self), current_slot),
            old(self).wf() ==> final(self).wf(),
    {
        if current_slot < self.next_epoch_slot_start {
            return false;
        }
        if self.slots_in_epoch > u64::MAX - self.next_epoch_slot_start {
            return false;
        }
        let mut upcoming: HashMap<usize, String> = HashMap::new();
        std::mem::swap(&mut self.next_schedule, &mut upcoming);
        self.curr_schedule = upcoming;
        self.curr_epoch_slot_start = self.next_epoch_slot_start;
        self.next_epoch_slot_start = self.next_epoch_slot_start + self.slots_in_epoch;
        true
    }
}

/// Every slot of the current epoch has an index below the epoch length, and
/// every slot outside it has none.
pub proof fn lemma_slot_index_in_epoch(t: ScheduleTracker, slot: Slot)
    requires
        t.wf(),
    ensures
        t.curr_start() <= slot < t.next_start() ==> (t.index_of(slot) matches Some(i) && 0 <= i
            < t.epoch_len()),
        !(t.curr_start() <= slot < t.next_start()) ==> t.index_of(slot) is None,
{
}

} // verus!
