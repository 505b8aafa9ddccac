//! Leader routing: composes the slot estimate, the epoch schedule and the
//! validator socket map to answer which validators should receive a
//! transaction now.

use vstd::prelude::*;

use crate::schedule_tracker::ScheduleTracker;
use crate::slots_tracker::{after_monotonic, estimate, keep_recent, SlotEvent, SlotsTracker};
use crate::{Slot, NUM_CONSECUTIVE_LEADER_SLOTS};

verus! {

/// A leader to send to: its identity, the chosen TPU socket, and the slot at
/// which it was chosen.
#[derive(Debug, Clone)]
pub struct LeaderInfo {
    /// Validator identity public key.
    pub identity: String,
    /// TPU socket address (`ip:port`).
    pub tpu_socket: String,
    /// Current slot when this information was produced.
    pub slot: Slot,
}

impl View for LeaderInfo {
    type V = (Seq<char>, Seq<char>, Slot);

    open spec fn view(&self) -> (Seq<char>, Seq<char>, Slot) {
        (self.identity@, self.tpu_socket@, self.slot)
    }
}

/// TPU socket addresses of a validator.
#[derive(Debug, Clone)]
pub struct TpuSockets {
    /// Standard TPU QUIC socket address.
    pub tpu_socket: Option<String>,
    /// TPU forwards QUIC socket address, preferred when present.
    pub tpu_forwards_socket: Option<String>,
}

/// A node of the cluster as a cluster-nodes query reports it.
#[derive(Debug, Clone)]
pub struct ClusterNode {
    /// Validator identity public key.
    pub pubkey: String,
    /// Gossip address, if advertised.
    pub gossip: Option<String>,
    /// TPU QUIC address, if advertised.
    pub tpu_quic: Option<String>,
    /// TPU forwards QUIC address, if advertised.
    pub tpu_forwards_quic: Option<String>,
}

/// An entry of the socket map.
#[derive(Debug, Clone)]
pub struct SocketEntry {
    /// Validator identity public key.
    pub identity: String,
    /// Its TPU sockets.
    pub sockets: TpuSockets,
}

/// The socket to send to: forwards if present, else the standard one.
pub open spec fn preferred_socket(s: TpuSockets) -> Option<String> {
    if s.tpu_forwards_socket is Some {
        s.tpu_forwards_socket
    } else {
        s.tpu_socket
    }
}

/// A node can be used if it has a gossip address and at least one TPU QUIC address.
pub open spec fn usable(node: ClusterNode) -> bool {
    node.gossip is Some && (node.tpu_quic is Some || node.tpu_forwards_quic is Some)
}

/// The sockets a node advertises.
pub open spec fn node_sockets(node: ClusterNode) -> TpuSockets {
    TpuSockets { tpu_socket: node.tpu_quic, tpu_forwards_socket: node.tpu_forwards_quic }
}

/// The sockets that a refresh from `nodes` records for identity `id`: those
/// of the last usable node with that identity.
pub open spec fn refreshed_sockets(nodes: Seq<ClusterNode>, id: Seq<char>) -> Option<TpuSockets>
    decreases nodes.len(),
{
    if nodes.len() == 0 {
        None
    } else {
        match refreshed_sockets(nodes.drop_first(), id) {
            Some(s) => Some(s),
            None => if usable(nodes.first()) && nodes.first().pubkey@ == id {
                Some(node_sockets(nodes.first()))
            } else {
                None
            },
        }
    }
}

/// The sockets of identity `id` in the socket map (its last entry).
pub open spec fn sockets_for(entries: Seq<SocketEntry>, id: Seq<char>) -> Option<TpuSockets>
    decreases entries.len(),
{
    if entries.len() == 0 {
        None
    } else if entries.last().identity@ == id {
        Some(entries.last().sockets)
    } else {
        sockets_for(entries.drop_last(), id)
    }
}

/// Socket map well-formedness: one entry per identity, and each entry has a socket.
pub open spec fn sockets_wf(entries: Seq<SocketEntry>) -> bool {
    &&& forall|a: int, b: int|
        0 <= a < b < entries.len() ==> #[trigger] entries[a].identity@ != #[trigger] entries[b].identity@
    &&& forall|a: int|
        0 <= a < entries.len() ==> (#[trigger] entries[a].sockets.tpu_socket is Some
            || entries[a].sockets.tpu_forwards_socket is Some)
}

/// The socket a transaction for `id` goes to, if `id` has an entry.
pub open spec fn route_one(entries: Seq<SocketEntry>, id: Seq<char>) -> Option<Seq<char>> {
    match sockets_for(entries, id) {
        Some(s) => match preferred_socket(s) {
            Some(x) => Some(x@),
            None => None,
        },
        None => None,
    }
}

/// The identities that have a socket, with the socket chosen for each, in order.
pub open spec fn routed(entries: Seq<SocketEntry>, ids: Seq<Seq<char>>, slot: Slot) -> Seq<(Seq<char>, Seq<char>, Slot)>
    decreases ids.len(),
{
    if ids.len() == 0 {
        Seq::empty()
    } else {
        let prev = routed(entries, ids.drop_last(), slot);
        match route_one(entries, ids.last()) {
            Some(x) => prev.push((ids.last(), x, slot)),
            None => prev,
        }
    }
}

/// The sequence with repeated elements removed, first occurrences kept in order.
pub open spec fn dedup(ids: Seq<Seq<char>>) -> Seq<Seq<char>>
    decreases ids.len(),
{
    if ids.len() == 0 {
        Seq::empty()
    } else {
        let prev = dedup(ids.drop_last());
        if prev.contains(ids.last()) {
            prev
        } else {
            prev.push(ids.last())
        }
    }
}

/// The leader of `slot` by the current epoch's schedule.
pub open spec fn leader_at(sched: ScheduleTracker, slot: Slot) -> Option<Seq<char>> {
    match sched.index_of(slot) {
        Some(i) => if sched.curr_leaders().contains_key(i) {
            Some(sched.curr_leaders()[i]@)
        } else {
            None
        },
        None => None,
    }
}

/// The leaders of slots `cur + i` for offsets `start <= i < hi`, in order,
/// skipping slots without a leader.
pub open spec fn scanned(sched: ScheduleTracker, cur: Slot, start: u64, hi: int) -> Seq<Seq<char>>
    decreases hi - start,
{
    if hi <= start {
        Seq::empty()
    } else {
        let prev = scanned(sched, cur, start, hi - 1);
        match leader_at(sched, (cur + hi - 1) as Slot) {
            Some(id) => prev.push(id),
            None => prev,
        }
    }
}

/// The upcoming leaders for offsets `start..end` from slot `cur`, stopping at
/// the end of the current epoch, each identity once, with its preferred
/// socket; empty when the slot is unknown (zero) or outside the current epoch.
pub open spec fn future_leaders(
    cur: Slot,
    sched: ScheduleTracker,
    entries: Seq<SocketEntry>,
    start: u64,
    end: u64,
) -> Seq<(Seq<char>, Seq<char>, Slot)> {
    if cur == 0 || cur < sched.curr_start() || cur >= sched.next_start() {
        Seq::empty()
    } else {
        let hi = if end < sched.next_start() - cur { end as int } else { sched.next_start() - cur };
        routed(entries, dedup(scanned(sched, cur, start, hi)), cur)
    }
}

/// The views of a vector of leaders.
pub open spec fn leader_views(v: Seq<LeaderInfo>) -> Seq<(Seq<char>, Seq<char>, Slot)> {
    v.map_values(|l: LeaderInfo| l@)
}

/// A deduplicated sequence holds no element twice.
pub proof fn lemma_dedup_distinct(ids: Seq<Seq<char>>)
    ensures
        forall|a: int, b: int| 0 <= a < b < dedup(ids).len() ==> dedup(ids)[a] != dedup(ids)[b],
        forall|k: int| 0 <= k < dedup(ids).len() ==> ids.contains(#[trigger] dedup(ids)[k]),
    decreases ids.len(),
{
    if ids.len() > 0 {
        lemma_dedup_distinct(ids.drop_last());
        let prev = dedup(ids.drop_last());
        assert forall|k: int| 0 <= k < dedup(ids).len() implies ids.contains(#[trigger] dedup(ids)[k]) by {
            if k < prev.len() {
                let w = choose|w: int| 0 <= w < ids.drop_last().len() && ids.drop_last()[w] == prev[k];
                assert(ids[w] == prev[k]);
            } else {
                assert(ids[ids.len() - 1] == ids.last());
            }
        }
    }
}

/// Routing keeps identities in order, drops some, and chooses for each the
/// forwards socket if it has one, else the standard one.
pub proof fn lemma_routed_prefers_forwards(entries: Seq<SocketEntry>, ids: Seq<Seq<char>>, slot: Slot)
    ensures
        forall|k: int| 0 <= k < routed(entries, ids, slot).len() ==> {
            let (id, sock, at) = #[trigger] routed(entries, ids, slot)[k];
            &&& at == slot
            &&& ids.contains(id)
            &&& sockets_for(entries, id) matches Some(s) && (if s.tpu_forwards_socket is Some {
                sock == s.tpu_forwards_socket.unwrap()@
            } else {
                s.tpu_socket is Some && sock == s.tpu_socket.unwrap()@
            })
        },
        forall|a: int, b: int|
            0 <= a < b < routed(entries, ids, slot).len() && (forall|i: int, j: int|
                0 <= i < j < ids.len() ==> ids[i] != ids[j]) ==> routed(entries, ids, slot)[a].0
                != routed(entries, ids, slot)[b].0,
    decreases ids.len(),
{
    if ids.len() > 0 {
        let init = ids.drop_last();
        lemma_routed_prefers_forwards(entries, init, slot);
        let prev = routed(entries, init, slot);
        let out = routed(entries, ids, slot);
        assert forall|k: int| 0 <= k < out.len() implies ids.contains((#[trigger] out[k]).0) by {
            if k < prev.len() {
                let w = choose|w: int| 0 <= w < init.len() && init[w] == prev[k].0;
                assert(ids[w] == init[w]);
            } else {
                assert(ids[ids.len() - 1] == ids.last());
            }
        }
        assert forall|a: int, b: int|
            0 <= a < b < out.len() && (forall|i: int, j: int|
                0 <= i < j < ids.len() ==> ids[i] != ids[j]) implies out[a].0 != out[b].0 by {
            assert(forall|i: int, j: int| 0 <= i < j < init.len() ==> init[i] == ids[i] && init[j] == ids[j]);
            if b < prev.len() {
            } else {
                let w = choose|w: int| 0 <= w < init.len() && init[w] == prev[a].0;
                assert(ids[w] == prev[a].0);
                assert(w < ids.len() - 1);
            }
        }
    }
}

/// An absent identity has no entry at all.
proof fn lemma_absent_identity(entries: Seq<SocketEntry>, id: Seq<char>)
    requires
        sockets_for(entries, id) is None,
    ensures
        forall|k: int| 0 <= k < entries.len() ==> (#[trigger] entries[k]).identity@ != id,
    decreases entries.len(),
{
    if entries.len() > 0 {
        lemma_absent_identity(entries.drop_last(), id);
        assert forall|k: int| 0 <= k < entries.len() implies (#[trigger] entries[k]).identity@ != id by {
            if k < entries.len() - 1 {
                assert(entries.drop_last()[k] == entries[k]);
            }
        }
    }
}

/// The views of a vector of identities.
pub open spec fn id_views(v: Seq<String>) -> Seq<Seq<char>> {
    v.map_values(|s: String| s@)
}

/// Index of the entry of `id` in the socket map.
fn find_entry(entries: &Vec<SocketEntry>, id: &String) -> (r: Option<usize>)
    ensures
        match r {
            Some(j) => j < entries@.len() && entries@[j as int].identity@ == id@ && sockets_for(
                entries@,
                id@,
            ) == Some(entries@[j as int].sockets),
            None => sockets_for(entries@, id@) is None,
        },
{
    let mut j: usize = entries.len();
    assert(entries@.take(j as int) =~= entries@);
    while j > 0
        invariant
            j <= entries@.len(),
            sockets_for(entries@, id@) == sockets_for(entries@.take(j as int), id@),
        decreases j,
    {
        let ghost prefix = entries@.take(j as int);
        assert(prefix.last() == entries@[j - 1]);
        assert(prefix.drop_last() =~= entries@.take(j - 1));
        if entries[j - 1].identity == *id {
            return Some(j - 1);
        }
        j = j - 1;
    }
    None
}

/// Whether `id` is among the identities in `seen`.
fn contains_identity(seen: &Vec<String>, id: &String) -> (r: bool)
    ensures
        r == id_views(seen@).contains(id@),
{
    let mut k: usize = 0;
    while k < seen.len()
        invariant
            k <= seen@.len(),
            forall|x: int| 0 <= x < k ==> seen@[x]@ != id@,
        decreases seen@.len() - k,
    {
        if seen[k] == *id {
            assert(id_views(seen@)[k as int] == id@);
            return true;
        }
        k = k + 1;
    }
    proof {
        if id_views(seen@).contains(id@) {
            let w = choose|w: int| 0 <= w < id_views(seen@).len() && id_views(seen@)[w] == id@;
            assert(seen@[w]@ == id@);
        }
    }
    false
}

/// Keeps at most the first `n` elements.
pub open spec fn take_at_most<T>(s: Seq<T>, n: int) -> Seq<T> {
    if s.len() <= n {
        s
    } else {
        s.take(n)
    }
}

/// Coordinates slot tracking, the leader schedule and the socket map.
#[derive(Debug)]
pub struct LeaderTracker {
    rpc_url: String,
    ws_url: String,
    grpc_url: Option<String>,
    grpc_x_token: Option<String>,
    slots_tracker: SlotsTracker,
    schedule_tracker: ScheduleTracker,
    leader_sockets: Vec<SocketEntry>,
    ready: bool,
}

impl LeaderTracker {
    /// The slot tracker.
    pub closed spec fn slots(&self) -> SlotsTracker {
        self.slots_tracker
    }

    /// The schedule tracker.
    pub closed spec fn schedule(&self) -> ScheduleTracker {
        self.schedule_tracker
    }

    /// The socket map.
    pub closed spec fn sockets(&self) -> Seq<SocketEntry> {
        self.leader_sockets@
    }

    /// Whether slot events have started to arrive.
    pub closed spec fn ready_flag(&self) -> bool {
        self.ready
    }

    /// The configured endpoints.
    pub closed spec fn endpoints(&self) -> (Seq<char>, Seq<char>, Option<String>, Option<String>) {
        (self.rpc_url@, self.ws_url@, self.grpc_url, self.grpc_x_token)
    }

    /// The upcoming leaders for offsets `start..end` from the current slot.
    pub open spec fn future(&self, start: u64, end: u64) -> Seq<(Seq<char>, Seq<char>, Slot)> {
        future_leaders(self.slots().current(), self.schedule(), self.sockets(), start, end)
    }

    /// Creates a tracker with the given endpoints and schedule, no slot
    /// events yet, an empty socket map, and not ready.
    pub fn new(
        rpc_url: String,
        ws_url: String,
        grpc_url: Option<String>,
        grpc_x_token: Option<String>,
        schedule_tracker: ScheduleTracker,
    ) -> (r: Self)
        ensures
            r.slots().events() == Seq::<SlotEvent>::empty(),
            r.slots().current() == 0,
            r.schedule() == schedule_tracker,
            r.sockets() == Seq::<SocketEntry>::empty(),
            !r.ready_flag(),
            r.endpoints() == (rpc_url@, ws_url@, grpc_url, grpc_x_token),
    {
        LeaderTracker {
            rpc_url,
            ws_url,
            grpc_url,
            grpc_x_token,
            slots_tracker: SlotsTracker::new(),
            schedule_tracker,
            leader_sockets: Vec::new(),
            ready: false,
        }
    }

    /// Gets the upcoming leaders for offsets `start..end` from the current
    /// slot: each identity once, in schedule order, with its forwards socket
    /// if it has one and its standard socket otherwise; leaders without a
    /// socket are skipped. Empty when the slot is unknown or outside the
    /// current epoch.
    pub fn get_future_leaders(&self, start: u64, end: u64) -> (r: Vec<LeaderInfo>)
        ensures
            leader_views(r@) == self.future(start, end),
            forall|a: int, b: int| 0 <= a < b < r@.len() ==> r@[a].identity@ != r@[b].identity@,
    {
        let curr_slot = self.slots_tracker.current_slot();
        if curr_slot == 0 {
            return Vec::new();
        }
        if curr_slot < self.schedule_tracker.current_epoch_slot_start()
            || curr_slot >= self.schedule_tracker.next_epoch_slot_start() {
            return Vec::new();
        }
        let next = self.schedule_tracker.next_epoch_slot_start();
        let ghost sched = self.schedule();
        let ghost entries = self.sockets();
        let ghost hi_end: int = if end < next - curr_slot {
            end as int
        } else {
            next - curr_slot
        };
        let mut leaders: Vec<LeaderInfo> = Vec::new();
        let mut seen: Vec<String> = Vec::new();
        let mut i: u64 = start;
        loop
            invariant_except_break
                i <= end || i == start,
            invariant
                sched == self.schedule(),
                hi_end == if end < next - curr_slot { end as int } else { next - curr_slot },
                entries == self.sockets(),
                entries == self.leader_sockets@,
                next == sched.next_start(),
                sched.curr_start() <= curr_slot < next,
                curr_slot == self.slots().current(),
                start <= i,
                i == start || curr_slot + i <= next,
                id_views(seen@) == dedup(scanned(sched, curr_slot, start, i as int)),
                leader_views(leaders@) == routed(entries, id_views(seen@), curr_slot),
                forall|a: int, b: int|
                    0 <= a < b < leaders@.len() ==> leaders@[a].identity@ != leaders@[b].identity@,
                forall|k: int|
                    0 <= k < leaders@.len() ==> id_views(seen@).contains(
                        (#[trigger] leaders@[k]).identity@,
                    ),
            ensures
                id_views(seen@) == dedup(scanned(sched, curr_slot, start, hi_end)),
                leader_views(leaders@) == routed(entries, id_views(seen@), curr_slot),
                forall|a: int, b: int|
                    0 <= a < b < leaders@.len() ==> leaders@[a].identity@ != leaders@[b].identity@,
            decreases end - i,
        {
            if i >= end {
                proof {
                    if i == start {
                        assert(scanned(sched, curr_slot, start, hi_end) =~= Seq::empty());
                        assert(scanned(sched, curr_slot, start, i as int) =~= Seq::empty());
                    } else {
                        assert(hi_end == i);
                    }
                }
                break;
            }
            let target = match curr_slot.checked_add(i) {
                Some(t) => t,
                None => {
                    proof {
                        assert(i == start);
                        assert(scanned(sched, curr_slot, start, hi_end) =~= Seq::empty());
                        assert(scanned(sched, curr_slot, start, i as int) =~= Seq::empty());
                    }
                    break;
                },
            };
            if target >= next {
                proof {
                    if i == start {
                        assert(scanned(sched, curr_slot, start, hi_end) =~= Seq::empty());
                        assert(scanned(sched, curr_slot, start, i as int) =~= Seq::empty());
                    } else {
                        assert(hi_end == i);
                    }
                }
                break;
            }
            let ghost ids_before = id_views(seen@);
            let ghost leaders_before = leaders@;
            assert(scanned(sched, curr_slot, start, i + 1) == match leader_at(sched, target) {
                Some(id) => scanned(sched, curr_slot, start, i as int).push(id),
                None => scanned(sched, curr_slot, start, i as int),
            });
            if let Some(idx) = self.schedule_tracker.slot_to_index(target) {
                if let Some(leader) = self.schedule_tracker.get_leader_for_slot_index(idx) {
                    let id = String::from_str(leader);
                    assert(leader_at(sched, target) == Some(id@));
                    if !contains_identity(&seen, &id) {
                        if let Some(j) = find_entry(&self.leader_sockets, &id) {
                            let sockets = &self.leader_sockets[j].sockets;
                            let chosen: Option<&String> = match &sockets.tpu_forwards_socket {
                                Some(f) => Some(f),
                                None => match &sockets.tpu_socket {
                                    Some(t) => Some(t),
                                    None => None,
                                },
                            };
                            if let Some(socket) = chosen {
                                leaders.push(
                                    LeaderInfo {
                                        identity: id.clone(),
                                        tpu_socket: socket.clone(),
                                        slot: curr_slot,
                                    },
                                );
                            }
                        }
                        seen.push(id);
                        proof {
                            let ids_after = id_views(seen@);
                            assert(ids_after =~= ids_before.push(id@));
                            assert(ids_after.drop_last() =~= ids_before);
                            assert(leader_views(leaders@) =~= routed(entries, ids_after, curr_slot));
                            assert forall|k: int| 0 <= k < leaders@.len() implies id_views(
                                seen@,
                            ).contains((#[trigger] leaders@[k]).identity@) by {
                                if k < leaders_before.len() {
                                    let w = choose|w: int|
                                        0 <= w < ids_before.len() && ids_before[w]
                                            == leaders_before[k].identity@;
                                    assert(ids_after[w] == ids_before[w]);
                                } else {
                                    assert(ids_after[ids_after.len() - 1] == id@);
                                }
                            }
                        }
                    }
                }
            }
            proof {
                let sc = scanned(sched, curr_slot, start, i as int);
                if let Some(x) = leader_at(sched, target) {
                    assert(sc.push(x).drop_last() =~= sc);
                    assert(sc.push(x).last() == x);
                }
            }
            i = i + 1;
        }
        proof {
            lemma_dedup_distinct(scanned(sched, curr_slot, start, hi_end));
        }
        leaders
    }

    /// Position of a slot within its leader's window of four consecutive
    /// slots: 0 to 2 are the early slots, 3 the last.
    pub fn get_slot_position(slot: u64) -> (r: u8)
        ensures
            r == slot % NUM_CONSECUTIVE_LEADER_SLOTS,
    {
        (slot % NUM_CONSECUTIVE_LEADER_SLOTS) as u8
    }

    /// Leaders by the slot-aware policy: the current leader alone in the
    /// first three slots of its window, the current and the next in the
    /// last. Returns them with the slot position; empty (position 0) while
    /// the slot is unknown.
    pub fn get_slot_aware_leaders(&self) -> (r: (Vec<LeaderInfo>, u8))
        ensures
            self.slots().current() == 0 ==> r.0@.len() == 0 && r.1 == 0,
            self.slots().current() != 0 ==> {
                let pos = self.slots().current() % NUM_CONSECUTIVE_LEADER_SLOTS;
                let n: u64 = if pos == 3 { 2 } else { 1 };
                &&& r.1 == pos
                &&& leader_views(r.0@) == take_at_most(
                    self.future(0, (n * NUM_CONSECUTIVE_LEADER_SLOTS) as u64),
                    n as int,
                )
            },
    {
        let current_slot = self.slots_tracker.current_slot();
        if current_slot == 0 {
            return (Vec::new(), 0);
        }
        let slot_position = Self::get_slot_position(current_slot);
        let num_leaders: u64 = if slot_position == 3 { 2 } else { 1 };
        let mut leaders = self.get_future_leaders(0, num_leaders * NUM_CONSECUTIVE_LEADER_SLOTS);
        let ghost all = leaders@;
        leaders.truncate(num_leaders as usize);
        proof {
            if all.len() > num_leaders {
                assert(leader_views(leaders@) =~= leader_views(all).take(num_leaders as int));
            }
        }
        (leaders, slot_position)
    }

    /// The leaders a send goes to: those of the slot-aware policy, or, when
    /// it yields none, those of the fixed fan-out.
    pub fn get_send_leaders(&self, fanout: u32) -> (r: Vec<LeaderInfo>)
        ensures
            ({
                let cur = self.slots().current();
                let pos = cur % NUM_CONSECUTIVE_LEADER_SLOTS;
                let n: u64 = if pos == 3 { 2 } else { 1 };
                let aware = if cur == 0 {
                    Seq::empty()
                } else {
                    take_at_most(self.future(0, (n * NUM_CONSECUTIVE_LEADER_SLOTS) as u64), n as int)
                };
                leader_views(r@) == if aware.len() > 0 {
                    aware
                } else {
                    self.future(0, (fanout * NUM_CONSECUTIVE_LEADER_SLOTS) as u64)
                }
            }),
    {
        let (leaders, _position) = self.get_slot_aware_leaders();
        if leaders.len() > 0 {
            proof {
                assert(leader_views(leaders@).len() == leaders@.len());
            }
            leaders
        } else {
            proof {
                assert(leader_views(leaders@).len() == leaders@.len());
            }
            self.get_leaders_with_fanout(fanout)
        }
    }

    /// Returns the number of validators with known sockets.
    pub fn validator_count(&self) -> (r: usize)
        ensures
            r == self.sockets().len(),
    {
        self.leader_sockets.len()
    }

    /// Upcoming leaders with the default fan-out of four leaders.
    pub fn get_leaders(&self) -> (r: Vec<LeaderInfo>)
        ensures
            leader_views(r@) == self.future(0, (4 * NUM_CONSECUTIVE_LEADER_SLOTS) as u64),
    {
        self.get_leaders_with_fanout(4)
    }

    /// Upcoming leaders for a fan-out of `fanout` distinct leaders: as each
    /// leader holds four consecutive slots, `4 * fanout` slots are looked at.
    pub fn get_leaders_with_fanout(&self, fanout: u32) -> (r: Vec<LeaderInfo>)
        ensures
            leader_views(r@) == self.future(0, (fanout * NUM_CONSECUTIVE_LEADER_SLOTS) as u64),
            forall|a: int, b: int| 0 <= a < b < r@.len() ==> r@[a].identity@ != r@[b].identity@,
    {
        self.get_future_leaders(0, fanout as u64 * NUM_CONSECUTIVE_LEADER_SLOTS)
    }

    /// Replaces the socket map with the usable nodes of a cluster-nodes
    /// query (a gossip address and at least one TPU QUIC address); identities
    /// absent from it are dropped, and a repeated identity keeps its last node.
    pub fn update_leader_sockets(&mut self, nodes: Vec<ClusterNode>)
        ensures
            forall|id: Seq<char>| #[trigger] sockets_for(final(self).sockets(), id)
                == refreshed_sockets(nodes@, id),
            sockets_wf(final(self).sockets()),
            final(self).slots() == old(self).slots(),
            final(self).schedule() == old(self).schedule(),
            final(self).ready_flag() == old(self).ready_flag(),
            final(self).endpoints() == old(self).endpoints(),
    {
        let ghost original = nodes@;
        let mut nodes = nodes;
        let mut entries: Vec<SocketEntry> = Vec::new();
        assert(original.skip(original.len() as int) =~= Seq::<ClusterNode>::empty());
        while nodes.len() > 0
            invariant
                nodes@.len() <= original.len(),
                nodes@ == original.take(nodes@.len() as int),
                forall|id: Seq<char>| #[trigger] sockets_for(entries@, id)
                    == refreshed_sockets(original.skip(nodes@.len() as int), id),
                sockets_wf(entries@),
            decreases nodes@.len(),
        {
            let ghost k = nodes@.len() - 1;
            let node = nodes.pop().unwrap();
            let ghost rest = original.skip(k + 1);
            assert(original.skip(k).drop_first() =~= rest);
            assert(original.skip(k).first() == node);
            assert(nodes@ =~= original.take(k));
            let ghost before = entries@;
            let is_usable = node.gossip.is_some() && (node.tpu_quic.is_some()
                || node.tpu_forwards_quic.is_some());
            if is_usable {
                match find_entry(&entries, &node.pubkey) {
                    Some(_) => {},
                    None => {
                        proof {
                            lemma_absent_identity(before, node.pubkey@);
                        }
                        let ClusterNode { pubkey, gossip: _, tpu_quic, tpu_forwards_quic } = node;
                        entries.push(
                            SocketEntry {
                                identity: pubkey,
                                sockets: TpuSockets {
                                    tpu_socket: tpu_quic,
                                    tpu_forwards_socket: tpu_forwards_quic,
                                },
                            },
                        );
                        proof {
                            assert(entries@.drop_last() =~= before);
                        }
                    },
                }
            }
            proof {
                assert forall|id: Seq<char>| #[trigger] sockets_for(entries@, id)
                    == refreshed_sockets(original.skip(k), id) by {
                    assert(refreshed_sockets(original.skip(k), id) == match refreshed_sockets(
                        rest,
                        id,
                    ) {
                        Some(s) => Some(s),
                        None => if usable(original.skip(k).first())
                            && original.skip(k).first().pubkey@ == id {
                            Some(node_sockets(original.skip(k).first()))
                        } else {
                            None
                        },
                    });
                    assert(sockets_for(before, id) == refreshed_sockets(rest, id));
                }
            }
        }
        assert(original.skip(0) =~= original);
        self.leader_sockets = entries;
    }

    /// Records a slot event; when the new slot estimate has reached the next
    /// epoch, the schedule rotates. Returns whether it rotated (the next
    /// epoch's schedule is then to be fetched and installed).
    pub fn handle_slot_event(&mut self, event: SlotEvent) -> (rotated: bool)
        ensures
            final(self).slots().events() == keep_recent(old(self).slots().events().push(event)),
            final(self).slots().current() == estimate(
                final(self).slots().events(),
                old(self).slots().current(),
            ),
            rotated == old(self).schedule().rotation_due(final(self).slots().current()),
            final(self).schedule().follows_rotation(
                &old(self).schedule(),
                final(self).slots().current(),
            ),
            old(self).schedule().wf() ==> final(self).schedule().wf(),
            final(self).sockets() == old(self).sockets(),
            final(self).ready_flag() == old(self).ready_flag(),
            final(self).endpoints() == old(self).endpoints(),
    {
        let current = self.slots_tracker.record(event);
        self.rotate_if_due(current)
    }

    /// Records a slot from a trusted monotonic source, then rotates the
    /// schedule as `handle_slot_event` does. Returns whether it rotated.
    pub fn handle_monotonic_slot(&mut self, slot: Slot) -> (rotated: bool)
        ensures
            (final(self).slots().events(), final(self).slots().current()) == after_monotonic(
                old(self).slots().events(),
                old(self).slots().current(),
                slot,
            ),
            rotated == old(self).schedule().rotation_due(final(self).slots().current()),
            final(self).schedule().follows_rotation(
                &old(self).schedule(),
                final(self).slots().current(),
            ),
            old(self).schedule().wf() ==> final(self).schedule().wf(),
            final(self).sockets() == old(self).sockets(),
            final(self).ready_flag() == old(self).ready_flag(),
            final(self).endpoints() == old(self).endpoints(),
    {
        let current = self.slots_tracker.record_monotonic(slot);
        self.rotate_if_due(current)
    }

    fn rotate_if_due(&mut self, current: Slot) -> (rotated: bool)
        ensures
            rotated == old(self).schedule().rotation_due(current),
            final(self).schedule().follows_rotation(&old(self).schedule(), current),
            old(self).schedule().wf() ==> final(self).schedule().wf(),
            final(self).slots() == old(self).slots(),
            final(self).sockets() == old(self).sockets(),
            final(self).ready_flag() == old(self).ready_flag(),
            final(self).endpoints() == old(self).endpoints(),
    {
        if current >= self.schedule_tracker.next_epoch_slot_start() {
            self.schedule_tracker.maybe_rotate(current)
        } else {
            false
        }
    }

    /// Feeds a slot fetched on demand (when the event stream looks stale) as
    /// a start event, and returns the new estimate.
    pub fn refresh_slot_from_rpc(&mut self, slot: Slot) -> (r: Slot)
        ensures
            final(self).slots().events() == keep_recent(
                old(self).slots().events().push(SlotEvent::Start(slot)),
            ),
            final(self).slots().current() == estimate(
                final(self).slots().events(),
                old(self).slots().current(),
            ),
            r == final(self).slots().current(),
            final(self).schedule() == old(self).schedule(),
            final(self).sockets() == old(self).sockets(),
            final(self).ready_flag() == old(self).ready_flag(),
            final(self).endpoints() == old(self).endpoints(),
    {
        self.slots_tracker.record_start(slot)
    }

    /// Installs the prefetched schedule of the next epoch.
    pub fn set_next_schedule(&mut self, schedule: std::collections::HashMap<usize, String>)
        ensures
            final(self).schedule().curr_start() == old(self).schedule().curr_start(),
            final(self).schedule().next_start() == old(self).schedule().next_start(),
            final(self).schedule().epoch_len() == old(self).schedule().epoch_len(),
            final(self).schedule().curr_leaders() == old(self).schedule().curr_leaders(),
            final(self).schedule().next_leaders() == schedule@,
            final(self).slots() == old(self).slots(),
            final(self).sockets() == old(self).sockets(),
            final(self).ready_flag() == old(self).ready_flag(),
            final(self).endpoints() == old(self).endpoints(),
    {
        self.schedule_tracker.set_next_schedule(schedule);
    }

    /// Marks the tracker ready: slot events have started to arrive.
    pub fn set_ready(&mut self)
        ensures
            final(self).ready_flag(),
            final(self).slots() == old(self).slots(),
            final(self).schedule() == old(self).schedule(),
            final(self).sockets() == old(self).sockets(),
            final(self).endpoints() == old(self).endpoints(),
    {
        self.ready = true;
    }

    /// Returns whether the tracker is ready to provide leader information.
    pub fn is_ready(&self) -> (r: bool)
        ensures
            r == self.ready_flag(),
    {
        self.ready
    }

    /// Gets the current estimated slot.
    pub fn current_slot(&self) -> (r: Slot)
        ensures
            r == self.slots().current(),
    {
        self.slots_tracker.current_slot()
    }

    /// The slot tracker.
    pub fn slots_tracker(&self) -> (r: &SlotsTracker)
        ensures
            *r == self.slots(),
    {
        &self.slots_tracker
    }

    /// The schedule tracker.
    pub fn schedule_tracker(&self) -> (r: &ScheduleTracker)
        ensures
            *r == self.schedule(),
    {
        &self.schedule_tracker
    }

    /// RPC endpoint URL.
    pub fn rpc_url(&self) -> (r: &str)
        ensures
            r@ == self.endpoints().0,
    {
        self.rpc_url.as_str()
    }

    /// WebSocket endpoint URL.
    pub fn ws_url(&self) -> (r: &str)
        ensures
            r@ == self.endpoints().1,
    {
        self.ws_url.as_str()
    }

    /// gRPC endpoint URL, if configured.
    pub fn grpc_url(&self) -> (r: &Option<String>)
        ensures
            *r == self.endpoints().2,
    {
        &self.grpc_url
    }

    /// gRPC access token, if configured.
    pub fn grpc_x_token(&self) -> (r: &Option<String>)
        ensures
            *r == self.endpoints().3,
    {
        &self.grpc_x_token
    }
}

/// Every socket map entry has a socket, and upcoming leaders go to the
/// forwards socket of their entry when it has one, else to the standard one.
pub proof fn lemma_future_leaders_prefer_forwards(t: LeaderTracker, start: u64, end: u64)
    requires
        sockets_wf(t.sockets()),
    ensures
        forall|a: int|
            0 <= a < t.sockets().len() ==> (#[trigger] t.sockets()[a].sockets.tpu_socket is Some
                || t.sockets()[a].sockets.tpu_forwards_socket is Some),
        forall|k: int| 0 <= k < t.future(start, end).len() ==> {
            let (id, sock, _) = #[trigger] t.future(start, end)[k];
            sockets_for(t.sockets(), id) matches Some(s) && (if s.tpu_forwards_socket is Some {
                sock == s.tpu_forwards_socket.unwrap()@
            } else {
                sock == s.tpu_socket.unwrap()@
            })
        },
{
    let cur = t.slots().current();
    let sched = t.schedule();
    if !(cur == 0 || cur < sched.curr_start() || cur >= sched.next_start()) {
        let hi = if end < sched.next_start() - cur { end as int } else { sched.next_start() - cur };
        lemma_routed_prefers_forwards(t.sockets(), dedup(scanned(sched, cur, start, hi)), cur);
    }
}

/// Upcoming leaders for offsets from zero never repeat an identity.
pub proof fn lemma_future_leaders_distinct(t: LeaderTracker, k: u64)
    ensures
        forall|a: int, b: int|
            0 <= a < b < t.future(0, k).len() ==> t.future(0, k)[a].0 != t.future(0, k)[b].0,
{
    let cur = t.slots().current();
    let sched = t.schedule();
    if !(cur == 0 || cur < sched.curr_start() || cur >= sched.next_start()) {
        let hi = if k < sched.next_start() - cur { k as int } else { sched.next_start() - cur };
        let ids = dedup(scanned(sched, cur, 0, hi));
        lemma_dedup_distinct(scanned(sched, cur, 0, hi));
        lemma_routed_prefers_forwards(t.sockets(), ids, cur);
    }
}

} // verus!
