//! Decisions of the network layer: which remote elevators are connected,
//! which cab calls to recover at startup, and what to answer an elevator
//! that is starting up.
//!
//! The sockets, the timing and the encoding of elevator statuses stay with
//! the runtime; it hands this module the decoded statuses, the raw datagrams
//! and the current time in milliseconds.
use vstd::prelude::*;
use crate::config::DISCONNECT_TIMEOUT_MS;
use crate::messages::{Call, CallSet, ElevatorId, ElevatorStatus, same_elevator_id};

verus! {

/// Adds to `recovered` the cab calls in `status`'s known cab calls that were
/// made at elevator `node_id`.
pub fn collect_recovered_cab_calls(recovered: &mut CallSet, status: &ElevatorStatus, node_id: &ElevatorId)
    ensures
        final(recovered)@ == old(recovered)@.union(
            Set::new(|c: Call| status.known_cab_calls@.contains(c) && c.call_id.elevator_id == *node_id)),
{
    let n = status.known_cab_calls.num_stored();
    for i in 0..n
        invariant
            n == status.known_cab_calls.elems().len(),
            recovered@ == old(recovered)@.union(Set::new(|c: Call| (exists|j: int| 0 <= j < i && status.known_cab_calls.elems()[j] == c)
                && c.call_id.elevator_id == *node_id)),
    {
        let call = status.known_cab_calls.get(i);
        let ghost prev = recovered@;
        if same_elevator_id(&call.call_id.elevator_id, node_id) {
            recovered.insert(call);
        }
        assert(recovered@ =~= old(recovered)@.union(Set::new(|c: Call| (exists|j: int| 0 <= j < i + 1 && status.known_cab_calls.elems()[j] == c)
            && c.call_id.elevator_id == *node_id))) by {
            assert forall|c: Call| recovered@.contains(c) && !old(recovered)@.contains(c)
                implies (exists|j: int| 0 <= j < i + 1 && status.known_cab_calls.elems()[j] == c) && c.call_id.elevator_id == *node_id by {
                if prev.contains(c) {
                    let j = choose|j: int| 0 <= j < i && status.known_cab_calls.elems()[j] == c;
                    assert(0 <= j < i + 1);
                } else {
                    assert(status.known_cab_calls.elems()[i as int] == c);
                }
            }
            assert forall|c: Call| (exists|j: int| 0 <= j < i + 1 && status.known_cab_calls.elems()[j] == c)
                && c.call_id.elevator_id == *node_id implies recovered@.contains(c) by {
                let j = choose|j: int| 0 <= j < i + 1 && status.known_cab_calls.elems()[j] == c;
                if j < i {
                    assert(prev.contains(c));
                }
            }
        }
    }
    assert(recovered@ =~= old(recovered)@.union(
        Set::new(|c: Call| status.known_cab_calls@.contains(c) && c.call_id.elevator_id == *node_id)));
}

/// Decodes an elevator identifier with `bincode::deserialize`.
///
/// With bincode's default options, six bytes are read one by one and
/// trailing bytes are allowed: the contract claims that the result is the
/// first six bytes when there are at least six, and `None` otherwise.
#[verifier::external_body]
fn decode_elevator_id(bytes: &[u8]) -> (r: Option<ElevatorId>)
    ensures
        bytes@.len() >= 6 ==> r == Some([bytes@[0], bytes@[1], bytes@[2], bytes@[3], bytes@[4], bytes@[5]]),
        bytes@.len() < 6 ==> r is None,
{
    bincode::deserialize::<ElevatorId>(bytes).ok()
}

/// A remote elevator that was heard from, with the time it was last heard
/// from and the status it last sent.
pub struct KnownElevator {
    pub elevator_id: ElevatorId,
    pub last_seen_ms: u64,
    pub status: ElevatorStatus,
}

/// A remote elevator that went silent, with the status it last sent.
pub struct DisconnectedElevator {
    pub elevator_id: ElevatorId,
    pub status: ElevatorStatus,
}

/// Whether an elevator last heard from at `last_seen_ms` has been silent
/// long enough at `now_ms` to count as disconnected.
pub open spec fn timed_out(last_seen_ms: u64, now_ms: u64) -> bool {
    now_ms >= last_seen_ms && now_ms - last_seen_ms >= DISCONNECT_TIMEOUT_MS
}

/// What a status received from the network turned out to be.
#[derive(Clone, Copy, Debug, PartialEq, Eq, Structural)]
pub enum RemoteStatusKind {
    /// The local elevator's own broadcast: ignored.
    OwnStatus,
    /// An elevator that was disconnected and is heard from again.
    Reconnected,
    /// An elevator that was never heard from before.
    NewElevator,
    /// An elevator that is already known.
    KnownElevator,
}

/// Tracks which remote elevators are heard from and which went silent.
pub struct PeerTracker {
    known: Vec<KnownElevator>,
    disconnected: Vec<DisconnectedElevator>,
}

impl PeerTracker {
    /// The elevators heard from, with when and what they last sent.
    pub closed spec fn known(&self) -> Seq<KnownElevator> {
        self.known@
    }

    /// The elevators that went silent, with what they last sent.
    pub closed spec fn disconnected(&self) -> Seq<DisconnectedElevator> {
        self.disconnected@
    }

    /// Whether elevator `id` is heard from.
    pub open spec fn is_known(&self, id: ElevatorId) -> bool {
        exists|i: int| 0 <= i < self.known().len() && self.known()[i].elevator_id == id
    }

    /// Whether elevator `id` went silent.
    pub open spec fn is_disconnected(&self, id: ElevatorId) -> bool {
        exists|i: int| 0 <= i < self.disconnected().len() && self.disconnected()[i].elevator_id == id
    }

    /// Each elevator is listed at most once, and never both as heard from
    /// and as silent.
    pub open spec fn wf(&self) -> bool {
        &&& forall|i: int, j: int| 0 <= i < self.known().len() && 0 <= j < self.known().len() && i != j
            ==> self.known()[i].elevator_id != self.known()[j].elevator_id
        &&& forall|i: int, j: int| 0 <= i < self.disconnected().len() && 0 <= j < self.disconnected().len() && i != j
            ==> self.disconnected()[i].elevator_id != self.disconnected()[j].elevator_id
        &&& forall|id: ElevatorId| !(self.is_known(id) && self.is_disconnected(id))
    }

    /// A tracker that knows no elevator.
    pub fn new() -> (t: PeerTracker)
        ensures
            t.wf(),
            t.known().len() == 0,
            t.disconnected().len() == 0,
    {
        PeerTracker { known: Vec::new(), disconnected: Vec::new() }
    }

    /// Position of elevator `id` among the known ones.
    fn find_known(&self, id: &ElevatorId) -> (r: Option<usize>)
        ensures
            r is None == !self.is_known(*id),
            r matches Some(k) ==> k < self.known().len() && self.known()[k as int].elevator_id == *id,
    {
        let n = self.known.len();
        for i in 0..n
            invariant
                n == self.known@.len(),
                forall|j: int| 0 <= j < i ==> self.known@[j].elevator_id != *id,
        {
            if same_elevator_id(&self.known[i].elevator_id, id) {
                return Some(i);
            }
        }
        None
    }

    /// Position of elevator `id` among the silent ones.
    fn find_disconnected(&self, id: &ElevatorId) -> (r: Option<usize>)
        ensures
            r is None == !self.is_disconnected(*id),
            r matches Some(k) ==> k < self.disconnected().len() && self.disconnected()[k as int].elevator_id == *id,
    {
        let n = self.disconnected.len();
        for i in 0..n
            invariant
                n == self.disconnected@.len(),
                forall|j: int| 0 <= j < i ==> self.disconnected@[j].elevator_id != *id,
        {
            if same_elevator_id(&self.disconnected[i].elevator_id, id) {
                return Some(i);
            }
        }
        None
    }
}


/// The silent-elevator record for a known elevator.
pub open spec fn as_disconnected(k: KnownElevator) -> DisconnectedElevator {
    DisconnectedElevator { elevator_id: k.elevator_id, status: k.status }
}

impl PeerTracker {
    /// Moves every known elevator that has been silent for the disconnect
    /// timeout at `now_ms` to the silent ones, and returns their identifiers.
    pub fn on_tick(&mut self, now_ms: u64) -> (gone: Vec<ElevatorId>)
        requires
            old(self).wf(),
        ensures
            final(self).wf(),
            final(self).known() == old(self).known().filter(|k: KnownElevator| !timed_out(k.last_seen_ms, now_ms)),
            final(self).disconnected() == old(self).disconnected()
                + old(self).known().filter(|k: KnownElevator| timed_out(k.last_seen_ms, now_ms)).map_values(|k: KnownElevator| as_disconnected(k)),
            gone@ == old(self).known().filter(|k: KnownElevator| timed_out(k.last_seen_ms, now_ms)).map_values(|k: KnownElevator| k.elevator_id),
    {
        let ghost keep = |k: KnownElevator| !timed_out(k.last_seen_ms, now_ms);
        let ghost drop = |k: KnownElevator| timed_out(k.last_seen_ms, now_ms);
        let ghost orig = self.known@;
        let ghost orig_disc = self.disconnected@;
        let ghost mut idx_keep: Seq<int> = Seq::empty();
        let ghost mut idx_gone: Seq<int> = Seq::empty();
        let mut rest: Vec<KnownElevator> = Vec::new();
        std::mem::swap(&mut rest, &mut self.known);
        let mut gone: Vec<ElevatorId> = Vec::new();
        let n = rest.len();
        let mut i: usize = 0;
        while i < n
            invariant
                i <= n,
                n == orig.len(),
                old(self).wf(),
                orig == old(self).known(),
                orig_disc == old(self).disconnected(),
                keep == (|k: KnownElevator| !timed_out(k.last_seen_ms, now_ms)),
                drop == (|k: KnownElevator| timed_out(k.last_seen_ms, now_ms)),
                rest@ == orig.skip(i as int),
                self.known@ == orig.take(i as int).filter(keep),
                self.disconnected@ == orig_disc + orig.take(i as int).filter(drop).map_values(|k: KnownElevator| as_disconnected(k)),
                gone@ == orig.take(i as int).filter(drop).map_values(|k: KnownElevator| k.elevator_id),
                idx_keep.len() == self.known@.len(),
                forall|k: int| 0 <= k < idx_keep.len() ==> 0 <= #[trigger] idx_keep[k] < i && self.known@[k] == orig[idx_keep[k]],
                forall|a: int, b: int| 0 <= a < b < idx_keep.len() ==> idx_keep[a] < idx_keep[b],
                idx_gone.len() == gone@.len(),
                forall|k: int| 0 <= k < idx_gone.len() ==> 0 <= #[trigger] idx_gone[k] < i
                    && self.disconnected@[orig_disc.len() + k] == as_disconnected(orig[idx_gone[k]])
                    && drop(orig[idx_gone[k]]),
                forall|a: int, b: int| 0 <= a < b < idx_gone.len() ==> idx_gone[a] < idx_gone[b],
                forall|k: int| 0 <= k < idx_keep.len() ==> keep(orig[#[trigger] idx_keep[k]]),
            decreases n - i,
        {
            let entry = rest.remove(0);
            assert(entry == orig[i as int]);
            let is_gone = now_ms >= entry.last_seen_ms && now_ms - entry.last_seen_ms >= DISCONNECT_TIMEOUT_MS;
            if is_gone {
                gone.push(entry.elevator_id);
                self.disconnected.push(DisconnectedElevator { elevator_id: entry.elevator_id, status: entry.status });
                proof {
                    idx_gone = idx_gone.push(i as int);
                }
            } else {
                self.known.push(entry);
                proof {
                    idx_keep = idx_keep.push(i as int);
                }
            }
            proof {
                assert(orig.take(i + 1).drop_last() =~= orig.take(i as int));
                reveal_with_fuel(Seq::filter, 1);
                assert(orig.take(i + 1).last() == orig[i as int]);
                assert(self.known@ =~= orig.take(i + 1).filter(keep));
                assert(gone@ =~= orig.take(i + 1).filter(drop).map_values(|k: KnownElevator| k.elevator_id));
                assert(self.disconnected@ =~= orig_disc + orig.take(i + 1).filter(drop).map_values(|k: KnownElevator| as_disconnected(k)));
            }
            assert(rest@ =~= orig.skip(i + 1));
            i = i + 1;
        }
        assert(orig.take(n as int) =~= orig);
        proof {
            let kn = self.known@;
            let dc = self.disconnected@;
            assert forall|a: int, b: int| 0 <= a < kn.len() && 0 <= b < kn.len() && a != b
                implies kn[a].elevator_id != kn[b].elevator_id by {
                assert(idx_keep[a] != idx_keep[b]);
            }
            assert forall|a: int, b: int| 0 <= a < dc.len() && 0 <= b < dc.len() && a != b
                implies dc[a].elevator_id != dc[b].elevator_id by {
                if a >= orig_disc.len() && b >= orig_disc.len() {
                    assert(idx_gone[a - orig_disc.len()] != idx_gone[b - orig_disc.len()]);
                } else if a < orig_disc.len() && b >= orig_disc.len() {
                    let j = idx_gone[b - orig_disc.len()];
                    assert(dc[a] == orig_disc[a]);
                    assert(old(self).is_known(orig[j].elevator_id));
                    assert(old(self).is_disconnected(orig_disc[a].elevator_id));
                } else if a >= orig_disc.len() && b < orig_disc.len() {
                    let j = idx_gone[a - orig_disc.len()];
                    assert(dc[b] == orig_disc[b]);
                    assert(old(self).is_known(orig[j].elevator_id));
                    assert(old(self).is_disconnected(orig_disc[b].elevator_id));
                } else {
                    assert(dc[a] == orig_disc[a] && dc[b] == orig_disc[b]);
                }
            }
            assert forall|id: ElevatorId| !(self.is_known(id) && self.is_disconnected(id)) by {
                if self.is_known(id) && self.is_disconnected(id) {
                    let a = choose|a: int| 0 <= a < kn.len() && kn[a].elevator_id == id;
                    let b = choose|b: int| 0 <= b < dc.len() && dc[b].elevator_id == id;
                    let ja = idx_keep[a];
                    assert(old(self).is_known(id));
                    if b < orig_disc.len() {
                        assert(dc[b] == orig_disc[b]);
                        assert(old(self).is_disconnected(id));
                    } else {
                        let jb = idx_gone[b - orig_disc.len()];
                        assert(keep(orig[ja]) && drop(orig[jb]));
                        assert(ja != jb);
                    }
                }
            }
        }
        gone
    }
}

/// `new` is `old` after recording `status`, received at `now_ms` by the
/// elevator `local_id`, with `kind` what the status turned out to be.
///
/// The local elevator's own status changes nothing. Any other elevator is
/// reported as reconnected when it was silent, as known when it was heard
/// from, and as new otherwise; it leaves the silent ones, and its entry among
/// the known ones (in place, or added at the end) holds `now_ms` and the status.
pub open spec fn remote_status_recorded(
    old: PeerTracker,
    new: PeerTracker,
    now_ms: u64,
    status: ElevatorStatus,
    local_id: ElevatorId,
    kind: RemoteStatusKind,
) -> bool {
    let id = status.elevator_id;
    if id == local_id {
        kind == RemoteStatusKind::OwnStatus && new == old
    } else {
        &&& kind == (if old.is_disconnected(id) {
            RemoteStatusKind::Reconnected
        } else if old.is_known(id) {
            RemoteStatusKind::KnownElevator
        } else {
            RemoteStatusKind::NewElevator
        })
        &&& new.disconnected() == (if old.is_disconnected(id) {
            old.disconnected().remove(old.disconnected_index(id))
        } else {
            old.disconnected()
        })
        &&& new.known().len() == (if old.is_known(id) { old.known().len() } else { old.known().len() + 1 })
        &&& {
            let k = if old.is_known(id) { old.known_index(id) } else { old.known().len() as int };
            &&& new.known()[k].elevator_id == id
            &&& new.known()[k].last_seen_ms == now_ms
            &&& new.known()[k].status.same_values(status)
            &&& forall|j: int| 0 <= j < old.known().len() && j != k ==> #[trigger] new.known()[j] == old.known()[j]
        }
    }
}

impl PeerTracker {
    /// The position of elevator `id` among the known ones.
    pub open spec fn known_index(&self, id: ElevatorId) -> int {
        choose|i: int| 0 <= i < self.known().len() && self.known()[i].elevator_id == id
    }

    /// The position of elevator `id` among the silent ones.
    pub open spec fn disconnected_index(&self, id: ElevatorId) -> int {
        choose|i: int| 0 <= i < self.disconnected().len() && self.disconnected()[i].elevator_id == id
    }

    /// Records a status received from the network at `now_ms`.
    ///
    /// The local elevator's own broadcast is ignored. Any other elevator
    /// becomes known, heard from now with this status, and stops being
    /// silent; the result says whether it was silent before, new, or known.
    pub fn on_remote_status(&mut self, now_ms: u64, status: &ElevatorStatus, local_id: &ElevatorId) -> (kind: RemoteStatusKind)
        requires
            old(self).wf(),
        ensures
            final(self).wf(),
            remote_status_recorded(*old(self), *final(self), now_ms, *status, *local_id, kind),
    {
        if same_elevator_id(&status.elevator_id, local_id) {
            return RemoteStatusKind::OwnStatus;
        }
        let id = status.elevator_id;
        let ghost o = *self;
        let kind;
        match self.find_disconnected(&id) {
            Some(k) => {
                self.disconnected.remove(k);
                kind = RemoteStatusKind::Reconnected;
                proof {
                    assert(o.disconnected_index(id) == k as int);
                }
            },
            None => {
                kind = if self.find_known(&id).is_some() { RemoteStatusKind::KnownElevator } else { RemoteStatusKind::NewElevator };
            },
        }
        let ghost mid = *self;
        let entry = KnownElevator { elevator_id: id, last_seen_ms: now_ms, status: status.copy() };
        match self.find_known(&id) {
            Some(k) => {
                self.known.set(k, entry);
                proof {
                    assert(o.known_index(id) == k as int);
                }
            },
            None => {
                self.known.push(entry);
            },
        }
        proof {
            let kn = self.known@;
            let dc = self.disconnected@;
            assert(forall|x: ElevatorId| mid.is_disconnected(x) ==> o.is_disconnected(x) && x != id);
            assert forall|x: ElevatorId| !(self.is_known(x) && self.is_disconnected(x)) by {
                if self.is_known(x) && self.is_disconnected(x) {
                    let a = choose|a: int| 0 <= a < kn.len() && kn[a].elevator_id == x;
                    assert(mid.is_disconnected(x));
                    if x != id {
                        assert(o.is_known(x));
                    }
                }
            }
            assert forall|a: int, b: int| 0 <= a < dc.len() && 0 <= b < dc.len() && a != b
                implies dc[a].elevator_id != dc[b].elevator_id by {
                if o.is_disconnected(id) {
                    let k = o.disconnected_index(id);
                    let a2 = if a < k { a } else { a + 1 };
                    let b2 = if b < k { b } else { b + 1 };
                    assert(dc[a] == o.disconnected()[a2]);
                    assert(dc[b] == o.disconnected()[b2]);
                }
            }
            assert forall|a: int, b: int| 0 <= a < kn.len() && 0 <= b < kn.len() && a != b
                implies kn[a].elevator_id != kn[b].elevator_id by {
                if o.is_known(id) {
                    let k = o.known_index(id);
                    if a != k && b != k {
                        assert(kn[a] == o.known()[a] && kn[b] == o.known()[b]);
                    } else if a == k {
                        assert(kn[b] == o.known()[b]);
                    } else {
                        assert(kn[a] == o.known()[a]);
                    }
                } else {
                    let k = o.known().len() as int;
                    if a != k && b != k {
                        assert(kn[a] == o.known()[a] && kn[b] == o.known()[b]);
                    } else if a == k {
                        assert(kn[b] == o.known()[b]);
                        assert(!o.is_known(id));
                    } else {
                        assert(kn[a] == o.known()[a]);
                        assert(!o.is_known(id));
                    }
                }
            }
        }
        kind
    }

    /// The answer to a datagram from an elevator that is starting up: when
    /// the datagram decodes as the identifier of a silent elevator, the cab
    /// calls that elevator last reported, so that it can take them up again.
    pub fn recovery_reply(&self, datagram: &[u8]) -> (reply: Option<CallSet>)
        requires
            self.wf(),
        ensures
            reply is Some == (datagram@.len() >= 6 && self.is_disconnected(
                [datagram@[0], datagram@[1], datagram@[2], datagram@[3], datagram@[4], datagram@[5]])),
            reply matches Some(calls) ==> calls@ == self.disconnected()[self.disconnected_index(
                [datagram@[0], datagram@[1], datagram@[2], datagram@[3], datagram@[4], datagram@[5]])].status.cab_calls@,
    {
        match decode_elevator_id(datagram) {
            Some(id) => match self.find_disconnected(&id) {
                Some(k) => {
                    proof {
                        assert(self.disconnected_index(id) == k as int);
                    }
                    Some(self.disconnected[k].status.cab_calls.copy())
                },
                None => None,
            },
            None => None,
        }
    }
}


/// An elevator that is heard from is connected: once its status is recorded
/// it is among the known elevators and no longer among the silent ones.
pub proof fn lemma_heard_elevator_is_connected(
    old: PeerTracker,
    new: PeerTracker,
    now_ms: u64,
    status: ElevatorStatus,
    local_id: ElevatorId,
    kind: RemoteStatusKind,
)
    requires
        old.wf(),
        remote_status_recorded(old, new, now_ms, status, local_id, kind),
        status.elevator_id != local_id,
    ensures
        new.is_known(status.elevator_id),
        !new.is_disconnected(status.elevator_id),
{
    let id = status.elevator_id;
    let k = if old.is_known(id) { old.known_index(id) } else { old.known().len() as int };
    assert(0 <= k < new.known().len() && new.known()[k].elevator_id == id);
    if old.is_disconnected(id) {
        let d = old.disconnected_index(id);
        assert forall|j: int| 0 <= j < new.disconnected().len() implies new.disconnected()[j].elevator_id != id by {
            let j2 = if j < d { j } else { j + 1 };
            assert(new.disconnected()[j] == old.disconnected()[j2]);
            assert(j2 != d);
        }
    }
}


/// The last status heard from an elevator is the one kept: once a status
/// from another elevator is recorded at `now_ms`, every entry of that
/// elevator among the known ones holds exactly that status, heard at
/// `now_ms`, whatever was known of it before; the other known elevators keep
/// their entries.
pub proof fn lemma_last_status_is_kept(
    old: PeerTracker,
    new: PeerTracker,
    now_ms: u64,
    status: ElevatorStatus,
    local_id: ElevatorId,
    kind: RemoteStatusKind,
)
    requires
        old.wf(),
        remote_status_recorded(old, new, now_ms, status, local_id, kind),
        status.elevator_id != local_id,
    ensures
        forall|i: int| 0 <= i < new.known().len() && (#[trigger] new.known()[i]).elevator_id == status.elevator_id
            ==> new.known()[i].status.same_values(status) && new.known()[i].last_seen_ms == now_ms,
        forall|i: int| 0 <= i < old.known().len() && (#[trigger] old.known()[i]).elevator_id != status.elevator_id
            ==> new.known()[i] == old.known()[i],
{
    let id = status.elevator_id;
    let k = if old.is_known(id) { old.known_index(id) } else { old.known().len() as int };
    assert forall|i: int| 0 <= i < new.known().len() && (#[trigger] new.known()[i]).elevator_id == id
        implies new.known()[i].status.same_values(status) && new.known()[i].last_seen_ms == now_ms by {
        if i != k {
            assert(i < old.known().len());
            assert(new.known()[i] == old.known()[i]);
            assert(old.is_known(id));
        }
    }
}


/// An elevator that goes silent is answered with the cab calls of the last
/// status heard from it: when a status from another elevator is recorded at
/// `heard_ms`, and a tick at `now_ms`, a disconnect timeout later, moves the
/// silent elevators aside, that elevator is among the silent ones with the
/// cab calls of that status.
pub proof fn lemma_silent_elevator_keeps_last_cab_calls(
    t0: PeerTracker,
    t1: PeerTracker,
    t2: PeerTracker,
    heard_ms: u64,
    status: ElevatorStatus,
    local_id: ElevatorId,
    kind: RemoteStatusKind,
    now_ms: u64,
)
    requires
        t0.wf(),
        remote_status_recorded(t0, t1, heard_ms, status, local_id, kind),
        status.elevator_id != local_id,
        t1.wf(),
        t2.wf(),
        t2.known() == t1.known().filter(|k: KnownElevator| !timed_out(k.last_seen_ms, now_ms)),
        t2.disconnected() == t1.disconnected()
            + t1.known().filter(|k: KnownElevator| timed_out(k.last_seen_ms, now_ms)).map_values(|k: KnownElevator| as_disconnected(k)),
        timed_out(heard_ms, now_ms),
    ensures
        t2.is_disconnected(status.elevator_id),
        t2.disconnected()[t2.disconnected_index(status.elevator_id)].status.cab_calls@ == status.cab_calls@,
{
    let id = status.elevator_id;
    lemma_heard_elevator_is_connected(t0, t1, heard_ms, status, local_id, kind);
    lemma_last_status_is_kept(t0, t1, heard_ms, status, local_id, kind);
    let i = choose|i: int| 0 <= i < t1.known().len() && t1.known()[i].elevator_id == id;
    let e = t1.known()[i];
    assert(e.status.same_values(status) && e.last_seen_ms == heard_ms);
    let drop = |k: KnownElevator| timed_out(k.last_seen_ms, now_ms);
    let gone = t1.known().filter(drop);
    t1.known().lemma_filter_contains(drop, i);
    assert(gone.contains(e));
    let j = choose|j: int| 0 <= j < gone.len() && gone[j] == e;
    let mapped = gone.map_values(|k: KnownElevator| as_disconnected(k));
    let n = t1.disconnected().len() as int;
    assert(t2.disconnected()[n + j] == mapped[j]);
    assert(t2.disconnected()[n + j].elevator_id == id);
    assert(t2.is_disconnected(id));
    let x = t2.disconnected_index(id);
    assert(x == n + j);
}

} // verus!
