//! A small network experiment: every node shares the calls it knows, and a
//! call's light goes on once every peer has the call.
use vstd::prelude::*;

verus! {

/// A call: a floor and a button type.
#[derive(Clone, Copy, Debug, PartialEq, Eq, Hash, Structural)]
pub struct Call {
    pub floor: u8,
    pub call: u8,
}

/// The members of a list of calls.
pub open spec fn call_set(v: Seq<Call>) -> Set<Call> {
    Set::new(|c: Call| v.contains(c))
}

/// Taking one more entry adds that entry to the members.
proof fn lemma_call_set_take_step(s: Seq<Call>, i: int)
    requires
        0 <= i < s.len(),
    ensures
        call_set(s.take(i + 1)) == call_set(s.take(i)).insert(s[i]),
{
    let a = s.take(i + 1);
    let b = s.take(i);
    assert(a == b.push(s[i]));
    assert forall|x: Call| a.contains(x) <==> (b.contains(x) || x == s[i]) by {
        if a.contains(x) {
            let k = choose|k: int| 0 <= k < a.len() && #[trigger] a[k] == x;
            if k < i {
                assert(b[k] == x);
            }
        }
        if b.contains(x) {
            let k = choose|k: int| 0 <= k < b.len() && #[trigger] b[k] == x;
            assert(a[k] == x);
        }
        if x == s[i] {
            assert(a[i] == x);
        }
    }
    assert(call_set(a) =~= call_set(b).insert(s[i]));
}

/// Whether `c` is in `v`.
fn has_call(v: &Vec<Call>, c: &Call) -> (r: bool)
    ensures
        r == v@.contains(*c),
{
    let n = v.len();
    for i in 0..n
        invariant
            n == v@.len(),
            forall|j: int| 0 <= j < i ==> v@[j] != *c,
    {
        if v[i] == *c {
            assert(v@[i as int] == *c);
            return true;
        }
    }
    false
}

/// Adds `c` to `v` unless it is there.
fn add_call(v: &mut Vec<Call>, c: Call)
    ensures
        call_set(final(v)@) == call_set(old(v)@).insert(c),
{
    if !has_call(v, &c) {
        v.push(c);
        proof {
            let s = v@;
            let o = old(v)@;
            assert(s[s.len() - 1] == c);
            assert forall|x: Call| s.contains(x) <==> (o.contains(x) || x == c) by {
                if s.contains(x) {
                    let k = choose|k: int| 0 <= k < s.len() && s[k] == x;
                    if k < o.len() {
                        assert(o[k] == x);
                    }
                }
                if o.contains(x) {
                    let k = choose|k: int| 0 <= k < o.len() && o[k] == x;
                    assert(s[k] == x);
                }
            }
        }
    }
    assert(call_set(v@) =~= call_set(old(v)@).insert(c));
}

/// A copy of a list of calls.
fn copy_calls(v: &Vec<Call>) -> (r: Vec<Call>)
    ensures
        r@ == v@,
{
    let mut r: Vec<Call> = Vec::new();
    let n = v.len();
    for i in 0..n
        invariant
            n == v@.len(),
            r@ == v@.take(i as int),
    {
        r.push(v[i]);
        assert(r@ =~= v@.take(i + 1));
    }
    assert(r@ =~= v@);
    r
}

/// The state a node shares on the network: its identifier and its calls.
pub struct NetState {
    pub id: u8,
    pub calls: Vec<Call>,
}

/// Messages to the logic loop.
pub enum LogicMsg {
    /// A button was pressed at this node.
    LocalButton(Call),
    /// A node's state was received from the network.
    NetUpdate(NetState),
}

/// What a node knows: its own calls and the calls of each peer.
pub struct WorldView {
    pub my_id: u8,
    pub my_calls: Vec<Call>,
    pub peers: Vec<(u8, Vec<Call>)>,
}

impl WorldView {
    /// Each peer is listed at most once.
    pub open spec fn wf(&self) -> bool {
        forall|i: int, j: int| 0 <= i < self.peers@.len() && 0 <= j < self.peers@.len() && i != j
            ==> self.peers@[i].0 != self.peers@[j].0
    }

    /// Whether peer `id` is listed.
    pub open spec fn has_peer(&self, id: u8) -> bool {
        exists|i: int| 0 <= i < self.peers@.len() && self.peers@[i].0 == id
    }

    /// The calls of peer `id`.
    pub open spec fn peer_calls(&self, id: u8) -> Set<Call> {
        call_set(self.peers@[choose|i: int| 0 <= i < self.peers@.len() && self.peers@[i].0 == id].1@)
    }

    /// A node that knows no calls and no peers.
    pub fn new(my_id: u8) -> (w: WorldView)
        ensures
            w.wf(),
            w.my_id == my_id,
            w.my_calls@.len() == 0,
            w.peers@.len() == 0,
    {
        WorldView { my_id, my_calls: Vec::new(), peers: Vec::new() }
    }

    /// Handles a message and returns the state to share, if any.
    ///
    /// A local button adds its call. A state from another node adds all of
    /// that node's calls and records them as the node's calls. The node's own
    /// state coming back from the network is ignored, and then nothing is shared.
    pub fn handle(&mut self, msg: LogicMsg) -> (snapshot: Option<NetState>)
        requires
            old(self).wf(),
        ensures
            final(self).wf(),
            final(self).my_id == old(self).my_id,
            match msg {
                LogicMsg::LocalButton(c) => call_set(final(self).my_calls@) == call_set(old(self).my_calls@).insert(c)
                    && final(self).peers@ == old(self).peers@,
                LogicMsg::NetUpdate(s) => if s.id == old(self).my_id {
                    *final(self) == *old(self)
                } else {
                    &&& call_set(final(self).my_calls@) == call_set(old(self).my_calls@).union(call_set(s.calls@))
                    &&& final(self).has_peer(s.id)
                    &&& final(self).peer_calls(s.id) == call_set(s.calls@)
                    &&& forall|id: u8| id != s.id ==> #[trigger] final(self).has_peer(id) == old(self).has_peer(id)
                    &&& forall|id: u8| id != s.id && old(self).has_peer(id) ==> #[trigger] final(self).peer_calls(id) == old(self).peer_calls(id)
                },
            },
            match msg {
                LogicMsg::NetUpdate(s) => s.id == old(self).my_id,
                _ => false,
            } <==> snapshot is None,
            snapshot matches Some(st) ==> st.id == final(self).my_id && st.calls@ == final(self).my_calls@,
    {
        match msg {
            LogicMsg::LocalButton(call) => {
                add_call(&mut self.my_calls, call);
            },
            LogicMsg::NetUpdate(state) => {
                if state.id == self.my_id {
                    return None;
                }
                let n = state.calls.len();
                for i in 0..n
                    invariant
                        n == state.calls@.len(),
                        call_set(self.my_calls@) == call_set(old(self).my_calls@).union(call_set(state.calls@.take(i as int))),
                        self.peers == old(self).peers,
                        self.my_id == old(self).my_id,
                {
                    add_call(&mut self.my_calls, state.calls[i]);
                    proof {
                        lemma_call_set_take_step(state.calls@, i as int);
                    }
                    assert(call_set(self.my_calls@) =~= call_set(old(self).my_calls@).union(call_set(state.calls@.take(i + 1))));
                }
                assert(state.calls@.take(n as int) =~= state.calls@);
                let id = state.id;
                let mut found: Option<usize> = None;
                let m = self.peers.len();
                for i in 0..m
                    invariant
                        m == self.peers@.len(),
                        found matches Some(k) ==> k < m && self.peers@[k as int].0 == id,
                        found is None ==> forall|j: int| 0 <= j < i ==> self.peers@[j].0 != id,
                {
                    if found.is_none() && self.peers[i].0 == id {
                        found = Some(i);
                    }
                }
                let ghost before = self.peers@;
                match found {
                    Some(k) => {
                        self.peers.set(k, (id, state.calls));
                    },
                    None => {
                        self.peers.push((id, state.calls));
                    },
                }
                proof {
                    let p = self.peers@;
                    assert forall|a: int, b: int| 0 <= a < p.len() && 0 <= b < p.len() && a != b implies p[a].0 != p[b].0 by {
                        if a < before.len() && b < before.len() {
                            if !(found == Some(a as usize) || found == Some(b as usize)) {
                                assert(p[a] == before[a] && p[b] == before[b]);
                            }
                        }
                    }
                    match found {
                        Some(k) => {
                            assert(p[k as int].0 == id);
                        },
                        None => {
                            assert(p[p.len() - 1].0 == id);
                        },
                    }
                    assert(self.has_peer(id));
                    let k = choose|i: int| 0 <= i < p.len() && p[i].0 == id;
                    assert(p[k].0 == id);
                    match found {
                        Some(k2) => {
                            assert(k == k2 as int);
                        },
                        None => {
                            assert(k == p.len() - 1);
                        },
                    }
                    assert forall|x: u8| x != id implies #[trigger] self.has_peer(x) == old(self).has_peer(x)
                        && (old(self).has_peer(x) ==> self.peer_calls(x) == old(self).peer_calls(x)) by {
                        if old(self).has_peer(x) {
                            let j = choose|i: int| 0 <= i < before.len() && before[i].0 == x;
                            assert(p[j] == before[j]);
                            let j2 = choose|i: int| 0 <= i < p.len() && p[i].0 == x;
                            assert(j2 == j);
                        }
                        if self.has_peer(x) {
                            let j = choose|i: int| 0 <= i < p.len() && p[i].0 == x;
                            if j < before.len() {
                                assert(p[j] == before[j]);
                            }
                        }
                    }
                    assert forall|x: u8| x != id && old(self).has_peer(x) implies #[trigger] self.peer_calls(x) == old(self).peer_calls(x) by {
                        assert(self.has_peer(x) == old(self).has_peer(x));
                    }
                }
            },
        }
        let calls = copy_calls(&self.my_calls);
        Some(NetState { id: self.my_id, calls })
    }

    /// The calls of this node that every peer has; their lights go on.
    pub fn calls_seen_by_all(&self) -> (seen: Vec<Call>)
        ensures
            call_set(seen@) == Set::new(|c: Call| self.my_calls@.contains(c)
                && forall|i: int| 0 <= i < self.peers@.len() ==> #[trigger] self.peers@[i].1@.contains(c)),
    {
        let mut seen: Vec<Call> = Vec::new();
        let n = self.my_calls.len();
        for i in 0..n
            invariant
                n == self.my_calls@.len(),
                call_set(seen@) == Set::new(|c: Call| self.my_calls@.take(i as int).contains(c)
                    && forall|k: int| 0 <= k < self.peers@.len() ==> #[trigger] self.peers@[k].1@.contains(c)),
        {
            let call = self.my_calls[i];
            let mut all_have = true;
            let m = self.peers.len();
            for j in 0..m
                invariant
                    m == self.peers@.len(),
                    all_have == forall|k: int| 0 <= k < j ==> #[trigger] self.peers@[k].1@.contains(call),
            {
                if !has_call(&self.peers[j].1, &call) {
                    all_have = false;
                }
            }
            let ghost prev = call_set(seen@);
            if all_have {
                add_call(&mut seen, call);
            }
            proof {
                lemma_call_set_take_step(self.my_calls@, i as int);
                let target = Set::new(|c: Call| self.my_calls@.take(i + 1).contains(c)
                    && forall|k: int| 0 <= k < self.peers@.len() ==> #[trigger] self.peers@[k].1@.contains(c));
                assert forall|x: Call| call_set(seen@).contains(x) == target.contains(x) by {
                    assert(call_set(self.my_calls@.take(i + 1)).contains(x) == call_set(self.my_calls@.take(i as int)).insert(call).contains(x));
                    assert(self.my_calls@[i as int] == call);
                }
                assert(call_set(seen@) =~= target);
            }
        }
        assert(self.my_calls@.take(n as int) =~= self.my_calls@);
        seen
    }
}

} // verus!
