use vstd::prelude::*;

verus! {

/// How many frames may wait for one connection. A connection whose outbox is
/// full when another frame comes is dropped rather than let it hold back the
/// others.
pub const MAX_PENDING: usize = 64;

/// A registered connection as the registry sees it: its id and the frames
/// waiting to be written to it, oldest first.
pub type ConnView = (u64, Seq<Seq<u8>>);

struct Connection {
    id: u64,
    outbox: Vec<Vec<u8>>,
}

impl View for Connection {
    type V = ConnView;

    closed spec fn view(&self) -> ConnView {
        (self.id, self.outbox@.map_values(|f: Vec<u8>| f@))
    }
}

/// The connections currently registered, each with its queue of outgoing
/// frames. Connections are added on accept and removed the first time a
/// write to them fails; a removed id is never handed out again.
pub struct Registry {
    conns: Vec<Connection>,
    next_id: u64,
}

/// The mathematical value of a `Registry`.
pub struct RegistryView {
    pub conns: Seq<ConnView>,
    pub next_id: u64,
}

impl View for Registry {
    type V = RegistryView;

    closed spec fn view(&self) -> RegistryView {
        RegistryView { conns: self.conns@.map_values(|c: Connection| c@), next_id: self.next_id }
    }
}

pub open spec fn has_room(c: ConnView) -> bool {
    c.1.len() < MAX_PENDING
}

/// The connections a broadcast keeps: those with room in their outbox.
pub open spec fn with_room() -> spec_fn(ConnView) -> bool {
    |c: ConnView| has_room(c)
}

/// The connections other than `id`.
pub open spec fn other_than(id: u64) -> spec_fn(ConnView) -> bool {
    |c: ConnView| c.0 != id
}

pub open spec fn queue_frame(c: ConnView, frame: Seq<u8>) -> ConnView {
    (c.0, c.1.push(frame))
}

/// The connections that a broadcast of `frame` leaves: those whose outbox was
/// full are dropped, every other one has the frame queued, in registry order.
pub open spec fn after_broadcast(conns: Seq<ConnView>, frame: Seq<u8>) -> Seq<ConnView> {
    conns.filter(with_room()).map_values(|c: ConnView| queue_frame(c, frame))
}

/// The ids that a broadcast reaches, in registry order.
pub open spec fn broadcast_targets(conns: Seq<ConnView>) -> Seq<u64> {
    conns.filter(with_room()).map_values(|c: ConnView| c.0)
}

/// The connections without the one(s) with id `id`.
pub open spec fn without(conns: Seq<ConnView>, id: u64) -> Seq<ConnView> {
    conns.filter(other_than(id))
}

/// `i` is the first position that holds id `id`.
pub open spec fn first_with(conns: Seq<ConnView>, id: u64, i: int) -> bool {
    &&& 0 <= i < conns.len()
    &&& conns[i].0 == id
    &&& forall|j: int| 0 <= j < i ==> (#[trigger] conns[j]).0 != id
}

pub open spec fn sorted_below(conns: Seq<ConnView>, bound: u64) -> bool {
    &&& forall|i: int, j: int| 0 <= i < j < conns.len() ==> (#[trigger] conns[i]).0 < (#[trigger] conns[j]).0
    &&& forall|i: int| 0 <= i < conns.len() ==> (#[trigger] conns[i]).0 < bound
}

impl RegistryView {
    pub open spec fn ids(self) -> Seq<u64> {
        self.conns.map_values(|c: ConnView| c.0)
    }

    /// Ids are distinct (kept in increasing order) and below the next id to
    /// hand out; no outbox holds more than `MAX_PENDING` frames.
    pub open spec fn wf(self) -> bool {
        &&& sorted_below(self.conns, self.next_id)
        &&& forall|i: int| 0 <= i < self.conns.len() ==> (#[trigger] self.conns[i]).1.len() <= MAX_PENDING
    }
}

proof fn lemma_filter_sorted(s: Seq<ConnView>, p: spec_fn(ConnView) -> bool, bound: u64)
    requires
        sorted_below(s, bound),
    ensures
        sorted_below(s.filter(p), bound),
        forall|i: int| 0 <= i < s.filter(p).len() ==> s.contains(#[trigger] s.filter(p)[i]),
        forall|i: int| 0 <= i < s.filter(p).len() ==> p(#[trigger] s.filter(p)[i]),
    decreases s.len(),
{
    reveal(Seq::filter);
    if s.len() > 0 {
        let init = s.drop_last();
        assert(sorted_below(init, bound));
        lemma_filter_sorted(init, p, bound);
        let fi = init.filter(p);
        let f = s.filter(p);
        assert forall|i: int| 0 <= i < fi.len() implies (#[trigger] fi[i]).0 < s.last().0 by {
            let k = choose|k: int| 0 <= k < init.len() && init[k] == fi[i];
            assert(s[k] == init[k]);
        }
        assert forall|i: int| 0 <= i < f.len() implies s.contains(#[trigger] f[i]) by {
            if i < fi.len() {
                let k = choose|k: int| 0 <= k < init.len() && init[k] == fi[i];
                assert(s[k] == init[k]);
            } else {
                assert(s[s.len() - 1] == s.last());
            }
        }
    }
}

proof fn lemma_filter_step(s: Seq<ConnView>, p: spec_fn(ConnView) -> bool, j: int)
    requires
        0 <= j < s.len(),
    ensures
        s.take(j + 1).filter(p) == if p(s[j]) {
            s.take(j).filter(p).push(s[j])
        } else {
            s.take(j).filter(p)
        },
{
    reveal(Seq::filter);
    assert(s.take(j + 1).drop_last() =~= s.take(j));
    assert(s.take(j + 1).last() == s[j]);
}

impl Registry {
    /// An empty registry.
    pub fn new() -> (r: Registry)
        ensures
            r@.conns == Seq::<ConnView>::empty(),
            r@.next_id == 0,
            r@.wf(),
    {
        let r = Registry { conns: Vec::new(), next_id: 0 };
        assert(r@.conns =~= Seq::<ConnView>::empty());
        r
    }

    /// Registers a newly accepted connection, with an empty outbox, and
    /// returns its id; `None` once every id has been handed out.
    pub fn register(&mut self) -> (r: Option<u64>)
        ensures
            r is None <==> old(self)@.next_id == u64::MAX,
            r matches Some(id) ==> id == old(self)@.next_id && final(self)@ == (RegistryView {
                conns: old(self)@.conns.push((id, Seq::<Seq<u8>>::empty())),
                next_id: (id + 1) as u64,
            }),
            r is None ==> final(self)@ == old(self)@,
            old(self)@.wf() ==> final(self)@.wf(),
    {
        if self.next_id == u64::MAX {
            return None;
        }
        let id = self.next_id;
        let ghost before = self@;
        let c = Connection { id, outbox: Vec::new() };
        assert(c@.1 =~= Seq::<Seq<u8>>::empty());
        self.conns.push(c);
        self.next_id = id + 1;
        assert(self@.conns =~= before.conns.push((id, Seq::<Seq<u8>>::empty())));
        Some(id)
    }

    /// Whether a connection with id `id` is registered.
    pub fn contains(&self, id: u64) -> (r: bool)
        ensures
            r == self@.ids().contains(id),
    {
        let mut i: usize = 0;
        while i < self.conns.len()
            invariant
                0 <= i <= self.conns.len(),
                forall|j: int| 0 <= j < i ==> self@.conns[j].0 != id,
            decreases self.conns.len() - i,
        {
            if self.conns[i].id == id {
                assert(self@.ids()[i as int] == id);
                return true;
            }
            i += 1;
        }
        assert(!self@.ids().contains(id)) by {
            if self@.ids().contains(id) {
                let k = choose|k: int| 0 <= k < self@.ids().len() && self@.ids()[k] == id;
                assert(self@.conns[k].0 == id);
            }
        }
        false
    }

    /// The number of registered connections.
    pub fn len(&self) -> (r: usize)
        ensures
            r == self@.conns.len(),
    {
        self.conns.len()
    }

    /// Queues `frame` for every registered connection, in registry order,
    /// and returns the ids it was queued for. A connection whose outbox is
    /// already full is dropped from the registry instead.
    pub fn broadcast(&mut self, frame: &Vec<u8>) -> (r: Vec<u64>)
        ensures
            final(self)@.conns == after_broadcast(old(self)@.conns, frame@),
            final(self)@.next_id == old(self)@.next_id,
            r@ == broadcast_targets(old(self)@.conns),
            old(self)@.wf() ==> final(self)@.wf(),
    {
        let ghost start = self@.conns;
        let ghost p = with_room();
        let mut i: usize = 0;
        let ghost mut j: int = 0;
        while i < self.conns.len()
            invariant
                0 <= j <= start.len(),
                p == with_room(),
                i == start.take(j).filter(p).len(),
                self@.conns == start.take(j).filter(p) + start.skip(j),
                self.next_id == old(self).next_id,
            decreases self.conns.len() - i,
        {
            let ghost before = self@.conns;
            proof {
                assert(before[i as int] == start[j]);
            }
            if self.conns[i].outbox.len() < MAX_PENDING {
                assert(p(start[j]));
                i += 1;
            } else {
                assert(!p(start[j]));
                self.conns.remove(i);
                assert(self@.conns =~= before.remove(i as int));
            }
            proof {
                lemma_filter_step(start, p, j);
                assert(start.skip(j) =~= seq![start[j]] + start.skip(j + 1));
                j = j + 1;
                assert(self@.conns =~= start.take(j).filter(p) + start.skip(j));
            }
        }
        let ghost kept = self@.conns;
        proof {
            assert(start.take(j) =~= start);
            assert(kept =~= start.filter(p));
        }
        let n = self.conns.len();
        let mut targets: Vec<u64> = Vec::new();
        let mut k: usize = 0;
        while k < n
            invariant
                n == self.conns.len(),
                kept.len() == n,
                kept == start.filter(with_room()),
                k <= n,
                forall|m: int| 0 <= m < k ==> self@.conns[m] == queue_frame(kept[m], frame@),
                forall|m: int| k <= m < n ==> self@.conns[m] == kept[m],
                targets@ == kept.take(k as int).map_values(|c: ConnView| c.0),
                self.next_id == old(self).next_id,
            decreases n - k,
        {
            let copy = frame.clone();
            proof {
                assert(copy@ =~= frame@);
            }
            let ghost before = self@.conns;
            self.conns[k].outbox.push(copy);
            targets.push(self.conns[k].id);
            proof {
                assert(self@.conns[k as int] == queue_frame(kept[k as int], frame@)) by {
                    assert(self@.conns[k as int].1 =~= kept[k as int].1.push(frame@));
                }
                assert(self@.conns =~= before.update(k as int, queue_frame(kept[k as int], frame@)));
                assert(kept.take(k + 1).map_values(|c: ConnView| c.0) =~= kept.take(k as int).map_values(
                    |c: ConnView| c.0,
                ).push(kept[k as int].0));
            }
            k += 1;
        }
        proof {
            assert(self@.conns =~= after_broadcast(start, frame@));
            assert(kept.take(n as int) =~= kept);
            if old(self)@.wf() {
                lemma_filter_sorted(start, p, self.next_id);
            }
        }
        targets
    }

    /// Takes the oldest frame waiting for connection `id`, if there is one.
    pub fn take_next(&mut self, id: u64) -> (r: Option<Vec<u8>>)
        ensures
            final(self)@.next_id == old(self)@.next_id,
            r matches Some(f) ==> exists|i: int|
                {
                    &&& first_with(old(self)@.conns, id, i)
                    &&& old(self)@.conns[i].1.len() > 0
                    &&& f@ == old(self)@.conns[i].1[0]
                    &&& final(self)@.conns == old(self)@.conns.update(
                        i,
                        (id, old(self)@.conns[i].1.drop_first()),
                    )
                },
            r is None ==> final(self)@ == old(self)@,
            r is None <==> forall|i: int|
                first_with(old(self)@.conns, id, i) ==> old(self)@.conns[i].1.len() == 0,
            old(self)@.wf() ==> final(self)@.wf(),
    {
        let mut i: usize = 0;
        while i < self.conns.len()
            invariant
                0 <= i <= self.conns.len(),
                self@ == old(self)@,
                forall|j: int| 0 <= j < i ==> (#[trigger] self@.conns[j]).0 != id,
            decreases self.conns.len() - i,
        {
            if self.conns[i].id == id {
                assert(first_with(self@.conns, id, i as int));
                if self.conns[i].outbox.len() == 0 {
                    assert forall|k: int| first_with(old(self)@.conns, id, k) implies old(
                        self,
                    )@.conns[k].1.len() == 0 by {
                        assert(k == i);
                    }
                    return None;
                }
                let ghost before = self@.conns;
                let f = self.conns[i].outbox.remove(0);
                proof {
                    assert(self@.conns[i as int].1 =~= before[i as int].1.drop_first());
                    assert(self@.conns =~= before.update(i as int, (id, before[i as int].1.drop_first())));
                    if old(self)@.wf() {
                        assert(sorted_below(self@.conns, self.next_id));
                    }
                }
                return Some(f);
            }
            i += 1;
        }
        None
    }

    /// Removes connection `id`: a write to it failed, and it is never
    /// written to again.
    pub fn disconnect(&mut self, id: u64)
        ensures
            final(self)@.conns == without(old(self)@.conns, id),
            final(self)@.next_id == old(self)@.next_id,
            old(self)@.wf() ==> final(self)@.wf(),
    {
        let ghost start = self@.conns;
        let ghost p = other_than(id);
        let mut i: usize = 0;
        let ghost mut j: int = 0;
        while i < self.conns.len()
            invariant
                0 <= j <= start.len(),
                p == other_than(id),
                i == start.take(j).filter(p).len(),
                self@.conns == start.take(j).filter(p) + start.skip(j),
                self.next_id == old(self).next_id,
            decreases self.conns.len() - i,
        {
            let ghost before = self@.conns;
            proof {
                assert(before[i as int] == start[j]);
            }
            if self.conns[i].id != id {
                assert(p(start[j]));
                i += 1;
            } else {
                assert(!p(start[j]));
                self.conns.remove(i);
                assert(self@.conns =~= before.remove(i as int));
            }
            proof {
                lemma_filter_step(start, p, j);
                assert(start.skip(j) =~= seq![start[j]] + start.skip(j + 1));
                j = j + 1;
                assert(self@.conns =~= start.take(j).filter(p) + start.skip(j));
            }
        }
        proof {
            assert(start.take(j) =~= start);
            assert(self@.conns =~= without(start, id));
            if old(self)@.wf() {
                lemma_filter_sorted(start, p, self.next_id);
                let f = self@.conns;
                assert forall|m: int| 0 <= m < f.len() implies (#[trigger] f[m]).1.len() <= MAX_PENDING by {
                    assert(start.contains(f[m]));
                }
            }
        }
    }
}

proof fn lemma_filter_all(s: Seq<ConnView>, p: spec_fn(ConnView) -> bool)
    requires
        forall|i: int| 0 <= i < s.len() ==> p(#[trigger] s[i]),
    ensures
        s.filter(p) == s,
    decreases s.len(),
{
    reveal(Seq::filter);
    if s.len() > 0 {
        let init = s.drop_last();
        assert forall|i: int| 0 <= i < init.len() implies p(#[trigger] init[i]) by {
            assert(init[i] == s[i]);
        }
        lemma_filter_all(init, p);
        assert(p(s[s.len() - 1]));
        assert(init.push(s.last()) =~= s);
    }
}

/// Fan-out: when no outbox is full, a broadcast reaches every registered
/// connection, in registry order, and queues the same frame at the end of
/// each outbox. If connection `k` then fails and is disconnected, it is gone
/// from the registry, and every other connection is still there with the
/// frame queued.
pub proof fn lemma_fan_out(reg: RegistryView, frame: Seq<u8>, k: u64)
    requires
        forall|i: int| 0 <= i < reg.conns.len() ==> has_room(#[trigger] reg.conns[i]),
    ensures
        broadcast_targets(reg.conns) == reg.ids(),
        after_broadcast(reg.conns, frame).len() == reg.conns.len(),
        forall|i: int|
            0 <= i < reg.conns.len() ==> #[trigger] after_broadcast(reg.conns, frame)[i] == queue_frame(
                reg.conns[i],
                frame,
            ),
        forall|i: int|
            0 <= i < without(after_broadcast(reg.conns, frame), k).len() ==> (#[trigger] without(
                after_broadcast(reg.conns, frame),
                k,
            )[i]).0 != k,
        forall|i: int|
            0 <= i < reg.conns.len() && (#[trigger] reg.conns[i]).0 != k ==> without(
                after_broadcast(reg.conns, frame),
                k,
            ).contains(queue_frame(reg.conns[i], frame)),
{
    lemma_filter_all(reg.conns, with_room());
    let after = after_broadcast(reg.conns, frame);
    assert(broadcast_targets(reg.conns) =~= reg.ids());
    let pruned = without(after, k);
    assert forall|i: int| 0 <= i < pruned.len() implies (#[trigger] pruned[i]).0 != k by {
        after.lemma_filter_pred(other_than(k), i);
    }
    assert forall|i: int| 0 <= i < reg.conns.len() && (#[trigger] reg.conns[i]).0 != k implies pruned.contains(
        queue_frame(reg.conns[i], frame),
    ) by {
        assert(after[i] == queue_frame(reg.conns[i], frame));
        after.lemma_filter_contains(other_than(k), i);
    }
}

} // verus!
