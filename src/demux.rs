//! Broadcast of one message type to a changing set of subscribers.
use vstd::prelude::*;

verus! {

/// The entries of `s` whose flag in `alive` is set, in their order.
pub open spec fn survivors<A>(s: Seq<A>, alive: Seq<bool>) -> Seq<A>
    decreases s.len(),
{
    if s.len() == 0 || alive.len() == 0 {
        Seq::empty()
    } else {
        let rest = survivors(s.drop_last(), alive.drop_last());
        if alive.last() {
            rest.push(s.last())
        } else {
            rest
        }
    }
}

/// The identities of the entries of `s`, in their order.
pub open spec fn ids_of<H>(s: Seq<(usize, H)>) -> Seq<usize> {
    s.map_values(|e: (usize, H)| e.0)
}

/// No identity appears twice in `s`.
pub open spec fn unique_ids<H>(s: Seq<(usize, H)>) -> bool {
    forall|i: int, j: int| 0 <= i < j < s.len() ==> #[trigger] s[i].0 != #[trigger] s[j].0
}

/// The set of subscribers of one message type.
///
/// Each subscriber is kept as a non-owning handle `H` under the identity of
/// the actor it points to; an actor is subscribed at most once.
pub struct Demux<H> {
    subscribers: Vec<(usize, H)>,
}

impl<H> Demux<H> {
    /// The subscribers, oldest first.
    pub closed spec fn entries(&self) -> Seq<(usize, H)> {
        self.subscribers@
    }

    /// No identity appears twice.
    pub open spec fn wf(&self) -> bool {
        unique_ids(self.entries())
    }

    /// A set with no subscriber.
    pub fn new() -> (r: Self)
        ensures
            r.wf(),
            r.entries() == Seq::<(usize, H)>::empty(),
    {
        Demux { subscribers: Vec::new() }
    }

    /// How many subscribers the set holds.
    pub fn len(&self) -> (r: usize)
        ensures
            r == self.entries().len(),
    {
        self.subscribers.len()
    }

    /// Where the subscriber with identity `id` stands, if it is in the set.
    fn position(&self, id: usize) -> (r: Option<usize>)
        ensures
            match r {
                Some(k) => k < self.entries().len() && self.entries()[k as int].0 == id,
                None => !ids_of(self.entries()).contains(id),
            },
    {
        let mut k: usize = 0;
        while k < self.subscribers.len()
            invariant
                0 <= k <= self.entries().len(),
                forall|j: int| 0 <= j < k ==> self.entries()[j].0 != id,
            decreases self.entries().len() - k,
        {
            if self.subscribers[k].0 == id {
                return Some(k);
            }
            k = k + 1;
        }
        proof {
            if ids_of(self.entries()).contains(id) {
                let j = choose|j: int|
                    0 <= j < ids_of(self.entries()).len() && ids_of(self.entries())[j] == id;
                assert(self.entries()[j].0 == id);
            }
        }
        None
    }

    /// Adds `handle` under identity `id`; returns whether it was added, which
    /// it is exactly when no subscriber with that identity is in the set.
    pub fn subscribe(&mut self, id: usize, handle: H) -> (r: bool)
        requires
            old(self).wf(),
        ensures
            final(self).wf(),
            r == !ids_of(old(self).entries()).contains(id),
            final(self).entries() == (if r {
                old(self).entries().push((id, handle))
            } else {
                old(self).entries()
            }),
    {
        match self.position(id) {
            Some(k) => {
                assert(ids_of(self.entries())[k as int] == id);
                false
            },
            None => {
                self.subscribers.push((id, handle));
                proof {
                    let after = self.entries();
                    assert forall|i: int, j: int|
                        0 <= i < j < after.len() implies #[trigger] after[i].0
                            != #[trigger] after[j].0 by {
                        if j == old(self).entries().len() {
                            assert(ids_of(old(self).entries())[i] == old(self).entries()[i].0);
                        }
                    }
                }
                true
            },
        }
    }

    /// Removes the subscriber with identity `id`; returns whether one was in
    /// the set. The others keep their order.
    pub fn unsubscribe(&mut self, id: usize) -> (r: bool)
        requires
            old(self).wf(),
        ensures
            final(self).wf(),
            r == ids_of(old(self).entries()).contains(id),
            !ids_of(final(self).entries()).contains(id),
            r ==> exists|k: int|
                0 <= k < old(self).entries().len() && old(self).entries()[k].0 == id
                    && final(self).entries() == old(self).entries().remove(k),
            !r ==> final(self).entries() == old(self).entries(),
    {
        match self.position(id) {
            Some(k) => {
                assert(ids_of(self.entries())[k as int] == id);
                let ghost before = self.entries();
                self.subscribers.remove(k);
                proof {
                    let after = self.entries();
                    assert(after =~= before.remove(k as int));
                    assert forall|i: int, j: int| 0 <= i < j < after.len() implies #[trigger] after[i].0
                        != #[trigger] after[j].0 by {
                        let bi = if i < k { i } else { i + 1 };
                        let bj = if j < k { j } else { j + 1 };
                        assert(after[i] == before[bi]);
                        assert(after[j] == before[bj]);
                    }
                    if ids_of(after).contains(id) {
                        let j = choose|j: int| 0 <= j < ids_of(after).len() && ids_of(after)[j] == id;
                        let bj = if j < k { j } else { j + 1 };
                        assert(after[j] == before[bj]);
                    }
                }
                true
            },
            None => false,
        }
    }

    /// One broadcast pass: calls `deliver` once on each subscriber, oldest
    /// first; `deliver` reports whether the subscriber was still alive (and
    /// then hands it the message). Subscribers found dead leave the set; the
    /// others stay, in their order.
    pub fn send<F>(&mut self, deliver: F)
        where
            F: Fn(&H) -> bool,
        requires
            old(self).wf(),
            forall|h: &H| call_requires(deliver, (h,)),
        ensures
            final(self).wf(),
            exists|alive: Seq<bool>|
                {
                    &&& alive.len() == old(self).entries().len()
                    &&& forall|i: int|
                        0 <= i < alive.len() ==> call_ensures(
                            deliver,
                            (&old(self).entries()[i].1,),
                            #[trigger] alive[i],
                        )
                    &&& final(self).entries() == survivors(old(self).entries(), alive)
                },
    {
        let ghost start = self.entries();
        let len = self.subscribers.len();
        let ghost mut alive: Seq<bool> = Seq::empty();
        let mut i: usize = 0;
        while i < len
            invariant
                forall|h: &H| call_requires(deliver, (h,)),
                len == start.len(),
                0 <= i <= len,
                alive.len() == i,
                forall|j: int|
                    0 <= j < i ==> call_ensures(deliver, (&start[j].1,), #[trigger] alive[j]),
                self.entries() == start.subrange(i as int, len as int) + survivors(
                    start.subrange(0, i as int),
                    alive,
                ),
            decreases len - i,
        {
            let ghost before = self.entries();
            let ghost alive0 = alive;
            assert(before[0] == start[i as int]);
            let entry = self.subscribers.remove(0);
            let keep = deliver(&entry.1);
            proof {
                alive = alive.push(keep);
                assert(alive.drop_last() =~= alive0);
                assert(start.subrange(0, i + 1).drop_last() =~= start.subrange(0, i as int));
                assert forall|j: int| 0 <= j < i + 1 implies call_ensures(
                    deliver,
                    (&start[j].1,),
                    #[trigger] alive[j],
                ) by {
                    if j < i {
                        assert(alive[j] == alive0[j]);
                    }
                }
            }
            if keep {
                self.subscribers.push(entry);
            }
            proof {
                assert(start.subrange(i as int + 1, len as int) =~= before.drop_first().subrange(
                    0,
                    len - i - 1,
                ));
            }
            i = i + 1;
            assert(self.entries() =~= start.subrange(i as int, len as int) + survivors(
                start.subrange(0, i as int),
                alive,
            ));
        }
        assert(start.subrange(0, len as int) =~= start);
        proof {
            lemma_survivors(start, alive);
        }
        assert(start.subrange(len as int, len as int) + survivors(start, alive) =~= survivors(
            start,
            alive,
        ));
    }
}

/// What a broadcast pass leaves: an identity is in `survivors(s, alive)`
/// exactly when an entry of `s` with that identity was found alive, and no
/// identity appears twice there if none did in `s`.
pub proof fn lemma_survivors<H>(s: Seq<(usize, H)>, alive: Seq<bool>)
    requires
        s.len() == alive.len(),
    ensures
        forall|id: usize|
            #[trigger] ids_of(survivors(s, alive)).contains(id) <==> exists|i: int|
                0 <= i < s.len() && alive[i] && s[i].0 == id,
        unique_ids(s) ==> unique_ids(survivors(s, alive)),
    decreases s.len(),
{
    if s.len() > 0 {
        let p = s.drop_last();
        let a = alive.drop_last();
        lemma_survivors(p, a);
        let rest = survivors(p, a);
        let cur = survivors(s, alive);
        assert(cur == if alive.last() {
            rest.push(s.last())
        } else {
            rest
        });
        assert forall|id: usize| #[trigger] ids_of(cur).contains(id) <==> exists|i: int|
            0 <= i < s.len() && alive[i] && s[i].0 == id by {
            if ids_of(cur).contains(id) {
                let k = choose|k: int| 0 <= k < ids_of(cur).len() && ids_of(cur)[k] == id;
                if k < rest.len() {
                    assert(cur[k] == rest[k]);
                    assert(ids_of(rest)[k] == id);
                    assert(ids_of(rest).contains(id));
                    let i = choose|i: int| 0 <= i < p.len() && a[i] && p[i].0 == id;
                    assert(alive[i] && s[i].0 == id);
                } else {
                    assert(alive[s.len() - 1] && s[s.len() - 1].0 == id);
                }
            }
            if exists|i: int| 0 <= i < s.len() && alive[i] && s[i].0 == id {
                let i = choose|i: int| 0 <= i < s.len() && alive[i] && s[i].0 == id;
                if i < p.len() {
                    assert(a[i] && p[i].0 == id);
                    assert(ids_of(rest).contains(id));
                    let k = choose|k: int| 0 <= k < ids_of(rest).len() && ids_of(rest)[k] == id;
                    assert(ids_of(cur)[k] == id);
                } else {
                    assert(ids_of(cur)[cur.len() - 1] == id);
                }
            }
        }
        if unique_ids(s) {
            assert(unique_ids(p));
            assert forall|i: int, j: int| 0 <= i < j < cur.len() implies #[trigger] cur[i].0
                != #[trigger] cur[j].0 by {
                if j == rest.len() && alive.last() {
                    assert(ids_of(rest)[i] == cur[i].0);
                    assert(ids_of(rest).contains(cur[i].0));
                    let m = choose|m: int| 0 <= m < p.len() && a[m] && p[m].0 == cur[i].0;
                    assert(s[m].0 != s[s.len() - 1].0);
                }
            }
        }
    }
}

} // verus!
