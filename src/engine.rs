use std::collections::HashSet;
use std::collections::VecDeque;
use std::hash::Hash;
use vstd::prelude::*;
use vstd::std_specs::hash::obeys_key_model;

verus! {

broadcast use vstd::std_specs::hash::group_hash_axioms;

/// One element's membership transition between two consecutive snapshots.
#[derive(Debug, PartialEq, Eq, Hash)]
pub enum Action<T> {
    Add(T),
    Remove(T),
}

/// The set that a snapshot stands for: duplicates collapse, order is forgotten.
pub open spec fn dedup<T>(snapshot: Seq<T>) -> Set<T> {
    snapshot.to_set()
}

/// The actions that lead from membership `prev` to membership `next`: an `Add` for
/// each element that appears, a `Remove` for each element that disappears.
pub open spec fn batch<T>(prev: Set<T>, next: Set<T>) -> Set<Action<T>> {
    Set::new(
        |a: Action<T>|
            match a {
                Action::Add(x) => next.contains(x) && !prev.contains(x),
                Action::Remove(x) => prev.contains(x) && !next.contains(x),
            },
    )
}

/// Delivery policy of a batch: every `Remove` comes before every `Add`.
pub open spec fn removes_first<T>(q: Seq<Action<T>>) -> bool {
    forall|i: int, j: int| 0 <= i < j < q.len() && (#[trigger] q[i]) is Add ==> (#[trigger] q[j]) is Add
}

proof fn lemma_push_to_set<T>(s: Seq<T>, x: T)
    ensures
        s.push(x).to_set() == s.to_set().insert(x),
{
    assert(s.push(x) == s + seq![x]);
    Seq::lemma_to_set_insert_commutes(s, x);
}

/// Tracks the membership of the last snapshot and the actions not yet delivered.
pub struct DiffEngine<T> {
    state: HashSet<T>,
    members: Vec<T>,
    action_queue: VecDeque<Action<T>>,
}

impl<T: Copy + Eq + Hash> DiffEngine<T> {
    /// The membership of the last snapshot processed.
    pub closed spec fn current(&self) -> Set<T> {
        self.state@
    }

    /// The actions queued and not yet delivered, in delivery order.
    pub closed spec fn pending(&self) -> Seq<Action<T>> {
        self.action_queue@
    }

    /// The membership is listed once over, element by element, beside the set.
    pub closed spec fn wf(&self) -> bool {
        &&& self.members@.no_duplicates()
        &&& self.members@.to_set() == self.state@
    }

    /// An engine with empty membership and nothing queued.
    pub fn new() -> (r: Self)
        ensures
            r.wf(),
            r.current() == Set::<T>::empty(),
            r.pending() == Seq::<Action<T>>::empty(),
    {
        let r = DiffEngine { state: HashSet::new(), members: Vec::new(), action_queue: VecDeque::new() };
        assert(r.members@.to_set() =~= Set::<T>::empty());
        r
    }

    /// Whether nothing is queued.
    pub fn pending_is_empty(&self) -> (r: bool)
        ensures
            r == (self.pending().len() == 0),
    {
        self.action_queue.len() == 0
    }

    /// Removes and returns the first queued action, or `None` when nothing is queued.
    pub fn next_from_queue(&mut self) -> (r: Option<Action<T>>)
        ensures
            final(self).wf() == old(self).wf(),
            final(self).current() == old(self).current(),
            old(self).pending().len() == 0 ==> r is None && final(self).pending() == old(
                self,
            ).pending(),
            old(self).pending().len() > 0 ==> r == Some(old(self).pending()[0])
                && final(self).pending() == old(self).pending().drop_first(),
    {
        self.action_queue.pop_front()
    }

    /// Takes a new snapshot: queues one `Remove` for each element that left (first)
    /// and one `Add` for each element that arrived (after them), and makes the
    /// snapshot's set the current membership. Within each group the order is that
    /// of the elements' first appearance in their snapshot.
    pub fn update(&mut self, snapshot: Vec<T>)
        requires
            old(self).wf(),
            old(self).pending().len() == 0,
            obeys_key_model::<T>(),
        ensures
            final(self).wf(),
            final(self).current() == dedup(snapshot@),
            final(self).pending().no_duplicates(),
            final(self).pending().to_set() == batch(old(self).current(), dedup(snapshot@)),
            removes_first(final(self).pending()),
    {
        let mut next: HashSet<T> = HashSet::new();
        let mut next_members: Vec<T> = Vec::new();
        let n = snapshot.len();
        for i in 0..n
            invariant
                n == snapshot@.len(),
                obeys_key_model::<T>(),
                next@ == snapshot@.take(i as int).to_set(),
                next_members@.no_duplicates(),
                next_members@.to_set() == next@,
        {
            proof {
                lemma_push_to_set(snapshot@.take(i as int), snapshot@[i as int]);
                assert(snapshot@.take(i as int).push(snapshot@[i as int]) == snapshot@.take(
                    i + 1,
                ));
            }
            let x = snapshot[i];
            let ghost n0 = next@;
            let ghost m0 = next_members@;
            let fresh = next.insert(x);
            assert(next@ == n0.insert(x));
            assert(snapshot@.take(i as int).push(x).to_set() == n0.insert(x));
            if fresh {
                proof {
                    lemma_push_to_set(next_members@, x);
                }
                next_members.push(x);
            }
            assert(next@ =~= snapshot@.take(i + 1).to_set());
            assert(next_members@.to_set() =~= next@) by {
                if !fresh {
                    assert(n0.contains(x));
                    assert(n0.insert(x) =~= n0);
                }
            }
        }
        assert(snapshot@.take(n as int) == snapshot@);
        let ghost prev = self.state@;
        let ghost target = batch(prev, next@);
        let mut queue: VecDeque<Action<T>> = VecDeque::new();
        let m = self.members.len();
        for i in 0..m
            invariant
                m == self.members@.len(),
                obeys_key_model::<T>(),
                self.wf(),
                prev == self.state@,
                target == batch(prev, next@),
                queue@.no_duplicates(),
                forall|j: int|
                    0 <= j < queue@.len() ==> (#[trigger] queue@[j]) is Remove && target.contains(
                        queue@[j],
                    ) && self.members@.take(i as int).contains(queue@[j]->Remove_0),
                forall|k: int|
                    0 <= k < i && target.contains(Action::Remove(#[trigger] self.members@[k]))
                        ==> queue@.contains(Action::Remove(self.members@[k])),
        {
            let x = self.members[i];
            let ghost q0 = queue@;
            if !next.contains(&x) {
                proof {
                    assert forall|j: int| 0 <= j < queue@.len() implies queue@[j] != Action::Remove(
                        x,
                    ) by {
                        let k = choose|k: int| 0 <= k < i && self.members@[k] == queue@[j]->Remove_0;
                        assert(self.members@.take(i as int)[k] == self.members@[k]);
                    }
                }
                queue.push_back(Action::Remove(x));
                assert(queue@[queue@.len() - 1] == Action::Remove(x));
            }
            proof {
                assert forall|k: int|
                    0 <= k < i + 1 && target.contains(Action::Remove(#[trigger] self.members@[k]))
                        implies queue@.contains(Action::Remove(self.members@[k])) by {
                    if k < i {
                        let j = choose|j: int| 0 <= j < q0.len() && q0[j] == Action::Remove(self.members@[k]);
                        assert(queue@[j] == q0[j]);
                    }
                }
                assert forall|j: int| 0 <= j < queue@.len() implies self.members@.take(i + 1).contains(
                    queue@[j]->Remove_0,
                ) by {
                    if j < queue@.len() - 1 || next@.contains(x) {
                        let k = choose|k: int| 0 <= k < i && self.members@.take(i as int)[k] == queue@[j]->Remove_0;
                        assert(self.members@.take(i + 1)[k] == queue@[j]->Remove_0);
                    } else {
                        assert(self.members@.take(i + 1)[i as int] == x);
                    }
                }
            }
        }
        proof {
            assert forall|y: T| target.contains(Action::Remove(y)) implies queue@.contains(
                Action::Remove(y),
            ) by {
                assert(self.members@.to_set().contains(y));
                let k = choose|k: int| 0 <= k < m && self.members@[k] == y;
            }
        }
        let ghost removals = queue@;
        let nm = next_members.len();
        for i in 0..nm
            invariant
                nm == next_members@.len(),
                obeys_key_model::<T>(),
                next_members@.no_duplicates(),
                next_members@.to_set() == next@,
                prev == self.state@,
                target == batch(prev, next@),
                queue@.no_duplicates(),
                queue@.len() >= removals.len(),
                queue@.take(removals.len() as int) == removals,
                forall|j: int| 0 <= j < removals.len() ==> (#[trigger] removals[j]) is Remove,
                forall|j: int| 0 <= j < queue@.len() ==> target.contains(#[trigger] queue@[j]),
                forall|j: int|
                    removals.len() <= j < queue@.len() ==> (#[trigger] queue@[j]) is Add
                        && next_members@.take(i as int).contains(queue@[j]->Add_0),
                forall|y: T| target.contains(Action::Remove(y)) ==> removals.contains(Action::Remove(y)),
                forall|k: int|
                    0 <= k < i && target.contains(Action::Add(#[trigger] next_members@[k]))
                        ==> queue@.contains(Action::Add(next_members@[k])),
        {
            let x = next_members[i];
            let ghost q0 = queue@;
            proof {
                assert(next_members@.to_set().contains(x));
            }
            if !self.state.contains(&x) {
                proof {
                    assert forall|j: int| 0 <= j < queue@.len() implies queue@[j] != Action::Add(
                        x,
                    ) by {
                        if j >= removals.len() {
                            let k = choose|k: int| 0 <= k < i && next_members@.take(i as int)[k] == queue@[j]->Add_0;
                            assert(next_members@[k] == next_members@.take(i as int)[k]);
                        } else {
                            assert(queue@[j] == removals[j]);
                        }
                    }
                }
                queue.push_back(Action::Add(x));
                assert(queue@[queue@.len() - 1] == Action::Add(x));
            }
            proof {
                assert forall|k: int|
                    0 <= k < i + 1 && target.contains(Action::Add(#[trigger] next_members@[k]))
                        implies queue@.contains(Action::Add(next_members@[k])) by {
                    if k < i {
                        let j = choose|j: int| 0 <= j < q0.len() && q0[j] == Action::Add(next_members@[k]);
                        assert(queue@[j] == q0[j]);
                    }
                }
                assert(queue@.take(removals.len() as int) =~= removals);
                assert forall|j: int| removals.len() <= j < queue@.len() implies next_members@.take(i + 1).contains(
                    queue@[j]->Add_0,
                ) by {
                    if j < queue@.len() - 1 || prev.contains(x) {
                        let k = choose|k: int| 0 <= k < i && next_members@.take(i as int)[k] == queue@[j]->Add_0;
                        assert(next_members@.take(i + 1)[k] == queue@[j]->Add_0);
                    } else {
                        assert(next_members@.take(i + 1)[i as int] == x);
                    }
                }
            }
        }
        proof {
            assert forall|j: int| 0 <= j < removals.len() implies queue@[j] is Remove by {
                assert(queue@[j] == queue@.take(removals.len() as int)[j]);
            }
            assert forall|a: Action<T>| target.contains(a) implies queue@.contains(a) by {
                match a {
                    Action::Remove(y) => {
                        let j = choose|j: int| 0 <= j < removals.len() && removals[j] == a;
                        assert(queue@[j] == queue@.take(removals.len() as int)[j]);
                    },
                    Action::Add(y) => {
                        assert(next_members@.to_set().contains(y));
                        let k = choose|k: int| 0 <= k < nm && next_members@[k] == y;
                    },
                }
            }
            assert(queue@.to_set() =~= target);
        }
        self.action_queue = queue;
        self.state = next;
        self.members = next_members;
    }
}

} // verus!
