use crate::adapter::delivers;
use crate::engine::{batch, dedup, Action};
use vstd::prelude::*;

verus! {

/// The membership after one action.
pub open spec fn apply<T>(s: Set<T>, a: Action<T>) -> Set<T> {
    match a {
        Action::Add(x) => s.insert(x),
        Action::Remove(x) => s.remove(x),
    }
}

/// The membership after a sequence of actions, applied in order.
pub open spec fn replay<T>(s: Set<T>, q: Seq<Action<T>>) -> Set<T>
    decreases q.len(),
{
    if q.len() == 0 {
        s
    } else {
        replay(apply(s, q[0]), q.drop_first())
    }
}

/// Every action of a sequence of batches, batch after batch.
pub open spec fn concat_batches<T>(b: Seq<Seq<Action<T>>>) -> Seq<Action<T>>
    decreases b.len(),
{
    if b.len() == 0 {
        Seq::empty()
    } else {
        concat_batches(b.drop_last()) + b.last()
    }
}

/// The membership before snapshot `k`: empty before the first.
pub open spec fn before<T>(snaps: Seq<Seq<T>>, k: int) -> Set<T> {
    if k == 0 {
        Set::empty()
    } else {
        dedup(snaps[k - 1])
    }
}

/// The elements that a sequence of actions adds.
pub open spec fn added<T>(q: Seq<Action<T>>) -> Set<T> {
    Set::new(|x: T| q.contains(Action::Add(x)))
}

/// The elements that a sequence of actions removes.
pub open spec fn removed<T>(q: Seq<Action<T>>) -> Set<T> {
    Set::new(|x: T| q.contains(Action::Remove(x)))
}

proof fn lemma_replay_exclusive<T>(s: Set<T>, q: Seq<Action<T>>)
    requires
        forall|x: T| !(q.contains(Action::Add(x)) && q.contains(Action::Remove(x))),
    ensures
        replay(s, q) == s.difference(removed(q)).union(added(q)),
    decreases q.len(),
{
    if q.len() == 0 {
        assert(s.difference(removed(q)).union(added(q)) =~= s);
    } else {
        let rest = q.drop_first();
        assert forall|x: Action<T>| q.contains(x) <==> x == q[0] || rest.contains(x) by {
            if q.contains(x) && x != q[0] {
                let i = choose|i: int| 0 <= i < q.len() && q[i] == x;
                assert(rest[i - 1] == x);
            }
            if rest.contains(x) {
                let i = choose|i: int| 0 <= i < rest.len() && rest[i] == x;
                assert(q[i + 1] == x);
            }
        }
        assert forall|x: T| !(rest.contains(Action::Add(x)) && rest.contains(Action::Remove(x))) by {
            assert(rest.contains(Action::Add(x)) ==> q.contains(Action::Add(x)));
            assert(rest.contains(Action::Remove(x)) ==> q.contains(Action::Remove(x)));
        }
        lemma_replay_exclusive(apply(s, q[0]), rest);
        assert(q.contains(q[0]));
        assert(replay(s, q) =~= s.difference(removed(q)).union(added(q)));
    }
}

/// No delivered batch holds both the `Add` and the `Remove` of one element.
pub proof fn lemma_batch_exclusive<T>(prev: Set<T>, next: Set<T>, q: Seq<Action<T>>, x: T)
    requires
        delivers(q, prev, next),
    ensures
        !(q.contains(Action::Add(x)) && q.contains(Action::Remove(x))),
{
    assert(q.contains(Action::Add(x)) ==> q.to_set().contains(Action::Add(x)));
    assert(q.contains(Action::Remove(x)) ==> q.to_set().contains(Action::Remove(x)));
}

/// Replaying a delivered batch on the membership it started from gives the new
/// membership.
pub proof fn lemma_replay_batch<T>(prev: Set<T>, next: Set<T>, q: Seq<Action<T>>)
    requires
        delivers(q, prev, next),
    ensures
        replay(prev, q) == next,
{
    assert forall|x: T| !(q.contains(Action::Add(x)) && q.contains(Action::Remove(x))) by {
        lemma_batch_exclusive(prev, next, q, x);
    }
    lemma_replay_exclusive(prev, q);
    assert forall|x: T| added(q).contains(x) <==> next.contains(x) && !prev.contains(x) by {
        assert(q.contains(Action::Add(x)) <==> q.to_set().contains(Action::Add(x)));
    }
    assert forall|x: T| removed(q).contains(x) <==> prev.contains(x) && !next.contains(x) by {
        assert(q.contains(Action::Remove(x)) <==> q.to_set().contains(Action::Remove(x)));
    }
    assert(prev.difference(removed(q)).union(added(q)) =~= next);
}

/// Replaying two sequences of actions one after the other is replaying their
/// concatenation.
pub proof fn lemma_replay_concat<T>(s: Set<T>, a: Seq<Action<T>>, b: Seq<Action<T>>)
    ensures
        replay(s, a + b) == replay(replay(s, a), b),
    decreases a.len(),
{
    if a.len() > 0 {
        assert((a + b).drop_first() =~= a.drop_first() + b);
        lemma_replay_concat(apply(s, a[0]), a.drop_first(), b);
    } else {
        assert(a + b =~= b);
    }
}

/// For snapshots `snaps` whose batches, each drained in full, were `batches`:
/// replaying every action delivered through snapshot `k`, from the empty
/// membership, gives the set of snapshot `k`.
pub proof fn lemma_replay_reconstructs<T>(
    snaps: Seq<Seq<T>>,
    batches: Seq<Seq<Action<T>>>,
    k: int,
)
    requires
        snaps.len() == batches.len(),
        0 <= k < snaps.len(),
        forall|i: int|
            0 <= i < snaps.len() ==> delivers(#[trigger] batches[i], before(snaps, i), dedup(snaps[i])),
    ensures
        replay(Set::empty(), concat_batches(batches.take(k + 1))) == dedup(snaps[k]),
    decreases k,
{
    let upto = batches.take(k + 1);
    assert(upto.drop_last() =~= batches.take(k));
    assert(upto.last() == batches[k]);
    lemma_replay_concat(Set::empty(), concat_batches(batches.take(k)), batches[k]);
    if k == 0 {
        assert(batches.take(0) =~= Seq::<Seq<Action<T>>>::empty());
    } else {
        lemma_replay_reconstructs(snaps, batches, k - 1);
        assert(batches.take(k - 1 + 1) =~= batches.take(k));
    }
    lemma_replay_batch(before(snaps, k), dedup(snaps[k]), batches[k]);
}

/// A snapshot with the same set as the one before it gives no action.
pub proof fn lemma_unchanged_gives_nothing<T>(prev: Set<T>, next: Set<T>, q: Seq<Action<T>>)
    requires
        prev == next,
        delivers(q, prev, next),
    ensures
        batch(prev, next).is_empty(),
        q.len() == 0,
{
    assert(batch(prev, next) =~= Set::<Action<T>>::empty());
    if q.len() > 0 {
        assert(q.to_set().contains(q[0]));
    }
}

/// Reordering the elements of a snapshot does not change its batch.
pub proof fn lemma_reorder_same_batch<T>(prev: Set<T>, s1: Seq<T>, s2: Seq<T>)
    requires
        s1.to_multiset() == s2.to_multiset(),
    ensures
        batch(prev, dedup(s1)) == batch(prev, dedup(s2)),
{
    assert(dedup(s1) =~= dedup(s2)) by {
        assert forall|x: T| s1.contains(x) <==> s2.contains(x) by {
            s1.to_multiset_ensures();
            s2.to_multiset_ensures();
            assert(s1.contains(x) <==> s1.to_multiset().count(x) > 0);
            assert(s2.contains(x) <==> s2.to_multiset().count(x) > 0);
        }
    }
}

} // verus!
