use crate::engine::{batch, dedup, removes_first, Action, DiffEngine};
use std::hash::Hash;
use vstd::prelude::*;
use vstd::std_specs::hash::obeys_key_model;

verus! {

/// What one poll of the upstream sequence gave.
pub enum Upstream<T> {
    /// The upstream is not ready yet.
    Pending,
    /// The upstream has ended for good.
    Finished,
    /// The upstream yielded a snapshot.
    Snapshot(Vec<T>),
}

/// What the adapter does next on a pull.
pub enum Step<T> {
    /// Deliver this action.
    Ready(Action<T>),
    /// Report "not yet ready"; the upstream's waker will bring the next pull.
    Pending,
    /// Report the end of the sequence.
    Finished,
    /// Poll the upstream once and hand its answer to `on_upstream`.
    PollUpstream,
}

/// A batch in delivery order: each transitioning element once, removals first.
pub open spec fn delivers<T>(q: Seq<Action<T>>, prev: Set<T>, next: Set<T>) -> bool {
    &&& q.no_duplicates()
    &&& q.to_set() == batch(prev, next)
    &&& removes_first(q)
}

/// The actions of a batch that a step and the queue left behind it hold together.
pub open spec fn emitted<T>(r: Step<T>, rest: Seq<Action<T>>) -> Seq<Action<T>> {
    match r {
        Step::Ready(a) => seq![a] + rest,
        _ => rest,
    }
}

/// Turns an upstream sequence of snapshots into a sequence of membership actions.
pub struct StreamDiff<S, T> {
    stream: S,
    inner: DiffEngine<T>,
    ended: bool,
}

impl<S, T: Copy + Eq + Hash> StreamDiff<S, T> {
    /// The upstream sequence.
    pub closed spec fn upstream(&self) -> S {
        self.stream
    }

    /// The membership of the last snapshot taken from upstream.
    pub closed spec fn current(&self) -> Set<T> {
        self.inner.current()
    }

    /// The actions of the current batch not yet delivered, in delivery order.
    pub closed spec fn pending(&self) -> Seq<Action<T>> {
        self.inner.pending()
    }

    /// Whether the upstream has ended; no pull yields anything after that.
    pub closed spec fn is_ended(&self) -> bool {
        self.ended
    }

    /// The engine is well formed, and nothing stays queued once the upstream ended.
    pub closed spec fn wf(&self) -> bool {
        &&& self.inner.wf()
        &&& self.ended ==> self.inner.pending().len() == 0
    }

    /// An adapter around `stream` with empty membership and nothing queued.
    pub fn new(stream: S) -> (r: Self)
        ensures
            r.wf(),
            r.upstream() == stream,
            r.current() == Set::<T>::empty(),
            r.pending() == Seq::<Action<T>>::empty(),
            !r.is_ended(),
    {
        StreamDiff { stream, inner: DiffEngine::new(), ended: false }
    }

    /// The upstream sequence, to read its hints.
    pub fn upstream_ref(&self) -> (r: &S)
        ensures
            *r == self.upstream(),
    {
        &self.stream
    }

    /// The upstream sequence, to be polled when a step asks for it.
    pub fn upstream_mut(&mut self) -> (r: &mut S)
        ensures
            *r == old(self).upstream(),
    {
        &mut self.stream
    }

    /// Whether the next thing to do is to poll the upstream.
    pub fn wants_upstream(&self) -> (r: bool)
        requires
            self.wf(),
        ensures
            r == (self.pending().len() == 0 && !self.is_ended()),
    {
        self.inner.pending_is_empty() && !self.ended
    }

    /// Starts a pull: a queued action comes first; with none queued the pull ends
    /// where the upstream has ended, and asks for the upstream otherwise.
    pub fn pull(&mut self) -> (r: Step<T>)
        requires
            old(self).wf(),
        ensures
            final(self).wf(),
            final(self).upstream() == old(self).upstream(),
            final(self).current() == old(self).current(),
            final(self).is_ended() == old(self).is_ended(),
            old(self).pending().len() > 0 ==> r == Step::Ready(old(self).pending()[0])
                && final(self).pending() == old(self).pending().drop_first(),
            old(self).pending().len() == 0 ==> final(self).pending() == old(self).pending(),
            old(self).pending().len() == 0 && old(self).is_ended() ==> r is Finished,
            old(self).pending().len() == 0 && !old(self).is_ended() ==> r is PollUpstream,
    {
        match self.inner.next_from_queue() {
            Some(action) => Step::Ready(action),
            None => {
                if self.ended {
                    Step::Finished
                } else {
                    Step::PollUpstream
                }
            },
        }
    }

    /// Goes on with a pull once the upstream has answered `event`: not ready is
    /// passed on, the upstream's end ends this sequence for good, and a snapshot is
    /// diffed against the current membership and the pull goes on with its batch.
    pub fn on_upstream(&mut self, event: Upstream<T>) -> (r: Step<T>)
        requires
            old(self).wf(),
            old(self).pending().len() == 0,
            !old(self).is_ended(),
            obeys_key_model::<T>(),
        ensures
            final(self).wf(),
            final(self).upstream() == old(self).upstream(),
            match event {
                Upstream::Pending => {
                    &&& r is Pending
                    &&& final(self).current() == old(self).current()
                    &&& final(self).pending().len() == 0
                    &&& !final(self).is_ended()
                },
                Upstream::Finished => {
                    &&& r is Finished
                    &&& final(self).current() == old(self).current()
                    &&& final(self).pending().len() == 0
                    &&& final(self).is_ended()
                },
                Upstream::Snapshot(v) => {
                    &&& final(self).current() == dedup(v@)
                    &&& !final(self).is_ended()
                    &&& r is Ready || r is PollUpstream
                    &&& (r is PollUpstream <==> batch(old(self).current(), dedup(v@)).is_empty())
                    &&& delivers(emitted(r, final(self).pending()), old(self).current(), dedup(v@))
                },
            },
    {
        match event {
            Upstream::Pending => Step::Pending,
            Upstream::Finished => {
                self.ended = true;
                Step::Finished
            },
            Upstream::Snapshot(v) => {
                let ghost prev = self.inner.current();
                self.inner.update(v);
                let ghost q = self.inner.pending();
                let r = self.pull();
                proof {
                    if q.len() > 0 {
                        assert(emitted(r, self.pending()) =~= q);
                        assert(q.to_set().contains(q[0]));
                    } else {
                        assert(q.to_set() =~= Set::<Action<T>>::empty());
                    }
                    if batch(prev, dedup(v@)).is_empty() {
                        assert(q.len() == 0) by {
                            if q.len() > 0 {
                                assert(q.to_set().contains(q[0]));
                            }
                        }
                    }
                }
                r
            },
        }
    }
}

/// Wraps an upstream sequence of snapshots into a `StreamDiff`.
pub trait StreamDiffExt<T: Copy + Eq + Hash>: Sized {
    fn diff(self) -> (r: StreamDiff<Self, T>)
        ensures
            r.wf(),
            r.upstream() == self,
            r.current() == Set::<T>::empty(),
            r.pending() == Seq::<Action<T>>::empty(),
            !r.is_ended(),
    ;
}

impl<S, T: Copy + Eq + Hash> StreamDiffExt<T> for S {
    fn diff(self) -> (r: StreamDiff<Self, T>) {
        StreamDiff::new(self)
    }
}

} // verus!
