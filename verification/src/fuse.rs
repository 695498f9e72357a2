//! Exhaustion latching: an adapter that remembers the end of its sequence.

use vstd::prelude::*;
use crate::adapter::{Phase, YieldIter};
use crate::generator::{yields, Generator};

verus! {

/// An adapter that keeps signalling the end once it has signalled it.
///
/// It decorates a [`YieldIter`] with one flag, set when the wrapped
/// computation completes.  With the flag set the computation is never
/// resumed again.
pub struct Fuse<G> {
    iter: YieldIter<G>,
    done: bool,
}

impl<G: Generator> Fuse<G> {
    /// The decorated adapter.
    pub closed spec fn inner(&self) -> &YieldIter<G> {
        &self.iter
    }

    /// Whether the end of the sequence has been signalled.
    pub closed spec fn exhausted(&self) -> bool {
        self.done
    }

    /// The flag is set whenever the wrapped computation has completed.
    pub open spec fn wf(&self) -> bool {
        self.inner().completed() ==> self.exhausted()
    }

    /// The adapter's place in its life.  Once the end has been signalled it
    /// is completed, whatever the computation would do if resumed again.
    pub open spec fn phase(&self) -> Phase {
        if self.exhausted() {
            Phase::Completed
        } else {
            self.inner().phase()
        }
    }

    /// What call number `i` of `next` from this state hands out: nothing
    /// once the end has been signalled, else what the computation has ahead.
    pub open spec fn ahead(&self, i: int) -> Option<G::Yield> {
        if self.exhausted() {
            None
        } else {
            self.inner().ahead(i)
        }
    }

    /// The adapter hands out exactly the items of `s`, in order, before it
    /// signals the end (again, where it already has).
    pub open spec fn yields(&self, s: Seq<G::Yield>) -> bool {
        if self.exhausted() {
            s.len() == 0
        } else {
            self.inner().yields(s)
        }
    }

    /// One call of `next` takes the state `pre` to the state `post` and
    /// hands out `r`.
    pub open spec fn next_step(pre: &Self, post: &Self, r: Option<G::Yield>) -> bool {
        &&& post.wf()
        &&& r == pre.ahead(0)
        &&& post.exhausted() == (r is None)
        &&& post.phase() == if r is None {
            Phase::Completed
        } else {
            Phase::Suspended
        }
        &&& pre.exhausted() ==> post.inner() == pre.inner()
        &&& r is Some ==> forall|i: int| 0 <= i ==> #[trigger] post.ahead(i) == pre.ahead(i + 1)
    }

    /// Decorates an adapter whose computation has not completed.
    pub fn new(iter: YieldIter<G>) -> (it: Self)
        requires
            !iter.completed(),
        ensures
            it.wf(),
            !it.exhausted(),
            *it.inner() == iter,
            it.phase() == iter.phase(),
    {
        Fuse { iter, done: false }
    }

    /// Hands out the next item, or `None` at the end of the sequence and on
    /// every call after that.
    pub fn next(&mut self) -> (r: Option<G::Yield>)
        requires
            old(self).wf(),
        ensures
            Self::next_step(old(self), final(self), r),
    {
        if self.done {
            return None;
        }
        let r = self.iter.next();
        if r.is_none() {
            self.done = true;
        }
        r
    }

    /// Hands out everything that is left, in order.  After the end has been
    /// signalled nothing is left.
    ///
    /// Only a computation that completes after finitely many items can be
    /// drained.
    pub fn into_vec(self) -> (v: Vec<G::Yield>)
        requires
            self.wf(),
            exists|s: Seq<G::Yield>| self.yields(s),
        ensures
            self.yields(v@),
            forall|s: Seq<G::Yield>| self.yields(s) ==> v@ == s,
    {
        if self.done {
            Vec::new()
        } else {
            self.iter.into_vec()
        }
    }

    /// Once `next` has signalled the end, every later call signals it too.
    ///
    /// `states` are the states that a run of calls of `next` goes through
    /// and `results` what the calls hand out.  If call `j` handed out
    /// `None`, so does every call `k` after it.
    pub proof fn lemma_end_is_permanent(
        states: Seq<Self>,
        results: Seq<Option<G::Yield>>,
        j: int,
        k: int,
    )
        requires
            states.len() == results.len() + 1,
            forall|n: int|
                0 <= n < results.len() ==> Self::next_step(
                    &#[trigger] states[n],
                    &states[n + 1],
                    results[n],
                ),
            0 <= j <= k < results.len(),
            results[j] is None,
        ensures
            results[k] is None,
            states[k + 1].exhausted(),
        decreases k - j,
    {
        assert(Self::next_step(&states[k], &states[k + 1], results[k]));
        if j < k {
            Self::lemma_end_is_permanent(states, results, j, k - 1);
        }
    }

    /// While a run of calls of `next` is within the first `k` items of the
    /// computation, the script of state `k` is the script of the first
    /// state, `k` entries on.
    proof fn lemma_script_advances(
        states: Seq<Self>,
        results: Seq<Option<G::Yield>>,
        v: Seq<G::Yield>,
        k: int,
    )
        requires
            states.len() == results.len() + 1,
            forall|n: int|
                0 <= n < results.len() ==> Self::next_step(
                    &#[trigger] states[n],
                    &states[n + 1],
                    results[n],
                ),
            states[0].yields(v),
            0 <= k <= v.len(),
            k <= results.len(),
        ensures
            forall|i: int| 0 <= i ==> #[trigger] states[k].ahead(i) == states[0].ahead(k + i),
        decreases k,
    {
        if k > 0 {
            Self::lemma_script_advances(states, results, v, k - 1);
            assert(Self::next_step(&states[k - 1], &states[k], results[k - 1]));
            assert(states[k - 1].ahead(0) == states[0].ahead(k - 1 + 0));
            assert(states[0].inner().ahead(k - 1) == Some(v[k - 1]));
            assert forall|i: int| 0 <= i implies #[trigger] states[k].ahead(i) == states[0].ahead(
                k + i,
            ) by {
                assert(states[k].ahead(i) == states[k - 1].ahead(i + 1));
                assert(states[k - 1].ahead(i + 1) == states[0].ahead(k - 1 + (i + 1)));
            }
        }
    }

    /// A run of calls of `next` hands out the items that the computation
    /// yields, each once and in order, and after them `None` for ever.
    ///
    /// `states` are the states that the run goes through, `results` what the
    /// calls hand out, and `v` what the first state yields.  Call `k` hands
    /// out `v[k]` while there is one, and `None` from then on.
    pub proof fn lemma_next_follows_the_script(
        states: Seq<Self>,
        results: Seq<Option<G::Yield>>,
        v: Seq<G::Yield>,
        k: int,
    )
        requires
            states.len() == results.len() + 1,
            forall|n: int|
                0 <= n < results.len() ==> Self::next_step(
                    &#[trigger] states[n],
                    &states[n + 1],
                    results[n],
                ),
            states[0].yields(v),
            0 <= k < results.len(),
        ensures
            results[k] == if k < v.len() {
                Some(v[k])
            } else {
                None
            },
    {
        let m: int = if k < v.len() {
            k
        } else {
            v.len() as int
        };
        Self::lemma_script_advances(states, results, v, m);
        assert(Self::next_step(&states[m], &states[m + 1], results[m]));
        assert(states[m].ahead(0) == states[0].ahead(m + 0));
        if k < v.len() {
            assert(states[0].inner().ahead(k) == Some(v[k]));
        } else {
            assert(results[m] is None);
            Self::lemma_end_is_permanent(states, results, m, k);
        }
    }
}

/// Wraps the body of a resumable computation and latches its end: the
/// result hands out what the body yields and then `None` for ever.
pub fn generator<G: Generator>(body: G) -> (it: Fuse<G>)
    requires
        !body.completed(),
    ensures
        it.wf(),
        !it.exhausted(),
        *it.inner().inner() == body,
        it.phase() == Phase::NotStarted,
        forall|s: Seq<G::Yield>| it.yields(s) == yields(&body, s),
{
    Fuse::new(YieldIter::new(body))
}

} // verus!
