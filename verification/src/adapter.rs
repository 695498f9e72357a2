//! The adapter from a resumable computation to "next item or end".

use vstd::prelude::*;
use crate::generator::{
    lemma_yields_rest, lemma_yields_unique, shifted, yields, Generator, GeneratorState,
};

verus! {

/// Where an adapter stands in the life of its computation.
pub enum Phase {
    /// The adapter has not resumed the computation yet.
    NotStarted,
    /// The computation is paused at a yield point.
    Suspended,
    /// The computation has run to its end.
    Completed,
}

/// Owns one resumable computation and hands out its items one at a time.
///
/// The adapter is single-pass and forward-only.  At run time it is the
/// computation and nothing else: its model is the script of the computation
/// it owns, and a ghost flag that tells whether it has resumed it.
pub struct YieldIter<G> {
    generator: G,
    started: Ghost<bool>,
}

impl<G: Generator> YieldIter<G> {
    /// The computation that the adapter owns.
    pub closed spec fn inner(&self) -> &G {
        &self.generator
    }

    /// Whether the adapter has resumed its computation at least once.
    pub closed spec fn started(&self) -> bool {
        self.started@
    }

    /// The adapter's place in its life: not started, paused at a yield
    /// point, or completed.
    pub open spec fn phase(&self) -> Phase {
        if self.completed() {
            Phase::Completed
        } else if self.started() {
            Phase::Suspended
        } else {
            Phase::NotStarted
        }
    }

    /// Whether the wrapped computation has run to its end.
    pub open spec fn completed(&self) -> bool {
        self.inner().completed()
    }

    /// What call number `i` of `next` from this state hands out.
    pub open spec fn ahead(&self, i: int) -> Option<G::Yield> {
        self.inner().ahead(i)
    }

    /// The adapter hands out exactly the items of `s`, in order, and then
    /// signals the end.
    pub open spec fn yields(&self, s: Seq<G::Yield>) -> bool {
        yields(self.inner(), s)
    }

    /// Wraps a computation.  The adapter takes it over as it is: what the
    /// computation would hand out is what the adapter hands out.
    #[inline]
    pub fn new(generator: G) -> (it: Self)
        ensures
            *it.inner() == generator,
            !it.started(),
    {
        YieldIter { generator, started: Ghost(false) }
    }

    /// Wraps a computation on the caller's word that nothing else will touch
    /// it from now on.  A computation here is a plain value that owns its
    /// state, so this constructor promises exactly what `new` promises.
    #[inline]
    pub fn new_unchecked(generator: G) -> (it: Self)
        ensures
            *it.inner() == generator,
            !it.started(),
    {
        YieldIter { generator, started: Ghost(false) }
    }

    /// Advances the computation by one step: `Some` with the item that it
    /// yielded, or `None` when it ran to its end.  The final value of the
    /// computation is dropped.
    ///
    /// The bare adapter does not remember the end: once `None` came back it
    /// must not be asked again.
    #[inline]
    pub fn next(&mut self) -> (r: Option<G::Yield>)
        requires
            !old(self).completed(),
        ensures
            r == old(self).ahead(0),
            final(self).completed() == (r is None),
            r is Some ==> shifted(old(self).inner(), final(self).inner()),
            final(self).started(),
    {
        self.started = Ghost(true);
        match self.generator.resume() {
            GeneratorState::Yielded(y) => Some(y),
            GeneratorState::Complete(_) => None,
        }
    }

    /// Runs the computation to its end and returns everything it yielded,
    /// in the order in which it was yielded.
    ///
    /// Only a computation that completes after finitely many items can be
    /// drained.
    pub fn into_vec(self) -> (v: Vec<G::Yield>)
        requires
            exists|s: Seq<G::Yield>| self.yields(s),
        ensures
            self.yields(v@),
            forall|s: Seq<G::Yield>| self.yields(s) ==> v@ == s,
    {
        let ghost s = choose|s: Seq<G::Yield>| self.yields(s);
        let mut it = self;
        let mut out: Vec<G::Yield> = Vec::new();
        let mut more = true;
        assert(s.skip(0) =~= s);
        while more
            invariant
                out@.len() <= s.len(),
                out@ =~= s.take(out@.len() as int),
                more ==> it.yields(s.skip(out@.len() as int)),
                !more ==> out@.len() == s.len(),
            decreases s.len() - out@.len() + if more { 1int } else { 0int },
        {
            let ghost pre = it;
            let ghost rest = s.skip(out@.len() as int);
            match it.next() {
                Some(y) => {
                    proof {
                        if rest.len() == 0 {
                            assert(pre.ahead(0) is None);
                        }
                        assert(pre.ahead(0) == Some(rest[0]));
                        lemma_yields_rest(pre.inner(), it.inner(), rest);
                        assert(rest.skip(1) =~= s.skip(out@.len() as int + 1));
                    }
                    out.push(y);
                },
                None => {
                    proof {
                        if rest.len() > 0 {
                            assert(pre.ahead(0) == Some(rest[0]));
                        }
                    }
                    more = false;
                },
            }
        }
        assert(out@ =~= s);
        assert forall|t: Seq<G::Yield>| self.yields(t) implies out@ == t by {
            lemma_yields_unique(self.inner(), out@, t);
        }
        out
    }
}

} // verus!
