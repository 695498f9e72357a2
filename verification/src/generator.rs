//! The resumable-computation abstraction and its mathematical model.

use vstd::prelude::*;

verus! {

/// What one resumption of a computation hands back.
pub enum GeneratorState<Y, R> {
    /// The computation suspended itself at a yield point with this value.
    Yielded(Y),
    /// The computation ran to its end with this final value.
    Complete(R),
}

/// A resumable computation, written as an explicit state machine.
///
/// The model of a state is its script: `ahead(i)` is what the resumption
/// number `i` from this state hands out, `Some` at a yield point and `None`
/// when the computation runs to its end there.  Nothing bounds the script, so
/// a computation that never completes is modelled by a script without `None`.
pub trait Generator: Sized {
    /// The type of the values handed out at yield points.
    type Yield;

    /// The type of the final value.
    type Return;

    /// Whether the computation has run to its end.
    spec fn completed(&self) -> bool;

    /// What resumption number `i` from this state hands out.
    spec fn ahead(&self, i: int) -> Option<Self::Yield>;

    /// Advances the computation to its next yield point or to its end.
    ///
    /// A computation that has completed must not be resumed again.
    fn resume(&mut self) -> (r: GeneratorState<Self::Yield, Self::Return>)
        requires
            !old(self).completed(),
        ensures
            match r {
                GeneratorState::Yielded(y) => old(self).ahead(0) == Some(y),
                GeneratorState::Complete(_) => old(self).ahead(0) is None,
            },
            final(self).completed() == (r is Complete),
            r is Yielded ==> forall|i: int|
                0 <= i ==> #[trigger] final(self).ahead(i) == old(self).ahead(i + 1),
    ;
}

/// The script of `post` is the script of `pre` without its first entry.
pub open spec fn shifted<G: Generator>(pre: &G, post: &G) -> bool {
    forall|i: int| 0 <= i ==> #[trigger] post.ahead(i) == pre.ahead(i + 1)
}

/// The computation `g` is still running, yields exactly the items of `s`, in
/// order, and then completes.
pub open spec fn yields<G: Generator>(g: &G, s: Seq<G::Yield>) -> bool {
    &&& !g.completed()
    &&& forall|i: int| 0 <= i < s.len() ==> #[trigger] g.ahead(i) == Some(s[i])
    &&& g.ahead(s.len() as int) is None
}

/// A computation yields at most one finite sequence: two sequences that both
/// describe what `g` yields before it completes are equal.
pub proof fn lemma_yields_unique<G: Generator>(g: &G, a: Seq<G::Yield>, b: Seq<G::Yield>)
    requires
        yields(g, a),
        yields(g, b),
    ensures
        a == b,
{
    if a.len() < b.len() {
        assert(g.ahead(a.len() as int) == Some(b[a.len() as int]));
    }
    if b.len() < a.len() {
        assert(g.ahead(b.len() as int) == Some(a[b.len() as int]));
    }
    assert forall|i: int| 0 <= i < a.len() implies a[i] == b[i] by {
        assert(g.ahead(i) == Some(a[i]));
        assert(g.ahead(i) == Some(b[i]));
    }
    assert(a =~= b);
}

/// After one yield the computation yields the rest of the sequence.
pub proof fn lemma_yields_rest<G: Generator>(pre: &G, post: &G, s: Seq<G::Yield>)
    requires
        yields(pre, s),
        s.len() > 0,
        shifted(pre, post),
        !post.completed(),
    ensures
        yields(post, s.skip(1)),
{
    let rest = s.skip(1);
    assert forall|i: int| 0 <= i < rest.len() implies #[trigger] post.ahead(i) == Some(rest[i]) by {
        assert(post.ahead(i) == pre.ahead(i + 1));
        assert(pre.ahead(i + 1) == Some(s[i + 1]));
    }
    assert(post.ahead(rest.len() as int) == pre.ahead(rest.len() as int + 1));
}

} // verus!
