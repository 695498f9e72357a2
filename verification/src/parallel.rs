//! The bridge to data-parallel iteration.
//!
//! Nothing here runs in parallel.  The whole sequence is drained first, on
//! the calling thread, and the finished vector is handed to rayon, which owns
//! the workers and the scheduling from there on.

use vstd::prelude::*;
use crate::adapter::YieldIter;
use crate::generator::{lemma_yields_unique, Generator};

verus! {

/// rayon's parallel iterator that moves the items out of a vector.
#[verifier::external_type_specification]
#[verifier::external_body]
#[verifier::reject_recursive_types(T)]
pub struct ExVecIntoIter<T>(rayon::vec::IntoIter<T>);

/// The items that a parallel iterator over a vector holds, by their index in
/// that vector.  This is the order in which an indexed consumer, such as a
/// collect into a vector, sees them, however many workers there are.
pub uninterp spec fn par_items(it: rayon::vec::IntoIter<u64>) -> Seq<u64>;

/// Calls rayon's `IntoParallelIterator::into_par_iter` on a `Vec`.
///
/// Believed, not proved: the parallel iterator holds the vector that it was
/// made from, item for item and in the same order.  rayon builds it by
/// moving the vector into the iterator unchanged.
#[verifier::external_body]
fn vec_into_par_iter(v: Vec<u64>) -> (it: rayon::vec::IntoIter<u64>)
    ensures
        par_items(it) == v@,
{
    rayon::iter::IntoParallelIterator::into_par_iter(v)
}

impl<G: Generator<Yield = u64>> YieldIter<G> {
    /// Drains the adapter into a vector and hands that vector to rayon: the
    /// parallel iterator holds every item that the computation yields, in
    /// the order in which `into_vec` would return them.
    ///
    /// Only a computation that completes after finitely many items can be
    /// converted.
    pub fn into_par_iter(self) -> (it: rayon::vec::IntoIter<u64>)
        requires
            exists|s: Seq<u64>| self.yields(s),
        ensures
            self.yields(par_items(it)),
            forall|s: Seq<u64>| self.yields(s) ==> par_items(it) == s,
    {
        vec_into_par_iter(self.into_vec())
    }

    /// The parallel path and the sequential path agree.  Where `drained` is
    /// what `into_vec` returns for an adapter and `par` what the iterator of
    /// `into_par_iter` holds for it, the two are the same sequence, and so
    /// the same multiset of items, however many items there are.
    pub proof fn lemma_parallel_agrees(&self, drained: Seq<u64>, par: Seq<u64>)
        requires
            self.yields(drained),
            self.yields(par),
        ensures
            par == drained,
            par.to_multiset() == drained.to_multiset(),
    {
        lemma_yields_unique(self.inner(), par, drained);
    }
}

} // verus!
