//! Data-parallel mapping over a vector, on rayon's worker pool.
use vstd::prelude::*;
use rayon::iter::{IntoParallelIterator, ParallelIterator};

verus! {

/// Relies on rayon's `into_par_iter().map(f).collect::<Vec<_>>()` for a
/// `Vec`: `f` is called once on each item, possibly on several threads, and
/// the results are collected in the order of the items they came from.
#[verifier::external_body]
pub(crate) fn par_map<T: Send, U: Send, F: Fn(T) -> U + Sync + Send>(items: Vec<T>, f: F) -> (r: Vec<U>)
    requires
        forall|i: int| 0 <= i < items.len() ==> call_requires(f, (items[i],)),
    ensures
        r.len() == items.len(),
        forall|i: int| 0 <= i < items.len() ==> call_ensures(f, (items[i],), #[trigger] r[i]),
{
    items.into_par_iter().map(f).collect()
}

} // verus!
