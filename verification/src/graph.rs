//! Adjacency lists built from the edges read from the input.
use vstd::prelude::*;

verus! {

/// Records the edge between `u` and `v` with weight `w` in both directions:
/// `(v, w)` at the end of `u`'s list, then `(u, w)` at the end of `v`'s.
pub fn link_both_ways<T: Copy>(adj: &mut Vec<Vec<(usize, T)>>, u: usize, v: usize, w: T)
    requires
        u < old(adj).len(),
        v < old(adj).len(),
    ensures
        final(adj).len() == old(adj).len(),
        forall|x: int| 0 <= x < old(adj).len() && x != u && x != v ==> #[trigger] final(adj)[x] == old(adj)[x],
        u != v ==> final(adj)[u as int]@ == old(adj)[u as int]@.push((v, w)),
        u != v ==> final(adj)[v as int]@ == old(adj)[v as int]@.push((u, w)),
        u == v ==> final(adj)[u as int]@ == old(adj)[u as int]@.push((v, w)).push((u, w)),
{
    adj[u].push((v, w));
    adj[v].push((u, w));
}

} // verus!
