use vstd::prelude::*;

verus! {

broadcast use vstd::seq::group_seq_axioms;

/// Per query, the first `p` entries of the precomputed rank-ordered
/// candidate list: the tuning path computes candidates once at the maximum
/// probe count and slices a prefix for each smaller one.
pub fn candidate_prefixes(all: &Vec<Vec<u64>>, p: usize) -> (r: Vec<Vec<u64>>)
    requires
        forall|i: int| 0 <= i < all.len() ==> p <= (#[trigger] all[i]).len(),
    ensures
        r.len() == all.len(),
        forall|i: int| 0 <= i < r.len() ==> (#[trigger] r[i]@) == all[i]@.subrange(0, p as int),
{
    let mut r: Vec<Vec<u64>> = Vec::new();
    let mut i: usize = 0;
    while i < all.len()
        invariant
            i <= all.len(),
            r.len() == i,
            forall|a: int| 0 <= a < all.len() ==> p <= (#[trigger] all[a]).len(),
            forall|a: int| 0 <= a < i ==> (#[trigger] r[a]@) == all[a]@.subrange(0, p as int),
        decreases all.len() - i,
    {
        let row = &all[i];
        let mut nr: Vec<u64> = Vec::new();
        let mut j: usize = 0;
        while j < p
            invariant
                j <= p,
                p <= row.len(),
                nr@ == row@.subrange(0, j as int),
            decreases p - j,
        {
            nr.push(row[j]);
            j += 1;
            proof {
                assert(nr@ =~= row@.subrange(0, j as int));
            }
        }
        r.push(nr);
        i += 1;
    }
    r
}

/// The prefix invariant of the tuning path: for probe counts `p1 <= p2`, the
/// candidates kept at `p1` are exactly the first `p1` of those kept at `p2`,
/// for every query.
pub proof fn lemma_prefix_invariant(all: Seq<Seq<u64>>, p1: int, p2: int)
    requires
        0 <= p1 <= p2,
        forall|q: int| 0 <= q < all.len() ==> p2 <= (#[trigger] all[q]).len(),
    ensures
        forall|q: int|
            0 <= q < all.len() ==> (#[trigger] all[q]).subrange(0, p1) == all[q].subrange(
                0,
                p2,
            ).subrange(0, p1),
{
    assert forall|q: int| 0 <= q < all.len() implies (#[trigger] all[q]).subrange(0, p1) == all[q]
        .subrange(0, p2).subrange(0, p1) by {
        assert(all[q].subrange(0, p2).subrange(0, p1) =~= all[q].subrange(0, p1));
    }
}

/// The largest requested probe value, at which candidates are precomputed
/// once for the whole sweep.
pub fn max_probe(vals: &Vec<u64>) -> (r: u64)
    requires
        vals.len() > 0,
    ensures
        vals@.contains(r),
        forall|i: int| 0 <= i < vals.len() ==> vals[i] <= r,
{
    let mut r = vals[0];
    let mut i: usize = 1;
    proof {
        assert(vals@[0] == r);
    }
    while i < vals.len()
        invariant
            1 <= i <= vals.len(),
            vals@.contains(r),
            forall|j: int| 0 <= j < i ==> vals[j] <= r,
        decreases vals.len() - i,
    {
        if vals[i] > r {
            r = vals[i];
            proof {
                assert(vals@[i as int] == r);
            }
        }
        i += 1;
    }
    r
}

} // verus!
