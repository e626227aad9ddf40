use vstd::prelude::*;
use itertools::Itertools;

verus! {

broadcast use vstd::seq::group_seq_axioms;

/// No two entries of the sequence are equal.
pub open spec fn all_distinct(s: Seq<u64>) -> bool {
    forall|i: int, j: int| 0 <= i < j < s.len() ==> s[i] != s[j]
}

/// The binomial coefficient, by Pascal's rule.
pub open spec fn binom(n: nat, k: nat) -> nat
    decreases n, k,
{
    if k == 0 {
        1
    } else if n == 0 {
        0
    } else {
        binom((n - 1) as nat, (k - 1) as nat) + binom((n - 1) as nat, k)
    }
}

/// All k-element combinations of the entries of `s`, each keeping input
/// order, listed lexicographically by position: first every combination
/// containing the head, then those of the tail alone.
pub open spec fn combos(s: Seq<u64>, k: nat) -> Seq<Seq<u64>>
    decreases s.len(),
{
    if k == 0 {
        seq![Seq::<u64>::empty()]
    } else if s.len() < k {
        Seq::<Seq<u64>>::empty()
    } else {
        combos(s.drop_first(), (k - 1) as nat).map_values(|c: Seq<u64>| seq![s[0]] + c) + combos(
            s.drop_first(),
            k,
        )
    }
}

pub proof fn lemma_binom_past_end(n: nat, k: nat)
    requires
        k > n,
    ensures
        binom(n, k) == 0,
    decreases n,
{
    if n > 0 {
        lemma_binom_past_end((n - 1) as nat, (k - 1) as nat);
        lemma_binom_past_end((n - 1) as nat, k);
    }
}

/// There are exactly `C(|s|, k)` combinations.
pub proof fn lemma_combos_count(s: Seq<u64>, k: nat)
    ensures
        combos(s, k).len() == binom(s.len(), k),
    decreases s.len(),
{
    if k == 0 {
    } else if s.len() < k {
        lemma_binom_past_end(s.len(), k);
    } else {
        lemma_combos_count(s.drop_first(), (k - 1) as nat);
        lemma_combos_count(s.drop_first(), k);
    }
}

/// Every combination has exactly k entries.
pub proof fn lemma_combos_length(s: Seq<u64>, k: nat)
    ensures
        forall|i: int| 0 <= i < combos(s, k).len() ==> (#[trigger] combos(s, k)[i]).len() == k,
    decreases s.len(),
{
    if k == 0 || s.len() < k {
    } else {
        lemma_combos_length(s.drop_first(), (k - 1) as nat);
        lemma_combos_length(s.drop_first(), k);
        let head = combos(s.drop_first(), (k - 1) as nat).map_values(
            |c: Seq<u64>| seq![s[0]] + c,
        );
        let tail = combos(s.drop_first(), k);
        assert forall|i: int| 0 <= i < combos(s, k).len() implies (#[trigger] combos(s, k)[i]).len()
            == k by {
            if i < head.len() {
                assert(combos(s, k)[i] == head[i]);
            } else {
                assert(combos(s, k)[i] == tail[i - head.len()]);
            }
        }
    }
}

/// Every entry of every combination is drawn from `s`.
pub proof fn lemma_combos_elements(s: Seq<u64>, k: nat)
    ensures
        forall|i: int, j: int|
            0 <= i < combos(s, k).len() && 0 <= j < combos(s, k)[i].len() ==> s.contains(
                #[trigger] combos(s, k)[i][j],
            ),
    decreases s.len(),
{
    if k == 0 || s.len() < k {
    } else {
        let rest = s.drop_first();
        lemma_combos_elements(rest, (k - 1) as nat);
        lemma_combos_elements(rest, k);
        let head = combos(rest, (k - 1) as nat).map_values(|c: Seq<u64>| seq![s[0]] + c);
        let tail = combos(rest, k);
        assert forall|i: int, j: int|
            0 <= i < combos(s, k).len() && 0 <= j < combos(s, k)[i].len() implies s.contains(
            #[trigger] combos(s, k)[i][j],
        ) by {
            if i < head.len() {
                let c = combos(rest, (k - 1) as nat)[i];
                assert(combos(s, k)[i] == seq![s[0]] + c);
                if j == 0 {
                    assert(combos(s, k)[i][0] == s[0]);
                    assert(s[0] == s[0] && 0 <= 0 < s.len());
                } else {
                    assert(combos(s, k)[i][j] == c[j - 1]);
                    assert(rest.contains(c[j - 1]));
                    let m = choose|m: int| 0 <= m < rest.len() && rest[m] == c[j - 1];
                    assert(s[m + 1] == rest[m]);
                }
            } else {
                let c = tail[i - head.len()];
                assert(combos(s, k)[i] == c);
                assert(rest.contains(c[j]));
                let m = choose|m: int| 0 <= m < rest.len() && rest[m] == c[j];
                assert(s[m + 1] == rest[m]);
            }
        }
    }
}

/// If the probe values are pairwise distinct, no combination repeats an
/// entry.
pub proof fn lemma_combos_entries_distinct(s: Seq<u64>, k: nat)
    requires
        all_distinct(s),
    ensures
        forall|i: int| 0 <= i < combos(s, k).len() ==> all_distinct(#[trigger] combos(s, k)[i]),
    decreases s.len(),
{
    if k == 0 || s.len() < k {
    } else {
        let rest = s.drop_first();
        assert forall|a: int, b: int| 0 <= a < b < rest.len() implies rest[a] != rest[b] by {
            assert(rest[a] == s[a + 1]);
            assert(rest[b] == s[b + 1]);
        }
        lemma_combos_entries_distinct(rest, (k - 1) as nat);
        lemma_combos_entries_distinct(rest, k);
        lemma_combos_elements(rest, (k - 1) as nat);
        let head = combos(rest, (k - 1) as nat).map_values(|c: Seq<u64>| seq![s[0]] + c);
        let tail = combos(rest, k);
        assert forall|i: int| 0 <= i < combos(s, k).len() implies all_distinct(
            #[trigger] combos(s, k)[i],
        ) by {
            if i < head.len() {
                let c = combos(rest, (k - 1) as nat)[i];
                let full = seq![s[0]] + c;
                assert(combos(s, k)[i] == full);
                assert forall|a: int, b: int| 0 <= a < b < full.len() implies full[a] != full[b] by {
                    if a == 0 {
                        assert(full[0] == s[0]);
                        assert(full[b] == c[b - 1]);
                        assert(rest.contains(c[b - 1]));
                        let m = choose|m: int| 0 <= m < rest.len() && rest[m] == c[b - 1];
                        assert(s[m + 1] == rest[m]);
                    } else {
                        assert(full[a] == c[a - 1]);
                        assert(full[b] == c[b - 1]);
                        assert(all_distinct(c));
                    }
                }
            } else {
                assert(combos(s, k)[i] == tail[i - head.len()]);
                assert(all_distinct(tail[i - head.len()]));
            }
        }
    }
}

/// If the probe values are pairwise distinct, no combination appears twice.
pub proof fn lemma_combos_distinct(s: Seq<u64>, k: nat)
    requires
        all_distinct(s),
    ensures
        forall|i: int, j: int|
            0 <= i < j < combos(s, k).len() ==> combos(s, k)[i] != combos(s, k)[j],
    decreases s.len(),
{
    if k == 0 || s.len() < k {
    } else {
        let rest = s.drop_first();
        assert forall|a: int, b: int| 0 <= a < b < rest.len() implies rest[a] != rest[b] by {
            assert(rest[a] == s[a + 1]);
            assert(rest[b] == s[b + 1]);
        }
        lemma_combos_distinct(rest, (k - 1) as nat);
        lemma_combos_distinct(rest, k);
        lemma_combos_elements(rest, k);
        lemma_combos_length(rest, k);
        let head = combos(rest, (k - 1) as nat).map_values(|c: Seq<u64>| seq![s[0]] + c);
        let tail = combos(rest, k);
        assert forall|i: int, j: int| 0 <= i < j < combos(s, k).len() implies combos(s, k)[i]
            != combos(s, k)[j] by {
            if j < head.len() {
                let c1 = combos(rest, (k - 1) as nat)[i];
                let c2 = combos(rest, (k - 1) as nat)[j];
                assert(combos(s, k)[i] == seq![s[0]] + c1);
                assert(combos(s, k)[j] == seq![s[0]] + c2);
                assert(c1 != c2);
                if seq![s[0]] + c1 == seq![s[0]] + c2 {
                    assert((seq![s[0]] + c1).drop_first() =~= c1);
                    assert((seq![s[0]] + c2).drop_first() =~= c2);
                    assert(false);
                }
            } else if i < head.len() {
                let c1 = combos(rest, (k - 1) as nat)[i];
                let c2 = tail[j - head.len()];
                assert(combos(s, k)[i] == seq![s[0]] + c1);
                assert(combos(s, k)[j] == c2);
                assert(c2.len() == k);
                assert(rest.contains(c2[0]));
                let m = choose|m: int| 0 <= m < rest.len() && rest[m] == c2[0];
                assert(s[m + 1] == rest[m]);
                assert(c2[0] != s[0]);
                assert((seq![s[0]] + c1)[0] == s[0]);
            } else {
                assert(combos(s, k)[i] == tail[i - head.len()]);
                assert(combos(s, k)[j] == tail[j - head.len()]);
            }
        }
    }
}

/// Relies on itertools' `combinations` adapter: it yields every k-element
/// combination of the input exactly once, entries in input order,
/// combinations in lexicographic order of the chosen positions, which is
/// what `combos` lists.
#[verifier::external_body]
fn combinations_exec(vals: &Vec<u64>, k: usize) -> (r: Vec<Vec<u64>>)
    ensures
        r.deep_view() == combos(vals@, k as nat),
{
    vals.iter().cloned().combinations(k).collect()
}

/// The input probe values in reverse order.
pub fn reversed(vals: &Vec<u64>) -> (r: Vec<u64>)
    ensures
        r.len() == vals.len(),
        forall|i: int| 0 <= i < vals.len() ==> r[i] == vals[vals.len() - 1 - i],
{
    let mut r: Vec<u64> = Vec::new();
    let mut i: usize = vals.len();
    while i > 0
        invariant
            i <= vals.len(),
            r.len() == vals.len() - i,
            forall|j: int| 0 <= j < r.len() ==> r[j] == vals[vals.len() - 1 - j],
        decreases i,
    {
        i -= 1;
        r.push(vals[i]);
    }
    r
}

/// The probe-count tuples of the sweep: the requested probe values, reversed,
/// taken as combinations of one entry per cascade stage. Yields exactly
/// `C(v, n)` tuples of length `n` each.
pub fn probe_groups(nprobe_vals: &Vec<u64>, n_stages: usize) -> (r: Vec<Vec<u64>>)
    ensures
        r.deep_view() == combos(
            Seq::new(nprobe_vals@.len(), |i: int| nprobe_vals@[nprobe_vals@.len() - 1 - i]),
            n_stages as nat,
        ),
        r.len() == binom(nprobe_vals@.len(), n_stages as nat),
        forall|i: int| 0 <= i < r.len() ==> (#[trigger] r.deep_view()[i]).len() == n_stages,
{
    let rev = reversed(nprobe_vals);
    let r = combinations_exec(&rev, n_stages);
    proof {
        let revspec = Seq::new(
            nprobe_vals@.len(),
            |i: int| nprobe_vals@[nprobe_vals@.len() - 1 - i],
        );
        assert(rev@ =~= revspec);
        lemma_combos_count(rev@, n_stages as nat);
        lemma_combos_length(rev@, n_stages as nat);
        assert(r@.len() == r.deep_view().len());
    }
    r
}

} // verus!
