use vstd::prelude::*;

verus! {

broadcast use vstd::seq::group_seq_axioms;

/// Splits `[0, row_count)` into consecutive batches of at most `batch_size`
/// rows: all full except possibly the last, which ends exactly at
/// `row_count`. This fixes the batch layout completely.
pub fn batch_bounds(row_count: usize, batch_size: usize) -> (r: Vec<(usize, usize)>)
    requires
        batch_size >= 1,
    ensures
        row_count == 0 ==> r.len() == 0,
        row_count > 0 ==> r.len() > 0 && r[0].0 == 0 && r[r.len() - 1].1 == row_count,
        forall|i: int| 0 <= i < r.len() ==> (#[trigger] r[i]).0 < r[i].1 <= row_count,
        forall|i: int| 0 <= i < r.len() - 1 ==> (#[trigger] r[i]).1 - r[i].0 == batch_size,
        r.len() > 0 ==> r[r.len() - 1].1 - r[r.len() - 1].0 <= batch_size,
        forall|i: int| 0 <= i < r.len() - 1 ==> (#[trigger] r[i]).1 == r[i + 1].0,
{
    let mut r: Vec<(usize, usize)> = Vec::new();
    let mut start: usize = 0;
    while start < row_count
        invariant
            start <= row_count,
            batch_size >= 1,
            r.len() == 0 ==> start == 0,
            r.len() > 0 ==> r[0].0 == 0 && r[r.len() - 1].1 == start,
            forall|i: int| 0 <= i < r.len() ==> (#[trigger] r[i]).0 < r[i].1 <= row_count,
            forall|i: int| 0 <= i < r.len() - 1 ==> (#[trigger] r[i]).1 - r[i].0 == batch_size,
            r.len() > 0 ==> r[r.len() - 1].1 - r[r.len() - 1].0 <= batch_size,
            r.len() > 0 ==> (r[r.len() - 1].1 - r[r.len() - 1].0 == batch_size || r[r.len()
                - 1].1 == row_count),
            forall|i: int| 0 <= i < r.len() - 1 ==> (#[trigger] r[i]).1 == r[i + 1].0,
        decreases row_count - start,
    {
        let end = if row_count - start < batch_size {
            row_count
        } else {
            start + batch_size
        };
        r.push((start, end));
        start = end;
    }
    r
}

fn copy_row<T: Copy>(row: &Vec<T>) -> (r: Vec<T>)
    ensures
        r@ == row@,
{
    let mut r: Vec<T> = Vec::new();
    let mut j: usize = 0;
    while j < row.len()
        invariant
            j <= row.len(),
            r@ == row@.subrange(0, j as int),
        decreases row.len() - j,
    {
        r.push(row[j]);
        j += 1;
    }
    proof {
        assert(row@.subrange(0, row@.len() as int) =~= row@);
    }
    r
}

fn append_batch<T: Copy>(r: &mut Vec<Vec<T>>, batch: &Vec<Vec<T>>)
    ensures
        final(r).len() == old(r).len() + batch.len(),
        forall|i: int| 0 <= i < old(r).len() ==> final(r)[i] == old(r)[i],
        forall|j: int|
            0 <= j < batch.len() ==> (#[trigger] final(r)[old(r).len() + j]@) == batch[j]@,
{
    let mut j: usize = 0;
    while j < batch.len()
        invariant
            j <= batch.len(),
            r.len() == old(r).len() + j,
            forall|i: int| 0 <= i < old(r).len() ==> r[i] == old(r)[i],
            forall|jj: int|
                0 <= jj < j ==> (#[trigger] r[old(r).len() + jj]@) == batch[jj]@,
        decreases batch.len() - j,
    {
        let nr = copy_row(&batch[j]);
        r.push(nr);
        j += 1;
    }
}

proof fn lemma_bounds_sorted(bounds: Seq<(usize, usize)>, i: int, j: int)
    requires
        forall|a: int| 0 <= a < bounds.len() ==> (#[trigger] bounds[a]).0 <= bounds[a].1,
        forall|a: int| 0 <= a < bounds.len() - 1 ==> (#[trigger] bounds[a]).1 == bounds[a + 1].0,
        0 <= i < j < bounds.len(),
    ensures
        bounds[i].1 <= bounds[j].0,
    decreases j - i,
{
    if i + 1 < j {
        lemma_bounds_sorted(bounds, i + 1, j);
    }
}

/// Concatenates the batches in index order into the destination matrix.
/// The ensures pins every row from the batch contents alone, without
/// reference to how the concurrent batch reads were scheduled: a loader
/// writing the same batches into the same disjoint row ranges in any
/// completion order yields exactly this matrix.
#[verifier::rlimit(100)]
pub fn assemble_batches<T: Copy>(
    row_count: usize,
    cols: usize,
    bounds: &Vec<(usize, usize)>,
    batches: &Vec<Vec<Vec<T>>>,
) -> (r: Vec<Vec<T>>)
    requires
        batches.len() == bounds.len(),
        bounds.len() == 0 ==> row_count == 0,
        bounds.len() > 0 ==> bounds[0].0 == 0 && bounds[bounds.len() - 1].1 == row_count,
        forall|i: int| 0 <= i < bounds.len() ==> (#[trigger] bounds[i]).0 <= bounds[i].1,
        forall|i: int| 0 <= i < bounds.len() - 1 ==> (#[trigger] bounds[i]).1 == bounds[i + 1].0,
        forall|i: int|
            0 <= i < bounds.len() ==> (#[trigger] batches[i]).len() == bounds[i].1 - bounds[i].0,
        forall|i: int, j: int|
            0 <= i < batches.len() && 0 <= j < batches[i].len() ==> (#[trigger] batches[i][j]).len()
                == cols,
    ensures
        r.len() == row_count,
        forall|i: int| 0 <= i < r.len() ==> (#[trigger] r[i]).len() == cols,
        forall|i: int, rr: int|
            #![trigger r[rr]@, bounds[i]]
            0 <= i < bounds.len() && bounds[i].0 <= rr < bounds[i].1 ==> r[rr]@
                == batches[i][rr - bounds[i].0]@,
{
    let mut r: Vec<Vec<T>> = Vec::new();
    let mut bi: usize = 0;
    while bi < bounds.len()
        invariant
            bi <= bounds.len(),
            batches.len() == bounds.len(),
            bounds.len() == 0 ==> row_count == 0,
            bounds.len() > 0 ==> bounds[0].0 == 0 && bounds[bounds.len() - 1].1 == row_count,
            forall|i: int| 0 <= i < bounds.len() ==> (#[trigger] bounds[i]).0 <= bounds[i].1,
            forall|i: int|
                0 <= i < bounds.len() - 1 ==> (#[trigger] bounds[i]).1 == bounds[i + 1].0,
            forall|i: int|
                0 <= i < bounds.len() ==> (#[trigger] batches[i]).len() == bounds[i].1
                    - bounds[i].0,
            forall|i: int, j: int|
                0 <= i < batches.len() && 0 <= j < batches[i].len() ==> (
                #[trigger] batches[i][j]).len() == cols,
            r.len() == (if bi == 0 { 0int } else { bounds[bi - 1].1 as int }),
            bi == 0 ==> r.len() == 0,
            forall|i: int| 0 <= i < r.len() ==> (#[trigger] r[i]).len() == cols,
            forall|i: int, rr: int|
                #![trigger r[rr]@, bounds[i]]
                0 <= i < bi && bounds[i].0 <= rr < bounds[i].1 ==> r[rr]@ == batches[i][rr
                    - bounds[i].0]@,
        decreases bounds.len() - bi,
    {
        let ghost prev = r@;
        let s = bounds[bi].0;
        proof {
            if bi > 0 {
                assert(bounds[bi - 1].1 == bounds[bi as int].0);
            }
        }
        append_batch(&mut r, &batches[bi]);
        proof {
            assert forall|i: int, rr: int|
                #![trigger r[rr]@, bounds[i]]
                0 <= i < bi + 1 && bounds[i].0 <= rr < bounds[i].1 implies r[rr]@ == batches[i][rr
                - bounds[i].0]@ by {
                if i < bi {
                    lemma_bounds_sorted(bounds@, i, bi as int);
                    assert(rr < prev.len());
                    assert(r[rr] == prev[rr]);
                } else {
                    assert(r[prev.len() + (rr - s)]@ == batches[bi as int][rr - s]@);
                }
            }
            assert forall|i: int| 0 <= i < r.len() implies (#[trigger] r[i]).len() == cols by {
                if i < prev.len() {
                    assert(r[i] == prev[i]);
                } else {
                    assert(r[i]@ == batches[bi as int][i - prev.len()]@);
                }
            }
        }
        bi += 1;
    }
    r
}

/// Every row below `row_count` falls in some batch of a consecutive cover.
pub proof fn lemma_bounds_cover(bounds: Seq<(usize, usize)>, row_count: int, rr: int)
    requires
        bounds.len() == 0 ==> row_count == 0,
        bounds.len() > 0 ==> bounds[0].0 == 0 && bounds[bounds.len() - 1].1 == row_count,
        forall|i: int| 0 <= i < bounds.len() - 1 ==> (#[trigger] bounds[i]).1 == bounds[i + 1].0,
        0 <= rr < row_count,
    ensures
        exists|i: int| 0 <= i < bounds.len() && (#[trigger] bounds[i]).0 <= rr < bounds[i].1,
    decreases bounds.len(),
{
    let last = bounds.len() - 1;
    if rr >= bounds[last].0 {
        assert(bounds[last].0 <= rr < bounds[last].1);
    } else {
        let front = bounds.drop_last();
        assert(front.len() == bounds.len() - 1);
        assert(bounds[last - 1].1 == bounds[last].0);
        lemma_bounds_cover(front, bounds[last].0 as int, rr);
        let i = choose|i: int| 0 <= i < front.len() && (#[trigger] front[i]).0 <= rr < front[i].1;
        assert(bounds[i] == front[i]);
    }
}

/// Batch loading is deterministic: any two full assemblies of the same
/// batches over the same consecutive cover agree on every row, however the
/// concurrent batch writes were ordered.
pub proof fn lemma_batch_load_deterministic<R>(
    r1: Seq<R>,
    r2: Seq<R>,
    bounds: Seq<(usize, usize)>,
    batches: Seq<Seq<R>>,
    row_count: int,
)
    requires
        bounds.len() == 0 ==> row_count == 0,
        bounds.len() > 0 ==> bounds[0].0 == 0 && bounds[bounds.len() - 1].1 == row_count,
        forall|i: int| 0 <= i < bounds.len() - 1 ==> (#[trigger] bounds[i]).1 == bounds[i + 1].0,
        r1.len() == row_count,
        r2.len() == row_count,
        forall|i: int, rr: int|
            #![trigger r1[rr], bounds[i]]
            0 <= i < bounds.len() && bounds[i].0 <= rr < bounds[i].1 ==> r1[rr]
                == batches[i][rr - bounds[i].0],
        forall|i: int, rr: int|
            #![trigger r2[rr], bounds[i]]
            0 <= i < bounds.len() && bounds[i].0 <= rr < bounds[i].1 ==> r2[rr]
                == batches[i][rr - bounds[i].0],
    ensures
        r1 == r2,
{
    assert forall|rr: int| 0 <= rr < row_count implies r1[rr] == r2[rr] by {
        lemma_bounds_cover(bounds, row_count, rr);
        let i = choose|i: int| 0 <= i < bounds.len() && (#[trigger] bounds[i]).0 <= rr < bounds[i].1;
        assert(r1[rr] == batches[i][rr - bounds[i].0]);
        assert(r2[rr] == batches[i][rr - bounds[i].0]);
    }
    assert(r1 =~= r2);
}

/// Concatenating the batches in index order reproduces the source exactly:
/// if every batch holds its own row range of the source, a full assembly is
/// the source.
pub proof fn lemma_assembly_reproduces_source<R>(
    r: Seq<R>,
    source: Seq<R>,
    bounds: Seq<(usize, usize)>,
    batches: Seq<Seq<R>>,
    row_count: int,
)
    requires
        bounds.len() == 0 ==> row_count == 0,
        bounds.len() > 0 ==> bounds[0].0 == 0 && bounds[bounds.len() - 1].1 == row_count,
        forall|i: int| 0 <= i < bounds.len() - 1 ==> (#[trigger] bounds[i]).1 == bounds[i + 1].0,
        forall|i: int| 0 <= i < bounds.len() ==> (#[trigger] bounds[i]).0 <= bounds[i].1 <= source.len(),
        r.len() == row_count,
        source.len() == row_count,
        forall|i: int|
            0 <= i < bounds.len() ==> (#[trigger] batches[i]) == source.subrange(
                bounds[i].0 as int,
                bounds[i].1 as int,
            ),
        forall|i: int, rr: int|
            #![trigger r[rr], bounds[i]]
            0 <= i < bounds.len() && bounds[i].0 <= rr < bounds[i].1 ==> r[rr]
                == batches[i][rr - bounds[i].0],
    ensures
        r == source,
{
    assert forall|rr: int| 0 <= rr < row_count implies r[rr] == source[rr] by {
        lemma_bounds_cover(bounds, row_count, rr);
        let i = choose|i: int| 0 <= i < bounds.len() && (#[trigger] bounds[i]).0 <= rr < bounds[i].1;
        assert(r[rr] == batches[i][rr - bounds[i].0]);
        assert(source.subrange(bounds[i].0 as int, bounds[i].1 as int)[rr - bounds[i].0]
            == source[rr]);
    }
    assert(r =~= source);
}

/// The whole batched load over an in-memory source: plan the batches, read
/// each row range independently, and concatenate. The result is the source,
/// row for row — whatever batch size was chosen, and regardless of how the
/// independent reads were scheduled, since each lands in its own range.
pub fn load_batched<T: Copy>(source: &Vec<Vec<T>>, cols: usize, batch_size: usize) -> (r: Vec<
    Vec<T>,
>)
    requires
        batch_size >= 1,
        forall|i: int| 0 <= i < source.len() ==> (#[trigger] source[i]).len() == cols,
    ensures
        r.len() == source.len(),
        forall|i: int| 0 <= i < source.len() ==> (#[trigger] r[i]@) == source[i]@,
{
    let bounds = batch_bounds(source.len(), batch_size);
    let mut batches: Vec<Vec<Vec<T>>> = Vec::new();
    let mut bi: usize = 0;
    while bi < bounds.len()
        invariant
            bi <= bounds.len(),
            batches.len() == bi,
            bounds.len() == 0 ==> source.len() == 0,
            bounds.len() > 0 ==> bounds[0].0 == 0 && bounds[bounds.len() - 1].1 == source.len(),
            forall|i: int| 0 <= i < bounds.len() ==> (#[trigger] bounds[i]).0 < bounds[i].1
                <= source.len(),
            forall|i: int|
                0 <= i < bounds.len() - 1 ==> (#[trigger] bounds[i]).1 == bounds[i + 1].0,
            forall|i: int| 0 <= i < source.len() ==> (#[trigger] source[i]).len() == cols,
            forall|j: int|
                0 <= j < bi ==> (#[trigger] batches[j]).len() == bounds[j].1 - bounds[j].0,
            forall|j: int, t: int|
                #![trigger batches[j][t]]
                0 <= j < bi && 0 <= t < batches[j].len() ==> batches[j][t]@ == source[bounds[j].0
                    + t]@,
        decreases bounds.len() - bi,
    {
        let b = take_rows(source, bounds[bi].0, bounds[bi].1);
        batches.push(b);
        bi += 1;
    }
    proof {
        assert forall|i: int, j: int|
            0 <= i < batches.len() && 0 <= j < batches[i].len() implies (
        #[trigger] batches[i][j]).len() == cols by {
            assert(batches[i][j]@ == source[bounds[i].0 + j]@);
            assert(source[bounds[i].0 + j].len() == cols);
        }
    }
    let r = assemble_batches(source.len(), cols, &bounds, &batches);
    proof {
        assert forall|rr: int| 0 <= rr < source.len() implies (#[trigger] r[rr]@) == source[rr]@ by {
            lemma_bounds_cover(bounds@, source.len() as int, rr);
            let i = choose|i: int|
                0 <= i < bounds.len() && (#[trigger] bounds[i]).0 <= rr < bounds[i].1;
            assert(r[rr]@ == batches[i][rr - bounds[i].0]@);
            assert(batches[i][rr - bounds[i].0]@ == source[bounds[i].0 + (rr - bounds[i].0)]@);
        }
    }
    r
}

/// Loading is a pure function of the source: two loads that each reproduce
/// the source row for row — whatever their batch sizes or scheduling —
/// agree with each other.
pub proof fn lemma_load_batch_size_independent<T>(
    r1: Seq<Seq<T>>,
    r2: Seq<Seq<T>>,
    source: Seq<Seq<T>>,
)
    requires
        r1.len() == source.len(),
        r2.len() == source.len(),
        forall|i: int| 0 <= i < source.len() ==> #[trigger] r1[i] == source[i],
        forall|i: int| 0 <= i < source.len() ==> #[trigger] r2[i] == source[i],
    ensures
        r1 == r2,
{
    assert(r1 =~= r2);
}

/// The rows `[start, end)` of a matrix, the shape a row-range read returns.
pub fn take_rows<T: Copy>(m: &Vec<Vec<T>>, start: usize, end: usize) -> (r: Vec<Vec<T>>)
    requires
        start <= end <= m.len(),
    ensures
        r.len() == end - start,
        forall|i: int| 0 <= i < r.len() ==> (#[trigger] r[i]@) == m[start + i]@,
{
    let mut r: Vec<Vec<T>> = Vec::new();
    let mut i = start;
    while i < end
        invariant
            start <= i <= end,
            end <= m.len(),
            r.len() == i - start,
            forall|j: int| 0 <= j < r.len() ==> (#[trigger] r[j]@) == m[start + j]@,
        decreases end - i,
    {
        let row = copy_row(&m[i]);
        r.push(row);
        i += 1;
    }
    r
}

} // verus!
