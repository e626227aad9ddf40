use vstd::prelude::*;

verus! {

/// Shifts every neighbor id from the 0-based convention of the search
/// primitives to the 1-based convention of the result consumer.
pub fn shift_ids(ids: &Vec<Vec<u64>>) -> (r: Vec<Vec<u64>>)
    requires
        forall|i: int, j: int|
            0 <= i < ids.len() && 0 <= j < ids[i].len() ==> ids[i][j] < u64::MAX,
    ensures
        r.len() == ids.len(),
        forall|i: int| 0 <= i < ids.len() ==> r[i].len() == ids[i].len(),
        forall|i: int, j: int|
            0 <= i < ids.len() && 0 <= j < ids[i].len() ==> r[i][j] == ids[i][j] + 1,
{
    let mut r: Vec<Vec<u64>> = Vec::new();
    let mut i: usize = 0;
    while i < ids.len()
        invariant
            i <= ids.len(),
            r.len() == i,
            forall|a: int, b: int|
                0 <= a < ids.len() && 0 <= b < ids[a].len() ==> ids[a][b] < u64::MAX,
            forall|a: int| 0 <= a < i ==> r[a].len() == ids[a].len(),
            forall|a: int, b: int|
                0 <= a < i && 0 <= b < ids[a].len() ==> r[a][b] == ids[a][b] + 1,
        decreases ids.len() - i,
    {
        let row = &ids[i];
        let mut nr: Vec<u64> = Vec::new();
        let mut j: usize = 0;
        while j < row.len()
            invariant
                j <= row.len(),
                nr.len() == j,
                row == &ids[i as int],
                i < ids.len(),
                forall|a: int, b: int|
                    0 <= a < ids.len() && 0 <= b < ids[a].len() ==> ids[a][b] < u64::MAX,
                forall|b: int| 0 <= b < j ==> nr[b] == row[b] + 1,
            decreases row.len() - j,
        {
            nr.push(row[j] + 1);
            j += 1;
        }
        r.push(nr);
        i += 1;
    }
    r
}

} // verus!
