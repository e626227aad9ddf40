use rust_search::candidates::{candidate_prefixes, max_probe};
use rust_search::identity::param_string;
use rust_search::loader::{assemble_batches, batch_bounds, take_rows};
use rust_search::ranges::fix_range_endpoints;
use rust_search::results::shift_ids;

// The search-engine side of the scenario: a stand-in binary encoder plus the
// brute-force hamming filter and exact refinement primitives the harness
// drives. These collaborators are external to the library, which only
// orchestrates them.

fn pseudo_random_matrix(rows: usize, cols: usize, seed: u64) -> Vec<Vec<f32>> {
    let mut state = seed;
    let mut m = Vec::with_capacity(rows);
    for _ in 0..rows {
        let mut row = Vec::with_capacity(cols);
        for _ in 0..cols {
            state = state.wrapping_mul(6364136223846793005).wrapping_add(1442695040888963407);
            let v = ((state >> 33) as f32) / ((1u64 << 31) as f32) - 0.5;
            row.push(v);
        }
        let norm: f32 = row.iter().map(|x| x * x).sum::<f32>().sqrt().max(1e-9);
        for x in row.iter_mut() {
            *x /= norm;
        }
        m.push(row);
    }
    m
}

fn encode(matrix: &Vec<Vec<f32>>, planes: &Vec<Vec<f32>>) -> Vec<u64> {
    matrix
        .iter()
        .map(|row| {
            let mut code = 0u64;
            for (j, plane) in planes.iter().enumerate() {
                let dot: f32 = row.iter().zip(plane.iter()).map(|(a, b)| a * b).sum();
                if dot > 0.0 {
                    code |= 1 << j;
                }
            }
            code
        })
        .collect()
}

fn k_smallest_hamming(data_codes: &Vec<u64>, query_codes: &Vec<u64>, m: usize) -> Vec<Vec<u64>> {
    query_codes
        .iter()
        .map(|qc| {
            let mut order: Vec<(u32, u64)> = data_codes
                .iter()
                .enumerate()
                .map(|(id, dc)| ((qc ^ dc).count_ones(), id as u64))
                .collect();
            order.sort();
            order.into_iter().take(m).map(|(_, id)| id).collect()
        })
        .collect()
}

fn refine(
    data: &Vec<Vec<f32>>,
    queries: &Vec<Vec<f32>>,
    candidates: &Vec<Vec<u64>>,
    k: usize,
) -> (Vec<Vec<f32>>, Vec<Vec<u64>>) {
    let mut sims = Vec::new();
    let mut ids = Vec::new();
    for (q, row) in queries.iter().enumerate() {
        let mut ranked: Vec<(f32, u64)> = candidates[q]
            .iter()
            .map(|&id| {
                let dot: f32 =
                    row.iter().zip(data[id as usize].iter()).map(|(a, b)| a * b).sum();
                (dot, id)
            })
            .collect();
        ranked.sort_by(|a, b| b.0.partial_cmp(&a.0).unwrap());
        ranked.truncate(k);
        // With fewer candidates than k, the engine still reports k slots;
        // this stand-in fills them with the best candidate again.
        while ranked.len() < k {
            let best = ranked[0];
            ranked.push(best);
        }
        sims.push(ranked.iter().map(|r| r.0).collect());
        ids.push(ranked.iter().map(|r| r.1).collect());
    }
    (sims, ids)
}

fn to_distance(sim: f32) -> f32 {
    (0f32).max(2f32 - 2f32 * sim).sqrt()
}

#[test]
fn similarity_to_distance_values() {
    assert_eq!(to_distance(1.0), 0.0);
    assert_eq!(to_distance(1.0000001), 0.0);
    assert_eq!(to_distance(0.0), 2f32.sqrt());
    assert!(to_distance(-1.0) <= 2.0000001);
}

#[test]
fn tuning_sweep_end_to_end() {
    let n_rows = 1000;
    let cols = 8;
    let k = 5;
    let n_queries = 10;

    // Load the data through the batched loader, as the harness would.
    let source = pseudo_random_matrix(n_rows, cols, 42);
    let bounds = batch_bounds(n_rows, 300);
    let batches: Vec<Vec<Vec<f32>>> =
        bounds.iter().map(|&(s, e)| take_rows(&source, s, e)).collect();
    let data = assemble_batches(n_rows, cols, &bounds, &batches);
    assert_eq!(data, source);
    let queries = pseudo_random_matrix(n_queries, cols, 7);

    // A single 16-bit encoder over the data.
    let planes = pseudo_random_matrix(16, cols, 99);
    let data_codes = encode(&data, &planes);
    let query_codes = encode(&queries, &planes);
    assert_eq!(data_codes.len(), n_rows);
    assert_eq!(query_codes.len(), n_queries);

    // Probe sweep 1..8 over 4 log-spaced points: 1, 2, 4, 8.
    let mut probe_vals: Vec<u64> = (0..4)
        .map(|i| {
            let l = (1f64.ln()) + ((8f64.ln() - 1f64.ln()) / 3.0) * (i as f64);
            l.exp().round() as u64
        })
        .collect();
    fix_range_endpoints(&mut probe_vals, 1, 8);
    assert_eq!(probe_vals, vec![1, 2, 4, 8]);

    // Candidates are computed once, at the maximum probe value.
    let m = max_probe(&probe_vals) as usize;
    assert_eq!(m, 8);
    let all_candidates = k_smallest_hamming(&data_codes, &query_codes, m);

    let mut artifacts = Vec::new();
    for &p in probe_vals.iter() {
        let sliced = candidate_prefixes(&all_candidates, p as usize);
        // The prefix invariant: these are exactly the first p of the full
        // candidate lists.
        for q in 0..n_queries {
            assert_eq!(&sliced[q][..], &all_candidates[q][..p as usize]);
        }
        let (sims, ids) = refine(&data, &queries, &sliced, k);
        let dists: Vec<Vec<f32>> =
            sims.iter().map(|row| row.iter().map(|&s| to_distance(s)).collect()).collect();
        let ids_1based = shift_ids(&ids);
        let params = param_string(87, 64, &vec![p]);
        artifacts.push((params, dists, ids_1based));
    }

    // One artifact per probe value, each well-formed.
    assert_eq!(artifacts.len(), 4);
    for (i, (params, dists, ids)) in artifacts.iter().enumerate() {
        for (j, (other, _, _)) in artifacts.iter().enumerate() {
            if i != j {
                assert_ne!(params, other);
            }
        }
        assert_eq!(dists.len(), n_queries);
        assert_eq!(ids.len(), n_queries);
        for row in dists.iter() {
            assert_eq!(row.len(), 5);
            for &d in row.iter() {
                assert!(d.is_finite());
                assert!(d >= 0.0);
            }
        }
        for row in ids.iter() {
            assert_eq!(row.len(), 5);
            for &id in row.iter() {
                assert!(1 <= id && id <= n_rows as u64);
            }
        }
    }
    // At the full probe budget every query yields k neighbors.
    let (_, _, last_ids) = &artifacts[artifacts.len() - 1];
    for row in last_ids.iter() {
        assert_eq!(row.len(), k);
    }
}
