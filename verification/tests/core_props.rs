use rust_search::candidates::{candidate_prefixes, max_probe};
use rust_search::combos::{probe_groups, reversed};
use rust_search::decimal::u64_to_string;
use rust_search::driver::{training_plan, validate_probe_tuple, TrainingStage};
use rust_search::identity::{
    index_identifier, param_string, stored_index_identifier, sweep_param_strings,
};
use rust_search::loader::{assemble_batches, batch_bounds, load_batched, take_rows};
use rust_search::paths::{dataset_path, ensure_files_available, queries_path, result_path};
use rust_search::ranges::{fix_range_endpoints, validate_log_range, validate_range_points};
use rust_search::results::shift_ids;
use rust_search::threads::{chunk_size, configured_thread_budget, thread_budget, ConfigError};
use rust_search::timefmt::time_format;
use rust_search::timer::Timer;

fn linear_interp_u64(start: u64, end: u64, n: usize) -> Vec<u64> {
    let fstart = start as f64;
    let fend = end as f64;
    let fstep = (fend - fstart) / ((n - 1) as f64);
    (0..n).map(|i| (fstart + fstep * (i as f64)) as u64).collect()
}

fn log_interp_u64(start: u64, end: u64, n: usize) -> Vec<u64> {
    let lstart = (start as f64).ln();
    let lend = (end as f64).ln();
    let fstep = (lend - lstart) / ((n - 1) as f64);
    (0..n).map(|i| (lstart + fstep * (i as f64)).exp().round() as u64).collect()
}

#[test]
fn linspace_endpoints_exact() {
    let mut vals = linear_interp_u64(1, 10, 4);
    fix_range_endpoints(&mut vals, 1, 10);
    assert_eq!(vals, vec![1, 4, 7, 10]);
    assert_eq!(vals[0], 1);
    assert_eq!(vals[vals.len() - 1], 10);
}

#[test]
fn logspace_endpoints_exact() {
    let mut vals = log_interp_u64(1, 8, 4);
    fix_range_endpoints(&mut vals, 1, 8);
    assert_eq!(vals[0], 1);
    assert_eq!(vals[vals.len() - 1], 8);
    assert_eq!(vals, vec![1, 2, 4, 8]);
}

#[test]
fn endpoints_overwrite_drift() {
    let mut vals = vec![6, 9, 12];
    fix_range_endpoints(&mut vals, 7, 13);
    assert_eq!(vals, vec![7, 9, 13]);
}

#[test]
fn range_needs_two_points() {
    assert_eq!(validate_range_points(1), Err(ConfigError::RangeTooShort));
    assert_eq!(validate_range_points(2), Ok(()));
}

#[test]
fn log_range_needs_positive_bounds() {
    assert_eq!(validate_log_range(1, 100, 10), Ok(()));
    assert_eq!(validate_log_range(1, 8, 1), Err(ConfigError::RangeTooShort));
    assert_eq!(validate_log_range(0, 8, 4), Err(ConfigError::LogBoundNotPositive));
    assert_eq!(validate_log_range(1, 0, 4), Err(ConfigError::LogBoundNotPositive));
    assert_eq!(validate_log_range(0, 0, 1), Err(ConfigError::RangeTooShort));
}

#[test]
fn decimal_rendering() {
    assert_eq!(u64_to_string(0).as_str(), "0");
    assert_eq!(u64_to_string(7).as_str(), "7");
    assert_eq!(u64_to_string(1234567890).as_str(), "1234567890");
}

#[test]
fn time_format_units() {
    assert_eq!(time_format(500).as_str(), "500ms");
    assert_eq!(time_format(0).as_str(), "0ms");
    assert_eq!(time_format(1500).as_str(), "1s500ms");
    assert_eq!(time_format(61_234).as_str(), "1m01s234ms");
    assert_eq!(time_format(3_661_234).as_str(), "1h01m01s234ms");
    assert_eq!(time_format(59_005).as_str(), "59s005ms");
}

#[test]
fn time_format_minute_boundary_shows_millis_only() {
    // At 60.5 s the seconds digit is zero again, and only the milliseconds
    // are shown, exactly as the formatter has always behaved.
    assert_eq!(time_format(60_500).as_str(), "500ms");
}

#[test]
fn timer_yields_formatted_elapsed() {
    let t = Timer::new();
    let s = t.elapsed_str();
    assert!(s.ends_with("ms"));
}

#[test]
fn shift_ids_one_based() {
    let ids = vec![vec![0, 999], vec![5, 42]];
    let shifted = shift_ids(&ids);
    assert_eq!(shifted, vec![vec![1, 1000], vec![6, 43]]);
}

#[test]
fn probe_groups_are_all_combinations() {
    let vals = vec![8, 4, 2, 1];
    let groups = probe_groups(&vals, 2);
    assert_eq!(
        groups,
        vec![
            vec![1, 2],
            vec![1, 4],
            vec![1, 8],
            vec![2, 4],
            vec![2, 8],
            vec![4, 8],
        ]
    );
}

#[test]
fn probe_groups_count_and_distinctness() {
    let vals = vec![16, 8, 4, 2, 1];
    let n = 3;
    let groups = probe_groups(&vals, n);
    // C(5, 3) distinct tuples of length 3 with distinct entries.
    assert_eq!(groups.len(), 10);
    for g in &groups {
        assert_eq!(g.len(), n);
        for a in 0..g.len() {
            for b in (a + 1)..g.len() {
                assert_ne!(g[a], g[b]);
            }
        }
    }
    for i in 0..groups.len() {
        for j in (i + 1)..groups.len() {
            assert_ne!(groups[i], groups[j]);
        }
    }
}

#[test]
fn probe_groups_single_stage() {
    let vals = vec![8, 4];
    let groups = probe_groups(&vals, 1);
    assert_eq!(groups, vec![vec![4], vec![8]]);
}

#[test]
fn reversed_probe_values() {
    assert_eq!(reversed(&vec![8, 4, 2, 1]), vec![1, 2, 4, 8]);
}

#[test]
fn max_probe_finds_largest() {
    assert_eq!(max_probe(&vec![1, 8, 4, 2]), 8);
    assert_eq!(max_probe(&vec![3]), 3);
}

#[test]
fn identity_strings_exact() {
    let id = index_identifier(&vec![16], 100, 1000, 64, "0.1");
    assert_eq!(
        id.as_str(),
        "StochasticHIOB(n_bits=[16],n_its=100,n_samples=1000,batch_its=64,noise_std=0.1)"
    );
    let id2 = index_identifier(&vec![24, 16], 300, 20000, 128, "0");
    assert_eq!(
        id2.as_str(),
        "StochasticHIOB(n_bits=[24, 16],n_its=300,n_samples=20000,batch_its=128,noise_std=0)"
    );
    let p = param_string(87, 64, &vec![8, 4]);
    assert_eq!(
        p.as_str(),
        "index_params=(scale%=87,its_per_sample=64),query_params=(nprobe=[8, 4])"
    );
    let stored = stored_index_identifier(id.as_str());
    assert_eq!(
        stored.as_str(),
        "StochasticHIOB(n_bits=[16],n_its=100,n_samples=1000,batch_its=64,noise_std=0.1) + brute-force"
    );
}

#[test]
fn identity_strings_injective() {
    let base = index_identifier(&vec![16], 100, 1000, 64, "0.1");
    assert_ne!(base, index_identifier(&vec![24], 100, 1000, 64, "0.1"));
    assert_ne!(base, index_identifier(&vec![16, 24], 100, 1000, 64, "0.1"));
    assert_ne!(base, index_identifier(&vec![16], 101, 1000, 64, "0.1"));
    assert_ne!(base, index_identifier(&vec![16], 100, 999, 64, "0.1"));
    assert_ne!(base, index_identifier(&vec![16], 100, 1000, 65, "0.1"));
    assert_ne!(base, index_identifier(&vec![16], 100, 1000, 64, "0.2"));
    assert_eq!(base, index_identifier(&vec![16], 100, 1000, 64, "0.1"));
    let p = param_string(87, 64, &vec![8, 4]);
    assert_ne!(p, param_string(88, 64, &vec![8, 4]));
    assert_ne!(p, param_string(87, 63, &vec![8, 4]));
    assert_ne!(p, param_string(87, 64, &vec![8, 2]));
    assert_ne!(p, param_string(87, 64, &vec![8]));
    assert_eq!(p, param_string(87, 64, &vec![8, 4]));
}

#[test]
fn sweep_param_strings_one_per_probe() {
    let probes = vec![1, 2, 4, 8];
    let params = sweep_param_strings(87, 64, &probes);
    assert_eq!(params.len(), 4);
    assert_eq!(
        params[0].as_str(),
        "index_params=(scale%=87,its_per_sample=64),query_params=(nprobe=[1])"
    );
    for i in 0..params.len() {
        assert_eq!(params[i], param_string(87, 64, &vec![probes[i]]));
        for j in (i + 1)..params.len() {
            assert_ne!(params[i], params[j]);
        }
    }
}

#[test]
fn paths_exact() {
    assert_eq!(
        dataset_path("data", "clip768v2", "300K").as_str(),
        "data/clip768v2/300K/dataset.h5"
    );
    assert_eq!(queries_path("data", "clip768v2").as_str(), "data/clip768v2/query.h5");
    assert_eq!(
        result_path("result", "clip768v2", "300K", "idx", "params").as_str(),
        "result/clip768v2/300K/idx/params.h5"
    );
}

#[test]
fn download_plan_lists_queries_then_dataset() {
    let plan = ensure_files_available("data", "clip768v2", "300K");
    assert_eq!(plan.len(), 2);
    assert_eq!(
        plan[0].0.as_str(),
        "http://sisap-23-challenge.s3.amazonaws.com/SISAP23-Challenge/public-queries-10k-clip768v2.h5"
    );
    assert_eq!(plan[0].1.as_str(), "data/clip768v2/query.h5");
    assert_eq!(
        plan[1].0.as_str(),
        "http://sisap-23-challenge.s3.amazonaws.com/SISAP23-Challenge/laion2B-en-clip768v2-n=300K.h5"
    );
    assert_eq!(plan[1].1.as_str(), "data/clip768v2/300K/dataset.h5");
}

#[test]
fn batch_bounds_layout() {
    assert_eq!(batch_bounds(7, 3), vec![(0, 3), (3, 6), (6, 7)]);
    assert_eq!(batch_bounds(10, 300_000), vec![(0, 10)]);
    assert_eq!(batch_bounds(0, 5), Vec::<(usize, usize)>::new());
    assert_eq!(batch_bounds(6, 3), vec![(0, 3), (3, 6)]);
}

#[test]
fn batch_load_reproduces_source() {
    let source: Vec<Vec<f32>> = (0..7)
        .map(|i| (0..3).map(|j| (i * 3 + j) as f32 * 0.5).collect())
        .collect();
    let bounds = batch_bounds(source.len(), 3);
    // Batches may be read in any completion order; reading them is
    // independent per batch.
    let mut batches: Vec<Vec<Vec<f32>>> = vec![Vec::new(); bounds.len()];
    for bi in (0..bounds.len()).rev() {
        batches[bi] = take_rows(&source, bounds[bi].0, bounds[bi].1);
    }
    let loaded = assemble_batches(source.len(), 3, &bounds, &batches);
    assert_eq!(loaded, source);
}

#[test]
fn batch_load_order_independent() {
    let source: Vec<Vec<u64>> = (0..10).map(|i| vec![i, i + 1]).collect();
    let bounds = batch_bounds(source.len(), 4);
    let forward: Vec<Vec<Vec<u64>>> =
        bounds.iter().map(|&(s, e)| take_rows(&source, s, e)).collect();
    let mut backward: Vec<Vec<Vec<u64>>> = vec![Vec::new(); bounds.len()];
    for bi in (0..bounds.len()).rev() {
        backward[bi] = take_rows(&source, bounds[bi].0, bounds[bi].1);
    }
    let a = assemble_batches(source.len(), 2, &bounds, &forward);
    let b = assemble_batches(source.len(), 2, &bounds, &backward);
    assert_eq!(a, b);
    assert_eq!(a, source);
}

#[test]
fn load_batched_reproduces_source_for_any_batch_size() {
    let source: Vec<Vec<u64>> = (0..11).map(|i| vec![i, 2 * i, i + 7]).collect();
    let a = load_batched(&source, 3, 4);
    let b = load_batched(&source, 3, 5);
    let c = load_batched(&source, 3, 100);
    assert_eq!(a, source);
    assert_eq!(b, source);
    assert_eq!(c, source);
    assert_eq!(a, b);
    assert_eq!(load_batched(&Vec::<Vec<u64>>::new(), 3, 4), Vec::<Vec<u64>>::new());
}

#[test]
fn candidate_prefix_rows() {
    let all = vec![vec![5, 3, 2, 9], vec![1, 2, 8, 7]];
    let p2 = candidate_prefixes(&all, 2);
    assert_eq!(p2, vec![vec![5, 3], vec![1, 2]]);
    let p4 = candidate_prefixes(&all, 4);
    assert_eq!(p4, all);
}

#[test]
fn candidate_prefix_invariant_concrete() {
    let all = vec![vec![5, 3, 2, 9], vec![1, 2, 8, 7], vec![4, 4, 4, 4]];
    for p1 in 0..=4usize {
        for p2 in p1..=4usize {
            let small = candidate_prefixes(&all, p1);
            let large = candidate_prefixes(&all, p2);
            for q in 0..all.len() {
                assert_eq!(&small[q][..], &large[q][..p1]);
            }
        }
    }
}

#[test]
fn thread_budget_checks() {
    assert_eq!(thread_budget(8, 2), Ok(6));
    assert_eq!(thread_budget(2, 2), Err(ConfigError::IdleCoresTooLarge));
    assert_eq!(thread_budget(2, 5), Err(ConfigError::IdleCoresTooLarge));
    assert!(configured_thread_budget(0).unwrap() >= 1);
    assert_eq!(configured_thread_budget(usize::MAX), Err(ConfigError::IdleCoresTooLarge));
}

#[test]
fn chunk_size_rounds_up() {
    assert_eq!(chunk_size(10, 3), 2);
    assert_eq!(chunk_size(12, 3), 2);
    assert_eq!(chunk_size(13, 3), 3);
    assert_eq!(chunk_size(1, 1), 1);
}

#[test]
fn training_plan_one_stage_per_width() {
    let plan = training_plan(&vec![24, 16], 20000, 64, 300);
    assert_eq!(plan.len(), 2);
    assert_eq!(
        plan[0],
        TrainingStage { n_bits: 24, sample_size: 20000, its_per_sample: 64, n_its: 300 }
    );
    assert_eq!(
        plan[1],
        TrainingStage { n_bits: 16, sample_size: 20000, its_per_sample: 64, n_its: 300 }
    );
}

#[test]
fn probe_tuple_must_match_cascade() {
    assert_eq!(validate_probe_tuple(2, 2), Ok(()));
    assert_eq!(validate_probe_tuple(1, 2), Err(ConfigError::ProbeTupleMismatch));
}
