use vstd::prelude::*;
use crate::threads::ConfigError;

verus! {

/// One stage of the encoder cascade to train: its code width plus the
/// hyperparameters shared by every stage.
#[derive(PartialEq, Eq, Structural, Clone, Copy, Debug)]
pub struct TrainingStage {
    pub n_bits: u64,
    pub sample_size: u64,
    pub its_per_sample: u64,
    pub n_its: u64,
}

/// The cascade training plan: one stage per requested code width, in the
/// caller's order, every stage trained on the same data with the same
/// shared hyperparameters.
pub fn training_plan(
    n_bitss: &Vec<u64>,
    sample_size: u64,
    its_per_sample: u64,
    n_its: u64,
) -> (r: Vec<TrainingStage>)
    ensures
        r.len() == n_bitss.len(),
        forall|i: int|
            0 <= i < r.len() ==> r[i] == (TrainingStage {
                n_bits: n_bitss[i],
                sample_size,
                its_per_sample,
                n_its,
            }),
{
    let mut r: Vec<TrainingStage> = Vec::new();
    let mut i: usize = 0;
    while i < n_bitss.len()
        invariant
            i <= n_bitss.len(),
            r.len() == i,
            forall|j: int|
                0 <= j < i ==> r[j] == (TrainingStage {
                    n_bits: n_bitss[j],
                    sample_size,
                    its_per_sample,
                    n_its,
                }),
        decreases n_bitss.len() - i,
    {
        r.push(TrainingStage { n_bits: n_bitss[i], sample_size, its_per_sample, n_its });
        i += 1;
    }
    r
}

/// Fail-fast check of the invariant that a probe tuple assigns exactly one
/// probe count to each cascade stage: a mismatch is a programming error,
/// never silently truncated or padded.
pub fn validate_probe_tuple(tuple_len: usize, cascade_len: usize) -> (r: Result<(), ConfigError>)
    ensures
        r == Ok::<(), ConfigError>(()) <==> tuple_len == cascade_len,
        tuple_len != cascade_len ==> r == Err::<(), ConfigError>(ConfigError::ProbeTupleMismatch),
{
    if tuple_len == cascade_len {
        Ok(())
    } else {
        Err(ConfigError::ProbeTupleMismatch)
    }
}

} // verus!
