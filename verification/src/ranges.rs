use vstd::prelude::*;
use crate::threads::ConfigError;

verus! {

/// Checks that a requested range has enough points to be meaningful:
/// a generated range needs at least two, its two endpoints.
pub fn validate_range_points(n_vals: usize) -> (r: Result<(), ConfigError>)
    ensures
        r == Ok::<(), ConfigError>(()) <==> n_vals >= 2,
        n_vals < 2 ==> r == Err::<(), ConfigError>(ConfigError::RangeTooShort),
{
    if n_vals >= 2 {
        Ok(())
    } else {
        Err(ConfigError::RangeTooShort)
    }
}

/// Checks a requested log-spaced range: it needs at least two points, and
/// both bounds must be positive, since their logarithms anchor the
/// interpolation. Invalid input fails fast, before anything is computed.
pub fn validate_log_range(start: u64, end: u64, n_vals: usize) -> (r: Result<(), ConfigError>)
    ensures
        r == Ok::<(), ConfigError>(()) <==> (n_vals >= 2 && start >= 1 && end >= 1),
        n_vals < 2 ==> r == Err::<(), ConfigError>(ConfigError::RangeTooShort),
        n_vals >= 2 && (start == 0 || end == 0) ==> r == Err::<(), ConfigError>(
            ConfigError::LogBoundNotPositive,
        ),
{
    if n_vals < 2 {
        Err(ConfigError::RangeTooShort)
    } else if start == 0 || end == 0 {
        Err(ConfigError::LogBoundNotPositive)
    } else {
        Ok(())
    }
}

/// Overwrites the first and last entries of an interpolated range with the
/// requested endpoints. Interpolation is done in floating point by the
/// caller and may drift; the generated range owes exact endpoints, and this
/// correction is what guarantees them.
pub fn fix_range_endpoints(vals: &mut Vec<u64>, start: u64, end: u64)
    requires
        old(vals).len() >= 2,
    ensures
        final(vals).len() == old(vals).len(),
        final(vals)[0] == start,
        final(vals)[final(vals).len() - 1] == end,
        forall|i: int|
            0 < i < final(vals).len() - 1 ==> final(vals)[i] == old(vals)[i],
{
    let n = vals.len();
    vals[0] = start;
    vals[n - 1] = end;
}

} // verus!
