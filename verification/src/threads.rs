use vstd::prelude::*;

verus! {

/// Errors raised by configuration validation, before any data is touched.
#[derive(Debug, PartialEq, Eq, Structural, Clone, Copy)]
pub enum ConfigError {
    /// The number of cores to leave idle is at least the number available.
    IdleCoresTooLarge,
    /// A generated range needs at least two points.
    RangeTooShort,
    /// A log-spaced range needs positive bounds.
    LogBoundNotPositive,
    /// The probe tuple length does not match the cascade size.
    ProbeTupleMismatch,
}

/// Relies on num_cpus::get: the number of logical cores available to this
/// process. Its documentation promises at least one; beyond that the count
/// depends on the machine, so nothing more is stated.
#[verifier::external_body]
fn available_cores() -> (r: usize)
    ensures
        r >= 1,
{
    num_cpus::get()
}

/// The budget a machine with `cores` cores yields for an idle reservation:
/// what is left after the reservation, or a fail-fast error when nothing is.
pub open spec fn spec_thread_budget(cores: usize, idle: usize) -> Result<usize, ConfigError> {
    if idle < cores {
        Ok((cores - idle) as usize)
    } else {
        Err(ConfigError::IdleCoresTooLarge)
    }
}

/// The worker budget the process starts with: every available core minus
/// the reserved idle ones, failing fast if the reservation would leave no
/// worker. The result is the budget of some positive core count; reserving
/// nothing always succeeds, and a failure can only mean the reservation
/// met or exceeded that count.
pub fn configured_thread_budget(idle_cores: usize) -> (r: Result<usize, ConfigError>)
    ensures
        exists|c: usize| c >= 1 && r == #[trigger] spec_thread_budget(c, idle_cores),
        idle_cores == 0 ==> r is Ok,
        r matches Ok(b) ==> b >= 1,
        r matches Err(e) ==> e == ConfigError::IdleCoresTooLarge && idle_cores >= 1,
{
    let cores = available_cores();
    let r = thread_budget(cores, idle_cores);
    proof {
        assert(r == spec_thread_budget(cores, idle_cores));
    }
    r
}

/// Worker-thread budget: all available cores minus the reserved idle ones.
/// Fails fast when the reservation would leave no worker at all.
pub fn thread_budget(available_cores: usize, idle_cores: usize) -> (r: Result<
    usize,
    ConfigError,
>)
    ensures
        idle_cores < available_cores ==> r == Ok::<usize, ConfigError>(
            (available_cores - idle_cores) as usize,
        ),
        idle_cores >= available_cores ==> r == Err::<usize, ConfigError>(
            ConfigError::IdleCoresTooLarge,
        ),
{
    if idle_cores < available_cores {
        Ok(available_cores - idle_cores)
    } else {
        Err(ConfigError::IdleCoresTooLarge)
    }
}

/// Per-query-chunk size used when handing work to the search primitives:
/// the query count divided over twice the worker count, rounded up.
pub fn chunk_size(n_queries: usize, n_threads: usize) -> (r: usize)
    requires
        n_threads >= 1,
        n_queries + 2 * n_threads <= usize::MAX,
    ensures
        r == (n_queries + 2 * n_threads - 1) / (2 * n_threads),
{
    (n_queries + 2 * n_threads - 1) / (2 * n_threads)
}

} // verus!
