//! Orchestration layer of an approximate-nearest-neighbor benchmarking
//! harness: batched loading of a large embedding matrix, coordination of a
//! cascade of binary-code encoders, generation of the probe-count sweep,
//! candidate slicing for the reuse-based tuning path, and the exact result
//! conventions the artifact consumer relies on (1-based ids, canonical
//! identity strings, exact range endpoints).
//!
//! The numeric engine behind training, hamming filtering and exact
//! refinement, together with all floating-point work and input/output, is an
//! external collaborator driven by the binary around this library.

pub mod candidates;
pub mod combos;
pub mod decimal;
pub mod driver;
pub mod identity;
pub mod loader;
pub mod paths;
pub mod ranges;
pub mod results;
pub mod strfmt;
pub mod threads;
pub mod timefmt;
pub mod timer;
