use vstd::prelude::*;

verus! {

/// The ways a benchmark run can fail.
#[derive(Clone, Copy, Debug, PartialEq, Eq, Structural)]
pub enum BenchError {
    /// The erasure derivation refused its parameters; fatal to setup.
    EncodingError,
    /// A recovery completed without data; the whole run stops.
    AbortedRun,
}

} // verus!
