use vstd::prelude::*;

verus! {

/// The ways a sample can fail.
#[derive(Debug, Clone, Copy, PartialEq, Eq, Structural)]
pub enum SampleError {
    /// A counter source could not be read.
    Io,
    /// An expected line or column is absent or not a number.
    Parse,
    /// Two counter reads did not advance, or went backwards.
    Delta,
    /// The storage engine refused an operation.
    Storage,
}

} // verus!
