//! Why an operation on binaries or profiles gave no result.

use vstd::prelude::*;

verus! {

/// The ways in which profiling, merging and comparing can fail.
#[derive(Clone, Copy, Debug, PartialEq, Eq, Structural)]
pub enum ProfilerError {
    /// The binary image is no object file of a known format, or its symbol
    /// table cannot be read.
    Parse,
    /// The function-to-syscall document is not a flat JSON object of string
    /// arrays.
    Config,
    /// The symbol pattern was not accepted by the pattern engine.
    Pattern,
    /// A profile has no syscall section to take names from.
    Profile,
}

impl ProfilerError {
    /// A short description for messages.
    pub fn message(&self) -> (text: &'static str)
        ensures
            text@ == match *self {
                ProfilerError::Parse => "binary is not a readable object file"@,
                ProfilerError::Config => "function-to-syscall map is malformed"@,
                ProfilerError::Pattern => "symbol pattern was rejected"@,
                ProfilerError::Profile => "profile has no syscalls"@,
            },
    {
        match self {
            ProfilerError::Parse => "binary is not a readable object file",
            ProfilerError::Config => "function-to-syscall map is malformed",
            ProfilerError::Pattern => "symbol pattern was rejected",
            ProfilerError::Profile => "profile has no syscalls",
        }
    }
}

} // verus!
