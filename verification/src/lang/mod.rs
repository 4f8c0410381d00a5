//! The profilers, one for each kind of binary.

pub mod c;
pub mod golang;

use crate::error::ProfilerError;
use crate::profile::{ProfileModel, SeccompProfile};
use vstd::prelude::*;

verus! {

/// What every profiler can do: derive the profile of the binary it holds.
pub trait SeccompProfiler {
    /// What the analysis gives: a profile, or the reason why there is none.
    spec fn analysis(&self) -> Result<ProfileModel, ProfilerError>;

    /// Analyzes the binary.
    fn analyze(&self) -> (result: Result<SeccompProfile, ProfilerError>)
        ensures
            match self.analysis() {
                Ok(profile) => result matches Ok(found) && found@ == profile,
                Err(error) => result matches Err(found) && found == error,
            },
    ;
}

} // verus!
