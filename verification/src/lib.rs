//! Static derivation of seccomp allow-lists from compiled binaries, and the
//! merge and diff algebra over seccomp profiles.

pub mod arch;
pub mod error;
pub mod lang;
pub mod names;
pub mod oci;
pub mod profile;
pub mod profile_util;
pub mod symbols;
pub mod text;
