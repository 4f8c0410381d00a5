//! The syscall catalog: which names are syscalls on which architecture.

pub mod x86_64;

use crate::profile::Arch;
use vstd::prelude::*;

verus! {

/// `name` is a syscall that the catalog knows on `arch`.  Only the 64-bit
/// x86 interface is catalogued: on every other architecture no name is.
pub open spec fn valid_syscall(name: Seq<char>, arch: Arch) -> bool {
    arch == Arch::X86_64 && x86_64::syscall_name(name)
}

/// Tells whether `name` is a syscall on `arch`.
pub fn is_valid(name: &str, arch: Arch) -> (valid: bool)
    ensures
        valid == valid_syscall(name@, arch),
{
    match arch {
        Arch::X86_64 => x86_64::is_syscall(name),
        _ => false,
    }
}

} // verus!
