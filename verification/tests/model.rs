use sprofiler::arch::is_valid;
use sprofiler::arch::x86_64::is_syscall;
use sprofiler::error::ProfilerError;
use sprofiler::names::sorted_unique;
use sprofiler::oci::{State, Status};
use sprofiler::profile::{Action, Arch, SeccompProfile, SyscallRule};
use sprofiler::text::{compare_text, same_text, TextOrder};
use std::path::PathBuf;

fn strings(names: &[&str]) -> Vec<String> {
    names.iter().map(|name| name.to_string()).collect()
}

#[test]
fn compare_text_is_lexicographic() {
    assert_eq!(compare_text("", ""), TextOrder::Same);
    assert_eq!(compare_text("", "a"), TextOrder::Before);
    assert_eq!(compare_text("a", ""), TextOrder::After);
    assert_eq!(compare_text("read", "read"), TextOrder::Same);
    assert_eq!(compare_text("read", "readv"), TextOrder::Before);
    assert_eq!(compare_text("readv", "read"), TextOrder::After);
    assert_eq!(compare_text("chdir", "mkdir"), TextOrder::Before);
    assert_eq!(compare_text("Z", "a"), TextOrder::Before);
    assert_eq!(compare_text("_sysctl", "accept"), TextOrder::Before);
    assert_eq!(compare_text("pread64", "pread_"), TextOrder::Before);
}

#[test]
fn compare_text_agrees_with_std_beyond_ascii() {
    let samples = ["", "a", "ab", "b", "é", "e", "z", "日本", "日", "\u{10000}", "\u{ffff}", "~"];
    for left in samples {
        for right in samples {
            let expected = match left.cmp(right) {
                std::cmp::Ordering::Less => TextOrder::Before,
                std::cmp::Ordering::Equal => TextOrder::Same,
                std::cmp::Ordering::Greater => TextOrder::After,
            };
            assert_eq!(compare_text(left, right), expected, "{:?} {:?}", left, right);
            assert_eq!(same_text(left, right), left == right);
        }
    }
}

#[test]
fn sorted_unique_sorts_and_drops_duplicates() {
    assert_eq!(sorted_unique(&Vec::new()), Vec::<String>::new());
    assert_eq!(
        sorted_unique(&strings(&["mkdir", "chdir", "mkdir", "accept", "chdir"])),
        strings(&["accept", "chdir", "mkdir"])
    );
    let once = sorted_unique(&strings(&["b", "a", "c"]));
    assert_eq!(sorted_unique(&once), once);
}

#[test]
fn catalog_is_for_x86_64_only() {
    assert!(is_valid("read", Arch::X86_64));
    assert!(is_valid("openat2", Arch::X86_64));
    assert!(!is_valid("no_such_call", Arch::X86_64));
    assert!(!is_valid("puts", Arch::X86_64));
    assert!(!is_valid("", Arch::X86_64));
    for arch in [
        Arch::Native,
        Arch::X86,
        Arch::X32,
        Arch::Arm,
        Arch::Aarch64,
        Arch::Mips,
        Arch::Mips64,
        Arch::Mips64n32,
        Arch::Mipsel,
        Arch::Mipsel64,
        Arch::Mipsel64n32,
        Arch::Ppc,
        Arch::Ppc64,
        Arch::Ppc64le,
        Arch::S390,
        Arch::S390x,
    ] {
        assert!(!is_valid("read", arch));
        assert!(!is_valid("", arch));
    }
}

#[test]
fn catalog_holds_names_of_every_initial() {
    for name in [
        "_sysctl", "accept4", "bpf", "clone3", "dup3", "execveat", "futex_waitv", "getrandom",
        "io_uring_enter", "kexec_load", "landlock_add_rule", "mq_open", "newfstatat",
        "open_by_handle_at", "pwritev2", "quotactl_fd", "rseq", "statx", "tgkill", "userfaultfd",
        "vmsplice", "writev",
    ] {
        assert!(is_syscall(name), "{}", name);
    }
    for name in ["", "a", "puts", "xstat", "zzz", "read ", " read", "READ", "socketcall"] {
        assert!(!is_syscall(name), "{:?}", name);
    }
}

#[test]
fn error_messages() {
    assert_eq!(ProfilerError::Parse.message(), "binary is not a readable object file");
    assert_eq!(ProfilerError::Config.message(), "function-to-syscall map is malformed");
    assert_eq!(ProfilerError::Pattern.message(), "symbol pattern was rejected");
    assert_eq!(ProfilerError::Profile.message(), "profile has no syscalls");
}

#[test]
fn default_profile_is_empty() {
    let profile = SeccompProfile::default();
    assert_eq!(profile.default_action(), Action::Allow);
    assert_eq!(profile.default_errno_ret, None);
    assert!(profile.architectures().is_none());
    assert!(profile.flags.is_none());
    assert!(profile.listener_path.is_none());
    assert!(profile.listener_metadata.is_none());
    assert!(profile.syscalls().is_none());
    assert!(!profile.is_enforcing_allow_list());
}

#[test]
fn allow_list_profile() {
    let profile = SeccompProfile::allow_list(strings(&["read", "write"]), vec![Arch::X86_64]);
    assert_eq!(profile.default_action(), Action::Errno);
    assert_eq!(profile.architectures(), &Some(vec![Arch::X86_64]));
    let rules = profile.syscalls().as_ref().unwrap();
    assert_eq!(rules.len(), 1);
    assert_eq!(rules[0].names(), &strings(&["read", "write"]));
    assert_eq!(rules[0].action(), Action::Allow);
    assert_eq!(rules[0].errno_ret, None);
    assert_eq!(rules[0].args, None);
    assert_eq!(rules[0], SyscallRule::allowing(strings(&["read", "write"])));
    assert!(profile.is_enforcing_allow_list());
}

#[test]
fn enforcing_allow_list_shape() {
    let rule = SyscallRule::new(strings(&["read"]), Action::Allow);
    let good = SeccompProfile::new(Action::Errno, None, Some(vec![rule.clone(), rule.clone()]));
    assert!(good.is_enforcing_allow_list());

    let allows = SeccompProfile::new(Action::Allow, None, Some(vec![rule.clone()]));
    assert!(!allows.is_enforcing_allow_list());

    let no_section = SeccompProfile::new(Action::Errno, None, None);
    assert!(!no_section.is_enforcing_allow_list());

    let no_rule = SeccompProfile::new(Action::Errno, None, Some(Vec::new()));
    assert!(!no_rule.is_enforcing_allow_list());

    let empty_rule = SyscallRule::new(Vec::new(), Action::Allow);
    let with_empty = SeccompProfile::new(Action::Errno, None, Some(vec![rule.clone(), empty_rule]));
    assert!(!with_empty.is_enforcing_allow_list());

    let logging = SyscallRule::new(strings(&["read"]), Action::Log);
    let with_log = SeccompProfile::new(Action::Errno, None, Some(vec![rule, logging]));
    assert!(!with_log.is_enforcing_allow_list());
}

#[test]
fn container_status() {
    assert_eq!(Status::Creating.name(), "creating");
    assert_eq!(Status::Created.name(), "created");
    assert_eq!(Status::Running.name(), "running");
    assert_eq!(Status::Stopped.name(), "stopped");

    let state = State {
        oci_version: "1.0.2".to_string(),
        id: "c1".to_string(),
        status: Status::Running,
        pid: Some(42),
        bundle: PathBuf::from("/run/c1"),
        annotations: None,
        created: None,
    };
    let copy = state.clone();
    assert_eq!(copy.status, Status::Running);
    assert_eq!(copy.bundle, PathBuf::from("/run/c1"));
    assert_eq!(copy.pid, Some(42));
}
