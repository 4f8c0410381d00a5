use sprofiler::error::ProfilerError;
use sprofiler::profile::{Action, Arch, SeccompProfile, SyscallRule};
use sprofiler::profile_util::{diff, extract_syscall_names, merge, DiffStatus};

fn gen_seccomp_profile(allow_syscalls: Vec<&str>) -> SeccompProfile {
    let mut names: Vec<String> = allow_syscalls.into_iter().map(String::from).collect();
    names.sort();

    SeccompProfile::new(
        Action::Errno,
        Some(vec![Arch::X86, Arch::X86_64]),
        Some(vec![SyscallRule::new(names, Action::Allow)]),
    )
}

fn gen_duplicate_syscalls_profile(allow_syscalls: Vec<&str>) -> SeccompProfile {
    let mut names: Vec<String> = allow_syscalls.into_iter().map(String::from).collect();
    names.sort();

    let syscalls = SyscallRule::new(names, Action::Allow);

    SeccompProfile::new(
        Action::Errno,
        Some(vec![Arch::X86, Arch::X86_64]),
        Some(vec![syscalls.clone(), syscalls.clone()]),
    )
}

#[test]
fn extract_syscall_names_give_single_syscall_name() {
    let profile = gen_seccomp_profile(vec!["mkdir"]);
    let syscall_names = extract_syscall_names(profile).unwrap();

    assert_eq!(syscall_names, vec!["mkdir".to_string()]);
}

#[test]
fn extract_syscall_names_give_2_syscall_name() {
    let profile = gen_seccomp_profile(vec!["mkdir", "chdir"]);
    let syscall_names = extract_syscall_names(profile).unwrap();

    // syscalls names must be sorted
    assert_eq!(
        syscall_names,
        vec!["chdir".to_string(), "mkdir".to_string()]
    );
}

#[test]
fn merge_profile_from_empty_data() {
    let profile = merge(Vec::new()).unwrap();

    assert_eq!(profile.default_action(), Action::Allow);
    assert!(profile.syscalls().is_none());
    assert!(profile.architectures().is_none());
}

#[test]
fn merge_profile_from_2_profiles() {
    let profile1 = gen_seccomp_profile(vec!["mkdir"]);
    let profile2 = gen_seccomp_profile(vec!["chdir"]);

    let act = merge(vec![profile1, profile2]).unwrap();

    let expect = gen_seccomp_profile(vec!["chdir", "mkdir"]);

    assert_eq!(act.default_action(), Action::Errno);
    assert_eq!(act.architectures(), expect.architectures());
    assert_eq!(act.syscalls(), expect.syscalls());
}

#[test]
fn merge_profile_from_duplicated_syscalls() {
    let profile1 = gen_duplicate_syscalls_profile(vec!["ptrace"]);
    let profile2 = gen_duplicate_syscalls_profile(vec!["chroot"]);

    let act = merge(vec![profile1, profile2]).unwrap();

    let expect = gen_seccomp_profile(vec!["chroot", "ptrace"]);

    assert_eq!(act.default_action(), Action::Errno);
    assert_eq!(act.architectures(), expect.architectures());
    assert_eq!(act.syscalls(), expect.syscalls());
}

#[test]
fn merge_profile_from_3_profiles() {
    let profile1 = gen_seccomp_profile(vec!["mkdir", "chdir"]);
    let profile2 = gen_seccomp_profile(vec!["accept", "bind"]);
    let profile3 = gen_seccomp_profile(vec!["getuid", "getgid"]);

    let act = merge(vec![profile1, profile2, profile3]).unwrap();

    let expect = gen_seccomp_profile(vec!["accept", "bind", "chdir", "getgid", "getuid", "mkdir"]);

    assert_eq!(act.default_action(), Action::Errno);
    assert_eq!(act.architectures(), expect.architectures());
    assert_eq!(act.syscalls(), expect.syscalls());
}

#[test]
fn merge_profile_duplicated_syscall() {
    let profile1 = gen_seccomp_profile(vec!["mkdir", "chdir"]);
    let profile2 = gen_seccomp_profile(vec!["chdir", "getpid"]);

    let act = merge(vec![profile1, profile2]).unwrap();

    let expect = gen_seccomp_profile(vec!["chdir", "getpid", "mkdir"]);

    assert_eq!(act.default_action(), Action::Errno);
    assert_eq!(act.architectures(), expect.architectures());
    assert_eq!(act.syscalls(), expect.syscalls());
}

#[test]
fn diff_equal_profile() {
    let profile1 = gen_seccomp_profile(vec!["mkdir"]);
    let profile2 = gen_seccomp_profile(vec!["mkdir"]);
    let map = diff(profile1, profile2).unwrap();

    assert_eq!(map.len(), 1);
    assert_eq!(map.get(&"mkdir".to_string()), Some(&DiffStatus::Both));
}

#[test]
fn diff_equal_profile_3_syscalls() {
    let profile1 = gen_seccomp_profile(vec!["getpid", "mkdir", "unshare"]);
    let profile2 = gen_seccomp_profile(vec!["getpid", "mkdir", "unshare"]);
    let map = diff(profile1, profile2).unwrap();

    assert_eq!(map.len(), 3);
    assert_eq!(map.get(&"getpid".to_string()), Some(&DiffStatus::Both));
    assert_eq!(map.get(&"mkdir".to_string()), Some(&DiffStatus::Both));
    assert_eq!(map.get(&"unshare".to_string()), Some(&DiffStatus::Both));
}

#[test]
fn diff_only_profile1_syscalls() {
    let profile1 = gen_seccomp_profile(vec!["getpid", "mkdir", "unshare"]);
    let profile2 = gen_seccomp_profile(vec!["getuid"]);
    let map = diff(profile1, profile2).unwrap();

    assert_eq!(map.len(), 4);
    assert_eq!(map.get(&"getpid".to_string()), Some(&DiffStatus::OnlyPath1));
    assert_eq!(map.get(&"mkdir".to_string()), Some(&DiffStatus::OnlyPath1));
    assert_eq!(
        map.get(&"unshare".to_string()),
        Some(&DiffStatus::OnlyPath1)
    );
    assert_eq!(map.get(&"getuid".to_string()), Some(&DiffStatus::OnlyPath2));
}

#[test]
fn diff_only_profile2_syscalls() {
    let profile1 = gen_seccomp_profile(vec!["getuid"]);
    let profile2 = gen_seccomp_profile(vec!["getpid", "mkdir", "unshare"]);
    let map = diff(profile1, profile2).unwrap();

    assert_eq!(map.len(), 4);
    assert_eq!(map.get(&"getpid".to_string()), Some(&DiffStatus::OnlyPath2));
    assert_eq!(map.get(&"mkdir".to_string()), Some(&DiffStatus::OnlyPath2));
    assert_eq!(
        map.get(&"unshare".to_string()),
        Some(&DiffStatus::OnlyPath2)
    );
    assert_eq!(map.get(&"getuid".to_string()), Some(&DiffStatus::OnlyPath1));
}

#[test]
fn merge_of_one_profile_is_that_profile() {
    let profile = gen_seccomp_profile(vec!["mkdir"]);
    let act = merge(vec![profile.clone()]).unwrap();
    assert_eq!(act, profile);
}

#[test]
fn merge_of_two_profiles_is_sorted() {
    let act = merge(vec![
        gen_seccomp_profile(vec!["mkdir", "chdir"]),
        gen_seccomp_profile(vec!["accept", "bind"]),
    ])
    .unwrap();
    assert_eq!(
        act,
        gen_seccomp_profile(vec!["accept", "bind", "chdir", "mkdir"])
    );
}

#[test]
fn merge_does_not_depend_on_order_or_repetition() {
    let a = gen_seccomp_profile(vec!["mkdir", "chdir", "read"]);
    let b = gen_seccomp_profile(vec!["write", "chdir"]);
    let ab = merge(vec![a.clone(), b.clone()]).unwrap();
    let ba = merge(vec![b.clone(), a.clone()]).unwrap();
    assert_eq!(ab, ba);
    assert_eq!(
        ab,
        gen_seccomp_profile(vec!["chdir", "mkdir", "read", "write"])
    );
    let aa = merge(vec![a.clone(), a.clone()]).unwrap();
    assert_eq!(aa, merge(vec![a]).unwrap());
}

#[test]
fn merge_normalizes_architectures_and_actions() {
    let input = SeccompProfile::new(
        Action::Kill,
        Some(vec![Arch::Aarch64]),
        Some(vec![
            SyscallRule::new(vec!["write".to_string(), "read".to_string()], Action::Log),
            SyscallRule::new(vec!["read".to_string()], Action::Trap),
        ]),
    );
    let act = merge(vec![input]).unwrap();
    assert_eq!(act, gen_seccomp_profile(vec!["read", "write"]));
}

#[test]
fn merge_skips_profiles_without_syscalls() {
    let without = SeccompProfile::new(Action::Errno, None, None);
    let with = gen_seccomp_profile(vec!["mkdir"]);
    let act = merge(vec![without.clone(), with, without.clone()]).unwrap();
    assert_eq!(act, gen_seccomp_profile(vec!["mkdir"]));

    let only = merge(vec![without]).unwrap();
    assert_eq!(only, gen_seccomp_profile(vec![]));
}

#[test]
fn extract_fails_without_syscall_section() {
    let profile = SeccompProfile::new(Action::Errno, None, None);
    assert_eq!(extract_syscall_names(profile), Err(ProfilerError::Profile));
    assert_eq!(
        extract_syscall_names(SeccompProfile::default()),
        Err(ProfilerError::Profile)
    );
}

#[test]
fn extract_of_no_rules_is_empty() {
    let profile = SeccompProfile::new(Action::Errno, None, Some(Vec::new()));
    assert_eq!(extract_syscall_names(profile), Ok(Vec::new()));
}

#[test]
fn extract_flattens_sorts_and_drops_duplicates() {
    let profile = gen_duplicate_syscalls_profile(vec!["write", "read", "write", "accept"]);
    assert_eq!(
        extract_syscall_names(profile),
        Ok(vec![
            "accept".to_string(),
            "read".to_string(),
            "write".to_string()
        ])
    );
}

#[test]
fn diff_fails_without_syscall_section() {
    let without = SeccompProfile::new(Action::Errno, None, None);
    let with = gen_seccomp_profile(vec!["mkdir"]);
    assert_eq!(
        diff(without.clone(), with.clone()).err(),
        Some(ProfilerError::Profile)
    );
    assert_eq!(diff(with, without).err(), Some(ProfilerError::Profile));
}

#[test]
fn diff_of_a_profile_with_itself_is_both_everywhere() {
    let profile = gen_seccomp_profile(vec!["read", "write", "openat", "close"]);
    let map = diff(profile.clone(), profile).unwrap();
    assert_eq!(map.len(), 4);
    for entry in map.entries() {
        assert_eq!(entry.status, DiffStatus::Both);
    }
}

#[test]
fn diff_three_against_one() {
    let map = diff(
        gen_seccomp_profile(vec!["a", "b", "c"]),
        gen_seccomp_profile(vec!["x"]),
    )
    .unwrap();
    assert_eq!(map.len(), 4);
    assert_eq!(map.get("a"), Some(&DiffStatus::OnlyPath1));
    assert_eq!(map.get("b"), Some(&DiffStatus::OnlyPath1));
    assert_eq!(map.get("c"), Some(&DiffStatus::OnlyPath1));
    assert_eq!(map.get("x"), Some(&DiffStatus::OnlyPath2));
    assert_eq!(map.get("y"), None);
}

#[test]
fn diff_in_the_other_order_swaps_the_sides() {
    let a = gen_seccomp_profile(vec!["read", "write", "mkdir"]);
    let b = gen_seccomp_profile(vec!["write", "chdir"]);
    let forth = diff(a.clone(), b.clone()).unwrap();
    let back = diff(b, a).unwrap();
    assert_eq!(forth.len(), 4);
    assert_eq!(back.len(), 4);
    let names: Vec<&str> = forth.entries().iter().map(|e| e.name.as_str()).collect();
    assert_eq!(names, vec!["chdir", "mkdir", "read", "write"]);
    assert_eq!(forth.get("read"), Some(&DiffStatus::OnlyPath1));
    assert_eq!(back.get("read"), Some(&DiffStatus::OnlyPath2));
    assert_eq!(forth.get("chdir"), Some(&DiffStatus::OnlyPath2));
    assert_eq!(back.get("chdir"), Some(&DiffStatus::OnlyPath1));
    assert_eq!(forth.get("write"), Some(&DiffStatus::Both));
    assert_eq!(back.get("write"), Some(&DiffStatus::Both));
}

#[test]
fn diff_fails_on_a_profile_without_names() {
    let no_rules = SeccompProfile::new(Action::Errno, None, Some(Vec::new()));
    let with_x = gen_seccomp_profile(vec!["x"]);
    assert_eq!(
        diff(no_rules.clone(), with_x.clone()).err(),
        Some(ProfilerError::Profile)
    );
    assert_eq!(
        diff(with_x.clone(), no_rules.clone()).err(),
        Some(ProfilerError::Profile)
    );
    assert_eq!(
        diff(no_rules.clone(), no_rules).err(),
        Some(ProfilerError::Profile)
    );

    let empty_rules = SeccompProfile::new(
        Action::Errno,
        Some(vec![Arch::X86_64]),
        Some(vec![
            SyscallRule::new(Vec::new(), Action::Allow),
            SyscallRule::new(Vec::new(), Action::Log),
        ]),
    );
    assert_eq!(
        diff(empty_rules.clone(), with_x.clone()).err(),
        Some(ProfilerError::Profile)
    );
    assert_eq!(diff(with_x, empty_rules).err(), Some(ProfilerError::Profile));
}

#[test]
fn diff_takes_names_from_any_rule() {
    let second_rule_only = SeccompProfile::new(
        Action::Errno,
        None,
        Some(vec![
            SyscallRule::new(Vec::new(), Action::Allow),
            SyscallRule::new(vec!["x".to_string()], Action::Allow),
        ]),
    );
    let map = diff(second_rule_only, gen_seccomp_profile(vec!["x", "y"])).unwrap();
    assert_eq!(map.len(), 2);
    assert_eq!(map.get("x"), Some(&DiffStatus::Both));
    assert_eq!(map.get("y"), Some(&DiffStatus::OnlyPath2));
}
