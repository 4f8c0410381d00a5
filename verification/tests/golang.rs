use sprofiler::error::ProfilerError;
use sprofiler::lang::golang::{
    allowed_syscalls, captured_identifiers, is_syscalls, join_symbols, runtime_baseline, scan,
    syscalls_from_matches, PACKAGE_MARKER, SYMBOL_PATTERN,
};

fn strings(names: &[&str]) -> Vec<String> {
    names.iter().map(|name| name.to_string()).collect()
}

fn baseline_with(extra: &[&str]) -> Vec<String> {
    let mut names = runtime_baseline();
    names.extend(strings(extra));
    names.sort();
    names.dedup();
    names
}

#[test]
fn baseline_is_sorted_and_in_the_catalog() {
    let names = runtime_baseline();
    assert_eq!(names.len(), 34);
    let mut sorted = names.clone();
    sorted.sort();
    sorted.dedup();
    assert_eq!(names, sorted);
    for name in &names {
        assert!(is_syscalls(name), "{}", name);
    }
    for expected in ["clone", "execve", "futex", "mmap", "rt_sigaction", "read", "write"] {
        assert!(names.iter().any(|name| name == expected), "{}", expected);
    }
}

#[test]
fn is_syscalls_knows_the_catalog() {
    assert!(is_syscalls("read"));
    assert!(is_syscalls("mkdir"));
    assert!(is_syscalls("_sysctl"));
    assert!(is_syscalls("set_mempolicy_home_node"));
    assert!(is_syscalls("kcmp"));
    assert!(!is_syscalls("Read"));
    assert!(!is_syscalls("syscall6"));
    assert!(!is_syscalls(""));
    assert!(!is_syscalls("rea"));
    assert!(!is_syscalls("reads"));
}

#[test]
fn join_symbols_puts_a_line_feed_before_each() {
    assert_eq!(join_symbols(&Vec::new()), "");
    assert_eq!(join_symbols(&strings(&["a"])), "\na");
    assert_eq!(
        join_symbols(&strings(&["main.main", "", "syscall.Read"])),
        "\nmain.main\n\nsyscall.Read"
    );
}

#[test]
fn scan_finds_every_reference() {
    let blob = "\nmain.main\nsyscall.Mkdir\nsyscall.Syscall6\nos.syscall.read\nsyscall.Mkdir";
    assert_eq!(
        scan(SYMBOL_PATTERN, blob),
        Ok(strings(&[
            "syscall.Mkdir",
            "syscall.Syscall6",
            "syscall.read",
            "syscall.Mkdir"
        ]))
    );
}

#[test]
fn scan_stops_at_what_is_no_identifier() {
    assert_eq!(
        scan(SYMBOL_PATTERN, "syscall.Read.func1 syscall.x syscall.9p syscall_Open(int)"),
        Ok(strings(&["syscall.Read", "syscall_Open"]))
    );
    assert_eq!(scan(SYMBOL_PATTERN, "syscall\nRead"), Ok(Vec::new()));
    assert_eq!(scan(SYMBOL_PATTERN, ""), Ok(Vec::new()));
}

#[test]
fn scan_rejects_a_broken_pattern() {
    assert_eq!(scan("syscall.(", "syscall.Read"), Err(ProfilerError::Pattern));
}

#[test]
fn identifiers_lose_the_marker_and_the_upper_case() {
    assert_eq!(PACKAGE_MARKER, "syscall.");
    assert_eq!(
        captured_identifiers(&strings(&[
            "syscall.Mkdir",
            "syscall.RawSyscall6",
            "syscall_Open",
            "syscall.syscall.Read",
            "syscall.",
            ""
        ])),
        strings(&["mkdir", "rawsyscall6", "syscall_open", "read", "", ""])
    );
}

#[test]
fn allowed_syscalls_of_nothing_is_the_baseline() {
    assert_eq!(allowed_syscalls(&Vec::new()), runtime_baseline());
}

#[test]
fn allowed_syscalls_keep_only_catalog_names() {
    let found = allowed_syscalls(&strings(&[
        "mkdir", "syscall6", "chdir", "mkdir", "Chroot", "read", "accept",
    ]));
    assert_eq!(found, baseline_with(&["accept", "chdir", "mkdir"]));
    assert!(!found.iter().any(|name| name == "syscall6"));
    assert!(!found.iter().any(|name| name == "Chroot"));
    for name in &found {
        assert!(is_syscalls(name));
    }
}

#[test]
fn syscalls_from_matches_is_sorted_and_repeatable() {
    let matches = strings(&[
        "syscall.Unlinkat",
        "syscall.Mkdir",
        "syscall.Syscall",
        "syscall.Mkdir",
        "syscall.Getpid",
        "syscall.forkExec",
    ]);
    let first = syscalls_from_matches(&matches);
    let second = syscalls_from_matches(&matches);
    assert_eq!(first, second);
    assert_eq!(first, baseline_with(&["mkdir", "unlinkat"]));
    let mut reversed = matches.clone();
    reversed.reverse();
    assert_eq!(syscalls_from_matches(&reversed), first);
}
