use sprofiler::error::ProfilerError;
use sprofiler::lang::c::{
    allow_syscall_list_from_symbols, imported_symbols, parse_syscall_map, profile_from_symbols,
    CSeccompProfiler, FunctionSyscallMap,
};
use sprofiler::profile::{Action, Arch, SeccompProfile, SyscallRule};
use sprofiler::lang::SeccompProfiler;

fn strings(names: &[&str]) -> Vec<String> {
    names.iter().map(|name| name.to_string()).collect()
}

#[test]
fn test_allow_syscall_list_from_symbols() {
    let mut fn_to_syscall = FunctionSyscallMap::new();
    fn_to_syscall.insert("puts".to_string(), vec!["write".to_string()]);
    let symbols = vec!["puts".to_string()];

    let syscalls = allow_syscall_list_from_symbols(symbols, fn_to_syscall);
    assert_eq!(syscalls, vec!["write".to_string()])
}

#[test]
fn symbols_without_entry_give_nothing() {
    let mut table = FunctionSyscallMap::new();
    table.insert("puts".to_string(), strings(&["write"]));
    let syscalls = allow_syscall_list_from_symbols(strings(&["printf", "malloc"]), table);
    assert!(syscalls.is_empty());
}

#[test]
fn syscalls_keep_order_and_duplicates() {
    let mut table = FunctionSyscallMap::new();
    table.insert("puts".to_string(), strings(&["write", "fstat"]));
    table.insert("fopen".to_string(), strings(&["openat", "fstat"]));
    table.insert("exit".to_string(), strings(&["exit_group"]));
    let symbols = strings(&["fopen", "memcpy", "puts", "fopen"]);
    let syscalls = allow_syscall_list_from_symbols(symbols, table);
    assert_eq!(
        syscalls,
        strings(&["openat", "fstat", "write", "fstat", "openat", "fstat"])
    );
}

#[test]
fn function_map_insert_replaces() {
    let mut table = FunctionSyscallMap::new();
    assert_eq!(table.len(), 0);
    table.insert("puts".to_string(), strings(&["write"]));
    table.insert("puts".to_string(), strings(&["writev"]));
    assert_eq!(table.len(), 1);
    assert_eq!(table.get("puts"), Some(&strings(&["writev"])));
    assert_eq!(table.get("gets"), None);
}

#[test]
fn function_map_from_entries_keeps_the_earlier() {
    let table = FunctionSyscallMap::from_entries(vec![
        ("puts".to_string(), strings(&["write"])),
        ("gets".to_string(), strings(&["read"])),
        ("puts".to_string(), strings(&["writev"])),
    ]);
    assert_eq!(table.len(), 2);
    assert_eq!(table.get("puts"), Some(&strings(&["write"])));
    assert_eq!(table.get("gets"), Some(&strings(&["read"])));
}

#[test]
fn c_analysis_rejects_what_is_no_object_file() {
    let profiler = CSeccompProfiler {
        target_bin: b"this is no object file".to_vec(),
        syscall_map: br#"{"puts": ["write"]}"#.to_vec(),
    };
    assert_eq!(profiler.analyze(), Err(ProfilerError::Parse));
}

#[test]
fn imported_symbols_of_what_is_no_object_file() {
    assert_eq!(imported_symbols(b""), Err(ProfilerError::Parse));
    assert_eq!(imported_symbols(b"\x7fELF"), Err(ProfilerError::Parse));
    assert_eq!(imported_symbols(b"puts"), Err(ProfilerError::Parse));
}

#[test]
fn parse_syscall_map_reads_a_flat_object() {
    let table = parse_syscall_map(br#"{"puts": ["write"], "fopen": ["openat", "fstat"], "nop": []}"#)
        .ok()
        .unwrap();
    assert_eq!(table.len(), 3);
    assert_eq!(table.get("puts"), Some(&strings(&["write"])));
    assert_eq!(table.get("fopen"), Some(&strings(&["openat", "fstat"])));
    assert_eq!(table.get("nop"), Some(&Vec::new()));
    assert_eq!(table.get("write"), None);

    let empty = parse_syscall_map(b"{}").ok().unwrap();
    assert_eq!(empty.len(), 0);
}

#[test]
fn parse_syscall_map_rejects_what_is_malformed() {
    for document in [
        &b""[..],
        &b"null"[..],
        &b"[]"[..],
        &b"{\"puts\": \"write\"}"[..],
        &b"{\"puts\": [\"write\"]"[..],
        &b"{\"puts\": [[\"write\"]]}"[..],
        &b"{\"puts\": [\"write\"]} trailing"[..],
    ] {
        assert_eq!(parse_syscall_map(document).err(), Some(ProfilerError::Config));
    }
}

#[test]
fn profile_from_symbols_maps_puts_to_write() {
    let profile = profile_from_symbols(strings(&["puts"]), br#"{"puts": ["write"]}"#);
    assert_eq!(
        profile,
        Ok(SeccompProfile::new(
            Action::Errno,
            Some(vec![Arch::X86_64]),
            Some(vec![SyscallRule::new(strings(&["write"]), Action::Allow)]),
        ))
    );
}

#[test]
fn profile_from_symbols_rejects_a_malformed_map_whatever_the_symbols() {
    assert_eq!(
        profile_from_symbols(Vec::new(), b"{"),
        Err(ProfilerError::Config)
    );
    assert_eq!(
        profile_from_symbols(strings(&["puts", "gets"]), b"[\"puts\"]"),
        Err(ProfilerError::Config)
    );
}
