//! Profiling a Go binary: the syscalls that its symbol table refers to
//! through the `syscall` package, and those that the Go runtime makes by
//! itself.

use crate::arch::{is_valid, valid_syscall, x86_64};
use crate::error::ProfilerError;
use crate::lang::c::{profile_of_syscalls, profiled_architectures};
use crate::lang::SeccompProfiler;
use crate::names::{
    insert_name, lemma_listing_is_sorted_listing, lemma_name_set_finite,
    lemma_sorted_listing_lists, lists, name_set, sorted_listing, sorted_unique,
};
use crate::profile::{allow_list, enforcing_allow_list, Arch, ProfileModel, SeccompProfile};
use crate::symbols::{all_present, complete_names, present_names, read_symbols, symbol_table};
use crate::text::texts;
use vstd::prelude::*;
use vstd::string::StringExecFns;

verus! {

/// The pattern of a reference to the `syscall` package in a symbol table:
/// the package name, one character, and an identifier of two characters or
/// more that begins with a letter.
pub const SYMBOL_PATTERN: &'static str = "syscall.[a-zA-Z][\\w]+";

/// What comes before the identifier in a reference to the `syscall` package.
pub const PACKAGE_MARKER: &'static str = "syscall.";

/// The symbol names as one text, each after a line feed.
pub open spec fn symbol_blob(names: Seq<Seq<char>>) -> Seq<char>
    decreases names.len(),
{
    if names.len() == 0 {
        Seq::empty()
    } else {
        symbol_blob(names.drop_last()) + "\n"@ + names.last()
    }
}

/// Joins the symbol names into one text, each after a line feed.
pub fn join_symbols(names: &Vec<String>) -> (blob: String)
    ensures
        blob@ == symbol_blob(texts(names@)),
{
    let ghost all = texts(names@);
    let mut blob = String::new();
    let mut i: usize = 0;
    assert(blob@ =~= symbol_blob(all.take(0)));
    while i < names.len()
        invariant
            i <= names.len(),
            all == texts(names@),
            blob@ == symbol_blob(all.take(i as int)),
        decreases names.len() - i,
    {
        proof {
            assert(all.take(i + 1).drop_last() =~= all.take(i as int));
            assert(all.take(i + 1).last() == names@[i as int]@);
        }
        blob.append("\n");
        blob.append(names[i].as_str());
        i = i + 1;
    }
    assert(all.take(i as int) =~= all);
    blob
}

/// The matches of a pattern in a text, as `regex` finds them: nothing where
/// it does not accept the pattern, else the matched parts of the text from
/// left to right, none overlapping another.
pub uninterp spec fn pattern_matches(pattern: Seq<char>, haystack: Seq<char>) -> Option<
    Seq<Seq<char>>,
>;

/// Calls `regex::Regex::new` on the pattern and `Regex::find_iter` on the
/// text, and copies out what each match covers.  The contract only gives the
/// outcome its name: it is a function of the pattern and the text alone.
#[verifier::external_body]
fn find_matches(pattern: &str, haystack: &str) -> (found: Option<Vec<String>>)
    ensures
        match pattern_matches(pattern@, haystack@) {
            Some(matches) => found matches Some(parts) && texts(parts@) == matches,
            None => found is None,
        },
{
    let expression = regex::Regex::new(pattern).ok()?;
    Some(expression.find_iter(haystack).map(|part| part.as_str().to_string()).collect())
}

/// The parts of `haystack` that match `pattern`, from left to right; no
/// result where the pattern engine does not accept the pattern.
pub fn scan(pattern: &str, haystack: &str) -> (result: Result<Vec<String>, ProfilerError>)
    ensures
        match pattern_matches(pattern@, haystack@) {
            Some(matches) => result matches Ok(parts) && texts(parts@) == matches,
            None => result matches Err(error) && error == ProfilerError::Pattern,
        },
{
    match find_matches(pattern, haystack) {
        Some(parts) => Ok(parts),
        None => Err(ProfilerError::Pattern),
    }
}

/// `text` with `to` in place of each occurrence of `from`, found from left
/// to right, none overlapping another.
pub open spec fn replaced(text: Seq<char>, from: Seq<char>, to: Seq<char>) -> Seq<char>
    recommends
        from.len() > 0,
    decreases text.len(),
{
    if from.len() == 0 || text.len() < from.len() {
        text
    } else if text.take(from.len() as int) == from {
        to + replaced(text.skip(from.len() as int), from, to)
    } else {
        seq![text[0]] + replaced(text.skip(1), from, to)
    }
}

/// Calls `str::replace`, which puts the new text in place of every match of
/// the old one, found from left to right without overlap.
#[verifier::external_body]
fn replace_all(text: &str, from: &str, to: &str) -> (result: String)
    requires
        from@.len() > 0,
    ensures
        result@ == replaced(text@, from@, to@),
{
    text.replace(from, to)
}

/// The lower-case form that std gives to a text.
pub uninterp spec fn lowercase(text: Seq<char>) -> Seq<char>;

/// Calls `str::to_lowercase`.  The contract only gives the result its name:
/// it is a function of the text alone, by the Unicode tables that std holds.
#[verifier::external_body]
fn to_lowercase(text: &str) -> (result: String)
    ensures
        result@ == lowercase(text@),
{
    text.to_lowercase()
}

/// The identifier that a match of the pattern refers to: the match without
/// the package marker, in lower case.
pub open spec fn identifier(matched: Seq<char>) -> Seq<char> {
    lowercase(replaced(matched, PACKAGE_MARKER@, Seq::empty()))
}

/// The identifiers of a sequence of matches, in the same order.
pub open spec fn identifiers(matches: Seq<Seq<char>>) -> Seq<Seq<char>> {
    matches.map_values(|matched: Seq<char>| identifier(matched))
}

/// Takes the identifier out of each match of the pattern.
pub fn captured_identifiers(matches: &Vec<String>) -> (found: Vec<String>)
    ensures
        texts(found@) == identifiers(texts(matches@)),
{
    let mut found: Vec<String> = Vec::new();
    let mut i: usize = 0;
    proof {
        reveal_strlit("syscall.");
        reveal_strlit("");
    }
    while i < matches.len()
        invariant
            i <= matches.len(),
            PACKAGE_MARKER@.len() > 0,
            ""@ == Seq::<char>::empty(),
            texts(found@) == identifiers(texts(matches@)).take(i as int),
        decreases matches.len() - i,
    {
        let ghost held = texts(found@);
        let bare = replace_all(matches[i].as_str(), PACKAGE_MARKER, "");
        let lower = to_lowercase(bare.as_str());
        found.push(lower);
        proof {
            assert(texts(found@) =~= held.push(identifier(matches@[i as int]@)));
            assert(texts(found@) =~= identifiers(texts(matches@)).take(i + 1));
        }
        i = i + 1;
    }
    assert(identifiers(texts(matches@)).take(i as int) =~= identifiers(texts(matches@)));
    found
}

/// The syscalls that the Go runtime makes without going through the
/// `syscall` package: to control processes and threads, to map memory, to
/// handle signals, and to read and write.
pub open spec fn baseline_names() -> Seq<Seq<char>> {
    seq![
        "arch_prctl"@,
        "brk"@,
        "clone"@,
        "close"@,
        "epoll_create1"@,
        "epoll_ctl"@,
        "epoll_pwait"@,
        "execve"@,
        "exit"@,
        "exit_group"@,
        "fcntl"@,
        "futex"@,
        "getpid"@,
        "gettid"@,
        "kill"@,
        "madvise"@,
        "mincore"@,
        "mmap"@,
        "mprotect"@,
        "munmap"@,
        "nanosleep"@,
        "openat"@,
        "pipe2"@,
        "read"@,
        "readlinkat"@,
        "rt_sigaction"@,
        "rt_sigprocmask"@,
        "rt_sigreturn"@,
        "sched_getaffinity"@,
        "sched_yield"@,
        "set_tid_address"@,
        "sigaltstack"@,
        "tgkill"@,
        "write"@,
    ]
}

/// The syscalls that the Go runtime makes by itself, in ascending order.
pub fn runtime_baseline() -> (names: Vec<String>)
    ensures
        texts(names@) == baseline_names(),
{
    let mut names: Vec<String> = Vec::new();
    names.push("arch_prctl".to_owned());
    names.push("brk".to_owned());
    names.push("clone".to_owned());
    names.push("close".to_owned());
    names.push("epoll_create1".to_owned());
    names.push("epoll_ctl".to_owned());
    names.push("epoll_pwait".to_owned());
    names.push("execve".to_owned());
    names.push("exit".to_owned());
    names.push("exit_group".to_owned());
    names.push("fcntl".to_owned());
    names.push("futex".to_owned());
    names.push("getpid".to_owned());
    names.push("gettid".to_owned());
    names.push("kill".to_owned());
    names.push("madvise".to_owned());
    names.push("mincore".to_owned());
    names.push("mmap".to_owned());
    names.push("mprotect".to_owned());
    names.push("munmap".to_owned());
    names.push("nanosleep".to_owned());
    names.push("openat".to_owned());
    names.push("pipe2".to_owned());
    names.push("read".to_owned());
    names.push("readlinkat".to_owned());
    names.push("rt_sigaction".to_owned());
    names.push("rt_sigprocmask".to_owned());
    names.push("rt_sigreturn".to_owned());
    names.push("sched_getaffinity".to_owned());
    names.push("sched_yield".to_owned());
    names.push("set_tid_address".to_owned());
    names.push("sigaltstack".to_owned());
    names.push("tgkill".to_owned());
    names.push("write".to_owned());
    assert(texts(names@) =~= baseline_names());
    names
}

/// Every syscall of the baseline is in the catalog.
pub proof fn lemma_baseline_in_catalog()
    ensures
        forall|name: Seq<char>| #[trigger]
            baseline_names().contains(name) ==> valid_syscall(name, Arch::X86_64),
{
    let names = baseline_names();
    assert(names.len() == 34);
    assert(x86_64::syscall_name(names[0]));
    assert(x86_64::syscall_name(names[1]));
    assert(x86_64::syscall_name(names[2]));
    assert(x86_64::syscall_name(names[3]));
    assert(x86_64::syscall_name(names[4]));
    assert(x86_64::syscall_name(names[5]));
    assert(x86_64::syscall_name(names[6]));
    assert(x86_64::syscall_name(names[7]));
    assert(x86_64::syscall_name(names[8]));
    assert(x86_64::syscall_name(names[9]));
    assert(x86_64::syscall_name(names[10]));
    assert(x86_64::syscall_name(names[11]));
    assert(x86_64::syscall_name(names[12]));
    assert(x86_64::syscall_name(names[13]));
    assert(x86_64::syscall_name(names[14]));
    assert(x86_64::syscall_name(names[15]));
    assert(x86_64::syscall_name(names[16]));
    assert(x86_64::syscall_name(names[17]));
    assert(x86_64::syscall_name(names[18]));
    assert(x86_64::syscall_name(names[19]));
    assert(x86_64::syscall_name(names[20]));
    assert(x86_64::syscall_name(names[21]));
    assert(x86_64::syscall_name(names[22]));
    assert(x86_64::syscall_name(names[23]));
    assert(x86_64::syscall_name(names[24]));
    assert(x86_64::syscall_name(names[25]));
    assert(x86_64::syscall_name(names[26]));
    assert(x86_64::syscall_name(names[27]));
    assert(x86_64::syscall_name(names[28]));
    assert(x86_64::syscall_name(names[29]));
    assert(x86_64::syscall_name(names[30]));
    assert(x86_64::syscall_name(names[31]));
    assert(x86_64::syscall_name(names[32]));
    assert(x86_64::syscall_name(names[33]));
    assert forall|name: Seq<char>| #[trigger] names.contains(name) implies valid_syscall(
        name,
        Arch::X86_64,
    ) by {
        let i = choose|i: int| 0 <= i < names.len() && names[i] == name;
        assert(x86_64::syscall_name(names[i]));
    }
}

/// Tells whether `fname` is a syscall of the profiled architecture.
pub fn is_syscalls(fname: &str) -> (valid: bool)
    ensures
        valid == valid_syscall(fname@, Arch::X86_64),
{
    is_valid(fname, Arch::X86_64)
}

/// The names that a Go profile allows, given the identifiers that the symbol
/// table refers to: the baseline, and each identifier that is a syscall.
pub open spec fn allowed_name_set(identifiers: Seq<Seq<char>>) -> Set<Seq<char>> {
    Set::new(
        |name: Seq<char>|
            baseline_names().contains(name) || (identifiers.contains(name) && valid_syscall(
                name,
                Arch::X86_64,
            )),
    )
}

/// The syscalls to allow, given the identifiers that the symbol table refers
/// to: the baseline and the identifiers that are syscalls, in ascending
/// order and each once.
pub fn allowed_syscalls(identifiers: &Vec<String>) -> (names: Vec<String>)
    ensures
        lists(texts(names@), allowed_name_set(texts(identifiers@))),
        texts(names@) == sorted_listing(allowed_name_set(texts(identifiers@))),
        forall|i: int|
            0 <= i < names.len() ==> valid_syscall(#[trigger] texts(names@)[i], Arch::X86_64),
{
    let ghost all = texts(identifiers@);
    let baseline = runtime_baseline();
    let mut names = sorted_unique(&baseline);
    let mut i: usize = 0;
    assert forall|n: Seq<char>| texts(names@).contains(n) <==> allowed_name_set(
        all.take(0),
    ).contains(n) by {}
    while i < identifiers.len()
        invariant
            i <= identifiers.len(),
            all == texts(identifiers@),
            lists(texts(names@), allowed_name_set(all.take(i as int))),
        decreases identifiers.len() - i,
    {
        let ghost seen = all.take(i as int);
        let ghost next = all.take(i + 1);
        if is_syscalls(identifiers[i].as_str()) {
            insert_name(&mut names, identifiers[i].clone());
        }
        proof {
            let this = all[i as int];
            assert(this == identifiers@[i as int]@);
            assert forall|n: Seq<char>| texts(names@).contains(n) <==> allowed_name_set(
                next,
            ).contains(n) by {
                if seen.contains(n) {
                    let k = choose|k: int| 0 <= k < seen.len() && seen[k] == n;
                    assert(next[k] == n);
                }
                if n == this {
                    assert(next[i as int] == n);
                }
                if next.contains(n) {
                    let k = choose|k: int| 0 <= k < next.len() && next[k] == n;
                    if k < i {
                        assert(seen[k] == n);
                    }
                }
            }
        }
        i = i + 1;
    }
    proof {
        assert(all.take(i as int) =~= all);
        lemma_listing_is_sorted_listing(texts(names@), allowed_name_set(all));
        lemma_baseline_in_catalog();
        assert forall|k: int| 0 <= k < names.len() implies valid_syscall(
            #[trigger] texts(names@)[k],
            Arch::X86_64,
        ) by {
            assert(texts(names@).contains(texts(names@)[k]));
        }
    }
    names
}

/// The syscalls to allow, given the matches of the pattern in the symbol
/// table.
pub fn syscalls_from_matches(matches: &Vec<String>) -> (names: Vec<String>)
    ensures
        lists(texts(names@), allowed_name_set(identifiers(texts(matches@)))),
        texts(names@) == sorted_listing(allowed_name_set(identifiers(texts(matches@)))),
{
    let found = captured_identifiers(matches);
    allowed_syscalls(&found)
}

/// The names that a Go profile allows are finitely many.
pub proof fn lemma_allowed_names_finite(identifiers: Seq<Seq<char>>)
    ensures
        allowed_name_set(identifiers).finite(),
{
    lemma_name_set_finite(baseline_names());
    lemma_name_set_finite(identifiers);
    let all = name_set(baseline_names()).union(name_set(identifiers));
    assert(allowed_name_set(identifiers).subset_of(all));
    vstd::set_lib::lemma_set_subset_finite(all, allowed_name_set(identifiers));
}

/// Whatever the symbol table refers to, the names of a Go profile are not
/// empty, hold the whole baseline, and are syscalls of the catalog, in
/// ascending order and each once.
pub proof fn lemma_go_names(identifiers: Seq<Seq<char>>)
    ensures
        lists(sorted_listing(allowed_name_set(identifiers)), allowed_name_set(identifiers)),
        sorted_listing(allowed_name_set(identifiers)).len() > 0,
        forall|name: Seq<char>| #[trigger]
            baseline_names().contains(name) ==> sorted_listing(
                allowed_name_set(identifiers),
            ).contains(name),
        forall|name: Seq<char>| #[trigger]
            sorted_listing(allowed_name_set(identifiers)).contains(name) ==> valid_syscall(
                name,
                Arch::X86_64,
            ),
{
    lemma_allowed_names_finite(identifiers);
    lemma_sorted_listing_lists(allowed_name_set(identifiers));
    lemma_baseline_in_catalog();
    let names = sorted_listing(allowed_name_set(identifiers));
    assert(baseline_names().contains(baseline_names()[0]));
    assert(names.contains(baseline_names()[0]));
}

/// Every profile that the analysis of a Go binary gives has the shape of an
/// enforcing allow-list.
pub proof fn lemma_go_profile_enforces(image: Seq<u8>)
    ensures
        go_analysis(image) matches Ok(profile) ==> enforcing_allow_list(profile),
{
    if go_analysis(image) is Ok {
        let entries = symbol_table(image)->0;
        let matches = pattern_matches(SYMBOL_PATTERN@, symbol_blob(present_names(entries)))->0;
        lemma_go_names(identifiers(matches));
    }
}

/// A name that the catalog does not hold is in no Go profile.
pub proof fn lemma_unknown_names_excluded(identifiers: Seq<Seq<char>>, name: Seq<char>)
    requires
        !valid_syscall(name, Arch::X86_64),
    ensures
        !allowed_name_set(identifiers).contains(name),
{
    lemma_baseline_in_catalog();
}

/// What the analysis of a Go binary gives, for the image of the binary: no
/// profile where the symbol table cannot be read in full or the pattern
/// engine fails; else the allow-list of the baseline and of the syscalls
/// that the symbol table refers to, in ascending order.
pub open spec fn go_analysis(image: Seq<u8>) -> Result<ProfileModel, ProfilerError> {
    match symbol_table(image) {
        None => Err(ProfilerError::Parse),
        Some(entries) => if !all_present(entries) {
            Err(ProfilerError::Parse)
        } else {
            match pattern_matches(SYMBOL_PATTERN@, symbol_blob(present_names(entries))) {
                None => Err(ProfilerError::Pattern),
                Some(matches) => Ok(
                    allow_list(
                        sorted_listing(allowed_name_set(identifiers(matches))),
                        profiled_architectures(),
                    ),
                ),
            }
        },
    }
}

/// The profiler for Go binaries.
pub struct GoSeccompProfiler {
    /// The image of the binary to profile.
    pub target_bin: Vec<u8>,
}

impl SeccompProfiler for GoSeccompProfiler {
    open spec fn analysis(&self) -> Result<ProfileModel, ProfilerError> {
        go_analysis(self.target_bin@)
    }

    /// The profile of the binary: see `go_analysis`.
    fn analyze(&self) -> (result: Result<SeccompProfile, ProfilerError>) {
        let symbols = match read_symbols(self.target_bin.as_slice()) {
            Some(table) => match complete_names(&table) {
                Some(names) => names,
                None => {
                    return Err(ProfilerError::Parse);
                },
            },
            None => {
                return Err(ProfilerError::Parse);
            },
        };
        let blob = join_symbols(&symbols);
        let matches = match scan(SYMBOL_PATTERN, blob.as_str()) {
            Ok(matches) => matches,
            Err(error) => {
                return Err(error);
            },
        };
        Ok(profile_of_syscalls(syscalls_from_matches(&matches)))
    }
}

} // verus!
