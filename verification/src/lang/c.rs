//! Profiling a C binary: the syscalls behind the library functions that it
//! imports, as a table from function to syscalls gives them.

use crate::error::ProfilerError;
use crate::lang::SeccompProfiler;
use crate::profile::{allow_list, Arch, ProfileModel, SeccompProfile};
use crate::symbols::{
    dynamic_symbol_table, present_names, read_dynamic_symbols, readable_names,
};
use crate::text::texts;
use std::collections::HashMap;
use vstd::hash_map::StringHashMap;
use vstd::prelude::*;

verus! {

/// The table from the name of a library function to the syscalls that the
/// function may make.
pub struct FunctionSyscallMap {
    table: StringHashMap<Vec<String>>,
}

impl View for FunctionSyscallMap {
    type V = Map<Seq<char>, Seq<Seq<char>>>;

    closed spec fn view(&self) -> Map<Seq<char>, Seq<Seq<char>>> {
        Map::new(
            |function: Seq<char>| self.table@.contains_key(function),
            |function: Seq<char>| texts(self.table@[function]@),
        )
    }
}

impl FunctionSyscallMap {
    /// The table without entries.
    pub fn new() -> (map: FunctionSyscallMap)
        ensures
            map@ == Map::<Seq<char>, Seq<Seq<char>>>::empty(),
    {
        let map = FunctionSyscallMap { table: StringHashMap::new() };
        assert(map@ =~= Map::<Seq<char>, Seq<Seq<char>>>::empty());
        map
    }

    /// Sets the syscalls of `function`, in place of any that it had.
    pub fn insert(&mut self, function: String, syscalls: Vec<String>)
        ensures
            final(self)@ == old(self)@.insert(function@, texts(syscalls@)),
    {
        self.table.insert(function, syscalls);
        assert(self@ =~= old(self)@.insert(function@, texts(syscalls@)));
    }

    /// The syscalls of `function`, where the table has it.
    pub fn get(&self, function: &str) -> (syscalls: Option<&Vec<String>>)
        ensures
            match syscalls {
                Some(found) => self@.contains_key(function@) && texts(found@) == self@[function@],
                None => !self@.contains_key(function@),
            },
    {
        self.table.get(function)
    }

    /// The number of functions in the table.
    pub fn len(&self) -> (n: usize)
        ensures
            n == self@.dom().len(),
    {
        broadcast use vstd::hash_map::group_hash_map_axioms;
        assert(self@.dom() =~= self.table@.dom());
        self.table.len()
    }

    /// The table of the given entries.  Of two entries for one function the
    /// earlier one stays.
    pub fn from_entries(entries: Vec<(String, Vec<String>)>) -> (map: FunctionSyscallMap)
        ensures
            map@ == entries_map(entries@),
    {
        let ghost all = entries@;
        let mut entries = entries;
        let mut map = FunctionSyscallMap::new();
        assert(all.skip(all.len() as int) =~= Seq::empty());
        while entries.len() > 0
            invariant
                entries@ == all.take(entries.len() as int),
                entries.len() <= all.len(),
                map@ == entries_map(all.skip(entries.len() as int)),
            decreases entries.len(),
        {
            let ghost n = entries.len() as int;
            match entries.pop() {
                Some((function, syscalls)) => {
                    proof {
                        assert(all[n - 1] == (function, syscalls));
                        assert(all.skip(n - 1).drop_first() =~= all.skip(n));
                        assert(entries@ =~= all.take(n - 1));
                    }
                    map.insert(function, syscalls);
                },
                None => {},
            }
        }
        assert(all.skip(0) =~= all);
        map
    }
}

/// The table that a sequence of entries stands for.  Of two entries for one
/// function the earlier one counts.
pub open spec fn entries_map(entries: Seq<(String, Vec<String>)>) -> Map<
    Seq<char>,
    Seq<Seq<char>>,
>
    decreases entries.len(),
{
    if entries.len() == 0 {
        Map::empty()
    } else {
        entries_map(entries.drop_first()).insert(entries[0].0@, texts(entries[0].1@))
    }
}

/// What `serde_json` reads from a document as a table from function names to
/// lists of syscall names: nothing where the document is not a JSON object
/// of arrays of strings.
pub uninterp spec fn function_map_of_json(document: Seq<u8>) -> Option<
    Map<Seq<char>, Seq<Seq<char>>>,
>;

/// Calls `serde_json::from_slice` for a `HashMap<String, Vec<String>>` and
/// hands out its entries.  The contract names the table that was read, which
/// is a function of the document alone; the order of the entries is left
/// open, and it does not matter, since no two of them have the same key.
#[verifier::external_body]
fn read_function_map(document: &[u8]) -> (entries: Option<Vec<(String, Vec<String>)>>)
    ensures
        match function_map_of_json(document@) {
            Some(table) => entries matches Some(found) && entries_map(found@) == table,
            None => entries is None,
        },
{
    let table: HashMap<String, Vec<String>> = serde_json::from_slice(document).ok()?;
    Some(table.into_iter().collect())
}

/// The syscalls of the symbols that the table knows, symbol by symbol, each
/// list as the table has it: nothing is sorted and nothing is left out.
pub open spec fn mapped_syscalls(
    symbols: Seq<Seq<char>>,
    table: Map<Seq<char>, Seq<Seq<char>>>,
) -> Seq<Seq<char>>
    decreases symbols.len(),
{
    if symbols.len() == 0 {
        Seq::empty()
    } else {
        let before = mapped_syscalls(symbols.drop_last(), table);
        if table.contains_key(symbols.last()) {
            before + table[symbols.last()]
        } else {
            before
        }
    }
}

/// The syscalls that the symbols of a binary stand for: for each symbol that
/// the table knows, in the order of the symbols, the syscalls that the table
/// gives for it, in the table's order and as often as they occur.
pub fn allow_syscall_list_from_symbols(
    symbols: Vec<String>,
    fn_to_syscall_table: FunctionSyscallMap,
) -> (syscalls: Vec<String>)
    ensures
        texts(syscalls@) == mapped_syscalls(texts(symbols@), fn_to_syscall_table@),
{
    let ghost all = texts(symbols@);
    let ghost table = fn_to_syscall_table@;
    let mut syscalls: Vec<String> = Vec::new();
    let mut i: usize = 0;
    assert(texts(syscalls@) =~= mapped_syscalls(all.take(0), table));
    while i < symbols.len()
        invariant
            i <= symbols.len(),
            all == texts(symbols@),
            table == fn_to_syscall_table@,
            texts(syscalls@) == mapped_syscalls(all.take(i as int), table),
        decreases symbols.len() - i,
    {
        let ghost before = texts(syscalls@);
        proof {
            assert(all.take(i + 1).drop_last() =~= all.take(i as int));
            assert(all.take(i + 1).last() == symbols@[i as int]@);
        }
        match fn_to_syscall_table.get(symbols[i].as_str()) {
            Some(allowed) => {
                let mut j: usize = 0;
                while j < allowed.len()
                    invariant
                        j <= allowed.len(),
                        texts(syscalls@) == before + texts(allowed@).take(j as int),
                    decreases allowed.len() - j,
                {
                    let ghost held = texts(syscalls@);
                    syscalls.push(allowed[j].clone());
                    proof {
                        assert(texts(syscalls@) =~= held.push(allowed@[j as int]@));
                        assert(texts(allowed@).take(j + 1) =~= texts(allowed@).take(
                            j as int,
                        ).push(allowed@[j as int]@));
                    }
                    j = j + 1;
                }
                assert(texts(allowed@).take(j as int) =~= texts(allowed@));
            },
            None => {},
        }
        i = i + 1;
    }
    assert(all.take(i as int) =~= all);
    syscalls
}

/// The architecture that the profilers declare.
pub open spec fn profiled_architectures() -> Seq<Arch> {
    seq![Arch::X86_64]
}

/// The profile that allows `syscalls` on the profiled architecture and
/// denies everything else.
pub fn profile_of_syscalls(syscalls: Vec<String>) -> (profile: SeccompProfile)
    ensures
        profile@ == allow_list(texts(syscalls@), profiled_architectures()),
{
    let mut architectures: Vec<Arch> = Vec::new();
    architectures.push(Arch::X86_64);
    assert(architectures@ =~= profiled_architectures());
    SeccompProfile::allow_list(syscalls, architectures)
}

/// What the analysis of a C binary gives, for the image of the binary and
/// the function-to-syscall document: no profile where the image cannot be
/// read or, after that, where the document cannot; else the allow-list of
/// the syscalls that the table gives for the imported symbols.
pub open spec fn c_analysis(image: Seq<u8>, document: Seq<u8>) -> Result<
    ProfileModel,
    ProfilerError,
> {
    match dynamic_symbol_table(image) {
        None => Err(ProfilerError::Parse),
        Some(symbols) => match function_map_of_json(document) {
            None => Err(ProfilerError::Config),
            Some(table) => Ok(
                allow_list(
                    mapped_syscalls(present_names(symbols), table),
                    profiled_architectures(),
                ),
            ),
        },
    }
}

/// The symbols that a binary imports, in file order: the names of its
/// dynamic symbols, without those that cannot be read as text.  There are
/// none to give where the image is no object file.
pub fn imported_symbols(image: &[u8]) -> (result: Result<Vec<String>, ProfilerError>)
    ensures
        match dynamic_symbol_table(image@) {
            Some(table) => result matches Ok(names) && texts(names@) == present_names(table),
            None => result matches Err(error) && error == ProfilerError::Parse,
        },
{
    match read_dynamic_symbols(image) {
        Some(table) => Ok(readable_names(&table)),
        None => Err(ProfilerError::Parse),
    }
}

/// The table that a function-to-syscall document holds.  There is none
/// where the document is not a JSON object of arrays of strings.
pub fn parse_syscall_map(document: &[u8]) -> (result: Result<FunctionSyscallMap, ProfilerError>)
    ensures
        match function_map_of_json(document@) {
            Some(table) => result matches Ok(found) && found@ == table,
            None => result matches Err(error) && error == ProfilerError::Config,
        },
{
    match read_function_map(document) {
        Some(entries) => Ok(FunctionSyscallMap::from_entries(entries)),
        None => Err(ProfilerError::Config),
    }
}

/// The profile for the symbols that a binary imports, by the table of a
/// function-to-syscall document.  A malformed document gives no profile,
/// whatever the symbols are.
pub fn profile_from_symbols(symbols: Vec<String>, document: &[u8]) -> (result: Result<
    SeccompProfile,
    ProfilerError,
>)
    ensures
        match function_map_of_json(document@) {
            Some(table) => result matches Ok(profile) && profile@ == allow_list(
                mapped_syscalls(texts(symbols@), table),
                profiled_architectures(),
            ),
            None => result matches Err(error) && error == ProfilerError::Config,
        },
{
    match parse_syscall_map(document) {
        Ok(table) => Ok(profile_of_syscalls(allow_syscall_list_from_symbols(symbols, table))),
        Err(error) => Err(error),
    }
}

/// The profiler for C binaries.
pub struct CSeccompProfiler {
    /// The image of the binary to profile.
    pub target_bin: Vec<u8>,
    /// The JSON document that maps function names to syscall names.
    pub syscall_map: Vec<u8>,
}

impl SeccompProfiler for CSeccompProfiler {
    open spec fn analysis(&self) -> Result<ProfileModel, ProfilerError> {
        c_analysis(self.target_bin@, self.syscall_map@)
    }

    /// The profile of the binary: see `c_analysis`.
    fn analyze(&self) -> (result: Result<SeccompProfile, ProfilerError>) {
        match imported_symbols(self.target_bin.as_slice()) {
            Ok(symbols) => profile_from_symbols(symbols, self.syscall_map.as_slice()),
            Err(error) => Err(error),
        }
    }
}

} // verus!
