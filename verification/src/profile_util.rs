//! Taking the syscall names out of profiles, merging profiles and comparing
//! them.

use crate::error::ProfilerError;
use crate::names::{
    insert_name, lemma_listing_is_sorted_listing, lemma_name_set_finite,
    lemma_sorted_listing_lists, lists, name_set, sorted_listing, strictly_sorted,
};
use crate::profile::{
    allow_list, empty_profile, profile_models, rule_models, Arch, ProfileModel, RuleModel,
    SeccompProfile, SyscallRule,
};
use crate::text::{
    compare_text, lemma_precedes_asymmetric, lemma_precedes_transitive, precedes, texts,
    TextOrder,
};
use vstd::prelude::*;

verus! {

/// Where a syscall name occurs, of two profiles that are compared.
#[derive(Clone, Copy, Debug, PartialEq, Eq, Structural)]
pub enum DiffStatus {
    /// Only the first profile names it.
    OnlyPath1,
    /// Only the second profile names it.
    OnlyPath2,
    /// Both profiles name it.
    Both,
}

/// One line of a comparison: a syscall name and where it occurs.
#[derive(Clone, Debug, PartialEq, Eq)]
pub struct DiffEntry {
    pub name: String,
    pub status: DiffStatus,
}

/// The comparison of two profiles: a status for each syscall name that
/// either of them holds.  Its view is the map from names to statuses.
#[derive(Debug, PartialEq, Eq)]
pub struct SyscallDiff {
    entries: Vec<DiffEntry>,
}

/// The names of a sequence of entries, in the same order.
pub open spec fn entry_names(entries: Seq<DiffEntry>) -> Seq<Seq<char>> {
    entries.map_values(|entry: DiffEntry| entry.name@)
}

/// The status of `name`, given the names of the first and of the second
/// profile.
pub open spec fn diff_status(
    left: Set<Seq<char>>,
    right: Set<Seq<char>>,
    name: Seq<char>,
) -> DiffStatus {
    if !right.contains(name) {
        DiffStatus::OnlyPath1
    } else if !left.contains(name) {
        DiffStatus::OnlyPath2
    } else {
        DiffStatus::Both
    }
}

/// The comparison of two sets of names: a status for each member of their
/// union.
pub open spec fn diff_map(left: Set<Seq<char>>, right: Set<Seq<char>>) -> Map<
    Seq<char>,
    DiffStatus,
> {
    Map::new(
        |name: Seq<char>| left.contains(name) || right.contains(name),
        |name: Seq<char>| diff_status(left, right, name),
    )
}

/// The profile yields no syscall name: it has no syscall section, or its
/// rules hold no name.
pub open spec fn yields_no_names(profile: ProfileModel) -> bool {
    profile.syscalls is None || profile_name_set(profile) =~= Set::<Seq<char>>::empty()
}

/// The comparison of two profiles; there is none where either yields no
/// syscall name.
pub open spec fn diff_of(left: ProfileModel, right: ProfileModel) -> Option<
    Map<Seq<char>, DiffStatus>,
> {
    if yields_no_names(left) || yields_no_names(right) {
        None
    } else {
        Some(diff_map(profile_name_set(left), profile_name_set(right)))
    }
}

impl View for SyscallDiff {
    type V = Map<Seq<char>, DiffStatus>;

    closed spec fn view(&self) -> Map<Seq<char>, DiffStatus> {
        let names = entry_names(self.entries@);
        Map::new(
            |name: Seq<char>| names.contains(name),
            |name: Seq<char>|
                self.entries@[choose|i: int| 0 <= i < names.len() && names[i] == name].status,
        )
    }
}

impl SyscallDiff {
    #[verifier::type_invariant]
    spec fn well_formed(&self) -> bool {
        strictly_sorted(entry_names(self.entries@))
    }

    /// The number of names that the comparison covers.
    pub fn len(&self) -> (n: usize)
        ensures
            self@.dom().finite(),
            n == self@.dom().len(),
    {
        proof {
            use_type_invariant(self);
            let names = entry_names(self.entries@);
            assert forall|i: int, j: int|
                0 <= i < names.len() && 0 <= j < names.len() && i != j implies names[i]
                != names[j] by {
                if i < j {
                    lemma_precedes_asymmetric(names[i], names[j]);
                } else {
                    lemma_precedes_asymmetric(names[j], names[i]);
                }
            }
            names.unique_seq_to_set();
            vstd::seq_lib::seq_to_set_is_finite(names);
            assert(self@.dom() =~= names.to_set());
        }
        self.entries.len()
    }

    /// The status of `name`, where the comparison covers it.
    pub fn get(&self, name: &str) -> (status: Option<&DiffStatus>)
        ensures
            match status {
                Some(found) => self@.contains_key(name@) && *found == self@[name@],
                None => !self@.contains_key(name@),
            },
    {
        proof {
            use_type_invariant(self);
        }
        let ghost names = entry_names(self.entries@);
        let mut i: usize = 0;
        while i < self.entries.len()
            invariant
                i <= self.entries.len(),
                names == entry_names(self.entries@),
                strictly_sorted(names),
                forall|k: int| 0 <= k < i ==> #[trigger] names[k] != name@,
            decreases self.entries.len() - i,
        {
            match compare_text(self.entries[i].name.as_str(), name) {
                TextOrder::Same => {
                    proof {
                        assert(names[i as int] == name@);
                        let at = choose|k: int| 0 <= k < names.len() && names[k] == name@;
                        if at < i {
                            lemma_precedes_asymmetric(names[at], names[i as int]);
                        } else if at > i {
                            lemma_precedes_asymmetric(names[i as int], names[at]);
                        }
                    }
                    return Some(&self.entries[i].status);
                },
                _ => {
                    i = i + 1;
                },
            }
        }
        None
    }

    /// All entries, by ascending name.
    pub fn entries(&self) -> (entries: &Vec<DiffEntry>)
        ensures
            strictly_sorted(entry_names(entries@)),
            forall|name: Seq<char>|
                entry_names(entries@).contains(name) <==> self@.contains_key(name),
            forall|i: int|
                0 <= i < entries.len() ==> self@[(#[trigger] entries[i]).name@]
                    == entries[i].status,
    {
        proof {
            use_type_invariant(self);
            let names = entry_names(self.entries@);
            assert forall|i: int| 0 <= i < self.entries.len() implies self@[(
            #[trigger] self.entries[i]).name@] == self.entries[i].status by {
                assert(names[i] == self.entries[i].name@);
                let at = choose|k: int| 0 <= k < names.len() && names[k] == names[i];
                if at < i {
                    lemma_precedes_asymmetric(names[at], names[i]);
                } else if at > i {
                    lemma_precedes_asymmetric(names[i], names[at]);
                }
            }
        }
        &self.entries
    }
}

/// The names that the first `n` of `rules` hold.
pub open spec fn rule_names_upto(rules: Seq<RuleModel>, n: int) -> Set<Seq<char>> {
    Set::new(|name: Seq<char>| exists|i: int| 0 <= i < n && i < rules.len() && (#[trigger] rules[i]).names.contains(name))
}

/// The names that occur in any of `rules`.
pub open spec fn rule_name_set(rules: Seq<RuleModel>) -> Set<Seq<char>> {
    rule_names_upto(rules, rules.len() as int)
}

/// The names that a profile's rules hold; none where it has no syscall
/// section.
pub open spec fn profile_name_set(profile: ProfileModel) -> Set<Seq<char>> {
    match profile.syscalls {
        Some(rules) => rule_name_set(rules),
        None => Set::empty(),
    }
}

/// The names that the first `n` of `profiles` hold.
pub open spec fn profile_names_upto(profiles: Seq<ProfileModel>, n: int) -> Set<Seq<char>> {
    Set::new(|name: Seq<char>| exists|i: int| 0 <= i < n && i < profiles.len() && profile_name_set(#[trigger] profiles[i]).contains(name))
}

/// The names that occur in any rule of any of `profiles`.
pub open spec fn merged_name_set(profiles: Seq<ProfileModel>) -> Set<Seq<char>> {
    profile_names_upto(profiles, profiles.len() as int)
}

/// What `extract_syscall_names` gives for a profile: nothing where it has no
/// syscall section, else the ascending listing of the names of its rules.
pub open spec fn extracted_names(profile: ProfileModel) -> Option<Seq<Seq<char>>> {
    match profile.syscalls {
        Some(rules) => Some(sorted_listing(rule_name_set(rules))),
        None => None,
    }
}

/// The architectures that every merged profile declares.
pub open spec fn merged_architectures() -> Seq<Arch> {
    seq![Arch::X86, Arch::X86_64]
}

/// The merge of `profiles`: the empty profile for no input, else the
/// allow-list of all their names in ascending order on the merged
/// architectures.
pub open spec fn merged_profile(profiles: Seq<ProfileModel>) -> ProfileModel {
    if profiles.len() == 0 {
        empty_profile()
    } else {
        allow_list(sorted_listing(merged_name_set(profiles)), merged_architectures())
    }
}

/// Adds the names of `rules` to an ascending listing.
fn add_rule_names(out: &mut Vec<String>, rules: &Vec<SyscallRule>)
    requires
        strictly_sorted(texts(old(out)@)),
    ensures
        lists(
            texts(final(out)@),
            name_set(texts(old(out)@)).union(rule_name_set(rule_models(rules@))),
        ),
{
    let ghost base = name_set(texts(out@));
    let ghost models = rule_models(rules@);
    let mut i: usize = 0;
    while i < rules.len()
        invariant
            i <= rules.len(),
            models == rule_models(rules@),
            lists(texts(out@), base.union(rule_names_upto(models, i as int))),
        decreases rules.len() - i,
    {
        let rule = &rules[i];
        let ghost done = base.union(rule_names_upto(models, i as int));
        let ghost these = models[i as int].names;
        let mut j: usize = 0;
        assert(these == texts(rule.names@));
        while j < rule.names.len()
            invariant
                j <= rule.names.len(),
                these == texts(rule.names@),
                lists(texts(out@), done.union(name_set(these.take(j as int)))),
            decreases rule.names.len() - j,
        {
            insert_name(out, rule.names[j].clone());
            proof {
                let now = texts(out@);
                let name = these[j as int];
                let seen = these.take(j as int);
                let next = these.take(j + 1);
                assert forall|n: Seq<char>| now.contains(n) <==> done.union(
                    name_set(next),
                ).contains(n) by {
                    if seen.contains(n) {
                        let k = choose|k: int| 0 <= k < seen.len() && seen[k] == n;
                        assert(next[k] == n);
                    }
                    if n == name {
                        assert(next[j as int] == n);
                    }
                    if next.contains(n) {
                        let k = choose|k: int| 0 <= k < next.len() && next[k] == n;
                        if k < j {
                            assert(seen[k] == n);
                        }
                    }
                }
            }
            j = j + 1;
        }
        proof {
            assert(these.take(j as int) =~= these);
            assert forall|n: Seq<char>| texts(out@).contains(n) <==> base.union(
                rule_names_upto(models, i + 1),
            ).contains(n) by {
                if these.contains(n) {
                    assert(models[i as int].names.contains(n));
                }
                if rule_names_upto(models, i + 1).contains(n) {
                    let k = choose|k: int|
                        0 <= k < i + 1 && k < models.len() && (#[trigger] models[k]).names.contains(
                            n,
                        );
                    if k < i {
                        assert(rule_names_upto(models, i as int).contains(n));
                    }
                }
                if rule_names_upto(models, i as int).contains(n) {
                    let k = choose|k: int|
                        0 <= k < i && k < models.len() && (#[trigger] models[k]).names.contains(n);
                    assert(models[k].names.contains(n));
                }
            }
        }
        i = i + 1;
    }
}

/// The syscall names of a profile, in ascending order and each once.  A
/// profile without a syscall section has none to give.
pub fn extract_syscall_names(profile: SeccompProfile) -> (result: Result<
    Vec<String>,
    ProfilerError,
>)
    ensures
        match extracted_names(profile@) {
            Some(names) => result matches Ok(found) && texts(found@) == names,
            None => result == Err::<Vec<String>, ProfilerError>(ProfilerError::Profile),
        },
        result matches Ok(found) ==> lists(texts(found@), profile_name_set(profile@)),
{
    match &profile.syscalls {
        Some(rules) => {
            let mut found: Vec<String> = Vec::new();
            add_rule_names(&mut found, rules);
            proof {
                let set = rule_name_set(rule_models(rules@));
                assert forall|n: Seq<char>| texts(found@).contains(n) <==> set.contains(n) by {
                    assert(!name_set(Seq::<Seq<char>>::empty()).contains(n));
                }
                lemma_listing_is_sorted_listing(texts(found@), set);
            }
            Ok(found)
        },
        None => Err(ProfilerError::Profile),
    }
}

/// Merges profiles into one that allows every syscall that any of them
/// names.  Without input the result is the empty profile.  A profile without
/// a syscall section adds nothing.
pub fn merge(profiles: Vec<SeccompProfile>) -> (result: Result<SeccompProfile, ProfilerError>)
    ensures
        result matches Ok(merged) && merged@ == merged_profile(profile_models(profiles@)),
        profiles.len() > 0 ==> (result matches Ok(merged) && exists|names: Seq<Seq<char>>| #[trigger]
            lists(names, merged_name_set(profile_models(profiles@))) && merged@ == allow_list(
                names,
                merged_architectures(),
            )),
{
    if profiles.len() == 0 {
        return Ok(SeccompProfile::default());
    }
    let ghost models = profile_models(profiles@);
    let mut names: Vec<String> = Vec::new();
    let mut i: usize = 0;
    assert forall|n: Seq<char>| texts(names@).contains(n) <==> profile_names_upto(
        models,
        0,
    ).contains(n) by {}
    while i < profiles.len()
        invariant
            i <= profiles.len(),
            models == profile_models(profiles@),
            lists(texts(names@), profile_names_upto(models, i as int)),
        decreases profiles.len() - i,
    {
        match &profiles[i].syscalls {
            Some(rules) => {
                add_rule_names(&mut names, rules);
            },
            None => {},
        }
        proof {
            let this = profile_name_set(models[i as int]);
            assert forall|n: Seq<char>| texts(names@).contains(n) <==> profile_names_upto(
                models,
                i + 1,
            ).contains(n) by {
                if profile_names_upto(models, i + 1).contains(n) {
                    let k = choose|k: int|
                        0 <= k < i + 1 && k < models.len() && profile_name_set(
                            #[trigger] models[k],
                        ).contains(n);
                    if k < i {
                        assert(profile_names_upto(models, i as int).contains(n));
                    }
                }
                if profile_names_upto(models, i as int).contains(n) {
                    let k = choose|k: int|
                        0 <= k < i && k < models.len() && profile_name_set(
                            #[trigger] models[k],
                        ).contains(n);
                    assert(profile_name_set(models[k]).contains(n));
                }
                if this.contains(n) {
                    assert(profile_name_set(models[i as int]).contains(n));
                }
            }
        }
        i = i + 1;
    }
    proof {
        lemma_listing_is_sorted_listing(texts(names@), merged_name_set(models));
    }
    let mut architectures: Vec<Arch> = Vec::new();
    architectures.push(Arch::X86);
    architectures.push(Arch::X86_64);
    assert(architectures@ =~= merged_architectures());
    let ghost listing = texts(names@);
    let merged = SeccompProfile::allow_list(names, architectures);
    assert(lists(listing, merged_name_set(models)));
    Ok(merged)
}

/// Compares two ascending listings of names.
fn compare_listings(left: &Vec<String>, right: &Vec<String>) -> (diff: SyscallDiff)
    requires
        strictly_sorted(texts(left@)),
        strictly_sorted(texts(right@)),
    ensures
        diff@ == diff_map(name_set(texts(left@)), name_set(texts(right@))),
{
    let ghost l = texts(left@);
    let ghost r = texts(right@);
    let ghost ls = name_set(l);
    let ghost rs = name_set(r);
    let mut entries: Vec<DiffEntry> = Vec::new();
    let mut i: usize = 0;
    let mut j: usize = 0;
    while i < left.len() || j < right.len()
        invariant
            i <= left.len(),
            j <= right.len(),
            l == texts(left@),
            r == texts(right@),
            ls == name_set(l),
            rs == name_set(r),
            strictly_sorted(l),
            strictly_sorted(r),
            strictly_sorted(entry_names(entries@)),
            forall|k: int, a: int|
                0 <= k < entries.len() && i <= a < l.len() ==> precedes(
                    #[trigger] entry_names(entries@)[k],
                    #[trigger] l[a],
                ),
            forall|k: int, b: int|
                0 <= k < entries.len() && j <= b < r.len() ==> precedes(
                    #[trigger] entry_names(entries@)[k],
                    #[trigger] r[b],
                ),
            forall|a: int| 0 <= a < i ==> entry_names(entries@).contains(#[trigger] l[a]),
            forall|b: int| 0 <= b < j ==> entry_names(entries@).contains(#[trigger] r[b]),
            forall|k: int|
                0 <= k < entries.len() ==> {
                    &&& ls.contains(entry_names(entries@)[k]) || rs.contains(
                        entry_names(entries@)[k],
                    )
                    &&& (#[trigger] entries[k]).status == diff_status(
                        ls,
                        rs,
                        entry_names(entries@)[k],
                    )
                },
        decreases (left.len() - i) + (right.len() - j),
    {
        let ghost held = entries@;
        let ghost names = entry_names(held);
        let order = if i == left.len() {
            TextOrder::After
        } else if j == right.len() {
            TextOrder::Before
        } else {
            compare_text(left[i].as_str(), right[j].as_str())
        };
        match order {
            TextOrder::Before => {
                let name = left[i].clone();
                proof {
                    assert(name@ == l[i as int]);
                    assert(l.contains(name@));
                    lemma_absent(names, r, j as int, name@);
                }
                entries.push(DiffEntry { name, status: DiffStatus::OnlyPath1 });
                i = i + 1;
            },
            TextOrder::After => {
                let name = right[j].clone();
                proof {
                    assert(name@ == r[j as int]);
                    assert(r.contains(name@));
                    lemma_absent(names, l, i as int, name@);
                }
                entries.push(DiffEntry { name, status: DiffStatus::OnlyPath2 });
                j = j + 1;
            },
            TextOrder::Same => {
                let name = left[i].clone();
                proof {
                    assert(name@ == l[i as int]);
                    assert(name@ == r[j as int]);
                    assert(l.contains(name@));
                    assert(r.contains(name@));
                }
                entries.push(DiffEntry { name, status: DiffStatus::Both });
                i = i + 1;
                j = j + 1;
            },
        }
        proof {
            let now = entry_names(entries@);
            let last = held.len() as int;
            assert(now =~= names.push(now[last]));
            assert forall|x: int, y: int| 0 <= x < y < now.len() implies precedes(
                #[trigger] now[x],
                #[trigger] now[y],
            ) by {
                if y < last {
                    assert(now[x] == names[x] && now[y] == names[y]);
                } else {
                    assert(now[x] == names[x]);
                }
            }
            assert forall|k: int, a: int|
                0 <= k < entries.len() && i <= a < l.len() implies precedes(
                #[trigger] now[k],
                #[trigger] l[a],
            ) by {
                if k < last {
                    assert(now[k] == names[k]);
                } else if order == TextOrder::After && a > i {
                    lemma_precedes_transitive(now[k], l[i as int], l[a]);
                }
            }
            assert forall|k: int, b: int|
                0 <= k < entries.len() && j <= b < r.len() implies precedes(
                #[trigger] now[k],
                #[trigger] r[b],
            ) by {
                if k < last {
                    assert(now[k] == names[k]);
                } else if order == TextOrder::Before && b > j {
                    lemma_precedes_transitive(now[k], r[j as int], r[b]);
                }
            }
            assert forall|a: int| 0 <= a < i implies now.contains(#[trigger] l[a]) by {
                if names.contains(l[a]) {
                    let k = choose|k: int| 0 <= k < names.len() && names[k] == l[a];
                    assert(now[k] == l[a]);
                } else {
                    assert(now[last] == l[a]);
                }
            }
            assert forall|b: int| 0 <= b < j implies now.contains(#[trigger] r[b]) by {
                if names.contains(r[b]) {
                    let k = choose|k: int| 0 <= k < names.len() && names[k] == r[b];
                    assert(now[k] == r[b]);
                } else {
                    assert(now[last] == r[b]);
                }
            }
            assert forall|k: int| 0 <= k < entries.len() implies {
                &&& ls.contains(now[k]) || rs.contains(now[k])
                &&& (#[trigger] entries[k]).status == diff_status(ls, rs, now[k])
            } by {
                if k < last {
                    assert(entries[k] == held[k]);
                    assert(now[k] == names[k]);
                }
            }
        }
    }
    let diff = SyscallDiff { entries };
    proof {
        let names = entry_names(entries@);
        assert forall|n: Seq<char>| names.contains(n) <==> (ls.contains(n) || rs.contains(
            n,
        )) by {
            if l.contains(n) {
                let a = choose|a: int| 0 <= a < l.len() && l[a] == n;
                assert(names.contains(l[a]));
            }
            if r.contains(n) {
                let b = choose|b: int| 0 <= b < r.len() && r[b] == n;
                assert(names.contains(r[b]));
            }
            if names.contains(n) {
                let k = choose|k: int| 0 <= k < names.len() && names[k] == n;
                assert(ls.contains(names[k]) || rs.contains(names[k]));
            }
        }
        assert forall|n: Seq<char>| names.contains(n) implies #[trigger] diff@[n] == diff_status(
            ls,
            rs,
            n,
        ) by {
            let k = choose|k: int| 0 <= k < names.len() && names[k] == n;
            assert(entries[k].status == diff_status(ls, rs, names[k]));
        }
        assert(diff@ =~= diff_map(ls, rs));
    }
    diff
}

/// `name` comes after all of `seen` and before `others[from]` and what
/// follows it, while `seen` holds all of `others` before `from`: so `others`
/// does not hold `name`.
proof fn lemma_absent(seen: Seq<Seq<char>>, others: Seq<Seq<char>>, from: int, name: Seq<char>)
    requires
        0 <= from <= others.len(),
        strictly_sorted(others),
        forall|k: int| 0 <= k < seen.len() ==> precedes(#[trigger] seen[k], name),
        forall|b: int| 0 <= b < from ==> seen.contains(#[trigger] others[b]),
        from < others.len() ==> precedes(name, others[from]),
    ensures
        !others.contains(name),
{
    if others.contains(name) {
        let b = choose|b: int| 0 <= b < others.len() && others[b] == name;
        if b < from {
            assert(seen.contains(others[b]));
            let k = choose|k: int| 0 <= k < seen.len() && seen[k] == others[b];
            lemma_precedes_asymmetric(seen[k], name);
        } else if b == from {
            lemma_precedes_asymmetric(name, others[from]);
        } else {
            lemma_precedes_transitive(name, others[from], others[b]);
            lemma_precedes_asymmetric(name, others[b]);
        }
    }
}

/// Compares two profiles: each syscall name that either holds is marked as
/// held by the first only, by the second only, or by both.  There is no
/// comparison where a profile yields no syscall name, be it for want of a
/// syscall section or of a name in its rules.
pub fn diff(profile1: SeccompProfile, profile2: SeccompProfile) -> (result: Result<
    SyscallDiff,
    ProfilerError,
>)
    ensures
        match diff_of(profile1@, profile2@) {
            Some(statuses) => result matches Ok(found) && found@ == statuses,
            None => result matches Err(error) && error == ProfilerError::Profile,
        },
{
    let left = match extract_syscall_names(profile1) {
        Ok(names) => names,
        Err(error) => {
            return Err(error);
        },
    };
    let right = match extract_syscall_names(profile2) {
        Ok(names) => names,
        Err(error) => {
            return Err(error);
        },
    };
    proof {
        if left.len() > 0 {
            assert(texts(left@).contains(texts(left@)[0]));
        }
        if right.len() > 0 {
            assert(texts(right@).contains(texts(right@)[0]));
        }
    }
    if left.len() == 0 || right.len() == 0 {
        return Err(ProfilerError::Profile);
    }
    let diff = compare_listings(&left, &right);
    proof {
        assert(name_set(texts(left@)) =~= profile_name_set(profile1@));
        assert(name_set(texts(right@)) =~= profile_name_set(profile2@));
    }
    Ok(diff)
}

/// The names of rules are finitely many.
pub proof fn lemma_rule_names_finite(rules: Seq<RuleModel>, n: int)
    ensures
        rule_names_upto(rules, n).finite(),
    decreases n,
{
    if n <= 0 {
        assert(rule_names_upto(rules, n) =~= Set::empty());
    } else {
        lemma_rule_names_finite(rules, n - 1);
        if n - 1 < rules.len() {
            lemma_name_set_finite(rules[n - 1].names);
            assert(rule_names_upto(rules, n) =~= rule_names_upto(rules, n - 1).union(
                name_set(rules[n - 1].names),
            ));
        } else {
            assert(rule_names_upto(rules, n) =~= rule_names_upto(rules, n - 1));
        }
    }
}

/// The names of profiles are finitely many.
pub proof fn lemma_profile_names_finite(profiles: Seq<ProfileModel>, n: int)
    ensures
        profile_names_upto(profiles, n).finite(),
    decreases n,
{
    if n <= 0 {
        assert(profile_names_upto(profiles, n) =~= Set::empty());
    } else {
        lemma_profile_names_finite(profiles, n - 1);
        if n - 1 < profiles.len() {
            match profiles[n - 1].syscalls {
                Some(rules) => {
                    lemma_rule_names_finite(rules, rules.len() as int);
                },
                None => {},
            }
            assert(profile_names_upto(profiles, n) =~= profile_names_upto(profiles, n - 1).union(
                profile_name_set(profiles[n - 1]),
            ));
        } else {
            assert(profile_names_upto(profiles, n) =~= profile_names_upto(profiles, n - 1));
        }
    }
}

/// Extraction gives, for every profile with a syscall section, exactly the
/// names of its rules, in ascending order.
pub proof fn lemma_extracted_names_list(profile: ProfileModel)
    requires
        profile.syscalls is Some,
    ensures
        extracted_names(profile) matches Some(names) && lists(names, profile_name_set(profile)),
{
    let rules = profile.syscalls->0;
    lemma_rule_names_finite(rules, rules.len() as int);
    lemma_sorted_listing_lists(rule_name_set(rules));
}

/// The merge of at least one profile has one rule, which lists exactly the
/// names of all the profiles in ascending order: the merged profile allows
/// every name of every input and no other.
pub proof fn lemma_merged_profile_lists_union(profiles: Seq<ProfileModel>)
    requires
        profiles.len() > 0,
    ensures
        merged_profile(profiles).syscalls matches Some(rules) && rules.len() == 1 && lists(
            rules[0].names,
            merged_name_set(profiles),
        ),
        profile_name_set(merged_profile(profiles)) == merged_name_set(profiles),
{
    lemma_profile_names_finite(profiles, profiles.len() as int);
    lemma_sorted_listing_lists(merged_name_set(profiles));
    let names = sorted_listing(merged_name_set(profiles));
    let rules = seq![crate::profile::allow_rule(names)];
    assert forall|n: Seq<char>| rule_name_set(rules).contains(n) <==> merged_name_set(
        profiles,
    ).contains(n) by {
        if names.contains(n) {
            assert(rules[0].names.contains(n));
        }
    }
    assert(rule_name_set(rules) =~= merged_name_set(profiles));
}

/// Merging two profiles gives the same profile whichever comes first.
pub proof fn lemma_merge_commutative(a: ProfileModel, b: ProfileModel)
    ensures
        merged_profile(seq![a, b]) == merged_profile(seq![b, a]),
{
    lemma_merge_order_free(seq![a], seq![b]);
    assert(seq![a] + seq![b] =~= seq![a, b]);
    assert(seq![b] + seq![a] =~= seq![b, a]);
}

/// Merging a profile with itself gives what merging it alone gives.
pub proof fn lemma_merge_idempotent(a: ProfileModel)
    ensures
        merged_profile(seq![a, a]) == merged_profile(seq![a]),
{
    lemma_merge_repeat_free(seq![a]);
    assert(seq![a] + seq![a] =~= seq![a, a]);
}

/// The merge of two runs of profiles does not depend on which run comes
/// first.
pub proof fn lemma_merge_order_free(p: Seq<ProfileModel>, q: Seq<ProfileModel>)
    ensures
        merged_profile(p + q) == merged_profile(q + p),
{
    let pq = p + q;
    let qp = q + p;
    assert forall|n: Seq<char>| merged_name_set(pq).contains(n) <==> merged_name_set(
        qp,
    ).contains(n) by {
        if merged_name_set(pq).contains(n) {
            let i = choose|i: int|
                0 <= i < pq.len() && i < pq.len() && profile_name_set(#[trigger] pq[i]).contains(
                    n,
                );
            if i < p.len() {
                assert(qp[q.len() + i] == pq[i]);
            } else {
                assert(qp[i - p.len()] == pq[i]);
            }
        }
        if merged_name_set(qp).contains(n) {
            let i = choose|i: int|
                0 <= i < qp.len() && i < qp.len() && profile_name_set(#[trigger] qp[i]).contains(
                    n,
                );
            if i < q.len() {
                assert(pq[p.len() + i] == qp[i]);
            } else {
                assert(pq[i - q.len()] == qp[i]);
            }
        }
    }
    assert(merged_name_set(pq) =~= merged_name_set(qp));
}

/// Merging a run of profiles twice over gives what merging it once gives.
pub proof fn lemma_merge_repeat_free(p: Seq<ProfileModel>)
    ensures
        merged_profile(p + p) == merged_profile(p),
{
    let pp = p + p;
    assert forall|n: Seq<char>| merged_name_set(pp).contains(n) <==> merged_name_set(
        p,
    ).contains(n) by {
        if merged_name_set(pp).contains(n) {
            let i = choose|i: int|
                0 <= i < pp.len() && i < pp.len() && profile_name_set(#[trigger] pp[i]).contains(
                    n,
                );
            if i < p.len() {
                assert(p[i] == pp[i]);
            } else {
                assert(p[i - p.len()] == pp[i]);
            }
        }
        if merged_name_set(p).contains(n) {
            let i = choose|i: int|
                0 <= i < p.len() && i < p.len() && profile_name_set(#[trigger] p[i]).contains(n);
            assert(pp[i] == p[i]);
        }
    }
    assert(merged_name_set(pp) =~= merged_name_set(p));
}

/// An allow-list whose names are ascending is what merging it alone gives,
/// and its names are what extraction gives.
pub proof fn lemma_canonical_is_fixed(names: Seq<Seq<char>>)
    requires
        strictly_sorted(names),
    ensures
        extracted_names(allow_list(names, merged_architectures())) == Some(names),
        merged_profile(seq![allow_list(names, merged_architectures())]) == allow_list(
            names,
            merged_architectures(),
        ),
{
    let profile = allow_list(names, merged_architectures());
    let rules = seq![crate::profile::allow_rule(names)];
    assert forall|n: Seq<char>| names.contains(n) <==> rule_name_set(rules).contains(n) by {
        if names.contains(n) {
            assert(rules[0].names.contains(n));
        }
    }
    lemma_listing_is_sorted_listing(names, rule_name_set(rules));
    let single = seq![profile];
    assert forall|n: Seq<char>| names.contains(n) <==> merged_name_set(single).contains(n) by {
        if names.contains(n) {
            assert(profile_name_set(single[0]).contains(n));
        }
    }
    lemma_listing_is_sorted_listing(names, merged_name_set(single));
}

/// Comparing a profile with itself marks every name as held by both.
pub proof fn lemma_diff_same(profile: ProfileModel)
    requires
        !yields_no_names(profile),
    ensures
        diff_of(profile, profile) matches Some(statuses) && statuses.dom() == profile_name_set(
            profile,
        ) && forall|name: Seq<char>| #[trigger]
            statuses.contains_key(name) ==> statuses[name] == DiffStatus::Both,
{
    let names = profile_name_set(profile);
    assert(diff_map(names, names).dom() =~= names);
}

/// Comparing in the other order covers the same names and swaps the two
/// one-sided statuses.
pub proof fn lemma_diff_mirrored(left: ProfileModel, right: ProfileModel)
    requires
        !yields_no_names(left),
        !yields_no_names(right),
    ensures
        diff_of(left, right) is Some,
        diff_of(left, right) is Some <==> diff_of(right, left) is Some,
        diff_of(left, right) matches Some(forth) ==> diff_of(right, left) matches Some(back)
            && forth.dom() == back.dom() && forall|name: Seq<char>| #[trigger]
            forth.contains_key(name) ==> back[name] == mirrored(forth[name]),
{
    if diff_of(left, right) is Some {
        let l = profile_name_set(left);
        let r = profile_name_set(right);
        assert(diff_map(l, r).dom() =~= diff_map(r, l).dom());
    }
}

/// There is no comparison with a profile that yields no syscall name,
/// whichever side it stands on and whatever the other profile holds.
pub proof fn lemma_diff_needs_names(empty: ProfileModel, other: ProfileModel)
    requires
        yields_no_names(empty),
    ensures
        diff_of(empty, other) is None,
        diff_of(other, empty) is None,
{
}

/// The status as seen from the other side.
pub open spec fn mirrored(status: DiffStatus) -> DiffStatus {
    match status {
        DiffStatus::OnlyPath1 => DiffStatus::OnlyPath2,
        DiffStatus::OnlyPath2 => DiffStatus::OnlyPath1,
        DiffStatus::Both => DiffStatus::Both,
    }
}

} // verus!
