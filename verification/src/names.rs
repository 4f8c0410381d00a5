//! Canonical listings of names: strictly ascending, hence free of duplicates.

use crate::text::{
    compare_text, lemma_precedes_asymmetric, lemma_precedes_irreflexive,
    lemma_precedes_total, lemma_precedes_transitive, precedes, texts, TextOrder,
};
use vstd::prelude::*;

verus! {

/// Every entry comes before all later ones, so none occurs twice.
pub open spec fn strictly_sorted(names: Seq<Seq<char>>) -> bool {
    forall|i: int, j: int| 0 <= i < j < names.len() ==> precedes(#[trigger] names[i], #[trigger] names[j])
}

/// `names` lists exactly the members of `set`, each once, in ascending order.
pub open spec fn lists(names: Seq<Seq<char>>, set: Set<Seq<char>>) -> bool {
    &&& strictly_sorted(names)
    &&& forall|n: Seq<char>| names.contains(n) <==> set.contains(n)
}

/// The ascending listing of a set of names; `lemma_listing_unique` shows that
/// a set has at most one.
pub open spec fn sorted_listing(set: Set<Seq<char>>) -> Seq<Seq<char>> {
    choose|names: Seq<Seq<char>>| lists(names, set)
}

/// The names that occur in a sequence.
pub open spec fn name_set(names: Seq<Seq<char>>) -> Set<Seq<char>> {
    Set::new(|n: Seq<char>| names.contains(n))
}

/// Two ascending listings of the same set are the same sequence.
pub proof fn lemma_listing_unique(a: Seq<Seq<char>>, b: Seq<Seq<char>>, set: Set<Seq<char>>)
    requires
        lists(a, set),
        lists(b, set),
    ensures
        a == b,
    decreases a.len(),
{
    if a.len() == 0 {
        if b.len() > 0 {
            assert(b.contains(b[0]));
            assert(a.contains(b[0]));
        }
        assert(a =~= b);
    } else if b.len() == 0 {
        assert(a.contains(a[0]));
        assert(b.contains(a[0]));
    } else {
        assert(a.contains(a[0]));
        assert(b.contains(b[0]));
        let i = choose|i: int| 0 <= i < b.len() && b[i] == a[0];
        let j = choose|j: int| 0 <= j < a.len() && a[j] == b[0];
        if i > 0 && j > 0 {
            lemma_precedes_asymmetric(a[0], a[j]);
        }
        if i > 0 {
            lemma_precedes_irreflexive(b[0]);
        }
        if j > 0 {
            lemma_precedes_irreflexive(a[0]);
        }
        assert(a[0] == b[0]);
        let rest = set.remove(a[0]);
        let ta = a.drop_first();
        let tb = b.drop_first();
        lemma_tail_lists(a, set);
        lemma_tail_lists(b, set);
        lemma_listing_unique(ta, tb, rest);
        assert(a =~= seq![a[0]] + ta);
        assert(b =~= seq![b[0]] + tb);
    }
}

proof fn lemma_tail_lists(a: Seq<Seq<char>>, set: Set<Seq<char>>)
    requires
        lists(a, set),
        a.len() > 0,
    ensures
        lists(a.drop_first(), set.remove(a[0])),
{
    let t = a.drop_first();
    assert forall|i: int, j: int| 0 <= i < j < t.len() implies precedes(
        #[trigger] t[i],
        #[trigger] t[j],
    ) by {
        assert(t[i] == a[i + 1] && t[j] == a[j + 1]);
    }
    assert forall|n: Seq<char>| t.contains(n) <==> set.remove(a[0]).contains(n) by {
        if t.contains(n) {
            let k = choose|k: int| 0 <= k < t.len() && t[k] == n;
            assert(a[k + 1] == n);
            assert(a.contains(n));
            lemma_precedes_asymmetric(a[0], a[k + 1]);
        }
        if set.remove(a[0]).contains(n) {
            assert(a.contains(n));
            let k = choose|k: int| 0 <= k < a.len() && a[k] == n;
            assert(k > 0);
            assert(t[k - 1] == n);
        }
    }
}

/// A listing of a set is the set's ascending listing.
pub proof fn lemma_listing_is_sorted_listing(names: Seq<Seq<char>>, set: Set<Seq<char>>)
    requires
        lists(names, set),
    ensures
        names == sorted_listing(set),
{
    lemma_listing_unique(names, sorted_listing(set), set);
}

/// Where `name` belongs in an ascending listing: behind the entries that come
/// before it.
pub open spec fn rank(names: Seq<Seq<char>>, name: Seq<char>) -> int
    decreases names.len(),
{
    if names.len() == 0 {
        0
    } else if precedes(names.last(), name) {
        names.len() as int
    } else {
        rank(names.drop_last(), name)
    }
}

/// The rank splits an ascending listing into the entries that come before
/// `name` and those that do not.
pub proof fn lemma_rank_splits(names: Seq<Seq<char>>, name: Seq<char>)
    requires
        strictly_sorted(names),
    ensures
        0 <= rank(names, name) <= names.len(),
        forall|k: int| 0 <= k < rank(names, name) ==> precedes(#[trigger] names[k], name),
        forall|k: int|
            rank(names, name) <= k < names.len() ==> !precedes(#[trigger] names[k], name),
    decreases names.len(),
{
    if names.len() > 0 {
        let last = names.len() - 1;
        if precedes(names.last(), name) {
            assert forall|k: int| 0 <= k < names.len() implies precedes(
                #[trigger] names[k],
                name,
            ) by {
                if k < last {
                    lemma_precedes_transitive(names[k], names[last], name);
                }
            }
        } else {
            let front = names.drop_last();
            assert forall|i: int, j: int| 0 <= i < j < front.len() implies precedes(
                #[trigger] front[i],
                #[trigger] front[j],
            ) by {
                assert(front[i] == names[i] && front[j] == names[j]);
            }
            lemma_rank_splits(front, name);
            assert forall|k: int| 0 <= k < rank(names, name) implies precedes(
                #[trigger] names[k],
                name,
            ) by {
                assert(front[k] == names[k]);
            }
            assert forall|k: int| rank(names, name) <= k < names.len() implies !precedes(
                #[trigger] names[k],
                name,
            ) by {
                if k < last {
                    assert(front[k] == names[k]);
                }
            }
        }
    }
}

/// A listing with a new name put in at its rank lists the set with that
/// name.
pub proof fn lemma_insert_lists(names: Seq<Seq<char>>, set: Set<Seq<char>>, name: Seq<char>)
    requires
        lists(names, set),
        !set.contains(name),
    ensures
        lists(names.insert(rank(names, name), name), set.insert(name)),
{
    lemma_rank_splits(names, name);
    let at = rank(names, name);
    let after = names.insert(at, name);
    assert forall|x: int, y: int| 0 <= x < y < after.len() implies precedes(
        #[trigger] after[x],
        #[trigger] after[y],
    ) by {
        if y < at {
            assert(after[x] == names[x] && after[y] == names[y]);
        } else if y == at {
            assert(after[x] == names[x]);
        } else if x == at {
            assert(after[y] == names[y - 1]);
            assert(names.contains(names[y - 1]));
            lemma_precedes_total(names[y - 1], name);
        } else if x < at {
            assert(after[x] == names[x] && after[y] == names[y - 1]);
        } else {
            assert(after[x] == names[x - 1] && after[y] == names[y - 1]);
        }
    }
    assert forall|n: Seq<char>| after.contains(n) <==> set.insert(name).contains(n) by {
        if after.contains(n) {
            let k = choose|k: int| 0 <= k < after.len() && after[k] == n;
            if k < at {
                assert(names[k] == n);
                assert(names.contains(n));
            } else if k > at {
                assert(names[k - 1] == n);
                assert(names.contains(n));
            }
        }
        if set.contains(n) {
            assert(names.contains(n));
            let k = choose|k: int| 0 <= k < names.len() && names[k] == n;
            if k < at {
                assert(after[k] == n);
            } else {
                assert(after[k + 1] == n);
            }
        }
        if n == name {
            assert(after[at] == n);
        }
    }
}

/// Every finite set of names has its ascending listing.
pub proof fn lemma_sorted_listing_lists(set: Set<Seq<char>>)
    requires
        set.finite(),
    ensures
        lists(sorted_listing(set), set),
    decreases set.len(),
{
    if set.len() == 0 {
        set.lemma_len0_is_empty();
        let none = Seq::<Seq<char>>::empty();
        assert(lists(none, set));
    } else {
        let name = set.choose();
        let rest = set.remove(name);
        lemma_sorted_listing_lists(rest);
        let listing = sorted_listing(rest);
        lemma_insert_lists(listing, rest, name);
        assert(rest.insert(name) =~= set);
        assert(lists(listing.insert(rank(listing, name), name), set));
    }
}

/// The names of a sequence are finitely many.
pub proof fn lemma_name_set_finite(names: Seq<Seq<char>>)
    ensures
        name_set(names).finite(),
{
    vstd::seq_lib::seq_to_set_is_finite(names);
    assert(name_set(names) =~= names.to_set());
}

/// Puts `name` at its place in an ascending listing, unless the listing
/// holds it already.
pub(crate) fn insert_name(list: &mut Vec<String>, name: String)
    requires
        strictly_sorted(texts(old(list)@)),
    ensures
        lists(texts(final(list)@), name_set(texts(old(list)@)).insert(name@)),
{
    let ghost before = texts(list@);
    let mut i: usize = 0;
    let mut found = false;
    while i < list.len() && !found
        invariant
            i <= list.len(),
            texts(list@) == before,
            forall|k: int| 0 <= k < i ==> precedes(#[trigger] before[k], name@),
            found ==> i < list.len() && precedes(name@, before[i as int]),
            strictly_sorted(before),
        decreases list.len() - i + (if found { 0int } else { 1int }),
    {
        match compare_text(list[i].as_str(), name.as_str()) {
            TextOrder::Before => {
                i = i + 1;
            },
            TextOrder::Same => {
                proof {
                    assert(before[i as int] == name@);
                    assert(before.contains(name@));
                    assert forall|n: Seq<char>| before.contains(n) <==> name_set(before).insert(
                        name@,
                    ).contains(n) by {}
                }
                return ;
            },
            TextOrder::After => {
                found = true;
            },
        }
    }
    list.insert(i, name);
    proof {
        let after = texts(list@);
        let at = i as int;
        assert(after =~= before.insert(at, name@));
        assert forall|x: int, y: int| 0 <= x < y < after.len() implies precedes(
            #[trigger] after[x],
            #[trigger] after[y],
        ) by {
            if y < at {
                assert(after[x] == before[x] && after[y] == before[y]);
            } else if y == at {
                assert(after[x] == before[x]);
            } else if x == at {
                assert(after[y] == before[y - 1]);
                if y - 1 > at {
                    lemma_precedes_transitive(name@, before[at], before[y - 1]);
                }
            } else if x < at {
                assert(after[x] == before[x] && after[y] == before[y - 1]);
            } else {
                assert(after[x] == before[x - 1] && after[y] == before[y - 1]);
            }
        }
        assert forall|n: Seq<char>| after.contains(n) <==> name_set(before).insert(
            name@,
        ).contains(n) by {
            if after.contains(n) {
                let k = choose|k: int| 0 <= k < after.len() && after[k] == n;
                if k < at {
                    assert(before[k] == n);
                } else if k > at {
                    assert(before[k - 1] == n);
                }
            }
            if before.contains(n) {
                let k = choose|k: int| 0 <= k < before.len() && before[k] == n;
                if k < at {
                    assert(after[k] == n);
                } else {
                    assert(after[k + 1] == n);
                }
            }
            if n == name@ {
                assert(after[at] == n);
            }
        }
    }
}

/// The names of `names` in ascending order, each once.
pub fn sorted_unique(names: &Vec<String>) -> (out: Vec<String>)
    ensures
        lists(texts(out@), name_set(texts(names@))),
        texts(out@) == sorted_listing(name_set(texts(names@))),
{
    let mut out: Vec<String> = Vec::new();
    let ghost all = texts(names@);
    let mut i: usize = 0;
    assert(forall|n: Seq<char>| !texts(out@).contains(n));
    while i < names.len()
        invariant
            i <= names.len(),
            all == texts(names@),
            lists(texts(out@), name_set(all.take(i as int))),
        decreases names.len() - i,
    {
        let ghost held = texts(out@);
        insert_name(&mut out, names[i].clone());
        proof {
            let next = all.take(i + 1);
            assert(all[i as int] == names@[i as int]@);
            assert forall|n: Seq<char>| texts(out@).contains(n) <==> name_set(next).contains(
                n,
            ) by {
                if held.contains(n) {
                    let k = choose|k: int| 0 <= k < i && all.take(i as int)[k] == n;
                    assert(next[k] == n);
                }
                if n == all[i as int] {
                    assert(next[i as int] == n);
                }
                if next.contains(n) {
                    let k = choose|k: int| 0 <= k < next.len() && next[k] == n;
                    if k < i {
                        assert(all.take(i as int)[k] == n);
                    }
                }
            }
        }
        i = i + 1;
    }
    proof {
        assert(all.take(i as int) =~= all);
        lemma_listing_is_sorted_listing(texts(out@), name_set(all));
    }
    out
}

} // verus!
