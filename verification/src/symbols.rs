//! The symbol names of an object file, read from its image.

use crate::text::texts;
use object::{Object, ObjectSymbol};
use vstd::prelude::*;

verus! {

/// What `object` reads as the dynamic symbol table of an image: nothing where
/// it does not take the image for an object file, else one entry for each
/// dynamic symbol in file order.  An entry holds the symbol's name where
/// `object` can give it as text: it holds none where the name lies outside
/// the string table or is not UTF-8.
pub uninterp spec fn dynamic_symbol_table(image: Seq<u8>) -> Option<Seq<Option<Seq<char>>>>;

/// What `object` reads as the whole symbol table of an image, in the same
/// form as `dynamic_symbol_table`.
pub uninterp spec fn symbol_table(image: Seq<u8>) -> Option<Seq<Option<Seq<char>>>>;

/// The entries of a symbol table as texts.
pub open spec fn entry_texts(entries: Seq<Option<String>>) -> Seq<Option<Seq<char>>> {
    entries.map_values(
        |entry: Option<String>|
            match entry {
                Some(name) => Some(name@),
                None => None,
            },
    )
}

/// A symbol table as texts.
pub open spec fn table_texts(table: Option<Vec<Option<String>>>) -> Option<
    Seq<Option<Seq<char>>>,
> {
    match table {
        Some(entries) => Some(entry_texts(entries@)),
        None => None,
    }
}

/// Calls `object::File::parse` on the image and walks
/// `Object::dynamic_symbols`, taking `ObjectSymbol::name` of each symbol.
/// The contract only gives the outcome its name: it is a function of the
/// image alone.
#[verifier::external_body]
pub(crate) fn read_dynamic_symbols(image: &[u8]) -> (table: Option<Vec<Option<String>>>)
    ensures
        table_texts(table) == dynamic_symbol_table(image@),
{
    let file = object::File::parse(image).ok()?;
    Some(file.dynamic_symbols().map(|symbol| symbol.name().ok().map(String::from)).collect())
}

/// Calls `object::File::parse` on the image and walks `Object::symbols`,
/// taking `ObjectSymbol::name` of each symbol.  The contract only gives the
/// outcome its name: it is a function of the image alone.
#[verifier::external_body]
pub(crate) fn read_symbols(image: &[u8]) -> (table: Option<Vec<Option<String>>>)
    ensures
        table_texts(table) == symbol_table(image@),
{
    let file = object::File::parse(image).ok()?;
    Some(file.symbols().map(|symbol| symbol.name().ok().map(String::from)).collect())
}

/// The names that a symbol table holds, in order, without the entries whose
/// name could not be read.
pub open spec fn present_names(entries: Seq<Option<Seq<char>>>) -> Seq<Seq<char>>
    decreases entries.len(),
{
    if entries.len() == 0 {
        Seq::empty()
    } else {
        match entries.last() {
            Some(name) => present_names(entries.drop_last()).push(name),
            None => present_names(entries.drop_last()),
        }
    }
}

/// Every entry of the table holds a name.
pub open spec fn all_present(entries: Seq<Option<Seq<char>>>) -> bool {
    forall|i: int| 0 <= i < entries.len() ==> (#[trigger] entries[i]) is Some
}

/// The names of the entries that hold one, in order.
pub fn readable_names(entries: &Vec<Option<String>>) -> (names: Vec<String>)
    ensures
        texts(names@) == present_names(entry_texts(entries@)),
{
    let ghost all = entry_texts(entries@);
    let mut names: Vec<String> = Vec::new();
    let mut i: usize = 0;
    assert(texts(names@) =~= present_names(all.take(0)));
    while i < entries.len()
        invariant
            i <= entries.len(),
            all == entry_texts(entries@),
            texts(names@) == present_names(all.take(i as int)),
        decreases entries.len() - i,
    {
        let ghost held = texts(names@);
        proof {
            assert(all.take(i + 1).drop_last() =~= all.take(i as int));
            assert(all.take(i + 1).last() == all[i as int]);
        }
        match &entries[i] {
            Some(name) => {
                names.push(name.clone());
                assert(texts(names@) =~= held.push(name@));
            },
            None => {},
        }
        i = i + 1;
    }
    assert(all.take(i as int) =~= all);
    names
}

/// The names of all entries in order, unless one of them holds none.
pub fn complete_names(entries: &Vec<Option<String>>) -> (names: Option<Vec<String>>)
    ensures
        match names {
            Some(found) => all_present(entry_texts(entries@)) && texts(found@) == present_names(
                entry_texts(entries@),
            ),
            None => !all_present(entry_texts(entries@)),
        },
{
    let ghost all = entry_texts(entries@);
    let mut i: usize = 0;
    while i < entries.len()
        invariant
            i <= entries.len(),
            all == entry_texts(entries@),
            forall|k: int| 0 <= k < i ==> (#[trigger] all[k]) is Some,
        decreases entries.len() - i,
    {
        if entries[i].is_none() {
            assert(all[i as int] is None);
            return None;
        }
        i = i + 1;
    }
    Some(readable_names(entries))
}

} // verus!
