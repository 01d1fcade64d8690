//! Lists of names: the `required` lists of a contract.
//!
//! A document type lists the names of its required properties, and an object
//! property those of its required inner properties. An export makes such a
//! list anew, name by name, and no name stands in it twice.

use crate::model::texts_view;
use crate::text::same_text;
use vstd::prelude::*;

verus! {

/// `names` without any occurrence of `name`.
pub open spec fn without(names: Seq<Seq<char>>, name: Seq<char>) -> Seq<Seq<char>>
    decreases names.len(),
{
    if names.len() == 0 {
        names
    } else if names.last() == name {
        without(names.drop_last(), name)
    } else {
        without(names.drop_last(), name).push(names.last())
    }
}

/// `names` with `name` at the end, if it is wanted and not there yet.
pub open spec fn with_name(names: Seq<Seq<char>>, name: Seq<char>, wanted: bool) -> Seq<Seq<char>> {
    if wanted && !names.contains(name) {
        names.push(name)
    } else {
        names
    }
}

/// A name is in `with_name(names, name, wanted)` exactly if it is in `names`,
/// or is `name` and wanted.
pub proof fn lemma_with_name_contains(
    names: Seq<Seq<char>>,
    name: Seq<char>,
    wanted: bool,
    other: Seq<char>,
)
    ensures
        with_name(names, name, wanted).contains(other) <==> (names.contains(other) || (wanted
            && other == name)),
{
    if wanted && !names.contains(name) {
        let r = names.push(name);
        assert(r[names.len() as int] == name);
        if names.contains(other) {
            let i = choose|i: int| 0 <= i < names.len() && names[i] == other;
            assert(r[i] == other);
        }
        if r.contains(other) && other != name {
            let i = choose|i: int| 0 <= i < r.len() && r[i] == other;
            assert(names[i] == other);
        }
    }
}

/// Adding a name to a list that holds no name twice leaves such a list.
pub proof fn lemma_with_name_distinct(names: Seq<Seq<char>>, name: Seq<char>, wanted: bool)
    requires
        names.no_duplicates(),
    ensures
        with_name(names, name, wanted).no_duplicates(),
{
    if wanted && !names.contains(name) {
        assert forall|i: int| 0 <= i < names.len() implies names[i] != name by {
            assert(names.contains(names[i]));
        }
    }
}

/// Whether `name` is among `names`.
pub fn has_name(names: &Vec<String>, name: &str) -> (r: bool)
    ensures
        r == texts_view(names@).contains(name@),
{
    let mut i: usize = 0;
    while i < names.len()
        invariant
            i <= names.len(),
            forall|j: int| 0 <= j < i ==> texts_view(names@)[j] != name@,
        decreases names.len() - i,
    {
        if same_text(names[i].as_str(), name) {
            assert(texts_view(names@)[i as int] == name@);
            return true;
        }
        i = i + 1;
    }
    false
}

/// Takes every occurrence of `name` out of `names`.
pub fn drop_name(names: &mut Vec<String>, name: &str)
    ensures
        texts_view(final(names)@) == without(texts_view(old(names)@), name@),
{
    let mut kept: Vec<String> = Vec::new();
    let mut i: usize = 0;
    assert(texts_view(names@).take(0) =~= Seq::empty());
    assert(texts_view(kept@) =~= Seq::empty());
    while i < names.len()
        invariant
            i <= names.len(),
            texts_view(kept@) == without(texts_view(names@).take(i as int), name@),
        decreases names.len() - i,
    {
        proof {
            let all = texts_view(names@);
            assert(all.take(i + 1).drop_last() =~= all.take(i as int));
            assert(all.take(i + 1).last() == names@[i as int]@);
        }
        let ghost before = texts_view(kept@);
        if !same_text(names[i].as_str(), name) {
            kept.push(names[i].clone());
            assert(texts_view(kept@) =~= before.push(names@[i as int]@));
        }
        i = i + 1;
    }
    assert(texts_view(names@).take(i as int) =~= texts_view(names@));
    *names = kept;
}

/// Adds `name` at the end of `names`, if it is wanted and not there yet.
pub fn add_name(names: &mut Vec<String>, name: &str, wanted: bool)
    ensures
        texts_view(final(names)@) == with_name(texts_view(old(names)@), name@, wanted),
{
    if wanted && !has_name(names, name) {
        let ghost before = texts_view(names@);
        names.push(name.to_owned());
        assert(texts_view(names@) =~= before.push(name@));
    }
}

} // verus!
