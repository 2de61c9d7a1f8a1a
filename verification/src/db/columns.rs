//! What a write stores besides a row's JSON: the citation's indexed
//! source column, the class names of the `reference` table, and the rows
//! a write removed. (The place columns live with the place operations.)

use vstd::prelude::*;

use super::keyed::{find, has_key, lemma_find_key, Keyed};
use super::refs::{class_name, ObjClass};
use crate::db::repo::family::opt_view;
use crate::gramps::citation::Citation;
use crate::text::str_eq;

verus! {

/// The `source_handle` column of a citation: none for an orphan.
pub fn citation_source_column(c: &Citation) -> (r: Option<String>)
    ensures
        opt_view(r) == if c.source_handle@.len() == 0 {
            None
        } else {
            Some(c.source_handle@)
        },
{
    if c.source_handle.as_str().is_empty() {
        None
    } else {
        Some(c.source_handle.clone())
    }
}

/// The ten classes, in the order of the table list.
pub open spec fn all_classes() -> Seq<ObjClass> {
    seq![
        ObjClass::Person,
        ObjClass::Family,
        ObjClass::Event,
        ObjClass::Place,
        ObjClass::Source,
        ObjClass::Citation,
        ObjClass::Media,
        ObjClass::Note,
        ObjClass::Repository,
        ObjClass::Tag,
    ]
}

/// The class a `reference` row names, read back from its column text.
pub fn class_from_name(name: &str) -> (r: Option<ObjClass>)
    ensures
        match r {
            Some(c) => class_name(c) == name@,
            None => forall|k: int| 0 <= k < all_classes().len() ==> class_name(#[trigger] all_classes()[k]) != name@,
        },
{
    let classes: [ObjClass; 10] = [
        ObjClass::Person,
        ObjClass::Family,
        ObjClass::Event,
        ObjClass::Place,
        ObjClass::Source,
        ObjClass::Citation,
        ObjClass::Media,
        ObjClass::Note,
        ObjClass::Repository,
        ObjClass::Tag,
    ];
    assert(classes@ =~= all_classes());
    let mut k: usize = 0;
    while k < 10
        invariant
            k <= 10,
            classes@ == all_classes(),
            forall|j: int| 0 <= j < k ==> class_name(#[trigger] all_classes()[j]) != name@,
        decreases 10 - k,
    {
        let c = classes[k];
        if str_eq(c.name(), name) {
            return Some(c);
        }
        k = k + 1;
    }
    None
}

/// The handles of `before` that no row of `after` has, in order: the rows
/// a write removed.
pub fn vanished<T: Keyed>(before: &Vec<String>, after: &Vec<T>) -> (r: Vec<String>)
    ensures
        r@.len() <= before@.len(),
        forall|k: int| 0 <= k < r@.len() ==> before@.contains(#[trigger] r@[k]) && !has_key(after@, r@[k]@),
        forall|i: int| 0 <= i < before@.len() && !has_key(after@, #[trigger] before@[i]@) ==> r@.contains(before@[i]),
{
    let mut out: Vec<String> = Vec::new();
    let mut i: usize = 0;
    while i < before.len()
        invariant
            i <= before@.len(),
            out@.len() <= i,
            forall|k: int| 0 <= k < out@.len() ==> before@.contains(#[trigger] out@[k]) && !has_key(after@, out@[k]@),
            forall|j: int| 0 <= j < i && !has_key(after@, #[trigger] before@[j]@) ==> out@.contains(before@[j]),
        decreases before.len() - i,
    {
        let h = &before[i];
        let found = find(after, h.as_str());
        proof {
            lemma_find_key(after@, h@);
        }
        if found.is_none() {
            let ghost prev = out@;
            out.push(h.clone());
            assert(out@[out@.len() - 1] == before@[i as int]);
            assert forall|j: int| 0 <= j < i + 1 && !has_key(after@, #[trigger] before@[j]@) implies out@.contains(before@[j]) by {
                if j < i {
                    let k = choose|k: int| 0 <= k < prev.len() && prev[k] == before@[j];
                    assert(out@[k] == prev[k]);
                }
            }
        }
        i = i + 1;
    }
    out
}

} // verus!
