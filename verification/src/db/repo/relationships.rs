//! Adding a person together with a relationship, for the tree view's
//! context actions: a child of a person, a parent of a person, a sibling
//! of a person. Each composes the person and family operations and keeps
//! the links between them consistent in both directions.
//!
//! Every check that could refuse the operation is made before anything is
//! written, so a refused operation leaves the tree as it was.

use vstd::prelude::*;

use super::common::{gids, id_room, max_gramps_number, RepoError};
use super::family::{
    append_child_ok, append_child_to_family, contains_handle, create as create_family, edit_person_lists,
    family_create_ok, family_refs, lemma_add_family_links, opt_view, person_edit_ok, store_family, ListEdit,
};
use super::common::{now_unix, take_row};
use super::person::{create as create_person, person_create_ok};
use crate::db::keyed::{find, find_key, has_key, lemma_find_key, lemma_find_push, links_to, unique_keys, Keyed};
use crate::db::refs::{refs_from, ObjClass};
use crate::db::snapshot::{lookup, only_changed, Snapshot};
use crate::gramps::family::Family;
use crate::gramps::person::Person;

verus! {

/// The slot value a handle gives: the handle when non-empty, else none.
pub open spec fn nonempty_view(h: Seq<char>) -> Option<Seq<char>> {
    if h.len() > 0 {
        Some(h)
    } else {
        None
    }
}

/// The father slot of a new family for a parent of this gender: the
/// parent, unless the gender is female (0).
pub open spec fn father_slot(gender: i32, h: Seq<char>) -> Option<Seq<char>> {
    if gender == 0 {
        None
    } else {
        nonempty_view(h)
    }
}

/// The mother slot of a new family for a parent of this gender.
pub open spec fn mother_slot(gender: i32, h: Seq<char>) -> Option<Seq<char>> {
    if gender == 0 {
        nonempty_view(h)
    } else {
        None
    }
}

fn slot_for(gender: i32, h: &str, mother: bool) -> (r: Option<String>)
    ensures
        (if mother {
            mother_slot(gender, h@)
        } else {
            father_slot(gender, h@)
        }) == super::family::set_handle(r),
{
    if (gender == 0) == mother {
        Some(String::from_str(h))
    } else {
        None
    }
}

/// The family a new child of `par` joins: the parent's first family, or
/// else the new family `fam_h`.
pub open spec fn child_family(par: Person, fam_h: Seq<char>) -> Seq<char> {
    if par.family_list@.len() > 0 {
        par.family_list@[0]@
    } else {
        fam_h
    }
}

/// The new person can be made: there is room for a gramps id and its
/// handle is free.
pub open spec fn person_room(a: Snapshot, h: Seq<char>) -> bool {
    id_room(gids(a.persons@), 'I') && !has_key(a.persons@, h)
}

/// The new family can be made.
pub open spec fn family_room(a: Snapshot, h: Seq<char>) -> bool {
    id_room(gids(a.families@), 'F') && !has_key(a.families@, h)
}

/// The person-creation errors: `IdsExhausted` when the person ids are used
/// up, else `HandleInUse` when the new handle is taken.
pub open spec fn person_room_error(a: Snapshot, h: Seq<char>, e: RepoError) -> bool {
    match e {
        RepoError::IdsExhausted { class } => class == ObjClass::Person && !id_room(gids(a.persons@), 'I'),
        RepoError::HandleInUse { class, handle } => class == ObjClass::Person && id_room(gids(a.persons@), 'I') && has_key(a.persons@, h) && handle@ == h,
        _ => false,
    }
}

/// The family-creation errors.
pub open spec fn family_room_error(a: Snapshot, h: Seq<char>, e: RepoError) -> bool {
    match e {
        RepoError::IdsExhausted { class } => class == ObjClass::Family && !id_room(gids(a.families@), 'F'),
        RepoError::HandleInUse { class, handle } => class == ObjClass::Family && id_room(gids(a.families@), 'F') && has_key(a.families@, h) && handle@ == h,
        _ => false,
    }
}

/// The tree is as it was.
pub open spec fn unchanged(a: Snapshot, b: Snapshot) -> bool {
    &&& only_changed(a, b, Set::empty())
    &&& b.references@ == a.references@
}

fn check_person_room(tree: &Snapshot, h: &String) -> (r: Result<(), RepoError>)
    ensures
        match r {
            Ok(()) => person_room(*tree, h@),
            Err(e) => !person_room(*tree, h@) && person_room_error(*tree, h@, e),
        },
{
    let max = max_gramps_number(&tree.persons, 'I');
    if max == 0x7fff_ffff_ffff_ffff {
        return Err(RepoError::IdsExhausted { class: ObjClass::Person });
    }
    let taken = find(&tree.persons, h.as_str()).is_some();
    proof {
        lemma_find_key(tree.persons@, h@);
    }
    if taken {
        return Err(RepoError::HandleInUse { class: ObjClass::Person, handle: h.clone() });
    }
    Ok(())
}

fn check_family_room(tree: &Snapshot, h: &String) -> (r: Result<(), RepoError>)
    ensures
        match r {
            Ok(()) => family_room(*tree, h@),
            Err(e) => !family_room(*tree, h@) && family_room_error(*tree, h@, e),
        },
{
    let max = max_gramps_number(&tree.families, 'F');
    if max == 0x7fff_ffff_ffff_ffff {
        return Err(RepoError::IdsExhausted { class: ObjClass::Family });
    }
    let taken = find(&tree.families, h.as_str()).is_some();
    proof {
        lemma_find_key(tree.families@, h@);
    }
    if taken {
        return Err(RepoError::HandleInUse { class: ObjClass::Family, handle: h.clone() });
    }
    Ok(())
}

/// Creates the new person with no birth or death year; the checks of
/// `check_person_room` have passed.
fn create_plain_person(tree: &mut Snapshot, h: String, first_name: &str, surname: &str, gender: i32) -> (i: usize)
    requires
        old(tree).wf(),
        person_room(*old(tree), h@),
    ensures
        person_create_ok(*old(tree), *final(tree), i, h@, first_name@, surname@, gender, None, None, Seq::empty(), Seq::empty()),
        final(tree).families@ == old(tree).families@,
        forall|g: Seq<char>| g != h@ ==> #[trigger] find_key(final(tree).persons@, g) == find_key(old(tree).persons@, g),
{
    let r = create_person(tree, h, first_name, surname, gender, None, None, String::new(), String::new());
    let i = match r {
        Ok(i) => i,
        Err(_) => {
            assert(false);
            0
        },
    };
    proof {
        lemma_find_push(old(tree).persons@, tree.persons@[i as int]);
    }
    i
}

/// The error [`add_child`] gives, in the order its checks are made.
pub open spec fn add_child_error(a: Snapshot, ph: Seq<char>, ch: Seq<char>, fam_h: Seq<char>, e: RepoError) -> bool {
    ||| person_room_error(a, ch, e)
    ||| person_room(a, ch) && !has_key(a.persons@, ph) && (e matches RepoError::NotFound { class: ObjClass::Person, handle: h } && h@ == ph)
    ||| person_room(a, ch) && (lookup(a.persons@, ph) matches Some(par) && {
        ||| par.family_list@.len() > 0 && !has_key(a.families@, par.family_list@[0]@) && (e matches RepoError::NotFound {
            class: ObjClass::Family,
            handle: h,
        } && h@ == par.family_list@[0]@)
        ||| par.family_list@.len() == 0 && family_room_error(a, fam_h, e)
    })
}

/// Create a new person and add them as a child of `parent_handle`. The
/// child joins the parent's first family (in `family_list`); a parent with
/// none gets a new family under `family_handle`, with the parent as father,
/// or as mother when female. The family lists the child, and the child's
/// `parent_family_list` names the family. Returns the new person's
/// position.
pub fn add_child(
    tree: &mut Snapshot,
    parent_handle: &str,
    first_name: &str,
    surname: &str,
    gender: i32,
    child_handle: String,
    family_handle: String,
) -> (r: Result<usize, RepoError>)
    requires
        old(tree).wf(),
    ensures
        final(tree).wf(),
        only_changed(*old(tree), *final(tree), set![ObjClass::Person, ObjClass::Family]),
        match r {
            Ok(i) => lookup(old(tree).persons@, parent_handle@) matches Some(par) && {
                let fh = child_family(par, family_handle@);
                &&& person_room(*old(tree), child_handle@)
                &&& par.family_list@.len() > 0 ==> has_key(old(tree).families@, fh)
                &&& par.family_list@.len() == 0 ==> family_room(*old(tree), family_handle@)
                &&& exists|t1: Snapshot, t2: Snapshot, t3: Snapshot| {
                    &&& person_create_ok(*old(tree), t1, i, child_handle@, first_name@, surname@, gender, None, None, Seq::empty(), Seq::empty())
                    &&& if par.family_list@.len() > 0 {
                        t2 == t1
                    } else {
                        exists|k: usize| family_create_ok(t1, t2, k, family_handle@, father_slot(par.gender, parent_handle@), mother_slot(par.gender, parent_handle@), 0)
                    }
                    &&& append_child_ok(t2, t3, fh, child_handle@)
                    &&& person_edit_ok(t3, *final(tree), child_handle@, fh, ListEdit::AddParentFamily)
                }
                &&& final(tree).persons@[i as int].handle@ == child_handle@
                &&& links_to(final(tree).persons@[i as int].parent_family_list@, fh)
                &&& lookup(final(tree).families@, fh) matches Some(f) && links_to(f.child_ref_list@, child_handle@)
            },
            Err(e) => {
                &&& unchanged(*old(tree), *final(tree))
                &&& add_child_error(*old(tree), parent_handle@, child_handle@, family_handle@, e)
            },
        },
{
    // Every check first.
    match check_person_room(tree, &child_handle) {
        Ok(()) => {},
        Err(e) => return Err(e),
    }
    let pi = match find(&tree.persons, parent_handle) {
        Some(pi) => pi,
        None => {
            proof {
                lemma_find_key(tree.persons@, parent_handle@);
            }
            return Err(RepoError::NotFound { class: ObjClass::Person, handle: String::from_str(parent_handle) });
        },
    };
    proof {
        lemma_find_key(tree.persons@, parent_handle@);
    }
    let ghost par = tree.persons@[pi as int];
    let has_family = tree.persons[pi].family_list.len() > 0;
    let parent_gender = tree.persons[pi].gender;
    let fh: String = if has_family {
        let fh0 = tree.persons[pi].family_list[0].clone();
        let found = find(&tree.families, fh0.as_str()).is_some();
        proof {
            lemma_find_key(tree.families@, fh0@);
        }
        if !found {
            return Err(RepoError::NotFound { class: ObjClass::Family, handle: fh0 });
        }
        fh0
    } else {
        match check_family_room(tree, &family_handle) {
            Ok(()) => {},
            Err(e) => return Err(e),
        }
        family_handle.clone()
    };
    assert(fh@ == child_family(par, family_handle@));
    // Then the writes, none of which can fail now.
    let ghost t0 = *tree;
    let ch = child_handle.clone();
    let i = create_plain_person(tree, child_handle, first_name, surname, gender);
    let ghost t1 = *tree;
    assert(t1.events@ =~= t0.events@);
    if !has_family {
        let father = slot_for(parent_gender, parent_handle, false);
        let mother = slot_for(parent_gender, parent_handle, true);
        let r = create_family(tree, family_handle, father, mother, 0);
        match r {
            Ok(_) => {},
            Err(_) => {
                assert(false);
            },
        }
    }
    let ghost t2 = *tree;
    proof {
        if !has_family {
            let k = choose|k: usize| family_create_ok(t1, t2, k, fh@, father_slot(par.gender, parent_handle@), mother_slot(par.gender, parent_handle@), 0);
            assert(find_key(t2.families@, fh@) == Some(k as int));
        }
        lemma_find_key(tree.families@, fh@);
    }
    let r = append_child_to_family(tree, fh.as_str(), ch.as_str());
    match r {
        Ok(()) => {},
        Err(_) => {
            assert(false);
        },
    }
    let ghost t3 = *tree;
    edit_person_lists(tree, ch.as_str(), fh.as_str(), ListEdit::AddParentFamily);
    proof {
        assert(person_create_ok(t0, t1, i, ch@, first_name@, surname@, gender, None, None, Seq::empty(), Seq::empty()));
        lemma_find_key(t1.persons@, ch@);
        assert(find_key(t3.persons@, ch@) == Some(i as int));
        lemma_find_key(t3.families@, fh@);
        lemma_find_key(tree.families@, fh@);
        assert(lookup(t0.persons@, parent_handle@) == Some(par));
        assert(person_room(t0, ch@));
        assert(par.family_list@.len() > 0 ==> has_key(t0.families@, fh@));
        assert(par.family_list@.len() == 0 ==> family_room(t0, family_handle@));
        assert(t2 == t1 || !has_family);
        assert(append_child_ok(t2, t3, fh@, ch@));
        assert(person_edit_ok(t3, *tree, ch@, fh@, ListEdit::AddParentFamily));
        assert(tree.persons@[i as int].handle@ == ch@);
        super::family::lemma_add_parent_family_links(t3.persons@, tree.persons@, ch@, fh@);
        super::family::lemma_append_child_links(t2, t3, fh@, ch@);
        assert(links_to(tree.persons@[i as int].parent_family_list@, fh@));
        assert(lookup(tree.families@, fh@) matches Some(f) && links_to(f.child_ref_list@, ch@));
    }
    Ok(i)
}


/// The family an added parent fills: the person's first parent family,
/// when it exists and its slot for the parent's gender (mother for female,
/// 0, else father) is empty.
pub open spec fn open_family(a: Snapshot, per: Person, gender: i32) -> Option<int> {
    if per.parent_family_list@.len() > 0 && find_key(a.families@, per.parent_family_list@[0]@) is Some {
        let j = find_key(a.families@, per.parent_family_list@[0]@).unwrap();
        let f = a.families@[j];
        if (if gender == 0 {
            f.mother_handle is None
        } else {
            f.father_handle is None
        }) {
            Some(j)
        } else {
            None
        }
    } else {
        None
    }
}

/// Family `j` gets the new parent `nph` in its slot for the gender, is
/// restamped, and its `reference` rows are refreshed.
pub open spec fn slot_filled(a: Snapshot, b: Snapshot, j: int, gender: i32, nph: Seq<char>) -> bool {
    let o = a.families@[j];
    let n = b.families@[j];
    &&& b.wf()
    &&& only_changed(a, b, set![ObjClass::Family])
    &&& b.families@ == a.families@.update(j, n)
    &&& n == Family { father_handle: n.father_handle, mother_handle: n.mother_handle, change: n.change, ..o }
    &&& if gender == 0 {
        opt_view(n.mother_handle) == Some(nph) && n.father_handle == o.father_handle
    } else {
        opt_view(n.father_handle) == Some(nph) && n.mother_handle == o.mother_handle
    }
    &&& forall|g: Seq<char>| #[trigger] refs_from(b.references@, g) == if g == o.handle@ {
        family_refs(n)
    } else {
        refs_from(a.references@, g)
    }
}

/// The error [`add_parent`] gives, in the order its checks are made.
pub open spec fn add_parent_error(a: Snapshot, ph: Seq<char>, nph: Seq<char>, fam_h: Seq<char>, gender: i32, e: RepoError) -> bool {
    ||| person_room_error(a, nph, e)
    ||| person_room(a, nph) && !has_key(a.persons@, ph) && (e matches RepoError::NotFound { class: ObjClass::Person, handle: h } && h@ == ph)
    ||| person_room(a, nph) && (lookup(a.persons@, ph) matches Some(per) && open_family(a, per, gender) is None && family_room_error(a, fam_h, e))
}

/// Create a new person and add them as a parent of `person_handle`: as
/// mother when female (gender 0), else as father. When the person's first
/// parent family exists and has that slot empty, the new parent fills it;
/// otherwise a new family under `family_handle` is made with the new
/// parent in the slot and the person as its child. Either way the new
/// parent's `family_list` names the family. Returns the new person's
/// position.
#[verifier::rlimit(40)]
pub fn add_parent(
    tree: &mut Snapshot,
    person_handle: &str,
    first_name: &str,
    surname: &str,
    gender: i32,
    parent_handle: String,
    family_handle: String,
) -> (r: Result<usize, RepoError>)
    requires
        old(tree).wf(),
    ensures
        final(tree).wf(),
        only_changed(*old(tree), *final(tree), set![ObjClass::Person, ObjClass::Family]),
        match r {
            Ok(i) => lookup(old(tree).persons@, person_handle@) matches Some(per) && {
                let nph = parent_handle@;
                &&& person_room(*old(tree), nph)
                &&& final(tree).persons@[i as int].handle@ == nph
                &&& match open_family(*old(tree), per, gender) {
                    Some(j) => {
                        let fh = old(tree).families@[j].handle@;
                        &&& exists|t1: Snapshot, t2: Snapshot| {
                            &&& person_create_ok(*old(tree), t1, i, nph, first_name@, surname@, gender, None, None, Seq::empty(), Seq::empty())
                            &&& slot_filled(t1, t2, j, gender, nph)
                            &&& person_edit_ok(t2, *final(tree), nph, fh, ListEdit::AddFamily)
                        }
                        &&& links_to(final(tree).persons@[i as int].family_list@, fh)
                    },
                    None => {
                        let fh = family_handle@;
                        &&& family_room(*old(tree), fh)
                        &&& exists|t1: Snapshot, t2: Snapshot, t3: Snapshot| {
                            &&& person_create_ok(*old(tree), t1, i, nph, first_name@, surname@, gender, None, None, Seq::empty(), Seq::empty())
                            &&& exists|k: usize| family_create_ok(t1, t2, k, fh, father_slot(gender, nph), mother_slot(gender, nph), 0)
                            &&& append_child_ok(t2, t3, fh, person_handle@)
                            &&& person_edit_ok(t3, *final(tree), person_handle@, fh, ListEdit::AddParentFamily)
                        }
                        &&& lookup(final(tree).families@, fh) matches Some(f) && links_to(f.child_ref_list@, person_handle@)
                        &&& lookup(final(tree).persons@, person_handle@) matches Some(p) && links_to(p.parent_family_list@, fh)
                        &&& nph.len() > 0 ==> links_to(final(tree).persons@[i as int].family_list@, fh)
                    },
                }
            },
            Err(e) => unchanged(*old(tree), *final(tree)) && add_parent_error(*old(tree), person_handle@, parent_handle@, family_handle@, gender, e),
        },
{
    match check_person_room(tree, &parent_handle) {
        Ok(()) => {},
        Err(e) => return Err(e),
    }
    let pi = match find(&tree.persons, person_handle) {
        Some(pi) => pi,
        None => {
            proof {
                lemma_find_key(tree.persons@, person_handle@);
            }
            return Err(RepoError::NotFound { class: ObjClass::Person, handle: String::from_str(person_handle) });
        },
    };
    proof {
        lemma_find_key(tree.persons@, person_handle@);
    }
    let ghost per = tree.persons@[pi as int];
    let open: Option<usize> = if tree.persons[pi].parent_family_list.len() > 0 {
        let fh0 = tree.persons[pi].parent_family_list[0].as_str();
        match find(&tree.families, fh0) {
            Some(j) => {
                let slot_open = if gender == 0 {
                    tree.families[j].mother_handle.is_none()
                } else {
                    tree.families[j].father_handle.is_none()
                };
                if slot_open {
                    Some(j)
                } else {
                    None
                }
            },
            None => None,
        }
    } else {
        None
    };
    assert(match open {
        Some(j) => open_family(*old(tree), per, gender) == Some(j as int),
        None => open_family(*old(tree), per, gender) is None,
    });
    if open.is_none() {
        match check_family_room(tree, &family_handle) {
            Ok(()) => {},
            Err(e) => return Err(e),
        }
    }
    // Then the writes, none of which can fail now.
    let ghost t0 = *tree;
    let nph = parent_handle.clone();
    let i = create_plain_person(tree, parent_handle, first_name, surname, gender);
    let ghost t1 = *tree;
    assert(t1.events@ =~= t0.events@);
    proof {
        lemma_find_key(t1.persons@, nph@);
        lemma_find_key(t1.persons@, person_handle@);
    }
    match open {
        Some(j) => {
            proof {
                lemma_find_key(t1.families@, t1.families@[j as int].handle@);
                lemma_find_key(t0.families@, per.parent_family_list@[0]@);
            }
            let ghost before = tree.families@;
            let mut f = take_row(&mut tree.families, j);
            if gender == 0 {
                f.mother_handle = Some(nph.clone());
            } else {
                f.father_handle = Some(nph.clone());
            }
            let fh = f.handle.clone();
            let ghost fv = f;
            store_family(tree, j, f, now_unix(), Ghost(before));
            let ghost t2 = *tree;
            proof {
                assert(family_refs(t2.families@[j as int]) == family_refs(fv));
                assert(slot_filled(t1, t2, j as int, gender, nph@));
            }
            edit_person_lists(tree, nph.as_str(), fh.as_str(), ListEdit::AddFamily);
            proof {
                lemma_add_family_links(t2.persons@, tree.persons@, Some(nph@), fh@);
            }
        },
        None => {
            let father = slot_for(gender, nph.as_str(), false);
            let mother = slot_for(gender, nph.as_str(), true);
            let fh = family_handle.clone();
            let r = create_family(tree, family_handle, father, mother, 0);
            match r {
                Ok(_) => {},
                Err(_) => {
                    assert(false);
                },
            }
            let ghost t2 = *tree;
            proof {
                let k = choose|k: usize| family_create_ok(t1, t2, k, fh@, father_slot(gender, nph@), mother_slot(gender, nph@), 0);
                assert(find_key(t2.families@, fh@) == Some(k as int));
                lemma_find_key(t2.families@, fh@);
            }
            let r = append_child_to_family(tree, fh.as_str(), person_handle);
            match r {
                Ok(()) => {},
                Err(_) => {
                    assert(false);
                },
            }
            let ghost t3 = *tree;
            edit_person_lists(tree, person_handle, fh.as_str(), ListEdit::AddParentFamily);
            proof {
                super::family::lemma_append_child_links(t2, t3, fh@, person_handle@);
                super::family::lemma_add_parent_family_links(t3.persons@, tree.persons@, person_handle@, fh@);
                lemma_find_key(t3.persons@, person_handle@);
                lemma_find_key(tree.persons@, person_handle@);
                assert(find_key(t3.persons@, person_handle@) == find_key(t0.persons@, person_handle@));
                assert(t3.persons@[i as int].handle@ == nph@);
                assert(find_key(t3.persons@, person_handle@) != Some(i as int));
            }
        },
    }
    Ok(i)
}

/// Create a new person and add them as a sibling of `person_handle`: a
/// child of the person's first parent family. A person with no parent
/// family is refused (`NoParentFamily`): parents come first. Returns the
/// new person's position.
pub fn add_sibling(
    tree: &mut Snapshot,
    person_handle: &str,
    first_name: &str,
    surname: &str,
    gender: i32,
    sibling_handle: String,
) -> (r: Result<usize, RepoError>)
    requires
        old(tree).wf(),
    ensures
        final(tree).wf(),
        only_changed(*old(tree), *final(tree), set![ObjClass::Person, ObjClass::Family]),
        match r {
            Ok(i) => lookup(old(tree).persons@, person_handle@) matches Some(per) && {
                let fh = per.parent_family_list@[0]@;
                &&& per.parent_family_list@.len() > 0
                &&& person_room(*old(tree), sibling_handle@)
                &&& has_key(old(tree).families@, fh)
                &&& exists|t1: Snapshot, t2: Snapshot| {
                    &&& person_create_ok(*old(tree), t1, i, sibling_handle@, first_name@, surname@, gender, None, None, Seq::empty(), Seq::empty())
                    &&& append_child_ok(t1, t2, fh, sibling_handle@)
                    &&& person_edit_ok(t2, *final(tree), sibling_handle@, fh, ListEdit::AddParentFamily)
                }
                &&& final(tree).persons@[i as int].handle@ == sibling_handle@
                &&& links_to(final(tree).persons@[i as int].parent_family_list@, fh)
                &&& lookup(final(tree).families@, fh) matches Some(f) && links_to(f.child_ref_list@, sibling_handle@)
            },
            Err(e) => unchanged(*old(tree), *final(tree)) && add_sibling_error(*old(tree), person_handle@, sibling_handle@, e),
        },
{
    let pi = match find(&tree.persons, person_handle) {
        Some(pi) => pi,
        None => {
            proof {
                lemma_find_key(tree.persons@, person_handle@);
            }
            return Err(RepoError::NotFound { class: ObjClass::Person, handle: String::from_str(person_handle) });
        },
    };
    proof {
        lemma_find_key(tree.persons@, person_handle@);
    }
    if tree.persons[pi].parent_family_list.len() == 0 {
        return Err(RepoError::NoParentFamily { handle: String::from_str(person_handle) });
    }
    let fh = tree.persons[pi].parent_family_list[0].clone();
    match check_person_room(tree, &sibling_handle) {
        Ok(()) => {},
        Err(e) => return Err(e),
    }
    let found = find(&tree.families, fh.as_str()).is_some();
    proof {
        lemma_find_key(tree.families@, fh@);
    }
    if !found {
        return Err(RepoError::NotFound { class: ObjClass::Family, handle: fh });
    }
    let ghost t0 = *tree;
    let sh = sibling_handle.clone();
    let i = create_plain_person(tree, sibling_handle, first_name, surname, gender);
    let ghost t1 = *tree;
    assert(t1.events@ =~= t0.events@);
    proof {
        lemma_find_key(tree.families@, fh@);
    }
    let r = append_child_to_family(tree, fh.as_str(), sh.as_str());
    match r {
        Ok(()) => {},
        Err(_) => {
            assert(false);
        },
    }
    let ghost t2 = *tree;
    edit_person_lists(tree, sh.as_str(), fh.as_str(), ListEdit::AddParentFamily);
    proof {
        lemma_find_key(t1.persons@, sh@);
        super::family::lemma_append_child_links(t1, t2, fh@, sh@);
        super::family::lemma_add_parent_family_links(t2.persons@, tree.persons@, sh@, fh@);
    }
    Ok(i)
}

/// The error [`add_sibling`] gives, in the order its checks are made.
pub open spec fn add_sibling_error(a: Snapshot, ph: Seq<char>, sh: Seq<char>, e: RepoError) -> bool {
    ||| !has_key(a.persons@, ph) && (e matches RepoError::NotFound { class: ObjClass::Person, handle: h } && h@ == ph)
    ||| lookup(a.persons@, ph) matches Some(per) && {
        ||| per.parent_family_list@.len() == 0 && (e matches RepoError::NoParentFamily { handle: h } && h@ == ph)
        ||| per.parent_family_list@.len() > 0 && person_room_error(a, sh, e)
        ||| per.parent_family_list@.len() > 0 && person_room(a, sh) && !has_key(a.families@, per.parent_family_list@[0]@) && (
        e matches RepoError::NotFound { class: ObjClass::Family, handle: h } && h@ == per.parent_family_list@[0]@)
    }
}

/// The error [`link_child_to_family`] gives: the family is looked up
/// first, then the child.
pub open spec fn link_child_error(a: Snapshot, fh: Seq<char>, ch: Seq<char>, e: RepoError) -> bool {
    ||| !has_key(a.families@, fh) && (e matches RepoError::NotFound { class: ObjClass::Family, handle: h } && h@ == fh)
    ||| has_key(a.families@, fh) && !has_key(a.persons@, ch) && (e matches RepoError::NotFound { class: ObjClass::Person, handle: h }
        && h@ == ch)
}

/// What [`link_child_to_family`] does and when it is refused.
pub open spec fn link_child_done(a: Snapshot, b: Snapshot, fh: Seq<char>, ch: Seq<char>, r: Result<(), RepoError>) -> bool {
    &&& b.wf()
    &&& only_changed(a, b, set![ObjClass::Person, ObjClass::Family])
    &&& match r {
        Ok(()) => {
            &&& has_key(a.families@, fh)
            &&& has_key(a.persons@, ch)
            &&& exists|t1: Snapshot| {
                &&& append_child_ok(a, t1, fh, ch)
                &&& person_edit_ok(t1, b, ch, fh, ListEdit::AddParentFamily)
            }
            &&& lookup(b.persons@, ch) matches Some(c) && links_to(c.parent_family_list@, fh)
            &&& lookup(b.families@, fh) matches Some(f) && links_to(f.child_ref_list@, ch)
        },
        Err(e) => unchanged(a, b) && link_child_error(a, fh, ch, e)
    }
}

/// Add an existing person to a family as a child: the family's
/// `child_ref_list` gains the child (Birth relation to both parents) and
/// the child's `parent_family_list` gains the family, each only when not
/// already there.
pub fn link_child_to_family(tree: &mut Snapshot, family_handle: &str, child_handle: &str) -> (r: Result<(), RepoError>)
    requires
        old(tree).wf(),
    ensures
        link_child_done(*old(tree), *final(tree), family_handle@, child_handle@, r),
{
    let found_family = find(&tree.families, family_handle).is_some();
    proof {
        lemma_find_key(tree.families@, family_handle@);
    }
    if !found_family {
        return Err(RepoError::NotFound { class: ObjClass::Family, handle: String::from_str(family_handle) });
    }
    let found_child = find(&tree.persons, child_handle).is_some();
    proof {
        lemma_find_key(tree.persons@, child_handle@);
    }
    if !found_child {
        return Err(RepoError::NotFound { class: ObjClass::Person, handle: String::from_str(child_handle) });
    }
    let ghost t0 = *tree;
    let r = append_child_to_family(tree, family_handle, child_handle);
    match r {
        Ok(()) => {},
        Err(_) => {
            assert(false);
        },
    }
    let ghost t1 = *tree;
    edit_person_lists(tree, child_handle, family_handle, ListEdit::AddParentFamily);
    proof {
        lemma_find_key(t1.persons@, child_handle@);
        super::family::lemma_append_child_links(t0, t1, family_handle@, child_handle@);
        super::family::lemma_add_parent_family_links(t1.persons@, tree.persons@, child_handle@, family_handle@);
    }
    Ok(())
}

/// The error [`add_sibling_existing`] gives, in the order its checks are
/// made.
pub open spec fn add_sibling_existing_error(a: Snapshot, ph: Seq<char>, sh: Seq<char>, e: RepoError) -> bool {
    ||| !has_key(a.persons@, ph) && (e matches RepoError::NotFound { class: ObjClass::Person, handle: h } && h@ == ph)
    ||| has_key(a.persons@, ph) && !has_key(a.persons@, sh) && (e matches RepoError::NotFound { class: ObjClass::Person, handle: h }
        && h@ == sh)
    ||| has_key(a.persons@, sh) && (lookup(a.persons@, ph) matches Some(per) && {
        ||| per.parent_family_list@.len() == 0 && (e matches RepoError::NoParentFamily { handle: h } && h@ == ph)
        ||| per.parent_family_list@.len() > 0 && !has_key(a.families@, per.parent_family_list@[0]@) && (
        e matches RepoError::NotFound { class: ObjClass::Family, handle: h } && h@ == per.parent_family_list@[0]@)
    })
}

/// What [`add_sibling_existing`] does and when it is refused.
pub open spec fn add_sibling_existing_done(a: Snapshot, b: Snapshot, ph: Seq<char>, sh: Seq<char>, r: Result<(), RepoError>) -> bool {
    &&& b.wf()
    &&& only_changed(a, b, set![ObjClass::Person, ObjClass::Family])
    &&& match r {
        Ok(()) => lookup(a.persons@, ph) matches Some(per) && {
            let fh = per.parent_family_list@[0]@;
            &&& per.parent_family_list@.len() > 0
            &&& has_key(a.persons@, sh)
            &&& has_key(a.families@, fh)
            &&& exists|t1: Snapshot| {
                &&& append_child_ok(a, t1, fh, sh)
                &&& person_edit_ok(t1, b, sh, fh, ListEdit::AddParentFamily)
            }
            &&& lookup(b.persons@, sh) matches Some(c) && links_to(c.parent_family_list@, fh)
            &&& lookup(b.families@, fh) matches Some(f) && links_to(f.child_ref_list@, sh)
        },
        Err(e) => unchanged(a, b) && add_sibling_existing_error(a, ph, sh, e)
    }
}

/// Add the existing person `sibling_handle` as a sibling of
/// `person_handle`: a child of the person's first parent family. A person
/// with no parent family is refused (`NoParentFamily`).
pub fn add_sibling_existing(tree: &mut Snapshot, person_handle: &str, sibling_handle: &str) -> (r: Result<(), RepoError>)
    requires
        old(tree).wf(),
    ensures
        add_sibling_existing_done(*old(tree), *final(tree), person_handle@, sibling_handle@, r),
{
    let pi = match find(&tree.persons, person_handle) {
        Some(pi) => pi,
        None => {
            proof {
                lemma_find_key(tree.persons@, person_handle@);
            }
            return Err(RepoError::NotFound { class: ObjClass::Person, handle: String::from_str(person_handle) });
        },
    };
    proof {
        lemma_find_key(tree.persons@, person_handle@);
        lemma_find_key(tree.persons@, sibling_handle@);
    }
    if find(&tree.persons, sibling_handle).is_none() {
        return Err(RepoError::NotFound { class: ObjClass::Person, handle: String::from_str(sibling_handle) });
    }
    if tree.persons[pi].parent_family_list.len() == 0 {
        return Err(RepoError::NoParentFamily { handle: String::from_str(person_handle) });
    }
    let fh = tree.persons[pi].parent_family_list[0].clone();
    let found = find(&tree.families, fh.as_str()).is_some();
    proof {
        lemma_find_key(tree.families@, fh@);
    }
    if !found {
        return Err(RepoError::NotFound { class: ObjClass::Family, handle: fh });
    }
    let ghost t0 = *tree;
    let r = append_child_to_family(tree, fh.as_str(), sibling_handle);
    match r {
        Ok(()) => {},
        Err(_) => {
            assert(false);
        },
    }
    let ghost t1 = *tree;
    edit_person_lists(tree, sibling_handle, fh.as_str(), ListEdit::AddParentFamily);
    proof {
        lemma_find_key(t1.persons@, sibling_handle@);
        super::family::lemma_append_child_links(t0, t1, fh@, sibling_handle@);
        super::family::lemma_add_parent_family_links(t1.persons@, tree.persons@, sibling_handle@, fh@);
    }
    Ok(())
}

/// The error [`add_child_existing`] gives, in the order its checks are
/// made.
pub open spec fn add_child_existing_error(a: Snapshot, ph: Seq<char>, ch: Seq<char>, fam_h: Seq<char>, e: RepoError) -> bool {
    ||| !has_key(a.persons@, ph) && (e matches RepoError::NotFound { class: ObjClass::Person, handle: h } && h@ == ph)
    ||| has_key(a.persons@, ph) && !has_key(a.persons@, ch) && (e matches RepoError::NotFound { class: ObjClass::Person, handle: h }
        && h@ == ch)
    ||| has_key(a.persons@, ch) && (lookup(a.persons@, ph) matches Some(par) && {
        ||| par.family_list@.len() > 0 && !has_key(a.families@, par.family_list@[0]@) && (e matches RepoError::NotFound {
            class: ObjClass::Family,
            handle: h,
        } && h@ == par.family_list@[0]@)
        ||| par.family_list@.len() == 0 && family_room_error(a, fam_h, e)
    })
}

/// What [`add_child_existing`] does and when it is refused.
pub open spec fn add_child_existing_done(a: Snapshot, b: Snapshot, ph: Seq<char>, ch: Seq<char>, fam_h: Seq<char>, r: Result<(), RepoError>) -> bool {
    &&& b.wf()
    &&& only_changed(a, b, set![ObjClass::Person, ObjClass::Family])
    &&& match r {
        Ok(()) => lookup(a.persons@, ph) matches Some(par) && {
            let fh = child_family(par, fam_h);
            &&& has_key(a.persons@, ch)
            &&& par.family_list@.len() > 0 ==> has_key(a.families@, fh)
            &&& par.family_list@.len() == 0 ==> family_room(a, fam_h)
            &&& exists|t1: Snapshot, t2: Snapshot| {
                &&& if par.family_list@.len() > 0 {
                    t1 == a
                } else {
                    exists|k: usize| family_create_ok(a, t1, k, fam_h, father_slot(par.gender, ph), mother_slot(par.gender, ph), 0)
                }
                &&& append_child_ok(t1, t2, fh, ch)
                &&& person_edit_ok(t2, b, ch, fh, ListEdit::AddParentFamily)
            }
            &&& lookup(b.persons@, ch) matches Some(c) && links_to(c.parent_family_list@, fh)
            &&& lookup(b.families@, fh) matches Some(f) && links_to(f.child_ref_list@, ch)
        },
        Err(e) => unchanged(a, b) && add_child_existing_error(a, ph, ch, fam_h, e)
    }
}

/// Add the existing person `child_handle` as a child of `parent_handle`:
/// the child joins the parent's first family; a parent with none gets a
/// new family under `family_handle`, with the parent as father, or as
/// mother when female. The family lists the child and the child's
/// `parent_family_list` names the family.
pub fn add_child_existing(tree: &mut Snapshot, parent_handle: &str, child_handle: &str, family_handle: String) -> (r: Result<
    (),
    RepoError,
>)
    requires
        old(tree).wf(),
    ensures
        add_child_existing_done(*old(tree), *final(tree), parent_handle@, child_handle@, family_handle@, r),
{
    let pi = match find(&tree.persons, parent_handle) {
        Some(pi) => pi,
        None => {
            proof {
                lemma_find_key(tree.persons@, parent_handle@);
            }
            return Err(RepoError::NotFound { class: ObjClass::Person, handle: String::from_str(parent_handle) });
        },
    };
    proof {
        lemma_find_key(tree.persons@, parent_handle@);
        lemma_find_key(tree.persons@, child_handle@);
    }
    if find(&tree.persons, child_handle).is_none() {
        return Err(RepoError::NotFound { class: ObjClass::Person, handle: String::from_str(child_handle) });
    }
    let ghost par = tree.persons@[pi as int];
    let has_family = tree.persons[pi].family_list.len() > 0;
    let parent_gender = tree.persons[pi].gender;
    let fh: String = if has_family {
        let fh0 = tree.persons[pi].family_list[0].clone();
        let found = find(&tree.families, fh0.as_str()).is_some();
        proof {
            lemma_find_key(tree.families@, fh0@);
        }
        if !found {
            return Err(RepoError::NotFound { class: ObjClass::Family, handle: fh0 });
        }
        fh0
    } else {
        match check_family_room(tree, &family_handle) {
            Ok(()) => {},
            Err(e) => return Err(e),
        }
        family_handle.clone()
    };
    assert(fh@ == child_family(par, family_handle@));
    let ghost t0 = *tree;
    if !has_family {
        let father = slot_for(parent_gender, parent_handle, false);
        let mother = slot_for(parent_gender, parent_handle, true);
        let r = create_family(tree, family_handle, father, mother, 0);
        match r {
            Ok(_) => {},
            Err(_) => {
                assert(false);
            },
        }
    }
    let ghost t1 = *tree;
    proof {
        if !has_family {
            let k = choose|k: usize| family_create_ok(t0, t1, k, fh@, father_slot(par.gender, parent_handle@), mother_slot(par.gender, parent_handle@), 0);
            assert(find_key(t1.families@, fh@) == Some(k as int));
        }
        lemma_find_key(tree.families@, fh@);
    }
    let r = append_child_to_family(tree, fh.as_str(), child_handle);
    match r {
        Ok(()) => {},
        Err(_) => {
            assert(false);
        },
    }
    let ghost t2 = *tree;
    edit_person_lists(tree, child_handle, fh.as_str(), ListEdit::AddParentFamily);
    proof {
        assert(t1 == t0 || !has_family);
        lemma_find_key(t2.persons@, child_handle@);
        super::family::lemma_append_child_links(t1, t2, fh@, child_handle@);
        super::family::lemma_add_parent_family_links(t2.persons@, tree.persons@, child_handle@, fh@);
    }
    Ok(())
}

/// The error [`add_parent_existing`] gives, in the order its checks are
/// made.
pub open spec fn add_parent_existing_error(a: Snapshot, ph: Seq<char>, nph: Seq<char>, fam_h: Seq<char>, gender: i32, e: RepoError) -> bool {
    ||| !has_key(a.persons@, ph) && (e matches RepoError::NotFound { class: ObjClass::Person, handle: h } && h@ == ph)
    ||| has_key(a.persons@, ph) && !has_key(a.persons@, nph) && (e matches RepoError::NotFound { class: ObjClass::Person, handle: h }
        && h@ == nph)
    ||| has_key(a.persons@, nph) && (lookup(a.persons@, ph) matches Some(per) && open_family(a, per, gender) is None && family_room_error(
        a,
        fam_h,
        e,
    ))
}

/// What [`add_parent_existing`] does and when it is refused.
pub open spec fn add_parent_existing_done(a: Snapshot, b: Snapshot, ph: Seq<char>, nph: Seq<char>, gender: i32, fam_h: Seq<char>, r: Result<(), RepoError>) -> bool {
    &&& b.wf()
    &&& only_changed(a, b, set![ObjClass::Person, ObjClass::Family])
    &&& match r {
        Ok(()) => lookup(a.persons@, ph) matches Some(per) && {
            &&& has_key(a.persons@, nph)
            &&& match open_family(a, per, gender) {
                Some(j) => {
                    let fh = a.families@[j].handle@;
                    &&& exists|t1: Snapshot| {
                        &&& slot_filled(a, t1, j, gender, nph)
                        &&& person_edit_ok(t1, b, nph, fh, ListEdit::AddFamily)
                    }
                    &&& nph.len() > 0 ==> (lookup(b.persons@, nph) matches Some(q) && links_to(q.family_list@, fh))
                },
                None => {
                    let fh = fam_h;
                    &&& family_room(a, fh)
                    &&& exists|t1: Snapshot, t2: Snapshot| {
                        &&& exists|k: usize| family_create_ok(a, t1, k, fh, father_slot(gender, nph), mother_slot(gender, nph), 0)
                        &&& append_child_ok(t1, t2, fh, ph)
                        &&& person_edit_ok(t2, b, ph, fh, ListEdit::AddParentFamily)
                    }
                    &&& lookup(b.families@, fh) matches Some(f) && links_to(f.child_ref_list@, ph)
                    &&& lookup(b.persons@, ph) matches Some(p) && links_to(p.parent_family_list@, fh)
                },
            }
        },
        Err(e) => unchanged(a, b) && add_parent_existing_error(a, ph, nph, fam_h, gender, e)
    }
}

/// Add the existing person `parent_handle` as a parent of `person_handle`:
/// as mother when `gender` is female (0), else as father. When the
/// person's first parent family exists and has that slot empty, the
/// parent fills it; otherwise a new family under `family_handle` is made
/// with the parent in the slot and the person as its child. Either way the
/// parent's `family_list` names the family.
#[verifier::rlimit(40)]
pub fn add_parent_existing(tree: &mut Snapshot, person_handle: &str, parent_handle: &str, gender: i32, family_handle: String) -> (r:
    Result<(), RepoError>)
    requires
        old(tree).wf(),
    ensures
        add_parent_existing_done(*old(tree), *final(tree), person_handle@, parent_handle@, gender, family_handle@, r),
{
    let pi = match find(&tree.persons, person_handle) {
        Some(pi) => pi,
        None => {
            proof {
                lemma_find_key(tree.persons@, person_handle@);
            }
            return Err(RepoError::NotFound { class: ObjClass::Person, handle: String::from_str(person_handle) });
        },
    };
    proof {
        lemma_find_key(tree.persons@, person_handle@);
        lemma_find_key(tree.persons@, parent_handle@);
    }
    if find(&tree.persons, parent_handle).is_none() {
        return Err(RepoError::NotFound { class: ObjClass::Person, handle: String::from_str(parent_handle) });
    }
    let ghost per = tree.persons@[pi as int];
    let open: Option<usize> = if tree.persons[pi].parent_family_list.len() > 0 {
        let fh0 = tree.persons[pi].parent_family_list[0].as_str();
        match find(&tree.families, fh0) {
            Some(j) => {
                let slot_open = if gender == 0 {
                    tree.families[j].mother_handle.is_none()
                } else {
                    tree.families[j].father_handle.is_none()
                };
                if slot_open {
                    Some(j)
                } else {
                    None
                }
            },
            None => None,
        }
    } else {
        None
    };
    assert(match open {
        Some(j) => open_family(*old(tree), per, gender) == Some(j as int),
        None => open_family(*old(tree), per, gender) is None,
    });
    if open.is_none() {
        match check_family_room(tree, &family_handle) {
            Ok(()) => {},
            Err(e) => return Err(e),
        }
    }
    let ghost t0 = *tree;
    match open {
        Some(j) => {
            proof {
                lemma_find_key(t0.families@, t0.families@[j as int].handle@);
                lemma_find_key(t0.families@, per.parent_family_list@[0]@);
            }
            let ghost before = tree.families@;
            let mut f = take_row(&mut tree.families, j);
            if gender == 0 {
                f.mother_handle = Some(String::from_str(parent_handle));
            } else {
                f.father_handle = Some(String::from_str(parent_handle));
            }
            let fh = f.handle.clone();
            let ghost fv = f;
            store_family(tree, j, f, now_unix(), Ghost(before));
            let ghost t1 = *tree;
            proof {
                assert(family_refs(t1.families@[j as int]) == family_refs(fv));
                assert(slot_filled(t0, t1, j as int, gender, parent_handle@));
            }
            edit_person_lists(tree, parent_handle, fh.as_str(), ListEdit::AddFamily);
            proof {
                lemma_add_family_links(t1.persons@, tree.persons@, Some(parent_handle@), fh@);
                lemma_find_key(t1.persons@, parent_handle@);
                lemma_find_key(tree.persons@, parent_handle@);
            }
        },
        None => {
            let father = slot_for(gender, parent_handle, false);
            let mother = slot_for(gender, parent_handle, true);
            let fh = family_handle.clone();
            let r = create_family(tree, family_handle, father, mother, 0);
            match r {
                Ok(_) => {},
                Err(_) => {
                    assert(false);
                },
            }
            let ghost t1 = *tree;
            proof {
                let k = choose|k: usize| family_create_ok(t0, t1, k, fh@, father_slot(gender, parent_handle@), mother_slot(gender, parent_handle@), 0);
                assert(find_key(t1.families@, fh@) == Some(k as int));
                lemma_find_key(t1.families@, fh@);
            }
            let r = append_child_to_family(tree, fh.as_str(), person_handle);
            match r {
                Ok(()) => {},
                Err(_) => {
                    assert(false);
                },
            }
            let ghost t2 = *tree;
            edit_person_lists(tree, person_handle, fh.as_str(), ListEdit::AddParentFamily);
            proof {
                super::family::lemma_append_child_links(t1, t2, fh@, person_handle@);
                super::family::lemma_add_parent_family_links(t2.persons@, tree.persons@, person_handle@, fh@);
                lemma_find_key(t2.persons@, person_handle@);
                lemma_find_key(tree.persons@, person_handle@);
            }
        },
    }
    Ok(())
}

} // verus!
