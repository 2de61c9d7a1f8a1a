//! Family: the cross-reference hub between parents, children and family
//! events. Create and update keep the reverse links on the parents'
//! `family_list` in step; delete removes the family from every linked
//! person before the row goes.

use vstd::prelude::*;

use super::common::{gids, id_room, insert_row, next_gramps_id, next_id_spec, now_unix, put_row, take_row, RepoError};
use super::person::{lemma_person_refs_follow_refl, lemma_person_refs_follow_trans, person_refs, person_refs_at, person_refs_follow, store_person};
use crate::db::keyed::{drop_links_to, find, find_key, has_key, keep_links, lemma_find_key, lemma_find_remove, lemma_keep_links, links_to, unique_keys, Keyed, RefLink};
use crate::db::refs::{Reference, drop_obj, links_of, links_view, opt_link, push_links, push_opt_link, refs_from, remove_references, rewrite_references, Link, ObjClass};
use crate::db::snapshot::{lookup, only_changed, Snapshot};
use crate::gramps::common::Typed;
use crate::gramps::family::{ChildRef, Family};
use crate::gramps::person::Person;
use crate::text::str_eq;

verus! {

/// The link a parent slot makes: to the parent when the slot holds a
/// non-empty handle.
pub open spec fn parent_link(o: Option<String>) -> Seq<Link> {
    match o {
        Some(h) => opt_link(h@, ObjClass::Person),
        None => Seq::empty(),
    }
}

/// The outbound references of a family: father, mother, children, events,
/// media, citations, notes and tags.
pub open spec fn family_refs(f: Family) -> Seq<Link> {
    parent_link(f.father_handle) + parent_link(f.mother_handle) + links_of(f.child_ref_list@, ObjClass::Person)
        + links_of(f.event_ref_list@, ObjClass::Event) + links_of(f.media_list@, ObjClass::Media) + links_of(
        f.citation_list@,
        ObjClass::Citation,
    ) + links_of(f.note_list@, ObjClass::Note) + links_of(f.tag_list@, ObjClass::Tag)
}

/// Every outbound reference a family contributes to the `reference` table.
pub fn outbound_refs(f: &Family) -> (r: Vec<(String, ObjClass)>)
    ensures
        links_view(r@) == family_refs(*f),
{
    let mut out = Vec::new();
    if let Some(h) = &f.father_handle {
        push_opt_link(&mut out, h, ObjClass::Person);
    }
    if let Some(h) = &f.mother_handle {
        push_opt_link(&mut out, h, ObjClass::Person);
    }
    push_links(&mut out, &f.child_ref_list, ObjClass::Person);
    push_links(&mut out, &f.event_ref_list, ObjClass::Event);
    push_links(&mut out, &f.media_list, ObjClass::Media);
    push_links(&mut out, &f.citation_list, ObjClass::Citation);
    push_links(&mut out, &f.note_list, ObjClass::Note);
    push_links(&mut out, &f.tag_list, ObjClass::Tag);
    assert(links_view(out@) =~= family_refs(*f));
    out
}

/// The handle text of an optional handle.
pub open spec fn opt_view(o: Option<String>) -> Option<Seq<char>> {
    match o {
        Some(h) => Some(h@),
        None => None,
    }
}

/// A parent slot as the forms set it: the handle when non-empty, else none.
pub open spec fn set_handle(o: Option<String>) -> Option<Seq<char>> {
    match o {
        Some(h) => if h@.len() > 0 {
            Some(h@)
        } else {
            None
        },
        None => None,
    }
}

fn nonempty(o: Option<String>) -> (r: Option<String>)
    ensures
        opt_view(r) == set_handle(o),
{
    match o {
        Some(h) => if h.as_str().is_empty() {
            None
        } else {
            Some(h)
        },
        None => None,
    }
}

fn opt_eq(a: &Option<String>, b: &Option<String>) -> (r: bool)
    ensures
        r == (opt_view(*a) == opt_view(*b)),
{
    match (a, b) {
        (Some(x), Some(y)) => str_eq(x.as_str(), y.as_str()),
        (None, None) => true,
        _ => false,
    }
}

/// Which of a person's family lists an edit touches, and how.
#[derive(Debug, Clone, Copy, PartialEq, Eq)]
pub enum ListEdit {
    /// Add the family to `family_list` (as parent) unless already there.
    AddFamily,
    /// Remove the family from `family_list`.
    DropFamily,
    /// Remove the family from `parent_family_list` (as child).
    DropParentFamily,
    /// Add the family to `parent_family_list` (as child) unless already
    /// there.
    AddParentFamily,
}

/// The edit changes person `p` at all.
pub open spec fn edit_changes(p: Person, fh: Seq<char>, kind: ListEdit) -> bool {
    match kind {
        ListEdit::AddFamily => !links_to(p.family_list@, fh),
        ListEdit::DropFamily => links_to(p.family_list@, fh),
        ListEdit::DropParentFamily => links_to(p.parent_family_list@, fh),
        ListEdit::AddParentFamily => !links_to(p.parent_family_list@, fh),
    }
}

/// The handle texts of a list of handles.
pub open spec fn handle_views(v: Seq<String>) -> Seq<Seq<char>> {
    v.map_values(|s: String| s@)
}

/// `n` is person `o` after the edit; an edit that changes nothing leaves
/// the person exactly as it was, one that does restamps it.
pub open spec fn person_list_edited(o: Person, n: Person, fh: Seq<char>, kind: ListEdit) -> bool {
    if !edit_changes(o, fh, kind) {
        n == o
    } else {
        match kind {
            ListEdit::AddFamily => {
                &&& n == Person { family_list: n.family_list, change: n.change, ..o }
                &&& handle_views(n.family_list@) == handle_views(o.family_list@).push(fh)
            },
            ListEdit::DropFamily => {
                &&& n == Person { family_list: n.family_list, change: n.change, ..o }
                &&& n.family_list@ == keep_links(o.family_list@, fh)
            },
            ListEdit::DropParentFamily => {
                &&& n == Person { parent_family_list: n.parent_family_list, change: n.change, ..o }
                &&& n.parent_family_list@ == keep_links(o.parent_family_list@, fh)
            },
            ListEdit::AddParentFamily => {
                &&& n == Person { parent_family_list: n.parent_family_list, change: n.change, ..o }
                &&& handle_views(n.parent_family_list@) == handle_views(o.parent_family_list@).push(fh)
            },
        }
    }
}

/// `b` is `a` with the edit applied to the person with handle `ph` (when
/// there is one); every other person is as it was.
pub open spec fn persons_edited(a: Seq<Person>, b: Seq<Person>, ph: Seq<char>, fh: Seq<char>, kind: ListEdit) -> bool {
    &&& b.len() == a.len()
    &&& forall|j: int| 0 <= j < a.len() ==> if find_key(a, ph) == Some(j) {
        person_list_edited(a[j], #[trigger] b[j], fh, kind)
    } else {
        b[j] == a[j]
    }
}

/// What [`edit_person_lists`] does: the edit is applied to the person with
/// handle `ph` (when there is one), no other row changes, and the
/// `reference` rows follow the person rows.
pub open spec fn person_edit_ok(a: Snapshot, b: Snapshot, ph: Seq<char>, fh: Seq<char>, kind: ListEdit) -> bool {
    &&& b.wf()
    &&& only_changed(a, b, set![ObjClass::Person])
    &&& persons_edited(a.persons@, b.persons@, ph, fh, kind)
    &&& forall|h: Seq<char>| #[trigger] find_key(b.persons@, h) == find_key(a.persons@, h)
    &&& person_refs_follow(a.persons@, b.persons@, a.references@, b.references@)
}

/// Applies one family-list edit to the person with handle `person_handle`;
/// a missing person is skipped, and a person the edit does not change is
/// not rewritten.
pub fn edit_person_lists(tree: &mut Snapshot, person_handle: &str, family_handle: &str, kind: ListEdit)
    requires
        old(tree).wf(),
    ensures
        person_edit_ok(*old(tree), *final(tree), person_handle@, family_handle@, kind),
{
    let i = match find(&tree.persons, person_handle) {
        Some(i) => i,
        None => {
            proof {
                lemma_find_key(tree.persons@, person_handle@);
                lemma_person_refs_follow_refl(tree.persons@, tree.references@);
            }
            return;
        },
    };
    proof {
        lemma_find_key(tree.persons@, person_handle@);
    }
    let present_as_parent = contains_handle(&tree.persons[i].family_list, family_handle);
    let present_as_child = contains_handle(&tree.persons[i].parent_family_list, family_handle);
    let changes = match kind {
        ListEdit::AddFamily => !present_as_parent,
        ListEdit::DropFamily => present_as_parent,
        ListEdit::DropParentFamily => present_as_child,
        ListEdit::AddParentFamily => !present_as_child,
    };
    if !changes {
        proof {
            lemma_person_refs_follow_refl(tree.persons@, tree.references@);
        }
        return;
    }
    let ghost before = tree.persons@;
    let mut p = take_row(&mut tree.persons, i);
    match kind {
        ListEdit::AddFamily => {
            let ghost fl = p.family_list@;
            p.family_list.push(String::from_str(family_handle));
            assert(handle_views(p.family_list@) =~= handle_views(fl).push(family_handle@));
        },
        ListEdit::DropFamily => {
            let list = p.family_list;
            p.family_list = drop_links_to(list, family_handle);
        },
        ListEdit::DropParentFamily => {
            let list = p.parent_family_list;
            p.parent_family_list = drop_links_to(list, family_handle);
        },
        ListEdit::AddParentFamily => {
            let ghost pl = p.parent_family_list@;
            p.parent_family_list.push(String::from_str(family_handle));
            assert(handle_views(p.parent_family_list@) =~= handle_views(pl).push(family_handle@));
        },
    }
    let ghost edited = p;
    let ghost old_refs = tree.references@;
    store_person(tree, i, p, now_unix(), Ghost(before));
    assert forall|g: Seq<char>| #[trigger] refs_from(tree.references@, g) == refs_from(tree.references@, g) && person_refs_at(before, tree.persons@, old_refs, tree.references@, g) by {
        lemma_find_key(before, g);
        if g == edited.handle@ {
            assert(find_key(before, g) == Some(i as int));
            assert(person_refs(tree.persons@[i as int]) == person_refs(edited));
        } else if let Some(j) = find_key(before, g) {
            assert(j != i);
            assert(tree.persons@[j] == before[j]);
        }
    }
}

/// Whether some item of `list` links to `h`.
pub fn contains_handle<T: RefLink>(list: &Vec<T>, h: &str) -> (r: bool)
    ensures
        r == links_to(list@, h@),
{
    let mut i: usize = 0;
    while i < list.len()
        invariant
            i <= list@.len(),
            forall|k: int| 0 <= k < i ==> #[trigger] list@[k].target() != h@,
        decreases list.len() - i,
    {
        if str_eq(list[i].target_string().as_str(), h) {
            return true;
        }
        i = i + 1;
    }
    false
}


/// `b` is `a` with the edit applied to the person that `o` names, when it
/// names one.
pub open spec fn opt_persons_edited(a: Seq<Person>, b: Seq<Person>, o: Option<Seq<char>>, fh: Seq<char>, kind: ListEdit) -> bool {
    match o {
        Some(ph) => persons_edited(a, b, ph, fh, kind),
        None => b == a,
    }
}

/// Applies one family-list edit to the person a parent slot names.
fn edit_parent(tree: &mut Snapshot, o: &Option<String>, family_handle: &str, kind: ListEdit)
    requires
        old(tree).wf(),
    ensures
        final(tree).wf(),
        only_changed(*old(tree), *final(tree), set![ObjClass::Person]),
        opt_persons_edited(old(tree).persons@, final(tree).persons@, opt_view(*o), family_handle@, kind),
        forall|h: Seq<char>| #[trigger] find_key(final(tree).persons@, h) == find_key(old(tree).persons@, h),
        person_refs_follow(old(tree).persons@, final(tree).persons@, old(tree).references@, final(tree).references@),
{
    match o {
        Some(h) => edit_person_lists(tree, h.as_str(), family_handle, kind),
        None => {
            proof {
                lemma_person_refs_follow_refl(tree.persons@, tree.references@);
            }
        },
    }
}

/// An `AddFamily` edit keeps every existing parent link, and the person it
/// targets (when there is one) links to the family afterwards.
pub proof fn lemma_add_family_links(a: Seq<Person>, b: Seq<Person>, o: Option<Seq<char>>, fh: Seq<char>)
    requires
        opt_persons_edited(a, b, o, fh, ListEdit::AddFamily),
    ensures
        b.len() == a.len(),
        forall|j: int| 0 <= j < a.len() && links_to(a[j].family_list@, fh) ==> links_to(#[trigger] b[j].family_list@, fh),
        o matches Some(ph) ==> (find_key(a, ph) matches Some(j) ==> links_to(b[j].family_list@, fh)),
{
    if let Some(ph) = o {
        lemma_find_key(a, ph);
        assert forall|j: int| 0 <= j < a.len() && (links_to(a[j].family_list@, fh) || find_key(a, ph) == Some(j)) implies links_to(#[trigger] b[j].family_list@, fh) by {
            if find_key(a, ph) == Some(j) && edit_changes(a[j], fh, ListEdit::AddFamily) {
                let ov = a[j].family_list@;
                let nv = b[j].family_list@;
                assert(handle_views(nv) == handle_views(ov).push(fh));
                assert(handle_views(nv).len() == nv.len());
                let last = nv.len() - 1;
                assert(handle_views(nv)[last] == nv[last]@);
                assert(nv[last].target() == fh);
            } else if find_key(a, ph) == Some(j) {
            } else {
            }
        }
    }
}

/// The values a new family's row takes.
pub open spec fn family_created(x: Family, handle: Seq<char>, gid: Seq<char>, fv: Option<Seq<char>>, mv: Option<Seq<char>>, type_value: i32) -> bool {
    &&& x.class matches Some(c) && c@ == "Family"@
    &&& x.handle@ == handle
    &&& x.gramps_id@ == gid
    &&& !x.private
    &&& opt_view(x.father_handle) == fv
    &&& opt_view(x.mother_handle) == mv
    &&& x.child_ref_list@.len() == 0
    &&& x.type_.class matches Some(c) && c@ == "FamilyRelType"@
    &&& x.type_.value == type_value
    &&& x.type_.string@.len() == 0
    &&& x.event_ref_list@.len() == 0
    &&& x.media_list@.len() == 0
    &&& x.attribute_list@.len() == 0
    &&& x.lds_ord_list@.len() == 0
    &&& x.citation_list@.len() == 0
    &&& x.note_list@.len() == 0
    &&& x.tag_list@.len() == 0
    &&& x.complete == 0
}

/// `n` is `o` with a new change stamp.
pub open spec fn family_restamped(o: Family, n: Family) -> bool {
    n == Family { change: n.change, ..o }
}

/// Writes `f` back at position `i` (taken out with `take_row`), stamps it
/// and refreshes its `reference` rows.
pub(crate) fn store_family(tree: &mut Snapshot, i: usize, f: Family, now: i64, Ghost(before): Ghost<Seq<Family>>)
    requires
        i < before.len(),
        old(tree).families@ == before.remove(i as int),
        before[i as int].key() == f.handle@,
        unique_keys(before),
    ensures
        final(tree).families@ == before.update(i as int, final(tree).families@[i as int]),
        family_restamped(f, final(tree).families@[i as int]),
        final(tree).families@[i as int].change == now,
        unique_keys(final(tree).families@),
        forall|h: Seq<char>| #[trigger] find_key(final(tree).families@, h) == find_key(before, h),
        forall|g: Seq<char>| #[trigger] refs_from(final(tree).references@, g) == if g == f.handle@ {
            family_refs(f)
        } else {
            refs_from(old(tree).references@, g)
        },
        final(tree).path == old(tree).path,
        final(tree).persons == old(tree).persons,
        final(tree).events == old(tree).events,
        final(tree).places == old(tree).places,
        final(tree).sources == old(tree).sources,
        final(tree).citations == old(tree).citations,
        final(tree).media == old(tree).media,
        final(tree).notes == old(tree).notes,
        final(tree).repositories == old(tree).repositories,
        final(tree).tags == old(tree).tags,
{
    let mut f = f;
    f.change = now;
    let links = outbound_refs(&f);
    rewrite_references(&mut tree.references, &f.handle, ObjClass::Family, &links);
    put_row(&mut tree.families, i, f, Ghost(before));
}

/// Overwrite the row of an existing family (found by handle): stamps
/// `change` and refreshes its `reference` rows.
pub fn save(tree: &mut Snapshot, family: Family) -> (r: Result<(), RepoError>)
    requires
        old(tree).wf(),
    ensures
        final(tree).wf(),
        only_changed(*old(tree), *final(tree), set![ObjClass::Family]),
        match r {
            Ok(()) => find_key(old(tree).families@, family.handle@) matches Some(i) && {
                &&& final(tree).families@ == old(tree).families@.update(i, final(tree).families@[i])
                &&& family_restamped(family, final(tree).families@[i])
                &&& forall|g: Seq<char>| #[trigger] refs_from(final(tree).references@, g) == if g == family.handle@ {
                    family_refs(family)
                } else {
                    refs_from(old(tree).references@, g)
                }
            },
            Err(e) => {
                &&& !has_key(old(tree).families@, family.handle@)
                &&& e matches RepoError::NotFound { .. }
                &&& final(tree).families@ == old(tree).families@
                &&& final(tree).references@ == old(tree).references@
            },
        },
{
    save_at(tree, family, now_unix())
}

/// [`save`] with `now` as the `change` stamp of the row it writes.
pub fn save_at(tree: &mut Snapshot, family: Family, now: i64) -> (r: Result<(), RepoError>)
    requires
        old(tree).wf(),
    ensures
        final(tree).wf(),
        only_changed(*old(tree), *final(tree), set![ObjClass::Family]),
        match r {
            Ok(()) => find_key(old(tree).families@, family.handle@) matches Some(i) && {
                &&& final(tree).families@ == old(tree).families@.update(i, final(tree).families@[i])
                &&& family_restamped(family, final(tree).families@[i])
                &&& forall|g: Seq<char>| #[trigger] refs_from(final(tree).references@, g) == if g == family.handle@ {
                    family_refs(family)
                } else {
                    refs_from(old(tree).references@, g)
                }
            },
            Err(e) => {
                &&& !has_key(old(tree).families@, family.handle@)
                &&& e matches RepoError::NotFound { .. }
                &&& final(tree).families@ == old(tree).families@
                &&& final(tree).references@ == old(tree).references@
            },
        },
        r is Ok ==> final(tree).families@[find_key(old(tree).families@, family.handle@)->0].change == now,
{
    let i = match find(&tree.families, family.handle.as_str()) {
        Some(i) => i,
        None => {
            proof {
                lemma_find_key(tree.families@, family.handle@);
            }
            return Err(RepoError::NotFound { class: ObjClass::Family, handle: family.handle });
        },
    };
    let ghost before = tree.families@;
    let _old = take_row(&mut tree.families, i);
    store_family(tree, i, family, now, Ghost(before));
    Ok(())
}

/// What a successful [`create`] does: the family row `i` is appended with
/// the next gramps id, each parent that exists gets the family in its
/// `family_list`, and the `reference` rows follow.
pub open spec fn family_create_ok(a: Snapshot, b: Snapshot, i: usize, handle: Seq<char>, fv: Option<Seq<char>>, mv: Option<Seq<char>>, type_value: i32) -> bool {
    &&& b.wf()
    &&& only_changed(a, b, set![ObjClass::Family, ObjClass::Person])
    &&& id_room(gids(a.families@), 'F')
    &&& !has_key(a.families@, handle)
    &&& i == a.families@.len()
    &&& b.families@ == a.families@.push(b.families@[i as int])
    &&& family_created(b.families@[i as int], handle, next_id_spec(gids(a.families@), 'F'), fv, mv, type_value)
    &&& find_key(b.families@, handle) == Some(i as int)
    &&& b.persons@.len() == a.persons@.len()
    &&& forall|h: Seq<char>| #[trigger] find_key(b.persons@, h) == find_key(a.persons@, h)
    &&& exists|mid: Seq<Person>| {
        &&& opt_persons_edited(a.persons@, mid, fv, handle, ListEdit::AddFamily)
        &&& opt_persons_edited(mid, b.persons@, mv, handle, ListEdit::AddFamily)
    }
    &&& forall|j: int| 0 <= j < a.persons@.len() && (fv == Some(a.persons@[j].handle@)
        || mv == Some(a.persons@[j].handle@)) ==> links_to(#[trigger] b.persons@[j].family_list@, handle)
    &&& exists|mid_refs: Seq<Reference>| {
        &&& forall|g: Seq<char>| #[trigger] refs_from(mid_refs, g) == if g == handle {
            family_refs(b.families@[i as int])
        } else {
            refs_from(a.references@, g)
        }
        &&& person_refs_follow(a.persons@, b.persons@, mid_refs, b.references@)
    }
}

/// What [`create`] does and when it is refused.
pub open spec fn family_create_done(a: Snapshot, b: Snapshot, handle: Seq<char>, father_handle: Option<String>, mother_handle: Option<String>, type_value: i32, r: Result<usize, RepoError>) -> bool {
    &&& b.wf()
    &&& only_changed(a, b, set![ObjClass::Family, ObjClass::Person])
    &&& match r {
        Ok(i) => family_create_ok(a, b, i, handle, set_handle(father_handle), set_handle(mother_handle), type_value),
        Err(e) => {
            &&& b.families@ == a.families@
            &&& b.persons@ == a.persons@
            &&& b.references@ == a.references@
            &&& match e {
                RepoError::IdsExhausted { .. } => !id_room(gids(a.families@), 'F'),
                RepoError::HandleInUse { .. } => id_room(gids(a.families@), 'F') && has_key(a.families@, handle),
                _ => false,
            }
        },
    }
}

/// Create a family with a father, a mother and a relationship type. A
/// parent given as `None` or as an empty handle is left unset. Each parent
/// that exists gets the family added to its `family_list` (as parent), so
/// the reverse link is consistent.
pub fn create(
    tree: &mut Snapshot,
    handle: String,
    father_handle: Option<String>,
    mother_handle: Option<String>,
    type_value: i32,
) -> (r: Result<usize, RepoError>)
    requires
        old(tree).wf(),
    ensures
        family_create_done(*old(tree), *final(tree), handle@, father_handle, mother_handle, type_value, r),
{
    create_at(tree, handle, father_handle, mother_handle, type_value, now_unix())
}

/// [`create`] with `now` as the `change` stamp of the row it writes.
pub fn create_at(
    tree: &mut Snapshot,
    handle: String,
    father_handle: Option<String>,
    mother_handle: Option<String>,
    type_value: i32,
    now: i64,
) -> (r: Result<usize, RepoError>)
    requires
        old(tree).wf(),
    ensures
        family_create_done(*old(tree), *final(tree), handle@, father_handle, mother_handle, type_value, r),
        r matches Ok(i) ==> final(tree).families@[i as int].change == now,
{
    let gramps_id = match next_gramps_id(&tree.families, 'F') {
        Some(id) => id,
        None => return Err(RepoError::IdsExhausted { class: ObjClass::Family }),
    };
    let father = nonempty(father_handle);
    let mother = nonempty(mother_handle);
    let x = Family {
        class: Some(String::from_str("Family")),
        handle,
        gramps_id,
        change: now,
        private: false,
        father_handle: father,
        mother_handle: mother,
        child_ref_list: Vec::new(),
        type_: Typed { class: Some(String::from_str("FamilyRelType")), value: type_value, string: String::new() },
        event_ref_list: Vec::new(),
        media_list: Vec::new(),
        attribute_list: Vec::new(),
        lds_ord_list: Vec::new(),
        citation_list: Vec::new(),
        note_list: Vec::new(),
        tag_list: Vec::new(),
        complete: 0,
    };
    let links = outbound_refs(&x);
    let h = x.handle.clone();
    let fa = x.father_handle.clone();
    let mo = x.mother_handle.clone();
    let r = insert_row(&mut tree.families, x, ObjClass::Family);
    let i = match r {
        Ok(i) => i,
        Err(e) => return Err(e),
    };
    rewrite_references(&mut tree.references, &h, ObjClass::Family, &links);
    let ghost p0 = tree.persons@;
    let ghost r1 = tree.references@;
    edit_parent(tree, &fa, h.as_str(), ListEdit::AddFamily);
    let ghost p1 = tree.persons@;
    let ghost r2 = tree.references@;
    edit_parent(tree, &mo, h.as_str(), ListEdit::AddFamily);
    proof {
        lemma_person_refs_follow_trans(p0, p1, tree.persons@, r1, r2, tree.references@);
        lemma_add_family_links(p0, p1, opt_view(fa), h@);
        lemma_add_family_links(p1, tree.persons@, opt_view(mo), h@);
        assert forall|j: int| 0 <= j < p0.len() && (set_handle(father_handle) == Some(p0[j].handle@)
            || set_handle(mother_handle) == Some(p0[j].handle@)) implies links_to(#[trigger] tree.persons@[j].family_list@, h@) by {
            let ph = p0[j].handle@;
            lemma_find_key(p0, ph);
            assert(p0[j].key() == ph);
            assert(find_key(p0, ph) == Some(j));
            assert(find_key(p1, ph) == Some(j));
        }
    }
    Ok(i)
}


/// What a parent slot's change does to the persons: when the slot changed,
/// the old parent loses the family from `family_list` and then the new
/// parent gains it; when it did not, nothing.
pub open spec fn slot_relinked(a: Seq<Person>, b: Seq<Person>, old_slot: Option<Seq<char>>, new_slot: Option<Seq<char>>, fh: Seq<char>) -> bool {
    if old_slot == new_slot {
        b == a
    } else {
        exists|mid: Seq<Person>| {
            &&& opt_persons_edited(a, mid, old_slot, fh, ListEdit::DropFamily)
            &&& opt_persons_edited(mid, b, new_slot, fh, ListEdit::AddFamily)
        }
    }
}

/// Moves the reverse link of one parent slot from its old to its new
/// parent, when the slot changed.
fn relink_slot(tree: &mut Snapshot, old_slot: &Option<String>, new_slot: &Option<String>, family_handle: &str)
    requires
        old(tree).wf(),
    ensures
        final(tree).wf(),
        only_changed(*old(tree), *final(tree), set![ObjClass::Person]),
        slot_relinked(old(tree).persons@, final(tree).persons@, opt_view(*old_slot), opt_view(*new_slot), family_handle@),
        forall|h: Seq<char>| #[trigger] find_key(final(tree).persons@, h) == find_key(old(tree).persons@, h),
        person_refs_follow(old(tree).persons@, final(tree).persons@, old(tree).references@, final(tree).references@),
{
    if opt_eq(old_slot, new_slot) {
        proof {
            lemma_person_refs_follow_refl(tree.persons@, tree.references@);
        }
        return;
    }
    let ghost p0 = tree.persons@;
    let ghost r0 = tree.references@;
    edit_parent(tree, old_slot, family_handle, ListEdit::DropFamily);
    let ghost p1 = tree.persons@;
    let ghost r1 = tree.references@;
    edit_parent(tree, new_slot, family_handle, ListEdit::AddFamily);
    proof {
        lemma_person_refs_follow_trans(p0, p1, tree.persons@, r0, r1, tree.references@);
    }
}

/// The values an updated family's row takes: the parents as the form sets
/// them, the relationship type, and everything else as it was.
pub open spec fn family_updated(o: Family, x: Family, father: Option<String>, mother: Option<String>, type_value: i32) -> bool {
    &&& x == Family { father_handle: x.father_handle, mother_handle: x.mother_handle, type_: x.type_, change: x.change, ..o }
    &&& opt_view(x.father_handle) == set_handle(father)
    &&& opt_view(x.mother_handle) == set_handle(mother)
    &&& x.type_.class == o.type_.class
    &&& x.type_.value == type_value
    &&& x.type_.string@.len() == 0
}

/// What [`update`] does and when it is refused.
pub open spec fn family_update_done(a: Snapshot, b: Snapshot, handle: Seq<char>, father_handle: Option<String>, mother_handle: Option<String>, type_value: i32, r: Result<(), RepoError>) -> bool {
    &&& b.wf()
    &&& only_changed(a, b, set![ObjClass::Family, ObjClass::Person])
    &&& match r {
        Ok(()) => find_key(a.families@, handle) matches Some(i) && {
            &&& b.families@ == a.families@.update(i, b.families@[i])
            &&& family_updated(a.families@[i], b.families@[i], father_handle, mother_handle, type_value)
            &&& exists|mid: Seq<Person>| {
                &&& slot_relinked(a.persons@, mid, opt_view(a.families@[i].father_handle), set_handle(father_handle), handle)
                &&& slot_relinked(mid, b.persons@, opt_view(a.families@[i].mother_handle), set_handle(mother_handle), handle)
            }
            &&& exists|mid_refs: Seq<Reference>| {
                &&& forall|g: Seq<char>| #[trigger] refs_from(mid_refs, g) == if g == handle {
                    family_refs(b.families@[i])
                } else {
                    refs_from(a.references@, g)
                }
                &&& person_refs_follow(a.persons@, b.persons@, mid_refs, b.references@)
            }
            &&& b.persons@.len() == a.persons@.len()
            &&& forall|j: int| 0 <= j < a.persons@.len() ==> links_to((#[trigger] b.persons@[j]).family_list@, handle) == links_after_slot(
                links_after_slot(
                    links_to(a.persons@[j].family_list@, handle),
                    a.persons@[j].handle@,
                    opt_view(a.families@[i].father_handle),
                    set_handle(father_handle),
                ),
                a.persons@[j].handle@,
                opt_view(a.families@[i].mother_handle),
                set_handle(mother_handle),
            )
        },
        Err(e) => {
            &&& !has_key(a.families@, handle)
            &&& e matches RepoError::NotFound { .. }
            &&& b.families@ == a.families@
            &&& b.persons@ == a.persons@
            &&& b.references@ == a.references@
        },
    }
}

/// Update the editable fields of a family: father, mother and
/// relationship type. Children, events and the other links are kept. When
/// a parent slot changes, the old parent loses the family from its
/// `family_list` and the new parent gains it.
pub fn update(
    tree: &mut Snapshot,
    handle: &str,
    father_handle: Option<String>,
    mother_handle: Option<String>,
    type_value: i32,
) -> (r: Result<(), RepoError>)
    requires
        old(tree).wf(),
    ensures
        family_update_done(*old(tree), *final(tree), handle@, father_handle, mother_handle, type_value, r),
{
    update_at(tree, handle, father_handle, mother_handle, type_value, now_unix())
}

/// [`update`] with `now` as the `change` stamp of the row it writes.
pub fn update_at(
    tree: &mut Snapshot,
    handle: &str,
    father_handle: Option<String>,
    mother_handle: Option<String>,
    type_value: i32,
    now: i64,
) -> (r: Result<(), RepoError>)
    requires
        old(tree).wf(),
    ensures
        family_update_done(*old(tree), *final(tree), handle@, father_handle, mother_handle, type_value, r),
        r is Ok ==> final(tree).families@[find_key(old(tree).families@, handle@)->0].change == now,
{
    let i = match find(&tree.families, handle) {
        Some(i) => i,
        None => {
            proof {
                lemma_find_key(tree.families@, handle@);
            }
            return Err(RepoError::NotFound { class: ObjClass::Family, handle: String::from_str(handle) });
        },
    };
    proof {
        lemma_find_key(tree.families@, handle@);
    }
    let ghost before = tree.families@;
    let mut f = take_row(&mut tree.families, i);
    let old_father = f.father_handle.clone();
    let old_mother = f.mother_handle.clone();
    f.father_handle = nonempty(father_handle);
    f.mother_handle = nonempty(mother_handle);
    f.type_.value = type_value;
    f.type_.string = String::new();
    let new_father = f.father_handle.clone();
    let new_mother = f.mother_handle.clone();
    let ghost written = f;
    store_family(tree, i, f, now, Ghost(before));
    let ghost fam_i = tree.families@[i as int];
    assert(family_refs(fam_i) == family_refs(written));
    let ghost p0 = tree.persons@;
    let ghost r1 = tree.references@;
    relink_slot(tree, &old_father, &new_father, handle);
    let ghost p1 = tree.persons@;
    let ghost r2 = tree.references@;
    relink_slot(tree, &old_mother, &new_mother, handle);
    proof {
        lemma_person_refs_follow_trans(p0, p1, tree.persons@, r1, r2, tree.references@);
        lemma_update_relinks(p0, p1, tree.persons@, opt_view(old_father), opt_view(new_father), opt_view(old_mother), opt_view(new_mother), handle@);
        assert(tree.families@[i as int] == fam_i);
    }
    Ok(())
}


/// Person `h` is the father or the mother the family names.
pub open spec fn is_parent_of(f: Family, h: Seq<char>) -> bool {
    opt_view(f.father_handle) == Some(h) || opt_view(f.mother_handle) == Some(h)
}

/// What the delete cascade of family `fh` makes of person `o`: as a parent
/// of the family (`parent`) it loses every link to the family from
/// `family_list`, as a child (`child`) from `parent_family_list`; a person
/// neither list of which changes stays exactly as it was.
pub open spec fn family_unlinked(o: Person, n: Person, fh: Seq<char>, parent: bool, child: bool) -> bool {
    let fl = parent && links_to(o.family_list@, fh);
    let pl = child && links_to(o.parent_family_list@, fh);
    if !fl && !pl {
        n == o
    } else {
        &&& n == Person { family_list: n.family_list, parent_family_list: n.parent_family_list, change: n.change, ..o }
        &&& n.family_list@ == if fl {
            keep_links(o.family_list@, fh)
        } else {
            o.family_list@
        }
        &&& n.parent_family_list@ == if pl {
            keep_links(o.parent_family_list@, fh)
        } else {
            o.parent_family_list@
        }
    }
}

proof fn lemma_unlink_step(o: Person, c: Person, n: Person, fh: Seq<char>, parent: bool, child: bool, kind: ListEdit, hit: bool)
    requires
        family_unlinked(o, c, fh, parent, child),
        kind == ListEdit::DropFamily || kind == ListEdit::DropParentFamily,
        if hit {
            person_list_edited(c, n, fh, kind)
        } else {
            n == c
        },
    ensures
        family_unlinked(o, n, fh, parent || (hit && kind == ListEdit::DropFamily), child || (hit && kind == ListEdit::DropParentFamily)),
{
    lemma_keep_links(o.family_list@, fh);
    lemma_keep_links(o.parent_family_list@, fh);
}

proof fn lemma_unlink_persons(
    old: Seq<Person>,
    cur: Seq<Person>,
    next: Seq<Person>,
    fh: Seq<char>,
    o: Option<Seq<char>>,
    kind: ListEdit,
    pf: spec_fn(Seq<char>) -> bool,
    cf: spec_fn(Seq<char>) -> bool,
)
    requires
        kind == ListEdit::DropFamily || kind == ListEdit::DropParentFamily,
        cur.len() == old.len(),
        unique_keys(old),
        forall|j: int| 0 <= j < old.len() ==> family_unlinked(old[j], #[trigger] cur[j], fh, pf(old[j].handle@), cf(old[j].handle@)),
        opt_persons_edited(cur, next, o, fh, kind),
        forall|h: Seq<char>| #[trigger] find_key(cur, h) == find_key(old, h),
    ensures
        next.len() == old.len(),
        forall|j: int| 0 <= j < old.len() ==> family_unlinked(old[j], #[trigger] next[j], fh,
            pf(old[j].handle@) || (kind == ListEdit::DropFamily && o == Some(old[j].handle@)),
            cf(old[j].handle@) || (kind == ListEdit::DropParentFamily && o == Some(old[j].handle@))),
{
    assert forall|j: int| 0 <= j < old.len() implies family_unlinked(old[j], #[trigger] next[j], fh,
        pf(old[j].handle@) || (kind == ListEdit::DropFamily && o == Some(old[j].handle@)),
        cf(old[j].handle@) || (kind == ListEdit::DropParentFamily && o == Some(old[j].handle@))) by {
        let hit = o == Some(old[j].handle@);
        if let Some(ph) = o {
            lemma_find_key(old, ph);
            if hit {
                assert(old[j].key() == ph);
                assert(find_key(cur, ph) == Some(j));
            } else {
                if find_key(old, ph) == Some(j) {
                    assert(old[j].key() == ph);
                }
            }
        }
        lemma_unlink_step(old[j], cur[j], next[j], fh, pf(old[j].handle@), cf(old[j].handle@), kind, hit);
    }
}

pub proof fn lemma_links_to_prefix<T: RefLink>(s: Seq<T>, k: int, h: Seq<char>)
    requires
        0 <= k < s.len(),
    ensures
        links_to(s.subrange(0, k + 1), h) == (links_to(s.subrange(0, k), h) || s[k].target() == h),
{
    let a = s.subrange(0, k);
    let b = s.subrange(0, k + 1);
    if links_to(b, h) {
        let m = choose|m: int| 0 <= m < b.len() && #[trigger] b[m].target() == h;
        if m < k {
            assert(a[m] == b[m]);
        }
    }
    if links_to(a, h) {
        let m = choose|m: int| 0 <= m < a.len() && #[trigger] a[m].target() == h;
        assert(b[m] == a[m]);
    }
    if s[k].target() == h {
        assert(b[k] == s[k]);
    }
}

/// What [`delete_with_cascade`] does and when it is refused.
pub open spec fn family_delete_done(a: Snapshot, b: Snapshot, handle: Seq<char>, r: Result<(), RepoError>) -> bool {
    &&& b.wf()
    &&& only_changed(a, b, set![ObjClass::Family, ObjClass::Person])
    &&& match r {
        Ok(()) => find_key(a.families@, handle) matches Some(i) && {
            let f = a.families@[i];
            &&& b.families@ == a.families@.remove(i)
            &&& !has_key(b.families@, handle)
            &&& b.persons@.len() == a.persons@.len()
            &&& forall|j: int| 0 <= j < a.persons@.len() ==> family_unlinked(a.persons@[j], #[trigger] b.persons@[j], handle,
                is_parent_of(f, a.persons@[j].handle@), links_to(f.child_ref_list@, a.persons@[j].handle@))
            &&& forall|j: int| 0 <= j < a.persons@.len() && is_parent_of(f, a.persons@[j].handle@) ==>
                !links_to(#[trigger] b.persons@[j].family_list@, handle)
            &&& forall|j: int| 0 <= j < a.persons@.len() && links_to(f.child_ref_list@, a.persons@[j].handle@) ==>
                !links_to(#[trigger] b.persons@[j].parent_family_list@, handle)
            &&& refs_from(b.references@, handle) == Seq::<Link>::empty()
            &&& forall|g: Seq<char>| g != handle ==> #[trigger] person_refs_at(a.persons@, b.persons@, a.references@, b.references@, g)
        },
        Err(e) => {
            &&& !has_key(a.families@, handle)
            &&& e matches RepoError::NotFound { .. }
            &&& b.families@ == a.families@
            &&& b.persons@ == a.persons@
            &&& b.references@ == a.references@
        },
    }
}

/// Delete a family with cascade: its father and mother lose it from their
/// `family_list`, each of its children from `parent_family_list`; then the
/// family row and its own outbound references go.
pub fn delete_with_cascade(tree: &mut Snapshot, handle: &str) -> (r: Result<(), RepoError>)
    requires
        old(tree).wf(),
    ensures
        family_delete_done(*old(tree), *final(tree), handle@, r),
{
    let i = match find(&tree.families, handle) {
        Some(i) => i,
        None => {
            proof {
                lemma_find_key(tree.families@, handle@);
            }
            return Err(RepoError::NotFound { class: ObjClass::Family, handle: String::from_str(handle) });
        },
    };
    proof {
        lemma_find_key(tree.families@, handle@);
        lemma_find_remove(tree.families@, i as int);
    }
    let ghost old_persons = tree.persons@;
    let ghost old_refs = tree.references@;
    let f = take_row(&mut tree.families, i);
    proof {
        lemma_person_refs_follow_refl(old_persons, old_refs);
        assert forall|j: int| 0 <= j < old_persons.len() implies family_unlinked(old_persons[j], #[trigger] tree.persons@[j], handle@, false, false) by {}
    }
    let ghost p0 = tree.persons@;
    edit_parent(tree, &f.father_handle, handle, ListEdit::DropFamily);
    proof {
        lemma_unlink_persons(old_persons, p0, tree.persons@, handle@, opt_view(f.father_handle), ListEdit::DropFamily, |h: Seq<char>| false, |h: Seq<char>| false);
    }
    let ghost p1 = tree.persons@;
    let ghost r1 = tree.references@;
    edit_parent(tree, &f.mother_handle, handle, ListEdit::DropFamily);
    proof {
        lemma_unlink_persons(old_persons, p1, tree.persons@, handle@, opt_view(f.mother_handle), ListEdit::DropFamily,
            |h: Seq<char>| opt_view(f.father_handle) == Some(h), |h: Seq<char>| false);
        lemma_person_refs_follow_trans(p0, p1, tree.persons@, old_refs, r1, tree.references@);
        assert(tree.persons@.subrange(0, 0) =~= Seq::<Person>::empty());
        assert forall|j: int| 0 <= j < old_persons.len() implies family_unlinked(old_persons[j], #[trigger] tree.persons@[j], handle@,
            is_parent_of(f, old_persons[j].handle@), links_to(f.child_ref_list@.subrange(0, 0), old_persons[j].handle@)) by {
        }
    }
    let n = f.child_ref_list.len();
    let mut k: usize = 0;
    while k < n
        invariant
            n == f.child_ref_list@.len(),
            k <= n,
            tree.wf(),
            unique_keys(old_persons),
            only_changed(*old(tree), *tree, set![ObjClass::Family, ObjClass::Person]),
            tree.families@ == old(tree).families@.remove(i as int),
            tree.persons@.len() == old_persons.len(),
            forall|h: Seq<char>| #[trigger] find_key(tree.persons@, h) == find_key(old_persons, h),
            person_refs_follow(old_persons, tree.persons@, old_refs, tree.references@),
            forall|j: int| 0 <= j < old_persons.len() ==> family_unlinked(old_persons[j], #[trigger] tree.persons@[j], handle@,
                is_parent_of(f, old_persons[j].handle@), links_to(f.child_ref_list@.subrange(0, k as int), old_persons[j].handle@)),
        decreases n - k,
    {
        let ghost pk = tree.persons@;
        let ghost rk = tree.references@;
        let ch = f.child_ref_list[k].ref_.as_str();
        edit_person_lists(tree, ch, handle, ListEdit::DropParentFamily);
        proof {
            let sub = f.child_ref_list@.subrange(0, k as int);
            lemma_unlink_persons(old_persons, pk, tree.persons@, handle@, Some(ch@), ListEdit::DropParentFamily,
                |h: Seq<char>| is_parent_of(f, h), |h: Seq<char>| links_to(sub, h));
            lemma_person_refs_follow_trans(old_persons, pk, tree.persons@, old_refs, rk, tree.references@);
            assert forall|j: int| 0 <= j < old_persons.len() implies family_unlinked(old_persons[j], #[trigger] tree.persons@[j], handle@,
                is_parent_of(f, old_persons[j].handle@), links_to(f.child_ref_list@.subrange(0, k + 1), old_persons[j].handle@)) by {
                lemma_links_to_prefix(f.child_ref_list@, k as int, old_persons[j].handle@);
            }
        }
        k = k + 1;
    }
    let ghost pf = tree.persons@;
    let ghost rf = tree.references@;
    remove_references(&mut tree.references, handle);
    proof {
        assert(f.child_ref_list@.subrange(0, n as int) =~= f.child_ref_list@);
        crate::db::refs::lemma_drop_obj(rf, handle@, handle@);
        assert forall|g: Seq<char>| g != handle@ implies #[trigger] person_refs_at(old_persons, tree.persons@, old_refs, tree.references@, g) by {
            crate::db::refs::lemma_drop_obj(rf, handle@, g);
            assert(refs_from(rf, g) == refs_from(rf, g) && person_refs_at(old_persons, pf, old_refs, rf, g));
        }
        assert forall|j: int| 0 <= j < old_persons.len() && is_parent_of(f, old_persons[j].handle@) implies
            !links_to(#[trigger] tree.persons@[j].family_list@, handle@) by {
            lemma_keep_links(old_persons[j].family_list@, handle@);
        }
        assert forall|j: int| 0 <= j < old_persons.len() && links_to(f.child_ref_list@, old_persons[j].handle@) implies
            !links_to(#[trigger] tree.persons@[j].parent_family_list@, handle@) by {
            lemma_keep_links(old_persons[j].parent_family_list@, handle@);
        }
    }
    Ok(())
}


/// `c` is the link a new child gets: relation Birth to both parents.
pub open spec fn is_birth_child_ref(c: ChildRef, h: Seq<char>) -> bool {
    &&& c.class matches Some(x) && x@ == "ChildRef"@
    &&& c.ref_@ == h
    &&& !c.private
    &&& c.citation_list@.len() == 0
    &&& c.note_list@.len() == 0
    &&& c.frel.class matches Some(x) && x@ == "ChildRefType"@
    &&& c.frel.value == 1
    &&& c.frel.string@.len() == 0
    &&& c.mrel.class matches Some(x) && x@ == "ChildRefType"@
    &&& c.mrel.value == 1
    &&& c.mrel.string@.len() == 0
}

fn birth_child_ref(h: &str) -> (c: ChildRef)
    ensures
        is_birth_child_ref(c, h@),
{
    ChildRef {
        class: Some(String::from_str("ChildRef")),
        ref_: String::from_str(h),
        private: false,
        citation_list: Vec::new(),
        note_list: Vec::new(),
        frel: Typed { class: Some(String::from_str("ChildRefType")), value: 1, string: String::new() },
        mrel: Typed { class: Some(String::from_str("ChildRefType")), value: 1, string: String::new() },
    }
}

/// What a successful [`append_child_to_family`] does: a family that
/// already lists the child is left alone; otherwise a Birth child link is
/// appended, the family restamped and its `reference` rows refreshed.
pub open spec fn append_child_ok(a: Snapshot, b: Snapshot, fh: Seq<char>, ch: Seq<char>) -> bool {
    find_key(a.families@, fh) matches Some(j) && {
        let o = a.families@[j];
        let n = b.families@[j];
        &&& b.wf()
        &&& only_changed(a, b, set![ObjClass::Family])
        &&& if links_to(o.child_ref_list@, ch) {
            b.families@ == a.families@ && b.references@ == a.references@
        } else {
            &&& b.families@ == a.families@.update(j, n)
            &&& n == Family { child_ref_list: n.child_ref_list, change: n.change, ..o }
            &&& n.child_ref_list@.len() == o.child_ref_list@.len() + 1
            &&& n.child_ref_list@.drop_last() == o.child_ref_list@
            &&& is_birth_child_ref(n.child_ref_list@.last(), ch)
            &&& forall|g: Seq<char>| #[trigger] refs_from(b.references@, g) == if g == fh {
                family_refs(n)
            } else {
                refs_from(a.references@, g)
            }
        }
    }
}

/// Append a child link (Birth relation to both parents) to a family's
/// `child_ref_list` and rewrite the family row; a family that already
/// lists the child is left alone.
pub fn append_child_to_family(tree: &mut Snapshot, family_handle: &str, child_handle: &str) -> (r: Result<(), RepoError>)
    requires
        old(tree).wf(),
    ensures
        final(tree).wf(),
        only_changed(*old(tree), *final(tree), set![ObjClass::Family]),
        match r {
            Ok(()) => append_child_ok(*old(tree), *final(tree), family_handle@, child_handle@),
            Err(e) => {
                &&& !has_key(old(tree).families@, family_handle@)
                &&& e matches RepoError::NotFound { class: ObjClass::Family, handle: h } && h@ == family_handle@
                &&& final(tree).families@ == old(tree).families@
                &&& final(tree).references@ == old(tree).references@
            },
        },
{
    append_child_to_family_at(tree, family_handle, child_handle, now_unix())
}

/// [`append_child_to_family`] with `now` as the `change` stamp of the row it writes.
pub fn append_child_to_family_at(tree: &mut Snapshot, family_handle: &str, child_handle: &str, now: i64) -> (r: Result<(), RepoError>)
    requires
        old(tree).wf(),
    ensures
        final(tree).wf(),
        only_changed(*old(tree), *final(tree), set![ObjClass::Family]),
        match r {
            Ok(()) => append_child_ok(*old(tree), *final(tree), family_handle@, child_handle@),
            Err(e) => {
                &&& !has_key(old(tree).families@, family_handle@)
                &&& e matches RepoError::NotFound { class: ObjClass::Family, handle: h } && h@ == family_handle@
                &&& final(tree).families@ == old(tree).families@
                &&& final(tree).references@ == old(tree).references@
            },
        },
        r is Ok && final(tree).families@ != old(tree).families@ ==> final(tree).families@[find_key(old(tree).families@, family_handle@)->0].change == now,
{
    let j = match find(&tree.families, family_handle) {
        Some(j) => j,
        None => {
            proof {
                lemma_find_key(tree.families@, family_handle@);
            }
            return Err(RepoError::NotFound { class: ObjClass::Family, handle: String::from_str(family_handle) });
        },
    };
    proof {
        lemma_find_key(tree.families@, family_handle@);
    }
    if contains_handle(&tree.families[j].child_ref_list, child_handle) {
        return Ok(());
    }
    let ghost before = tree.families@;
    let mut f = take_row(&mut tree.families, j);
    f.child_ref_list.push(birth_child_ref(child_handle));
    let ghost fv = f;
    store_family(tree, j, f, now, Ghost(before));
    proof {
        assert(family_refs(tree.families@[j as int]) == family_refs(fv));
        assert(tree.families@[j as int].child_ref_list@.drop_last() =~= before[j as int].child_ref_list@);
    }
    Ok(())
}


/// After [`append_child_to_family`] the family lists the child.
pub proof fn lemma_append_child_links(a: Snapshot, b: Snapshot, fh: Seq<char>, ch: Seq<char>)
    requires
        append_child_ok(a, b, fh, ch),
    ensures
        lookup(b.families@, fh) matches Some(f) && links_to(f.child_ref_list@, ch),
        forall|h: Seq<char>| #[trigger] find_key(b.families@, h) == find_key(a.families@, h),
{
    let j = find_key(a.families@, fh).unwrap();
    lemma_find_key(a.families@, fh);
    if !links_to(a.families@[j].child_ref_list@, ch) {
        let n = b.families@[j];
        crate::db::keyed::lemma_find_update(a.families@, j, n);
        let l = n.child_ref_list@;
        assert(l[l.len() - 1].target() == ch);
    }
}

/// An `AddParentFamily` edit leaves the person it targets (when there is
/// one) listing the family in `parent_family_list`.
pub proof fn lemma_add_parent_family_links(a: Seq<Person>, b: Seq<Person>, ph: Seq<char>, fh: Seq<char>)
    requires
        persons_edited(a, b, ph, fh, ListEdit::AddParentFamily),
    ensures
        find_key(a, ph) matches Some(j) ==> links_to(b[j].parent_family_list@, fh),
{
    lemma_find_key(a, ph);
    if let Some(j) = find_key(a, ph) {
        if edit_changes(a[j], fh, ListEdit::AddParentFamily) {
            let nv = b[j].parent_family_list@;
            assert(handle_views(nv) == handle_views(a[j].parent_family_list@).push(fh));
            assert(handle_views(nv).len() == nv.len());
            let last = nv.len() - 1;
            assert(handle_views(nv)[last] == nv[last]@);
            assert(nv[last].target() == fh);
        }
    }
}


/// Adding the same child to a family twice is adding it once: the second
/// call changes nothing.
pub proof fn lemma_append_child_idempotent(a: Snapshot, b: Snapshot, c: Snapshot, fh: Seq<char>, ch: Seq<char>)
    requires
        append_child_ok(a, b, fh, ch),
        append_child_ok(b, c, fh, ch),
    ensures
        c.families@ == b.families@,
        c.references@ == b.references@,
{
    lemma_append_child_links(a, b, fh, ch);
    lemma_find_key(b.families@, fh);
}

/// One family-list edit on persons with unique handles: the person it
/// targets has its row as [`person_list_edited`] says, every other row is
/// unchanged, and handles stay where they were.
proof fn lemma_edit_at(a: Seq<Person>, b: Seq<Person>, o: Option<Seq<char>>, fh: Seq<char>, kind: ListEdit)
    requires
        unique_keys(a),
        opt_persons_edited(a, b, o, fh, kind),
    ensures
        b.len() == a.len(),
        forall|j: int| 0 <= j < a.len() ==> (#[trigger] b[j]).handle == a[j].handle,
        unique_keys(b),
        forall|j: int| 0 <= j < a.len() ==> if o == Some(a[j].handle@) {
            person_list_edited(a[j], #[trigger] b[j], fh, kind)
        } else {
            b[j] == a[j]
        },
{
    if let Some(ph) = o {
        lemma_find_key(a, ph);
        assert forall|j: int| 0 <= j < a.len() implies (#[trigger] b[j]).handle == a[j].handle && (if o == Some(a[j].handle@) {
            person_list_edited(a[j], b[j], fh, kind)
        } else {
            b[j] == a[j]
        }) by {
            if a[j].handle@ == ph {
                assert(a[j].key() == ph);
                assert(find_key(a, ph) == Some(j));
            } else if find_key(a, ph) == Some(j) {
                assert(a[j].key() == ph);
            }
        }
    }
    assert forall|i: int, j: int| 0 <= i < b.len() && 0 <= j < b.len() && i != j implies #[trigger] b[i].key() != #[trigger] b[j].key() by {
        assert(a[i].key() != a[j].key());
    }
}

/// What one `AddFamily` or `DropFamily` edit leaves in a person's
/// `family_list` as to the family `fh`.
proof fn lemma_edit_links(o: Person, n: Person, fh: Seq<char>, kind: ListEdit)
    requires
        kind == ListEdit::AddFamily || kind == ListEdit::DropFamily,
        person_list_edited(o, n, fh, kind),
    ensures
        kind == ListEdit::AddFamily ==> links_to(n.family_list@, fh),
        kind == ListEdit::DropFamily ==> !links_to(n.family_list@, fh),
{
    lemma_keep_links(o.family_list@, fh);
    if kind == ListEdit::AddFamily && edit_changes(o, fh, kind) {
        let nv = n.family_list@;
        assert(handle_views(nv) == handle_views(o.family_list@).push(fh));
        assert(handle_views(nv).len() == nv.len());
        let last = nv.len() - 1;
        assert(handle_views(nv)[last] == nv[last]@);
        assert(nv[last].target() == fh);
    }
}

/// Whether a person lists family `fh` after one slot's relink, given
/// whether it did before: the old holder of a changed slot loses it, the
/// new holder then gains it.
pub open spec fn links_after_slot(before: bool, h: Seq<char>, old_slot: Option<Seq<char>>, new_slot: Option<Seq<char>>) -> bool {
    if old_slot == new_slot {
        before
    } else if new_slot == Some(h) {
        true
    } else if old_slot == Some(h) {
        false
    } else {
        before
    }
}

proof fn lemma_slot_links(a: Seq<Person>, b: Seq<Person>, old_slot: Option<Seq<char>>, new_slot: Option<Seq<char>>, fh: Seq<char>)
    requires
        unique_keys(a),
        slot_relinked(a, b, old_slot, new_slot, fh),
    ensures
        b.len() == a.len(),
        unique_keys(b),
        forall|j: int| 0 <= j < a.len() ==> (#[trigger] b[j]).handle == a[j].handle,
        forall|j: int| 0 <= j < a.len() ==> links_to((#[trigger] b[j]).family_list@, fh) == links_after_slot(
            links_to(a[j].family_list@, fh),
            a[j].handle@,
            old_slot,
            new_slot,
        ),
{
    if old_slot != new_slot {
        let mid = choose|mid: Seq<Person>| {
            &&& opt_persons_edited(a, mid, old_slot, fh, ListEdit::DropFamily)
            &&& opt_persons_edited(mid, b, new_slot, fh, ListEdit::AddFamily)
        };
        lemma_edit_at(a, mid, old_slot, fh, ListEdit::DropFamily);
        lemma_edit_at(mid, b, new_slot, fh, ListEdit::AddFamily);
        assert forall|j: int| 0 <= j < a.len() implies links_to((#[trigger] b[j]).family_list@, fh) == links_after_slot(
            links_to(a[j].family_list@, fh),
            a[j].handle@,
            old_slot,
            new_slot,
        ) by {
            assert(mid[j].handle == a[j].handle);
            if old_slot == Some(a[j].handle@) {
                lemma_edit_links(a[j], mid[j], fh, ListEdit::DropFamily);
            }
            if new_slot == Some(mid[j].handle@) {
                lemma_edit_links(mid[j], b[j], fh, ListEdit::AddFamily);
            }
        }
    }
}

/// The reverse links after a family update: a person lists the family
/// afterwards exactly as the two slot relinks, father first, decide. So a
/// parent slot that changed to a person leaves that person listing the
/// family, unless the other slot, relinked after it, then moves away from
/// the same person (a swap of father and mother); and the person a slot
/// moved away from no longer lists it, unless it is the other slot's new
/// holder.
pub proof fn lemma_update_relinks(
    a: Seq<Person>,
    mid: Seq<Person>,
    b: Seq<Person>,
    of: Option<Seq<char>>,
    nf: Option<Seq<char>>,
    om: Option<Seq<char>>,
    nm: Option<Seq<char>>,
    fh: Seq<char>,
)
    requires
        unique_keys(a),
        slot_relinked(a, mid, of, nf, fh),
        slot_relinked(mid, b, om, nm, fh),
    ensures
        b.len() == a.len(),
        forall|j: int| 0 <= j < a.len() ==> links_to((#[trigger] b[j]).family_list@, fh) == links_after_slot(
            links_after_slot(links_to(a[j].family_list@, fh), a[j].handle@, of, nf),
            a[j].handle@,
            om,
            nm,
        ),
        forall|j: int| 0 <= j < a.len() && nm == Some(a[j].handle@) && om != nm ==> links_to((#[trigger] b[j]).family_list@, fh),
        forall|j: int| 0 <= j < a.len() && nf == Some(a[j].handle@) && of != nf && !(om == Some(a[j].handle@) && om != nm) ==> links_to(
            (#[trigger] b[j]).family_list@,
            fh,
        ),
        forall|j: int| 0 <= j < a.len() && om == Some(a[j].handle@) && om != nm ==> !links_to((#[trigger] b[j]).family_list@, fh),
        forall|j: int| 0 <= j < a.len() && of == Some(a[j].handle@) && of != nf && !(nm == Some(a[j].handle@) && om != nm) ==> !links_to(
            (#[trigger] b[j]).family_list@,
            fh,
        ),
{
    lemma_slot_links(a, mid, of, nf, fh);
    lemma_slot_links(mid, b, om, nm, fh);
    assert forall|j: int| 0 <= j < a.len() implies links_to((#[trigger] b[j]).family_list@, fh) == links_after_slot(
        links_after_slot(links_to(a[j].family_list@, fh), a[j].handle@, of, nf),
        a[j].handle@,
        om,
        nm,
    ) by {
        assert(mid[j].handle == a[j].handle);
    }
}

/// Dropping the links to `h` from a list that reads as `o` followed by
/// `h`, where `o` has no link to `h`, reads as `o` again.
proof fn lemma_keep_pushed(o: Seq<String>, l: Seq<String>, h: Seq<char>)
    requires
        handle_views(l) == handle_views(o).push(h),
        !links_to(o, h),
    ensures
        handle_views(keep_links(l, h)) == handle_views(o),
    decreases o.len(),
{
    assert(l.len() == o.len() + 1) by {
        assert(handle_views(l).len() == l.len());
        assert(handle_views(o).len() == o.len());
    }
    if o.len() == 0 {
        assert(l[0]@ == handle_views(l)[0]);
        assert(keep_links(l.drop_first(), h) =~= Seq::<String>::empty());
        assert(keep_links(l, h) =~= Seq::<String>::empty());
        assert(handle_views(keep_links(l, h)) =~= handle_views(o));
    } else {
        assert(handle_views(l)[0] == l[0]@);
        assert(handle_views(o)[0] == o[0]@);
        assert(o[0].target() == o[0]@);
        assert(l[0]@ != h);
        assert(handle_views(l.drop_first()) =~= handle_views(o.drop_first()).push(h)) by {
            assert forall|k: int| 0 <= k < l.len() - 1 implies #[trigger] handle_views(l.drop_first())[k] == handle_views(o.drop_first()).push(h)[k] by {
                assert(handle_views(l)[k + 1] == l[k + 1]@);
                if k < o.len() - 1 {
                    assert(handle_views(o)[k + 1] == o[k + 1]@);
                }
            }
        }
        assert(!links_to(o.drop_first(), h)) by {
            if links_to(o.drop_first(), h) {
                let k = choose|k: int| 0 <= k < o.drop_first().len() && #[trigger] o.drop_first()[k].target() == h;
                assert(o[k + 1].target() == h);
            }
        }
        lemma_keep_pushed(o.drop_first(), l.drop_first(), h);
        let rest = keep_links(l.drop_first(), h);
        assert(keep_links(l, h) == seq![l[0]] + rest);
        assert(handle_views(keep_links(l, h)) =~= handle_views(o)) by {
            assert(handle_views(seq![l[0]] + rest) =~= seq![l[0]@] + handle_views(rest));
            assert(handle_views(o) =~= seq![o[0]@] + handle_views(o.drop_first()));
        }
    }
}

/// Deleting a family just created gives back the families as they were,
/// and every person as it was but for its change stamp, with its family
/// lists reading as before — provided no person listed the new family's
/// handle already.
pub proof fn lemma_create_then_delete(
    a: Snapshot,
    b: Snapshot,
    c: Snapshot,
    i: usize,
    fh: Seq<char>,
    fv: Option<Seq<char>>,
    mv: Option<Seq<char>>,
    type_value: i32,
    r: Result<(), RepoError>,
)
    requires
        a.wf(),
        family_create_ok(a, b, i, fh, fv, mv, type_value),
        family_delete_done(b, c, fh, r),
        forall|j: int| 0 <= j < a.persons@.len() ==> !links_to(#[trigger] a.persons@[j].family_list@, fh),
    ensures
        r is Ok,
        c.families@ == a.families@,
        c.persons@.len() == a.persons@.len(),
        forall|j: int| 0 <= j < a.persons@.len() ==> {
            &&& #[trigger] c.persons@[j] == Person {
                family_list: c.persons@[j].family_list,
                parent_family_list: c.persons@[j].parent_family_list,
                change: c.persons@[j].change,
                ..a.persons@[j]
            }
            &&& c.persons@[j].parent_family_list@ == a.persons@[j].parent_family_list@
            &&& handle_views(c.persons@[j].family_list@) == handle_views(a.persons@[j].family_list@)
        },
{
    lemma_find_key(b.families@, fh);
    assert(r is Ok);
    let f = b.families@[i as int];
    assert(b.families@.remove(i as int) =~= a.families@);
    let mid = choose|mid: Seq<Person>| {
        &&& opt_persons_edited(a.persons@, mid, fv, fh, ListEdit::AddFamily)
        &&& opt_persons_edited(mid, b.persons@, mv, fh, ListEdit::AddFamily)
    };
    assert forall|j: int| 0 <= j < a.persons@.len() implies {
        &&& #[trigger] c.persons@[j] == Person {
            family_list: c.persons@[j].family_list,
            parent_family_list: c.persons@[j].parent_family_list,
            change: c.persons@[j].change,
            ..a.persons@[j]
        }
        &&& c.persons@[j].parent_family_list@ == a.persons@[j].parent_family_list@
        &&& handle_views(c.persons@[j].family_list@) == handle_views(a.persons@[j].family_list@)
    } by {
        let o = a.persons@[j];
        let m = mid[j];
        let n = b.persons@[j];
        let e = c.persons@[j];
        lemma_find_key(a.persons@, o.handle@);
        lemma_find_key(mid, o.handle@);
        assert(!links_to(f.child_ref_list@, o.handle@));
        assert(is_parent_of(f, o.handle@) == (fv == Some(o.handle@) || mv == Some(o.handle@)));
        // The father edit.
        assert(m == o || (fv == Some(o.handle@) && m == Person { family_list: m.family_list, change: m.change, ..o } && handle_views(
            m.family_list@,
        ) == handle_views(o.family_list@).push(fh))) by {
            if let Some(ph) = fv {
                lemma_find_key(a.persons@, ph);
                assert(persons_edited(a.persons@, mid, ph, fh, ListEdit::AddFamily));
                if find_key(a.persons@, ph) == Some(j) {
                    assert(!links_to(a.persons@[j].family_list@, fh));
                    assert(person_list_edited(o, m, fh, ListEdit::AddFamily));
                } else {
                    assert(m == o);
                }
            }
        }
        assert(mid.len() == a.persons@.len());
        lemma_find_key(mid, o.handle@);
        // The mother edit.
        assert(n == m || (mv == Some(o.handle@) && !links_to(m.family_list@, fh) && n == Person { family_list: n.family_list, change: n.change, ..m }
            && handle_views(n.family_list@) == handle_views(m.family_list@).push(fh))) by {
            if let Some(ph) = mv {
                assert(persons_edited(mid, b.persons@, ph, fh, ListEdit::AddFamily));
                lemma_find_key(mid, ph);
                if find_key(mid, ph) == Some(j) {
                    assert(mid[j].key() == ph);
                    assert(person_list_edited(m, n, fh, ListEdit::AddFamily));
                } else {
                    assert(n == m);
                }
            }
        }
        // Either way `n` is `o` with at most the family pushed once.
        let pushed = n != o;
        assert(pushed ==> n == Person { family_list: n.family_list, change: n.change, ..o } && handle_views(n.family_list@) == handle_views(
            o.family_list@,
        ).push(fh)) by {
            if n != o {
                if m != o {
                    assert(links_to(m.family_list@, fh)) by {
                        assert(handle_views(m.family_list@).len() == m.family_list@.len());
                        assert(handle_views(o.family_list@).len() == o.family_list@.len());
                        let k = m.family_list@.len() - 1;
                        assert(handle_views(m.family_list@)[k] == m.family_list@[k]@);
                        assert(m.family_list@[k].target() == fh);
                    }
                    assert(n == m);
                }
            }
        }
        assert(!pushed ==> !links_to(n.family_list@, fh));
        assert(pushed ==> links_to(n.family_list@, fh)) by {
            if pushed {
                let k = n.family_list@.len() - 1;
                assert(handle_views(n.family_list@).len() == n.family_list@.len());
                assert(handle_views(n.family_list@)[k] == n.family_list@[k]@);
                assert(n.family_list@[k].target() == fh);
            }
        }
        assert(pushed ==> is_parent_of(f, o.handle@));
        assert(family_unlinked(n, e, fh, is_parent_of(f, n.handle@), links_to(f.child_ref_list@, n.handle@)));
        assert(!links_to(n.parent_family_list@, fh) || !links_to(f.child_ref_list@, n.handle@));
        assert(n.handle@ == o.handle@);
        assert(!links_to(f.child_ref_list@, n.handle@));
        if pushed {
            lemma_keep_pushed(o.family_list@, n.family_list@, fh);
            assert(e.family_list@ == keep_links(n.family_list@, fh));
            assert(e.parent_family_list@ == n.parent_family_list@);
        } else {
            lemma_keep_links(n.family_list@, fh);
            assert(e == n);
        }
    }
}

} // verus!
