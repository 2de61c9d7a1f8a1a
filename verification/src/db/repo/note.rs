//! Note: a styled text body and a note type. Its only outbound references
//! are its tags. A note can be deleted only once nothing points at it.

use vstd::prelude::*;

use super::common::{
    delete_unused, gids, id_room, insert_row, next_gramps_id, next_id_spec, now_unix, put_row,
    take_row, RepoError,
};
use crate::db::keyed::{find, find_key, has_key, lemma_find_key};
use crate::db::refs::{drop_obj, inbound, links_of, links_view, push_links, refs_from, rewrite_references, Link, ObjClass};
use crate::db::snapshot::{only_changed, Snapshot};
use crate::gramps::common::Typed;
use crate::gramps::note::{Note, StyledText};

verus! {

/// The outbound references of a note: its tags.
pub open spec fn note_refs(n: Note) -> Seq<Link> {
    links_of(n.tag_list@, ObjClass::Tag)
}

/// The `(ref_handle, ref_class)` pairs a note contributes to the
/// `reference` table.
pub fn note_outbound_refs(note: &Note) -> (r: Vec<(String, ObjClass)>)
    ensures
        links_view(r@) == note_refs(*note),
{
    let mut out = Vec::new();
    push_links(&mut out, &note.tag_list, ObjClass::Tag);
    assert(links_view(out@) =~= note_refs(*note));
    out
}

/// `n` is the note `create` writes.
pub open spec fn note_created(n: Note, handle: Seq<char>, gid: Seq<char>, type_value: i32, body: Seq<char>) -> bool {
    &&& n.class matches Some(c) && c@ == "Note"@
    &&& n.handle@ == handle
    &&& n.gramps_id@ == gid
    &&& !n.private
    &&& n.format == 0
    &&& n.text.class matches Some(c) && c@ == "StyledText"@
    &&& n.text.string@ == body
    &&& n.text.tags@.len() == 0
    &&& n.type_.class matches Some(c) && c@ == "NoteType"@
    &&& n.type_.value == type_value
    &&& n.type_.string@.len() == 0
    &&& n.tag_list@.len() == 0
}

/// `n` is `o` with the type and body `update` writes, all else kept.
pub open spec fn note_updated(o: Note, n: Note, type_value: i32, body: Seq<char>) -> bool {
    &&& n.class == o.class
    &&& n.handle == o.handle
    &&& n.gramps_id == o.gramps_id
    &&& n.private == o.private
    &&& n.format == o.format
    &&& n.text.class == o.text.class
    &&& n.text.tags == o.text.tags
    &&& n.text.string@ == body
    &&& n.type_.class == o.type_.class
    &&& n.type_.value == type_value
    &&& n.type_.string@.len() == 0
    &&& n.tag_list == o.tag_list
}

/// What [`create`] does and when it is refused.
pub open spec fn note_create_done(a: Snapshot, b: Snapshot, handle: Seq<char>, type_value: i32, body: Seq<char>, r: Result<usize, RepoError>) -> bool {
    &&& b.wf()
    &&& only_changed(a, b, set![ObjClass::Note])
    &&& match r {
        Ok(i) => {
            &&& id_room(gids(a.notes@), 'N')
            &&& !has_key(a.notes@, handle)
            &&& i == a.notes@.len()
            &&& b.notes@ == a.notes@.push(b.notes@[i as int])
            &&& note_created(b.notes@[i as int], handle, next_id_spec(gids(a.notes@), 'N'), type_value, body)
            &&& find_key(b.notes@, handle) == Some(i as int)
            &&& forall|g: Seq<char>| #[trigger] refs_from(b.references@, g) == if g == handle {
                note_refs(b.notes@[i as int])
            } else {
                refs_from(a.references@, g)
            }
        },
        Err(e) => {
            &&& b.notes@ == a.notes@
            &&& b.references@ == a.references@
            &&& match e {
                RepoError::IdsExhausted { .. } => !id_room(gids(a.notes@), 'N'),
                RepoError::HandleInUse { .. } => id_room(gids(a.notes@), 'N') && has_key(a.notes@, handle),
                _ => false,
            }
        },
    }
}

/// Create a new note with the given type value and body.
pub fn create(tree: &mut Snapshot, handle: String, type_value: i32, body: &str) -> (r: Result<usize, RepoError>)
    requires
        old(tree).wf(),
    ensures
        note_create_done(*old(tree), *final(tree), handle@, type_value, body@, r),
{
    create_at(tree, handle, type_value, body, now_unix())
}

/// [`create`] with `now` as the `change` stamp of the row it writes.
pub fn create_at(tree: &mut Snapshot, handle: String, type_value: i32, body: &str, now: i64) -> (r: Result<usize, RepoError>)
    requires
        old(tree).wf(),
    ensures
        note_create_done(*old(tree), *final(tree), handle@, type_value, body@, r),
        r matches Ok(i) ==> final(tree).notes@[i as int].change == now,
{
    let gramps_id = match next_gramps_id(&tree.notes, 'N') {
        Some(id) => id,
        None => return Err(RepoError::IdsExhausted { class: ObjClass::Note }),
    };
    let note = Note {
        class: Some(String::from_str("Note")),
        handle,
        gramps_id,
        change: now,
        private: false,
        format: 0,
        text: StyledText { class: Some(String::from_str("StyledText")), string: String::from_str(body), tags: Vec::new() },
        type_: Typed { class: Some(String::from_str("NoteType")), value: type_value, string: String::new() },
        tag_list: Vec::new(),
    };
    let links = note_outbound_refs(&note);
    let h = note.handle.clone();
    let r = insert_row(&mut tree.notes, note, ObjClass::Note);
    if r.is_ok() {
        rewrite_references(&mut tree.references, &h, ObjClass::Note, &links);
    }
    r
}

/// What [`update`] does and when it is refused.
pub open spec fn note_update_done(a: Snapshot, b: Snapshot, handle: Seq<char>, type_value: i32, body: Seq<char>, r: Result<(), RepoError>) -> bool {
    &&& b.wf()
    &&& only_changed(a, b, set![ObjClass::Note])
    &&& match r {
        Ok(()) => find_key(a.notes@, handle) matches Some(i) && {
            &&& b.notes@ == a.notes@.update(i, b.notes@[i])
            &&& note_updated(a.notes@[i], b.notes@[i], type_value, body)
            &&& forall|g: Seq<char>| #[trigger] refs_from(b.references@, g) == if g == handle {
                note_refs(b.notes@[i])
            } else {
                refs_from(a.references@, g)
            }
        },
        Err(e) => {
            &&& !has_key(a.notes@, handle)
            &&& e matches RepoError::NotFound { .. }
            &&& b.notes@ == a.notes@
            &&& b.references@ == a.references@
        },
    }
}

/// Update an existing note's body and type. Keeps handle, gramps id, tags
/// and private flag.
pub fn update(tree: &mut Snapshot, handle: &str, type_value: i32, body: &str) -> (r: Result<(), RepoError>)
    requires
        old(tree).wf(),
    ensures
        note_update_done(*old(tree), *final(tree), handle@, type_value, body@, r),
{
    update_at(tree, handle, type_value, body, now_unix())
}

/// [`update`] with `now` as the `change` stamp of the row it writes.
pub fn update_at(tree: &mut Snapshot, handle: &str, type_value: i32, body: &str, now: i64) -> (r: Result<(), RepoError>)
    requires
        old(tree).wf(),
    ensures
        note_update_done(*old(tree), *final(tree), handle@, type_value, body@, r),
        r is Ok ==> final(tree).notes@[find_key(old(tree).notes@, handle@)->0].change == now,
{
    let i = match find(&tree.notes, handle) {
        Some(i) => i,
        None => {
            proof {
                lemma_find_key(tree.notes@, handle@);
            }
            return Err(RepoError::NotFound { class: ObjClass::Note, handle: String::from_str(handle) });
        },
    };
    let ghost before = tree.notes@;
    let mut note = take_row(&mut tree.notes, i);
    note.type_.value = type_value;
    note.type_.string = String::new();
    note.text.string = String::from_str(body);
    note.change = now;
    let links = note_outbound_refs(&note);
    rewrite_references(&mut tree.references, &note.handle, ObjClass::Note, &links);
    put_row(&mut tree.notes, i, note, Ghost(before));
    Ok(())
}

/// What [`delete`] does and when it is refused.
pub open spec fn note_delete_done(a: Snapshot, b: Snapshot, handle: Seq<char>, r: Result<(), RepoError>) -> bool {
    &&& b.wf()
    &&& only_changed(a, b, set![ObjClass::Note])
    &&& match r {
        Ok(()) => {
            &&& inbound(a.references@, handle) == 0
            &&& find_key(a.notes@, handle) matches Some(i)
                && b.notes@ == a.notes@.remove(i)
            &&& !has_key(b.notes@, handle)
            &&& b.references@ == drop_obj(a.references@, handle)
        },
        Err(e) => {
            &&& b.notes@ == a.notes@
            &&& b.references@ == a.references@
            &&& match e {
                RepoError::StillReferenced { count, .. } => count == inbound(a.references@, handle) && count > 0,
                RepoError::NotFound { .. } => inbound(a.references@, handle) == 0 && !has_key(a.notes@, handle),
                _ => false,
            }
        },
    }
}

/// Delete a note. Refused while any object still references it; its own
/// outbound references go with it.
pub fn delete(tree: &mut Snapshot, handle: &str) -> (r: Result<(), RepoError>)
    requires
        old(tree).wf(),
    ensures
        note_delete_done(*old(tree), *final(tree), handle@, r),
{
    delete_unused(&mut tree.notes, &mut tree.references, handle, ObjClass::Note, true)
}

} // verus!
