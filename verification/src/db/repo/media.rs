//! Media: a file on disk that the tree references. Path, mime type,
//! description and date are edited; the file itself is not touched.
//! Deletion is refused while in use.

use vstd::prelude::*;

use super::common::{
    delete_unused, gids, id_room, insert_row, next_gramps_id, next_id_spec, now_unix, put_row,
    take_row, RepoError,
};
use crate::db::keyed::{find, find_key, has_key, lemma_find_key};
use crate::db::refs::{drop_obj, inbound, links_of, links_view, opt_link, push_links, push_opt_link, refs_from, rewrite_references, Link, ObjClass};
use crate::db::snapshot::{only_changed, Snapshot};
use crate::gramps::date::Date;
use crate::gramps::media::Media;

verus! {

/// The outbound references of a media: its citations, notes and tags.
pub open spec fn media_refs(x: Media) -> Seq<Link> {
    links_of(x.citation_list@, ObjClass::Citation) + links_of(x.note_list@, ObjClass::Note) + links_of(x.tag_list@, ObjClass::Tag)
}

/// The `(ref_handle, ref_class)` pairs a media contributes to the
/// `reference` table.
pub fn outbound_refs(x: &Media) -> (r: Vec<(String, ObjClass)>)
    ensures
        links_view(r@) == media_refs(*x),
{
    let mut out = Vec::new();
    push_links(&mut out, &x.citation_list, ObjClass::Citation);
    push_links(&mut out, &x.note_list, ObjClass::Note);
    push_links(&mut out, &x.tag_list, ObjClass::Tag);
    assert(links_view(out@) =~= media_refs(*x));
    out
}

/// `x` is the media `create` writes.
pub open spec fn media_created(x: Media, handle: Seq<char>, gid: Seq<char>, path: Seq<char>, mime: Seq<char>, desc: Seq<char>, date: Option<Date>) -> bool {
    &&& x.class matches Some(c) && c@ == "Media"@
    &&& x.handle@ == handle
    &&& x.gramps_id@ == gid
    &&& !x.private
    &&& x.path@ == path
    &&& x.mime@ == mime
    &&& x.desc@ == desc
    &&& x.checksum@.len() == 0
    &&& x.date == date
    &&& x.citation_list@.len() == 0
    &&& x.note_list@.len() == 0
    &&& x.attribute_list@.len() == 0
    &&& x.tag_list@.len() == 0
}

/// `x` is `o` with the fields `update` writes, all else kept.
pub open spec fn media_updated(o: Media, x: Media, path: Seq<char>, mime: Seq<char>, desc: Seq<char>, date: Option<Date>) -> bool {
    &&& x.class == o.class
    &&& x.handle == o.handle
    &&& x.gramps_id == o.gramps_id
    &&& x.private == o.private
    &&& x.path@ == path
    &&& x.mime@ == mime
    &&& x.desc@ == desc
    &&& x.checksum == o.checksum
    &&& x.date == date
    &&& x.citation_list == o.citation_list
    &&& x.note_list == o.note_list
    &&& x.attribute_list == o.attribute_list
    &&& x.tag_list == o.tag_list
}

/// What [`create`] does and when it is refused.
pub open spec fn media_create_done(a: Snapshot, b: Snapshot, handle: Seq<char>, path: Seq<char>, mime: Seq<char>, desc: Seq<char>, date: Option<Date>, r: Result<usize, RepoError>) -> bool {
    &&& b.wf()
    &&& only_changed(a, b, set![ObjClass::Media])
    &&& match r {
        Ok(i) => {
            &&& id_room(gids(a.media@), 'O')
            &&& !has_key(a.media@, handle)
            &&& i == a.media@.len()
            &&& b.media@ == a.media@.push(b.media@[i as int])
            &&& media_created(b.media@[i as int], handle, next_id_spec(gids(a.media@), 'O'), path, mime, desc, date)
            &&& find_key(b.media@, handle) == Some(i as int)
            &&& forall|g: Seq<char>| #[trigger] refs_from(b.references@, g) == if g == handle {
                media_refs(b.media@[i as int])
            } else {
                refs_from(a.references@, g)
            }
        },
        Err(e) => {
            &&& b.media@ == a.media@
            &&& b.references@ == a.references@
            &&& match e {
                RepoError::IdsExhausted { .. } => !id_room(gids(a.media@), 'O'),
                RepoError::HandleInUse { .. } => id_room(gids(a.media@), 'O') && has_key(a.media@, handle),
                _ => false,
            }
        },
    }
}

/// Create a new media under the given (fresh) handle, with the next
/// gramps id `ONNNN`.
pub fn create(tree: &mut Snapshot, handle: String, path: &str, mime: &str, desc: &str, date: Option<Date>) -> (r: Result<usize, RepoError>)
    requires
        old(tree).wf(),
    ensures
        media_create_done(*old(tree), *final(tree), handle@, path@, mime@, desc@, date, r),
{
    create_at(tree, handle, path, mime, desc, date, now_unix())
}

/// [`create`] with `now` as the `change` stamp of the row it writes.
pub fn create_at(tree: &mut Snapshot, handle: String, path: &str, mime: &str, desc: &str, date: Option<Date>, now: i64) -> (r: Result<usize, RepoError>)
    requires
        old(tree).wf(),
    ensures
        media_create_done(*old(tree), *final(tree), handle@, path@, mime@, desc@, date, r),
        r matches Ok(i) ==> final(tree).media@[i as int].change == now,
{
    let gramps_id = match next_gramps_id(&tree.media, 'O') {
        Some(id) => id,
        None => return Err(RepoError::IdsExhausted { class: ObjClass::Media }),
    };
    let x = Media {
        class: Some(String::from_str("Media")),
        handle,
        gramps_id,
        change: now,
        private: false,
        path: String::from_str(path),
        mime: String::from_str(mime),
        desc: String::from_str(desc),
        checksum: String::new(),
        date,
        citation_list: Vec::new(),
        note_list: Vec::new(),
        attribute_list: Vec::new(),
        tag_list: Vec::new(),
    };
    let links = outbound_refs(&x);
    let h = x.handle.clone();
    let r = insert_row(&mut tree.media, x, ObjClass::Media);
    if r.is_ok() {
        rewrite_references(&mut tree.references, &h, ObjClass::Media, &links);
    }
    r
}

/// What [`update`] does and when it is refused.
pub open spec fn media_update_done(a: Snapshot, b: Snapshot, handle: Seq<char>, path: Seq<char>, mime: Seq<char>, desc: Seq<char>, date: Option<Date>, r: Result<(), RepoError>) -> bool {
    &&& b.wf()
    &&& only_changed(a, b, set![ObjClass::Media])
    &&& match r {
        Ok(()) => find_key(a.media@, handle) matches Some(i) && {
            &&& b.media@ == a.media@.update(i, b.media@[i])
            &&& media_updated(a.media@[i], b.media@[i], path, mime, desc, date)
            &&& forall|g: Seq<char>| #[trigger] refs_from(b.references@, g) == if g == handle {
                media_refs(b.media@[i])
            } else {
                refs_from(a.references@, g)
            }
        },
        Err(e) => {
            &&& !has_key(a.media@, handle)
            &&& e matches RepoError::NotFound { .. }
            &&& b.media@ == a.media@
            &&& b.references@ == a.references@
        },
    }
}

/// Update the editable fields of an existing media; every other field is
/// kept.
pub fn update(tree: &mut Snapshot, handle: &str, path: &str, mime: &str, desc: &str, date: Option<Date>) -> (r: Result<(), RepoError>)
    requires
        old(tree).wf(),
    ensures
        media_update_done(*old(tree), *final(tree), handle@, path@, mime@, desc@, date, r),
{
    update_at(tree, handle, path, mime, desc, date, now_unix())
}

/// [`update`] with `now` as the `change` stamp of the row it writes.
pub fn update_at(tree: &mut Snapshot, handle: &str, path: &str, mime: &str, desc: &str, date: Option<Date>, now: i64) -> (r: Result<(), RepoError>)
    requires
        old(tree).wf(),
    ensures
        media_update_done(*old(tree), *final(tree), handle@, path@, mime@, desc@, date, r),
        r is Ok ==> final(tree).media@[find_key(old(tree).media@, handle@)->0].change == now,
{
    let i = match find(&tree.media, handle) {
        Some(i) => i,
        None => {
            proof {
                lemma_find_key(tree.media@, handle@);
            }
            return Err(RepoError::NotFound { class: ObjClass::Media, handle: String::from_str(handle) });
        },
    };
    let ghost before = tree.media@;
    let mut x = take_row(&mut tree.media, i);
    x.path = String::from_str(path);
    x.mime = String::from_str(mime);
    x.desc = String::from_str(desc);
    x.date = date;
    x.change = now;
    let links = outbound_refs(&x);
    rewrite_references(&mut tree.references, &x.handle, ObjClass::Media, &links);
    put_row(&mut tree.media, i, x, Ghost(before));
    Ok(())
}

/// What [`delete`] does and when it is refused.
pub open spec fn media_delete_done(a: Snapshot, b: Snapshot, handle: Seq<char>, r: Result<(), RepoError>) -> bool {
    &&& b.wf()
    &&& only_changed(a, b, set![ObjClass::Media])
    &&& match r {
        Ok(()) => {
            &&& inbound(a.references@, handle) == 0
            &&& find_key(a.media@, handle) matches Some(i)
                && b.media@ == a.media@.remove(i)
            &&& !has_key(b.media@, handle)
            &&& b.references@ == drop_obj(a.references@, handle)
        },
        Err(e) => {
            &&& b.media@ == a.media@
            &&& b.references@ == a.references@
            &&& match e {
                RepoError::StillReferenced { count, .. } => count == inbound(a.references@, handle) && count > 0,
                RepoError::NotFound { .. } => inbound(a.references@, handle) == 0 && !has_key(a.media@, handle),
                _ => false,
            }
        },
    }
}

/// Delete a media. Refused while any object still references it; its own
/// outbound references go with it.
pub fn delete(tree: &mut Snapshot, handle: &str) -> (r: Result<(), RepoError>)
    requires
        old(tree).wf(),
    ensures
        media_delete_done(*old(tree), *final(tree), handle@, r),
{
    delete_unused(&mut tree.media, &mut tree.references, handle, ObjClass::Media, true)
}

} // verus!
