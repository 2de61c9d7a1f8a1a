//! Citation: a specific reference into a Source (a page, a URL). The source,
//! page, confidence (0..4) and date are edited. Deletion is refused while
//! any object lists the citation.

use vstd::prelude::*;

use super::common::{
    delete_unused, gids, id_room, insert_row, next_gramps_id, next_id_spec, now_unix, put_row,
    take_row, RepoError,
};
use crate::db::keyed::{find, find_key, has_key, lemma_find_key};
use crate::db::refs::{drop_obj, inbound, links_of, links_view, opt_link, push_links, push_opt_link, refs_from, rewrite_references, Link, ObjClass};
use crate::db::snapshot::{only_changed, Snapshot};
use crate::gramps::citation::Citation;
use crate::gramps::date::Date;

verus! {

/// The outbound references of a citation: its source (when set), notes, media and tags.
pub open spec fn citation_refs(x: Citation) -> Seq<Link> {
    opt_link(x.source_handle@, ObjClass::Source) + links_of(x.note_list@, ObjClass::Note) + links_of(x.media_list@, ObjClass::Media) + links_of(x.tag_list@, ObjClass::Tag)
}

/// The `(ref_handle, ref_class)` pairs a citation contributes to the
/// `reference` table.
pub fn outbound_refs(x: &Citation) -> (r: Vec<(String, ObjClass)>)
    ensures
        links_view(r@) == citation_refs(*x),
{
    let mut out = Vec::new();
    push_opt_link(&mut out, &x.source_handle, ObjClass::Source);
    push_links(&mut out, &x.note_list, ObjClass::Note);
    push_links(&mut out, &x.media_list, ObjClass::Media);
    push_links(&mut out, &x.tag_list, ObjClass::Tag);
    assert(links_view(out@) =~= citation_refs(*x));
    out
}

/// `x` is the citation `create` writes.
pub open spec fn citation_created(x: Citation, handle: Seq<char>, gid: Seq<char>, source_handle: Seq<char>, page: Seq<char>, confidence: i32, date: Option<Date>) -> bool {
    &&& x.class matches Some(c) && c@ == "Citation"@
    &&& x.handle@ == handle
    &&& x.gramps_id@ == gid
    &&& !x.private
    &&& x.source_handle@ == source_handle
    &&& x.page@ == page
    &&& x.confidence == confidence
    &&& x.date == date
    &&& x.note_list@.len() == 0
    &&& x.media_list@.len() == 0
    &&& x.attribute_list@.len() == 0
    &&& x.tag_list@.len() == 0
}

/// `x` is `o` with the fields `update` writes, all else kept.
pub open spec fn citation_updated(o: Citation, x: Citation, source_handle: Seq<char>, page: Seq<char>, confidence: i32, date: Option<Date>) -> bool {
    &&& x.class == o.class
    &&& x.handle == o.handle
    &&& x.gramps_id == o.gramps_id
    &&& x.private == o.private
    &&& x.source_handle@ == source_handle
    &&& x.page@ == page
    &&& x.confidence == confidence
    &&& x.date == date
    &&& x.note_list == o.note_list
    &&& x.media_list == o.media_list
    &&& x.attribute_list == o.attribute_list
    &&& x.tag_list == o.tag_list
}

/// What [`create`] does and when it is refused.
pub open spec fn citation_create_done(a: Snapshot, b: Snapshot, handle: Seq<char>, source_handle: Seq<char>, page: Seq<char>, confidence: i32, date: Option<Date>, r: Result<usize, RepoError>) -> bool {
    &&& b.wf()
    &&& only_changed(a, b, set![ObjClass::Citation])
    &&& match r {
        Ok(i) => {
            &&& id_room(gids(a.citations@), 'C')
            &&& !has_key(a.citations@, handle)
            &&& i == a.citations@.len()
            &&& b.citations@ == a.citations@.push(b.citations@[i as int])
            &&& citation_created(b.citations@[i as int], handle, next_id_spec(gids(a.citations@), 'C'), source_handle, page, confidence, date)
            &&& find_key(b.citations@, handle) == Some(i as int)
            &&& forall|g: Seq<char>| #[trigger] refs_from(b.references@, g) == if g == handle {
                citation_refs(b.citations@[i as int])
            } else {
                refs_from(a.references@, g)
            }
        },
        Err(e) => {
            &&& b.citations@ == a.citations@
            &&& b.references@ == a.references@
            &&& match e {
                RepoError::IdsExhausted { .. } => !id_room(gids(a.citations@), 'C'),
                RepoError::HandleInUse { .. } => id_room(gids(a.citations@), 'C') && has_key(a.citations@, handle),
                _ => false,
            }
        },
    }
}

/// Create a new citation under the given (fresh) handle, with the next
/// gramps id `CNNNN`.
pub fn create(tree: &mut Snapshot, handle: String, source_handle: &str, page: &str, confidence: i32, date: Option<Date>) -> (r: Result<usize, RepoError>)
    requires
        old(tree).wf(),
    ensures
        citation_create_done(*old(tree), *final(tree), handle@, source_handle@, page@, confidence, date, r),
{
    create_at(tree, handle, source_handle, page, confidence, date, now_unix())
}

/// [`create`] with `now` as the `change` stamp of the row it writes.
pub fn create_at(tree: &mut Snapshot, handle: String, source_handle: &str, page: &str, confidence: i32, date: Option<Date>, now: i64) -> (r: Result<usize, RepoError>)
    requires
        old(tree).wf(),
    ensures
        citation_create_done(*old(tree), *final(tree), handle@, source_handle@, page@, confidence, date, r),
        r matches Ok(i) ==> final(tree).citations@[i as int].change == now,
{
    let gramps_id = match next_gramps_id(&tree.citations, 'C') {
        Some(id) => id,
        None => return Err(RepoError::IdsExhausted { class: ObjClass::Citation }),
    };
    let x = Citation {
        class: Some(String::from_str("Citation")),
        handle,
        gramps_id,
        change: now,
        private: false,
        source_handle: String::from_str(source_handle),
        page: String::from_str(page),
        confidence,
        date,
        note_list: Vec::new(),
        media_list: Vec::new(),
        attribute_list: Vec::new(),
        tag_list: Vec::new(),
    };
    let links = outbound_refs(&x);
    let h = x.handle.clone();
    let r = insert_row(&mut tree.citations, x, ObjClass::Citation);
    if r.is_ok() {
        rewrite_references(&mut tree.references, &h, ObjClass::Citation, &links);
    }
    r
}

/// What [`update`] does and when it is refused.
pub open spec fn citation_update_done(a: Snapshot, b: Snapshot, handle: Seq<char>, source_handle: Seq<char>, page: Seq<char>, confidence: i32, date: Option<Date>, r: Result<(), RepoError>) -> bool {
    &&& b.wf()
    &&& only_changed(a, b, set![ObjClass::Citation])
    &&& match r {
        Ok(()) => find_key(a.citations@, handle) matches Some(i) && {
            &&& b.citations@ == a.citations@.update(i, b.citations@[i])
            &&& citation_updated(a.citations@[i], b.citations@[i], source_handle, page, confidence, date)
            &&& forall|g: Seq<char>| #[trigger] refs_from(b.references@, g) == if g == handle {
                citation_refs(b.citations@[i])
            } else {
                refs_from(a.references@, g)
            }
        },
        Err(e) => {
            &&& !has_key(a.citations@, handle)
            &&& e matches RepoError::NotFound { .. }
            &&& b.citations@ == a.citations@
            &&& b.references@ == a.references@
        },
    }
}

/// Update the editable fields of an existing citation; every other field is
/// kept.
pub fn update(tree: &mut Snapshot, handle: &str, source_handle: &str, page: &str, confidence: i32, date: Option<Date>) -> (r: Result<(), RepoError>)
    requires
        old(tree).wf(),
    ensures
        citation_update_done(*old(tree), *final(tree), handle@, source_handle@, page@, confidence, date, r),
{
    update_at(tree, handle, source_handle, page, confidence, date, now_unix())
}

/// [`update`] with `now` as the `change` stamp of the row it writes.
pub fn update_at(tree: &mut Snapshot, handle: &str, source_handle: &str, page: &str, confidence: i32, date: Option<Date>, now: i64) -> (r: Result<(), RepoError>)
    requires
        old(tree).wf(),
    ensures
        citation_update_done(*old(tree), *final(tree), handle@, source_handle@, page@, confidence, date, r),
        r is Ok ==> final(tree).citations@[find_key(old(tree).citations@, handle@)->0].change == now,
{
    let i = match find(&tree.citations, handle) {
        Some(i) => i,
        None => {
            proof {
                lemma_find_key(tree.citations@, handle@);
            }
            return Err(RepoError::NotFound { class: ObjClass::Citation, handle: String::from_str(handle) });
        },
    };
    let ghost before = tree.citations@;
    let mut x = take_row(&mut tree.citations, i);
    x.source_handle = String::from_str(source_handle);
    x.page = String::from_str(page);
    x.confidence = confidence;
    x.date = date;
    x.change = now;
    let links = outbound_refs(&x);
    rewrite_references(&mut tree.references, &x.handle, ObjClass::Citation, &links);
    put_row(&mut tree.citations, i, x, Ghost(before));
    Ok(())
}

/// What [`delete`] does and when it is refused.
pub open spec fn citation_delete_done(a: Snapshot, b: Snapshot, handle: Seq<char>, r: Result<(), RepoError>) -> bool {
    &&& b.wf()
    &&& only_changed(a, b, set![ObjClass::Citation])
    &&& match r {
        Ok(()) => {
            &&& inbound(a.references@, handle) == 0
            &&& find_key(a.citations@, handle) matches Some(i)
                && b.citations@ == a.citations@.remove(i)
            &&& !has_key(b.citations@, handle)
            &&& b.references@ == drop_obj(a.references@, handle)
        },
        Err(e) => {
            &&& b.citations@ == a.citations@
            &&& b.references@ == a.references@
            &&& match e {
                RepoError::StillReferenced { count, .. } => count == inbound(a.references@, handle) && count > 0,
                RepoError::NotFound { .. } => inbound(a.references@, handle) == 0 && !has_key(a.citations@, handle),
                _ => false,
            }
        },
    }
}

/// Delete a citation. Refused while any object still references it; its own
/// outbound references go with it.
pub fn delete(tree: &mut Snapshot, handle: &str) -> (r: Result<(), RepoError>)
    requires
        old(tree).wf(),
    ensures
        citation_delete_done(*old(tree), *final(tree), handle@, r),
{
    delete_unused(&mut tree.citations, &mut tree.references, handle, ObjClass::Citation, true)
}

} // verus!
