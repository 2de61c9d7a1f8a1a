//! Source: the thing a citation points into (a book, a website, ...). Title,
//! author, pubinfo and abbrev are edited; repository links, media, notes
//! and attributes are kept. Deletion is refused while any citation uses it.

use vstd::prelude::*;

use super::common::{
    delete_unused, gids, id_room, insert_row, next_gramps_id, next_id_spec, now_unix, put_row,
    take_row, RepoError,
};
use crate::db::keyed::{find, find_key, has_key, lemma_find_key};
use crate::db::refs::{drop_obj, inbound, links_of, links_view, opt_link, push_links, push_opt_link, refs_from, rewrite_references, Link, ObjClass};
use crate::db::snapshot::{only_changed, Snapshot};
use crate::gramps::source::Source;

verus! {

/// The outbound references of a source: its repositories, media, notes and tags.
pub open spec fn source_refs(x: Source) -> Seq<Link> {
    links_of(x.reporef_list@, ObjClass::Repository) + links_of(x.media_list@, ObjClass::Media) + links_of(x.note_list@, ObjClass::Note) + links_of(x.tag_list@, ObjClass::Tag)
}

/// The `(ref_handle, ref_class)` pairs a source contributes to the
/// `reference` table.
pub fn outbound_refs(x: &Source) -> (r: Vec<(String, ObjClass)>)
    ensures
        links_view(r@) == source_refs(*x),
{
    let mut out = Vec::new();
    push_links(&mut out, &x.reporef_list, ObjClass::Repository);
    push_links(&mut out, &x.media_list, ObjClass::Media);
    push_links(&mut out, &x.note_list, ObjClass::Note);
    push_links(&mut out, &x.tag_list, ObjClass::Tag);
    assert(links_view(out@) =~= source_refs(*x));
    out
}

/// `x` is the source `create` writes.
pub open spec fn source_created(x: Source, handle: Seq<char>, gid: Seq<char>, title: Seq<char>, author: Seq<char>, pubinfo: Seq<char>, abbrev: Seq<char>) -> bool {
    &&& x.class matches Some(c) && c@ == "Source"@
    &&& x.handle@ == handle
    &&& x.gramps_id@ == gid
    &&& !x.private
    &&& x.title@ == title
    &&& x.author@ == author
    &&& x.pubinfo@ == pubinfo
    &&& x.abbrev@ == abbrev
    &&& x.reporef_list@.len() == 0
    &&& x.media_list@.len() == 0
    &&& x.attribute_list@.len() == 0
    &&& x.note_list@.len() == 0
    &&& x.tag_list@.len() == 0
}

/// `x` is `o` with the fields `update` writes, all else kept.
pub open spec fn source_updated(o: Source, x: Source, title: Seq<char>, author: Seq<char>, pubinfo: Seq<char>, abbrev: Seq<char>) -> bool {
    &&& x.class == o.class
    &&& x.handle == o.handle
    &&& x.gramps_id == o.gramps_id
    &&& x.private == o.private
    &&& x.title@ == title
    &&& x.author@ == author
    &&& x.pubinfo@ == pubinfo
    &&& x.abbrev@ == abbrev
    &&& x.reporef_list == o.reporef_list
    &&& x.media_list == o.media_list
    &&& x.attribute_list == o.attribute_list
    &&& x.note_list == o.note_list
    &&& x.tag_list == o.tag_list
}

/// What [`create`] does and when it is refused.
pub open spec fn source_create_done(a: Snapshot, b: Snapshot, handle: Seq<char>, title: Seq<char>, author: Seq<char>, pubinfo: Seq<char>, abbrev: Seq<char>, r: Result<usize, RepoError>) -> bool {
    &&& b.wf()
    &&& only_changed(a, b, set![ObjClass::Source])
    &&& match r {
        Ok(i) => {
            &&& id_room(gids(a.sources@), 'S')
            &&& !has_key(a.sources@, handle)
            &&& i == a.sources@.len()
            &&& b.sources@ == a.sources@.push(b.sources@[i as int])
            &&& source_created(b.sources@[i as int], handle, next_id_spec(gids(a.sources@), 'S'), title, author, pubinfo, abbrev)
            &&& find_key(b.sources@, handle) == Some(i as int)
            &&& forall|g: Seq<char>| #[trigger] refs_from(b.references@, g) == if g == handle {
                source_refs(b.sources@[i as int])
            } else {
                refs_from(a.references@, g)
            }
        },
        Err(e) => {
            &&& b.sources@ == a.sources@
            &&& b.references@ == a.references@
            &&& match e {
                RepoError::IdsExhausted { .. } => !id_room(gids(a.sources@), 'S'),
                RepoError::HandleInUse { .. } => id_room(gids(a.sources@), 'S') && has_key(a.sources@, handle),
                _ => false,
            }
        },
    }
}

/// Create a new source under the given (fresh) handle, with the next
/// gramps id `SNNNN`.
pub fn create(tree: &mut Snapshot, handle: String, title: &str, author: &str, pubinfo: &str, abbrev: &str) -> (r: Result<usize, RepoError>)
    requires
        old(tree).wf(),
    ensures
        source_create_done(*old(tree), *final(tree), handle@, title@, author@, pubinfo@, abbrev@, r),
{
    create_at(tree, handle, title, author, pubinfo, abbrev, now_unix())
}

/// [`create`] with `now` as the `change` stamp of the row it writes.
pub fn create_at(tree: &mut Snapshot, handle: String, title: &str, author: &str, pubinfo: &str, abbrev: &str, now: i64) -> (r: Result<usize, RepoError>)
    requires
        old(tree).wf(),
    ensures
        source_create_done(*old(tree), *final(tree), handle@, title@, author@, pubinfo@, abbrev@, r),
        r matches Ok(i) ==> final(tree).sources@[i as int].change == now,
{
    let gramps_id = match next_gramps_id(&tree.sources, 'S') {
        Some(id) => id,
        None => return Err(RepoError::IdsExhausted { class: ObjClass::Source }),
    };
    let x = Source {
        class: Some(String::from_str("Source")),
        handle,
        gramps_id,
        change: now,
        private: false,
        title: String::from_str(title),
        author: String::from_str(author),
        pubinfo: String::from_str(pubinfo),
        abbrev: String::from_str(abbrev),
        reporef_list: Vec::new(),
        media_list: Vec::new(),
        attribute_list: Vec::new(),
        note_list: Vec::new(),
        tag_list: Vec::new(),
    };
    let links = outbound_refs(&x);
    let h = x.handle.clone();
    let r = insert_row(&mut tree.sources, x, ObjClass::Source);
    if r.is_ok() {
        rewrite_references(&mut tree.references, &h, ObjClass::Source, &links);
    }
    r
}

/// What [`update`] does and when it is refused.
pub open spec fn source_update_done(a: Snapshot, b: Snapshot, handle: Seq<char>, title: Seq<char>, author: Seq<char>, pubinfo: Seq<char>, abbrev: Seq<char>, r: Result<(), RepoError>) -> bool {
    &&& b.wf()
    &&& only_changed(a, b, set![ObjClass::Source])
    &&& match r {
        Ok(()) => find_key(a.sources@, handle) matches Some(i) && {
            &&& b.sources@ == a.sources@.update(i, b.sources@[i])
            &&& source_updated(a.sources@[i], b.sources@[i], title, author, pubinfo, abbrev)
            &&& forall|g: Seq<char>| #[trigger] refs_from(b.references@, g) == if g == handle {
                source_refs(b.sources@[i])
            } else {
                refs_from(a.references@, g)
            }
        },
        Err(e) => {
            &&& !has_key(a.sources@, handle)
            &&& e matches RepoError::NotFound { .. }
            &&& b.sources@ == a.sources@
            &&& b.references@ == a.references@
        },
    }
}

/// Update the editable fields of an existing source; every other field is
/// kept.
pub fn update(tree: &mut Snapshot, handle: &str, title: &str, author: &str, pubinfo: &str, abbrev: &str) -> (r: Result<(), RepoError>)
    requires
        old(tree).wf(),
    ensures
        source_update_done(*old(tree), *final(tree), handle@, title@, author@, pubinfo@, abbrev@, r),
{
    update_at(tree, handle, title, author, pubinfo, abbrev, now_unix())
}

/// [`update`] with `now` as the `change` stamp of the row it writes.
pub fn update_at(tree: &mut Snapshot, handle: &str, title: &str, author: &str, pubinfo: &str, abbrev: &str, now: i64) -> (r: Result<(), RepoError>)
    requires
        old(tree).wf(),
    ensures
        source_update_done(*old(tree), *final(tree), handle@, title@, author@, pubinfo@, abbrev@, r),
        r is Ok ==> final(tree).sources@[find_key(old(tree).sources@, handle@)->0].change == now,
{
    let i = match find(&tree.sources, handle) {
        Some(i) => i,
        None => {
            proof {
                lemma_find_key(tree.sources@, handle@);
            }
            return Err(RepoError::NotFound { class: ObjClass::Source, handle: String::from_str(handle) });
        },
    };
    let ghost before = tree.sources@;
    let mut x = take_row(&mut tree.sources, i);
    x.title = String::from_str(title);
    x.author = String::from_str(author);
    x.pubinfo = String::from_str(pubinfo);
    x.abbrev = String::from_str(abbrev);
    x.change = now;
    let links = outbound_refs(&x);
    rewrite_references(&mut tree.references, &x.handle, ObjClass::Source, &links);
    put_row(&mut tree.sources, i, x, Ghost(before));
    Ok(())
}

/// What [`delete`] does and when it is refused.
pub open spec fn source_delete_done(a: Snapshot, b: Snapshot, handle: Seq<char>, r: Result<(), RepoError>) -> bool {
    &&& b.wf()
    &&& only_changed(a, b, set![ObjClass::Source])
    &&& match r {
        Ok(()) => {
            &&& inbound(a.references@, handle) == 0
            &&& find_key(a.sources@, handle) matches Some(i)
                && b.sources@ == a.sources@.remove(i)
            &&& !has_key(b.sources@, handle)
            &&& b.references@ == drop_obj(a.references@, handle)
        },
        Err(e) => {
            &&& b.sources@ == a.sources@
            &&& b.references@ == a.references@
            &&& match e {
                RepoError::StillReferenced { count, .. } => count == inbound(a.references@, handle) && count > 0,
                RepoError::NotFound { .. } => inbound(a.references@, handle) == 0 && !has_key(a.sources@, handle),
                _ => false,
            }
        },
    }
}

/// Delete a source. Refused while any object still references it; its own
/// outbound references go with it.
pub fn delete(tree: &mut Snapshot, handle: &str) -> (r: Result<(), RepoError>)
    requires
        old(tree).wf(),
    ensures
        source_delete_done(*old(tree), *final(tree), handle@, r),
{
    delete_unused(&mut tree.sources, &mut tree.references, handle, ObjClass::Source, true)
}

} // verus!
