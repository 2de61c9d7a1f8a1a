//! Repository: a name and a repository type; addresses, urls, notes and tags
//! are kept as they are on update. Deletion is refused while in use.

use vstd::prelude::*;

use super::common::{
    delete_unused, gids, id_room, insert_row, next_gramps_id, next_id_spec, now_unix, put_row,
    take_row, RepoError,
};
use crate::db::keyed::{find, find_key, has_key, lemma_find_key};
use crate::db::refs::{drop_obj, inbound, links_of, links_view, opt_link, push_links, push_opt_link, refs_from, rewrite_references, Link, ObjClass};
use crate::db::snapshot::{only_changed, Snapshot};
use crate::gramps::common::Typed;
use crate::gramps::repository::Repository;

verus! {

/// The outbound references of a repository: its notes and tags.
pub open spec fn repository_refs(x: Repository) -> Seq<Link> {
    links_of(x.note_list@, ObjClass::Note) + links_of(x.tag_list@, ObjClass::Tag)
}

/// The `(ref_handle, ref_class)` pairs a repository contributes to the
/// `reference` table.
pub fn repo_outbound_refs(x: &Repository) -> (r: Vec<(String, ObjClass)>)
    ensures
        links_view(r@) == repository_refs(*x),
{
    let mut out = Vec::new();
    push_links(&mut out, &x.note_list, ObjClass::Note);
    push_links(&mut out, &x.tag_list, ObjClass::Tag);
    assert(links_view(out@) =~= repository_refs(*x));
    out
}

/// `x` is the repository `create` writes.
pub open spec fn repository_created(x: Repository, handle: Seq<char>, gid: Seq<char>, name: Seq<char>, type_value: i32) -> bool {
    &&& x.class matches Some(c) && c@ == "Repository"@
    &&& x.handle@ == handle
    &&& x.gramps_id@ == gid
    &&& !x.private
    &&& x.name@ == name
    &&& x.type_.class matches Some(c) && c@ == "RepositoryType"@
    &&& x.type_.value == type_value
    &&& x.type_.string@.len() == 0
    &&& x.address_list@.len() == 0
    &&& x.urls@.len() == 0
    &&& x.note_list@.len() == 0
    &&& x.tag_list@.len() == 0
}

/// `x` is `o` with the fields `update` writes, all else kept.
pub open spec fn repository_updated(o: Repository, x: Repository, name: Seq<char>, type_value: i32) -> bool {
    &&& x.class == o.class
    &&& x.handle == o.handle
    &&& x.gramps_id == o.gramps_id
    &&& x.private == o.private
    &&& x.name@ == name
    &&& x.type_.class == o.type_.class
    &&& x.type_.value == type_value
    &&& x.type_.string@.len() == 0
    &&& x.address_list == o.address_list
    &&& x.urls == o.urls
    &&& x.note_list == o.note_list
    &&& x.tag_list == o.tag_list
}

/// What [`create`] does and when it is refused.
pub open spec fn repository_create_done(a: Snapshot, b: Snapshot, handle: Seq<char>, name: Seq<char>, type_value: i32, r: Result<usize, RepoError>) -> bool {
    &&& b.wf()
    &&& only_changed(a, b, set![ObjClass::Repository])
    &&& match r {
        Ok(i) => {
            &&& id_room(gids(a.repositories@), 'R')
            &&& !has_key(a.repositories@, handle)
            &&& i == a.repositories@.len()
            &&& b.repositories@ == a.repositories@.push(b.repositories@[i as int])
            &&& repository_created(b.repositories@[i as int], handle, next_id_spec(gids(a.repositories@), 'R'), name, type_value)
            &&& find_key(b.repositories@, handle) == Some(i as int)
            &&& forall|g: Seq<char>| #[trigger] refs_from(b.references@, g) == if g == handle {
                repository_refs(b.repositories@[i as int])
            } else {
                refs_from(a.references@, g)
            }
        },
        Err(e) => {
            &&& b.repositories@ == a.repositories@
            &&& b.references@ == a.references@
            &&& match e {
                RepoError::IdsExhausted { .. } => !id_room(gids(a.repositories@), 'R'),
                RepoError::HandleInUse { .. } => id_room(gids(a.repositories@), 'R') && has_key(a.repositories@, handle),
                _ => false,
            }
        },
    }
}

/// Create a new repository under the given (fresh) handle, with the next
/// gramps id `RNNNN`.
pub fn create(tree: &mut Snapshot, handle: String, name: &str, type_value: i32) -> (r: Result<usize, RepoError>)
    requires
        old(tree).wf(),
    ensures
        repository_create_done(*old(tree), *final(tree), handle@, name@, type_value, r),
{
    create_at(tree, handle, name, type_value, now_unix())
}

/// [`create`] with `now` as the `change` stamp of the row it writes.
pub fn create_at(tree: &mut Snapshot, handle: String, name: &str, type_value: i32, now: i64) -> (r: Result<usize, RepoError>)
    requires
        old(tree).wf(),
    ensures
        repository_create_done(*old(tree), *final(tree), handle@, name@, type_value, r),
        r matches Ok(i) ==> final(tree).repositories@[i as int].change == now,
{
    let gramps_id = match next_gramps_id(&tree.repositories, 'R') {
        Some(id) => id,
        None => return Err(RepoError::IdsExhausted { class: ObjClass::Repository }),
    };
    let x = Repository {
        class: Some(String::from_str("Repository")),
        handle,
        gramps_id,
        change: now,
        private: false,
        name: String::from_str(name),
        type_: Typed { class: Some(String::from_str("RepositoryType")), value: type_value, string: String::new() },
        address_list: Vec::new(),
        urls: Vec::new(),
        note_list: Vec::new(),
        tag_list: Vec::new(),
    };
    let links = repo_outbound_refs(&x);
    let h = x.handle.clone();
    let r = insert_row(&mut tree.repositories, x, ObjClass::Repository);
    if r.is_ok() {
        rewrite_references(&mut tree.references, &h, ObjClass::Repository, &links);
    }
    r
}

/// What [`update`] does and when it is refused.
pub open spec fn repository_update_done(a: Snapshot, b: Snapshot, handle: Seq<char>, name: Seq<char>, type_value: i32, r: Result<(), RepoError>) -> bool {
    &&& b.wf()
    &&& only_changed(a, b, set![ObjClass::Repository])
    &&& match r {
        Ok(()) => find_key(a.repositories@, handle) matches Some(i) && {
            &&& b.repositories@ == a.repositories@.update(i, b.repositories@[i])
            &&& repository_updated(a.repositories@[i], b.repositories@[i], name, type_value)
            &&& forall|g: Seq<char>| #[trigger] refs_from(b.references@, g) == if g == handle {
                repository_refs(b.repositories@[i])
            } else {
                refs_from(a.references@, g)
            }
        },
        Err(e) => {
            &&& !has_key(a.repositories@, handle)
            &&& e matches RepoError::NotFound { .. }
            &&& b.repositories@ == a.repositories@
            &&& b.references@ == a.references@
        },
    }
}

/// Update the editable fields of an existing repository; every other field is
/// kept.
pub fn update(tree: &mut Snapshot, handle: &str, name: &str, type_value: i32) -> (r: Result<(), RepoError>)
    requires
        old(tree).wf(),
    ensures
        repository_update_done(*old(tree), *final(tree), handle@, name@, type_value, r),
{
    update_at(tree, handle, name, type_value, now_unix())
}

/// [`update`] with `now` as the `change` stamp of the row it writes.
pub fn update_at(tree: &mut Snapshot, handle: &str, name: &str, type_value: i32, now: i64) -> (r: Result<(), RepoError>)
    requires
        old(tree).wf(),
    ensures
        repository_update_done(*old(tree), *final(tree), handle@, name@, type_value, r),
        r is Ok ==> final(tree).repositories@[find_key(old(tree).repositories@, handle@)->0].change == now,
{
    let i = match find(&tree.repositories, handle) {
        Some(i) => i,
        None => {
            proof {
                lemma_find_key(tree.repositories@, handle@);
            }
            return Err(RepoError::NotFound { class: ObjClass::Repository, handle: String::from_str(handle) });
        },
    };
    let ghost before = tree.repositories@;
    let mut x = take_row(&mut tree.repositories, i);
    x.name = String::from_str(name);
    x.type_.value = type_value;
    x.type_.string = String::new();
    x.change = now;
    let links = repo_outbound_refs(&x);
    rewrite_references(&mut tree.references, &x.handle, ObjClass::Repository, &links);
    put_row(&mut tree.repositories, i, x, Ghost(before));
    Ok(())
}

/// What [`delete`] does and when it is refused.
pub open spec fn repository_delete_done(a: Snapshot, b: Snapshot, handle: Seq<char>, r: Result<(), RepoError>) -> bool {
    &&& b.wf()
    &&& only_changed(a, b, set![ObjClass::Repository])
    &&& match r {
        Ok(()) => {
            &&& inbound(a.references@, handle) == 0
            &&& find_key(a.repositories@, handle) matches Some(i)
                && b.repositories@ == a.repositories@.remove(i)
            &&& !has_key(b.repositories@, handle)
            &&& b.references@ == drop_obj(a.references@, handle)
        },
        Err(e) => {
            &&& b.repositories@ == a.repositories@
            &&& b.references@ == a.references@
            &&& match e {
                RepoError::StillReferenced { count, .. } => count == inbound(a.references@, handle) && count > 0,
                RepoError::NotFound { .. } => inbound(a.references@, handle) == 0 && !has_key(a.repositories@, handle),
                _ => false,
            }
        },
    }
}

/// Delete a repository. Refused while any object still references it; its own
/// outbound references go with it.
pub fn delete(tree: &mut Snapshot, handle: &str) -> (r: Result<(), RepoError>)
    requires
        old(tree).wf(),
    ensures
        repository_delete_done(*old(tree), *final(tree), handle@, r),
{
    delete_unused(&mut tree.repositories, &mut tree.references, handle, ObjClass::Repository, true)
}

} // verus!
