//! Tag: name, color and priority, no gramps id and no outbound references.
//! A tag can be deleted only once no object carries it in its `tag_list`.

use vstd::prelude::*;

use super::common::{delete_unused, insert_row, now_unix, RepoError};
use crate::db::keyed::{find, find_key, has_key, lemma_find_key, lemma_find_update, unique_keys};
use crate::db::refs::{inbound, ObjClass};
use crate::db::snapshot::{only_changed, Snapshot};
use crate::gramps::tag::Tag;

verus! {

/// `t` is the tag that `create` or `update` writes.
pub open spec fn tag_written(t: Tag, handle: Seq<char>, name: Seq<char>, color: Seq<char>, priority: i32) -> bool {
    &&& t.class matches Some(c) && c@ == "Tag"@
    &&& t.handle@ == handle
    &&& t.name@ == name
    &&& t.color@ == color
    &&& t.priority == priority
}

fn new_tag(handle: String, name: &str, color: &str, priority: i32, now: i64) -> (t: Tag)
    ensures
        tag_written(t, handle@, name@, color@, priority),
        t.change == now,
{
    Tag {
        class: Some(String::from_str("Tag")),
        handle,
        change: now,
        name: String::from_str(name),
        color: String::from_str(color),
        priority,
    }
}

/// What [`create`] does and when it is refused.
pub open spec fn tag_create_done(a: Snapshot, b: Snapshot, handle: Seq<char>, name: Seq<char>, color: Seq<char>, priority: i32, r: Result<usize, RepoError>) -> bool {
    &&& b.wf()
    &&& only_changed(a, b, set![ObjClass::Tag])
    &&& b.references@ == a.references@
    &&& match r {
        Ok(i) => {
            &&& !has_key(a.tags@, handle)
            &&& b.tags@.len() == a.tags@.len() + 1
            &&& i == a.tags@.len()
            &&& b.tags@.subrange(0, i as int) == a.tags@
            &&& tag_written(b.tags@[i as int], handle, name, color, priority)
            &&& find_key(b.tags@, handle) == Some(i as int)
        },
        Err(e) => {
            &&& has_key(a.tags@, handle)
            &&& e matches RepoError::HandleInUse { .. }
            &&& b.tags@ == a.tags@
        },
    }
}

/// Insert a new tag with the given (fresh) handle. Returns its position in
/// `tree.tags`.
pub fn create(tree: &mut Snapshot, handle: String, name: &str, color: &str, priority: i32) -> (r: Result<usize, RepoError>)
    requires
        old(tree).wf(),
    ensures
        tag_create_done(*old(tree), *final(tree), handle@, name@, color@, priority, r),
{
    create_at(tree, handle, name, color, priority, now_unix())
}

/// [`create`] with `now` as the `change` stamp of the row it writes.
pub fn create_at(tree: &mut Snapshot, handle: String, name: &str, color: &str, priority: i32, now: i64) -> (r: Result<usize, RepoError>)
    requires
        old(tree).wf(),
    ensures
        tag_create_done(*old(tree), *final(tree), handle@, name@, color@, priority, r),
        r matches Ok(i) ==> final(tree).tags@[i as int].change == now,
{
    proof {
        reveal_strlit("Tag");
    }
    let tag = new_tag(handle, name, color, priority, now);
    let r = insert_row(&mut tree.tags, tag, ObjClass::Tag);
    proof {
        if let Ok(i) = r {
            assert(tree.tags@.subrange(0, i as int) =~= old(tree).tags@);
        }
    }
    r
}

/// What [`update`] does and when it is refused.
pub open spec fn tag_update_done(a: Snapshot, b: Snapshot, handle: Seq<char>, name: Seq<char>, color: Seq<char>, priority: i32, r: Result<(), RepoError>) -> bool {
    &&& b.wf()
    &&& only_changed(a, b, set![ObjClass::Tag])
    &&& b.references@ == a.references@
    &&& match r {
        Ok(()) => find_key(a.tags@, handle) matches Some(i) && {
            &&& b.tags@.len() == a.tags@.len()
            &&& forall|j: int| 0 <= j < a.tags@.len() && j != i ==> b.tags@[j] == a.tags@[j]
            &&& tag_written(b.tags@[i], handle, name, color, priority)
        },
        Err(e) => {
            &&& !has_key(a.tags@, handle)
            &&& e matches RepoError::NotFound { .. }
            &&& b.tags@ == a.tags@
        },
    }
}

/// Replace name, color and priority of an existing tag.
pub fn update(tree: &mut Snapshot, handle: &str, name: &str, color: &str, priority: i32) -> (r: Result<(), RepoError>)
    requires
        old(tree).wf(),
    ensures
        tag_update_done(*old(tree), *final(tree), handle@, name@, color@, priority, r),
{
    update_at(tree, handle, name, color, priority, now_unix())
}

/// [`update`] with `now` as the `change` stamp of the row it writes.
pub fn update_at(tree: &mut Snapshot, handle: &str, name: &str, color: &str, priority: i32, now: i64) -> (r: Result<(), RepoError>)
    requires
        old(tree).wf(),
    ensures
        tag_update_done(*old(tree), *final(tree), handle@, name@, color@, priority, r),
        r is Ok ==> final(tree).tags@[find_key(old(tree).tags@, handle@)->0].change == now,
{
    proof {
        reveal_strlit("Tag");
    }
    match find(&tree.tags, handle) {
        None => {
            proof {
                lemma_find_key(tree.tags@, handle@);
            }
            Err(RepoError::NotFound { class: ObjClass::Tag, handle: String::from_str(handle) })
        },
        Some(i) => {
            let tag = new_tag(String::from_str(handle), name, color, priority, now);
            proof {
                lemma_find_update(tree.tags@, i as int, tag);
            }
            tree.tags.set(i, tag);
            Ok(())
        },
    }
}

/// What [`delete`] does and when it is refused.
pub open spec fn tag_delete_done(a: Snapshot, b: Snapshot, handle: Seq<char>, r: Result<(), RepoError>) -> bool {
    &&& b.wf()
    &&& only_changed(a, b, set![ObjClass::Tag])
    &&& b.references@ == a.references@
    &&& match r {
        Ok(()) => {
            &&& inbound(a.references@, handle) == 0
            &&& find_key(a.tags@, handle) matches Some(i)
                && b.tags@ == a.tags@.remove(i)
            &&& !has_key(b.tags@, handle)
        },
        Err(e) => {
            &&& b.tags@ == a.tags@
            &&& match e {
                RepoError::StillReferenced { count, .. } => count == inbound(a.references@, handle) && count > 0,
                RepoError::NotFound { .. } => inbound(a.references@, handle) == 0 && !has_key(a.tags@, handle),
                _ => false,
            }
        },
    }
}

/// Delete a tag. Refused while any object still carries it.
pub fn delete(tree: &mut Snapshot, handle: &str) -> (r: Result<(), RepoError>)
    requires
        old(tree).wf(),
    ensures
        tag_delete_done(*old(tree), *final(tree), handle@, r),
{
    delete_unused(&mut tree.tags, &mut tree.references, handle, ObjClass::Tag, false)
}

/// Deleting a tag just created gives back the tree as it was, unless rows
/// of the `reference` table already pointed at its handle, in which case
/// the delete is refused.
pub proof fn lemma_create_then_delete(
    a: Snapshot,
    b: Snapshot,
    c: Snapshot,
    handle: Seq<char>,
    name: Seq<char>,
    color: Seq<char>,
    priority: i32,
    i: usize,
    r: Result<(), RepoError>,
)
    requires
        tag_create_done(a, b, handle, name, color, priority, Ok(i)),
        tag_delete_done(b, c, handle, r),
    ensures
        r is Ok <==> inbound(a.references@, handle) == 0,
        r is Ok ==> c.tags@ == a.tags@ && c.references@ == a.references@ && only_changed(a, c, Set::empty()),
{
    if r is Ok {
        assert(b.tags@.remove(i as int) =~= a.tags@);
    } else {
        assert(has_key(b.tags@, handle)) by {
            lemma_find_key(b.tags@, handle);
        }
    }
}

} // verus!
