//! Place: places form a tree through `placeref_list`, whose first entry is the
//! enclosing place. Name, type, latitude, longitude and the enclosing place
//! are edited; alternate names, urls, citations, media, notes and tags are
//! kept. Deletion clears the links of enclosed places and of events.

use vstd::prelude::*;

use super::common::{
    delete_unused, gids, id_room, insert_row, next_gramps_id, next_id_spec, now_unix, put_row,
    take_row, RepoError,
};
use crate::db::keyed::{find, find_key, has_key, lemma_find_key};
use crate::db::refs::{drop_obj, inbound, links_of, links_view, opt_link, push_links, push_opt_link, refs_from, rewrite_references, Link, ObjClass};
use crate::db::snapshot::{only_changed, Snapshot};
use crate::db::keyed::{drop_links_to, keep_links, lemma_find_remove, lemma_keep_links, links_to, unique_keys, RefLink};
use crate::db::refs::remove_references;
use crate::db::repo::event;
use crate::gramps::common::Typed;
use crate::gramps::place::{Place, PlaceName, PlaceRef};
use crate::text::str_eq;

verus! {

/// The outbound references of a place: its enclosing places, media, citations, notes and tags.
pub open spec fn place_refs(x: Place) -> Seq<Link> {
    links_of(x.placeref_list@, ObjClass::Place) + links_of(x.media_list@, ObjClass::Media) + links_of(x.citation_list@, ObjClass::Citation) + links_of(x.note_list@, ObjClass::Note) + links_of(x.tag_list@, ObjClass::Tag)
}

/// The `(ref_handle, ref_class)` pairs a place contributes to the
/// `reference` table.
pub fn outbound_refs(x: &Place) -> (r: Vec<(String, ObjClass)>)
    ensures
        links_view(r@) == place_refs(*x),
{
    let mut out = Vec::new();
    push_links(&mut out, &x.placeref_list, ObjClass::Place);
    push_links(&mut out, &x.media_list, ObjClass::Media);
    push_links(&mut out, &x.citation_list, ObjClass::Citation);
    push_links(&mut out, &x.note_list, ObjClass::Note);
    push_links(&mut out, &x.tag_list, ObjClass::Tag);
    assert(links_view(out@) =~= place_refs(*x));
    out
}

/// The enclosing place a form asks for: the handle when it is set
/// (non-empty), else none.
pub open spec fn set_parent(parent_handle: Option<String>) -> Option<Seq<char>> {
    match parent_handle {
        Some(h) => if h@.len() > 0 {
            Some(h@)
        } else {
            None
        },
        None => None,
    }
}

fn set_parent_exec(parent_handle: Option<String>) -> (r: Option<String>)
    ensures
        match r {
            Some(h) => set_parent(parent_handle) == Some(h@),
            None => set_parent(parent_handle) is None,
        },
{
    match parent_handle {
        Some(h) => if h.as_str().is_empty() {
            None
        } else {
            Some(h)
        },
        None => None,
    }
}

/// `r` is the link to an enclosing place `h` that the forms write.
pub open spec fn is_parent_ref(r: PlaceRef, h: Seq<char>) -> bool {
    &&& r.class matches Some(c) && c@ == "PlaceRef"@
    &&& r.ref_@ == h
    &&& r.date is None
}

fn parent_ref(h: String) -> (r: PlaceRef)
    ensures
        is_parent_ref(r, h@),
{
    PlaceRef { class: Some(String::from_str("PlaceRef")), ref_: h, date: None }
}

/// `n` is the `placeref_list` `o` becomes when the form asks for the
/// enclosing place `parent_handle`: only the first (primary) entry is
/// replaced, added or removed; later entries (dated historical
/// hierarchies) are kept.
pub open spec fn parents_replaced(o: Seq<PlaceRef>, n: Seq<PlaceRef>, parent_handle: Option<String>) -> bool {
    if o.len() == 0 {
        match set_parent(parent_handle) {
            Some(h) => n.len() == 1 && is_parent_ref(n[0], h),
            None => n.len() == 0,
        }
    } else {
        match set_parent(parent_handle) {
            Some(h) => n.len() == o.len() && is_parent_ref(n[0], h) && forall|k: int| 1 <= k < o.len() ==> n[k] == o[k],
            None => n == o.remove(0),
        }
    }
}

fn replace_parent(list: Vec<PlaceRef>, parent_handle: Option<String>) -> (r: Vec<PlaceRef>)
    ensures
        parents_replaced(list@, r@, parent_handle),
{
    let mut list = list;
    let p = set_parent_exec(parent_handle);
    if list.len() == 0 {
        if let Some(h) = p {
            list.push(parent_ref(h));
        }
    } else {
        match p {
            Some(h) => {
                list.set(0, parent_ref(h));
            },
            None => {
                list.remove(0);
            },
        }
    }
    list
}

/// The place that encloses `x`: the target of its first `placeref_list`
/// entry (the `enclosed_by` column).
pub open spec fn enclosed_by(x: Place) -> Option<Seq<char>> {
    if x.placeref_list@.len() > 0 {
        Some(x.placeref_list@[0].ref_@)
    } else {
        None
    }
}

/// The `enclosed_by` column of a place row.
pub fn enclosed_by_column(x: &Place) -> (r: Option<&String>)
    ensures
        match r {
            Some(h) => enclosed_by(*x) == Some(h@),
            None => enclosed_by(*x) is None,
        },
{
    if x.placeref_list.len() > 0 {
        Some(&x.placeref_list[0].ref_)
    } else {
        None
    }
}

/// The `title` column of a place row: its title, or its name when the title
/// is empty.
pub fn title_column(x: &Place) -> (r: &String)
    ensures
        r@ == if x.title@.len() == 0 {
            x.name.value@
        } else {
            x.title@
        },
{
    if x.title.as_str().is_empty() {
        &x.name.value
    } else {
        &x.title
    }
}

/// `x` is the place `create` writes.
pub open spec fn place_created(x: Place, handle: Seq<char>, gid: Seq<char>, name: Seq<char>, type_value: i32, lat: Seq<char>, long: Seq<char>, parent_handle: Option<String>) -> bool {
    &&& x.class matches Some(c) && c@ == "Place"@
    &&& x.handle@ == handle
    &&& x.gramps_id@ == gid
    &&& !x.private
    &&& x.title@.len() == 0
    &&& x.long@ == long
    &&& x.lat@ == lat
    &&& x.code@.len() == 0
    &&& x.name.class matches Some(c) && c@ == "PlaceName"@
    &&& x.name.value@ == name
    &&& x.name.lang@.len() == 0
    &&& x.name.date is None
    &&& x.alt_names@.len() == 0
    &&& x.place_type.class matches Some(c) && c@ == "PlaceType"@
    &&& x.place_type.value == type_value
    &&& x.place_type.string@.len() == 0
    &&& x.alt_loc@.len() == 0
    &&& match set_parent(parent_handle) {
        Some(h) => x.placeref_list@.len() == 1 && is_parent_ref(x.placeref_list@[0], h),
        None => x.placeref_list@.len() == 0,
    }
    &&& x.urls@.len() == 0
    &&& x.media_list@.len() == 0
    &&& x.citation_list@.len() == 0
    &&& x.note_list@.len() == 0
    &&& x.tag_list@.len() == 0
}

/// `x` is `o` with the fields `update` writes, all else kept.
pub open spec fn place_updated(o: Place, x: Place, name: Seq<char>, type_value: i32, lat: Seq<char>, long: Seq<char>, parent_handle: Option<String>) -> bool {
    &&& x.class == o.class
    &&& x.handle == o.handle
    &&& x.gramps_id == o.gramps_id
    &&& x.private == o.private
    &&& x.title == o.title
    &&& x.long@ == long
    &&& x.lat@ == lat
    &&& x.code == o.code
    &&& x.name.class == o.name.class
    &&& x.name.value@ == name
    &&& x.name.lang == o.name.lang
    &&& x.name.date == o.name.date
    &&& x.alt_names == o.alt_names
    &&& x.place_type.class == o.place_type.class
    &&& x.place_type.value == type_value
    &&& x.place_type.string@.len() == 0
    &&& x.alt_loc == o.alt_loc
    &&& parents_replaced(o.placeref_list@, x.placeref_list@, parent_handle)
    &&& x.urls == o.urls
    &&& x.media_list == o.media_list
    &&& x.citation_list == o.citation_list
    &&& x.note_list == o.note_list
    &&& x.tag_list == o.tag_list
}

/// What [`create`] does and when it is refused.
pub open spec fn place_create_done(a: Snapshot, b: Snapshot, handle: Seq<char>, name: Seq<char>, type_value: i32, lat: Seq<char>, long: Seq<char>, parent_handle: Option<String>, r: Result<usize, RepoError>) -> bool {
    &&& b.wf()
    &&& only_changed(a, b, set![ObjClass::Place])
    &&& match r {
        Ok(i) => {
            &&& id_room(gids(a.places@), 'P')
            &&& !has_key(a.places@, handle)
            &&& i == a.places@.len()
            &&& b.places@ == a.places@.push(b.places@[i as int])
            &&& place_created(b.places@[i as int], handle, next_id_spec(gids(a.places@), 'P'), name, type_value, lat, long, parent_handle)
            &&& find_key(b.places@, handle) == Some(i as int)
            &&& forall|g: Seq<char>| #[trigger] refs_from(b.references@, g) == if g == handle {
                place_refs(b.places@[i as int])
            } else {
                refs_from(a.references@, g)
            }
        },
        Err(e) => {
            &&& b.places@ == a.places@
            &&& b.references@ == a.references@
            &&& match e {
                RepoError::IdsExhausted { .. } => !id_room(gids(a.places@), 'P'),
                RepoError::HandleInUse { .. } => id_room(gids(a.places@), 'P') && has_key(a.places@, handle),
                _ => false,
            }
        },
    }
}

/// Create a new place under the given (fresh) handle, with the next
/// gramps id `PNNNN`.
pub fn create(tree: &mut Snapshot, handle: String, name: &str, type_value: i32, lat: &str, long: &str, parent_handle: Option<String>) -> (r: Result<usize, RepoError>)
    requires
        old(tree).wf(),
    ensures
        place_create_done(*old(tree), *final(tree), handle@, name@, type_value, lat@, long@, parent_handle, r),
{
    create_at(tree, handle, name, type_value, lat, long, parent_handle, now_unix())
}

/// [`create`] with `now` as the `change` stamp of the row it writes.
pub fn create_at(tree: &mut Snapshot, handle: String, name: &str, type_value: i32, lat: &str, long: &str, parent_handle: Option<String>, now: i64) -> (r: Result<usize, RepoError>)
    requires
        old(tree).wf(),
    ensures
        place_create_done(*old(tree), *final(tree), handle@, name@, type_value, lat@, long@, parent_handle, r),
        r matches Ok(i) ==> final(tree).places@[i as int].change == now,
{
    let gramps_id = match next_gramps_id(&tree.places, 'P') {
        Some(id) => id,
        None => return Err(RepoError::IdsExhausted { class: ObjClass::Place }),
    };
    let refs = match set_parent_exec(parent_handle) {
        Some(h) => {
            let mut v = Vec::new();
            v.push(parent_ref(h));
            v
        },
        None => Vec::new(),
    };
    let x = Place {
        class: Some(String::from_str("Place")),
        handle,
        gramps_id,
        change: now,
        private: false,
        title: String::new(),
        long: String::from_str(long),
        lat: String::from_str(lat),
        code: String::new(),
        name: PlaceName { class: Some(String::from_str("PlaceName")), value: String::from_str(name), lang: String::new(), date: None },
        alt_names: Vec::new(),
        place_type: Typed { class: Some(String::from_str("PlaceType")), value: type_value, string: String::new() },
        alt_loc: Vec::new(),
        placeref_list: refs,
        urls: Vec::new(),
        media_list: Vec::new(),
        citation_list: Vec::new(),
        note_list: Vec::new(),
        tag_list: Vec::new(),
    };
    let links = outbound_refs(&x);
    let h = x.handle.clone();
    let r = insert_row(&mut tree.places, x, ObjClass::Place);
    if r.is_ok() {
        rewrite_references(&mut tree.references, &h, ObjClass::Place, &links);
    }
    r
}

/// What [`update`] does and when it is refused.
pub open spec fn place_update_done(a: Snapshot, b: Snapshot, handle: Seq<char>, name: Seq<char>, type_value: i32, lat: Seq<char>, long: Seq<char>, parent_handle: Option<String>, r: Result<(), RepoError>) -> bool {
    &&& b.wf()
    &&& only_changed(a, b, set![ObjClass::Place])
    &&& match r {
        Ok(()) => find_key(a.places@, handle) matches Some(i) && {
            &&& b.places@ == a.places@.update(i, b.places@[i])
            &&& place_updated(a.places@[i], b.places@[i], name, type_value, lat, long, parent_handle)
            &&& forall|g: Seq<char>| #[trigger] refs_from(b.references@, g) == if g == handle {
                place_refs(b.places@[i])
            } else {
                refs_from(a.references@, g)
            }
        },
        Err(e) => {
            &&& !has_key(a.places@, handle)
            &&& e matches RepoError::NotFound { .. }
            &&& b.places@ == a.places@
            &&& b.references@ == a.references@
        },
    }
}

/// Update the editable fields of an existing place; every other field is
/// kept.
pub fn update(tree: &mut Snapshot, handle: &str, name: &str, type_value: i32, lat: &str, long: &str, parent_handle: Option<String>) -> (r: Result<(), RepoError>)
    requires
        old(tree).wf(),
    ensures
        place_update_done(*old(tree), *final(tree), handle@, name@, type_value, lat@, long@, parent_handle, r),
{
    update_at(tree, handle, name, type_value, lat, long, parent_handle, now_unix())
}

/// [`update`] with `now` as the `change` stamp of the row it writes.
pub fn update_at(tree: &mut Snapshot, handle: &str, name: &str, type_value: i32, lat: &str, long: &str, parent_handle: Option<String>, now: i64) -> (r: Result<(), RepoError>)
    requires
        old(tree).wf(),
    ensures
        place_update_done(*old(tree), *final(tree), handle@, name@, type_value, lat@, long@, parent_handle, r),
        r is Ok ==> final(tree).places@[find_key(old(tree).places@, handle@)->0].change == now,
{
    let i = match find(&tree.places, handle) {
        Some(i) => i,
        None => {
            proof {
                lemma_find_key(tree.places@, handle@);
            }
            return Err(RepoError::NotFound { class: ObjClass::Place, handle: String::from_str(handle) });
        },
    };
    let ghost before = tree.places@;
    let mut x = take_row(&mut tree.places, i);
    x.name.value = String::from_str(name);
    x.place_type.value = type_value;
    x.place_type.string = String::new();
    x.lat = String::from_str(lat);
    x.long = String::from_str(long);
    let list = x.placeref_list;
    x.placeref_list = replace_parent(list, parent_handle);
    x.change = now;
    let links = outbound_refs(&x);
    rewrite_references(&mut tree.references, &x.handle, ObjClass::Place, &links);
    put_row(&mut tree.places, i, x, Ghost(before));
    Ok(())
}

/// Delete a place without cascading. Refused while any object still
/// references it; its own outbound references go with it.
pub fn delete_unlinked(tree: &mut Snapshot, handle: &str) -> (r: Result<(), RepoError>)
    requires
        old(tree).wf(),
    ensures
        final(tree).wf(),
        only_changed(*old(tree), *final(tree), set![ObjClass::Place]),
        match r {
            Ok(()) => {
                &&& inbound(old(tree).references@, handle@) == 0
                &&& find_key(old(tree).places@, handle@) matches Some(i)
                    && final(tree).places@ == old(tree).places@.remove(i)
                &&& !has_key(final(tree).places@, handle@)
                &&& final(tree).references@ == drop_obj(old(tree).references@, handle@)
            },
            Err(e) => {
                &&& final(tree).places@ == old(tree).places@
                &&& final(tree).references@ == old(tree).references@
                &&& match e {
                    RepoError::StillReferenced { count, .. } => count == inbound(old(tree).references@, handle@) && count > 0,
                    RepoError::NotFound { .. } => inbound(old(tree).references@, handle@) == 0 && !has_key(old(tree).places@, handle@),
                    _ => false,
                }
            },
        },
{
    delete_unused(&mut tree.places, &mut tree.references, handle, ObjClass::Place, true)
}

/// `n` is what the delete cascade of place `h` makes of place `o`: a place
/// enclosed by `h` loses every link to `h`; any other place stays as it is.
pub open spec fn place_unlinked(o: Place, n: Place, h: Seq<char>) -> bool {
    if enclosed_by(o) == Some(h) {
        &&& n.placeref_list@ == keep_links(o.placeref_list@, h)
        &&& n.class == o.class
        &&& n.handle == o.handle
        &&& n.gramps_id == o.gramps_id
        &&& n.private == o.private
        &&& n.title == o.title
        &&& n.long == o.long
        &&& n.lat == o.lat
        &&& n.code == o.code
        &&& n.name == o.name
        &&& n.alt_names == o.alt_names
        &&& n.place_type == o.place_type
        &&& n.alt_loc == o.alt_loc
        &&& n.urls == o.urls
        &&& n.media_list == o.media_list
        &&& n.citation_list == o.citation_list
        &&& n.note_list == o.note_list
        &&& n.tag_list == o.tag_list
    } else {
        n == o
    }
}

/// What [`delete_with_cascade`] does and when it is refused.
pub open spec fn place_delete_done(a: Snapshot, b: Snapshot, handle: Seq<char>, r: Result<(), RepoError>) -> bool {
    &&& b.wf()
    &&& only_changed(a, b, set![ObjClass::Place, ObjClass::Event])
    &&& match r {
        Ok(()) => find_key(a.places@, handle) matches Some(i) && {
            &&& exists|mid: Seq<Place>| {
                &&& mid.len() == a.places@.len()
                &&& forall|j: int| 0 <= j < mid.len() ==> place_unlinked(a.places@[j], #[trigger] mid[j], handle)
                &&& b.places@ == mid.remove(i)
            }
            &&& b.events@.len() == a.events@.len()
            &&& forall|j: int| 0 <= j < a.events@.len() ==> if (#[trigger] a.events@[j]).place@ == handle {
                &&& b.events@[j].place@.len() == 0
                &&& event::event_keeps(a.events@[j], b.events@[j])
                &&& b.events@[j].date == a.events@[j].date
            } else {
                b.events@[j] == a.events@[j]
            }
            &&& !has_key(b.places@, handle)
            &&& forall|j: int| 0 <= j < b.places@.len() ==> enclosed_by(#[trigger] b.places@[j]) != Some(handle)
            &&& forall|j: int| 0 <= j < b.events@.len() && handle.len() > 0 ==> (#[trigger] b.events@[j]).place@ != handle
            &&& refs_from(b.references@, handle) == Seq::<Link>::empty()
        },
        Err(e) => {
            &&& !has_key(a.places@, handle)
            &&& e matches RepoError::NotFound { .. }
            &&& b.places@ == a.places@
            &&& b.events@ == a.events@
            &&& b.references@ == a.references@
        },
    }
}

/// Delete a place with cascade: every place it encloses loses its link to
/// it, every event at it loses its place, then the place row and its own
/// outbound references go. Enclosed places and events stay.
pub fn delete_with_cascade(tree: &mut Snapshot, handle: &str) -> (r: Result<(), RepoError>)
    requires
        old(tree).wf(),
    ensures
        place_delete_done(*old(tree), *final(tree), handle@, r),
{
    let i = match find(&tree.places, handle) {
        Some(i) => i,
        None => {
            proof {
                lemma_find_key(tree.places@, handle@);
            }
            return Err(RepoError::NotFound { class: ObjClass::Place, handle: String::from_str(handle) });
        },
    };
    let ghost old_places = tree.places@;
    let ghost old_events = tree.events@;
    // 1. Places enclosed by this one lose their link to it.
    let n = tree.places.len();
    let mut k: usize = 0;
    while k < n
        invariant
            n == old_places.len(),
            tree.places@.len() == n,
            k <= n,
            i < n,
            old_places[i as int].handle@ == handle@,
            find_key(old_places, handle@) == Some(i as int),
            tree.events@ == old_events,
            unique_keys(old_places),
            only_changed(*old(tree), *tree, set![ObjClass::Place, ObjClass::Event]),
            forall|j: int| 0 <= j < k ==> place_unlinked(old_places[j], #[trigger] tree.places@[j], handle@),
            forall|j: int| k <= j < n ==> #[trigger] tree.places@[j] == old_places[j],
            forall|h: Seq<char>| #[trigger] find_key(tree.places@, h) == find_key(old_places, h),
            unique_keys(tree.places@),
            tree.wf(),
        decreases n - k,
    {
        let enclosed = tree.places[k].placeref_list.len() > 0 && str_eq(
            tree.places[k].placeref_list[0].ref_.as_str(),
            handle,
        );
        if enclosed {
            let ghost before = tree.places@;
            let mut x = take_row(&mut tree.places, k);
            let list = x.placeref_list;
            x.placeref_list = drop_links_to(list, handle);
            x.change = now_unix();
            let links = outbound_refs(&x);
            rewrite_references(&mut tree.references, &x.handle, ObjClass::Place, &links);
            put_row(&mut tree.places, k, x, Ghost(before));
            assert forall|h: Seq<char>| #[trigger] find_key(tree.places@, h) == find_key(old_places, h) by {
                assert(find_key(tree.places@, h) == find_key(before, h));
            }
        }
        k = k + 1;
    }
    // 2. Events at this place lose their place.
    let m = tree.events.len();
    let mut k: usize = 0;
    while k < m
        invariant
            m == old_events.len(),
            tree.events@.len() == m,
            k <= m,
            tree.wf(),
            only_changed(*old(tree), *tree, set![ObjClass::Place, ObjClass::Event]),
            forall|j: int| 0 <= j < tree.places@.len() ==> place_unlinked(old_places[j], #[trigger] tree.places@[j], handle@),
            tree.places@.len() == old_places.len(),
            forall|h: Seq<char>| #[trigger] find_key(tree.places@, h) == find_key(old_places, h),
            find_key(old_places, handle@) == Some(i as int),
            forall|j: int| 0 <= j < k ==> if (#[trigger] old_events[j]).place@ == handle@ {
                &&& tree.events@[j].place@.len() == 0
                &&& event::event_keeps(old_events[j], tree.events@[j])
                &&& tree.events@[j].date == old_events[j].date
            } else {
                tree.events@[j] == old_events[j]
            },
            forall|j: int| k <= j < m ==> #[trigger] tree.events@[j] == old_events[j],
            unique_keys(old_events),
        decreases m - k,
    {
        if str_eq(tree.events[k].place.as_str(), handle) {
            let ghost before = tree.events@;
            proof {
                lemma_find_key(tree.events@, tree.events@[k as int].handle@);
            }
            let eh = tree.events[k].handle.clone();
            assert(find_key(before, eh@) == Some(k as int));
            event::clear_place(tree, eh.as_str());
            assert(tree.events@[k as int].place@.len() == 0);
            assert forall|j: int| 0 <= j < m && j != k implies #[trigger] tree.events@[j] == before[j] by {}
        }
        k = k + 1;
    }
    // 3. The place row and its own outbound references.
    let ghost mid = tree.places@;
    proof {
        lemma_find_key(tree.places@, handle@);
        lemma_find_remove(tree.places@, i as int);
    }
    tree.places.remove(i);
    let ghost cur_refs = tree.references@;
    remove_references(&mut tree.references, handle);
    proof {
        crate::db::refs::lemma_drop_obj(cur_refs, handle@, handle@);
        assert(tree.places@ == mid.remove(i as int));
        assert(mid.len() == old_places.len());
        assert(forall|j: int| 0 <= j < mid.len() ==> place_unlinked(old_places[j], #[trigger] mid[j], handle@));
        assert forall|j: int| 0 <= j < tree.places@.len() implies enclosed_by(#[trigger] tree.places@[j]) != Some(handle@) by {
            let j2 = if j < i { j } else { j + 1 };
            assert(tree.places@[j] == mid[j2]);
            lemma_keep_links(old_places[j2].placeref_list@, handle@);
            if enclosed_by(old_places[j2]) == Some(handle@) {
                if mid[j2].placeref_list@.len() > 0 {
                    assert(mid[j2].placeref_list@[0].target() == mid[j2].placeref_list@[0].ref_@);
                }
            }
        }
    }
    assert(find_key(old(tree).places@, handle@) == Some(i as int));
    assert(tree.events@.len() == old(tree).events@.len());
    assert(!has_key(tree.places@, handle@));
    assert forall|j: int| 0 <= j < tree.events@.len() && handle@.len() > 0 implies (#[trigger] tree.events@[j]).place@ != handle@ by {
        let o = old_events[j];
    }
    assert(refs_from(tree.references@, handle@) == Seq::<Link>::empty());
    Ok(())
}

} // verus!
