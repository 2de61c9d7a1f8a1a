//! Event: a typed happening with an optional date and place. Person birth and
//! death years are year-only events. Deletion is refused while any person
//! or family still links the event.

use vstd::prelude::*;

use super::common::{
    delete_unused, gids, id_room, insert_row, next_gramps_id, next_id_spec, now_unix, put_row,
    take_row, RepoError,
};
use crate::db::keyed::{find, find_key, has_key, lemma_find_key};
use crate::db::refs::{drop_obj, inbound, links_of, links_view, opt_link, push_links, push_opt_link, refs_from, rewrite_references, Link, ObjClass};
use crate::db::snapshot::{only_changed, Snapshot};
use crate::gramps::common::Typed;
use crate::gramps::date::{Date, DateVal};
use crate::gramps::event::Event;

verus! {

/// The outbound references of a event: its place (when set), citations, notes, media and tags.
pub open spec fn event_refs(x: Event) -> Seq<Link> {
    opt_link(x.place@, ObjClass::Place) + links_of(x.citation_list@, ObjClass::Citation) + links_of(x.note_list@, ObjClass::Note) + links_of(x.media_list@, ObjClass::Media) + links_of(x.tag_list@, ObjClass::Tag)
}

/// The `(ref_handle, ref_class)` pairs a event contributes to the
/// `reference` table.
pub fn outbound_refs(x: &Event) -> (r: Vec<(String, ObjClass)>)
    ensures
        links_view(r@) == event_refs(*x),
{
    let mut out = Vec::new();
    push_opt_link(&mut out, &x.place, ObjClass::Place);
    push_links(&mut out, &x.citation_list, ObjClass::Citation);
    push_links(&mut out, &x.note_list, ObjClass::Note);
    push_links(&mut out, &x.media_list, ObjClass::Media);
    push_links(&mut out, &x.tag_list, ObjClass::Tag);
    assert(links_view(out@) =~= event_refs(*x));
    out
}

/// The place handle of an event written with `place_handle`: the handle,
/// or empty when there is none.
pub open spec fn place_or_empty(place_handle: Option<String>) -> Seq<char> {
    match place_handle {
        Some(p) => p@,
        None => Seq::empty(),
    }
}

/// `d` is the date that carries just a year: `dateval = [0, 0, year, false]`,
/// sort value 0, no modifier, no quality, Gregorian.
pub open spec fn is_year_only_date(d: Date, year: i32) -> bool {
    &&& d.class matches Some(c) && c@ == "Date"@
    &&& d.calendar == 0
    &&& d.modifier == 0
    &&& d.quality == 0
    &&& d.dateval == Some(DateVal::Simple(0, 0, year, false))
    &&& d.text@.len() == 0
    &&& d.sortval == 0
    &&& d.newyear == 0
    &&& d.format is None
    &&& d.year == Some(year)
}

/// Build a Gramps Date carrying just a year and nothing else.
pub fn year_only_date(year: i32) -> (d: Date)
    ensures
        is_year_only_date(d, year),
{
    Date {
        class: Some(String::from_str("Date")),
        calendar: 0,
        modifier: 0,
        quality: 0,
        dateval: Some(DateVal::Simple(0, 0, year, false)),
        text: String::new(),
        sortval: 0,
        newyear: 0,
        format: None,
        year: Some(year),
    }
}

/// A year-only date gives its year back as its primary year, and is empty
/// exactly when the year is 0.
pub proof fn lemma_year_only_date(d: Date, year: i32)
    requires
        is_year_only_date(d, year),
    ensures
        crate::gramps::date::date_primary_year(d) == year,
        crate::gramps::date::date_is_empty(d) <==> year == 0,
{
}

/// `x` keeps every field of `o` but place, date and the change stamp.
pub open spec fn event_keeps(o: Event, x: Event) -> bool {
    &&& x.class == o.class
    &&& x.handle == o.handle
    &&& x.gramps_id == o.gramps_id
    &&& x.private == o.private
    &&& x.type_ == o.type_
    &&& x.description == o.description
    &&& x.citation_list == o.citation_list
    &&& x.note_list == o.note_list
    &&& x.media_list == o.media_list
    &&& x.attribute_list == o.attribute_list
    &&& x.tag_list == o.tag_list
}

/// `x` is the event `create` writes.
pub open spec fn event_created(x: Event, handle: Seq<char>, gid: Seq<char>, type_value: i32, description: Seq<char>, place_handle: Option<String>, date: Option<Date>) -> bool {
    &&& x.class matches Some(c) && c@ == "Event"@
    &&& x.handle@ == handle
    &&& x.gramps_id@ == gid
    &&& !x.private
    &&& x.type_.class matches Some(c) && c@ == "EventType"@
    &&& x.type_.value == type_value
    &&& x.type_.string@.len() == 0
    &&& x.description@ == description
    &&& x.place@ == place_or_empty(place_handle)
    &&& x.date == date
    &&& x.citation_list@.len() == 0
    &&& x.note_list@.len() == 0
    &&& x.media_list@.len() == 0
    &&& x.attribute_list@.len() == 0
    &&& x.tag_list@.len() == 0
}

/// `x` is `o` with the fields `update` writes, all else kept.
pub open spec fn event_updated(o: Event, x: Event, type_value: i32, description: Seq<char>, place_handle: Option<String>, date: Option<Date>) -> bool {
    &&& x.class == o.class
    &&& x.handle == o.handle
    &&& x.gramps_id == o.gramps_id
    &&& x.private == o.private
    &&& x.type_.class == o.type_.class
    &&& x.type_.value == type_value
    &&& x.type_.string@.len() == 0
    &&& x.description@ == description
    &&& x.place@ == place_or_empty(place_handle)
    &&& x.date == date
    &&& x.citation_list == o.citation_list
    &&& x.note_list == o.note_list
    &&& x.media_list == o.media_list
    &&& x.attribute_list == o.attribute_list
    &&& x.tag_list == o.tag_list
}

/// What [`create_full`] does and when it is refused.
pub open spec fn event_create_done(a: Snapshot, b: Snapshot, handle: Seq<char>, type_value: i32, description: Seq<char>, place_handle: Option<String>, date: Option<Date>, r: Result<usize, RepoError>) -> bool {
    &&& b.wf()
    &&& only_changed(a, b, set![ObjClass::Event])
    &&& match r {
        Ok(i) => {
            &&& id_room(gids(a.events@), 'E')
            &&& !has_key(a.events@, handle)
            &&& i == a.events@.len()
            &&& b.events@ == a.events@.push(b.events@[i as int])
            &&& event_created(b.events@[i as int], handle, next_id_spec(gids(a.events@), 'E'), type_value, description, place_handle, date)
            &&& find_key(b.events@, handle) == Some(i as int)
            &&& forall|g: Seq<char>| #[trigger] refs_from(b.references@, g) == if g == handle {
                event_refs(b.events@[i as int])
            } else {
                refs_from(a.references@, g)
            }
        },
        Err(e) => {
            &&& b.events@ == a.events@
            &&& b.references@ == a.references@
            &&& match e {
                RepoError::IdsExhausted { .. } => !id_room(gids(a.events@), 'E'),
                RepoError::HandleInUse { .. } => id_room(gids(a.events@), 'E') && has_key(a.events@, handle),
                _ => false,
            }
        },
    }
}

/// Create an event with type, description, optional place handle and
/// optional full date, under the given (fresh) handle, with the next
/// gramps id `ENNNN`.
pub fn create_full(tree: &mut Snapshot, handle: String, type_value: i32, description: &str, place_handle: Option<String>, date: Option<Date>) -> (r: Result<usize, RepoError>)
    requires
        old(tree).wf(),
    ensures
        event_create_done(*old(tree), *final(tree), handle@, type_value, description@, place_handle, date, r),
{
    create_full_at(tree, handle, type_value, description, place_handle, date, now_unix())
}

/// [`create_full`] with `now` as the `change` stamp of the row it writes.
pub fn create_full_at(tree: &mut Snapshot, handle: String, type_value: i32, description: &str, place_handle: Option<String>, date: Option<Date>, now: i64) -> (r: Result<usize, RepoError>)
    requires
        old(tree).wf(),
    ensures
        event_create_done(*old(tree), *final(tree), handle@, type_value, description@, place_handle, date, r),
        r matches Ok(i) ==> final(tree).events@[i as int].change == now,
{
    let gramps_id = match next_gramps_id(&tree.events, 'E') {
        Some(id) => id,
        None => return Err(RepoError::IdsExhausted { class: ObjClass::Event }),
    };
    let x = Event {
        class: Some(String::from_str("Event")),
        handle,
        gramps_id,
        change: now,
        private: false,
        type_: Typed { class: Some(String::from_str("EventType")), value: type_value, string: String::new() },
        description: String::from_str(description),
        place: match place_handle {
            Some(p) => p,
            None => String::new(),
        },
        date,
        citation_list: Vec::new(),
        note_list: Vec::new(),
        media_list: Vec::new(),
        attribute_list: Vec::new(),
        tag_list: Vec::new(),
    };
    let links = outbound_refs(&x);
    let h = x.handle.clone();
    let r = insert_row(&mut tree.events, x, ObjClass::Event);
    if r.is_ok() {
        rewrite_references(&mut tree.references, &h, ObjClass::Event, &links);
    }
    r
}

/// What [`update_full`] does and when it is refused.
pub open spec fn event_update_done(a: Snapshot, b: Snapshot, handle: Seq<char>, type_value: i32, description: Seq<char>, place_handle: Option<String>, date: Option<Date>, r: Result<(), RepoError>) -> bool {
    &&& b.wf()
    &&& only_changed(a, b, set![ObjClass::Event])
    &&& match r {
        Ok(()) => find_key(a.events@, handle) matches Some(i) && {
            &&& b.events@ == a.events@.update(i, b.events@[i])
            &&& event_updated(a.events@[i], b.events@[i], type_value, description, place_handle, date)
            &&& forall|g: Seq<char>| #[trigger] refs_from(b.references@, g) == if g == handle {
                event_refs(b.events@[i])
            } else {
                refs_from(a.references@, g)
            }
        },
        Err(e) => {
            &&& !has_key(a.events@, handle)
            &&& e matches RepoError::NotFound { .. }
            &&& b.events@ == a.events@
            &&& b.references@ == a.references@
        },
    }
}

/// Update the editable fields of an existing event; every other field is
/// kept.
pub fn update_full(tree: &mut Snapshot, handle: &str, type_value: i32, description: &str, place_handle: Option<String>, date: Option<Date>) -> (r: Result<(), RepoError>)
    requires
        old(tree).wf(),
    ensures
        event_update_done(*old(tree), *final(tree), handle@, type_value, description@, place_handle, date, r),
{
    update_full_at(tree, handle, type_value, description, place_handle, date, now_unix())
}

/// [`update_full`] with `now` as the `change` stamp of the row it writes.
pub fn update_full_at(tree: &mut Snapshot, handle: &str, type_value: i32, description: &str, place_handle: Option<String>, date: Option<Date>, now: i64) -> (r: Result<(), RepoError>)
    requires
        old(tree).wf(),
    ensures
        event_update_done(*old(tree), *final(tree), handle@, type_value, description@, place_handle, date, r),
        r is Ok ==> final(tree).events@[find_key(old(tree).events@, handle@)->0].change == now,
{
    let i = match find(&tree.events, handle) {
        Some(i) => i,
        None => {
            proof {
                lemma_find_key(tree.events@, handle@);
            }
            return Err(RepoError::NotFound { class: ObjClass::Event, handle: String::from_str(handle) });
        },
    };
    let ghost before = tree.events@;
    let mut x = take_row(&mut tree.events, i);
    x.type_.value = type_value;
    x.type_.string = String::new();
    x.description = String::from_str(description);
    x.place = match place_handle {
        Some(p) => p,
        None => String::new(),
    };
    x.date = date;
    x.change = now;
    let links = outbound_refs(&x);
    rewrite_references(&mut tree.references, &x.handle, ObjClass::Event, &links);
    put_row(&mut tree.events, i, x, Ghost(before));
    Ok(())
}

/// What [`delete`] does and when it is refused.
pub open spec fn event_delete_done(a: Snapshot, b: Snapshot, handle: Seq<char>, r: Result<(), RepoError>) -> bool {
    &&& b.wf()
    &&& only_changed(a, b, set![ObjClass::Event])
    &&& match r {
        Ok(()) => {
            &&& inbound(a.references@, handle) == 0
            &&& find_key(a.events@, handle) matches Some(i)
                && b.events@ == a.events@.remove(i)
            &&& !has_key(b.events@, handle)
            &&& b.references@ == drop_obj(a.references@, handle)
        },
        Err(e) => {
            &&& b.events@ == a.events@
            &&& b.references@ == a.references@
            &&& match e {
                RepoError::StillReferenced { count, .. } => count == inbound(a.references@, handle) && count > 0,
                RepoError::NotFound { .. } => inbound(a.references@, handle) == 0 && !has_key(a.events@, handle),
                _ => false,
            }
        },
    }
}

/// Delete a event. Refused while any object still references it; its own
/// outbound references go with it.
pub fn delete(tree: &mut Snapshot, handle: &str) -> (r: Result<(), RepoError>)
    requires
        old(tree).wf(),
    ensures
        event_delete_done(*old(tree), *final(tree), handle@, r),
{
    delete_unused(&mut tree.events, &mut tree.references, handle, ObjClass::Event, true)
}

/// Create a date-only event of the given type and year, under the given
/// (fresh) handle.
pub fn create_date_only(tree: &mut Snapshot, handle: String, type_value: i32, year: i32) -> (r: Result<usize, RepoError>)
    requires
        old(tree).wf(),
    ensures
        final(tree).wf(),
        only_changed(*old(tree), *final(tree), set![ObjClass::Event]),
        match r {
            Ok(i) => {
                &&& id_room(gids(old(tree).events@), 'E')
                &&& !has_key(old(tree).events@, handle@)
                &&& i == old(tree).events@.len()
                &&& final(tree).events@ == old(tree).events@.push(final(tree).events@[i as int])
                &&& event_created(final(tree).events@[i as int], handle@, next_id_spec(gids(old(tree).events@), 'E'), type_value, Seq::empty(), None, final(tree).events@[i as int].date)
                &&& final(tree).events@[i as int].date matches Some(d) && is_year_only_date(d, year)
                &&& find_key(final(tree).events@, handle@) == Some(i as int)
                &&& forall|g: Seq<char>| #[trigger] refs_from(final(tree).references@, g) == if g == handle@ {
                    Seq::<Link>::empty()
                } else {
                    refs_from(old(tree).references@, g)
                }
            },
            Err(e) => {
                &&& final(tree).events@ == old(tree).events@
                &&& final(tree).references@ == old(tree).references@
                &&& match e {
                    RepoError::IdsExhausted { .. } => !id_room(gids(old(tree).events@), 'E'),
                    RepoError::HandleInUse { .. } => id_room(gids(old(tree).events@), 'E') && has_key(old(tree).events@, handle@),
                    _ => false,
                }
            },
        },
{
    create_date_only_at(tree, handle, type_value, year, now_unix())
}

/// [`create_date_only`] with `now` as the `change` stamp of the row it writes.
pub fn create_date_only_at(tree: &mut Snapshot, handle: String, type_value: i32, year: i32, now: i64) -> (r: Result<usize, RepoError>)
    requires
        old(tree).wf(),
    ensures
        final(tree).wf(),
        only_changed(*old(tree), *final(tree), set![ObjClass::Event]),
        match r {
            Ok(i) => {
                &&& id_room(gids(old(tree).events@), 'E')
                &&& !has_key(old(tree).events@, handle@)
                &&& i == old(tree).events@.len()
                &&& final(tree).events@ == old(tree).events@.push(final(tree).events@[i as int])
                &&& event_created(final(tree).events@[i as int], handle@, next_id_spec(gids(old(tree).events@), 'E'), type_value, Seq::empty(), None, final(tree).events@[i as int].date)
                &&& final(tree).events@[i as int].date matches Some(d) && is_year_only_date(d, year)
                &&& find_key(final(tree).events@, handle@) == Some(i as int)
                &&& forall|g: Seq<char>| #[trigger] refs_from(final(tree).references@, g) == if g == handle@ {
                    Seq::<Link>::empty()
                } else {
                    refs_from(old(tree).references@, g)
                }
            },
            Err(e) => {
                &&& final(tree).events@ == old(tree).events@
                &&& final(tree).references@ == old(tree).references@
                &&& match e {
                    RepoError::IdsExhausted { .. } => !id_room(gids(old(tree).events@), 'E'),
                    RepoError::HandleInUse { .. } => id_room(gids(old(tree).events@), 'E') && has_key(old(tree).events@, handle@),
                    _ => false,
                }
            },
        },
        r matches Ok(i) ==> final(tree).events@[i as int].change == now,
{
    let d = year_only_date(year);
    let empty = String::new();
    let r = create_full_at(tree, handle, type_value, empty.as_str(), None, Some(d), now);
    proof {
        if let Ok(i) = r {
            assert(event_refs(tree.events@[i as int]) =~= Seq::<Link>::empty());
        }
    }
    r
}

/// Set just the date of an existing event to a year-only date; year 0
/// clears the date. Every other field is kept.
pub fn set_year(tree: &mut Snapshot, handle: &str, year: i32) -> (r: Result<(), RepoError>)
    requires
        old(tree).wf(),
    ensures
        final(tree).wf(),
        only_changed(*old(tree), *final(tree), set![ObjClass::Event]),
        final(tree).references@ == old(tree).references@,
        match r {
            Ok(()) => find_key(old(tree).events@, handle@) matches Some(i) && {
                &&& final(tree).events@ == old(tree).events@.update(i, final(tree).events@[i])
                &&& event_keeps(old(tree).events@[i], final(tree).events@[i])
                &&& final(tree).events@[i].place == old(tree).events@[i].place
                &&& if year == 0 {
                    final(tree).events@[i].date is None
                } else {
                    final(tree).events@[i].date matches Some(d) && is_year_only_date(d, year)
                }
            },
            Err(e) => {
                &&& !has_key(old(tree).events@, handle@)
                &&& e matches RepoError::NotFound { .. }
                &&& final(tree).events@ == old(tree).events@
            },
        },
{
    set_year_at(tree, handle, year, now_unix())
}

/// [`set_year`] with `now` as the `change` stamp of the row it writes.
pub fn set_year_at(tree: &mut Snapshot, handle: &str, year: i32, now: i64) -> (r: Result<(), RepoError>)
    requires
        old(tree).wf(),
    ensures
        final(tree).wf(),
        only_changed(*old(tree), *final(tree), set![ObjClass::Event]),
        final(tree).references@ == old(tree).references@,
        match r {
            Ok(()) => find_key(old(tree).events@, handle@) matches Some(i) && {
                &&& final(tree).events@ == old(tree).events@.update(i, final(tree).events@[i])
                &&& event_keeps(old(tree).events@[i], final(tree).events@[i])
                &&& final(tree).events@[i].place == old(tree).events@[i].place
                &&& if year == 0 {
                    final(tree).events@[i].date is None
                } else {
                    final(tree).events@[i].date matches Some(d) && is_year_only_date(d, year)
                }
            },
            Err(e) => {
                &&& !has_key(old(tree).events@, handle@)
                &&& e matches RepoError::NotFound { .. }
                &&& final(tree).events@ == old(tree).events@
            },
        },
        r is Ok ==> final(tree).events@[find_key(old(tree).events@, handle@)->0].change == now,
{
    let i = match find(&tree.events, handle) {
        Some(i) => i,
        None => {
            proof {
                lemma_find_key(tree.events@, handle@);
            }
            return Err(RepoError::NotFound { class: ObjClass::Event, handle: String::from_str(handle) });
        },
    };
    let ghost before = tree.events@;
    let mut x = take_row(&mut tree.events, i);
    x.date = if year == 0 {
        None
    } else {
        Some(year_only_date(year))
    };
    x.change = now;
    put_row(&mut tree.events, i, x, Ghost(before));
    Ok(())
}

/// Clear the place link of an event, if the event exists and has one.
pub fn clear_place(tree: &mut Snapshot, handle: &str)
    requires
        old(tree).wf(),
    ensures
        final(tree).wf(),
        only_changed(*old(tree), *final(tree), set![ObjClass::Event]),
        match find_key(old(tree).events@, handle@) {
            Some(i) => if old(tree).events@[i].place@.len() == 0 {
                final(tree).events@ == old(tree).events@ && final(tree).references@ == old(tree).references@
            } else {
                &&& final(tree).events@ == old(tree).events@.update(i, final(tree).events@[i])
                &&& final(tree).events@[i].place@.len() == 0
                &&& event_keeps(old(tree).events@[i], final(tree).events@[i])
                &&& final(tree).events@[i].date == old(tree).events@[i].date
                &&& forall|g: Seq<char>| #[trigger] refs_from(final(tree).references@, g) == if g == handle@ {
                    event_refs(final(tree).events@[i])
                } else {
                    refs_from(old(tree).references@, g)
                }
            },
            None => final(tree).events@ == old(tree).events@ && final(tree).references@ == old(tree).references@,
        },
{
    clear_place_at(tree, handle, now_unix())
}

/// [`clear_place`] with `now` as the `change` stamp of the row it writes.
pub fn clear_place_at(tree: &mut Snapshot, handle: &str, now: i64)
    requires
        old(tree).wf(),
    ensures
        final(tree).wf(),
        only_changed(*old(tree), *final(tree), set![ObjClass::Event]),
        match find_key(old(tree).events@, handle@) {
            Some(i) => if old(tree).events@[i].place@.len() == 0 {
                final(tree).events@ == old(tree).events@ && final(tree).references@ == old(tree).references@
            } else {
                &&& final(tree).events@ == old(tree).events@.update(i, final(tree).events@[i])
                &&& final(tree).events@[i].place@.len() == 0
                &&& event_keeps(old(tree).events@[i], final(tree).events@[i])
                &&& final(tree).events@[i].date == old(tree).events@[i].date
                &&& forall|g: Seq<char>| #[trigger] refs_from(final(tree).references@, g) == if g == handle@ {
                    event_refs(final(tree).events@[i])
                } else {
                    refs_from(old(tree).references@, g)
                }
            },
            None => final(tree).events@ == old(tree).events@ && final(tree).references@ == old(tree).references@,
        },
        match find_key(old(tree).events@, handle@) {
            Some(i) => old(tree).events@[i].place@.len() != 0 ==> final(tree).events@[i].change == now,
            None => true,
        },
{
    let i = match find(&tree.events, handle) {
        Some(i) => i,
        None => return,
    };
    if tree.events[i].place.as_str().is_empty() {
        return;
    }
    let ghost before = tree.events@;
    let mut x = take_row(&mut tree.events, i);
    x.place = String::new();
    x.change = now;
    let links = outbound_refs(&x);
    rewrite_references(&mut tree.references, &x.handle, ObjClass::Event, &links);
    put_row(&mut tree.events, i, x, Ghost(before));
}

} // verus!
