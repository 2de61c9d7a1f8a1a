//! Person: name, gender, birth and death years (as year-only Birth and
//! Death events), with cascade-aware deletion.
//!
//! Fields the forms do not edit (alternate names, addresses, urls,
//! attributes, LDS ordinances, media, citations, notes, tags, person refs
//! and the family links) are kept on update; a new person starts with them
//! empty.

use vstd::prelude::*;

use super::common::{
    gids, id_room, id_room_for, insert_row, lemma_next_id_push, max_gramps_number, next_gramps_id, next_id_spec, now_unix, put_row,
    take_row, RepoError,
};
use super::event::{create_date_only, event_created, event_keeps, is_year_only_date, set_year};
use crate::db::keyed::{drop_links_to, find, find_key, has_key, keep_links, lemma_find_key, lemma_find_remove, lemma_keep_links, links_to, unique_keys, Keyed, RefLink};
use crate::db::refs::{drop_obj, inbound, inbound_ref_count, links_of, links_view, push_links, refs_from, remove_references, rewrite_references, Link, ObjClass, Reference};
use super::family::{family_refs, handle_views, opt_view, store_family};
use crate::gramps::family::Family;
use crate::db::snapshot::{only_changed, Snapshot};
use crate::gramps::common::Typed;
use crate::gramps::event::{Event, EventRef};
use crate::text::str_eq;
use crate::gramps::person::{display_surname, name_display, primary_surname, Name, Person, Surname};

verus! {

/// Event type value of a birth.
pub open spec fn event_birth() -> i32 {
    12
}

/// Event type value of a death.
pub open spec fn event_death() -> i32 {
    13
}

/// The outbound references of a person: events, families (as parent, then
/// as child), associated persons, media, citations, notes and tags.
pub open spec fn person_refs(p: Person) -> Seq<Link> {
    links_of(p.event_ref_list@, ObjClass::Event) + links_of(p.family_list@, ObjClass::Family) + links_of(
        p.parent_family_list@,
        ObjClass::Family,
    ) + links_of(p.person_ref_list@, ObjClass::Person) + links_of(p.media_list@, ObjClass::Media) + links_of(
        p.citation_list@,
        ObjClass::Citation,
    ) + links_of(p.note_list@, ObjClass::Note) + links_of(p.tag_list@, ObjClass::Tag)
}

/// The `(ref_handle, ref_class)` pairs a person contributes to the
/// `reference` table.
pub fn outbound_refs(p: &Person) -> (r: Vec<(String, ObjClass)>)
    ensures
        links_view(r@) == person_refs(*p),
{
    let mut out = Vec::new();
    push_links(&mut out, &p.event_ref_list, ObjClass::Event);
    push_links(&mut out, &p.family_list, ObjClass::Family);
    push_links(&mut out, &p.parent_family_list, ObjClass::Family);
    push_links(&mut out, &p.person_ref_list, ObjClass::Person);
    push_links(&mut out, &p.media_list, ObjClass::Media);
    push_links(&mut out, &p.citation_list, ObjClass::Citation);
    push_links(&mut out, &p.note_list, ObjClass::Note);
    push_links(&mut out, &p.tag_list, ObjClass::Tag);
    assert(links_view(out@) =~= person_refs(*p));
    out
}

/// `n` is the primary name the forms write: a birth name with the first
/// name and one primary, inherited surname, everything else empty.
pub open spec fn is_built_name(n: Name, first_name: Seq<char>, surname: Seq<char>) -> bool {
    &&& n.class matches Some(c) && c@ == "Name"@
    &&& n.first_name@ == first_name
    &&& n.suffix@.len() == 0
    &&& n.title@.len() == 0
    &&& n.call@.len() == 0
    &&& n.nick@.len() == 0
    &&& n.famnick@.len() == 0
    &&& n.group_as@.len() == 0
    &&& n.sort_as == 0
    &&& n.display_as == 0
    &&& n.type_.class matches Some(c) && c@ == "NameType"@
    &&& n.type_.value == 2
    &&& n.type_.string@.len() == 0
    &&& n.date is None
    &&& n.surname_list@.len() == 1
    &&& n.surname_list@[0].class matches Some(c) && c@ == "Surname"@
    &&& n.surname_list@[0].surname@ == surname
    &&& n.surname_list@[0].prefix@.len() == 0
    &&& n.surname_list@[0].primary
    &&& n.surname_list@[0].connector@.len() == 0
    &&& n.surname_list@[0].origintype.class matches Some(c) && c@ == "NameOriginType"@
    &&& n.surname_list@[0].origintype.value == 2
    &&& n.surname_list@[0].origintype.string@.len() == 0
    &&& !n.private
    &&& n.citation_list@.len() == 0
    &&& n.note_list@.len() == 0
}

/// The primary name for a first name and a surname.
pub fn build_name(first_name: &str, surname: &str) -> (n: Name)
    ensures
        is_built_name(n, first_name@, surname@),
{
    let mut surname_list = Vec::new();
    surname_list.push(
        Surname {
            class: Some(String::from_str("Surname")),
            surname: String::from_str(surname),
            prefix: String::new(),
            primary: true,
            connector: String::new(),
            origintype: Typed { class: Some(String::from_str("NameOriginType")), value: 2, string: String::new() },
        },
    );
    Name {
        class: Some(String::from_str("Name")),
        first_name: String::from_str(first_name),
        suffix: String::new(),
        title: String::new(),
        call: String::new(),
        nick: String::new(),
        famnick: String::new(),
        group_as: String::new(),
        sort_as: 0,
        display_as: 0,
        type_: Typed { class: Some(String::from_str("NameType")), value: 2, string: String::new() },
        date: None,
        surname_list,
        private: false,
        citation_list: Vec::new(),
        note_list: Vec::new(),
    }
}

/// The surname column of a person row: the display surname of the primary
/// name.
pub fn primary_surname_string(person: &Person) -> (r: String)
    ensures
        r@ == display_surname(person.primary_name.surname_list@),
{
    primary_surname(&person.primary_name.surname_list)
}

/// `r` is the link a person's own birth or death event gets: role Primary.
pub open spec fn is_primary_event_ref(r: EventRef, handle: Seq<char>) -> bool {
    &&& r.class matches Some(c) && c@ == "EventRef"@
    &&& r.ref_@ == handle
    &&& !r.private
    &&& r.citation_list@.len() == 0
    &&& r.note_list@.len() == 0
    &&& r.attribute_list@.len() == 0
    &&& r.role.class matches Some(c) && c@ == "EventRoleType"@
    &&& r.role.value == 1
    &&& r.role.string@.len() == 0
}

/// A Primary-role link to the event `handle`.
pub fn primary_event_ref(handle: &str) -> (r: EventRef)
    ensures
        is_primary_event_ref(r, handle@),
{
    EventRef {
        class: Some(String::from_str("EventRef")),
        ref_: String::from_str(handle),
        private: false,
        citation_list: Vec::new(),
        note_list: Vec::new(),
        attribute_list: Vec::new(),
        role: Typed { class: Some(String::from_str("EventRoleType")), value: 1, string: String::new() },
    }
}

/// `n` is `o` with a new change stamp.
pub open spec fn restamped(o: Person, n: Person) -> bool {
    n == Person { change: n.change, ..o }
}

/// Writes `p` back at position `i` (taken out with `take_row`), stamps it
/// and refreshes its `reference` rows.
pub(crate) fn store_person(tree: &mut Snapshot, i: usize, p: Person, now: i64, Ghost(before): Ghost<Seq<Person>>)
    requires
        i < before.len(),
        old(tree).persons@ == before.remove(i as int),
        before[i as int].key() == p.handle@,
        unique_keys(before),
    ensures
        final(tree).persons@ == before.update(i as int, final(tree).persons@[i as int]),
        restamped(p, final(tree).persons@[i as int]),
        final(tree).persons@[i as int].change == now,
        unique_keys(final(tree).persons@),
        forall|h: Seq<char>| #[trigger] find_key(final(tree).persons@, h) == find_key(before, h),
        forall|g: Seq<char>| #[trigger] refs_from(final(tree).references@, g) == if g == p.handle@ {
            person_refs(p)
        } else {
            refs_from(old(tree).references@, g)
        },
        final(tree).path == old(tree).path,
        final(tree).families == old(tree).families,
        final(tree).events == old(tree).events,
        final(tree).places == old(tree).places,
        final(tree).sources == old(tree).sources,
        final(tree).citations == old(tree).citations,
        final(tree).media == old(tree).media,
        final(tree).notes == old(tree).notes,
        final(tree).repositories == old(tree).repositories,
        final(tree).tags == old(tree).tags,
{
    let mut p = p;
    p.change = now;
    let links = outbound_refs(&p);
    rewrite_references(&mut tree.references, &p.handle, ObjClass::Person, &links);
    put_row(&mut tree.persons, i, p, Ghost(before));
}

/// What the `reference` rows `r2` hold of object `g`, given the person
/// rows went from `p0` to `p2` and the rows were `r0`: a person whose row
/// changed has the rows of its new row; a person whose row is as it was has
/// its old rows or those of its row; any other object keeps its rows.
pub open spec fn person_refs_at(p0: Seq<Person>, p2: Seq<Person>, r0: Seq<Reference>, r2: Seq<Reference>, g: Seq<char>) -> bool {
    match find_key(p0, g) {
        Some(j) => if p2[j] != p0[j] {
            refs_from(r2, g) == person_refs(p2[j])
        } else {
            refs_from(r2, g) == refs_from(r0, g) || refs_from(r2, g) == person_refs(p2[j])
        },
        None => refs_from(r2, g) == refs_from(r0, g),
    }
}

/// The `reference` rows follow the person rows for every object.
pub open spec fn person_refs_follow(p0: Seq<Person>, p2: Seq<Person>, r0: Seq<Reference>, r2: Seq<Reference>) -> bool {
    forall|g: Seq<char>| #[trigger] refs_from(r2, g) == refs_from(r2, g) && person_refs_at(p0, p2, r0, r2, g)
}

/// Two steps that each keep the `reference` rows in step with the person
/// rows make one that does.
pub proof fn lemma_person_refs_follow_trans(
    p0: Seq<Person>,
    p1: Seq<Person>,
    p2: Seq<Person>,
    r0: Seq<Reference>,
    r1: Seq<Reference>,
    r2: Seq<Reference>,
)
    requires
        person_refs_follow(p0, p1, r0, r1),
        person_refs_follow(p1, p2, r1, r2),
        p1.len() == p0.len(),
        forall|h: Seq<char>| #[trigger] find_key(p1, h) == find_key(p0, h),
    ensures
        person_refs_follow(p0, p2, r0, r2),
{
    assert forall|g: Seq<char>| #[trigger] refs_from(r2, g) == refs_from(r2, g) && person_refs_at(p0, p2, r0, r2, g) by {
        assert(refs_from(r1, g) == refs_from(r1, g) && person_refs_at(p0, p1, r0, r1, g));
        assert(refs_from(r2, g) == refs_from(r2, g) && person_refs_at(p1, p2, r1, r2, g));
        assert(find_key(p1, g) == find_key(p0, g));
    }
}

/// A step that leaves the person rows and the `reference` rows alone
/// keeps them in step.
pub proof fn lemma_person_refs_follow_refl(p: Seq<Person>, r: Seq<Reference>)
    ensures
        person_refs_follow(p, p, r, r),
{
    assert forall|g: Seq<char>| #[trigger] refs_from(r, g) == refs_from(r, g) && person_refs_at(p, p, r, r, g) by {}
}

/// Rewrite an already-edited person row: stamps `change` and refreshes its
/// `reference` rows. The row to replace is found by handle.
pub fn save_row(tree: &mut Snapshot, person: Person) -> (r: Result<(), RepoError>)
    requires
        old(tree).wf(),
    ensures
        final(tree).wf(),
        only_changed(*old(tree), *final(tree), set![ObjClass::Person]),
        match r {
            Ok(()) => find_key(old(tree).persons@, person.handle@) matches Some(i) && {
                &&& final(tree).persons@ == old(tree).persons@.update(i, final(tree).persons@[i])
                &&& restamped(person, final(tree).persons@[i])
                &&& forall|g: Seq<char>| #[trigger] refs_from(final(tree).references@, g) == if g == person.handle@ {
                    person_refs(person)
                } else {
                    refs_from(old(tree).references@, g)
                }
            },
            Err(e) => {
                &&& !has_key(old(tree).persons@, person.handle@)
                &&& e matches RepoError::NotFound { .. }
                &&& final(tree).persons@ == old(tree).persons@
                &&& final(tree).references@ == old(tree).references@
            },
        },
{
    save_row_at(tree, person, now_unix())
}

/// [`save_row`] with `now` as the `change` stamp of the row it writes.
pub fn save_row_at(tree: &mut Snapshot, person: Person, now: i64) -> (r: Result<(), RepoError>)
    requires
        old(tree).wf(),
    ensures
        final(tree).wf(),
        only_changed(*old(tree), *final(tree), set![ObjClass::Person]),
        match r {
            Ok(()) => find_key(old(tree).persons@, person.handle@) matches Some(i) && {
                &&& final(tree).persons@ == old(tree).persons@.update(i, final(tree).persons@[i])
                &&& restamped(person, final(tree).persons@[i])
                &&& forall|g: Seq<char>| #[trigger] refs_from(final(tree).references@, g) == if g == person.handle@ {
                    person_refs(person)
                } else {
                    refs_from(old(tree).references@, g)
                }
            },
            Err(e) => {
                &&& !has_key(old(tree).persons@, person.handle@)
                &&& e matches RepoError::NotFound { .. }
                &&& final(tree).persons@ == old(tree).persons@
                &&& final(tree).references@ == old(tree).references@
            },
        },
        r is Ok ==> final(tree).persons@[find_key(old(tree).persons@, person.handle@)->0].change == now,
{
    let i = match find(&tree.persons, person.handle.as_str()) {
        Some(i) => i,
        None => {
            proof {
                lemma_find_key(tree.persons@, person.handle@);
            }
            return Err(RepoError::NotFound { class: ObjClass::Person, handle: person.handle });
        },
    };
    let ghost before = tree.persons@;
    let _old = take_row(&mut tree.persons, i);
    store_person(tree, i, person, now, Ghost(before));
    Ok(())
}


/// `e` is a year-only event of the given type, as a person's form writes
/// it: no description, no place, the date carries just the year.
pub open spec fn year_event(e: Event, handle: Seq<char>, gid: Seq<char>, type_value: i32, year: i32) -> bool {
    &&& event_created(e, handle, gid, type_value, Seq::empty(), None, e.date)
    &&& e.date matches Some(d) && is_year_only_date(d, year)
}

/// Creates a year-only event under `event_handle` and links it from `p`
/// with a Primary-role reference; returns the new link's position.
fn add_year_event(tree: &mut Snapshot, p: &mut Person, event_handle: String, type_value: i32, year: i32) -> (idx: i32)
    requires
        old(tree).wf(),
        id_room(gids(old(tree).events@), 'E'),
        !has_key(old(tree).events@, event_handle@),
    ensures
        final(tree).wf(),
        only_changed(*old(tree), *final(tree), set![ObjClass::Event]),
        final(tree).events@ == old(tree).events@.push(final(tree).events@[old(tree).events@.len() as int]),
        year_event(final(tree).events@[old(tree).events@.len() as int], event_handle@, next_id_spec(gids(old(tree).events@), 'E'), type_value, year),
        forall|g: Seq<char>| #[trigger] refs_from(final(tree).references@, g) == if g == event_handle@ {
            Seq::<Link>::empty()
        } else {
            refs_from(old(tree).references@, g)
        },
        *final(p) == (Person { event_ref_list: final(p).event_ref_list, ..*old(p) }),
        final(p).event_ref_list@.len() == old(p).event_ref_list@.len() + 1,
        final(p).event_ref_list@.drop_last() == old(p).event_ref_list@,
        is_primary_event_ref(final(p).event_ref_list@.last(), event_handle@),
        idx == (old(p).event_ref_list@.len() as i32),
{
    let eh = event_handle.clone();
    let _r = create_date_only(tree, event_handle, type_value, year);
    p.event_ref_list.push(primary_event_ref(eh.as_str()));
    let n = p.event_ref_list.len() - 1;
    #[verifier::truncate]
    (n as i32)
}

/// `p` is the person row `create` writes, leaving out its event links.
pub open spec fn person_created(p: Person, handle: Seq<char>, gid: Seq<char>, first_name: Seq<char>, surname: Seq<char>, gender: i32) -> bool {
    &&& p.class matches Some(c) && c@ == "Person"@
    &&& p.handle@ == handle
    &&& p.gramps_id@ == gid
    &&& p.gender == gender
    &&& !p.private
    &&& is_built_name(p.primary_name, first_name, surname)
    &&& p.alternate_names@.len() == 0
    &&& p.family_list@.len() == 0
    &&& p.parent_family_list@.len() == 0
    &&& p.person_ref_list@.len() == 0
    &&& p.address_list@.len() == 0
    &&& p.urls@.len() == 0
    &&& p.lds_ord_list@.len() == 0
    &&& p.media_list@.len() == 0
    &&& p.attribute_list@.len() == 0
    &&& p.citation_list@.len() == 0
    &&& p.note_list@.len() == 0
    &&& p.tag_list@.len() == 0
}

/// 1 when the year is given, else 0.
pub open spec fn given(y: Option<i32>) -> int {
    if y is Some {
        1
    } else {
        0
    }
}

/// The event links of a new person: one Primary-role link per year given,
/// birth first, with the birth and death indexes pointing at them (-1 when
/// there is none).
pub open spec fn created_event_links(p: Person, birth: Option<i32>, death: Option<i32>, bh: Seq<char>, dh: Seq<char>) -> bool {
    &&& p.event_ref_list@.len() == given(birth) + given(death)
    &&& if birth is Some {
        is_primary_event_ref(p.event_ref_list@[0], bh) && p.birth_ref_index == 0
    } else {
        p.birth_ref_index == -1
    }
    &&& if death is Some {
        is_primary_event_ref(p.event_ref_list@[given(birth)], dh) && p.death_ref_index == given(birth)
    } else {
        p.death_ref_index == -1
    }
}

/// `b` is `a` with one year-only event appended per year given: the birth
/// event first, then the death event, each with the next gramps id.
pub open spec fn year_events_added(a: Seq<Event>, b: Seq<Event>, birth: Option<i32>, death: Option<i32>, bh: Seq<char>, dh: Seq<char>) -> bool {
    &&& b.len() == a.len() + given(birth) + given(death)
    &&& b.subrange(0, a.len() as int) == a
    &&& (birth matches Some(y) ==> year_event(b[a.len() as int], bh, next_id_spec(gids(a), 'E'), event_birth(), y))
    &&& (death matches Some(y) ==> year_event(
        b[a.len() + given(birth)],
        dh,
        next_id_spec(gids(b.subrange(0, a.len() + given(birth))), 'E'),
        event_death(),
        y,
    ))
}

/// The birth event of a new person can be made: there is room for an id
/// and its handle is free.
pub open spec fn birth_ok(ev: Seq<Event>, birth: Option<i32>, bh: Seq<char>) -> bool {
    birth is None || (id_room(gids(ev), 'E') && !has_key(ev, bh))
}

/// The death event of a new person can be made after the birth event.
pub open spec fn death_ok(ev: Seq<Event>, birth: Option<i32>, death: Option<i32>, bh: Seq<char>, dh: Seq<char>) -> bool {
    death is None || (id_room_for(gids(ev), 'E', given(birth) + 1) && !has_key(ev, dh) && !(birth is Some && dh == bh))
}

/// What a successful [`create`] does: the person row `i` is appended with
/// the next gramps id, each year given becomes a new year-only event linked
/// from it, and the `reference` rows follow.
pub open spec fn person_create_ok(
    a: Snapshot,
    b: Snapshot,
    i: usize,
    handle: Seq<char>,
    first_name: Seq<char>,
    surname: Seq<char>,
    gender: i32,
    birth_year: Option<i32>,
    death_year: Option<i32>,
    bh: Seq<char>,
    dh: Seq<char>,
) -> bool {
    let p = b.persons@[i as int];
    &&& b.wf()
    &&& only_changed(a, b, set![ObjClass::Person, ObjClass::Event])
    &&& id_room(gids(a.persons@), 'I')
    &&& birth_ok(a.events@, birth_year, bh)
    &&& death_ok(a.events@, birth_year, death_year, bh, dh)
    &&& !has_key(a.persons@, handle)
    &&& i == a.persons@.len()
    &&& b.persons@ == a.persons@.push(p)
    &&& find_key(b.persons@, handle) == Some(i as int)
    &&& person_created(p, handle, next_id_spec(gids(a.persons@), 'I'), first_name, surname, gender)
    &&& created_event_links(p, birth_year, death_year, bh, dh)
    &&& year_events_added(a.events@, b.events@, birth_year, death_year, bh, dh)
    &&& forall|g: Seq<char>| #[trigger] refs_from(b.references@, g) == if g == handle {
        person_refs(p)
    } else if (birth_year is Some && g == bh) || (death_year is Some && g == dh) {
        Seq::<Link>::empty()
    } else {
        refs_from(a.references@, g)
    }
}

/// What [`create`] does and when it is refused.
pub open spec fn person_create_done(a: Snapshot, b: Snapshot, handle: Seq<char>, first_name: Seq<char>, surname: Seq<char>, gender: i32, birth_year: Option<i32>, death_year: Option<i32>, birth_event_handle: Seq<char>, death_event_handle: Seq<char>, r: Result<usize, RepoError>) -> bool {
    &&& b.wf()
    &&& only_changed(a, b, set![ObjClass::Person, ObjClass::Event])
    &&& match r {
        Ok(i) => person_create_ok(a, b, i, handle, first_name, surname, gender, birth_year, death_year, birth_event_handle, death_event_handle),
        Err(e) => {
            let ev = a.events@;
            &&& b.persons@ == a.persons@
            &&& b.events@ == a.events@
            &&& b.references@ == a.references@
            &&& match e {
                RepoError::IdsExhausted { class } => (class == ObjClass::Person && !id_room(gids(a.persons@), 'I')) || (class
                    == ObjClass::Event && id_room(gids(a.persons@), 'I') && ((birth_year is Some && !id_room(gids(ev), 'E')) || (
                birth_ok(ev, birth_year, birth_event_handle) && death_year is Some && !id_room_for(gids(ev), 'E', given(birth_year) + 1)))),
                RepoError::HandleInUse { class, handle: h } => (class == ObjClass::Event && id_room(gids(a.persons@), 'I') && (
                (birth_year is Some && id_room(gids(ev), 'E') && has_key(ev, birth_event_handle) && h@ == birth_event_handle) || (
                birth_ok(ev, birth_year, birth_event_handle) && death_year is Some && id_room_for(gids(ev), 'E', given(birth_year) + 1)
                    && (has_key(ev, death_event_handle) || (birth_year is Some && death_event_handle == birth_event_handle))
                    && h@ == death_event_handle))) || (class == ObjClass::Person && id_room(gids(a.persons@), 'I') && birth_ok(
                    ev,
                    birth_year,
                    birth_event_handle,
                ) && death_ok(ev, birth_year, death_year, birth_event_handle, death_event_handle) && has_key(a.persons@, handle)
                    && h@ == handle),
                _ => false,
            }
        },
    }
}

/// Create a person with a name and a gender. A birth year, when given,
/// becomes a year-only Birth event under `birth_event_handle`, linked from
/// the person; a death year likewise a Death event under
/// `death_event_handle`. The handles of years not given are not used.
pub fn create(
    tree: &mut Snapshot,
    handle: String,
    first_name: &str,
    surname: &str,
    gender: i32,
    birth_year: Option<i32>,
    death_year: Option<i32>,
    birth_event_handle: String,
    death_event_handle: String,
) -> (r: Result<usize, RepoError>)
    requires
        old(tree).wf(),
    ensures
        person_create_done(*old(tree), *final(tree), handle@, first_name@, surname@, gender, birth_year, death_year, birth_event_handle@, death_event_handle@, r),
{
    create_at(tree, handle, first_name, surname, gender, birth_year, death_year, birth_event_handle, death_event_handle, now_unix())
}

/// [`create`] with `now` as the `change` stamp of the row it writes.
pub fn create_at(
    tree: &mut Snapshot,
    handle: String,
    first_name: &str,
    surname: &str,
    gender: i32,
    birth_year: Option<i32>,
    death_year: Option<i32>,
    birth_event_handle: String,
    death_event_handle: String,
    now: i64,
) -> (r: Result<usize, RepoError>)
    requires
        old(tree).wf(),
    ensures
        person_create_done(*old(tree), *final(tree), handle@, first_name@, surname@, gender, birth_year, death_year, birth_event_handle@, death_event_handle@, r),
        r matches Ok(i) ==> final(tree).persons@[i as int].change == now,
{
    let gramps_id = match next_gramps_id(&tree.persons, 'I') {
        Some(id) => id,
        None => return Err(RepoError::IdsExhausted { class: ObjClass::Person }),
    };
    let bc = birth_year.is_some();
    let dc = death_year.is_some();
    let max_e = max_gramps_number(&tree.events, 'E');
    if bc {
        if max_e == 0x7fff_ffff_ffff_ffff {
            return Err(RepoError::IdsExhausted { class: ObjClass::Event });
        }
        if find(&tree.events, birth_event_handle.as_str()).is_some() {
            proof {
                lemma_find_key(tree.events@, birth_event_handle@);
            }
            return Err(RepoError::HandleInUse { class: ObjClass::Event, handle: birth_event_handle });
        }
        proof {
            lemma_find_key(tree.events@, birth_event_handle@);
        }
    }
    if dc {
        let room = if bc {
            max_e < 0x7fff_ffff_ffff_fffe
        } else {
            max_e < 0x7fff_ffff_ffff_ffff
        };
        if !room {
            return Err(RepoError::IdsExhausted { class: ObjClass::Event });
        }
        let taken = find(&tree.events, death_event_handle.as_str()).is_some();
        proof {
            lemma_find_key(tree.events@, death_event_handle@);
        }
        if taken || (bc && str_eq(death_event_handle.as_str(), birth_event_handle.as_str())) {
            return Err(RepoError::HandleInUse { class: ObjClass::Event, handle: death_event_handle });
        }
    }
    if find(&tree.persons, handle.as_str()).is_some() {
        proof {
            lemma_find_key(tree.persons@, handle@);
        }
        return Err(RepoError::HandleInUse { class: ObjClass::Person, handle });
    }
    proof {
        lemma_find_key(tree.persons@, handle@);
    }
    let mut p = Person {
        class: Some(String::from_str("Person")),
        handle,
        gramps_id,
        gender,
        change: now,
        private: false,
        primary_name: build_name(first_name, surname),
        alternate_names: Vec::new(),
        event_ref_list: Vec::new(),
        birth_ref_index: -1,
        death_ref_index: -1,
        family_list: Vec::new(),
        parent_family_list: Vec::new(),
        person_ref_list: Vec::new(),
        address_list: Vec::new(),
        urls: Vec::new(),
        lds_ord_list: Vec::new(),
        media_list: Vec::new(),
        attribute_list: Vec::new(),
        citation_list: Vec::new(),
        note_list: Vec::new(),
        tag_list: Vec::new(),
    };
    let ghost ev0 = tree.events@;
    let ghost r0 = tree.references@;
    let ghost bh = birth_event_handle@;
    let ghost dh = death_event_handle@;
    if let Some(y) = birth_year {
        let idx = add_year_event(tree, &mut p, birth_event_handle, 12, y);
        p.birth_ref_index = idx;
    }
    let ghost ev1 = tree.events@;
    let ghost r1 = tree.references@;
    let ghost p1 = p;
    proof {
        assert(ev1.subrange(0, ev0.len() as int) =~= ev0);
        if bc {
            lemma_next_id_push(ev0, ev1[ev0.len() as int], 'E');
            assert(ev1 =~= ev0.push(ev1[ev0.len() as int]));
            assert forall|h: Seq<char>| has_key(ev1, h) implies has_key(ev0, h) || h == bh by {
                let k = choose|k: int| 0 <= k < ev1.len() && #[trigger] ev1[k].key() == h;
                if k < ev0.len() {
                    assert(ev1[k] == ev0[k]);
                }
            }
        }
    }
    if let Some(y) = death_year {
        let idx = add_year_event(tree, &mut p, death_event_handle, 13, y);
        p.death_ref_index = idx;
    }
    let ghost ev2 = tree.events@;
    let ghost r2 = tree.references@;
    proof {
        assert(ev2.subrange(0, ev1.len() as int) =~= ev1);
        assert(ev2.subrange(0, ev0.len() as int) =~= ev0);
        assert(ev2.subrange(0, ev0.len() + given(birth_year)) =~= ev1);
        if bc {
            assert(p.event_ref_list@[0] == p1.event_ref_list@[0]);
        }
    }
    let links = outbound_refs(&p);
    let h = p.handle.clone();
    let ghost pv = p;
    let r = insert_row(&mut tree.persons, p, ObjClass::Person);
    let i = match r {
        Ok(i) => i,
        Err(e) => return Err(e),
    };
    rewrite_references(&mut tree.references, &h, ObjClass::Person, &links);
    proof {
        assert(tree.persons@[i as int] == pv);
    }
    Ok(i)
}


/// The event that a birth or death index links to: the `ref` of the entry
/// at that position of `event_ref_list`, when the index is in range.
pub open spec fn linked_event(list: Seq<EventRef>, idx: i32) -> Option<Seq<char>> {
    if 0 <= idx < list.len() {
        Some(list[idx as int].ref_@)
    } else {
        None
    }
}

/// A year that the update writes; `None` and `Some(0)` clear the link
/// instead.
pub open spec fn sets_year(y: Option<i32>) -> bool {
    y matches Some(v) && v != 0
}

/// The year's value, 0 when none is given.
pub open spec fn year_value(y: Option<i32>) -> i32 {
    match y {
        Some(v) => v,
        None => 0,
    }
}

/// The update of person `p` creates a new Birth event: a year is set and
/// no event is linked.
pub open spec fn birth_creates(p: Person, by: Option<i32>) -> bool {
    sets_year(by) && linked_event(p.event_ref_list@, p.birth_ref_index) is None
}

/// 1 when the birth update creates an event, else 0.
pub open spec fn birth_added(p: Person, by: Option<i32>) -> int {
    if birth_creates(p, by) {
        1
    } else {
        0
    }
}

/// The event that the death index links to once the birth step is done; a
/// new birth link sits right after the old entries.
pub open spec fn death_link(p: Person, by: Option<i32>, bh: Seq<char>) -> Option<Seq<char>> {
    let list = p.event_ref_list@;
    let d = p.death_ref_index;
    if 0 <= d < list.len() {
        Some(list[d as int].ref_@)
    } else if birth_creates(p, by) && d == list.len() {
        Some(bh)
    } else {
        None
    }
}

/// The update of person `p` creates a new Death event.
pub open spec fn death_creates(p: Person, by: Option<i32>, dy: Option<i32>, bh: Seq<char>) -> bool {
    sets_year(dy) && death_link(p, by, bh) is None
}

/// The existing event whose year the birth step sets.
pub open spec fn birth_target(p: Person, by: Option<i32>) -> Option<Seq<char>> {
    if sets_year(by) {
        linked_event(p.event_ref_list@, p.birth_ref_index)
    } else {
        None
    }
}

/// The event whose year the death step sets.
pub open spec fn death_target(p: Person, by: Option<i32>, dy: Option<i32>, bh: Seq<char>) -> Option<Seq<char>> {
    if sets_year(dy) {
        death_link(p, by, bh)
    } else {
        None
    }
}

/// The birth step can be done: the linked event exists, or there is room
/// for a new id and the new handle is free.
pub open spec fn birth_step_ok(p: Person, ev: Seq<Event>, by: Option<i32>, bh: Seq<char>) -> bool {
    &&& (birth_target(p, by) matches Some(h) ==> has_key(ev, h))
    &&& (birth_creates(p, by) ==> id_room(gids(ev), 'E') && !has_key(ev, bh))
}

/// The death step can be done after the birth step.
pub open spec fn death_step_ok(p: Person, ev: Seq<Event>, by: Option<i32>, dy: Option<i32>, bh: Seq<char>, dh: Seq<char>) -> bool {
    &&& (death_target(p, by, dy, bh) matches Some(h) ==> has_key(ev, h) || (birth_creates(p, by) && h == bh))
    &&& (death_creates(p, by, dy, bh) ==> id_room_for(gids(ev), 'E', birth_added(p, by) + 1) && !has_key(ev, dh) && !(birth_creates(p, by) && dh == bh))
}

/// `x` is event `o` with its date set to the year-only date of `year`.
pub open spec fn year_set(o: Event, x: Event, year: i32) -> bool {
    &&& event_keeps(o, x)
    &&& x.place == o.place
    &&& x.date matches Some(d) && is_year_only_date(d, year)
}

/// The events after the update of person `p`: the linked birth and death
/// events get their years (the death step last), and the new events are
/// appended, birth first.
pub open spec fn year_events_updated(p: Person, a: Seq<Event>, b: Seq<Event>, by: Option<i32>, dy: Option<i32>, bh: Seq<char>, dh: Seq<char>) -> bool {
    let bt = birth_target(p, by);
    let dt = death_target(p, by, dy, bh);
    let gb = birth_added(p, by);
    &&& b.len() == a.len() + gb + (if death_creates(p, by, dy, bh) {
        1int
    } else {
        0int
    })
    &&& forall|j: int| 0 <= j < a.len() ==> if dt == Some(a[j].handle@) {
        year_set(a[j], #[trigger] b[j], year_value(dy))
    } else if bt == Some(a[j].handle@) {
        year_set(a[j], b[j], year_value(by))
    } else {
        b[j] == a[j]
    }
    &&& birth_creates(p, by) ==> year_event(b[a.len() as int], bh, next_id_spec(gids(a), 'E'), event_birth(), if dt == Some(bh) {
        year_value(dy)
    } else {
        year_value(by)
    })
    &&& death_creates(p, by, dy, bh) ==> year_event(b[a.len() + gb], dh, next_id_spec(gids(b.subrange(0, a.len() + gb)), 'E'), event_death(), year_value(dy))
}

/// The person row after the update: the name, gender and birth / death
/// links as the form sets them, every other field as it was.
pub open spec fn person_updated(o: Person, n: Person, first_name: Seq<char>, surname: Seq<char>, gender: i32, by: Option<i32>, dy: Option<i32>, bh: Seq<char>, dh: Seq<char>) -> bool {
    let ol = o.event_ref_list@;
    let nl = n.event_ref_list@;
    let gb = birth_added(o, by);
    &&& n == Person {
        primary_name: n.primary_name,
        gender: n.gender,
        event_ref_list: n.event_ref_list,
        birth_ref_index: n.birth_ref_index,
        death_ref_index: n.death_ref_index,
        change: n.change,
        ..o
    }
    &&& is_built_name(n.primary_name, first_name, surname)
    &&& n.gender == gender
    &&& nl.len() == ol.len() + gb + (if death_creates(o, by, dy, bh) {
        1int
    } else {
        0int
    })
    &&& nl.subrange(0, ol.len() as int) == ol
    &&& birth_creates(o, by) ==> is_primary_event_ref(nl[ol.len() as int], bh)
    &&& death_creates(o, by, dy, bh) ==> is_primary_event_ref(nl[ol.len() + gb], dh)
    &&& n.birth_ref_index == if !sets_year(by) {
        -1i32
    } else if birth_creates(o, by) {
        ol.len() as i32
    } else {
        o.birth_ref_index
    }
    &&& n.death_ref_index == if !sets_year(dy) {
        -1i32
    } else if death_creates(o, by, dy, bh) {
        (ol.len() + gb) as i32
    } else {
        o.death_ref_index
    }
}

fn linked_exec(list: &Vec<EventRef>, idx: i32) -> (r: Option<String>)
    ensures
        opt_string_view(r) == linked_event(list@, idx),
{
    if idx >= 0 && (idx as usize) < list.len() {
        Some(list[idx as usize].ref_.clone())
    } else {
        None
    }
}

/// The handle text of an optional handle.
pub open spec fn opt_string_view(o: Option<String>) -> Option<Seq<char>> {
    match o {
        Some(h) => Some(h@),
        None => None,
    }
}

proof fn lemma_same_keys(a: Seq<Event>, b: Seq<Event>)
    requires
        b.len() == a.len(),
        forall|j: int| 0 <= j < a.len() ==> (#[trigger] b[j]).handle == a[j].handle && b[j].gramps_id == a[j].gramps_id,
    ensures
        gids(b) == gids(a),
        forall|h: Seq<char>| #[trigger] has_key(b, h) == has_key(a, h),
{
    assert(gids(b) =~= gids(a));
    assert forall|h: Seq<char>| #[trigger] has_key(b, h) == has_key(a, h) by {
        if has_key(b, h) {
            let k = choose|k: int| 0 <= k < b.len() && #[trigger] b[k].key() == h;
            assert(a[k].key() == h);
        }
        if has_key(a, h) {
            let k = choose|k: int| 0 <= k < a.len() && #[trigger] a[k].key() == h;
            assert(b[k].key() == h);
        }
    }
}

/// What [`update`] does and when it is refused.
pub open spec fn person_update_done(a: Snapshot, b: Snapshot, handle: Seq<char>, first_name: Seq<char>, surname: Seq<char>, gender: i32, birth_year: Option<i32>, death_year: Option<i32>, birth_event_handle: Seq<char>, death_event_handle: Seq<char>, r: Result<(), RepoError>) -> bool {
    &&& b.wf()
    &&& only_changed(a, b, set![ObjClass::Person, ObjClass::Event])
    &&& match r {
        Ok(()) => find_key(a.persons@, handle) matches Some(i) && {
            let o = a.persons@[i];
            let n = b.persons@[i];
            let bh = birth_event_handle;
            let dh = death_event_handle;
            &&& birth_step_ok(o, a.events@, birth_year, bh)
            &&& death_step_ok(o, a.events@, birth_year, death_year, bh, dh)
            &&& b.persons@ == a.persons@.update(i, n)
            &&& person_updated(o, n, first_name, surname, gender, birth_year, death_year, bh, dh)
            &&& year_events_updated(o, a.events@, b.events@, birth_year, death_year, bh, dh)
            &&& forall|g: Seq<char>| #[trigger] refs_from(b.references@, g) == if g == handle {
                person_refs(n)
            } else if (birth_creates(o, birth_year) && g == bh) || (death_creates(o, birth_year, death_year, bh) && g == dh) {
                Seq::<Link>::empty()
            } else {
                refs_from(a.references@, g)
            }
        },
        Err(e) => {
            let ev = a.events@;
            let bh = birth_event_handle;
            let dh = death_event_handle;
            &&& b.persons@ == a.persons@
            &&& b.events@ == a.events@
            &&& b.references@ == a.references@
            &&& match e {
                RepoError::NotFound { class: ObjClass::Person, handle: h } => !has_key(a.persons@, handle) && h@ == handle,
                RepoError::NotFound { class: ObjClass::Event, handle: h } => find_key(a.persons@, handle) matches Some(i) && {
                    let o = a.persons@[i];
                    ||| birth_target(o, birth_year) == Some(h@) && !has_key(ev, h@)
                    ||| birth_step_ok(o, ev, birth_year, bh) && death_target(o, birth_year, death_year, bh) == Some(h@) && !has_key(ev, h@)
                        && !(birth_creates(o, birth_year) && h@ == bh)
                },
                RepoError::IdsExhausted { class: ObjClass::Event } => find_key(a.persons@, handle) matches Some(i) && {
                    let o = a.persons@[i];
                    let found_b = (birth_target(o, birth_year) matches Some(h) ==> has_key(ev, h));
                    let found_d = (death_target(o, birth_year, death_year, bh) matches Some(h) ==> has_key(ev, h) || (birth_creates(o, birth_year) && h == bh));
                    ||| found_b && birth_creates(o, birth_year) && !id_room(gids(ev), 'E')
                    ||| birth_step_ok(o, ev, birth_year, bh) && found_d && death_creates(o, birth_year, death_year, bh) && !id_room_for(gids(ev), 'E', birth_added(o, birth_year) + 1)
                },
                RepoError::HandleInUse { class: ObjClass::Event, handle: h } => find_key(a.persons@, handle) matches Some(i) && {
                    let o = a.persons@[i];
                    let found_b = (birth_target(o, birth_year) matches Some(h) ==> has_key(ev, h));
                    let found_d = (death_target(o, birth_year, death_year, bh) matches Some(h) ==> has_key(ev, h) || (birth_creates(o, birth_year) && h == bh));
                    ||| found_b && birth_creates(o, birth_year) && id_room(gids(ev), 'E') && has_key(ev, bh) && h@ == bh
                    ||| birth_step_ok(o, ev, birth_year, bh) && found_d && death_creates(o, birth_year, death_year, bh) && id_room_for(gids(ev), 'E', birth_added(o, birth_year) + 1)
                        && (has_key(ev, dh) || (birth_creates(o, birth_year) && dh == bh)) && h@ == dh
                },
                _ => false,
            }
        },
    }
}

/// Update the editable part of a person: name, gender and the birth and
/// death years; every other field is kept. A year given as `None` or
/// `Some(0)` clears the link (the event itself stays). A year given
/// otherwise sets the year of the linked event, or, when no event is
/// linked, creates a year-only event (under `birth_event_handle` or
/// `death_event_handle`) and links it.
pub fn update(
    tree: &mut Snapshot,
    handle: &str,
    first_name: &str,
    surname: &str,
    gender: i32,
    birth_year: Option<i32>,
    death_year: Option<i32>,
    birth_event_handle: String,
    death_event_handle: String,
) -> (r: Result<(), RepoError>)
    requires
        old(tree).wf(),
    ensures
        person_update_done(*old(tree), *final(tree), handle@, first_name@, surname@, gender, birth_year, death_year, birth_event_handle@, death_event_handle@, r),
{
    update_at(tree, handle, first_name, surname, gender, birth_year, death_year, birth_event_handle, death_event_handle, now_unix())
}

/// [`update`] with `now` as the `change` stamp of the row it writes.
#[verifier::rlimit(60)]
pub fn update_at(
    tree: &mut Snapshot,
    handle: &str,
    first_name: &str,
    surname: &str,
    gender: i32,
    birth_year: Option<i32>,
    death_year: Option<i32>,
    birth_event_handle: String,
    death_event_handle: String,
    now: i64,
) -> (r: Result<(), RepoError>)
    requires
        old(tree).wf(),
    ensures
        person_update_done(*old(tree), *final(tree), handle@, first_name@, surname@, gender, birth_year, death_year, birth_event_handle@, death_event_handle@, r),
        r is Ok ==> final(tree).persons@[find_key(old(tree).persons@, handle@)->0].change == now,
{
    let i = match find(&tree.persons, handle) {
        Some(i) => i,
        None => {
            proof {
                lemma_find_key(tree.persons@, handle@);
            }
            return Err(RepoError::NotFound { class: ObjClass::Person, handle: String::from_str(handle) });
        },
    };
    proof {
        lemma_find_key(tree.persons@, handle@);
    }
    let ghost o = tree.persons@[i as int];
    let ghost ev0 = tree.events@;
    let ghost bh = birth_event_handle@;
    let ghost dh = death_event_handle@;
    let n0 = tree.persons[i].event_ref_list.len();
    let didx = tree.persons[i].death_ref_index;
    let b_sets = match birth_year {
        Some(v) => v != 0,
        None => false,
    };
    let by: i32 = match birth_year {
        Some(v) => v,
        None => 0,
    };
    let d_sets = match death_year {
        Some(v) => v != 0,
        None => false,
    };
    let dy: i32 = match death_year {
        Some(v) => v,
        None => 0,
    };
    let b_linked = linked_exec(&tree.persons[i].event_ref_list, tree.persons[i].birth_ref_index);
    let bc = b_sets && b_linked.is_none();
    // The birth step's checks.
    if b_sets {
        if let Some(h) = &b_linked {
            let found = find(&tree.events, h.as_str()).is_some();
            proof {
                lemma_find_key(tree.events@, h@);
            }
            if !found {
                return Err(RepoError::NotFound { class: ObjClass::Event, handle: h.clone() });
            }
        }
    }
    let max_e = max_gramps_number(&tree.events, 'E');
    if bc {
        if max_e == 0x7fff_ffff_ffff_ffff {
            return Err(RepoError::IdsExhausted { class: ObjClass::Event });
        }
        let taken = find(&tree.events, birth_event_handle.as_str()).is_some();
        proof {
            lemma_find_key(tree.events@, bh);
        }
        if taken {
            return Err(RepoError::HandleInUse { class: ObjClass::Event, handle: birth_event_handle });
        }
    }
    // The death step's checks, on the links as the birth step leaves them.
    let d_link: Option<String> = if didx >= 0 && (didx as usize) < n0 {
        Some(tree.persons[i].event_ref_list[didx as usize].ref_.clone())
    } else if bc && didx >= 0 && (didx as usize) == n0 {
        Some(birth_event_handle.clone())
    } else {
        None
    };
    assert(opt_string_view(d_link) == death_link(o, birth_year, bh));
    let dc = d_sets && d_link.is_none();
    if d_sets {
        if let Some(h) = &d_link {
            let found = find(&tree.events, h.as_str()).is_some();
            proof {
                lemma_find_key(tree.events@, h@);
            }
            if !found && !(bc && str_eq(h.as_str(), birth_event_handle.as_str())) {
                return Err(RepoError::NotFound { class: ObjClass::Event, handle: h.clone() });
            }
        }
    }
    if dc {
        let room = if bc {
            max_e < 0x7fff_ffff_ffff_fffe
        } else {
            max_e < 0x7fff_ffff_ffff_ffff
        };
        if !room {
            return Err(RepoError::IdsExhausted { class: ObjClass::Event });
        }
        let taken = find(&tree.events, death_event_handle.as_str()).is_some();
        proof {
            lemma_find_key(tree.events@, dh);
        }
        if taken || (bc && str_eq(death_event_handle.as_str(), birth_event_handle.as_str())) {
            return Err(RepoError::HandleInUse { class: ObjClass::Event, handle: death_event_handle });
        }
    }
    // Every check passed: apply.
    let ghost before = tree.persons@;
    let ghost r0 = tree.references@;
    let mut p = take_row(&mut tree.persons, i);
    p.primary_name = build_name(first_name, surname);
    p.gender = gender;
    if !b_sets {
        p.birth_ref_index = -1;
    } else {
        match b_linked {
            Some(h) => {
                proof {
                    lemma_find_key(tree.events@, h@);
                }
                let _r = set_year(tree, h.as_str(), by);
            },
            None => {
                let idx = add_year_event(tree, &mut p, birth_event_handle, 12, by);
                p.birth_ref_index = idx;
            },
        }
    }
    let ghost ev1 = tree.events@;
    let ghost p1 = p;
    proof {
        if bc {
            lemma_next_id_push(ev0, ev1[ev0.len() as int], 'E');
            assert(ev1 =~= ev0.push(ev1[ev0.len() as int]));
            assert forall|h: Seq<char>| has_key(ev1, h) <==> has_key(ev0, h) || h == bh by {
                if has_key(ev1, h) {
                    let k = choose|k: int| 0 <= k < ev1.len() && #[trigger] ev1[k].key() == h;
                    if k < ev0.len() {
                        assert(ev1[k] == ev0[k]);
                    }
                }
                if has_key(ev0, h) {
                    let k = choose|k: int| 0 <= k < ev0.len() && #[trigger] ev0[k].key() == h;
                    assert(ev1[k] == ev0[k]);
                }
                if h == bh {
                    assert(ev1[ev0.len() as int].key() == h);
                }
            }
        } else {
            lemma_same_keys(ev0, ev1);
        }
    }
    if !d_sets {
        p.death_ref_index = -1;
    } else {
        match d_link {
            Some(h) => {
                assert(has_key(tree.events@, h@));
                proof {
                    lemma_find_key(tree.events@, h@);
                }
                let _r = set_year(tree, h.as_str(), dy);
            },
            None => {
                let idx = add_year_event(tree, &mut p, death_event_handle, 13, dy);
                p.death_ref_index = idx;
            },
        }
    }
    let ghost ev2 = tree.events@;
    let ghost pv = p;
    proof {
        if !dc {
            lemma_same_keys(ev1, ev2);
        }
        assert(pv.event_ref_list@.subrange(0, n0 as int) =~= o.event_ref_list@);
        if bc {
            assert(pv.event_ref_list@[n0 as int] == p1.event_ref_list@[n0 as int]);
        }
        if dc {
            assert(ev2 =~= ev1.push(ev2[ev1.len() as int]));
            assert(ev2.subrange(0, ev0.len() + birth_added(o, birth_year)) =~= ev1);
        }
    }
    store_person(tree, i, p, now, Ghost(before));
    proof {
        assert(person_refs(tree.persons@[i as int]) == person_refs(pv));
    }
    Ok(())
}


/// What the delete cascade of person `ph` makes of family `o`: as a family
/// the person is a parent in (`as_parent`), a father or mother slot that
/// names the person is cleared; as a family the person is a child of
/// (`as_child`), the person's child links go. Such a family is rewritten;
/// any other stays exactly as it was.
pub open spec fn family_detached(o: Family, n: Family, ph: Seq<char>, as_parent: bool, as_child: bool) -> bool {
    if !as_parent && !as_child {
        n == o
    } else {
        &&& n == Family { father_handle: n.father_handle, mother_handle: n.mother_handle, child_ref_list: n.child_ref_list, change: n.change, ..o }
        &&& n.father_handle == if as_parent && opt_view(o.father_handle) == Some(ph) {
            None
        } else {
            o.father_handle
        }
        &&& n.mother_handle == if as_parent && opt_view(o.mother_handle) == Some(ph) {
            None
        } else {
            o.mother_handle
        }
        &&& n.child_ref_list@ == if as_child {
            keep_links(o.child_ref_list@, ph)
        } else {
            o.child_ref_list@
        }
    }
}

proof fn lemma_detach_step(o: Family, c: Family, n: Family, ph: Seq<char>, p: bool, ch: bool, parent_step: bool)
    requires
        family_detached(o, c, ph, p, ch),
        parent_step ==> n == (Family {
            father_handle: if opt_view(c.father_handle) == Some(ph) {
                None
            } else {
                c.father_handle
            },
            mother_handle: if opt_view(c.mother_handle) == Some(ph) {
                None
            } else {
                c.mother_handle
            },
            change: n.change,
            ..c
        }),
        !parent_step ==> n == (Family { child_ref_list: n.child_ref_list, change: n.change, ..c }) && n.child_ref_list@ == keep_links(
            c.child_ref_list@,
            ph,
        ),
    ensures
        family_detached(o, n, ph, p || parent_step, ch || !parent_step),
{
    lemma_keep_links(o.child_ref_list@, ph);
    lemma_keep_links(keep_links(o.child_ref_list@, ph), ph);
}

fn opt_is(o: &Option<String>, h: &str) -> (r: bool)
    ensures
        r == (opt_view(*o) == Some(h@)),
{
    match o {
        Some(x) => str_eq(x.as_str(), h),
        None => false,
    }
}

/// The events a person links to that nothing else links to: those with at
/// most one `reference` row pointing at them, in link order.
pub open spec fn exclusive_events(list: Seq<EventRef>, refs: Seq<Reference>) -> Seq<Seq<char>>
    decreases list.len(),
{
    if list.len() == 0 {
        Seq::empty()
    } else {
        let rest = exclusive_events(list.drop_last(), refs);
        if inbound(refs, list.last().ref_@) <= 1 {
            rest.push(list.last().ref_@)
        } else {
            rest
        }
    }
}

/// The events and `reference` rows once each candidate, in order, is
/// deleted when it exists and nothing points at it any more.
pub open spec fn events_pruned(ev: Seq<Event>, refs: Seq<Reference>, cands: Seq<Seq<char>>) -> (Seq<Event>, Seq<Reference>)
    decreases cands.len(),
{
    if cands.len() == 0 {
        (ev, refs)
    } else {
        let prev = events_pruned(ev, refs, cands.drop_last());
        let h = cands.last();
        if inbound(prev.1, h) == 0 && find_key(prev.0, h) is Some {
            (prev.0.remove(find_key(prev.0, h).unwrap()), drop_obj(prev.1, h))
        } else {
            prev
        }
    }
}

/// The rows of the families the cascade rewrote, and of every other
/// object the rows it had.
pub open spec fn family_rows_refreshed(old_f: Seq<Family>, cur_f: Seq<Family>, r0: Seq<Reference>, r1: Seq<Reference>, saved: spec_fn(Seq<char>) -> bool) -> bool {
    forall|g: Seq<char>| #[trigger] refs_from(r1, g) == if (find_key(old_f, g) matches Some(j) && saved(g)) {
        family_refs(cur_f[find_key(old_f, g).unwrap()])
    } else {
        refs_from(r0, g)
    }
}

/// What [`delete_with_cascade`] does and when it is refused.
pub open spec fn person_delete_done(a: Snapshot, b: Snapshot, handle: Seq<char>, delete_owned_events: bool, r: Result<(), RepoError>) -> bool {
    &&& b.wf()
    &&& only_changed(a, b, set![ObjClass::Person, ObjClass::Family, ObjClass::Event])
    &&& match r {
        Ok(()) => find_key(a.persons@, handle) matches Some(i) && {
            let p = a.persons@[i];
            let fams = a.families@;
            &&& b.persons@ == a.persons@.remove(i)
            &&& !has_key(b.persons@, handle)
            &&& b.families@.len() == fams.len()
            &&& forall|j: int| 0 <= j < fams.len() ==> family_detached(fams[j], #[trigger] b.families@[j], handle,
                links_to(p.family_list@, fams[j].handle@), links_to(p.parent_family_list@, fams[j].handle@))
            &&& forall|j: int| 0 <= j < fams.len() && links_to(p.family_list@, fams[j].handle@) ==> {
                &&& opt_view((#[trigger] b.families@[j]).father_handle) != Some(handle)
                &&& opt_view(b.families@[j].mother_handle) != Some(handle)
            }
            &&& forall|j: int| 0 <= j < fams.len() && links_to(p.parent_family_list@, fams[j].handle@) ==>
                !links_to((#[trigger] b.families@[j]).child_ref_list@, handle)
            &&& exists|r1: Seq<Reference>| {
                &&& family_rows_refreshed(fams, b.families@, a.references@, r1,
                    |g: Seq<char>| links_to(p.family_list@, g) || links_to(p.parent_family_list@, g))
                &&& (b.events@, b.references@) == events_pruned(a.events@, drop_obj(r1, handle),
                    if delete_owned_events { exclusive_events(p.event_ref_list@, r1) } else { Seq::empty() })
            }
        },
        Err(e) => {
            &&& !has_key(a.persons@, handle)
            &&& e matches RepoError::NotFound { .. }
            &&& b.persons@ == a.persons@
            &&& b.families@ == a.families@
            &&& b.events@ == a.events@
            &&& b.references@ == a.references@
        },
    }
}

/// Delete a person with cascade: every family the person is a parent in
/// loses the person as father or mother, every family the person is a
/// child of loses the person's child links (each such family is rewritten);
/// then the person row and its outbound references go. With
/// `delete_owned_events`, each event the person linked that had at most
/// one `reference` row pointing at it (counted before the person's own rows
/// go) is then deleted, when nothing points at it any more.
#[verifier::rlimit(60)]
pub fn delete_with_cascade(tree: &mut Snapshot, handle: &str, delete_owned_events: bool) -> (r: Result<(), RepoError>)
    requires
        old(tree).wf(),
    ensures
        person_delete_done(*old(tree), *final(tree), handle@, delete_owned_events, r),
{
    let i = match find(&tree.persons, handle) {
        Some(i) => i,
        None => {
            proof {
                lemma_find_key(tree.persons@, handle@);
            }
            return Err(RepoError::NotFound { class: ObjClass::Person, handle: String::from_str(handle) });
        },
    };
    proof {
        lemma_find_key(tree.persons@, handle@);
        lemma_find_remove(tree.persons@, i as int);
    }
    let p = take_row(&mut tree.persons, i);
    let ghost fams = tree.families@;
    let ghost r0 = tree.references@;
    let ghost fl = p.family_list@;
    let ghost pfl = p.parent_family_list@;
    proof {
        assert(fl.subrange(0, 0) =~= Seq::<String>::empty());
        assert(pfl.subrange(0, 0) =~= Seq::<String>::empty());
        assert forall|g: Seq<char>| #[trigger] refs_from(tree.references@, g) == if (find_key(fams, g) matches Some(j) && (links_to(fl.subrange(0, 0), g) || links_to(pfl.subrange(0, 0), g))) {
            family_refs(tree.families@[find_key(fams, g).unwrap()])
        } else {
            refs_from(r0, g)
        } by {}
    }
    // 1. Families the person is a parent in.
    let n1 = p.family_list.len();
    let mut k: usize = 0;
    while k < n1
        invariant
            n1 == fl.len(),
            fl == p.family_list@,
            pfl == p.parent_family_list@,
            k <= n1,
            tree.wf(),
            only_changed(*old(tree), *tree, set![ObjClass::Person, ObjClass::Family]),
            tree.persons@ == old(tree).persons@.remove(i as int),
            fams == old(tree).families@,
            r0 == old(tree).references@,
            unique_keys(fams),
            tree.families@.len() == fams.len(),
            forall|h: Seq<char>| #[trigger] find_key(tree.families@, h) == find_key(fams, h),
            forall|j: int| 0 <= j < fams.len() ==> family_detached(fams[j], #[trigger] tree.families@[j], handle@,
                links_to(fl.subrange(0, k as int), fams[j].handle@), false),
            forall|g: Seq<char>| #[trigger] refs_from(tree.references@, g) == if (find_key(fams, g) matches Some(j) && (links_to(fl.subrange(0, k as int), g) || links_to(pfl.subrange(0, 0), g))) {
                family_refs(tree.families@[find_key(fams, g).unwrap()])
            } else {
                refs_from(r0, g)
            },
        decreases n1 - k,
    {
        let fh = p.family_list[k].as_str();
        let ghost cur = tree.families@;
        let ghost rk = tree.references@;
        match find(&tree.families, fh) {
            None => {
                proof {
                    lemma_find_key(cur, fh@);
                    lemma_find_key(fams, fh@);
                    assert forall|j: int| 0 <= j < fams.len() implies family_detached(fams[j], #[trigger] tree.families@[j], handle@,
                        links_to(fl.subrange(0, k + 1), fams[j].handle@), false) by {
                        super::family::lemma_links_to_prefix(fl, k as int, fams[j].handle@);
                        assert(fams[j].key() == fams[j].handle@);
                    }
                    assert forall|g: Seq<char>| #[trigger] refs_from(tree.references@, g) == if (find_key(fams, g) matches Some(j) && (links_to(fl.subrange(0, k + 1), g) || links_to(pfl.subrange(0, 0), g))) {
                        family_refs(tree.families@[find_key(fams, g).unwrap()])
                    } else {
                        refs_from(r0, g)
                    } by {
                        super::family::lemma_links_to_prefix(fl, k as int, g);
                        lemma_find_key(fams, g);
                    }
                }
            },
            Some(j) => {
                proof {
                    lemma_find_key(cur, fh@);
                    lemma_find_key(fams, fh@);
                }
                let ghost before = tree.families@;
                let mut f = take_row(&mut tree.families, j);
                let ghost c = f;
                if opt_is(&f.father_handle, handle) {
                    f.father_handle = None;
                }
                if opt_is(&f.mother_handle, handle) {
                    f.mother_handle = None;
                }
                let ghost fv = f;
                store_family(tree, j, f, now_unix(), Ghost(before));
                proof {
                    assert forall|m: int| 0 <= m < fams.len() implies family_detached(fams[m], #[trigger] tree.families@[m], handle@,
                        links_to(fl.subrange(0, k + 1), fams[m].handle@), false) by {
                        super::family::lemma_links_to_prefix(fl, k as int, fams[m].handle@);
                        if m == j {
                            lemma_detach_step(fams[m], c, tree.families@[m], handle@, links_to(fl.subrange(0, k as int), fams[m].handle@), false, true);
                        } else {
                            assert(fams[m].key() != fh@);
                        }
                    }
                    assert forall|g: Seq<char>| #[trigger] refs_from(tree.references@, g) == if (find_key(fams, g) matches Some(m) && (links_to(fl.subrange(0, k + 1), g) || links_to(pfl.subrange(0, 0), g))) {
                        family_refs(tree.families@[find_key(fams, g).unwrap()])
                    } else {
                        refs_from(r0, g)
                    } by {
                        super::family::lemma_links_to_prefix(fl, k as int, g);
                        lemma_find_key(fams, g);
                        if g == fh@ {
                            assert(family_refs(tree.families@[j as int]) == family_refs(fv));
                        } else if let Some(m) = find_key(fams, g) {
                            assert(m != j);
                        }
                    }
                }
            },
        }
        k = k + 1;
    }
    proof {
        assert(fl.subrange(0, n1 as int) =~= fl);
    }
    // 2. Families the person is a child of.
    let n2 = p.parent_family_list.len();
    let mut k: usize = 0;
    while k < n2
        invariant
            n2 == pfl.len(),
            fl == p.family_list@,
            pfl == p.parent_family_list@,
            k <= n2,
            tree.wf(),
            only_changed(*old(tree), *tree, set![ObjClass::Person, ObjClass::Family]),
            tree.persons@ == old(tree).persons@.remove(i as int),
            fams == old(tree).families@,
            r0 == old(tree).references@,
            unique_keys(fams),
            tree.families@.len() == fams.len(),
            forall|h: Seq<char>| #[trigger] find_key(tree.families@, h) == find_key(fams, h),
            forall|j: int| 0 <= j < fams.len() ==> family_detached(fams[j], #[trigger] tree.families@[j], handle@,
                links_to(fl, fams[j].handle@), links_to(pfl.subrange(0, k as int), fams[j].handle@)),
            forall|g: Seq<char>| #[trigger] refs_from(tree.references@, g) == if (find_key(fams, g) matches Some(j) && (links_to(fl, g) || links_to(pfl.subrange(0, k as int), g))) {
                family_refs(tree.families@[find_key(fams, g).unwrap()])
            } else {
                refs_from(r0, g)
            },
        decreases n2 - k,
    {
        let fh = p.parent_family_list[k].as_str();
        let ghost cur = tree.families@;
        match find(&tree.families, fh) {
            None => {
                proof {
                    lemma_find_key(cur, fh@);
                    lemma_find_key(fams, fh@);
                    assert forall|j: int| 0 <= j < fams.len() implies family_detached(fams[j], #[trigger] tree.families@[j], handle@,
                        links_to(fl, fams[j].handle@), links_to(pfl.subrange(0, k + 1), fams[j].handle@)) by {
                        super::family::lemma_links_to_prefix(pfl, k as int, fams[j].handle@);
                        assert(fams[j].key() == fams[j].handle@);
                    }
                    assert forall|g: Seq<char>| #[trigger] refs_from(tree.references@, g) == if (find_key(fams, g) matches Some(j) && (links_to(fl, g) || links_to(pfl.subrange(0, k + 1), g))) {
                        family_refs(tree.families@[find_key(fams, g).unwrap()])
                    } else {
                        refs_from(r0, g)
                    } by {
                        super::family::lemma_links_to_prefix(pfl, k as int, g);
                        lemma_find_key(fams, g);
                    }
                }
            },
            Some(j) => {
                proof {
                    lemma_find_key(cur, fh@);
                    lemma_find_key(fams, fh@);
                }
                let ghost before = tree.families@;
                let mut f = take_row(&mut tree.families, j);
                let ghost c = f;
                let list = f.child_ref_list;
                f.child_ref_list = drop_links_to(list, handle);
                let ghost fv = f;
                store_family(tree, j, f, now_unix(), Ghost(before));
                proof {
                    assert forall|m: int| 0 <= m < fams.len() implies family_detached(fams[m], #[trigger] tree.families@[m], handle@,
                        links_to(fl, fams[m].handle@), links_to(pfl.subrange(0, k + 1), fams[m].handle@)) by {
                        super::family::lemma_links_to_prefix(pfl, k as int, fams[m].handle@);
                        if m == j {
                            lemma_detach_step(fams[m], c, tree.families@[m], handle@, links_to(fl, fams[m].handle@), links_to(pfl.subrange(0, k as int), fams[m].handle@), false);
                        } else {
                            assert(fams[m].key() != fh@);
                        }
                    }
                    assert forall|g: Seq<char>| #[trigger] refs_from(tree.references@, g) == if (find_key(fams, g) matches Some(m) && (links_to(fl, g) || links_to(pfl.subrange(0, k + 1), g))) {
                        family_refs(tree.families@[find_key(fams, g).unwrap()])
                    } else {
                        refs_from(r0, g)
                    } by {
                        super::family::lemma_links_to_prefix(pfl, k as int, g);
                        lemma_find_key(fams, g);
                        if g == fh@ {
                            assert(family_refs(tree.families@[j as int]) == family_refs(fv));
                        } else if let Some(m) = find_key(fams, g) {
                            assert(m != j);
                        }
                    }
                }
            },
        }
        k = k + 1;
    }
    let ghost r1 = tree.references@;
    proof {
        assert(pfl.subrange(0, n2 as int) =~= pfl);
        assert(family_rows_refreshed(fams, tree.families@, r0, r1, |g: Seq<char>| links_to(fl, g) || links_to(pfl, g)));
    }
    // 3. The events only this person links to, counted while the person's
    //    own reference rows are still there.
    let mut owned: Vec<String> = Vec::new();
    if delete_owned_events {
        let m = p.event_ref_list.len();
        let mut k: usize = 0;
        while k < m
            invariant
                m == p.event_ref_list@.len(),
                k <= m,
                tree.references@ == r1,
                handle_views(owned@) == exclusive_events(p.event_ref_list@.subrange(0, k as int), r1),
            decreases m - k,
        {
            let ghost prev = owned@;
            let eh = &p.event_ref_list[k].ref_;
            assert(p.event_ref_list@.subrange(0, k + 1).drop_last() =~= p.event_ref_list@.subrange(0, k as int));
            if inbound_ref_count(&tree.references, eh.as_str()) <= 1 {
                owned.push(eh.clone());
                assert(handle_views(owned@) =~= handle_views(prev).push(eh@));
            }
            k = k + 1;
        }
        assert(p.event_ref_list@.subrange(0, m as int) =~= p.event_ref_list@);
    } else {
        assert(handle_views(owned@) =~= Seq::<Seq<char>>::empty());
    }
    // 4. The person's own reference rows (the row is already out).
    remove_references(&mut tree.references, handle);
    // 5. The owned events, each if nothing points at it any more.
    let ghost ev0 = tree.events@;
    let ghost r2 = tree.references@;
    let ghost cands = handle_views(owned@);
    let mut k: usize = 0;
    while k < owned.len()
        invariant
            k <= owned@.len(),
            cands == handle_views(owned@),
            tree.wf(),
            only_changed(*old(tree), *tree, set![ObjClass::Person, ObjClass::Family, ObjClass::Event]),
            tree.persons@ == old(tree).persons@.remove(i as int),
            (tree.events@, tree.references@) == events_pruned(ev0, r2, cands.subrange(0, k as int)),
            tree.families@.len() == fams.len(),
            forall|j: int| 0 <= j < fams.len() ==> family_detached(fams[j], #[trigger] tree.families@[j], handle@,
                links_to(fl, fams[j].handle@), links_to(pfl, fams[j].handle@)),
            family_rows_refreshed(fams, tree.families@, r0, r1, |g: Seq<char>| links_to(fl, g) || links_to(pfl, g)),
        decreases owned@.len() - k,
    {
        let ghost pe = tree.events@;
        let ghost pr = tree.references@;
        assert(cands.subrange(0, k + 1).drop_last() =~= cands.subrange(0, k as int));
        assert(cands.subrange(0, k + 1).last() == owned@[k as int]@);
        proof {
            lemma_find_key(pe, owned@[k as int]@);
        }
        let _r = super::event::delete(tree, owned[k].as_str());
        k = k + 1;
    }
    proof {
        assert(cands.subrange(0, owned@.len() as int) =~= cands);
        assert forall|j: int| 0 <= j < fams.len() && links_to(fl, fams[j].handle@) implies {
            &&& opt_view((#[trigger] tree.families@[j]).father_handle) != Some(handle@)
            &&& opt_view(tree.families@[j].mother_handle) != Some(handle@)
        } by {}
        assert forall|j: int| 0 <= j < fams.len() && links_to(pfl, fams[j].handle@) implies
            !links_to((#[trigger] tree.families@[j]).child_ref_list@, handle@) by {
            lemma_keep_links(fams[j].child_ref_list@, handle@);
        }
    }
    Ok(())
}


/// Summary of what deleting a person would do, shown before the delete is
/// confirmed.
#[derive(Debug, Clone)]
pub struct DeletePreview {
    pub handle: String,
    pub display_name: String,
    /// Gramps ids of the families where this person is father or mother.
    pub parent_of: Vec<String>,
    /// Gramps ids of the families where this person is a child.
    pub child_of: Vec<String>,
    /// Number of links in the person's `event_ref_list`.
    pub event_count: usize,
    /// Number of those links whose event nothing else points at, which the
    /// cascade can delete with the person.
    pub exclusive_event_count: usize,
}

/// The gramps ids of the families that `list` names and that exist, in
/// list order.
pub open spec fn family_ids(fams: Seq<Family>, list: Seq<String>) -> Seq<Seq<char>>
    decreases list.len(),
{
    if list.len() == 0 {
        Seq::empty()
    } else {
        let rest = family_ids(fams, list.drop_last());
        match find_key(fams, list.last()@) {
            Some(j) => rest.push(fams[j].gramps_id@),
            None => rest,
        }
    }
}

fn collect_family_ids(fams: &Vec<Family>, list: &Vec<String>) -> (r: Vec<String>)
    ensures
        handle_views(r@) == family_ids(fams@, list@),
{
    let mut out: Vec<String> = Vec::new();
    let mut k: usize = 0;
    while k < list.len()
        invariant
            k <= list@.len(),
            handle_views(out@) == family_ids(fams@, list@.subrange(0, k as int)),
        decreases list.len() - k,
    {
        let ghost prev = out@;
        assert(list@.subrange(0, k + 1).drop_last() =~= list@.subrange(0, k as int));
        match find(fams, list[k].as_str()) {
            Some(j) => {
                out.push(fams[j].gramps_id.clone());
                assert(handle_views(out@) =~= handle_views(prev).push(fams@[j as int].gramps_id@));
            },
            None => {},
        }
        k = k + 1;
    }
    assert(list@.subrange(0, list@.len() as int) =~= list@);
    out
}

/// What deleting the person would do, without changing anything: the
/// families it is a parent in and a child of (those that exist), how many
/// events it links to, and how many of those nothing else points at.
pub fn preview_delete(tree: &Snapshot, handle: &str) -> (r: Result<DeletePreview, RepoError>)
    ensures
        match r {
            Ok(pv) => find_key(tree.persons@, handle@) matches Some(i) && {
                let p = tree.persons@[i];
                &&& pv.handle@ == handle@
                &&& pv.display_name@ == name_display(p.primary_name)
                &&& handle_views(pv.parent_of@) == family_ids(tree.families@, p.family_list@)
                &&& handle_views(pv.child_of@) == family_ids(tree.families@, p.parent_family_list@)
                &&& pv.event_count == p.event_ref_list@.len()
                &&& pv.exclusive_event_count == exclusive_events(p.event_ref_list@, tree.references@).len()
            },
            Err(e) => !has_key(tree.persons@, handle@) && e matches RepoError::NotFound { .. },
        },
{
    let i = match find(&tree.persons, handle) {
        Some(i) => i,
        None => {
            proof {
                lemma_find_key(tree.persons@, handle@);
            }
            return Err(RepoError::NotFound { class: ObjClass::Person, handle: String::from_str(handle) });
        },
    };
    let p = &tree.persons[i];
    let parent_of = collect_family_ids(&tree.families, &p.family_list);
    let child_of = collect_family_ids(&tree.families, &p.parent_family_list);
    let m = p.event_ref_list.len();
    let mut n: usize = 0;
    let mut k: usize = 0;
    while k < m
        invariant
            m == p.event_ref_list@.len(),
            k <= m,
            n == exclusive_events(p.event_ref_list@.subrange(0, k as int), tree.references@).len(),
            n <= k,
        decreases m - k,
    {
        assert(p.event_ref_list@.subrange(0, k + 1).drop_last() =~= p.event_ref_list@.subrange(0, k as int));
        if inbound_ref_count(&tree.references, p.event_ref_list[k].ref_.as_str()) <= 1 {
            n = n + 1;
        }
        k = k + 1;
    }
    assert(p.event_ref_list@.subrange(0, m as int) =~= p.event_ref_list@);
    Ok(DeletePreview {
        handle: String::from_str(handle),
        display_name: p.primary_name.display(),
        parent_of,
        child_of,
        event_count: m,
        exclusive_event_count: n,
    })
}

} // verus!
