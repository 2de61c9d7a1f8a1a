use anan::db::refs::{inbound_ref_count, remove_references, rewrite_references};
use anan::db::repo::common::{next_gramps_id, now_unix, unix_stamp, RepoError};
use anan::db::repo::{citation, event, family, media, note, person, place, repository, source, tag};
use anan::db::{HandleIndex, ObjClass, Reference, Snapshot};

fn empty() -> Snapshot {
    Snapshot {
        path: String::from("tree.db"),
        persons: Vec::new(),
        families: Vec::new(),
        events: Vec::new(),
        places: Vec::new(),
        sources: Vec::new(),
        citations: Vec::new(),
        media: Vec::new(),
        notes: Vec::new(),
        repositories: Vec::new(),
        tags: Vec::new(),
        references: Vec::new(),
    }
}

fn add_person(t: &mut Snapshot, h: &str, first: &str, surname: &str, gender: i32) -> usize {
    person::create(t, h.to_string(), first, surname, gender, None, None, String::new(), String::new()).unwrap()
}

fn refs_of(t: &Snapshot, h: &str) -> Vec<(String, ObjClass)> {
    t.references.iter().filter(|r| r.obj_handle == h).map(|r| (r.ref_handle.clone(), r.ref_class)).collect()
}

fn person_row<'a>(t: &'a Snapshot, h: &str) -> &'a anan::gramps::person::Person {
    t.person(h).unwrap()
}

#[test]
fn tag_create_update_delete() {
    let mut t = empty();
    assert_eq!(tag::create(&mut t, "t1".to_string(), "todo", "#ff0000", 3), Ok(0));
    assert_eq!(t.tags[0].name, "todo");
    assert_eq!(t.tags[0].color, "#ff0000");
    assert_eq!(t.tags[0].priority, 3);
    assert!(t.tags[0].change > 0);
    assert_eq!(tag::update(&mut t, "t1", "done", "#00ff00", 1), Ok(()));
    assert_eq!(t.tags[0].name, "done");
    assert_eq!(t.tags[0].priority, 1);
    assert_eq!(tag::delete(&mut t, "t1"), Ok(()));
    assert!(t.tags.is_empty());
    assert!(matches!(tag::delete(&mut t, "t1"), Err(RepoError::NotFound { class: ObjClass::Tag, .. })));
    assert!(matches!(tag::update(&mut t, "t1", "x", "y", 0), Err(RepoError::NotFound { .. })));
}

#[test]
fn create_refuses_a_handle_in_use() {
    let mut t = empty();
    tag::create(&mut t, "t1".to_string(), "a", "", 0).unwrap();
    assert_eq!(
        tag::create(&mut t, "t1".to_string(), "b", "", 0),
        Err(RepoError::HandleInUse { class: ObjClass::Tag, handle: "t1".to_string() })
    );
    assert_eq!(t.tags.len(), 1);
    assert_eq!(t.tags[0].name, "a");
}

#[test]
fn delete_is_refused_while_referenced() {
    let mut t = empty();
    tag::create(&mut t, "t1".to_string(), "a", "", 0).unwrap();
    t.references.push(Reference {
        obj_handle: "n1".to_string(),
        obj_class: ObjClass::Note,
        ref_handle: "t1".to_string(),
        ref_class: ObjClass::Tag,
    });
    assert_eq!(
        tag::delete(&mut t, "t1"),
        Err(RepoError::StillReferenced { class: ObjClass::Tag, handle: "t1".to_string(), count: 1 })
    );
    assert_eq!(t.tags.len(), 1);
    remove_references(&mut t.references, "n1");
    assert_eq!(tag::delete(&mut t, "t1"), Ok(()));
}

#[test]
fn gramps_ids_follow_the_largest_number() {
    let mut t = empty();
    assert_eq!(next_gramps_id(&t.notes, 'N'), Some("N0000".to_string()));
    note::create(&mut t, "n1".to_string(), 1, "first").unwrap();
    note::create(&mut t, "n2".to_string(), 1, "second").unwrap();
    assert_eq!(t.notes[0].gramps_id, "N0000");
    assert_eq!(t.notes[1].gramps_id, "N0001");
    t.notes[0].gramps_id = "N0041".to_string();
    t.notes[1].gramps_id = "X9999".to_string();
    assert_eq!(next_gramps_id(&t.notes, 'N'), Some("N0042".to_string()));
    t.notes[1].gramps_id = "N12a".to_string();
    assert_eq!(next_gramps_id(&t.notes, 'N'), Some("N0042".to_string()));
    t.notes[1].gramps_id = "N123456".to_string();
    assert_eq!(next_gramps_id(&t.notes, 'N'), Some("N123457".to_string()));
    t.notes[1].gramps_id = format!("N{}", i64::MAX);
    assert_eq!(next_gramps_id(&t.notes, 'N'), None);
    assert_eq!(note::create(&mut t, "n3".to_string(), 1, ""), Err(RepoError::IdsExhausted { class: ObjClass::Note }));
}

#[test]
fn note_update_keeps_the_text_tags() {
    let mut t = empty();
    note::create(&mut t, "n1".to_string(), 1, "body").unwrap();
    assert_eq!(t.notes[0].text.string, "body");
    note::update(&mut t, "n1", 4, "new body").unwrap();
    assert_eq!(t.notes[0].text.string, "new body");
    assert_eq!(t.notes[0].type_.value, 4);
    assert_eq!(note::delete(&mut t, "n1"), Ok(()));
}

#[test]
fn person_create_with_years_makes_events() {
    let mut t = empty();
    let i = person::create(
        &mut t,
        "p1".to_string(),
        "Ada",
        "Lovelace",
        0,
        Some(1815),
        Some(1852),
        "e1".to_string(),
        "e2".to_string(),
    )
    .unwrap();
    assert_eq!(i, 0);
    let p = &t.persons[0];
    assert_eq!(p.gramps_id, "I0000");
    assert_eq!(p.primary_name.display(), "Ada Lovelace");
    assert_eq!(p.gender, 0);
    assert_eq!(p.event_ref_list.len(), 2);
    assert_eq!(p.event_ref_list[0].ref_, "e1");
    assert_eq!(p.event_ref_list[1].ref_, "e2");
    assert_eq!(p.event_ref_list[0].role.value, 1);
    assert_eq!(p.birth_ref_index, 0);
    assert_eq!(p.death_ref_index, 1);
    assert_eq!(t.events.len(), 2);
    assert_eq!(t.events[0].gramps_id, "E0000");
    assert_eq!(t.events[1].gramps_id, "E0001");
    assert_eq!(t.events[0].type_.value, 12);
    assert_eq!(t.events[1].type_.value, 13);
    assert_eq!(t.events[0].date.as_ref().unwrap().primary_year(), 1815);
    assert_eq!(t.events[1].date.as_ref().unwrap().primary_year(), 1852);
    assert_eq!(refs_of(&t, "p1"), vec![("e1".to_string(), ObjClass::Event), ("e2".to_string(), ObjClass::Event)]);
    assert!(refs_of(&t, "e1").is_empty());
    assert_eq!(inbound_ref_count(&t.references, "e1"), 1);
}

#[test]
fn person_create_without_years() {
    let mut t = empty();
    add_person(&mut t, "p1", "", "Doe", 2);
    let p = &t.persons[0];
    assert!(p.event_ref_list.is_empty());
    assert_eq!(p.birth_ref_index, -1);
    assert_eq!(p.death_ref_index, -1);
    assert_eq!(p.primary_name.display(), "Doe");
    assert_eq!(p.primary_name.surname_list[0].origintype.value, 2);
    assert_eq!(p.primary_name.type_.value, 2);
    assert!(t.events.is_empty());
}

#[test]
fn person_create_refusals_leave_the_tree_alone() {
    let mut t = empty();
    event::create_full(&mut t, "e1".to_string(), 1, "", None, None).unwrap();
    let r = person::create(&mut t, "p1".to_string(), "A", "B", 1, Some(1900), None, "e1".to_string(), String::new());
    assert_eq!(r, Err(RepoError::HandleInUse { class: ObjClass::Event, handle: "e1".to_string() }));
    assert!(t.persons.is_empty());
    assert_eq!(t.events.len(), 1);
    let r = person::create(&mut t, "p1".to_string(), "A", "B", 1, Some(1900), Some(1950), "e2".to_string(), "e2".to_string());
    assert_eq!(r, Err(RepoError::HandleInUse { class: ObjClass::Event, handle: "e2".to_string() }));
    assert!(t.persons.is_empty());
    add_person(&mut t, "p1", "A", "B", 1);
    let r = person::create(&mut t, "p1".to_string(), "C", "D", 1, None, None, String::new(), String::new());
    assert_eq!(r, Err(RepoError::HandleInUse { class: ObjClass::Person, handle: "p1".to_string() }));
    assert_eq!(t.persons.len(), 1);
}

#[test]
fn person_update_sets_clears_and_creates_years() {
    let mut t = empty();
    person::create(&mut t, "p1".to_string(), "A", "B", 1, Some(1900), None, "e1".to_string(), String::new()).unwrap();
    // The linked birth event gets the new year; a death year creates an event.
    person::update(&mut t, "p1", "Al", "Be", 1, Some(1901), Some(1970), "x1".to_string(), "e2".to_string()).unwrap();
    let p = person_row(&t, "p1");
    assert_eq!(p.primary_name.display(), "Al Be");
    assert_eq!(p.birth_ref_index, 0);
    assert_eq!(p.death_ref_index, 1);
    assert_eq!(p.event_ref_list[1].ref_, "e2");
    assert_eq!(t.event("e1").unwrap().date.as_ref().unwrap().primary_year(), 1901);
    assert_eq!(t.event("e2").unwrap().date.as_ref().unwrap().primary_year(), 1970);
    assert_eq!(t.event("e2").unwrap().type_.value, 13);
    assert!(t.event("x1").is_none());
    // Year 0 or none clears the link and keeps the event.
    person::update(&mut t, "p1", "Al", "Be", 1, Some(0), None, "x1".to_string(), "x2".to_string()).unwrap();
    let p = person_row(&t, "p1");
    assert_eq!(p.birth_ref_index, -1);
    assert_eq!(p.death_ref_index, -1);
    assert_eq!(p.event_ref_list.len(), 2);
    assert_eq!(t.events.len(), 2);
    // Setting the birth year again creates a new event.
    person::update(&mut t, "p1", "Al", "Be", 1, Some(1902), None, "e3".to_string(), "x2".to_string()).unwrap();
    let p = person_row(&t, "p1");
    assert_eq!(p.birth_ref_index, 2);
    assert_eq!(p.event_ref_list[2].ref_, "e3");
    assert_eq!(t.event("e3").unwrap().type_.value, 12);
    assert_eq!(refs_of(&t, "p1").len(), 3);
}

#[test]
fn person_update_refusals() {
    let mut t = empty();
    assert!(matches!(
        person::update(&mut t, "nobody", "A", "B", 1, None, None, String::new(), String::new()),
        Err(RepoError::NotFound { class: ObjClass::Person, .. })
    ));
    add_person(&mut t, "p1", "A", "B", 1);
    event::create_full(&mut t, "e1".to_string(), 1, "", None, None).unwrap();
    let r = person::update(&mut t, "p1", "Z", "Z", 0, Some(1900), None, "e1".to_string(), String::new());
    assert_eq!(r, Err(RepoError::HandleInUse { class: ObjClass::Event, handle: "e1".to_string() }));
    assert_eq!(t.persons[0].primary_name.first_name, "A");
    // A linked birth event that is missing refuses the update.
    t.persons[0].event_ref_list.push(person::primary_event_ref("gone"));
    t.persons[0].birth_ref_index = 0;
    let r = person::update(&mut t, "p1", "Z", "Z", 0, Some(1900), None, "e9".to_string(), String::new());
    assert_eq!(r, Err(RepoError::NotFound { class: ObjClass::Event, handle: "gone".to_string() }));
}

#[test]
fn family_create_links_the_parents() {
    let mut t = empty();
    add_person(&mut t, "a", "Adam", "X", 1);
    add_person(&mut t, "b", "Bea", "X", 0);
    assert_eq!(family::create(&mut t, "f1".to_string(), Some("a".to_string()), Some("b".to_string()), 0), Ok(0));
    let f = t.family("f1").unwrap();
    assert_eq!(f.gramps_id, "F0000");
    assert_eq!(f.father_handle.as_deref(), Some("a"));
    assert_eq!(f.mother_handle.as_deref(), Some("b"));
    assert_eq!(f.type_.value, 0);
    assert_eq!(person_row(&t, "a").family_list, vec!["f1".to_string()]);
    assert_eq!(person_row(&t, "b").family_list, vec!["f1".to_string()]);
    assert_eq!(refs_of(&t, "f1"), vec![("a".to_string(), ObjClass::Person), ("b".to_string(), ObjClass::Person)]);
    assert_eq!(refs_of(&t, "a"), vec![("f1".to_string(), ObjClass::Family)]);
    // A blank parent is unset, and a missing parent is skipped.
    family::create(&mut t, "f2".to_string(), Some(String::new()), Some("ghost".to_string()), 3).unwrap();
    let f = t.family("f2").unwrap();
    assert_eq!(f.father_handle, None);
    assert_eq!(f.mother_handle.as_deref(), Some("ghost"));
    assert_eq!(t.persons.len(), 2);
}

#[test]
fn family_update_moves_the_reverse_links() {
    let mut t = empty();
    add_person(&mut t, "a", "A", "X", 1);
    add_person(&mut t, "b", "B", "X", 0);
    add_person(&mut t, "c", "C", "X", 1);
    family::create(&mut t, "f1".to_string(), Some("a".to_string()), Some("b".to_string()), 0).unwrap();
    family::update(&mut t, "f1", Some("c".to_string()), Some("b".to_string()), 1).unwrap();
    let f = t.family("f1").unwrap();
    assert_eq!(f.father_handle.as_deref(), Some("c"));
    assert_eq!(f.type_.value, 1);
    assert!(person_row(&t, "a").family_list.is_empty());
    assert_eq!(person_row(&t, "c").family_list, vec!["f1".to_string()]);
    assert_eq!(person_row(&t, "b").family_list, vec!["f1".to_string()]);
    assert!(matches!(family::update(&mut t, "nope", None, None, 0), Err(RepoError::NotFound { .. })));
}

#[test]
fn family_update_swapping_parents_drops_the_new_father_link() {
    // Father and mother swap: the father slot is relinked first, then the
    // mother slot's relink removes the family from the person who just
    // became father.
    let mut t = empty();
    add_person(&mut t, "a", "A", "X", 1);
    add_person(&mut t, "b", "B", "X", 0);
    family::create(&mut t, "f1".to_string(), Some("a".to_string()), Some("b".to_string()), 0).unwrap();
    family::update(&mut t, "f1", Some("b".to_string()), Some("a".to_string()), 0).unwrap();
    assert_eq!(person_row(&t, "a").family_list, vec!["f1".to_string()]);
    assert!(person_row(&t, "b").family_list.is_empty());
}

#[test]
fn family_delete_unlinks_parents_and_children() {
    let mut t = empty();
    add_person(&mut t, "a", "A", "X", 1);
    add_person(&mut t, "b", "B", "X", 0);
    add_person(&mut t, "c", "C", "X", 2);
    family::create(&mut t, "f1".to_string(), Some("a".to_string()), Some("b".to_string()), 0).unwrap();
    family::append_child_to_family(&mut t, "f1", "c").unwrap();
    family::edit_person_lists(&mut t, "c", "f1", family::ListEdit::AddParentFamily);
    assert_eq!(person_row(&t, "c").parent_family_list, vec!["f1".to_string()]);
    assert_eq!(family::delete_with_cascade(&mut t, "f1"), Ok(()));
    assert!(t.family("f1").is_none());
    assert!(person_row(&t, "a").family_list.is_empty());
    assert!(person_row(&t, "b").family_list.is_empty());
    assert!(person_row(&t, "c").parent_family_list.is_empty());
    assert!(refs_of(&t, "f1").is_empty());
    assert_eq!(inbound_ref_count(&t.references, "f1"), 0);
    assert!(matches!(family::delete_with_cascade(&mut t, "f1"), Err(RepoError::NotFound { .. })));
}

#[test]
fn append_child_twice_adds_once() {
    let mut t = empty();
    add_person(&mut t, "a", "A", "X", 1);
    add_person(&mut t, "c", "C", "X", 2);
    family::create(&mut t, "f1".to_string(), Some("a".to_string()), None, 0).unwrap();
    family::append_child_to_family(&mut t, "f1", "c").unwrap();
    family::append_child_to_family(&mut t, "f1", "c").unwrap();
    let f = t.family("f1").unwrap();
    assert_eq!(f.child_ref_list.len(), 1);
    assert_eq!(f.child_ref_list[0].ref_, "c");
    assert_eq!(f.child_ref_list[0].frel.value, 1);
    assert_eq!(f.child_ref_list[0].mrel.value, 1);
    assert_eq!(refs_of(&t, "f1"), vec![("a".to_string(), ObjClass::Person), ("c".to_string(), ObjClass::Person)]);
    assert!(matches!(
        family::append_child_to_family(&mut t, "nope", "c"),
        Err(RepoError::NotFound { class: ObjClass::Family, .. })
    ));
}

#[test]
fn person_delete_detaches_from_families() {
    let mut t = empty();
    add_person(&mut t, "a", "A", "X", 1);
    add_person(&mut t, "b", "B", "X", 0);
    add_person(&mut t, "c", "C", "X", 2);
    family::create(&mut t, "f1".to_string(), Some("a".to_string()), Some("b".to_string()), 0).unwrap();
    family::append_child_to_family(&mut t, "f1", "c").unwrap();
    family::edit_person_lists(&mut t, "c", "f1", family::ListEdit::AddParentFamily);
    assert_eq!(person::delete_with_cascade(&mut t, "a", false), Ok(()));
    assert!(t.person("a").is_none());
    let f = t.family("f1").unwrap();
    assert_eq!(f.father_handle, None);
    assert_eq!(f.mother_handle.as_deref(), Some("b"));
    assert!(refs_of(&t, "a").is_empty());
    assert_eq!(refs_of(&t, "f1"), vec![("b".to_string(), ObjClass::Person), ("c".to_string(), ObjClass::Person)]);
    assert_eq!(person::delete_with_cascade(&mut t, "c", false), Ok(()));
    assert!(t.family("f1").unwrap().child_ref_list.is_empty());
    assert!(matches!(person::delete_with_cascade(&mut t, "c", false), Err(RepoError::NotFound { .. })));
}

#[test]
fn person_delete_with_owned_events() {
    let mut t = empty();
    person::create(&mut t, "a".to_string(), "A", "X", 1, Some(1900), Some(1950), "e1".to_string(), "e2".to_string()).unwrap();
    person::create(&mut t, "b".to_string(), "B", "X", 1, None, None, String::new(), String::new()).unwrap();
    // b also links the death event, so it is not exclusive to a.
    let shared = person::primary_event_ref("e2");
    t.persons[1].event_ref_list.push(shared);
    let row = t.persons[1].clone();
    person::save_row(&mut t, row).unwrap();
    let pv = person::preview_delete(&t, "a").unwrap();
    assert_eq!(pv.event_count, 2);
    assert_eq!(pv.exclusive_event_count, 1);
    assert_eq!(pv.display_name, "A X");
    assert_eq!(person::delete_with_cascade(&mut t, "a", true), Ok(()));
    assert!(t.event("e1").is_none());
    assert!(t.event("e2").is_some());
    // Without the flag, events stay.
    person::create(&mut t, "c".to_string(), "C", "X", 1, Some(1800), None, "e3".to_string(), String::new()).unwrap();
    assert_eq!(person::delete_with_cascade(&mut t, "c", false), Ok(()));
    assert!(t.event("e3").is_some());
}

#[test]
fn preview_lists_family_ids() {
    let mut t = empty();
    add_person(&mut t, "a", "A", "X", 1);
    family::create(&mut t, "f1".to_string(), Some("a".to_string()), None, 0).unwrap();
    t.persons[0].family_list.push("missing".to_string());
    t.persons[0].parent_family_list.push("f1".to_string());
    let pv = person::preview_delete(&t, "a").unwrap();
    assert_eq!(pv.handle, "a");
    assert_eq!(pv.parent_of, vec!["F0000".to_string()]);
    assert_eq!(pv.child_of, vec!["F0000".to_string()]);
    assert_eq!(pv.event_count, 0);
    assert!(matches!(person::preview_delete(&t, "zz"), Err(RepoError::NotFound { .. })));
}

#[test]
fn place_delete_cascades_to_places_and_events() {
    let mut t = empty();
    place::create(&mut t, "p1".to_string(), "Town", 15, "1.0", "2.0", None).unwrap();
    place::create(&mut t, "p2".to_string(), "Street", 7, "", "", Some("p1".to_string())).unwrap();
    assert_eq!(t.place("p2").unwrap().placeref_list[0].ref_, "p1");
    event::create_full(&mut t, "e1".to_string(), 1, "wedding", Some("p1".to_string()), None).unwrap();
    assert!(matches!(place::delete_unlinked(&mut t, "p1"), Err(RepoError::StillReferenced { count: 2, .. })));
    assert_eq!(place::delete_with_cascade(&mut t, "p1"), Ok(()));
    assert!(t.place("p1").is_none());
    assert!(t.place("p2").unwrap().placeref_list.is_empty());
    assert_eq!(t.event("e1").unwrap().place, "");
    assert_eq!(t.event("e1").unwrap().description, "wedding");
    assert_eq!(inbound_ref_count(&t.references, "p1"), 0);
    assert!(matches!(place::delete_with_cascade(&mut t, "p1"), Err(RepoError::NotFound { .. })));
}

#[test]
fn place_update_replaces_the_enclosing_place() {
    let mut t = empty();
    place::create(&mut t, "p1".to_string(), "A", 4, "", "", None).unwrap();
    place::create(&mut t, "p2".to_string(), "B", 4, "", "", None).unwrap();
    place::create(&mut t, "p3".to_string(), "C", 7, "", "", Some("p1".to_string())).unwrap();
    place::update(&mut t, "p3", "C2", 7, "3", "4", Some("p2".to_string())).unwrap();
    let p = t.place("p3").unwrap();
    assert_eq!(p.name.value, "C2");
    assert_eq!(p.placeref_list.len(), 1);
    assert_eq!(p.placeref_list[0].ref_, "p2");
    place::update(&mut t, "p3", "C2", 7, "3", "4", None).unwrap();
    assert!(t.place("p3").unwrap().placeref_list.is_empty());
    assert_eq!(place::delete_unlinked(&mut t, "p1"), Ok(()));
}

#[test]
fn event_delete_is_refused_while_linked() {
    let mut t = empty();
    person::create(&mut t, "a".to_string(), "A", "X", 1, Some(1900), None, "e1".to_string(), String::new()).unwrap();
    assert!(matches!(event::delete(&mut t, "e1"), Err(RepoError::StillReferenced { count: 1, .. })));
    event::update_full(&mut t, "e1", 12, "born", None, None).unwrap();
    assert_eq!(t.event("e1").unwrap().description, "born");
    assert!(t.event("e1").unwrap().date.is_none());
}

#[test]
fn sources_citations_media_repositories() {
    let mut t = empty();
    repository::create(&mut t, "r1".to_string(), "Library", 1).unwrap();
    assert_eq!(t.repositories[0].gramps_id, "R0000");
    repository::update(&mut t, "r1", "Archive", 2).unwrap();
    assert_eq!(t.repositories[0].name, "Archive");
    source::create(&mut t, "s1".to_string(), "Book", "Author", "1900", "B").unwrap();
    assert_eq!(t.sources[0].gramps_id, "S0000");
    citation::create(&mut t, "c1".to_string(), "s1", "p. 12", 2, None).unwrap();
    assert_eq!(t.citations[0].gramps_id, "C0000");
    assert_eq!(refs_of(&t, "c1"), vec![("s1".to_string(), ObjClass::Source)]);
    assert!(matches!(source::delete(&mut t, "s1"), Err(RepoError::StillReferenced { count: 1, .. })));
    citation::update(&mut t, "c1", "s1", "p. 13", 3, None).unwrap();
    assert_eq!(t.citations[0].page, "p. 13");
    assert_eq!(citation::delete(&mut t, "c1"), Ok(()));
    assert_eq!(source::delete(&mut t, "s1"), Ok(()));
    media::create(&mut t, "m1".to_string(), "a.jpg", "image/jpeg", "photo", None).unwrap();
    assert_eq!(t.media[0].gramps_id, "O0000");
    media::update(&mut t, "m1", "b.jpg", "image/jpeg", "photo 2", None).unwrap();
    assert_eq!(t.media[0].path, "b.jpg");
    assert_eq!(media::delete(&mut t, "m1"), Ok(()));
    assert_eq!(repository::delete(&mut t, "r1"), Ok(()));
}

#[test]
fn rewriting_references_keeps_other_rows_in_order() {
    let mut rows = vec![
        Reference { obj_handle: "a".into(), obj_class: ObjClass::Person, ref_handle: "x".into(), ref_class: ObjClass::Event },
        Reference { obj_handle: "b".into(), obj_class: ObjClass::Person, ref_handle: "y".into(), ref_class: ObjClass::Event },
        Reference { obj_handle: "a".into(), obj_class: ObjClass::Person, ref_handle: "z".into(), ref_class: ObjClass::Tag },
    ];
    rewrite_references(&mut rows, &"a".to_string(), ObjClass::Person, &vec![("w".to_string(), ObjClass::Note)]);
    assert_eq!(rows.len(), 2);
    assert_eq!(rows[0].obj_handle, "b");
    assert_eq!(rows[1].obj_handle, "a");
    assert_eq!(rows[1].ref_handle, "w");
    assert_eq!(rows[1].ref_class, ObjClass::Note);
    assert_eq!(inbound_ref_count(&rows, "w"), 1);
    assert_eq!(inbound_ref_count(&rows, "x"), 0);
}

#[test]
fn handle_index_maps_handles_to_positions() {
    let mut t = empty();
    add_person(&mut t, "a", "A", "X", 1);
    add_person(&mut t, "b", "B", "X", 1);
    let idx = HandleIndex::build(&t);
    assert_eq!(idx.persons.get("a"), Some(&0));
    assert_eq!(idx.persons.get("b"), Some(&1));
    assert_eq!(idx.persons.get("c"), None);
    assert_eq!(idx.families.get("a"), None);
    assert!(t.is_well_formed());
    t.persons[1].handle = "a".to_string();
    assert!(!t.is_well_formed());
}

#[test]
fn now_unix_is_after_2020() {
    assert!(now_unix() > 1_577_836_800);
}

#[test]
fn change_stamps_come_from_the_clock() {
    let mut t = empty();
    let before = now_unix();
    add_person(&mut t, "a", "A", "X", 1);
    assert!(t.persons[0].change >= before);
}

#[test]
fn writes_stamp_the_given_second() {
    let mut t = empty();
    assert_eq!(tag::create_at(&mut t, "t1".to_string(), "todo", "#ff0000", 3, 1_700_000_000), Ok(0));
    assert_eq!(t.tags[0].change, 1_700_000_000);
    assert_eq!(tag::update_at(&mut t, "t1", "done", "#00ff00", 1, 1_700_000_123), Ok(()));
    assert_eq!(t.tags[0].change, 1_700_000_123);
    assert_eq!(t.tags[0].name, "done");
    assert_eq!(source::create_at(&mut t, "s1".to_string(), "T", "A", "P", "Ab", 42), Ok(0));
    assert_eq!(t.sources[0].change, 42);
    assert_eq!(event::set_year_at(&mut t, "nope", 1900, 7), Err(RepoError::NotFound { class: ObjClass::Event, handle: "nope".to_string() }));
    assert_eq!(person::create_at(&mut t, "p1".to_string(), "Ada", "Byron", 0, None, None, String::new(), String::new(), 100), Ok(0));
    assert_eq!(t.persons[0].change, 100);
    assert_eq!(person::update_at(&mut t, "p1", "Ada", "Lovelace", 0, None, None, String::new(), String::new(), 200), Ok(()));
    assert_eq!(t.persons[0].change, 200);
    assert_eq!(family::create_at(&mut t, "f1".to_string(), None, Some("p1".to_string()), 0, 300), Ok(0));
    assert_eq!(t.families[0].change, 300);
    assert_eq!(family::update_at(&mut t, "f1", None, Some("p1".to_string()), 1, 400), Ok(()));
    assert_eq!(t.families[0].change, 400);
}

#[test]
fn clock_readings_become_stamps() {
    assert_eq!(unix_stamp(None), 0);
    assert_eq!(unix_stamp(Some(5)), 5);
    assert_eq!(unix_stamp(Some(1_700_000_000)), 1_700_000_000);
    assert!(now_unix() > 1_600_000_000);
}
