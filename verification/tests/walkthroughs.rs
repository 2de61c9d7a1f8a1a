use anan::db::refs::inbound_ref_count;
use anan::db::repo::{citation, event, family, media, note, person, place, repository, source, tag};
use anan::db::Snapshot;
use anan::gramps::date::{Date, DateVal};

fn empty() -> Snapshot {
    Snapshot {
        path: String::from("tree.db"),
        persons: Vec::new(),
        families: Vec::new(),
        events: Vec::new(),
        places: Vec::new(),
        sources: Vec::new(),
        citations: Vec::new(),
        media: Vec::new(),
        notes: Vec::new(),
        repositories: Vec::new(),
        tags: Vec::new(),
        references: Vec::new(),
    }
}

fn year_date(year: i32, modifier: i32, quality: i32) -> Date {
    Date {
        class: Some("Date".to_string()),
        calendar: 0,
        modifier,
        quality,
        dateval: Some(DateVal::Simple(0, 0, year, false)),
        text: String::new(),
        sortval: 0,
        newyear: 0,
        format: None,
        year: Some(year),
    }
}

#[test]
fn family_event_place_walkthrough() {
    let mut t = empty();
    place::create(&mut t, "county".to_string(), "County", 9, "", "", None).unwrap();
    place::create(&mut t, "town".to_string(), "Smoketown", 15, "38.0", "-94.0", Some("county".to_string())).unwrap();
    assert!(t.place("town").unwrap().gramps_id.starts_with('P'));
    event::create_full(&mut t, "res".to_string(), 42, "residence", Some("town".to_string()), Some(year_date(1912, 0, 0))).unwrap();
    assert!(t.event("res").unwrap().gramps_id.starts_with('E'));
    person::create(&mut t, "dad".to_string(), "Alpha", "Smoke", 1, Some(1880), None, "dad-b".to_string(), String::new()).unwrap();
    person::create(&mut t, "mom".to_string(), "Beta", "Smoke", 0, Some(1882), None, "mom-b".to_string(), String::new()).unwrap();
    family::create(&mut t, "fam".to_string(), Some("dad".to_string()), Some("mom".to_string()), 0).unwrap();
    assert!(t.family("fam").unwrap().gramps_id.starts_with('F'));
    assert!(t.person("dad").unwrap().family_list.contains(&"fam".to_string()));
    assert!(t.person("mom").unwrap().family_list.contains(&"fam".to_string()));

    event::update_full(&mut t, "res", 42, "updated description", Some("town".to_string()), Some(year_date(1915, 3, 1))).unwrap();
    let e = t.event("res").unwrap();
    assert_eq!(e.description, "updated description");
    assert_eq!(e.date.as_ref().unwrap().modifier, 3);
    assert_eq!(e.date.as_ref().unwrap().quality, 1);

    place::update(&mut t, "town", "Smoketown v2", 15, "38.1", "-94.1", None).unwrap();
    let p = t.place("town").unwrap();
    assert_eq!(p.name.value, "Smoketown v2");
    assert!(p.placeref_list.is_empty());

    person::create(&mut t, "mom2".to_string(), "Gamma", "Smoke", 0, Some(1884), None, "mom2-b".to_string(), String::new()).unwrap();
    family::update(&mut t, "fam", Some("dad".to_string()), Some("mom2".to_string()), 0).unwrap();
    assert_eq!(t.family("fam").unwrap().mother_handle.as_deref(), Some("mom2"));
    assert!(!t.person("mom").unwrap().family_list.contains(&"fam".to_string()));
    assert!(t.person("mom2").unwrap().family_list.contains(&"fam".to_string()));

    family::delete_with_cascade(&mut t, "fam").unwrap();
    assert!(t.family("fam").is_none());
    assert!(!t.person("dad").unwrap().family_list.contains(&"fam".to_string()));

    place::delete_with_cascade(&mut t, "town").unwrap();
    assert!(t.place("town").is_none());
    assert!(t.event("res").unwrap().place.is_empty());
}

#[test]
fn person_walkthrough() {
    let mut t = empty();
    person::create(&mut t, "p".to_string(), "Testy", "McTestface", 1, Some(1901), Some(1975), "b".to_string(), "d".to_string()).unwrap();
    let p = t.person("p").unwrap().clone();
    assert!(p.gramps_id.starts_with('I'));
    assert_eq!(p.event_ref_list.len(), 2);
    assert_eq!(p.birth_ref_index, 0);
    assert_eq!(p.death_ref_index, 1);
    assert_eq!(t.events.len(), 2);
    assert_eq!(t.event("b").unwrap().date.as_ref().map(|d| d.primary_year()), Some(1901));

    person::update(&mut t, "p", "Testing", "McTesterson", 1, Some(1902), Some(1980), "unused-b".to_string(), "unused-d".to_string()).unwrap();
    // The birth and death rows are rewritten in place, not duplicated.
    assert_eq!(t.events.len(), 2);
    let p = t.person("p").unwrap().clone();
    assert_eq!(p.primary_name.first_name, "Testing");
    assert_eq!(p.primary_name.surname_list[0].surname, "McTesterson");
    assert_eq!(t.event(&p.event_ref_list[0].ref_).unwrap().date.as_ref().map(|d| d.primary_year()), Some(1902));
    assert_eq!(t.event(&p.event_ref_list[1].ref_).unwrap().date.as_ref().map(|d| d.primary_year()), Some(1980));

    let pv = person::preview_delete(&t, "p").unwrap();
    assert_eq!(pv.exclusive_event_count, 2);
    person::delete_with_cascade(&mut t, "p", true).unwrap();
    assert!(t.persons.is_empty());
    assert!(t.events.is_empty());
    assert_eq!(inbound_ref_count(&t.references, "p"), 0);
}

#[test]
fn cascade_walkthrough() {
    let mut t = empty();
    person::create(&mut t, "grandpa".to_string(), "G", "H", 1, None, None, String::new(), String::new()).unwrap();
    person::create(&mut t, "max".to_string(), "Maxwell", "Hansen", 1, None, None, String::new(), String::new()).unwrap();
    person::create(&mut t, "wife".to_string(), "W", "H", 0, None, None, String::new(), String::new()).unwrap();
    family::create(&mut t, "f-parents".to_string(), Some("grandpa".to_string()), None, 0).unwrap();
    anan::db::repo::relationships::link_child_to_family(&mut t, "f-parents", "max").unwrap();
    family::create(&mut t, "f-own".to_string(), Some("max".to_string()), Some("wife".to_string()), 0).unwrap();
    let pv = person::preview_delete(&t, "max").unwrap();
    assert!(!pv.parent_of.is_empty() && !pv.child_of.is_empty());
    assert!(inbound_ref_count(&t.references, "max") > 0);
    person::delete_with_cascade(&mut t, "max", false).unwrap();
    assert!(t.person("max").is_none());
    assert_eq!(t.family("f-own").unwrap().father_handle, None);
    assert_eq!(t.family("f-own").unwrap().mother_handle.as_deref(), Some("wife"));
    assert!(t.family("f-parents").unwrap().child_ref_list.iter().all(|c| c.ref_ != "max"));
    assert_eq!(inbound_ref_count(&t.references, "max"), 0);
}

#[test]
fn source_citation_media_walkthrough() {
    let mut t = empty();
    source::create(&mut t, "s".to_string(), "Census 1900", "Bureau", "Washington", "C1900").unwrap();
    assert!(t.source("s").unwrap().gramps_id.starts_with('S'));
    citation::create(&mut t, "c".to_string(), "s", "p. 4", 3, Some(year_date(1901, 0, 0))).unwrap();
    assert!(t.citation("c").unwrap().gramps_id.starts_with('C'));
    media::create(&mut t, "m".to_string(), "/tmp/x.jpg", "image/jpeg", "a photo", None).unwrap();
    assert!(t.media_item("m").unwrap().gramps_id.starts_with('O'));
    source::update(&mut t, "s", "Census 1900 (rev)", "Bureau", "Washington", "C1900").unwrap();
    citation::update(&mut t, "c", "s", "p. 12", 4, None).unwrap();
    media::update(&mut t, "m", "/tmp/x.jpg", "image/jpeg", "a better photo", None).unwrap();
    assert_eq!(t.source("s").unwrap().title, "Census 1900 (rev)");
    assert_eq!(t.citation("c").unwrap().page, "p. 12");
    assert_eq!(t.citation("c").unwrap().confidence, 4);
    assert_eq!(t.media_item("m").unwrap().desc, "a better photo");
    // The source is refused while the citation still points at it.
    assert!(source::delete(&mut t, "s").is_err());
    citation::delete(&mut t, "c").unwrap();
    source::delete(&mut t, "s").unwrap();
    media::delete(&mut t, "m").unwrap();
    assert!(t.sources.is_empty() && t.citations.is_empty() && t.media.is_empty());
}

#[test]
fn tag_note_repository_walkthrough() {
    let mut t = empty();
    tag::create(&mut t, "tg".to_string(), "smoke-tag", "#ff00ff", 7).unwrap();
    note::create(&mut t, "nt".to_string(), 2, "smoke note body").unwrap();
    repository::create(&mut t, "rp".to_string(), "smoke repo", 3).unwrap();
    let tag_change = t.tag("tg").unwrap().change;
    let note_change = t.note("nt").unwrap().change;
    let repo_change = t.repository("rp").unwrap().change;
    tag::update(&mut t, "tg", "smoke-tag-v2", "#00ffff", 9).unwrap();
    note::update(&mut t, "nt", 3, "smoke note body v2").unwrap();
    repository::update(&mut t, "rp", "smoke repo v2", 5).unwrap();
    let tg = t.tag("tg").unwrap();
    assert_eq!((tg.name.as_str(), tg.color.as_str(), tg.priority), ("smoke-tag-v2", "#00ffff", 9));
    assert!(tg.change >= tag_change);
    let nt = t.note("nt").unwrap();
    assert_eq!(nt.text.string, "smoke note body v2");
    assert_eq!(nt.type_.value, 3);
    assert!(nt.change >= note_change);
    let rp = t.repository("rp").unwrap();
    assert_eq!(rp.name, "smoke repo v2");
    assert_eq!(rp.type_.value, 5);
    assert!(rp.change >= repo_change);
    tag::delete(&mut t, "tg").unwrap();
    note::delete(&mut t, "nt").unwrap();
    repository::delete(&mut t, "rp").unwrap();
    assert!(t.tags.is_empty() && t.notes.is_empty() && t.repositories.is_empty());
    assert!(t.references.is_empty());
}

#[test]
fn a_new_family_deleted_at_once_restores_the_family_lists() {
    let mut t = empty();
    person::create(&mut t, "d".to_string(), "D", "X", 1, None, None, String::new(), String::new()).unwrap();
    person::create(&mut t, "m".to_string(), "M", "X", 0, None, None, String::new(), String::new()).unwrap();
    family::create(&mut t, "old".to_string(), Some("d".to_string()), None, 0).unwrap();
    let lists: Vec<(Vec<String>, Vec<String>)> = t.persons.iter().map(|p| (p.family_list.clone(), p.parent_family_list.clone())).collect();
    let families: Vec<String> = t.families.iter().map(|f| f.handle.clone()).collect();
    family::create(&mut t, "new".to_string(), Some("d".to_string()), Some("m".to_string()), 1).unwrap();
    assert_eq!(t.person("d").unwrap().family_list, vec!["old".to_string(), "new".to_string()]);
    family::delete_with_cascade(&mut t, "new").unwrap();
    let after: Vec<(Vec<String>, Vec<String>)> = t.persons.iter().map(|p| (p.family_list.clone(), p.parent_family_list.clone())).collect();
    assert_eq!(lists, after);
    assert_eq!(families, t.families.iter().map(|f| f.handle.clone()).collect::<Vec<_>>());
}
