use anan::db::backup::{check_schema_row, SchemaError};
use anan::db::backup::{backup_due, backup_file_name, backup_stamp, backups_to_prune, schema_supported, BACKUP_KEEP, SUPPORTED_SCHEMA};
use anan::db::repo::common::RepoError;
use anan::db::repo::{person, place, source, tag};
use anan::db::{ObjClass, Snapshot};
use anan::gramps::date::{Date, DateVal};
use anan::gramps::enums::{event_type_label, family_rel_label, gender_label, place_type_label, quality_name};
use anan::gramps::person::minus_one;
use anan::ui::{
    add_request, apply_request, default_draft_for, delete_for_view, draft_from_row, resolve_person_by_gid, resolve_place_by_gid,
    resolve_source_by_gid, short, start_add, write_request, AddRelationship, DateDraft, EditDraft, NewHandles, PersonDraft,
    TagDraft, View, WriteRequest,
};

fn empty() -> Snapshot {
    Snapshot {
        path: String::from("tree.db"),
        persons: Vec::new(),
        families: Vec::new(),
        events: Vec::new(),
        places: Vec::new(),
        sources: Vec::new(),
        citations: Vec::new(),
        media: Vec::new(),
        notes: Vec::new(),
        repositories: Vec::new(),
        tags: Vec::new(),
        references: Vec::new(),
    }
}

fn fresh(h: &str) -> NewHandles {
    NewHandles { object: h.to_string(), birth_event: format!("{h}-b"), death_event: format!("{h}-d") }
}

#[test]
fn backups_are_due_after_the_interval() {
    assert!(backup_due(None, 5));
    let s: u128 = 1_000_000_000;
    assert!(!backup_due(Some(10 * s), 10 * s + 299 * s));
    assert!(backup_due(Some(10 * s), 10 * s + 300 * s));
    // A clock that went back forces a backup.
    assert!(backup_due(Some(10 * s), 9 * s));
}

#[test]
fn backup_names_round_trip() {
    let name = backup_file_name("sqlite.db", 1700000000);
    assert_eq!(name, "sqlite.db.bak-1700000000");
    assert_eq!(backup_stamp(&name, "sqlite.db"), Some(1700000000));
    assert_eq!(backup_stamp("sqlite.db", "sqlite.db"), None);
    assert_eq!(backup_stamp("other.db.bak-5", "sqlite.db"), None);
    assert_eq!(backup_stamp("sqlite.db.bak-x", "sqlite.db"), None);
}

#[test]
fn pruning_keeps_the_newest() {
    assert_eq!(BACKUP_KEEP, 10);
    let stamps = vec![50, 10, 40, 20, 30];
    assert_eq!(backups_to_prune(&stamps, 3), vec![1, 3]);
    assert_eq!(backups_to_prune(&stamps, 5), Vec::<usize>::new());
    assert_eq!(backups_to_prune(&stamps, 0), vec![0, 1, 2, 3, 4]);
    // Equal times: the earlier entry counts as older.
    assert_eq!(backups_to_prune(&vec![7, 7, 7], 1), vec![0, 1]);
}

#[test]
fn schema_version_check() {
    assert_eq!(SUPPORTED_SCHEMA, "21");
    assert!(schema_supported("21"));
    assert!(!schema_supported("20"));
    assert!(!schema_supported(" 21"));
}

#[test]
fn labels_and_dates() {
    assert_eq!(event_type_label(12), Some("Birth"));
    assert_eq!(event_type_label(999), None);
    assert_eq!(place_type_label(4), Some("City"));
    assert_eq!(family_rel_label(0), Some("Married"));
    assert_eq!(quality_name(0), Some("regular"));
    assert_eq!(gender_label(9), "?");
    assert_eq!(gender_label(3), "other");
    assert_eq!(minus_one(), -1);
    let mut d = Date {
        class: None,
        calendar: 0,
        modifier: 0,
        quality: 0,
        dateval: Some(DateVal::Simple(0, 0, 0, false)),
        text: String::new(),
        sortval: 0,
        newyear: 0,
        format: None,
        year: None,
    };
    assert!(d.is_empty());
    assert_eq!(d.primary_year(), 0);
    d.dateval = Some(DateVal::Range(1, 2, 1800, false, 3, 4, 1810, false));
    assert!(!d.is_empty());
    assert_eq!(d.primary_year(), 1800);
    assert_eq!(DateVal::Range(1, 2, 1800, false, 3, 4, 1810, false).year(), 1800);
    d.year = Some(1799);
    assert_eq!(d.primary_year(), 1799);
    d.dateval = None;
    d.year = Some(1990);
    assert!(!d.is_empty());
    assert_eq!(d.primary_year(), 1990);
    d.year = Some(0);
    assert!(d.is_empty());
}

#[test]
fn view_and_relationship_labels() {
    assert_eq!(View::Tree.label(), "Family Tree");
    assert_eq!(View::Repositories.label(), "Repositories");
    assert_eq!(View::Persons.deletes(), Some(ObjClass::Person));
    assert_eq!(View::Search.deletes(), None);
    assert_eq!(AddRelationship::Sibling.label(), "Add sibling");
    assert_eq!(AddRelationship::Father.default_gender(), 1);
    assert_eq!(AddRelationship::Mother.default_gender(), 0);
    assert_eq!(AddRelationship::Child.default_gender(), 2);
    assert_eq!(short("0123456789abcdef"), "01234567");
    assert_eq!(short("abc"), "abc");
}

#[test]
fn default_drafts() {
    match default_draft_for(View::Persons) {
        EditDraft::Person(p) => assert_eq!(p.gender_s, "2"),
        _ => panic!("person draft expected"),
    }
    match default_draft_for(View::Places) {
        EditDraft::Place(p) => assert_eq!(p.type_value_s, "4"),
        _ => panic!("place draft expected"),
    }
    match default_draft_for(View::Tags) {
        EditDraft::Tag(t) => {
            assert_eq!(t.name, "New tag");
            assert_eq!(t.color, "#888888");
        }
        _ => panic!("tag draft expected"),
    }
    match default_draft_for(View::Search) {
        EditDraft::Tag(t) => assert!(t.name.is_empty()),
        _ => panic!("empty tag draft expected"),
    }
}

#[test]
fn date_drafts_round_trip() {
    let draft = DateDraft {
        year_s: " 1900".to_string(),
        month_s: "5".to_string(),
        day_s: String::new(),
        modifier_s: "2".to_string(),
        quality_s: "x".to_string(),
        text_s: String::new(),
    };
    let d = draft.to_date().unwrap();
    assert_eq!(d.dateval, Some(DateVal::Simple(0, 5, 1900, false)));
    assert_eq!(d.modifier, 2);
    assert_eq!(d.quality, 0);
    assert_eq!(d.year, Some(1900));
    let back = DateDraft::from_date(&d);
    assert_eq!(back.year_s, "1900");
    assert_eq!(back.month_s, "5");
    assert_eq!(back.day_s, "");
    assert_eq!(back.modifier_s, "2");
    assert!(DateDraft::default().to_date().is_none());
}

#[test]
fn gramps_ids_resolve_in_forms() {
    let mut t = empty();
    person::create(&mut t, "p1".to_string(), "A", "B", 1, None, None, String::new(), String::new()).unwrap();
    source::create(&mut t, "s1".to_string(), "Census", "", "", "").unwrap();
    place::create(&mut t, "l1".to_string(), "Town", 4, "", "", None).unwrap();
    assert_eq!(resolve_person_by_gid(&t, " I0000 "), Ok(Some("p1".to_string())));
    assert_eq!(resolve_person_by_gid(&t, "  "), Ok(None));
    assert_eq!(
        resolve_person_by_gid(&t, "I0009"),
        Err(RepoError::UnknownGrampsId { class: ObjClass::Person, gramps_id: "I0009".to_string() })
    );
    assert_eq!(resolve_source_by_gid(&t, "S0000"), Ok(Some("s1".to_string())));
    assert_eq!(resolve_place_by_gid(&t, "P0000"), Ok(Some("l1".to_string())));
}

#[test]
fn saving_a_person_draft_creates_then_updates() {
    let mut t = empty();
    let draft = EditDraft::Person(PersonDraft {
        first_name: "Ada".to_string(),
        surname: "King".to_string(),
        gender_s: "x".to_string(),
        birth_year_s: " 1815 ".to_string(),
        death_year_s: "0".to_string(),
    });
    let req = write_request(&t, &draft).unwrap();
    match &req {
        WriteRequest::Person { gender, birth_year, death_year, .. } => {
            assert_eq!(*gender, 2);
            assert_eq!(*birth_year, Some(1815));
            assert_eq!(*death_year, None);
        }
        _ => panic!("person request expected"),
    }
    assert_eq!(apply_request(&mut t, &None, req, fresh("p1")), Ok(()));
    assert_eq!(t.persons[0].handle, "p1");
    assert_eq!(t.events.len(), 1);
    let session = draft_from_row(&t, View::Persons, 0).unwrap();
    assert_eq!(session.handle.as_deref(), Some("p1"));
    match &session.draft {
        EditDraft::Person(p) => assert_eq!(p.birth_year_s, "1815"),
        _ => panic!("person draft expected"),
    }
    let req = write_request(&t, &EditDraft::Person(PersonDraft {
        first_name: "Ada".to_string(),
        surname: "Lovelace".to_string(),
        gender_s: "0".to_string(),
        birth_year_s: "1815".to_string(),
        death_year_s: "1852".to_string(),
    }))
    .unwrap();
    assert_eq!(apply_request(&mut t, &Some("p1".to_string()), req, fresh("unused")), Ok(()));
    assert_eq!(t.persons.len(), 1);
    assert_eq!(t.persons[0].gender, 0);
    assert_eq!(t.events.len(), 2);
    assert!(draft_from_row(&t, View::Persons, 3).is_none());
    assert!(draft_from_row(&t, View::Tree, 0).is_none());
}

#[test]
fn family_draft_with_unknown_father_is_refused() {
    let t = empty();
    let draft = EditDraft::Family(anan::ui::FamilyDraft {
        father_gid: "I0042".to_string(),
        mother_gid: String::new(),
        type_value_s: "0".to_string(),
    });
    assert_eq!(
        write_request(&t, &draft).err(),
        Some(RepoError::UnknownGrampsId { class: ObjClass::Person, gramps_id: "I0042".to_string() })
    );
}

#[test]
fn deletes_by_panel() {
    let mut t = empty();
    let req = write_request(&t, &EditDraft::Tag(TagDraft { name: "x".to_string(), color: "#000".to_string(), priority_s: "9".to_string() })).unwrap();
    apply_request(&mut t, &None, req, fresh("t1")).unwrap();
    assert_eq!(t.tags[0].priority, 9);
    assert_eq!(delete_for_view(&mut t, View::Tree, "t1", false), None);
    assert_eq!(t.tags.len(), 1);
    assert_eq!(delete_for_view(&mut t, View::Tags, "t1", false), Some(Ok(())));
    assert!(t.tags.is_empty());
    assert!(matches!(delete_for_view(&mut t, View::Tags, "t1", false), Some(Err(RepoError::NotFound { .. }))));
    tag::create(&mut t, "t2".to_string(), "y", "", 0).unwrap();
    assert_eq!(t.tags.len(), 1);
}

#[test]
fn add_person_form() {
    let mut t = empty();
    person::create(&mut t, "p1".to_string(), "A", "Smith", 1, None, None, String::new(), String::new()).unwrap();
    let mut add = start_add(&t, AddRelationship::Father, "p1".to_string());
    assert_eq!(add.surname, "Smith");
    assert_eq!(add.gender_s, "1");
    add.birth_year_s = "1900".to_string();
    add.source_url = "  https://example.org/x  ".to_string();
    let r = add_request(&add);
    assert_eq!(r.gender, 1);
    assert_eq!(r.birth_year, Some(1900));
    assert_eq!(r.death_year, None);
    assert_eq!(r.source.as_deref(), Some("https://example.org/x"));
    add.gender_s = " 0".to_string();
    add.source_url = "   ".to_string();
    let r = add_request(&add);
    assert_eq!(r.gender, 2);
    assert_eq!(r.source, None);
    let unknown = start_add(&t, AddRelationship::Child, "nobody".to_string());
    assert_eq!(unknown.surname, "");
}

#[test]
fn schema_rows() {
    assert_eq!(check_schema_row(r#"{"_class": "Version", "value": "21"}"#), Ok(()));
    assert_eq!(check_schema_row(r#"{"value": "20"}"#), Err(SchemaError::Unsupported { version: "20".to_string() }));
    assert_eq!(check_schema_row(r#"{"value": 21}"#), Err(SchemaError::NoVersion));
    assert_eq!(check_schema_row("{}"), Err(SchemaError::NoVersion));
    assert_eq!(check_schema_row("not json"), Err(SchemaError::NoVersion));
}
