use anan::db::columns::{citation_source_column, class_from_name, vanished};
use anan::db::repo::place::{enclosed_by_column, title_column};
use anan::db::repo::{citation, place};
use anan::db::{ObjClass, Snapshot};

fn empty() -> Snapshot {
    Snapshot {
        path: String::from("tree.db"),
        persons: Vec::new(),
        families: Vec::new(),
        events: Vec::new(),
        places: Vec::new(),
        sources: Vec::new(),
        citations: Vec::new(),
        media: Vec::new(),
        notes: Vec::new(),
        repositories: Vec::new(),
        tags: Vec::new(),
        references: Vec::new(),
    }
}

#[test]
fn place_columns() {
    let mut t = empty();
    place::create(&mut t, "top".to_string(), "England", 1, "", "", None).unwrap();
    place::create(&mut t, "town".to_string(), "London", 4, "51.5", "-0.1", Some("top".to_string())).unwrap();
    let town = t.place("town").unwrap().clone();
    assert_eq!(title_column(&town).as_str(), "London");
    assert_eq!(enclosed_by_column(&town).map(|s| s.as_str()), Some("top"));
    let mut titled = town.clone();
    titled.title = "London, England".to_string();
    assert_eq!(title_column(&titled).as_str(), "London, England");
    assert_eq!(enclosed_by_column(t.place("top").unwrap()), None);
}

#[test]
fn citation_source_column_is_none_for_orphans() {
    let mut t = empty();
    citation::create(&mut t, "c1".to_string(), "", "p. 4", 2, None).unwrap();
    let mut c = t.citation("c1").unwrap().clone();
    assert_eq!(citation_source_column(&c), None);
    c.source_handle = "s1".to_string();
    assert_eq!(citation_source_column(&c).as_deref(), Some("s1"));
}

#[test]
fn class_names_read_back() {
    for c in [
        ObjClass::Person,
        ObjClass::Family,
        ObjClass::Event,
        ObjClass::Place,
        ObjClass::Source,
        ObjClass::Citation,
        ObjClass::Media,
        ObjClass::Note,
        ObjClass::Repository,
        ObjClass::Tag,
    ] {
        assert_eq!(class_from_name(c.name()), Some(c));
    }
    assert_eq!(ObjClass::Repository.name(), "Repository");
    assert_eq!(class_from_name("person"), None);
    assert_eq!(class_from_name(""), None);
}

#[test]
fn vanished_rows() {
    let mut t = empty();
    place::create(&mut t, "a".to_string(), "A", 4, "", "", None).unwrap();
    place::create(&mut t, "c".to_string(), "C", 4, "", "", None).unwrap();
    let before = vec!["a".to_string(), "b".to_string(), "c".to_string(), "d".to_string()];
    assert_eq!(vanished(&before, &t.places), vec!["b".to_string(), "d".to_string()]);
    assert!(vanished(&Vec::new(), &t.places).is_empty());
}
