use anan::add_relative::{tree_add, TreeAddHandles};
use anan::db::repo::common::RepoError;
use anan::db::repo::{family, person, relationships, tag};
use anan::db::{ObjClass, Snapshot};
use anan::ui::{start_add, AddRelationship};

fn empty() -> Snapshot {
    Snapshot {
        path: String::from("tree.db"),
        persons: Vec::new(),
        families: Vec::new(),
        events: Vec::new(),
        places: Vec::new(),
        sources: Vec::new(),
        citations: Vec::new(),
        media: Vec::new(),
        notes: Vec::new(),
        repositories: Vec::new(),
        tags: Vec::new(),
        references: Vec::new(),
    }
}

fn handles(tag: &str) -> TreeAddHandles {
    TreeAddHandles {
        person: format!("{tag}-p"),
        birth_event: format!("{tag}-b"),
        death_event: format!("{tag}-d"),
        family: format!("{tag}-f"),
        source: format!("{tag}-s"),
        citation: format!("{tag}-c"),
    }
}

fn with(h: &str, gender: i32) -> Snapshot {
    let mut t = empty();
    person::create(&mut t, h.to_string(), "Root", "Smith", gender, None, None, String::new(), String::new()).unwrap();
    t
}

fn children(t: &Snapshot, fh: &str) -> Vec<String> {
    t.family(fh).unwrap().child_ref_list.iter().map(|c| c.ref_.clone()).collect()
}

#[test]
fn add_a_child_with_years_and_a_source() {
    let mut t = with("root", 1);
    let mut add = start_add(&t, AddRelationship::Child, "root".to_string());
    add.first_name = "Kid".to_string();
    add.birth_year_s = "1901".to_string();
    add.source_url = " https://example.org/record ".to_string();
    let i = tree_add(&mut t, &add, handles("x")).unwrap();
    let kid = &t.persons[i];
    assert_eq!(kid.handle, "x-p");
    assert_eq!(kid.primary_name.first_name, "Kid");
    assert_eq!(kid.gender, 2);
    assert_eq!(kid.citation_list, vec!["x-c".to_string()]);
    assert_eq!(kid.parent_family_list, vec!["x-f".to_string()]);
    let src = t.source("x-s").unwrap();
    assert_eq!(src.title, "https://example.org/record");
    let cit = t.citation("x-c").unwrap();
    assert_eq!(cit.source_handle, "x-s");
    assert_eq!(cit.page, "https://example.org/record");
    assert_eq!(cit.confidence, 2);
    assert_eq!(t.event("x-b").unwrap().date.as_ref().unwrap().year, Some(1901));
    assert!(t.event("x-d").is_none());
    assert_eq!(t.family("x-f").unwrap().father_handle.as_deref(), Some("root"));
    assert_eq!(children(&t, "x-f"), vec!["x-p".to_string()]);
    assert!(t.references.iter().any(|r| r.obj_handle == "x-p" && r.ref_handle == "x-c" && r.ref_class == ObjClass::Citation));
}

#[test]
fn add_a_mother_then_a_sibling() {
    let mut t = with("kid", 2);
    let add = start_add(&t, AddRelationship::Mother, "kid".to_string());
    tree_add(&mut t, &add, handles("m")).unwrap();
    let f = t.family("m-f").unwrap();
    assert_eq!(f.mother_handle.as_deref(), Some("m-p"));
    assert_eq!(t.person("m-p").unwrap().family_list, vec!["m-f".to_string()]);
    assert!(t.sources.is_empty());
    let add = start_add(&t, AddRelationship::Father, "kid".to_string());
    tree_add(&mut t, &add, handles("d")).unwrap();
    // The father fills the empty slot of the same family.
    assert!(t.family("d-f").is_none());
    assert_eq!(t.family("m-f").unwrap().father_handle.as_deref(), Some("d-p"));
    let add = start_add(&t, AddRelationship::Sibling, "kid".to_string());
    tree_add(&mut t, &add, handles("s")).unwrap();
    assert_eq!(children(&t, "m-f"), vec!["kid".to_string(), "s-p".to_string()]);
}

#[test]
fn a_refused_link_reports_its_error() {
    let mut t = with("lonely", 1);
    let add = start_add(&t, AddRelationship::Sibling, "lonely".to_string());
    assert_eq!(tree_add(&mut t, &add, handles("z")), Err(RepoError::NoParentFamily { handle: "lonely".to_string() }));
    let add = start_add(&t, AddRelationship::Child, "nobody".to_string());
    assert_eq!(
        tree_add(&mut t, &add, handles("y")),
        Err(RepoError::NotFound { class: ObjClass::Person, handle: "nobody".to_string() })
    );
    // The person handle is taken: nothing else is tried.
    let add = start_add(&t, AddRelationship::Child, "lonely".to_string());
    let mut h = handles("w");
    h.person = "lonely".to_string();
    assert_eq!(tree_add(&mut t, &add, h), Err(RepoError::HandleInUse { class: ObjClass::Person, handle: "lonely".to_string() }));
}

#[test]
fn existing_people_link_as_relatives() {
    let mut t = with("a", 1);
    person::create(&mut t, "b".to_string(), "B", "Smith", 2, None, None, String::new(), String::new()).unwrap();
    person::create(&mut t, "c".to_string(), "C", "Smith", 0, None, None, String::new(), String::new()).unwrap();
    assert_eq!(relationships::add_child_existing(&mut t, "a", "b", "f1".to_string()), Ok(()));
    assert_eq!(children(&t, "f1"), vec!["b".to_string()]);
    assert_eq!(relationships::add_parent_existing(&mut t, "b", "c", 0, "f2".to_string()), Ok(()));
    assert!(t.family("f2").is_none());
    assert_eq!(t.family("f1").unwrap().mother_handle.as_deref(), Some("c"));
    assert_eq!(t.person("c").unwrap().family_list, vec!["f1".to_string()]);
    assert_eq!(relationships::add_sibling_existing(&mut t, "b", "c"), Ok(()));
    assert_eq!(children(&t, "f1"), vec!["b".to_string(), "c".to_string()]);
    assert_eq!(
        relationships::add_sibling_existing(&mut t, "a", "b"),
        Err(RepoError::NoParentFamily { handle: "a".to_string() })
    );
    assert_eq!(
        relationships::add_child_existing(&mut t, "a", "ghost", "f9".to_string()),
        Err(RepoError::NotFound { class: ObjClass::Person, handle: "ghost".to_string() })
    );
    assert_eq!(
        relationships::add_parent_existing(&mut t, "ghost", "a", 1, "f9".to_string()),
        Err(RepoError::NotFound { class: ObjClass::Person, handle: "ghost".to_string() })
    );
    family::delete_with_cascade(&mut t, "f1").unwrap();
    assert!(t.person("b").unwrap().parent_family_list.is_empty());
}

#[test]
fn a_new_tag_deleted_at_once_leaves_the_tags_as_they_were() {
    let mut t = empty();
    tag::create(&mut t, "t0".to_string(), "keep", "#000", 0).unwrap();
    let before: Vec<String> = t.tags.iter().map(|x| x.handle.clone()).collect();
    tag::create(&mut t, "t1".to_string(), "temp", "#fff", 1).unwrap();
    assert_eq!(tag::delete(&mut t, "t1"), Ok(()));
    let after: Vec<String> = t.tags.iter().map(|x| x.handle.clone()).collect();
    assert_eq!(before, after);
    assert_eq!(t.tags[0].name, "keep");
}
