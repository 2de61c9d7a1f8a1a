use anan::db::repo::common::RepoError;
use anan::db::repo::{person, relationships};
use anan::db::{ObjClass, Snapshot};

fn empty() -> Snapshot {
    Snapshot {
        path: String::from("tree.db"),
        persons: Vec::new(),
        families: Vec::new(),
        events: Vec::new(),
        places: Vec::new(),
        sources: Vec::new(),
        citations: Vec::new(),
        media: Vec::new(),
        notes: Vec::new(),
        repositories: Vec::new(),
        tags: Vec::new(),
        references: Vec::new(),
    }
}

fn with_person(h: &str, gender: i32) -> Snapshot {
    let mut t = empty();
    person::create(&mut t, h.to_string(), "P", "Root", gender, None, None, String::new(), String::new()).unwrap();
    t
}

fn child_handles(t: &Snapshot, fh: &str) -> Vec<String> {
    t.family(fh).unwrap().child_ref_list.iter().map(|c| c.ref_.clone()).collect()
}

#[test]
fn add_child_to_a_father_without_family_makes_one() {
    let mut t = with_person("dad", 1);
    let i = relationships::add_child(&mut t, "dad", "Kid", "Root", 2, "kid".to_string(), "f1".to_string()).unwrap();
    assert_eq!(t.persons[i].handle, "kid");
    let f = t.family("f1").unwrap();
    assert_eq!(f.father_handle.as_deref(), Some("dad"));
    assert_eq!(f.mother_handle, None);
    assert_eq!(f.gramps_id, "F0000");
    assert_eq!(child_handles(&t, "f1"), vec!["kid".to_string()]);
    assert_eq!(t.person("kid").unwrap().parent_family_list, vec!["f1".to_string()]);
    assert_eq!(t.person("dad").unwrap().family_list, vec!["f1".to_string()]);
    assert_eq!(t.person("kid").unwrap().gramps_id, "I0001");
}

#[test]
fn add_child_to_a_mother_fills_the_mother_slot() {
    let mut t = with_person("mum", 0);
    relationships::add_child(&mut t, "mum", "Kid", "Root", 1, "kid".to_string(), "f1".to_string()).unwrap();
    let f = t.family("f1").unwrap();
    assert_eq!(f.father_handle, None);
    assert_eq!(f.mother_handle.as_deref(), Some("mum"));
}

#[test]
fn add_child_joins_the_first_existing_family() {
    let mut t = with_person("dad", 1);
    relationships::add_child(&mut t, "dad", "One", "Root", 1, "c1".to_string(), "f1".to_string()).unwrap();
    relationships::add_child(&mut t, "dad", "Two", "Root", 0, "c2".to_string(), "unused".to_string()).unwrap();
    assert!(t.family("unused").is_none());
    assert_eq!(t.families.len(), 1);
    assert_eq!(child_handles(&t, "f1"), vec!["c1".to_string(), "c2".to_string()]);
    assert_eq!(t.person("c2").unwrap().parent_family_list, vec!["f1".to_string()]);
}

#[test]
fn add_child_errors_leave_the_tree_alone() {
    let mut t = with_person("dad", 1);
    let before = t.persons.len();
    assert_eq!(
        relationships::add_child(&mut t, "nobody", "Kid", "X", 1, "kid".to_string(), "f1".to_string()),
        Err(RepoError::NotFound { class: ObjClass::Person, handle: "nobody".to_string() })
    );
    assert_eq!(
        relationships::add_child(&mut t, "dad", "Kid", "X", 1, "dad".to_string(), "f1".to_string()),
        Err(RepoError::HandleInUse { class: ObjClass::Person, handle: "dad".to_string() })
    );
    assert_eq!(t.persons.len(), before);
    assert!(t.families.is_empty());
    // A family list naming a family that is not there.
    t.persons[0].family_list.push("ghost".to_string());
    assert_eq!(
        relationships::add_child(&mut t, "dad", "Kid", "X", 1, "kid".to_string(), "f1".to_string()),
        Err(RepoError::NotFound { class: ObjClass::Family, handle: "ghost".to_string() })
    );
    assert_eq!(t.persons.len(), before);
}

#[test]
fn add_parent_makes_a_family_then_fills_the_empty_slot() {
    let mut t = with_person("kid", 2);
    relationships::add_parent(&mut t, "kid", "Dad", "Root", 1, "dad".to_string(), "f1".to_string()).unwrap();
    {
        let f = t.family("f1").unwrap();
        assert_eq!(f.father_handle.as_deref(), Some("dad"));
        assert_eq!(f.mother_handle, None);
        assert_eq!(child_handles(&t, "f1"), vec!["kid".to_string()]);
    }
    assert_eq!(t.person("kid").unwrap().parent_family_list, vec!["f1".to_string()]);
    assert_eq!(t.person("dad").unwrap().family_list, vec!["f1".to_string()]);
    // The mother slot is empty, so the mother joins the same family.
    relationships::add_parent(&mut t, "kid", "Mum", "Root", 0, "mum".to_string(), "f2".to_string()).unwrap();
    assert!(t.family("f2").is_none());
    assert_eq!(t.family("f1").unwrap().mother_handle.as_deref(), Some("mum"));
    assert_eq!(t.person("mum").unwrap().family_list, vec!["f1".to_string()]);
    // A second father cannot take the filled slot: a new family is made.
    relationships::add_parent(&mut t, "kid", "Step", "Root", 1, "step".to_string(), "f3".to_string()).unwrap();
    assert_eq!(t.family("f3").unwrap().father_handle.as_deref(), Some("step"));
    assert_eq!(child_handles(&t, "f3"), vec!["kid".to_string()]);
    assert_eq!(t.person("kid").unwrap().parent_family_list, vec!["f1".to_string(), "f3".to_string()]);
    assert_eq!(t.family("f1").unwrap().father_handle.as_deref(), Some("dad"));
}

#[test]
fn add_parent_errors() {
    let mut t = with_person("kid", 2);
    assert_eq!(
        relationships::add_parent(&mut t, "none", "A", "B", 1, "p".to_string(), "f".to_string()),
        Err(RepoError::NotFound { class: ObjClass::Person, handle: "none".to_string() })
    );
    assert_eq!(
        relationships::add_parent(&mut t, "kid", "A", "B", 1, "kid".to_string(), "f".to_string()),
        Err(RepoError::HandleInUse { class: ObjClass::Person, handle: "kid".to_string() })
    );
    assert_eq!(t.persons.len(), 1);
    assert!(t.families.is_empty());
}

#[test]
fn add_sibling_needs_a_parent_family() {
    let mut t = with_person("kid", 2);
    assert_eq!(
        relationships::add_sibling(&mut t, "kid", "Sis", "Root", 0, "sis".to_string()),
        Err(RepoError::NoParentFamily { handle: "kid".to_string() })
    );
    assert_eq!(t.persons.len(), 1);
    relationships::add_parent(&mut t, "kid", "Dad", "Root", 1, "dad".to_string(), "f1".to_string()).unwrap();
    let i = relationships::add_sibling(&mut t, "kid", "Sis", "Root", 0, "sis".to_string()).unwrap();
    assert_eq!(t.persons[i].handle, "sis");
    assert_eq!(child_handles(&t, "f1"), vec!["kid".to_string(), "sis".to_string()]);
    assert_eq!(t.person("sis").unwrap().parent_family_list, vec!["f1".to_string()]);
    assert_eq!(
        relationships::add_sibling(&mut t, "ghost", "X", "Y", 1, "x".to_string()),
        Err(RepoError::NotFound { class: ObjClass::Person, handle: "ghost".to_string() })
    );
}

#[test]
fn link_existing_child_to_a_family() {
    let mut t = with_person("dad", 1);
    person::create(&mut t, "kid".to_string(), "K", "Root", 2, None, None, String::new(), String::new()).unwrap();
    anan::db::repo::family::create(&mut t, "f1".to_string(), Some("dad".to_string()), None, 0).unwrap();
    assert_eq!(relationships::link_child_to_family(&mut t, "f1", "kid"), Ok(()));
    assert_eq!(child_handles(&t, "f1"), vec!["kid".to_string()]);
    assert_eq!(t.person("kid").unwrap().parent_family_list, vec!["f1".to_string()]);
    // Linking again changes nothing.
    assert_eq!(relationships::link_child_to_family(&mut t, "f1", "kid"), Ok(()));
    assert_eq!(child_handles(&t, "f1"), vec!["kid".to_string()]);
    assert_eq!(t.person("kid").unwrap().parent_family_list, vec!["f1".to_string()]);
    assert!(t.references.iter().any(|r| r.obj_handle == "f1" && r.ref_handle == "kid"));
    assert!(t.references.iter().any(|r| r.obj_handle == "kid" && r.ref_handle == "f1"));
}

#[test]
fn link_child_errors() {
    let mut t = with_person("kid", 2);
    assert_eq!(
        relationships::link_child_to_family(&mut t, "nofam", "kid"),
        Err(RepoError::NotFound { class: ObjClass::Family, handle: "nofam".to_string() })
    );
    anan::db::repo::family::create(&mut t, "f1".to_string(), None, None, 0).unwrap();
    assert_eq!(
        relationships::link_child_to_family(&mut t, "f1", "ghost"),
        Err(RepoError::NotFound { class: ObjClass::Person, handle: "ghost".to_string() })
    );
    assert!(child_handles(&t, "f1").is_empty());
}
