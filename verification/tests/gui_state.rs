use anan::db::repo::{family, person};
use anan::db::Snapshot;
use anan::gui::{App, Command, DateField, DraftField, Message};
use anan::list_pane::{HitKind, ListState, SearchHit};
use anan::ui::{AddRelationship, EditDraft, View};

fn empty() -> Snapshot {
    Snapshot {
        path: String::from("tree.db"),
        persons: Vec::new(),
        families: Vec::new(),
        events: Vec::new(),
        places: Vec::new(),
        sources: Vec::new(),
        citations: Vec::new(),
        media: Vec::new(),
        notes: Vec::new(),
        repositories: Vec::new(),
        tags: Vec::new(),
        references: Vec::new(),
    }
}

fn sample() -> Snapshot {
    let mut t = empty();
    person::create(&mut t, "h1".to_string(), "Ada", "Lovelace", 0, Some(1815), Some(1852), "e1".to_string(), "e2".to_string()).unwrap();
    person::create(&mut t, "h2".to_string(), "Charles", "Babbage", 1, None, None, String::new(), String::new()).unwrap();
    t
}

fn opened() -> App {
    let (mut app, _) = App::new(None);
    app.update(Message::DbOpened(Ok(sample())));
    app
}

#[test]
fn new_without_a_tree_waits_for_one() {
    let (app, cmd) = App::new(None);
    assert!(matches!(cmd, Command::Nothing));
    assert!(!app.loading);
    assert!(app.snapshot.is_none());
    assert_eq!(app.current, View::Tree);
    let (app, cmd) = App::new(Some("fixture.db".to_string()));
    assert!(app.loading);
    assert!(matches!(cmd, Command::Load(p) if p == "fixture.db"));
}

#[test]
fn open_dialog_then_load() {
    let (mut app, _) = App::new(None);
    app.error = Some("old".to_string());
    assert!(matches!(app.update(Message::OpenDbDialog), Command::PickFile));
    assert!(app.error.is_none());
    assert!(matches!(app.update(Message::FilePicked(None)), Command::Nothing));
    assert!(!app.loading);
    assert!(matches!(app.update(Message::FilePicked(Some("t.db".to_string()))), Command::Load(p) if p == "t.db"));
    assert!(app.loading);
    app.update(Message::DbOpened(Ok(sample())));
    assert!(!app.loading);
    assert_eq!(app.home_person.as_deref(), Some("h1"));
    assert_eq!(app.snapshot.as_ref().unwrap().persons.len(), 2);
}

#[test]
fn load_failure_shows_the_error() {
    let (mut app, _) = App::new(Some("t.db".to_string()));
    app.update(Message::DbOpened(Err("no such file".to_string())));
    assert!(!app.loading);
    assert_eq!(app.error.as_deref(), Some("no such file"));
    app.update(Message::Dismiss);
    assert!(app.error.is_none());
}

#[test]
fn tree_navigation_and_toggles() {
    let mut app = opened();
    app.update(Message::TreeContextMenu("h2".to_string()));
    assert_eq!(app.context_target.as_deref(), Some("h2"));
    app.update(Message::TreeHome("h2".to_string()));
    assert!(app.context_target.is_none());
    assert_eq!(app.home_person.as_deref(), Some("h2"));
    app.update(Message::TreeContextMenu("h1".to_string()));
    app.update(Message::TreeDismissContext);
    assert!(app.context_target.is_none());
    app.update(Message::ToggleSidebar);
    app.update(Message::ToggleBrowse);
    app.update(Message::ToggleListMode);
    assert!(app.sidebar_visible && app.browse_expanded && app.list_mode);
    app.update(Message::ToggleListMode);
    assert!(!app.list_mode);
    app.update(Message::ShowView(View::Events));
    assert_eq!(app.current, View::Events);
    assert!(matches!(app.update(Message::FocusSearch), Command::FocusSearch));
}

#[test]
fn start_add_prefills_the_form_and_submits() {
    let mut app = opened();
    app.update(Message::TreeContextMenu("h2".to_string()));
    app.update(Message::TreeStartAdd(AddRelationship::Mother));
    assert!(app.context_target.is_none());
    {
        let add = app.pending_add.as_ref().unwrap();
        assert_eq!(add.target_handle, "h2");
        assert_eq!(add.surname, "Babbage");
        assert_eq!(add.gender_s, "0");
        assert!(add.first_name.is_empty());
    }
    app.update(Message::AddFirstName("Betsy".to_string()));
    app.update(Message::AddBirthYear("1770".to_string()));
    app.update(Message::AddSourceUrl("https://example.org".to_string()));
    {
        let add = app.pending_add.as_ref().unwrap();
        assert_eq!(add.first_name, "Betsy");
        assert_eq!(add.birth_year_s, "1770");
        assert_eq!(add.source_url, "https://example.org");
    }
    match app.update(Message::TreeSubmitAdd) {
        Command::TreeAdd(add) => {
            assert_eq!(add.relationship, AddRelationship::Mother);
            assert_eq!(add.first_name, "Betsy");
        }
        _ => panic!("expected a tree add"),
    }
    assert!(app.saving);
    assert!(app.pending_add.is_none());
}

#[test]
fn start_add_uses_the_home_person_and_needs_one() {
    let (mut app, _) = App::new(None);
    app.update(Message::TreeStartAdd(AddRelationship::Child));
    assert!(app.pending_add.is_none());
    let mut app = opened();
    app.update(Message::TreeStartAdd(AddRelationship::Child));
    let add = app.pending_add.as_ref().unwrap();
    assert_eq!(add.target_handle, "h1");
    assert_eq!(add.surname, "Lovelace");
    assert_eq!(add.gender_s, "2");
    app.update(Message::TreeCancelAdd);
    assert!(app.pending_add.is_none());
}

#[test]
fn submit_without_a_tree_drops_the_form() {
    let (mut app, _) = App::new(None);
    app.home_person = Some("x".to_string());
    app.update(Message::TreeStartAdd(AddRelationship::Father));
    assert_eq!(app.pending_add.as_ref().unwrap().surname, "");
    assert!(matches!(app.update(Message::TreeSubmitAdd), Command::Nothing));
    assert!(app.pending_add.is_none());
    assert!(!app.saving);
}

#[test]
fn search_bar_rehomes_on_the_first_match() {
    let mut app = opened();
    app.update(Message::ShowView(View::Persons));
    app.update(Message::SearchBarInput("  BABB ".to_string()));
    app.update(Message::SearchBarSubmit);
    assert_eq!(app.home_person.as_deref(), Some("h2"));
    assert_eq!(app.current, View::Tree);
    assert!(app.search_bar_query.is_empty());
    app.update(Message::ShowView(View::Persons));
    app.update(Message::SearchBarInput("nobody".to_string()));
    app.update(Message::SearchBarSubmit);
    assert_eq!(app.home_person.as_deref(), Some("h2"));
    assert_eq!(app.current, View::Persons);
    assert!(app.search_bar_query.is_empty());
    app.update(Message::SearchBarInput("   ".to_string()));
    app.update(Message::SearchBarSubmit);
    assert_eq!(app.current, View::Persons);
}

#[test]
fn create_edit_and_save() {
    let mut app = opened();
    app.update(Message::StartCreate(View::Tags));
    assert_eq!(app.current, View::Tags);
    app.update(Message::EditDraft(DraftField::TagName, "urgent".to_string()));
    app.update(Message::EditDraft(DraftField::PersonSurname, "ignored".to_string()));
    match &app.edit.as_ref().unwrap().draft {
        EditDraft::Tag(t) => {
            assert_eq!(t.name, "urgent");
            assert_eq!(t.color, "#888888");
        }
        _ => panic!("expected a tag draft"),
    }
    match app.update(Message::SaveEdit) {
        Command::Save(s) => {
            assert!(s.handle.is_none());
            assert!(matches!(s.draft, EditDraft::Tag(_)));
        }
        _ => panic!("expected a save"),
    }
    assert!(app.saving);
    assert!(app.edit.is_none());
    app.update(Message::WriteCompleted(Err("disk full".to_string())));
    assert!(!app.saving);
    assert_eq!(app.error.as_deref(), Some("disk full"));
}

#[test]
fn edit_selected_row_and_date_fields() {
    let mut app = opened();
    app.update(Message::ShowView(View::Persons));
    app.update(Message::StartEditSelected);
    assert!(app.edit.is_none());
    app.update(Message::ShowRows(View::Persons, vec![1, 0]));
    app.update(Message::SelectIndex(1));
    app.update(Message::StartEditSelected);
    let s = app.edit.as_ref().unwrap();
    assert_eq!(s.handle.as_deref(), Some("h1"));
    match &s.draft {
        EditDraft::Person(d) => {
            assert_eq!(d.first_name, "Ada");
            assert_eq!(d.surname, "Lovelace");
            assert_eq!(d.birth_year_s, "1815");
            assert_eq!(d.death_year_s, "1852");
            assert_eq!(d.gender_s, "0");
        }
        _ => panic!("expected a person draft"),
    }
    app.update(Message::ShowRows(View::Persons, vec![7]));
    app.update(Message::StartEditSelected);
    assert!(app.edit.is_none());
    app.update(Message::StartCreate(View::Events));
    app.update(Message::EditDraft(DraftField::EventDate(DateField::Year), "1900".to_string()));
    app.update(Message::EditDraft(DraftField::EventDate(DateField::Text), "about".to_string()));
    match &app.edit.as_ref().unwrap().draft {
        EditDraft::Event(e) => {
            assert_eq!(e.date.year_s, "1900");
            assert_eq!(e.date.text_s, "about");
            assert_eq!(e.date.modifier_s, "0");
        }
        _ => panic!("expected an event draft"),
    }
    app.update(Message::CancelEdit);
    assert!(app.edit.is_none());
}

#[test]
fn delete_flow_with_cascade() {
    let mut app = opened();
    {
        let t = app.snapshot.as_mut().unwrap();
        family::create(t, "f1".to_string(), Some("h2".to_string()), Some("h1".to_string()), 0).unwrap();
    }
    app.update(Message::ShowView(View::Persons));
    app.update(Message::StartDelete("h1".to_string()));
    {
        let pd = app.delete_confirm.as_ref().unwrap();
        assert_eq!(pd.view, View::Persons);
        let c = pd.cascade.as_ref().unwrap();
        assert_eq!(c.display_name, "Ada Lovelace");
        assert_eq!(c.parent_of, vec!["F0000".to_string()]);
        assert_eq!(c.event_count, 2);
        assert_eq!(c.exclusive_event_count, 2);
        assert!(!c.delete_owned_events);
    }
    app.update(Message::ToggleDeleteOwnedEvents);
    assert!(app.delete_confirm.as_ref().unwrap().cascade.as_ref().unwrap().delete_owned_events);
    match app.update(Message::ConfirmDelete) {
        Command::Delete { view, handle, delete_owned_events } => {
            assert_eq!(view, View::Persons);
            assert_eq!(handle, "h1");
            assert!(delete_owned_events);
        }
        _ => panic!("expected a delete"),
    }
    assert!(app.saving);
    assert!(app.delete_confirm.is_none());
}

#[test]
fn delete_outside_persons_has_no_cascade() {
    let mut app = opened();
    app.update(Message::ShowView(View::Tags));
    app.update(Message::StartDelete("t9".to_string()));
    assert!(app.delete_confirm.as_ref().unwrap().cascade.is_none());
    app.update(Message::ToggleDeleteOwnedEvents);
    assert!(app.delete_confirm.as_ref().unwrap().cascade.is_none());
    app.update(Message::CancelDelete);
    assert!(app.delete_confirm.is_none());
    app.update(Message::ShowView(View::Persons));
    app.update(Message::StartDelete("nobody".to_string()));
    assert!(app.delete_confirm.as_ref().unwrap().cascade.is_none());
    match app.update(Message::ConfirmDelete) {
        Command::Delete { delete_owned_events, .. } => assert!(!delete_owned_events),
        _ => panic!("expected a delete"),
    }
}

#[test]
fn write_completed_replaces_the_snapshot() {
    let mut app = opened();
    app.saving = true;
    let mut t = sample();
    t.persons.pop();
    app.update(Message::WriteCompleted(Ok(t)));
    assert!(!app.saving);
    assert_eq!(app.snapshot.as_ref().unwrap().persons.len(), 1);
}

#[test]
fn selecting_rows_of_the_current_panel() {
    let mut app = opened();
    app.update(Message::ShowView(View::Persons));
    app.update(Message::ShowRows(View::Persons, vec![1, 0]));
    app.update(Message::SelectIndex(0));
    assert_eq!(app.persons.selected, Some(0));
    assert_eq!(app.persons.selected_item(), Some(1));
    assert_eq!(app.current_selected_handle().as_deref(), Some("h2"));
    app.update(Message::SelectIndex(2));
    assert_eq!(app.persons.selected, Some(0));
    assert!(app.families.selected.is_none());
    app.update(Message::SearchChanged("ada".to_string()));
    assert_eq!(app.persons.query, "ada");
    app.update(Message::ShowRows(View::Persons, vec![0]));
    assert_eq!(app.persons.selected, Some(0));
    assert_eq!(app.current_selected_handle().as_deref(), Some("h1"));
    app.update(Message::ShowRows(View::Persons, Vec::new()));
    assert!(app.persons.selected.is_none());
    assert!(app.current_selected_handle().is_none());
}

#[test]
fn opening_a_search_hit_selects_it_in_its_panel() {
    let mut app = opened();
    app.update(Message::ShowRows(View::Persons, vec![0, 1]));
    app.update(Message::ShowView(View::Search));
    app.update(Message::OpenSearchHit(SearchHit { kind: HitKind::Person, index: 1 }));
    assert_eq!(app.current, View::Persons);
    assert_eq!(app.persons.selected, Some(1));
    app.update(Message::OpenSearchHit(SearchHit { kind: HitKind::Tag, index: 3 }));
    assert_eq!(app.current, View::Tags);
    assert!(app.tags.selected.is_none());
    let fresh = ListState::new();
    assert!(fresh.selected_item().is_none());
}
