//! The desktop application as a state machine: the state the editor keeps
//! between messages, the messages the window sends it, and the command
//! each message asks the runtime to carry out (pick a file, load a tree,
//! write a draft, delete a row, add a relative). The runtime performs the
//! command and answers with the next message; the decisions are all here.
//!
//! The tree is open exactly when a snapshot is held: opening a tree and
//! every completed write hand the fresh snapshot back.

use vstd::prelude::*;
use vstd::view::View as _;

use crate::db::keyed::find_key;
use crate::db::repo::family::{handle_views, opt_view};
use crate::db::repo::person::{exclusive_events, family_ids, preview_delete};
use crate::db::snapshot::{lookup, Snapshot};
use crate::gramps::person::{display_surname, name_display, Person};
use crate::list_pane::{fresh_list, hit_view, panel_of, select_at, select_item, selected_row, with_rows, ListState, SearchHit};
use crate::text::{contains_str, has_substring, int_decimal, lowercase, to_lowercase, trim, trimmed};
use crate::ui::{
    add_default_gender, default_draft_for, draft_from_row, is_default_draft, session_for_row, start_add, AddRelationship, CitationDraft,
    DateDraft, EditDraft, EditSession, EventDraft, FamilyDraft, MediaDraft, NoteDraft, PendingAdd, PendingDelete, PersonCascade,
    PersonDraft, PlaceDraft, RepoDraft, SourceDraft, TagDraft, View,
};

verus! {

/// One field of the inline date editor.
#[derive(Debug, Clone, Copy, PartialEq, Eq, Structural)]
pub enum DateField {
    Year,
    Month,
    Day,
    Modifier,
    Quality,
    Text,
}

/// One field of an edit draft, as the form's text inputs name them.
#[derive(Debug, Clone, Copy, PartialEq, Eq, Structural)]
pub enum DraftField {
    TagName,
    TagColor,
    TagPriority,
    NoteBody,
    NoteType,
    RepoName,
    RepoType,
    PersonFirstName,
    PersonSurname,
    PersonGender,
    PersonBirthYear,
    PersonDeathYear,
    FamilyFather,
    FamilyMother,
    FamilyType,
    EventType,
    EventDescription,
    EventPlace,
    EventDate(DateField),
    PlaceName,
    PlaceType,
    PlaceLat,
    PlaceLong,
    PlaceParent,
    SourceTitle,
    SourceAuthor,
    SourcePubinfo,
    SourceAbbrev,
    CitationSource,
    CitationPage,
    CitationConfidence,
    CitationDate(DateField),
    MediaPath,
    MediaMime,
    MediaDesc,
    MediaDate(DateField),
}

/// What the window tells the editor.
pub enum Message {
    /// File menu: open a tree.
    OpenDbDialog,
    /// The file picker's answer: a path, or none when cancelled.
    FilePicked(Option<String>),
    /// The loader's answer.
    DbOpened(Result<Snapshot, String>),
    /// Sidebar navigation click.
    ShowView(View),
    /// Cmd+F: focus the search box.
    FocusSearch,
    /// Escape: dismiss the error banner.
    Dismiss,
    /// Click on a person card in the tree: re-home on that person.
    TreeHome(String),
    /// Right-click on a person card: open the context menu for them.
    TreeContextMenu(String),
    TreeDismissContext,
    /// A context-menu action: open the add-person form.
    TreeStartAdd(AddRelationship),
    TreeSubmitAdd,
    TreeCancelAdd,
    AddFirstName(String),
    AddSurname(String),
    AddGender(String),
    AddBirthYear(String),
    AddDeathYear(String),
    AddSourceUrl(String),
    ToggleSidebar,
    ToggleBrowse,
    ToggleListMode,
    /// Typing in the current panel's search box.
    SearchChanged(String),
    /// A click on a row of the current panel: its position among the rows
    /// shown.
    SelectIndex(usize),
    /// "Open in its own view" on a row of the search panel.
    OpenSearchHit(SearchHit),
    /// The rows a panel shows, as its list pane filtered and sorted them
    /// (positions in the panel's table, in display order).
    ShowRows(View, Vec<usize>),
    /// Typing in the sidebar search bar.
    SearchBarInput(String),
    /// Enter in the sidebar search bar: jump to the best match.
    SearchBarSubmit,
    /// "New" in a panel.
    StartCreate(View),
    /// "Edit" on the selected row of the current panel.
    StartEditSelected,
    CancelEdit,
    SaveEdit,
    /// The answer to a write: the fresh snapshot, or what went wrong.
    WriteCompleted(Result<Snapshot, String>),
    /// First click on Delete: arm the confirmation banner.
    StartDelete(String),
    /// Second click on Delete.
    ConfirmDelete,
    CancelDelete,
    /// The "also delete this person's own events" box.
    ToggleDeleteOwnedEvents,
    /// Typing in a field of the open draft.
    EditDraft(DraftField, String),
}

/// What the editor asks the runtime to do next.
pub enum Command {
    Nothing,
    /// Show the file picker.
    PickFile,
    /// Open the tree at this path and load it.
    Load(String),
    /// Put the keyboard focus in the search box.
    FocusSearch,
    /// Write the draft.
    Save(EditSession),
    /// Delete the row `handle` of the panel `view`.
    Delete { view: View, handle: String, delete_owned_events: bool },
    /// Create the person of the form and link them to its target.
    TreeAdd(PendingAdd),
}

/// The editor's state between messages.
pub struct App {
    /// The open tree, as last loaded or written.
    pub snapshot: Option<Snapshot>,
    pub current: View,
    /// The person the tree view is centred on.
    pub home_person: Option<String>,
    pub edit: Option<EditSession>,
    pub delete_confirm: Option<PendingDelete>,
    /// The person whose context menu is open.
    pub context_target: Option<String>,
    pub pending_add: Option<PendingAdd>,
    pub sidebar_visible: bool,
    pub browse_expanded: bool,
    /// The panel shows a flat list instead of the tree layout.
    pub list_mode: bool,
    pub search_bar_query: String,
    pub error: Option<String>,
    pub loading: bool,
    /// A write is in flight.
    pub saving: bool,
    /// The list of each panel; the tree and network panels use
    /// `persons`.
    pub persons: ListState,
    pub families: ListState,
    pub events: ListState,
    pub places: ListState,
    pub sources: ListState,
    pub citations: ListState,
    pub media: ListState,
    pub notes: ListState,
    pub repositories: ListState,
    pub tags: ListState,
    /// The list of the search panel.
    pub search_list: ListState,
}

/// The list of panel `v`: the tree and network panels go by the persons
/// list.
pub open spec fn list_of(a: App, v: View) -> ListState {
    match v {
        View::Tree | View::Network | View::Persons => a.persons,
        View::Families => a.families,
        View::Events => a.events,
        View::Places => a.places,
        View::Sources => a.sources,
        View::Citations => a.citations,
        View::Media => a.media,
        View::Notes => a.notes,
        View::Repositories => a.repositories,
        View::Tags => a.tags,
        View::Search => a.search_list,
    }
}

/// `a` with the list of panel `v` replaced by `l`.
pub open spec fn with_list(a: App, v: View, l: ListState) -> App {
    match v {
        View::Tree | View::Network | View::Persons => App { persons: l, ..a },
        View::Families => App { families: l, ..a },
        View::Events => App { events: l, ..a },
        View::Places => App { places: l, ..a },
        View::Sources => App { sources: l, ..a },
        View::Citations => App { citations: l, ..a },
        View::Media => App { media: l, ..a },
        View::Notes => App { notes: l, ..a },
        View::Repositories => App { repositories: l, ..a },
        View::Tags => App { tags: l, ..a },
        View::Search => App { search_list: l, ..a },
    }
}

/// The list a panel goes by: the tree, network and persons panels share
/// one.
pub open spec fn list_slot(v: View) -> int {
    match v {
        View::Tree | View::Network | View::Persons => 0,
        View::Families => 1,
        View::Events => 2,
        View::Places => 3,
        View::Sources => 4,
        View::Citations => 5,
        View::Media => 6,
        View::Notes => 7,
        View::Repositories => 8,
        View::Tags => 9,
        View::Search => 10,
    }
}

/// A click on the row at position `idx` of the current panel selects it
/// when the panel shows a row there, and otherwise changes nothing; the rows shown, the query,
/// the other panels' lists, the panel, the tree, the draft and the pending
/// delete all stay as they were.
pub proof fn lemma_select_index(a: App, idx: usize, b: App, c: Command)
    requires
        step(a, Message::SelectIndex(idx), b, c),
    ensures
        c == Command::Nothing,
        idx < list_of(a, a.current).order@.len() ==> list_of(b, a.current).selected == Some(idx),
        idx >= list_of(a, a.current).order@.len() ==> b == a,
        list_of(b, a.current).order == list_of(a, a.current).order,
        list_of(b, a.current).query == list_of(a, a.current).query,
        forall|v: View| list_slot(v) != list_slot(a.current) ==> #[trigger] list_of(b, v) == list_of(a, v),
        b.current == a.current,
        b.snapshot == a.snapshot,
        b.edit == a.edit,
        b.delete_confirm == a.delete_confirm,
{
}

proof fn lemma_with_list_twice(a: App, v: View, x: ListState, l: ListState)
    ensures
        with_list(with_list(a, v, x), v, l) == with_list(a, v, l),
{
}

/// The handle of the selected row of the current panel, for the panels
/// of primary objects.
pub open spec fn selected_handle(a: App) -> Option<Seq<char>> {
    match (a.snapshot, selected_row(list_of(a, a.current))) {
        (Some(t), Some(i)) => match a.current {
            View::Persons => if i < t.persons@.len() { Some(t.persons@[i as int].handle@) } else { None },
            View::Families => if i < t.families@.len() { Some(t.families@[i as int].handle@) } else { None },
            View::Events => if i < t.events@.len() { Some(t.events@[i as int].handle@) } else { None },
            View::Places => if i < t.places@.len() { Some(t.places@[i as int].handle@) } else { None },
            View::Sources => if i < t.sources@.len() { Some(t.sources@[i as int].handle@) } else { None },
            View::Citations => if i < t.citations@.len() { Some(t.citations@[i as int].handle@) } else { None },
            View::Media => if i < t.media@.len() { Some(t.media@[i as int].handle@) } else { None },
            View::Tags => if i < t.tags@.len() { Some(t.tags@[i as int].handle@) } else { None },
            View::Notes => if i < t.notes@.len() { Some(t.notes@[i as int].handle@) } else { None },
            View::Repositories => if i < t.repositories@.len() { Some(t.repositories@[i as int].handle@) } else { None },
            _ => None,
        },
        _ => None,
    }
}

/// A date draft with one field replaced.
pub open spec fn date_set(d: DateDraft, f: DateField, v: String) -> DateDraft {
    match f {
        DateField::Year => DateDraft { year_s: v, ..d },
        DateField::Month => DateDraft { month_s: v, ..d },
        DateField::Day => DateDraft { day_s: v, ..d },
        DateField::Modifier => DateDraft { modifier_s: v, ..d },
        DateField::Quality => DateDraft { quality_s: v, ..d },
        DateField::Text => DateDraft { text_s: v, ..d },
    }
}

/// A draft with one field replaced; a field of another kind of draft
/// leaves it as it is.
pub open spec fn draft_set(d: EditDraft, f: DraftField, v: String) -> EditDraft {
    match d {
        EditDraft::Tag(t) => match f {
            DraftField::TagName => EditDraft::Tag(TagDraft { name: v, ..t }),
            DraftField::TagColor => EditDraft::Tag(TagDraft { color: v, ..t }),
            DraftField::TagPriority => EditDraft::Tag(TagDraft { priority_s: v, ..t }),
            _ => d,
        },
        EditDraft::Note(n) => match f {
            DraftField::NoteBody => EditDraft::Note(NoteDraft { body: v, ..n }),
            DraftField::NoteType => EditDraft::Note(NoteDraft { type_value_s: v, ..n }),
            _ => d,
        },
        EditDraft::Repository(r) => match f {
            DraftField::RepoName => EditDraft::Repository(RepoDraft { name: v, ..r }),
            DraftField::RepoType => EditDraft::Repository(RepoDraft { type_value_s: v, ..r }),
            _ => d,
        },
        EditDraft::Person(p) => match f {
            DraftField::PersonFirstName => EditDraft::Person(PersonDraft { first_name: v, ..p }),
            DraftField::PersonSurname => EditDraft::Person(PersonDraft { surname: v, ..p }),
            DraftField::PersonGender => EditDraft::Person(PersonDraft { gender_s: v, ..p }),
            DraftField::PersonBirthYear => EditDraft::Person(PersonDraft { birth_year_s: v, ..p }),
            DraftField::PersonDeathYear => EditDraft::Person(PersonDraft { death_year_s: v, ..p }),
            _ => d,
        },
        EditDraft::Family(fd) => match f {
            DraftField::FamilyFather => EditDraft::Family(FamilyDraft { father_gid: v, ..fd }),
            DraftField::FamilyMother => EditDraft::Family(FamilyDraft { mother_gid: v, ..fd }),
            DraftField::FamilyType => EditDraft::Family(FamilyDraft { type_value_s: v, ..fd }),
            _ => d,
        },
        EditDraft::Event(e) => match f {
            DraftField::EventType => EditDraft::Event(EventDraft { type_value_s: v, ..e }),
            DraftField::EventDescription => EditDraft::Event(EventDraft { description: v, ..e }),
            DraftField::EventPlace => EditDraft::Event(EventDraft { place_gid: v, ..e }),
            DraftField::EventDate(df) => EditDraft::Event(EventDraft { date: date_set(e.date, df, v), ..e }),
            _ => d,
        },
        EditDraft::Place(p) => match f {
            DraftField::PlaceName => EditDraft::Place(PlaceDraft { name: v, ..p }),
            DraftField::PlaceType => EditDraft::Place(PlaceDraft { type_value_s: v, ..p }),
            DraftField::PlaceLat => EditDraft::Place(PlaceDraft { lat: v, ..p }),
            DraftField::PlaceLong => EditDraft::Place(PlaceDraft { long: v, ..p }),
            DraftField::PlaceParent => EditDraft::Place(PlaceDraft { parent_gid: v, ..p }),
            _ => d,
        },
        EditDraft::Source(s) => match f {
            DraftField::SourceTitle => EditDraft::Source(SourceDraft { title: v, ..s }),
            DraftField::SourceAuthor => EditDraft::Source(SourceDraft { author: v, ..s }),
            DraftField::SourcePubinfo => EditDraft::Source(SourceDraft { pubinfo: v, ..s }),
            DraftField::SourceAbbrev => EditDraft::Source(SourceDraft { abbrev: v, ..s }),
            _ => d,
        },
        EditDraft::Citation(c) => match f {
            DraftField::CitationSource => EditDraft::Citation(CitationDraft { source_gid: v, ..c }),
            DraftField::CitationPage => EditDraft::Citation(CitationDraft { page: v, ..c }),
            DraftField::CitationConfidence => EditDraft::Citation(CitationDraft { confidence_s: v, ..c }),
            DraftField::CitationDate(df) => EditDraft::Citation(CitationDraft { date: date_set(c.date, df, v), ..c }),
            _ => d,
        },
        EditDraft::Media(m) => match f {
            DraftField::MediaPath => EditDraft::Media(MediaDraft { path: v, ..m }),
            DraftField::MediaMime => EditDraft::Media(MediaDraft { mime: v, ..m }),
            DraftField::MediaDesc => EditDraft::Media(MediaDraft { desc: v, ..m }),
            DraftField::MediaDate(df) => EditDraft::Media(MediaDraft { date: date_set(m.date, df, v), ..m }),
            _ => d,
        },
    }
}

/// A command that writes goes out only while a tree is open, and marks a
/// write in flight; the draft, form or pending delete it carries is taken
/// off the state.
pub proof fn lemma_writes_need_an_open_tree(a: App, m: Message, b: App, c: Command)
    requires
        step(a, m, b, c),
    ensures
        (c is Save || c is Delete || c is TreeAdd) ==> a.snapshot is Some && b.saving,
        c is Save ==> b.edit is None && a.edit == Some(c->Save_0),
        c is TreeAdd ==> b.pending_add is None && a.pending_add == Some(c->TreeAdd_0),
        c is Delete ==> b.delete_confirm is None && (a.delete_confirm matches Some(pd) && pd.view == c->Delete_view && pd.handle
            == c->Delete_handle),
{
}

fn set_date_field(d: DateDraft, f: DateField, v: String) -> (r: DateDraft)
    ensures
        r == date_set(d, f, v),
{
    let mut d = d;
    match f {
        DateField::Year => d.year_s = v,
        DateField::Month => d.month_s = v,
        DateField::Day => d.day_s = v,
        DateField::Modifier => d.modifier_s = v,
        DateField::Quality => d.quality_s = v,
        DateField::Text => d.text_s = v,
    }
    d
}

/// The draft with the field `f` set to `v`; see [`draft_set`].
pub fn set_draft_field(d: EditDraft, f: DraftField, v: String) -> (r: EditDraft)
    ensures
        r == draft_set(d, f, v),
{
    match d {
        EditDraft::Tag(mut t) => {
            match f {
                DraftField::TagName => t.name = v,
                DraftField::TagColor => t.color = v,
                DraftField::TagPriority => t.priority_s = v,
                _ => {},
            }
            EditDraft::Tag(t)
        },
        EditDraft::Note(mut n) => {
            match f {
                DraftField::NoteBody => n.body = v,
                DraftField::NoteType => n.type_value_s = v,
                _ => {},
            }
            EditDraft::Note(n)
        },
        EditDraft::Repository(mut r) => {
            match f {
                DraftField::RepoName => r.name = v,
                DraftField::RepoType => r.type_value_s = v,
                _ => {},
            }
            EditDraft::Repository(r)
        },
        EditDraft::Person(mut p) => {
            match f {
                DraftField::PersonFirstName => p.first_name = v,
                DraftField::PersonSurname => p.surname = v,
                DraftField::PersonGender => p.gender_s = v,
                DraftField::PersonBirthYear => p.birth_year_s = v,
                DraftField::PersonDeathYear => p.death_year_s = v,
                _ => {},
            }
            EditDraft::Person(p)
        },
        EditDraft::Family(mut fd) => {
            match f {
                DraftField::FamilyFather => fd.father_gid = v,
                DraftField::FamilyMother => fd.mother_gid = v,
                DraftField::FamilyType => fd.type_value_s = v,
                _ => {},
            }
            EditDraft::Family(fd)
        },
        EditDraft::Event(mut e) => {
            match f {
                DraftField::EventType => e.type_value_s = v,
                DraftField::EventDescription => e.description = v,
                DraftField::EventPlace => e.place_gid = v,
                DraftField::EventDate(df) => e.date = set_date_field(e.date, df, v),
                _ => {},
            }
            EditDraft::Event(e)
        },
        EditDraft::Place(mut p) => {
            match f {
                DraftField::PlaceName => p.name = v,
                DraftField::PlaceType => p.type_value_s = v,
                DraftField::PlaceLat => p.lat = v,
                DraftField::PlaceLong => p.long = v,
                DraftField::PlaceParent => p.parent_gid = v,
                _ => {},
            }
            EditDraft::Place(p)
        },
        EditDraft::Source(mut s) => {
            match f {
                DraftField::SourceTitle => s.title = v,
                DraftField::SourceAuthor => s.author = v,
                DraftField::SourcePubinfo => s.pubinfo = v,
                DraftField::SourceAbbrev => s.abbrev = v,
                _ => {},
            }
            EditDraft::Source(s)
        },
        EditDraft::Citation(mut c) => {
            match f {
                DraftField::CitationSource => c.source_gid = v,
                DraftField::CitationPage => c.page = v,
                DraftField::CitationConfidence => c.confidence_s = v,
                DraftField::CitationDate(df) => c.date = set_date_field(c.date, df, v),
                _ => {},
            }
            EditDraft::Citation(c)
        },
        EditDraft::Media(mut m) => {
            match f {
                DraftField::MediaPath => m.path = v,
                DraftField::MediaMime => m.mime = v,
                DraftField::MediaDesc => m.desc = v,
                DraftField::MediaDate(df) => m.date = set_date_field(m.date, df, v),
                _ => {},
            }
            EditDraft::Media(m)
        },
    }
}

/// The home person after a tree is loaded: its first person.
pub open spec fn first_person(t: Snapshot) -> Option<String> {
    if t.persons@.len() > 0 {
        Some(t.persons@[0].handle)
    } else {
        None
    }
}

/// The first person whose lowercased display name holds `q`.
pub open spec fn first_name_hit(s: Seq<Person>, q: Seq<char>) -> Option<int>
    decreases s.len(),
{
    if s.len() == 0 {
        None
    } else {
        match first_name_hit(s.drop_last(), q) {
            Some(i) => Some(i),
            None => if has_substring(lowercase(name_display(s.last().primary_name)), q) {
                Some(s.len() - 1)
            } else {
                None
            },
        }
    }
}

/// The person the sidebar search jumps to: the first whose display name
/// holds the trimmed, lowercased query, when the query is not blank.
pub open spec fn search_target(t: Option<Snapshot>, query: Seq<char>) -> Option<String> {
    let q = lowercase(trimmed(query));
    if q.len() == 0 {
        None
    } else {
        match t {
            Some(tree) => match first_name_hit(tree.persons@, q) {
                Some(i) => Some(tree.persons@[i].handle),
                None => None,
            },
            None => None,
        }
    }
}

/// The person an "add relative" action is for: the one whose context menu
/// is open, else the home person.
pub open spec fn add_target(a: App) -> Option<String> {
    match a.context_target {
        Some(t) => Some(t),
        None => a.home_person,
    }
}

/// The add-person form opened for `rel` next to `target`: blank but for
/// the target's surname and the gender the relationship suggests.
pub open spec fn add_form(t: Option<Snapshot>, rel: AddRelationship, target: String, p: PendingAdd) -> bool {
    &&& p.relationship == rel
    &&& p.target_handle == target
    &&& p.first_name@.len() == 0
    &&& p.surname@ == match t {
        Some(tree) => match lookup(tree.persons@, target@) {
            Some(q) => display_surname(q.primary_name.surname_list@),
            None => Seq::<char>::empty(),
        },
        None => Seq::<char>::empty(),
    }
    &&& p.gender_s@ == int_decimal(add_default_gender(rel) as int)
    &&& p.birth_year_s@.len() == 0
    &&& p.death_year_s@.len() == 0
    &&& p.source_url@.len() == 0
}

/// The cascade the confirmation banner shows for deleting the person `h`:
/// the families it is a parent in and a child of, its events and those
/// only it links to, with its own events kept unless the user opts in.
pub open spec fn cascade_for(t: Snapshot, h: Seq<char>, c: PersonCascade) -> bool {
    find_key(t.persons@, h) matches Some(i) && {
        let p = t.persons@[i];
        &&& c.display_name@ == name_display(p.primary_name)
        &&& handle_views(c.parent_of@) == family_ids(t.families@, p.family_list@)
        &&& handle_views(c.child_of@) == family_ids(t.families@, p.parent_family_list@)
        &&& c.event_count == p.event_ref_list@.len()
        &&& c.exclusive_event_count == exclusive_events(p.event_ref_list@, t.references@).len()
        &&& !c.delete_owned_events
    }
}

/// The add-person form with one field replaced, when it is open.
pub open spec fn add_set(p: Option<PendingAdd>, field: int, v: String) -> Option<PendingAdd> {
    match p {
        Some(f) => Some(
            if field == 0 {
                PendingAdd { first_name: v, ..f }
            } else if field == 1 {
                PendingAdd { surname: v, ..f }
            } else if field == 2 {
                PendingAdd { gender_s: v, ..f }
            } else if field == 3 {
                PendingAdd { birth_year_s: v, ..f }
            } else if field == 4 {
                PendingAdd { death_year_s: v, ..f }
            } else {
                PendingAdd { source_url: v, ..f }
            },
        ),
        None => None,
    }
}

/// How the editor answers message `m` in state `a`: `b` is its next state
/// and `c` the command for the runtime. Writes and deletes go out only
/// while a tree is open; the draft, form or pending delete they carry is
/// taken off the state either way.
pub open spec fn step(a: App, m: Message, b: App, c: Command) -> bool {
    match m {
        Message::OpenDbDialog => b == App { error: None, ..a } && c == Command::PickFile,
        Message::FilePicked(p) => match p {
            Some(path) => b == App { loading: true, ..a } && c == Command::Load(path),
            None => b == a && c == Command::Nothing,
        },
        Message::DbOpened(res) => c == Command::Nothing && match res {
            Ok(t) => b == App {
                loading: false,
                home_person: first_person(t),
                snapshot: Some(t),
                edit: None,
                delete_confirm: None,
                ..a
            },
            Err(e) => b == App { loading: false, error: Some(e), ..a },
        },
        Message::ShowView(v) => b == App { current: v, ..a } && c == Command::Nothing,
        Message::FocusSearch => b == a && c == Command::FocusSearch,
        Message::Dismiss => b == App { error: None, ..a } && c == Command::Nothing,
        Message::TreeHome(h) => b == App { context_target: None, home_person: Some(h), ..a } && c == Command::Nothing,
        Message::TreeContextMenu(h) => b == App { context_target: Some(h), ..a } && c == Command::Nothing,
        Message::TreeDismissContext => b == App { context_target: None, ..a } && c == Command::Nothing,
        Message::TreeStartAdd(rel) => c == Command::Nothing && match add_target(a) {
            Some(t) => b == App { context_target: None, pending_add: b.pending_add, ..a } && (b.pending_add matches Some(p) && add_form(
                a.snapshot,
                rel,
                t,
                p,
            )),
            None => b == a,
        },
        Message::TreeSubmitAdd => match (a.snapshot, a.pending_add) {
            (Some(_), Some(add)) => b == App { saving: true, pending_add: None, ..a } && c == Command::TreeAdd(add),
            _ => b == App { pending_add: None, ..a } && c == Command::Nothing,
        },
        Message::TreeCancelAdd => b == App { pending_add: None, ..a } && c == Command::Nothing,
        Message::AddFirstName(v) => b == App { pending_add: add_set(a.pending_add, 0, v), ..a } && c == Command::Nothing,
        Message::AddSurname(v) => b == App { pending_add: add_set(a.pending_add, 1, v), ..a } && c == Command::Nothing,
        Message::AddGender(v) => b == App { pending_add: add_set(a.pending_add, 2, v), ..a } && c == Command::Nothing,
        Message::AddBirthYear(v) => b == App { pending_add: add_set(a.pending_add, 3, v), ..a } && c == Command::Nothing,
        Message::AddDeathYear(v) => b == App { pending_add: add_set(a.pending_add, 4, v), ..a } && c == Command::Nothing,
        Message::AddSourceUrl(v) => b == App { pending_add: add_set(a.pending_add, 5, v), ..a } && c == Command::Nothing,
        Message::ToggleSidebar => b == App { sidebar_visible: !a.sidebar_visible, ..a } && c == Command::Nothing,
        Message::ToggleBrowse => b == App { browse_expanded: !a.browse_expanded, ..a } && c == Command::Nothing,
        Message::ToggleListMode => b == App { list_mode: !a.list_mode, ..a } && c == Command::Nothing,
        Message::SearchChanged(q) => c == Command::Nothing && b == with_list(a, a.current, ListState { query: q, ..list_of(a, a.current) }),
        Message::SelectIndex(idx) => c == Command::Nothing && b == with_list(a, a.current, select_at(list_of(a, a.current), idx)),
        Message::OpenSearchHit(hit) => c == Command::Nothing && b == with_list(
            App { current: hit_view(hit.kind), ..a },
            hit_view(hit.kind),
            select_item(list_of(a, hit_view(hit.kind)), hit.index),
        ),
        Message::ShowRows(v, rows) => c == Command::Nothing && b == with_list(a, v, with_rows(list_of(a, v), rows)),
        Message::SearchBarInput(q) => b == App { search_bar_query: q, ..a } && c == Command::Nothing,
        Message::SearchBarSubmit => c == Command::Nothing && b.search_bar_query@.len() == 0 && match search_target(a.snapshot, a.search_bar_query@) {
            Some(h) => b == App { search_bar_query: b.search_bar_query, home_person: Some(h), current: View::Tree, ..a },
            None => b == App { search_bar_query: b.search_bar_query, ..a },
        },
        Message::StartCreate(v) => c == Command::Nothing && b == App { delete_confirm: None, current: v, edit: b.edit, ..a } && (b.edit matches Some(
            s,
        ) && s.handle is None && is_default_draft(v, s.draft)),
        Message::StartEditSelected => c == Command::Nothing && b == App { delete_confirm: None, edit: b.edit, ..a } && match (
            a.snapshot,
            selected_row(list_of(a, a.current)),
        ) {
            (Some(t), Some(i)) => session_for_row(t, a.current, i as int, b.edit),
            _ => b.edit is None,
        },
        Message::CancelEdit => b == App { edit: None, ..a } && c == Command::Nothing,
        Message::SaveEdit => match (a.snapshot, a.edit) {
            (Some(_), Some(s)) => b == App { saving: true, edit: None, ..a } && c == Command::Save(s),
            _ => b == App { edit: None, ..a } && c == Command::Nothing,
        },
        Message::WriteCompleted(res) => c == Command::Nothing && match res {
            Ok(t) => b == App { saving: false, snapshot: Some(t), ..a },
            Err(e) => b == App { saving: false, error: Some(e), ..a },
        },
        Message::StartDelete(h) => c == Command::Nothing && b == App { delete_confirm: b.delete_confirm, ..a } && (b.delete_confirm matches Some(pd)
            && pd.view == a.current && pd.handle == h && if a.current == View::Persons && (a.snapshot matches Some(t) && find_key(
            t.persons@,
            h@,
        ) is Some) {
            pd.cascade matches Some(cs) && cascade_for(a.snapshot->0, h@, cs)
        } else {
            pd.cascade is None
        }),
        Message::CancelDelete => b == App { delete_confirm: None, ..a } && c == Command::Nothing,
        Message::ToggleDeleteOwnedEvents => c == Command::Nothing && b == App {
            delete_confirm: match a.delete_confirm {
                Some(pd) => match pd.cascade {
                    Some(cs) => Some(
                        PendingDelete { cascade: Some(PersonCascade { delete_owned_events: !cs.delete_owned_events, ..cs }), ..pd },
                    ),
                    None => Some(pd),
                },
                None => None,
            },
            ..a
        },
        Message::ConfirmDelete => match (a.snapshot, a.delete_confirm) {
            (Some(_), Some(pd)) => b == App { saving: true, delete_confirm: None, ..a } && c == Command::Delete {
                view: pd.view,
                handle: pd.handle,
                delete_owned_events: match pd.cascade {
                    Some(cs) => cs.delete_owned_events,
                    None => false,
                },
            },
            _ => b == App { delete_confirm: None, ..a } && c == Command::Nothing,
        },
        Message::EditDraft(f, v) => c == Command::Nothing && b == App {
            edit: match a.edit {
                Some(s) => Some(EditSession { handle: s.handle, draft: draft_set(s.draft, f, v) }),
                None => None,
            },
            ..a
        },
    }
}

/// The first person whose lowercased display name holds `q`.
fn find_name_hit(persons: &Vec<Person>, q: &String) -> (r: Option<usize>)
    ensures
        match r {
            Some(i) => i < persons@.len() && first_name_hit(persons@, q@) == Some(i as int),
            None => first_name_hit(persons@, q@) is None,
        },
{
    let mut i: usize = 0;
    while i < persons.len()
        invariant
            i <= persons@.len(),
            first_name_hit(persons@.subrange(0, i as int), q@) is None,
        decreases persons.len() - i,
    {
        let ghost next = persons@.subrange(0, i + 1);
        assert(next.drop_last() =~= persons@.subrange(0, i as int));
        let name = persons[i].primary_name.display();
        let lower = to_lowercase(name.as_str());
        if contains_str(lower.as_str(), q.as_str()) {
            proof {
                lemma_name_hit_prefix(persons@, q@, i + 1);
            }
            return Some(i);
        }
        i = i + 1;
    }
    assert(persons@.subrange(0, persons@.len() as int) =~= persons@);
    None
}

/// A hit found in a prefix is the first hit of the whole table.
proof fn lemma_name_hit_prefix(s: Seq<Person>, q: Seq<char>, k: int)
    requires
        0 <= k <= s.len(),
        first_name_hit(s.subrange(0, k), q) is Some,
    ensures
        first_name_hit(s, q) == first_name_hit(s.subrange(0, k), q),
    decreases s.len() - k,
{
    if k < s.len() {
        let next = s.subrange(0, k + 1);
        assert(next.drop_last() =~= s.subrange(0, k));
        lemma_name_hit_prefix(s, q, k + 1);
    } else {
        assert(s.subrange(0, k) =~= s);
    }
}

fn search_bar_target(tree: &Option<Snapshot>, query: &String) -> (r: Option<String>)
    ensures
        r == search_target(*tree, query@),
{
    let t = trim(query.as_str());
    let q = to_lowercase(t.as_str());
    if q.as_str().is_empty() {
        return None;
    }
    match tree {
        Some(tree) => match find_name_hit(&tree.persons, &q) {
            Some(i) => Some(tree.persons[i].handle.clone()),
            None => None,
        },
        None => None,
    }
}

fn open_add_form(tree: &Option<Snapshot>, rel: AddRelationship, target: String) -> (r: PendingAdd)
    ensures
        add_form(*tree, rel, target, r),
{
    match tree {
        Some(t) => start_add(t, rel, target),
        None => PendingAdd {
            relationship: rel,
            target_handle: target,
            first_name: String::new(),
            surname: String::new(),
            gender_s: crate::text::format_int(rel.default_gender() as i64),
            birth_year_s: String::new(),
            death_year_s: String::new(),
            source_url: String::new(),
        },
    }
}

fn cascade_of(tree: &Snapshot, handle: &str) -> (r: Option<PersonCascade>)
    ensures
        match r {
            Some(cs) => cascade_for(*tree, handle@, cs),
            None => find_key(tree.persons@, handle@) is None,
        },
{
    match preview_delete(tree, handle) {
        Ok(pv) => Some(PersonCascade::from_preview(pv)),
        Err(_) => {
            proof {
                crate::db::keyed::lemma_find_key(tree.persons@, handle@);
            }
            None
        },
    }
}

fn set_add_field(p: Option<PendingAdd>, field: u8, v: String) -> (r: Option<PendingAdd>)
    requires
        field <= 5,
    ensures
        r == add_set(p, field as int, v),
{
    match p {
        Some(mut f) => {
            if field == 0 {
                f.first_name = v;
            } else if field == 1 {
                f.surname = v;
            } else if field == 2 {
                f.gender_s = v;
            } else if field == 3 {
                f.birth_year_s = v;
            } else if field == 4 {
                f.death_year_s = v;
            } else {
                f.source_url = v;
            }
            Some(f)
        },
        None => None,
    }
}

fn first_handle(t: &Snapshot) -> (r: Option<String>)
    ensures
        r == first_person(*t),
{
    if t.persons.len() > 0 {
        Some(t.persons[0].handle.clone())
    } else {
        None
    }
}

impl App {
    /// The editor at start-up: the tree panel, nothing open. With a tree
    /// to open at once, it is loading and asks for it.
    pub fn new(initial: Option<String>) -> (r: (App, Command))
        ensures
            r.0.snapshot is None,
            r.0.current == View::Tree,
            r.0.home_person is None,
            r.0.edit is None,
            r.0.delete_confirm is None,
            r.0.context_target is None,
            r.0.pending_add is None,
            !r.0.sidebar_visible,
            !r.0.browse_expanded,
            !r.0.list_mode,
            r.0.search_bar_query@.len() == 0,
            r.0.error is None,
            r.0.loading == initial is Some,
            !r.0.saving,
            forall|v: View| fresh_list(#[trigger] list_of(r.0, v)),
            match initial {
                Some(p) => r.1 == Command::Load(p),
                None => r.1 == Command::Nothing,
            },
    {
        let loading = initial.is_some();
        let cmd = match initial {
            Some(p) => Command::Load(p),
            None => Command::Nothing,
        };
        (
            App {
                snapshot: None,
                current: View::Tree,
                home_person: None,
                edit: None,
                delete_confirm: None,
                context_target: None,
                pending_add: None,
                sidebar_visible: false,
                browse_expanded: false,
                list_mode: false,
                search_bar_query: String::new(),
                error: None,
                loading,
                saving: false,
                persons: ListState::new(),
                families: ListState::new(),
                events: ListState::new(),
                places: ListState::new(),
                sources: ListState::new(),
                citations: ListState::new(),
                media: ListState::new(),
                notes: ListState::new(),
                repositories: ListState::new(),
                tags: ListState::new(),
                search_list: ListState::new(),
            },
            cmd,
        )
    }

    /// The list of the current panel.
    pub fn current_list(&self) -> (r: &ListState)
        ensures
            *r == list_of(*self, self.current),
    {
        match self.current {
            View::Tree | View::Network | View::Persons => &self.persons,
            View::Families => &self.families,
            View::Events => &self.events,
            View::Places => &self.places,
            View::Sources => &self.sources,
            View::Citations => &self.citations,
            View::Media => &self.media,
            View::Notes => &self.notes,
            View::Repositories => &self.repositories,
            View::Tags => &self.tags,
            View::Search => &self.search_list,
        }
    }

    /// Takes the list of panel `v` out, leaving an empty one in its place.
    fn take_list(&mut self, v: View) -> (r: ListState)
        ensures
            r == list_of(*old(self), v),
            *final(self) == with_list(*old(self), v, list_of(*final(self), v)),
    {
        let mut l = ListState::new();
        match v {
            View::Tree | View::Network | View::Persons => std::mem::swap(&mut l, &mut self.persons),
            View::Families => std::mem::swap(&mut l, &mut self.families),
            View::Events => std::mem::swap(&mut l, &mut self.events),
            View::Places => std::mem::swap(&mut l, &mut self.places),
            View::Sources => std::mem::swap(&mut l, &mut self.sources),
            View::Citations => std::mem::swap(&mut l, &mut self.citations),
            View::Media => std::mem::swap(&mut l, &mut self.media),
            View::Notes => std::mem::swap(&mut l, &mut self.notes),
            View::Repositories => std::mem::swap(&mut l, &mut self.repositories),
            View::Tags => std::mem::swap(&mut l, &mut self.tags),
            View::Search => std::mem::swap(&mut l, &mut self.search_list),
        }
        l
    }

    /// Puts `l` in as the list of panel `v`.
    fn put_list(&mut self, v: View, l: ListState)
        ensures
            *final(self) == with_list(*old(self), v, l),
    {
        match v {
            View::Tree | View::Network | View::Persons => self.persons = l,
            View::Families => self.families = l,
            View::Events => self.events = l,
            View::Places => self.places = l,
            View::Sources => self.sources = l,
            View::Citations => self.citations = l,
            View::Media => self.media = l,
            View::Notes => self.notes = l,
            View::Repositories => self.repositories = l,
            View::Tags => self.tags = l,
            View::Search => self.search_list = l,
        }
    }

    /// The handle of the selected row of the current panel; see
    /// [`selected_handle`].
    pub fn current_selected_handle(&self) -> (r: Option<String>)
        ensures
            opt_view(r) == selected_handle(*self),
    {
        let t = match &self.snapshot {
            Some(t) => t,
            None => return None,
        };
        let i = match self.current_list().selected_item() {
            Some(i) => i,
            None => return None,
        };
        match self.current {
            View::Persons => if i < t.persons.len() { Some(t.persons[i].handle.clone()) } else { None },
            View::Families => if i < t.families.len() { Some(t.families[i].handle.clone()) } else { None },
            View::Events => if i < t.events.len() { Some(t.events[i].handle.clone()) } else { None },
            View::Places => if i < t.places.len() { Some(t.places[i].handle.clone()) } else { None },
            View::Sources => if i < t.sources.len() { Some(t.sources[i].handle.clone()) } else { None },
            View::Citations => if i < t.citations.len() { Some(t.citations[i].handle.clone()) } else { None },
            View::Media => if i < t.media.len() { Some(t.media[i].handle.clone()) } else { None },
            View::Tags => if i < t.tags.len() { Some(t.tags[i].handle.clone()) } else { None },
            View::Notes => if i < t.notes.len() { Some(t.notes[i].handle.clone()) } else { None },
            View::Repositories => if i < t.repositories.len() { Some(t.repositories[i].handle.clone()) } else { None },
            _ => None,
        }
    }

    /// Answer a message about a panel's list; see [`step`].
    fn update_list(&mut self, message: Message) -> (c: Command)
        requires
            message is SearchChanged || message is SelectIndex || message is OpenSearchHit || message is ShowRows,
        ensures
            step(*old(self), message, *final(self), c),
    {
        match message {
            Message::SearchChanged(q) => {
                let v = self.current;
                let mut l = self.take_list(v);
                l.set_query(q);
                self.put_list(v, l);
                Command::Nothing
            },
            Message::SelectIndex(idx) => {
                let v = self.current;
                let mut l = self.take_list(v);
                l.select_index(idx);
                self.put_list(v, l);
                Command::Nothing
            },
            Message::OpenSearchHit(hit) => {
                let v = panel_of(hit.kind);
                self.current = v;
                let mut l = self.take_list(v);
                l.select_row(hit.index);
                self.put_list(v, l);
                Command::Nothing
            },
            Message::ShowRows(v, rows) => {
                let mut l = self.take_list(v);
                l.show_rows(rows);
                self.put_list(v, l);
                Command::Nothing
            },
            _ => Command::Nothing,
        }
    }

    /// Answer a message from the window; see [`step`].
    #[verifier::rlimit(40)]
    pub fn update(&mut self, message: Message) -> (c: Command)
        ensures
            step(*old(self), message, *final(self), c),
    {
        match message {
            Message::OpenDbDialog => {
                self.error = None;
                Command::PickFile
            },
            Message::FilePicked(p) => match p {
                Some(path) => {
                    self.loading = true;
                    Command::Load(path)
                },
                None => Command::Nothing,
            },
            Message::DbOpened(res) => {
                self.loading = false;
                match res {
                    Ok(t) => {
                        self.home_person = first_handle(&t);
                        self.snapshot = Some(t);
                        self.edit = None;
                        self.delete_confirm = None;
                    },
                    Err(e) => {
                        self.error = Some(e);
                    },
                }
                Command::Nothing
            },
            Message::ShowView(v) => {
                self.current = v;
                Command::Nothing
            },
            Message::FocusSearch => Command::FocusSearch,
            Message::Dismiss => {
                self.error = None;
                Command::Nothing
            },
            Message::TreeHome(h) => {
                self.context_target = None;
                self.home_person = Some(h);
                Command::Nothing
            },
            Message::TreeContextMenu(h) => {
                self.context_target = Some(h);
                Command::Nothing
            },
            Message::TreeDismissContext => {
                self.context_target = None;
                Command::Nothing
            },
            Message::TreeStartAdd(rel) => {
                let target = match &self.context_target {
                    Some(t) => Some(t.clone()),
                    None => match &self.home_person {
                        Some(h) => Some(h.clone()),
                        None => None,
                    },
                };
                match target {
                    Some(t) => {
                        let form = open_add_form(&self.snapshot, rel, t);
                        self.context_target = None;
                        self.pending_add = Some(form);
                    },
                    None => {},
                }
                Command::Nothing
            },
            Message::TreeSubmitAdd => {
                let add = self.pending_add.take();
                match add {
                    Some(a) => if self.snapshot.is_some() {
                        self.saving = true;
                        Command::TreeAdd(a)
                    } else {
                        Command::Nothing
                    },
                    None => Command::Nothing,
                }
            },
            Message::TreeCancelAdd => {
                self.pending_add = None;
                Command::Nothing
            },
            Message::AddFirstName(v) => {
                self.pending_add = set_add_field(self.pending_add.take(), 0, v);
                Command::Nothing
            },
            Message::AddSurname(v) => {
                self.pending_add = set_add_field(self.pending_add.take(), 1, v);
                Command::Nothing
            },
            Message::AddGender(v) => {
                self.pending_add = set_add_field(self.pending_add.take(), 2, v);
                Command::Nothing
            },
            Message::AddBirthYear(v) => {
                self.pending_add = set_add_field(self.pending_add.take(), 3, v);
                Command::Nothing
            },
            Message::AddDeathYear(v) => {
                self.pending_add = set_add_field(self.pending_add.take(), 4, v);
                Command::Nothing
            },
            Message::AddSourceUrl(v) => {
                self.pending_add = set_add_field(self.pending_add.take(), 5, v);
                Command::Nothing
            },
            Message::ToggleSidebar => {
                self.sidebar_visible = !self.sidebar_visible;
                Command::Nothing
            },
            Message::ToggleBrowse => {
                self.browse_expanded = !self.browse_expanded;
                Command::Nothing
            },
            Message::ToggleListMode => {
                self.list_mode = !self.list_mode;
                Command::Nothing
            },
            Message::SearchChanged(_) | Message::SelectIndex(_) | Message::OpenSearchHit(_) | Message::ShowRows(_, _) => self.update_list(message),
            Message::SearchBarInput(q) => {
                self.search_bar_query = q;
                Command::Nothing
            },
            Message::SearchBarSubmit => {
                match search_bar_target(&self.snapshot, &self.search_bar_query) {
                    Some(h) => {
                        self.home_person = Some(h);
                        self.current = View::Tree;
                    },
                    None => {},
                }
                self.search_bar_query = String::new();
                Command::Nothing
            },
            Message::StartCreate(v) => {
                self.delete_confirm = None;
                self.current = v;
                self.edit = Some(EditSession { handle: None, draft: default_draft_for(v) });
                Command::Nothing
            },
            Message::StartEditSelected => {
                self.delete_confirm = None;
                let sel = self.current_list().selected_item();
                let session = match (&self.snapshot, sel) {
                    (Some(t), Some(i)) => draft_from_row(t, self.current, i),
                    _ => None,
                };
                self.edit = session;
                Command::Nothing
            },
            Message::CancelEdit => {
                self.edit = None;
                Command::Nothing
            },
            Message::SaveEdit => {
                let session = self.edit.take();
                match session {
                    Some(s) => if self.snapshot.is_some() {
                        self.saving = true;
                        Command::Save(s)
                    } else {
                        Command::Nothing
                    },
                    None => Command::Nothing,
                }
            },
            Message::WriteCompleted(res) => {
                self.saving = false;
                match res {
                    Ok(t) => {
                        self.snapshot = Some(t);
                    },
                    Err(e) => {
                        self.error = Some(e);
                    },
                }
                Command::Nothing
            },
            Message::StartDelete(h) => {
                let view = self.current;
                let cascade = if view == View::Persons {
                    match &self.snapshot {
                        Some(t) => cascade_of(t, h.as_str()),
                        None => None,
                    }
                } else {
                    None
                };
                self.delete_confirm = Some(PendingDelete { view, handle: h, cascade });
                Command::Nothing
            },
            Message::CancelDelete => {
                self.delete_confirm = None;
                Command::Nothing
            },
            Message::ToggleDeleteOwnedEvents => {
                let pending = self.delete_confirm.take();
                self.delete_confirm = match pending {
                    Some(pd) => match pd.cascade {
                        Some(cs) => {
                            let flipped = !cs.delete_owned_events;
                            Some(
                                PendingDelete {
                                    view: pd.view,
                                    handle: pd.handle,
                                    cascade: Some(PersonCascade { delete_owned_events: flipped, ..cs }),
                                },
                            )
                        },
                        None => Some(PendingDelete { view: pd.view, handle: pd.handle, cascade: None }),
                    },
                    None => None,
                };
                Command::Nothing
            },
            Message::ConfirmDelete => {
                let pending = self.delete_confirm.take();
                match pending {
                    Some(pd) => if self.snapshot.is_some() {
                        self.saving = true;
                        let owned = match &pd.cascade {
                            Some(cs) => cs.delete_owned_events,
                            None => false,
                        };
                        Command::Delete { view: pd.view, handle: pd.handle, delete_owned_events: owned }
                    } else {
                        Command::Nothing
                    },
                    None => Command::Nothing,
                }
            },
            Message::EditDraft(f, v) => {
                let session = self.edit.take();
                self.edit = match session {
                    Some(s) => Some(EditSession { handle: s.handle, draft: set_draft_field(s.draft, f, v) }),
                    None => None,
                };
                Command::Nothing
            },
        }
    }
}

} // verus!
