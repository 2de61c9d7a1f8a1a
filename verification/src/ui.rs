//! Editing state of the desktop application: which panel is shown, the
//! open edit draft, the pending delete and the add-a-relative form, and
//! the form parsing that turns a draft into a write.

use vstd::prelude::*;
use vstd::view::View as _;

use crate::db::keyed::{find, find_gid, find_gid_spec, lemma_find_key};
use crate::db::refs::ObjClass;
use crate::db::repo::common::RepoError;
use crate::db::repo::person::DeletePreview;
use crate::db::repo::{citation, event, family, media, note, person, place, repository, source, tag};
use crate::db::snapshot::{lookup, Snapshot};
use crate::gramps::person::{display_surname, primary_surname};
use crate::db::repo::family::opt_view;
use crate::gramps::date::{date_primary_year, Date, DateVal};
use crate::gramps::person::Person;
use crate::text::{chars_of, format_int, int_decimal, parse_i32, parse_i32_spec, parse_or, parse_trimmed_i32, string_of, trim, trimmed};

verus! {

/// Which primary-type panel is shown. Order matches the sidebar.
#[derive(Debug, Clone, Copy, PartialEq, Eq, Structural)]
pub enum View {
    Tree,
    Network,
    Persons,
    Families,
    Events,
    Places,
    Sources,
    Citations,
    Media,
    Notes,
    Repositories,
    Tags,
    Search,
}

/// The sidebar label of a panel.
pub open spec fn view_label(v: View) -> Seq<char> {
    match v {
        View::Tree => "Family Tree"@,
        View::Network => "Full Network"@,
        View::Persons => "Persons"@,
        View::Families => "Families"@,
        View::Events => "Events"@,
        View::Places => "Places"@,
        View::Sources => "Sources"@,
        View::Citations => "Citations"@,
        View::Media => "Media"@,
        View::Notes => "Notes"@,
        View::Repositories => "Repositories"@,
        View::Tags => "Tags"@,
        View::Search => "Search"@,
    }
}

impl View {
    /// The sidebar label of the panel.
    pub fn label(self) -> (r: &'static str)
        ensures
            r@ == view_label(self),
    {
        match self {
            View::Tree => "Family Tree",
            View::Network => "Full Network",
            View::Persons => "Persons",
            View::Families => "Families",
            View::Events => "Events",
            View::Places => "Places",
            View::Sources => "Sources",
            View::Citations => "Citations",
            View::Media => "Media",
            View::Notes => "Notes",
            View::Repositories => "Repositories",
            View::Tags => "Tags",
            View::Search => "Search",
        }
    }
}

/// The primary type a browse panel lists, for the panels whose rows can
/// be deleted.
pub open spec fn view_class(v: View) -> Option<ObjClass> {
    match v {
        View::Persons => Some(ObjClass::Person),
        View::Families => Some(ObjClass::Family),
        View::Events => Some(ObjClass::Event),
        View::Places => Some(ObjClass::Place),
        View::Sources => Some(ObjClass::Source),
        View::Citations => Some(ObjClass::Citation),
        View::Media => Some(ObjClass::Media),
        View::Notes => Some(ObjClass::Note),
        View::Repositories => Some(ObjClass::Repository),
        View::Tags => Some(ObjClass::Tag),
        _ => None,
    }
}

impl View {
    /// The primary type whose rows the panel lists and deletes; `None` for
    /// the tree, network and search panels, where delete is not supported.
    pub fn deletes(self) -> (r: Option<ObjClass>)
        ensures
            r == view_class(self),
    {
        match self {
            View::Persons => Some(ObjClass::Person),
            View::Families => Some(ObjClass::Family),
            View::Events => Some(ObjClass::Event),
            View::Places => Some(ObjClass::Place),
            View::Sources => Some(ObjClass::Source),
            View::Citations => Some(ObjClass::Citation),
            View::Media => Some(ObjClass::Media),
            View::Notes => Some(ObjClass::Note),
            View::Repositories => Some(ObjClass::Repository),
            View::Tags => Some(ObjClass::Tag),
            _ => None,
        }
    }
}

/// What kind of relationship the "add person" form creates.
#[derive(Debug, Clone, Copy, PartialEq, Eq, Structural)]
pub enum AddRelationship {
    Child,
    Father,
    Mother,
    Sibling,
}

/// The title of the "add person" form.
pub open spec fn add_label(r: AddRelationship) -> Seq<char> {
    match r {
        AddRelationship::Child => "Add child"@,
        AddRelationship::Father => "Add father"@,
        AddRelationship::Mother => "Add mother"@,
        AddRelationship::Sibling => "Add sibling"@,
    }
}

/// The gender the form starts with: male for a father, female for a
/// mother, unknown (2) otherwise.
pub open spec fn add_default_gender(r: AddRelationship) -> i32 {
    match r {
        AddRelationship::Father => 1,
        AddRelationship::Mother => 0,
        _ => 2,
    }
}

impl AddRelationship {
    /// The title of the "add person" form.
    pub fn label(self) -> (r: &'static str)
        ensures
            r@ == add_label(self),
    {
        match self {
            AddRelationship::Child => "Add child",
            AddRelationship::Father => "Add father",
            AddRelationship::Mother => "Add mother",
            AddRelationship::Sibling => "Add sibling",
        }
    }

    /// The gender the form starts with.
    pub fn default_gender(self) -> (r: i32)
        ensures
            r == add_default_gender(self),
    {
        match self {
            AddRelationship::Father => 1,
            AddRelationship::Mother => 0,
            _ => 2,
        }
    }
}

/// State of the "add person" form.
#[derive(Debug, Clone)]
pub struct PendingAdd {
    pub relationship: AddRelationship,
    /// The person in the tree the new person is relative to.
    pub target_handle: String,
    pub first_name: String,
    pub surname: String,
    pub gender_s: String,
    pub birth_year_s: String,
    pub death_year_s: String,
    /// Optional source URL or description; when non-empty a Source and a
    /// Citation are made and attached to the new person.
    pub source_url: String,
}

/// One open edit: a new object not yet saved (`handle` is `None`), or an
/// in-place edit of an existing row.
#[derive(Debug, Clone)]
pub struct EditSession {
    pub handle: Option<String>,
    pub draft: EditDraft,
}

#[derive(Debug, Clone)]
pub enum EditDraft {
    Tag(TagDraft),
    Note(NoteDraft),
    Repository(RepoDraft),
    Person(PersonDraft),
    Family(FamilyDraft),
    Event(EventDraft),
    Place(PlaceDraft),
    Source(SourceDraft),
    Citation(CitationDraft),
    Media(MediaDraft),
}

/// The fields of the inline date editor, as typed.
#[derive(Debug, Clone, Default)]
pub struct DateDraft {
    pub year_s: String,
    pub month_s: String,
    pub day_s: String,
    pub modifier_s: String,
    pub quality_s: String,
    pub text_s: String,
}

/// Family draft: father and mother by gramps id (`I0001`), resolved to
/// handles on save; the relationship type as typed.
#[derive(Debug, Clone, Default)]
pub struct FamilyDraft {
    pub father_gid: String,
    pub mother_gid: String,
    pub type_value_s: String,
}

/// Event draft: type, description, place by gramps id, and the date.
#[derive(Debug, Clone, Default)]
pub struct EventDraft {
    pub type_value_s: String,
    pub description: String,
    pub place_gid: String,
    pub date: DateDraft,
}

/// Place draft: name, type, latitude / longitude, enclosing place by
/// gramps id.
#[derive(Debug, Clone, Default)]
pub struct PlaceDraft {
    pub name: String,
    pub type_value_s: String,
    pub lat: String,
    pub long: String,
    pub parent_gid: String,
}

/// Source draft.
#[derive(Debug, Clone, Default)]
pub struct SourceDraft {
    pub title: String,
    pub author: String,
    pub pubinfo: String,
    pub abbrev: String,
}

/// Citation draft: source by gramps id, page, confidence, date.
#[derive(Debug, Clone, Default)]
pub struct CitationDraft {
    pub source_gid: String,
    pub page: String,
    pub confidence_s: String,
    pub date: DateDraft,
}

/// Media draft: path, mime type, description, date.
#[derive(Debug, Clone, Default)]
pub struct MediaDraft {
    pub path: String,
    pub mime: String,
    pub desc: String,
    pub date: DateDraft,
}

/// Person draft: names, gender (0 female, 1 male, 2 unknown) and the
/// birth and death years as typed; an empty year means none.
#[derive(Debug, Clone, Default)]
pub struct PersonDraft {
    pub first_name: String,
    pub surname: String,
    pub gender_s: String,
    pub birth_year_s: String,
    pub death_year_s: String,
}

#[derive(Debug, Clone, Default)]
pub struct TagDraft {
    pub name: String,
    pub color: String,
    pub priority_s: String,
}

#[derive(Debug, Clone, Default)]
pub struct NoteDraft {
    pub body: String,
    pub type_value_s: String,
}

#[derive(Debug, Clone, Default)]
pub struct RepoDraft {
    pub name: String,
    pub type_value_s: String,
}

/// A delete waiting for confirmation; for a person it carries what the
/// cascade will do.
#[derive(Debug, Clone)]
pub struct PendingDelete {
    pub view: View,
    pub handle: String,
    pub cascade: Option<PersonCascade>,
}

/// What a person delete will do, with the choice of also deleting the
/// events only that person links to.
#[derive(Debug, Clone)]
pub struct PersonCascade {
    pub display_name: String,
    pub parent_of: Vec<String>,
    pub child_of: Vec<String>,
    pub event_count: usize,
    pub exclusive_event_count: usize,
    pub delete_owned_events: bool,
}

impl PersonCascade {
    /// The cascade shown for a preview; owned events are kept unless the
    /// user opts in.
    pub fn from_preview(preview: DeletePreview) -> (r: PersonCascade)
        ensures
            r.display_name == preview.display_name,
            r.parent_of == preview.parent_of,
            r.child_of == preview.child_of,
            r.event_count == preview.event_count,
            r.exclusive_event_count == preview.exclusive_event_count,
            !r.delete_owned_events,
    {
        PersonCascade {
            display_name: preview.display_name,
            parent_of: preview.parent_of,
            child_of: preview.child_of,
            event_count: preview.event_count,
            exclusive_event_count: preview.exclusive_event_count,
            delete_owned_events: false,
        }
    }
}

/// The first eight characters of a handle, for display.
pub fn short(handle: &str) -> (r: String)
    ensures
        r@ == if handle@.len() <= 8 {
            handle@
        } else {
            handle@.subrange(0, 8)
        },
{
    let cs = chars_of(handle);
    let n = if cs.len() < 8 {
        cs.len()
    } else {
        8
    };
    let r = string_of(&cs, 0, n);
    assert(cs@.subrange(0, cs@.len() as int) =~= cs@);
    r
}

/// The "add person" form for `rel` next to the person `target_handle`,
/// with the surname taken from that person (empty when there is none) and
/// the gender the relationship suggests.
pub fn start_add(tree: &Snapshot, rel: AddRelationship, target_handle: String) -> (r: PendingAdd)
    ensures
        r.relationship == rel,
        r.target_handle == target_handle,
        r.first_name@.len() == 0,
        r.surname@ == match lookup(tree.persons@, target_handle@) {
            Some(p) => display_surname(p.primary_name.surname_list@),
            None => Seq::<char>::empty(),
        },
        r.gender_s@ == crate::text::int_decimal(add_default_gender(rel) as int),
        r.birth_year_s@.len() == 0,
        r.death_year_s@.len() == 0,
        r.source_url@.len() == 0,
{
    let surname = match tree.person(target_handle.as_str()) {
        Some(p) => primary_surname(&p.primary_name.surname_list),
        None => String::new(),
    };
    let g = rel.default_gender();
    PendingAdd {
        relationship: rel,
        target_handle,
        first_name: String::new(),
        surname,
        gender_s: crate::text::format_int(g as i64),
        birth_year_s: String::new(),
        death_year_s: String::new(),
        source_url: String::new(),
    }
}

/// What a gramps id typed into a form resolves to: nothing when blank,
/// the handle of the first row with that id, or an error when no row has
/// it.
pub open spec fn gid_resolution<T: crate::db::keyed::HasGrampsId + crate::db::keyed::Keyed>(rows: Seq<T>, gid: Seq<char>) -> Option<Option<Seq<char>>> {
    let g = trimmed(gid);
    if g.len() == 0 {
        Some(None)
    } else {
        match find_gid_spec(rows, g) {
            Some(i) => Some(Some(rows[i].key())),
            None => None,
        }
    }
}

fn resolve_gid<T: crate::db::keyed::HasGrampsId + crate::db::keyed::Keyed>(rows: &Vec<T>, gid: &str, class: ObjClass) -> (r: Result<Option<String>, RepoError>)
    ensures
        match r {
            Ok(Some(h)) => gid_resolution(rows@, gid@) == Some(Some(h@)),
            Ok(None) => gid_resolution(rows@, gid@) == Some(None::<Seq<char>>),
            Err(e) => gid_resolution(rows@, gid@) is None && (e matches RepoError::UnknownGrampsId { class: c, gramps_id: g } && c == class
                && g@ == trimmed(gid@)),
        },
{
    let g = trim(gid);
    if g.as_str().is_empty() {
        return Ok(None);
    }
    match find_gid(rows, g.as_str()) {
        Some(i) => Ok(Some(String::from_str(rows[i].key_str()))),
        None => Err(RepoError::UnknownGrampsId { class, gramps_id: g }),
    }
}

/// Resolve a person's gramps id typed into a form to its handle; blank is
/// "unset", an unknown id an error.
pub fn resolve_person_by_gid(tree: &Snapshot, gid: &str) -> (r: Result<Option<String>, RepoError>)
    ensures
        match r {
            Ok(Some(h)) => gid_resolution(tree.persons@, gid@) == Some(Some(h@)),
            Ok(None) => gid_resolution(tree.persons@, gid@) == Some(None::<Seq<char>>),
            Err(e) => gid_resolution(tree.persons@, gid@) is None && (e matches RepoError::UnknownGrampsId { class: ObjClass::Person, gramps_id: g }
                && g@ == trimmed(gid@)),
        },
{
    resolve_gid(&tree.persons, gid, ObjClass::Person)
}

/// Resolve a source's gramps id typed into a form to its handle.
pub fn resolve_source_by_gid(tree: &Snapshot, gid: &str) -> (r: Result<Option<String>, RepoError>)
    ensures
        match r {
            Ok(Some(h)) => gid_resolution(tree.sources@, gid@) == Some(Some(h@)),
            Ok(None) => gid_resolution(tree.sources@, gid@) == Some(None::<Seq<char>>),
            Err(e) => gid_resolution(tree.sources@, gid@) is None && (e matches RepoError::UnknownGrampsId { class: ObjClass::Source, gramps_id: g }
                && g@ == trimmed(gid@)),
        },
{
    resolve_gid(&tree.sources, gid, ObjClass::Source)
}

/// Resolve a place's gramps id typed into a form to its handle.
pub fn resolve_place_by_gid(tree: &Snapshot, gid: &str) -> (r: Result<Option<String>, RepoError>)
    ensures
        match r {
            Ok(Some(h)) => gid_resolution(tree.places@, gid@) == Some(Some(h@)),
            Ok(None) => gid_resolution(tree.places@, gid@) == Some(None::<Seq<char>>),
            Err(e) => gid_resolution(tree.places@, gid@) is None && (e matches RepoError::UnknownGrampsId { class: ObjClass::Place, gramps_id: g }
                && g@ == trimmed(gid@)),
        },
{
    resolve_gid(&tree.places, gid, ObjClass::Place)
}


fn empty_date_draft() -> (r: DateDraft)
    ensures
        date_draft_is(r, Seq::<char>::empty(), Seq::<char>::empty(), Seq::<char>::empty(), Seq::<char>::empty(), Seq::<char>::empty(), Seq::<char>::empty()),
{
    DateDraft {
        year_s: String::new(),
        month_s: String::new(),
        day_s: String::new(),
        modifier_s: String::new(),
        quality_s: String::new(),
        text_s: String::new(),
    }
}

/// The six fields of a date draft hold these texts.
pub open spec fn date_draft_is(d: DateDraft, y: Seq<char>, m: Seq<char>, day: Seq<char>, md: Seq<char>, q: Seq<char>, t: Seq<char>) -> bool {
    &&& d.year_s@ == y
    &&& d.month_s@ == m
    &&& d.day_s@ == day
    &&& d.modifier_s@ == md
    &&& d.quality_s@ == q
    &&& d.text_s@ == t
}

/// The draft a "New" click opens in a panel: empty fields with each type's
/// usual default (gender unknown, a married family, a custom event with a
/// regular date, a city, confidence normal, a general note, a library).
/// Panels without a form get an empty tag draft.
pub open spec fn is_default_draft(v: View, d: EditDraft) -> bool {
    match v {
        View::Persons => d matches EditDraft::Person(p) && p.first_name@ == Seq::<char>::empty() && p.surname@ == Seq::<char>::empty() && p.gender_s@ == "2"@
            && p.birth_year_s@ == Seq::<char>::empty() && p.death_year_s@ == Seq::<char>::empty(),
        View::Families => d matches EditDraft::Family(f) && f.father_gid@ == Seq::<char>::empty() && f.mother_gid@ == Seq::<char>::empty() && f.type_value_s@ == "0"@,
        View::Events => d matches EditDraft::Event(e) && e.type_value_s@ == "1"@ && e.description@ == Seq::<char>::empty() && e.place_gid@ == Seq::<char>::empty()
            && date_draft_is(e.date, Seq::<char>::empty(), Seq::<char>::empty(), Seq::<char>::empty(), "0"@, "0"@, Seq::<char>::empty()),
        View::Places => d matches EditDraft::Place(p) && p.name@ == Seq::<char>::empty() && p.type_value_s@ == "4"@ && p.lat@ == Seq::<char>::empty() && p.long@ == Seq::<char>::empty()
            && p.parent_gid@ == Seq::<char>::empty(),
        View::Sources => d matches EditDraft::Source(s) && s.title@ == Seq::<char>::empty() && s.author@ == Seq::<char>::empty() && s.pubinfo@ == Seq::<char>::empty() && s.abbrev@ == Seq::<char>::empty(),
        View::Citations => d matches EditDraft::Citation(c) && c.source_gid@ == Seq::<char>::empty() && c.page@ == Seq::<char>::empty() && c.confidence_s@ == "2"@
            && date_draft_is(c.date, Seq::<char>::empty(), Seq::<char>::empty(), Seq::<char>::empty(), Seq::<char>::empty(), Seq::<char>::empty(), Seq::<char>::empty()),
        View::Media => d matches EditDraft::Media(m) && m.path@ == Seq::<char>::empty() && m.mime@ == Seq::<char>::empty() && m.desc@ == Seq::<char>::empty()
            && date_draft_is(m.date, Seq::<char>::empty(), Seq::<char>::empty(), Seq::<char>::empty(), Seq::<char>::empty(), Seq::<char>::empty(), Seq::<char>::empty()),
        View::Tags => d matches EditDraft::Tag(t) && t.name@ == "New tag"@ && t.color@ == "#888888"@ && t.priority_s@ == "0"@,
        View::Notes => d matches EditDraft::Note(n) && n.body@ == Seq::<char>::empty() && n.type_value_s@ == "1"@,
        View::Repositories => d matches EditDraft::Repository(r) && r.name@ == "New repository"@ && r.type_value_s@ == "1"@,
        _ => d matches EditDraft::Tag(t) && t.name@ == Seq::<char>::empty() && t.color@ == Seq::<char>::empty() && t.priority_s@ == Seq::<char>::empty(),
    }
}

/// The draft a "New" click opens in the panel `view`.
pub fn default_draft_for(view: View) -> (r: EditDraft)
    ensures
        is_default_draft(view, r),
{
    match view {
        View::Persons => EditDraft::Person(
            PersonDraft {
                first_name: String::new(),
                surname: String::new(),
                gender_s: String::from_str("2"),
                birth_year_s: String::new(),
                death_year_s: String::new(),
            },
        ),
        View::Families => EditDraft::Family(
            FamilyDraft { father_gid: String::new(), mother_gid: String::new(), type_value_s: String::from_str("0") },
        ),
        View::Events => {
            let mut date = empty_date_draft();
            date.modifier_s = String::from_str("0");
            date.quality_s = String::from_str("0");
            EditDraft::Event(
                EventDraft { type_value_s: String::from_str("1"), description: String::new(), place_gid: String::new(), date },
            )
        },
        View::Places => EditDraft::Place(
            PlaceDraft {
                name: String::new(),
                type_value_s: String::from_str("4"),
                lat: String::new(),
                long: String::new(),
                parent_gid: String::new(),
            },
        ),
        View::Sources => EditDraft::Source(
            SourceDraft { title: String::new(), author: String::new(), pubinfo: String::new(), abbrev: String::new() },
        ),
        View::Citations => EditDraft::Citation(
            CitationDraft { source_gid: String::new(), page: String::new(), confidence_s: String::from_str("2"), date: empty_date_draft() },
        ),
        View::Media => EditDraft::Media(
            MediaDraft { path: String::new(), mime: String::new(), desc: String::new(), date: empty_date_draft() },
        ),
        View::Tags => EditDraft::Tag(
            TagDraft { name: String::from_str("New tag"), color: String::from_str("#888888"), priority_s: String::from_str("0") },
        ),
        View::Notes => EditDraft::Note(NoteDraft { body: String::new(), type_value_s: String::from_str("1") }),
        View::Repositories => EditDraft::Repository(
            RepoDraft { name: String::from_str("New repository"), type_value_s: String::from_str("1") },
        ),
        _ => EditDraft::Tag(TagDraft { name: String::new(), color: String::new(), priority_s: String::new() }),
    }
}


/// The day, month and year a date shows: the first triple of its
/// `dateval`, or the precomputed year alone.
pub open spec fn date_parts(d: Date) -> (i32, i32, i32) {
    match d.dateval {
        Some(DateVal::Simple(day, m, y, _)) => (day, m, y),
        Some(DateVal::Range(day, m, y, _, _, _, _, _)) => (day, m, y),
        None => (0, 0, match d.year {
            Some(y) => y,
            None => 0,
        }),
    }
}

/// A number as a form shows it: its decimal text, or empty for 0.
pub open spec fn nonzero_text(v: i32) -> Seq<char> {
    if v != 0 {
        int_decimal(v as int)
    } else {
        Seq::empty()
    }
}

/// The day, month and year of a date.
pub fn date_parts_of(d: &Date) -> (r: (i32, i32, i32))
    ensures
        r == date_parts(*d),
{
    match &d.dateval {
        Some(DateVal::Simple(day, m, y, _)) => (*day, *m, *y),
        Some(DateVal::Range(day, m, y, _, _, _, _, _)) => (*day, *m, *y),
        None => (0, 0, match d.year {
            Some(y) => y,
            None => 0,
        }),
    }
}

fn nonzero_string(v: i32) -> (r: String)
    ensures
        r@ == nonzero_text(v),
{
    if v != 0 {
        format_int(v as i64)
    } else {
        String::new()
    }
}

/// The numbers a date draft holds: each field trimmed and parsed, 0 when
/// it does not parse.
pub open spec fn draft_numbers(d: DateDraft) -> (i32, i32, i32, i32, i32) {
    (
        parse_or(trimmed(d.year_s@), 0),
        parse_or(trimmed(d.month_s@), 0),
        parse_or(trimmed(d.day_s@), 0),
        parse_or(trimmed(d.modifier_s@), 0),
        parse_or(trimmed(d.quality_s@), 0),
    )
}

/// The date a draft gives: none when it holds no year, month, day or text;
/// else a Gregorian date with the draft's day, month, year, modifier,
/// quality and text.
pub open spec fn draft_date(d: DateDraft, x: Option<Date>) -> bool {
    let (y, m, day, md, q) = draft_numbers(d);
    if y == 0 && m == 0 && day == 0 && d.text_s@.len() == 0 {
        x is None
    } else {
        x matches Some(v) && {
            &&& v.class matches Some(c) && c@ == "Date"@
            &&& v.calendar == 0
            &&& v.modifier == md
            &&& v.quality == q
            &&& v.dateval == Some(DateVal::Simple(day, m, y, false))
            &&& v.text@ == d.text_s@
            &&& v.sortval == 0
            &&& v.newyear == 0
            &&& v.format is None
            &&& v.year == if y != 0 {
                Some(y)
            } else {
                None
            }
        }
    }
}

impl DateDraft {
    /// The draft that shows a date: day, month and year (empty when 0),
    /// modifier, quality and text.
    pub fn from_date(d: &Date) -> (r: DateDraft)
        ensures
            date_draft_is(
                r,
                nonzero_text(date_parts(*d).2),
                nonzero_text(date_parts(*d).1),
                nonzero_text(date_parts(*d).0),
                int_decimal(d.modifier as int),
                int_decimal(d.quality as int),
                d.text@,
            ),
    {
        let (day, m, y) = date_parts_of(d);
        DateDraft {
            year_s: nonzero_string(y),
            month_s: nonzero_string(m),
            day_s: nonzero_string(day),
            modifier_s: format_int(d.modifier as i64),
            quality_s: format_int(d.quality as i64),
            text_s: d.text.clone(),
        }
    }

    /// The date the draft gives; see [`draft_date`].
    pub fn to_date(&self) -> (r: Option<Date>)
        ensures
            draft_date(*self, r),
    {
        let y = match parse_trimmed_i32(self.year_s.as_str()) {
            Some(v) => v,
            None => 0,
        };
        let m = match parse_trimmed_i32(self.month_s.as_str()) {
            Some(v) => v,
            None => 0,
        };
        let day = match parse_trimmed_i32(self.day_s.as_str()) {
            Some(v) => v,
            None => 0,
        };
        let md = match parse_trimmed_i32(self.modifier_s.as_str()) {
            Some(v) => v,
            None => 0,
        };
        let q = match parse_trimmed_i32(self.quality_s.as_str()) {
            Some(v) => v,
            None => 0,
        };
        if y == 0 && m == 0 && day == 0 && self.text_s.as_str().is_empty() {
            return None;
        }
        Some(
            Date {
                class: Some(String::from_str("Date")),
                calendar: 0,
                modifier: md,
                quality: q,
                dateval: Some(DateVal::Simple(day, m, y, false)),
                text: self.text_s.clone(),
                sortval: 0,
                newyear: 0,
                format: None,
                year: if y != 0 {
                    Some(y)
                } else {
                    None
                },
            },
        )
    }
}

/// A write that a saved draft asks for, with every field parsed and every
/// gramps id resolved to a handle.
#[derive(Debug, Clone)]
pub enum WriteRequest {
    Tag { name: String, color: String, priority: i32 },
    Note { type_value: i32, body: String },
    Repository { name: String, type_value: i32 },
    Person { first_name: String, surname: String, gender: i32, birth_year: Option<i32>, death_year: Option<i32> },
    Family { father: Option<String>, mother: Option<String>, type_value: i32 },
    Event { type_value: i32, description: String, place: Option<String>, date: Option<Date> },
    Place { name: String, type_value: i32, lat: String, long: String, parent: Option<String> },
    Source { title: String, author: String, pubinfo: String, abbrev: String },
    Citation { source_handle: String, page: String, confidence: i32, date: Option<Date> },
    Media { path: String, mime: String, desc: String, date: Option<Date> },
}

/// A year typed into a person form: the trimmed number, with 0 or text
/// that does not parse meaning none.
pub open spec fn form_year(s: Seq<char>) -> Option<i32> {
    match parse_i32_spec(trimmed(s)) {
        Some(y) => if y != 0 {
            Some(y)
        } else {
            None
        },
        None => None,
    }
}

fn parse_form_year(s: &str) -> (r: Option<i32>)
    ensures
        r == form_year(s@),
{
    match parse_trimmed_i32(s) {
        Some(y) => if y != 0 {
            Some(y)
        } else {
            None
        },
        None => None,
    }
}

fn parse_or_default(s: &str, default: i32) -> (r: i32)
    ensures
        r == parse_or(s@, default),
{
    match parse_i32(s) {
        Some(v) => v,
        None => default,
    }
}

/// The gramps id resolution `res` refused the id (`None`), and `r` is the
/// matching error.
pub open spec fn gid_refused<T>(res: Option<Option<Seq<char>>>, r: Result<T, RepoError>, class: ObjClass, gid: Seq<char>) -> bool {
    res is None && (r matches Err(RepoError::UnknownGrampsId { class: c, gramps_id: g }) && c == class && g@ == trimmed(gid))
}

/// The resolved handle, when the resolution gave one.
pub open spec fn resolved(res: Option<Option<Seq<char>>>) -> Option<Seq<char>> {
    match res {
        Some(o) => o,
        None => None,
    }
}

/// What saving a draft asks for: each number parsed (the type's default
/// when it does not parse), person years trimmed with 0 meaning none, and
/// each gramps id resolved (the father before the mother); an unknown
/// gramps id refuses the save.
pub open spec fn request_for(tree: Snapshot, draft: EditDraft, r: Result<WriteRequest, RepoError>) -> bool {
    match draft {
        EditDraft::Tag(d) => r matches Ok(WriteRequest::Tag { name, color, priority }) && name@ == d.name@ && color@ == d.color@
            && priority == parse_or(d.priority_s@, 0),
        EditDraft::Note(d) => r matches Ok(WriteRequest::Note { type_value, body }) && type_value == parse_or(d.type_value_s@, 1)
            && body@ == d.body@,
        EditDraft::Repository(d) => r matches Ok(WriteRequest::Repository { name, type_value }) && name@ == d.name@
            && type_value == parse_or(d.type_value_s@, 0),
        EditDraft::Person(d) => r matches Ok(WriteRequest::Person { first_name, surname, gender, birth_year, death_year })
            && first_name@ == d.first_name@ && surname@ == d.surname@ && gender == parse_or(d.gender_s@, 2) && birth_year == form_year(
            d.birth_year_s@,
        ) && death_year == form_year(d.death_year_s@),
        EditDraft::Family(d) => {
            let fr = gid_resolution(tree.persons@, d.father_gid@);
            let mr = gid_resolution(tree.persons@, d.mother_gid@);
            if fr is None {
                gid_refused(fr, r, ObjClass::Person, d.father_gid@)
            } else if mr is None {
                gid_refused(mr, r, ObjClass::Person, d.mother_gid@)
            } else {
                r matches Ok(WriteRequest::Family { father, mother, type_value }) && opt_view(father) == resolved(fr) && opt_view(mother)
                    == resolved(mr) && type_value == parse_or(d.type_value_s@, 0)
            }
        },
        EditDraft::Event(d) => {
            let pr = gid_resolution(tree.places@, d.place_gid@);
            if pr is None {
                gid_refused(pr, r, ObjClass::Place, d.place_gid@)
            } else {
                r matches Ok(WriteRequest::Event { type_value, description, place, date }) && type_value == parse_or(d.type_value_s@, 0)
                    && description@ == d.description@ && opt_view(place) == resolved(pr) && draft_date(d.date, date)
            }
        },
        EditDraft::Place(d) => {
            let pr = gid_resolution(tree.places@, d.parent_gid@);
            if pr is None {
                gid_refused(pr, r, ObjClass::Place, d.parent_gid@)
            } else {
                r matches Ok(WriteRequest::Place { name, type_value, lat, long, parent }) && name@ == d.name@ && type_value == parse_or(
                    d.type_value_s@,
                    0,
                ) && lat@ == d.lat@ && long@ == d.long@ && opt_view(parent) == resolved(pr)
            }
        },
        EditDraft::Source(d) => r matches Ok(WriteRequest::Source { title, author, pubinfo, abbrev }) && title@ == d.title@
            && author@ == d.author@ && pubinfo@ == d.pubinfo@ && abbrev@ == d.abbrev@,
        EditDraft::Citation(d) => {
            let sr = gid_resolution(tree.sources@, d.source_gid@);
            if sr is None {
                gid_refused(sr, r, ObjClass::Source, d.source_gid@)
            } else {
                r matches Ok(WriteRequest::Citation { source_handle, page, confidence, date }) && source_handle@ == match resolved(sr) {
                    Some(h) => h,
                    None => Seq::empty(),
                } && page@ == d.page@ && confidence == parse_or(d.confidence_s@, 2) && draft_date(d.date, date)
            }
        },
        EditDraft::Media(d) => r matches Ok(WriteRequest::Media { path, mime, desc, date }) && path@ == d.path@ && mime@ == d.mime@
            && desc@ == d.desc@ && draft_date(d.date, date),
    }
}

/// What saving `draft` writes; see [`request_for`].
pub fn write_request(tree: &Snapshot, draft: &EditDraft) -> (r: Result<WriteRequest, RepoError>)
    ensures
        request_for(*tree, *draft, r),
{
    match draft {
        EditDraft::Tag(d) => Ok(
            WriteRequest::Tag { name: d.name.clone(), color: d.color.clone(), priority: parse_or_default(d.priority_s.as_str(), 0) },
        ),
        EditDraft::Note(d) => Ok(WriteRequest::Note { type_value: parse_or_default(d.type_value_s.as_str(), 1), body: d.body.clone() }),
        EditDraft::Repository(d) => Ok(
            WriteRequest::Repository { name: d.name.clone(), type_value: parse_or_default(d.type_value_s.as_str(), 0) },
        ),
        EditDraft::Person(d) => Ok(
            WriteRequest::Person {
                first_name: d.first_name.clone(),
                surname: d.surname.clone(),
                gender: parse_or_default(d.gender_s.as_str(), 2),
                birth_year: parse_form_year(d.birth_year_s.as_str()),
                death_year: parse_form_year(d.death_year_s.as_str()),
            },
        ),
        EditDraft::Family(d) => {
            let type_value = parse_or_default(d.type_value_s.as_str(), 0);
            let father = match resolve_person_by_gid(tree, d.father_gid.as_str()) {
                Ok(h) => h,
                Err(e) => return Err(e),
            };
            let mother = match resolve_person_by_gid(tree, d.mother_gid.as_str()) {
                Ok(h) => h,
                Err(e) => return Err(e),
            };
            Ok(WriteRequest::Family { father, mother, type_value })
        },
        EditDraft::Event(d) => {
            let type_value = parse_or_default(d.type_value_s.as_str(), 0);
            let place = match resolve_place_by_gid(tree, d.place_gid.as_str()) {
                Ok(h) => h,
                Err(e) => return Err(e),
            };
            let date = d.date.to_date();
            Ok(WriteRequest::Event { type_value, description: d.description.clone(), place, date })
        },
        EditDraft::Place(d) => {
            let type_value = parse_or_default(d.type_value_s.as_str(), 0);
            let parent = match resolve_place_by_gid(tree, d.parent_gid.as_str()) {
                Ok(h) => h,
                Err(e) => return Err(e),
            };
            Ok(WriteRequest::Place { name: d.name.clone(), type_value, lat: d.lat.clone(), long: d.long.clone(), parent })
        },
        EditDraft::Source(d) => Ok(
            WriteRequest::Source {
                title: d.title.clone(),
                author: d.author.clone(),
                pubinfo: d.pubinfo.clone(),
                abbrev: d.abbrev.clone(),
            },
        ),
        EditDraft::Citation(d) => {
            let confidence = parse_or_default(d.confidence_s.as_str(), 2);
            let source_handle = match resolve_source_by_gid(tree, d.source_gid.as_str()) {
                Ok(Some(h)) => h,
                Ok(None) => String::new(),
                Err(e) => return Err(e),
            };
            let date = d.date.to_date();
            Ok(WriteRequest::Citation { source_handle, page: d.page.clone(), confidence, date })
        },
        EditDraft::Media(d) => Ok(
            WriteRequest::Media { path: d.path.clone(), mime: d.mime.clone(), desc: d.desc.clone(), date: d.date.to_date() },
        ),
    }
}


/// The year a person's birth or death index links to, as the person form
/// shows it: the primary year of the linked event's date, none when the
/// index is out of range, the event or its date is missing, or the year
/// is 0.
pub open spec fn linked_year(tree: Snapshot, p: Person, idx: i32) -> Option<i32> {
    if 0 <= idx < p.event_ref_list@.len() {
        match lookup(tree.events@, p.event_ref_list@[idx as int].ref_@) {
            Some(e) => match e.date {
                Some(d) => if date_primary_year(d) != 0 {
                    Some(date_primary_year(d))
                } else {
                    None
                },
                None => None,
            },
            None => None,
        }
    } else {
        None
    }
}

/// A year as the person form shows it.
pub open spec fn year_text(y: Option<i32>) -> Seq<char> {
    match y {
        Some(v) => int_decimal(v as int),
        None => Seq::empty(),
    }
}

/// The gramps id of the row with handle `h` in `rows`, or empty.
pub open spec fn gid_of<T: crate::db::keyed::Keyed + crate::db::keyed::HasGrampsId>(rows: Seq<T>, h: Seq<char>) -> Seq<char> {
    match lookup(rows, h) {
        Some(x) => x.gid(),
        None => Seq::empty(),
    }
}

/// The date editor showing an optional date.
pub open spec fn date_draft_of(od: Option<Date>, dd: DateDraft) -> bool {
    match od {
        Some(d) => date_draft_is(
            dd,
            nonzero_text(date_parts(d).2),
            nonzero_text(date_parts(d).1),
            nonzero_text(date_parts(d).0),
            int_decimal(d.modifier as int),
            int_decimal(d.quality as int),
            d.text@,
        ),
        None => date_draft_is(dd, Seq::empty(), Seq::empty(), Seq::empty(), Seq::empty(), Seq::empty(), Seq::empty()),
    }
}

/// The edit session that opens on row `i` of the panel `view`: the row's
/// handle and a draft prefilled from the row (linked rows shown by gramps
/// id). `None` when the panel has no form or `i` is past the end.
pub open spec fn session_for_row(tree: Snapshot, view: View, i: int, r: Option<EditSession>) -> bool {
    match view {
        View::Persons => if 0 <= i < tree.persons@.len() {
            let p = tree.persons@[i];
            r matches Some(s) && s.handle == Some(p.handle) && (s.draft matches EditDraft::Person(d) && {
                &&& d.first_name@ == p.primary_name.first_name@
                &&& d.surname@ == display_surname(p.primary_name.surname_list@)
                &&& d.gender_s@ == int_decimal(p.gender as int)
                &&& d.birth_year_s@ == year_text(linked_year(tree, p, p.birth_ref_index))
                &&& d.death_year_s@ == year_text(linked_year(tree, p, p.death_ref_index))
            })
        } else {
            r is None
        },
        View::Tags => if 0 <= i < tree.tags@.len() {
            let t = tree.tags@[i];
            r matches Some(s) && s.handle == Some(t.handle) && (s.draft matches EditDraft::Tag(d) && d.name@ == t.name@ && d.color@ == t.color@
                && d.priority_s@ == int_decimal(t.priority as int))
        } else {
            r is None
        },
        View::Families => if 0 <= i < tree.families@.len() {
            let f = tree.families@[i];
            r matches Some(s) && s.handle == Some(f.handle) && (s.draft matches EditDraft::Family(d) && d.father_gid@ == match f.father_handle {
                Some(h) => gid_of(tree.persons@, h@),
                None => Seq::empty(),
            } && d.mother_gid@ == match f.mother_handle {
                Some(h) => gid_of(tree.persons@, h@),
                None => Seq::empty(),
            } && d.type_value_s@ == int_decimal(f.type_.value as int))
        } else {
            r is None
        },
        View::Events => if 0 <= i < tree.events@.len() {
            let e = tree.events@[i];
            r matches Some(s) && s.handle == Some(e.handle) && (s.draft matches EditDraft::Event(d) && d.type_value_s@ == int_decimal(
                e.type_.value as int,
            ) && d.description@ == e.description@ && d.place_gid@ == gid_of(tree.places@, e.place@) && date_draft_of(e.date, d.date))
        } else {
            r is None
        },
        View::Sources => if 0 <= i < tree.sources@.len() {
            let x = tree.sources@[i];
            r matches Some(s) && s.handle == Some(x.handle) && (s.draft matches EditDraft::Source(d) && d.title@ == x.title@ && d.author@
                == x.author@ && d.pubinfo@ == x.pubinfo@ && d.abbrev@ == x.abbrev@)
        } else {
            r is None
        },
        View::Citations => if 0 <= i < tree.citations@.len() {
            let c = tree.citations@[i];
            r matches Some(s) && s.handle == Some(c.handle) && (s.draft matches EditDraft::Citation(d) && d.source_gid@ == gid_of(
                tree.sources@,
                c.source_handle@,
            ) && d.page@ == c.page@ && d.confidence_s@ == int_decimal(c.confidence as int) && date_draft_of(c.date, d.date))
        } else {
            r is None
        },
        View::Media => if 0 <= i < tree.media@.len() {
            let m = tree.media@[i];
            r matches Some(s) && s.handle == Some(m.handle) && (s.draft matches EditDraft::Media(d) && d.path@ == m.path@ && d.mime@
                == m.mime@ && d.desc@ == m.desc@ && date_draft_of(m.date, d.date))
        } else {
            r is None
        },
        View::Places => if 0 <= i < tree.places@.len() {
            let p = tree.places@[i];
            r matches Some(s) && s.handle == Some(p.handle) && (s.draft matches EditDraft::Place(d) && d.name@ == (if p.name.value@.len()
                == 0 {
                p.title@
            } else {
                p.name.value@
            }) && d.type_value_s@ == int_decimal(p.place_type.value as int) && d.lat@ == p.lat@ && d.long@ == p.long@ && d.parent_gid@
                == if p.placeref_list@.len() > 0 {
                gid_of(tree.places@, p.placeref_list@[0].ref_@)
            } else {
                Seq::empty()
            })
        } else {
            r is None
        },
        View::Notes => if 0 <= i < tree.notes@.len() {
            let n = tree.notes@[i];
            r matches Some(s) && s.handle == Some(n.handle) && (s.draft matches EditDraft::Note(d) && d.body@ == n.text.string@
                && d.type_value_s@ == int_decimal(n.type_.value as int))
        } else {
            r is None
        },
        View::Repositories => if 0 <= i < tree.repositories@.len() {
            let x = tree.repositories@[i];
            r matches Some(s) && s.handle == Some(x.handle) && (s.draft matches EditDraft::Repository(d) && d.name@ == x.name@
                && d.type_value_s@ == int_decimal(x.type_.value as int))
        } else {
            r is None
        },
        _ => r is None,
    }
}

fn year_string(tree: &Snapshot, p: &Person, idx: i32) -> (r: String)
    ensures
        r@ == year_text(linked_year(*tree, *p, idx)),
{
    if idx >= 0 && (idx as usize) < p.event_ref_list.len() {
        match tree.event(p.event_ref_list[idx as usize].ref_.as_str()) {
            Some(e) => match &e.date {
                Some(d) => {
                    let y = d.primary_year();
                    if y != 0 {
                        format_int(y as i64)
                    } else {
                        String::new()
                    }
                },
                None => String::new(),
            },
            None => String::new(),
        }
    } else {
        String::new()
    }
}

fn person_gid(tree: &Snapshot, h: &Option<String>) -> (r: String)
    ensures
        r@ == match *h {
            Some(x) => gid_of(tree.persons@, x@),
            None => Seq::empty(),
        },
{
    match h {
        Some(x) => match tree.person(x.as_str()) {
            Some(p) => p.gramps_id.clone(),
            None => String::new(),
        },
        None => String::new(),
    }
}

fn place_gid(tree: &Snapshot, h: &str) -> (r: String)
    ensures
        r@ == gid_of(tree.places@, h@),
{
    match tree.place(h) {
        Some(p) => p.gramps_id.clone(),
        None => String::new(),
    }
}

fn draft_of_date(od: &Option<Date>) -> (r: DateDraft)
    ensures
        date_draft_of(*od, r),
{
    match od {
        Some(d) => DateDraft::from_date(d),
        None => empty_date_draft(),
    }
}

/// The edit session that opens on row `idx` of the panel `view`; see
/// [`session_for_row`].
pub fn draft_from_row(tree: &Snapshot, view: View, idx: usize) -> (r: Option<EditSession>)
    ensures
        session_for_row(*tree, view, idx as int, r),
{
    match view {
        View::Persons => {
            if idx >= tree.persons.len() {
                return None;
            }
            let p = &tree.persons[idx];
            Some(
                EditSession {
                    handle: Some(p.handle.clone()),
                    draft: EditDraft::Person(
                        PersonDraft {
                            first_name: p.primary_name.first_name.clone(),
                            surname: primary_surname(&p.primary_name.surname_list),
                            gender_s: format_int(p.gender as i64),
                            birth_year_s: year_string(tree, p, p.birth_ref_index),
                            death_year_s: year_string(tree, p, p.death_ref_index),
                        },
                    ),
                },
            )
        },
        View::Tags => {
            if idx >= tree.tags.len() {
                return None;
            }
            let t = &tree.tags[idx];
            Some(
                EditSession {
                    handle: Some(t.handle.clone()),
                    draft: EditDraft::Tag(
                        TagDraft { name: t.name.clone(), color: t.color.clone(), priority_s: format_int(t.priority as i64) },
                    ),
                },
            )
        },
        View::Families => {
            if idx >= tree.families.len() {
                return None;
            }
            let f = &tree.families[idx];
            Some(
                EditSession {
                    handle: Some(f.handle.clone()),
                    draft: EditDraft::Family(
                        FamilyDraft {
                            father_gid: person_gid(tree, &f.father_handle),
                            mother_gid: person_gid(tree, &f.mother_handle),
                            type_value_s: format_int(f.type_.value as i64),
                        },
                    ),
                },
            )
        },
        View::Events => {
            if idx >= tree.events.len() {
                return None;
            }
            let e = &tree.events[idx];
            Some(
                EditSession {
                    handle: Some(e.handle.clone()),
                    draft: EditDraft::Event(
                        EventDraft {
                            type_value_s: format_int(e.type_.value as i64),
                            description: e.description.clone(),
                            place_gid: place_gid(tree, e.place.as_str()),
                            date: draft_of_date(&e.date),
                        },
                    ),
                },
            )
        },
        View::Sources => {
            if idx >= tree.sources.len() {
                return None;
            }
            let x = &tree.sources[idx];
            Some(
                EditSession {
                    handle: Some(x.handle.clone()),
                    draft: EditDraft::Source(
                        SourceDraft {
                            title: x.title.clone(),
                            author: x.author.clone(),
                            pubinfo: x.pubinfo.clone(),
                            abbrev: x.abbrev.clone(),
                        },
                    ),
                },
            )
        },
        View::Citations => {
            if idx >= tree.citations.len() {
                return None;
            }
            let c = &tree.citations[idx];
            let source_gid = match tree.source(c.source_handle.as_str()) {
                Some(x) => x.gramps_id.clone(),
                None => String::new(),
            };
            Some(
                EditSession {
                    handle: Some(c.handle.clone()),
                    draft: EditDraft::Citation(
                        CitationDraft {
                            source_gid,
                            page: c.page.clone(),
                            confidence_s: format_int(c.confidence as i64),
                            date: draft_of_date(&c.date),
                        },
                    ),
                },
            )
        },
        View::Media => {
            if idx >= tree.media.len() {
                return None;
            }
            let m = &tree.media[idx];
            Some(
                EditSession {
                    handle: Some(m.handle.clone()),
                    draft: EditDraft::Media(
                        MediaDraft { path: m.path.clone(), mime: m.mime.clone(), desc: m.desc.clone(), date: draft_of_date(&m.date) },
                    ),
                },
            )
        },
        View::Places => {
            if idx >= tree.places.len() {
                return None;
            }
            let p = &tree.places[idx];
            let parent_gid = if p.placeref_list.len() > 0 {
                place_gid(tree, p.placeref_list[0].ref_.as_str())
            } else {
                String::new()
            };
            Some(
                EditSession {
                    handle: Some(p.handle.clone()),
                    draft: EditDraft::Place(
                        PlaceDraft {
                            name: if p.name.value.as_str().is_empty() {
                                p.title.clone()
                            } else {
                                p.name.value.clone()
                            },
                            type_value_s: format_int(p.place_type.value as i64),
                            lat: p.lat.clone(),
                            long: p.long.clone(),
                            parent_gid,
                        },
                    ),
                },
            )
        },
        View::Notes => {
            if idx >= tree.notes.len() {
                return None;
            }
            let n = &tree.notes[idx];
            Some(
                EditSession {
                    handle: Some(n.handle.clone()),
                    draft: EditDraft::Note(NoteDraft { body: n.text.string.clone(), type_value_s: format_int(n.type_.value as i64) }),
                },
            )
        },
        View::Repositories => {
            if idx >= tree.repositories.len() {
                return None;
            }
            let x = &tree.repositories[idx];
            Some(
                EditSession {
                    handle: Some(x.handle.clone()),
                    draft: EditDraft::Repository(RepoDraft { name: x.name.clone(), type_value_s: format_int(x.type_.value as i64) }),
                },
            )
        },
        _ => None,
    }
}


/// Fresh handles for the rows a save may create: the object itself, and
/// a new person's birth and death events.
#[derive(Debug, Clone)]
pub struct NewHandles {
    pub object: String,
    pub birth_event: String,
    pub death_event: String,
}

/// A create's result as a save reports it.
pub open spec fn saved<T>(res: Result<T, RepoError>, r: Result<(), RepoError>) -> bool {
    match res {
        Ok(_) => r is Ok,
        Err(e) => r == Err::<(), RepoError>(e),
    }
}

/// What saving a request does: the update of the row `handle` when there
/// is one, else the create of a new row under the fresh handles; `r` is
/// that operation's outcome.
pub open spec fn request_applied(a: Snapshot, b: Snapshot, handle: Option<Seq<char>>, req: WriteRequest, fresh: NewHandles, r: Result<(), RepoError>) -> bool {
    let nh = fresh.object@;
    match req {
        WriteRequest::Tag { name, color, priority } => match handle {
            Some(h) => tag::tag_update_done(a, b, h, name@, color@, priority, r),
            None => exists|res: Result<usize, RepoError>| tag::tag_create_done(a, b, nh, name@, color@, priority, res) && saved(res, r),
        },
        WriteRequest::Note { type_value, body } => match handle {
            Some(h) => note::note_update_done(a, b, h, type_value, body@, r),
            None => exists|res: Result<usize, RepoError>| note::note_create_done(a, b, nh, type_value, body@, res) && saved(res, r),
        },
        WriteRequest::Repository { name, type_value } => match handle {
            Some(h) => repository::repository_update_done(a, b, h, name@, type_value, r),
            None => exists|res: Result<usize, RepoError>| repository::repository_create_done(a, b, nh, name@, type_value, res) && saved(res, r),
        },
        WriteRequest::Person { first_name, surname, gender, birth_year, death_year } => match handle {
            Some(h) => person::person_update_done(a, b, h, first_name@, surname@, gender, birth_year, death_year, fresh.birth_event@, fresh.death_event@, r),
            None => exists|res: Result<usize, RepoError>| person::person_create_done(a, b, nh, first_name@, surname@, gender, birth_year, death_year, fresh.birth_event@, fresh.death_event@, res) && saved(res, r),
        },
        WriteRequest::Family { father, mother, type_value } => match handle {
            Some(h) => family::family_update_done(a, b, h, father, mother, type_value, r),
            None => exists|res: Result<usize, RepoError>| family::family_create_done(a, b, nh, father, mother, type_value, res) && saved(res, r),
        },
        WriteRequest::Event { type_value, description, place, date } => match handle {
            Some(h) => event::event_update_done(a, b, h, type_value, description@, place, date, r),
            None => exists|res: Result<usize, RepoError>| event::event_create_done(a, b, nh, type_value, description@, place, date, res) && saved(res, r),
        },
        WriteRequest::Place { name, type_value, lat, long, parent } => match handle {
            Some(h) => place::place_update_done(a, b, h, name@, type_value, lat@, long@, parent, r),
            None => exists|res: Result<usize, RepoError>| place::place_create_done(a, b, nh, name@, type_value, lat@, long@, parent, res) && saved(res, r),
        },
        WriteRequest::Source { title, author, pubinfo, abbrev } => match handle {
            Some(h) => source::source_update_done(a, b, h, title@, author@, pubinfo@, abbrev@, r),
            None => exists|res: Result<usize, RepoError>| source::source_create_done(a, b, nh, title@, author@, pubinfo@, abbrev@, res) && saved(res, r),
        },
        WriteRequest::Citation { source_handle, page, confidence, date } => match handle {
            Some(h) => citation::citation_update_done(a, b, h, source_handle@, page@, confidence, date, r),
            None => exists|res: Result<usize, RepoError>| citation::citation_create_done(a, b, nh, source_handle@, page@, confidence, date, res) && saved(res, r),
        },
        WriteRequest::Media { path, mime, desc, date } => match handle {
            Some(h) => media::media_update_done(a, b, h, path@, mime@, desc@, date, r),
            None => exists|res: Result<usize, RepoError>| media::media_create_done(a, b, nh, path@, mime@, desc@, date, res) && saved(res, r),
        },
    }
}

fn unit<T>(res: Result<T, RepoError>) -> (r: Result<(), RepoError>)
    ensures
        saved(res, r),
{
    match res {
        Ok(_) => Ok(()),
        Err(e) => Err(e),
    }
}

/// Perform the write a saved draft asks for: the update of the row
/// `handle` when there is one, else a create under the fresh handles.
pub fn apply_request(tree: &mut Snapshot, handle: &Option<String>, req: WriteRequest, fresh: NewHandles) -> (r: Result<(), RepoError>)
    requires
        old(tree).wf(),
    ensures
        request_applied(*old(tree), *final(tree), opt_view(*handle), req, fresh, r),
{
    let ghost fr = fresh;
    match req {
        WriteRequest::Tag { name, color, priority } => match handle {
            Some(h) => tag::update(tree, h.as_str(), name.as_str(), color.as_str(), priority),
            None => unit(tag::create(tree, fresh.object, name.as_str(), color.as_str(), priority)),
        },
        WriteRequest::Note { type_value, body } => match handle {
            Some(h) => note::update(tree, h.as_str(), type_value, body.as_str()),
            None => unit(note::create(tree, fresh.object, type_value, body.as_str())),
        },
        WriteRequest::Repository { name, type_value } => match handle {
            Some(h) => repository::update(tree, h.as_str(), name.as_str(), type_value),
            None => unit(repository::create(tree, fresh.object, name.as_str(), type_value)),
        },
        WriteRequest::Person { first_name, surname, gender, birth_year, death_year } => match handle {
            Some(h) => person::update(
                tree,
                h.as_str(),
                first_name.as_str(),
                surname.as_str(),
                gender,
                birth_year,
                death_year,
                fresh.birth_event,
                fresh.death_event,
            ),
            None => unit(
                person::create(
                    tree,
                    fresh.object,
                    first_name.as_str(),
                    surname.as_str(),
                    gender,
                    birth_year,
                    death_year,
                    fresh.birth_event,
                    fresh.death_event,
                ),
            ),
        },
        WriteRequest::Family { father, mother, type_value } => match handle {
            Some(h) => family::update(tree, h.as_str(), father, mother, type_value),
            None => unit(family::create(tree, fresh.object, father, mother, type_value)),
        },
        WriteRequest::Event { type_value, description, place, date } => match handle {
            Some(h) => event::update_full(tree, h.as_str(), type_value, description.as_str(), place, date),
            None => unit(event::create_full(tree, fresh.object, type_value, description.as_str(), place, date)),
        },
        WriteRequest::Place { name, type_value, lat, long, parent } => match handle {
            Some(h) => place::update(tree, h.as_str(), name.as_str(), type_value, lat.as_str(), long.as_str(), parent),
            None => unit(place::create(tree, fresh.object, name.as_str(), type_value, lat.as_str(), long.as_str(), parent)),
        },
        WriteRequest::Source { title, author, pubinfo, abbrev } => match handle {
            Some(h) => source::update(tree, h.as_str(), title.as_str(), author.as_str(), pubinfo.as_str(), abbrev.as_str()),
            None => unit(source::create(tree, fresh.object, title.as_str(), author.as_str(), pubinfo.as_str(), abbrev.as_str())),
        },
        WriteRequest::Citation { source_handle, page, confidence, date } => match handle {
            Some(h) => citation::update(tree, h.as_str(), source_handle.as_str(), page.as_str(), confidence, date),
            None => unit(citation::create(tree, fresh.object, source_handle.as_str(), page.as_str(), confidence, date)),
        },
        WriteRequest::Media { path, mime, desc, date } => match handle {
            Some(h) => media::update(tree, h.as_str(), path.as_str(), mime.as_str(), desc.as_str(), date),
            None => unit(media::create(tree, fresh.object, path.as_str(), mime.as_str(), desc.as_str(), date)),
        },
    }
}

/// What the delete of the selected row of a panel does: the delete of its
/// type (a cascade for persons, families and places, refused while the
/// row is in use for the others); `None`, with nothing changed, for a
/// panel whose rows cannot be deleted.
pub open spec fn view_delete(a: Snapshot, b: Snapshot, view: View, h: Seq<char>, owned: bool, r: Option<Result<(), RepoError>>) -> bool {
    match view {
        View::Persons => r matches Some(res) && person::person_delete_done(a, b, h, owned, res),
        View::Families => r matches Some(res) && family::family_delete_done(a, b, h, res),
        View::Events => r matches Some(res) && event::event_delete_done(a, b, h, res),
        View::Places => r matches Some(res) && place::place_delete_done(a, b, h, res),
        View::Sources => r matches Some(res) && source::source_delete_done(a, b, h, res),
        View::Citations => r matches Some(res) && citation::citation_delete_done(a, b, h, res),
        View::Media => r matches Some(res) && media::media_delete_done(a, b, h, res),
        View::Tags => r matches Some(res) && tag::tag_delete_done(a, b, h, res),
        View::Notes => r matches Some(res) && note::note_delete_done(a, b, h, res),
        View::Repositories => r matches Some(res) && repository::repository_delete_done(a, b, h, res),
        _ => r is None && b == a,
    }
}

/// Delete the row `handle` of the panel `view`; `delete_owned_events`
/// matters only for a person.
pub fn delete_for_view(tree: &mut Snapshot, view: View, handle: &str, delete_owned_events: bool) -> (r: Option<Result<(), RepoError>>)
    requires
        old(tree).wf(),
    ensures
        view_delete(*old(tree), *final(tree), view, handle@, delete_owned_events, r),
{
    match view {
        View::Persons => Some(person::delete_with_cascade(tree, handle, delete_owned_events)),
        View::Families => Some(family::delete_with_cascade(tree, handle)),
        View::Events => Some(event::delete(tree, handle)),
        View::Places => Some(place::delete_with_cascade(tree, handle)),
        View::Sources => Some(source::delete(tree, handle)),
        View::Citations => Some(citation::delete(tree, handle)),
        View::Media => Some(media::delete(tree, handle)),
        View::Tags => Some(tag::delete(tree, handle)),
        View::Notes => Some(note::delete(tree, handle)),
        View::Repositories => Some(repository::delete(tree, handle)),
        _ => None,
    }
}


/// What the "add person" form asks for, parsed: the gender (unknown when it
/// does not parse), the birth and death years, and the source text when
/// one was given.
#[derive(Debug, Clone)]
pub struct AddRequest {
    pub gender: i32,
    pub birth_year: Option<i32>,
    pub death_year: Option<i32>,
    /// The trimmed source URL or description, when not blank.
    pub source: Option<String>,
}

/// Parse the "add person" form.
pub fn add_request(add: &PendingAdd) -> (r: AddRequest)
    ensures
        r.gender == parse_or(add.gender_s@, 2),
        r.birth_year == form_year(add.birth_year_s@),
        r.death_year == form_year(add.death_year_s@),
        match r.source {
            Some(src) => trimmed(add.source_url@).len() > 0 && src@ == trimmed(add.source_url@),
            None => trimmed(add.source_url@).len() == 0,
        },
{
    let src = trim(add.source_url.as_str());
    AddRequest {
        gender: parse_or_default(add.gender_s.as_str(), 2),
        birth_year: parse_form_year(add.birth_year_s.as_str()),
        death_year: parse_form_year(add.death_year_s.as_str()),
        source: if src.as_str().is_empty() {
            None
        } else {
            Some(src)
        },
    }
}

} // verus!
