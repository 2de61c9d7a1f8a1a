//! The tree held in memory.

use vstd::prelude::*;

use super::keyed::{find, find_key, keys_unique, lemma_find_key, unique_keys};
use super::refs::{ObjClass, Reference};
use crate::gramps::citation::Citation;
use crate::gramps::event::Event;
use crate::gramps::family::Family;
use crate::gramps::media::Media;
use crate::gramps::note::Note;
use crate::gramps::person::Person;
use crate::gramps::place::Place;
use crate::gramps::repository::Repository;
use crate::gramps::source::Source;
use crate::gramps::tag::Tag;

verus! {

/// Every primary object of one tree, in load order, and the `reference`
/// table.
pub struct Snapshot {
    /// Location of the tree file.
    pub path: String,

    pub persons: Vec<Person>,
    pub families: Vec<Family>,
    pub events: Vec<Event>,
    pub places: Vec<Place>,
    pub sources: Vec<Source>,
    pub citations: Vec<Citation>,
    pub media: Vec<Media>,
    pub notes: Vec<Note>,
    pub repositories: Vec<Repository>,
    pub tags: Vec<Tag>,
    /// One row per outbound cross-reference of every object.
    pub references: Vec<Reference>,
}

/// `b` differs from `a` at most in the tables `changed` and the
/// `reference` table.
pub open spec fn only_changed(a: Snapshot, b: Snapshot, changed: Set<ObjClass>) -> bool {
    &&& a.path == b.path
    &&& !changed.contains(ObjClass::Person) ==> a.persons@ == b.persons@
    &&& !changed.contains(ObjClass::Family) ==> a.families@ == b.families@
    &&& !changed.contains(ObjClass::Event) ==> a.events@ == b.events@
    &&& !changed.contains(ObjClass::Place) ==> a.places@ == b.places@
    &&& !changed.contains(ObjClass::Source) ==> a.sources@ == b.sources@
    &&& !changed.contains(ObjClass::Citation) ==> a.citations@ == b.citations@
    &&& !changed.contains(ObjClass::Media) ==> a.media@ == b.media@
    &&& !changed.contains(ObjClass::Note) ==> a.notes@ == b.notes@
    &&& !changed.contains(ObjClass::Repository) ==> a.repositories@ == b.repositories@
    &&& !changed.contains(ObjClass::Tag) ==> a.tags@ == b.tags@
}

/// The row `i` of `s`, when there is one.
pub open spec fn row_at<T>(s: Seq<T>, i: Option<int>) -> Option<T> {
    match i {
        Some(k) => Some(s[k]),
        None => None,
    }
}

/// What a lookup by handle returns: the first row with that handle.
pub open spec fn lookup<T: super::keyed::Keyed>(s: Seq<T>, h: Seq<char>) -> Option<T> {
    row_at(s, find_key(s, h))
}

/// A borrowed row, as a value.
pub open spec fn deref_opt<T>(r: Option<&T>) -> Option<T> {
    match r {
        Some(x) => Some(*x),
        None => None,
    }
}

fn get<'a, T: super::keyed::Keyed>(v: &'a Vec<T>, h: &str) -> (r: Option<&'a T>)
    ensures
        deref_opt(r) == lookup(v@, h@),
{
    match find(v, h) {
        Some(i) => Some(&v[i]),
        None => None,
    }
}

impl Snapshot {
    /// Handles are unique within each table, as the primary keys of the
    /// SQLite schema make them.
    pub open spec fn wf(&self) -> bool {
        &&& unique_keys(self.persons@)
        &&& unique_keys(self.families@)
        &&& unique_keys(self.events@)
        &&& unique_keys(self.places@)
        &&& unique_keys(self.sources@)
        &&& unique_keys(self.citations@)
        &&& unique_keys(self.media@)
        &&& unique_keys(self.notes@)
        &&& unique_keys(self.repositories@)
        &&& unique_keys(self.tags@)
    }

    /// Whether handles are unique within each table.
    pub fn is_well_formed(&self) -> (r: bool)
        ensures
            r == self.wf(),
    {
        keys_unique(&self.persons)
            && keys_unique(&self.families)
            && keys_unique(&self.events)
            && keys_unique(&self.places)
            && keys_unique(&self.sources)
            && keys_unique(&self.citations)
            && keys_unique(&self.media)
            && keys_unique(&self.notes)
            && keys_unique(&self.repositories)
            && keys_unique(&self.tags)
    }

    /// The person with this handle.
    pub fn person(&self, handle: &str) -> (r: Option<&Person>)
        ensures
            deref_opt(r) == lookup(self.persons@, handle@),
    {
        get(&self.persons, handle)
    }

    /// The family with this handle.
    pub fn family(&self, handle: &str) -> (r: Option<&Family>)
        ensures
            deref_opt(r) == lookup(self.families@, handle@),
    {
        get(&self.families, handle)
    }

    /// The event with this handle.
    pub fn event(&self, handle: &str) -> (r: Option<&Event>)
        ensures
            deref_opt(r) == lookup(self.events@, handle@),
    {
        get(&self.events, handle)
    }

    /// The place with this handle.
    pub fn place(&self, handle: &str) -> (r: Option<&Place>)
        ensures
            deref_opt(r) == lookup(self.places@, handle@),
    {
        get(&self.places, handle)
    }

    /// The source with this handle.
    pub fn source(&self, handle: &str) -> (r: Option<&Source>)
        ensures
            deref_opt(r) == lookup(self.sources@, handle@),
    {
        get(&self.sources, handle)
    }

    /// The citation with this handle.
    pub fn citation(&self, handle: &str) -> (r: Option<&Citation>)
        ensures
            deref_opt(r) == lookup(self.citations@, handle@),
    {
        get(&self.citations, handle)
    }

    /// The media with this handle.
    pub fn media_item(&self, handle: &str) -> (r: Option<&Media>)
        ensures
            deref_opt(r) == lookup(self.media@, handle@),
    {
        get(&self.media, handle)
    }

    /// The note with this handle.
    pub fn note(&self, handle: &str) -> (r: Option<&Note>)
        ensures
            deref_opt(r) == lookup(self.notes@, handle@),
    {
        get(&self.notes, handle)
    }

    /// The repository with this handle.
    pub fn repository(&self, handle: &str) -> (r: Option<&Repository>)
        ensures
            deref_opt(r) == lookup(self.repositories@, handle@),
    {
        get(&self.repositories, handle)
    }

    /// The tag with this handle.
    pub fn tag(&self, handle: &str) -> (r: Option<&Tag>)
        ensures
            deref_opt(r) == lookup(self.tags@, handle@),
    {
        get(&self.tags, handle)
    }

}

} // verus!
