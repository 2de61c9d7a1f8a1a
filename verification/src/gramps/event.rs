//! Event and EventRef.

use vstd::prelude::*;

use super::common::{Attribute, MediaRef, Typed};
use super::date::Date;

verus! {

/// A person's or family's link to an event, with the role played in it.
#[derive(Debug, Clone)]
pub struct EventRef {
    pub class: Option<String>,
    /// Handle of the event.
    pub ref_: String,
    pub private: bool,
    pub citation_list: Vec<String>,
    pub note_list: Vec<String>,
    pub attribute_list: Vec<Attribute>,
    pub role: Typed,
}

#[derive(Debug, Clone)]
pub struct Event {
    pub class: Option<String>,
    pub handle: String,
    pub gramps_id: String,
    pub change: i64,
    pub private: bool,
    pub type_: Typed,
    pub description: String,
    /// Handle of the place of the event; empty when unset.
    pub place: String,
    pub date: Option<Date>,
    pub citation_list: Vec<String>,
    pub note_list: Vec<String>,
    pub media_list: Vec<MediaRef>,
    pub attribute_list: Vec<Attribute>,
    pub tag_list: Vec<String>,
}

} // verus!
