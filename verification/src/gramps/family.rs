//! Family and ChildRef.

use vstd::prelude::*;

use super::common::{Attribute, LdsOrd, MediaRef, Typed};
use super::event::EventRef;

verus! {

/// A family's link to one of its children, with the relation to each parent.
#[derive(Debug, Clone)]
pub struct ChildRef {
    pub class: Option<String>,
    /// Handle of the child.
    pub ref_: String,
    pub private: bool,
    pub citation_list: Vec<String>,
    pub note_list: Vec<String>,
    pub frel: Typed,
    pub mrel: Typed,
}

#[derive(Debug, Clone)]
pub struct Family {
    pub class: Option<String>,
    pub handle: String,
    pub gramps_id: String,
    pub change: i64,
    pub private: bool,
    pub father_handle: Option<String>,
    pub mother_handle: Option<String>,
    pub child_ref_list: Vec<ChildRef>,
    pub type_: Typed,
    pub event_ref_list: Vec<EventRef>,
    pub media_list: Vec<MediaRef>,
    pub attribute_list: Vec<Attribute>,
    pub lds_ord_list: Vec<LdsOrd>,
    pub citation_list: Vec<String>,
    pub note_list: Vec<String>,
    pub tag_list: Vec<String>,
    /// `complete` flag of Gramps core.
    pub complete: i32,
}

} // verus!
