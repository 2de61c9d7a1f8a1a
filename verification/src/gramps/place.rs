//! Place, PlaceName and PlaceRef.

use vstd::prelude::*;

use super::common::{MediaRef, Typed, Url};
use super::date::Date;

verus! {

#[derive(Debug, Clone)]
pub struct PlaceName {
    pub class: Option<String>,
    pub value: String,
    pub lang: String,
    pub date: Option<Date>,
}

/// A place's link to an enclosing place.
#[derive(Debug, Clone)]
pub struct PlaceRef {
    pub class: Option<String>,
    /// Handle of the enclosing place.
    pub ref_: String,
    pub date: Option<Date>,
}

#[derive(Debug, Clone)]
pub struct Place {
    pub class: Option<String>,
    pub handle: String,
    pub gramps_id: String,
    pub change: i64,
    pub private: bool,
    pub title: String,
    pub long: String,
    pub lat: String,
    pub code: String,
    pub name: PlaceName,
    pub alt_names: Vec<PlaceName>,
    pub place_type: Typed,
    /// Alternate locations, each as JSON text.
    pub alt_loc: Vec<String>,
    pub placeref_list: Vec<PlaceRef>,
    pub urls: Vec<Url>,
    pub media_list: Vec<MediaRef>,
    pub citation_list: Vec<String>,
    pub note_list: Vec<String>,
    pub tag_list: Vec<String>,
}

} // verus!
