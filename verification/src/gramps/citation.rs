//! Citation: a specific reference into a Source.

use vstd::prelude::*;

use super::common::{Attribute, MediaRef};
use super::date::Date;

verus! {

#[derive(Debug, Clone)]
pub struct Citation {
    pub class: Option<String>,
    pub handle: String,
    pub gramps_id: String,
    pub change: i64,
    pub private: bool,
    /// The source cited; empty when orphaned.
    pub source_handle: String,
    /// Page or URL within the source.
    pub page: String,
    /// 0..4, very low .. very high.
    pub confidence: i32,
    pub date: Option<Date>,
    pub note_list: Vec<String>,
    pub media_list: Vec<MediaRef>,
    pub attribute_list: Vec<Attribute>,
    pub tag_list: Vec<String>,
}

} // verus!
