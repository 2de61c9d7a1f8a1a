//! Media (the top-level object, not the `MediaRef` cross-reference).

use vstd::prelude::*;

use super::common::Attribute;
use super::date::Date;

verus! {

#[derive(Debug, Clone)]
pub struct Media {
    pub class: Option<String>,
    pub handle: String,
    pub gramps_id: String,
    pub change: i64,
    pub private: bool,
    pub path: String,
    pub mime: String,
    pub desc: String,
    pub checksum: String,
    pub date: Option<Date>,
    pub citation_list: Vec<String>,
    pub note_list: Vec<String>,
    pub attribute_list: Vec<Attribute>,
    pub tag_list: Vec<String>,
}

} // verus!
