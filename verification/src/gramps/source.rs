//! Source (the thing cited) and RepoRef.

use vstd::prelude::*;

use super::common::{Attribute, MediaRef, Typed};

verus! {

/// A source's link to a repository that holds it.
#[derive(Debug, Clone)]
pub struct RepoRef {
    pub class: Option<String>,
    /// Handle of the repository.
    pub ref_: String,
    pub call_number: String,
    pub private: bool,
    pub note_list: Vec<String>,
    pub media_type: Option<Typed>,
}

#[derive(Debug, Clone)]
pub struct Source {
    pub class: Option<String>,
    pub handle: String,
    pub gramps_id: String,
    pub change: i64,
    pub private: bool,
    pub title: String,
    pub author: String,
    pub pubinfo: String,
    pub abbrev: String,
    pub reporef_list: Vec<RepoRef>,
    pub media_list: Vec<MediaRef>,
    pub attribute_list: Vec<Attribute>,
    pub note_list: Vec<String>,
    pub tag_list: Vec<String>,
}

} // verus!
