//! Repository.

use vstd::prelude::*;

use super::common::{Address, Typed, Url};

verus! {

#[derive(Debug, Clone)]
pub struct Repository {
    pub class: Option<String>,
    pub handle: String,
    pub gramps_id: String,
    pub change: i64,
    pub private: bool,
    pub name: String,
    pub type_: Typed,
    pub address_list: Vec<Address>,
    pub urls: Vec<Url>,
    pub note_list: Vec<String>,
    pub tag_list: Vec<String>,
}

} // verus!
