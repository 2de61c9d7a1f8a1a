//! Tag.

use vstd::prelude::*;

verus! {

#[derive(Debug, Clone)]
pub struct Tag {
    pub class: Option<String>,
    pub handle: String,
    pub change: i64,
    pub name: String,
    pub color: String,
    pub priority: i32,
}

} // verus!
