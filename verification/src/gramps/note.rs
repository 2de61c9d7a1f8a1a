//! Note and StyledText.

use vstd::prelude::*;

use super::common::Typed;

verus! {

/// A styled interval of a note's text.
#[derive(Debug, Clone)]
pub struct StyledTextTag {
    pub class: Option<String>,
    pub name: Typed,
    /// The tag's value, as JSON text.
    pub value_json: String,
    pub ranges: Vec<(i32, i32)>,
}

/// Note body with inline styling tags.
#[derive(Debug, Clone)]
pub struct StyledText {
    pub class: Option<String>,
    pub string: String,
    pub tags: Vec<StyledTextTag>,
}

#[derive(Debug, Clone)]
pub struct Note {
    pub class: Option<String>,
    pub handle: String,
    pub gramps_id: String,
    pub change: i64,
    pub private: bool,
    /// 0 = flowed, 1 = preformatted.
    pub format: i32,
    pub text: StyledText,
    pub type_: Typed,
    pub tag_list: Vec<String>,
}

} // verus!
