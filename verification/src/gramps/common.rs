//! Sub-objects shared by several primary types.

use vstd::prelude::*;

use super::date::Date;

verus! {

/// A Gramps tagged enum value: `{"_class": ..., "value": N, "string": ...}`.
///
/// Built-in labels live in `enums`. A non-empty `string` carries a custom
/// user-defined label, and `value` then points at the "custom" slot.
#[derive(Debug, Clone)]
pub struct Typed {
    pub class: Option<String>,
    pub value: i32,
    pub string: String,
}

/// Cross-reference to a media object from another primary object.
#[derive(Debug, Clone)]
pub struct MediaRef {
    pub class: Option<String>,
    /// Handle of the referenced media object.
    pub ref_: String,
    pub private: bool,
    pub citation_list: Vec<String>,
    pub note_list: Vec<String>,
    pub attribute_list: Vec<Attribute>,
    /// Optional crop rectangle `[x1, y1, x2, y2]` in percent.
    pub rect: Option<Vec<i32>>,
}

/// Key/value attribute attached to various objects.
#[derive(Debug, Clone)]
pub struct Attribute {
    pub class: Option<String>,
    pub private: bool,
    pub citation_list: Vec<String>,
    pub note_list: Vec<String>,
    pub type_: Typed,
    pub value: String,
}

/// URL attached to an object (website, e-mail, ...).
#[derive(Debug, Clone)]
pub struct Url {
    pub class: Option<String>,
    pub private: bool,
    pub path: String,
    pub desc: String,
    pub type_: Typed,
}

/// Mailing address of a person or a repository.
#[derive(Debug, Clone)]
pub struct Address {
    pub class: Option<String>,
    pub private: bool,
    pub citation_list: Vec<String>,
    pub note_list: Vec<String>,
    pub date: Option<Date>,
    pub street: String,
    pub locality: String,
    pub city: String,
    pub county: String,
    pub state: String,
    pub country: String,
    pub postal: String,
    pub phone: String,
}

/// LDS ordinance record. Rare and kept opaque: every field but `_class`
/// is held as the raw text of a JSON object.
#[derive(Debug, Clone)]
pub struct LdsOrd {
    pub class: Option<String>,
    /// The remaining fields, as the text of a JSON object.
    pub other_json: String,
}

} // verus!
