//! The Gramps 6.x object model.
//!
//! Every primary object of a tree is stored by Gramps as a JSON document;
//! the structs here mirror those documents field by field. Values that are
//! free-form JSON in the documents are held as their raw JSON text.

pub mod citation;
pub mod common;
pub mod date;
pub mod enums;
pub mod event;
pub mod family;
pub mod media;
pub mod note;
pub mod person;
pub mod place;
pub mod repository;
pub mod source;
pub mod tag;
