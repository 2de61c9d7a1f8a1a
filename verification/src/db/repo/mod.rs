//! Create / update / delete of every primary type.
//!
//! Every operation works on a [`Snapshot`](crate::db::Snapshot) the way one
//! write transaction works on the SQLite file: it refreshes the `reference`
//! rows of every object it writes, and stamps `change` with the current
//! unix time. New handles are passed in by the caller, who makes them from
//! random bytes with [`handle_from_bytes`](crate::text::handle_from_bytes).

pub mod common;
pub mod tag;
pub mod note;
pub mod citation;
pub mod media;
pub mod repository;
pub mod source;
pub mod event;
pub mod place;
pub mod person;
pub mod family;
pub mod relationships;
