//! anan — the verified core of a desktop and command-line editor for
//! Gramps family trees (Gramps 6.0.x, schema version 21).
//!
//! - [`gramps`] is the object model of a tree: persons, families, events,
//!   places, sources, citations, media, notes, repositories and tags,
//!   with the label tables of the Gramps tagged enums and the Date type.
//! - [`db`] is an in-memory tree with the create / update / delete
//!   operations of every primary type, the cascades that keep the
//!   cross-links consistent, and the `reference` table kept in step.
//! - [`ui`] is the editing state of the desktop application: drafts,
//!   pending deletes, and the form parsing that turns a draft into a write.
//! - [`list_pane`] is the state of one list panel: query, rows shown,
//!   selection.
//! - [`gui`] is the desktop application as a state machine: each message
//!   from the window moves the editor to its next state and names the
//!   command the runtime carries out.
//! - [`add_relative`] adds a relative from the tree view: the new person,
//!   the source it cites, and the link to the person the form was opened on.
//! - [`cli`] holds the command line's argument parsing, id lookups,
//!   searches and summaries.
//! - [`text`] holds the small string routines the rest is built from.

pub mod add_relative;
pub mod cli;
pub mod db;
pub mod gramps;
pub mod gui;
pub mod list_pane;
pub mod text;
pub mod ui;
