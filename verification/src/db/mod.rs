//! An in-memory Gramps tree and the operations that edit it.
//!
//! [`Snapshot`] holds every row of every primary table of a tree, in load
//! order, together with the `reference` table: one row per outbound
//! cross-reference `(obj_handle, obj_class, ref_handle, ref_class)`. The
//! per-type modules under [`repo`] create, update and delete rows the way a
//! write transaction on the SQLite file does, refresh the `reference` rows
//! of every object they write, and walk the cross-links on delete so that
//! no person or family is left pointing at a removed row.

pub mod backup;
pub mod columns;
pub mod index;
pub mod keyed;
pub mod refs;
pub mod repo;
pub mod snapshot;

pub use index::HandleIndex;
pub use keyed::{find, find_gid, Keyed, RefLink};
pub use refs::{ObjClass, Reference};
pub use snapshot::Snapshot;
