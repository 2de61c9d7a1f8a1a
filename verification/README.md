# anan

An editor for Gramps family trees (Gramps 6.0.x, schema version 21), with
its core verified in Verus.

- `src/` is the library. `gramps` is the object model of a tree; `db` holds
  a tree in memory with the create, update and delete operations of every
  primary type, the cascades that keep persons and families linked in both
  directions, and the `reference` table kept in step with every write;
  `db::backup` decides when a backup is due, how it is named and which old
  ones go; `ui` and `gui` are the desktop editor's forms and its state
  machine, and `list_pane` the state of one list panel (query, rows
  shown, selection); `add_relative` adds a relative from the tree view; `cli` holds
  the command line's parsing and lookups; `text` the string routines.
- `app/` is `anan-cli`: argument parsing, the SQLite file (load, write back
  in one transaction, backups), JSON output, and the runtime half of the
  desktop editor.
- `tests/` exercises the library on concrete trees.

Not part of this crate: the desktop window itself (the iced layout and
widgets that draw the panels, the detail views and the add-person dialog),
and the list panes' filtering and sorting and their arrow-key navigation.
The state machine in `gui` takes the rows a pane shows as a message and
keeps the query and selection; the window that draws them and drives the
runtime is not included.
