# uhatt

The core of a task and time-tracking app — projects, tasks and subtasks,
deadlines, a timer with crash recovery, hand-entered time, a day-by-day
heatmap, bulk import of an indented outline, and a log of recent actions
that can be reverted — written in Verus.

What is proved, and what is not: the parsing, wording, tree and undo
planning logic is specified exactly and proved. The database is SQLite,
reached through `rusqlite`; what SQLite does with a statement is not
modelled. For the writes, the contracts state instead which statements
(text and parameters) the library hands to SQLite, and the functions hand
them back; what a table holds afterwards is SQLite's doing.

Layout:

- `src/text.rs`, `src/format.rs`: character-level parsing and rendering
  (integers, durations, dates, JSON string literals, hour totals).
- `src/domain.rs`: the data types and the outline parser of the bulk
  import.
- `src/tree.rs`: the guide-line annotations of a pre-ordered task tree.
- `src/sql.rs`: the thin, trusted layer over `rusqlite`, and the typed
  column readers.
- `src/db/`: the repository (tasks, projects, entries, timer, heatmap,
  deadline countdowns, migrations, the revert log).
- `src/journal.rs`: the records of the revert log and what undoing one
  does, read back through `serde_json`.
- `src/views/`: the state behind each screen (task list, graph, entries,
  calendar, settings, import dialog, timer bar, action log, project list).
- `app/main.rs`: opens the database file and prints the active task tree.
- `tests/`: the test suite, run against an in-memory database.
