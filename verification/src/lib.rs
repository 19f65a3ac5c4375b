//! Core of a task and time-tracking application: the task / project / time
//! entry domain, the quick-creation text format, the SQLite-backed
//! repository, the revert log, and the view logic behind the UI models.
pub mod text;
pub mod domain;
pub mod format;
pub mod tree;
pub mod sql;
pub mod db;
pub mod journal;
pub mod views;
