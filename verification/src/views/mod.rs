//! The state and behaviour behind the application's list views: the task
//! tree, projects, time entries, the heatmap, the calendar, settings, quick
//! creation, the timer and the revert log. Each holds its own database
//! connection; a user interface reads their rows and calls their actions.
pub mod visible;
pub mod tasks;
pub mod graph;
pub mod entries;
pub mod calendar;
pub mod settings;
pub mod quick_create;
pub mod timer;
pub mod actions_log;
pub mod app;
pub mod projects;
