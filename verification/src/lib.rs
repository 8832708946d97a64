//! A personal task tracker: tasks with a free-text description, a lifecycle
//! status, a deadline and a label, kept in a line-oriented text file.

pub mod calendar;
pub mod cli_manager;
pub mod commands;
pub mod edit;
pub mod field_map;
pub mod instant;
pub mod labels;
pub mod listing;
pub mod messages;
pub mod resolver;
pub mod roundtrip;
pub mod store;
pub mod task;
pub mod tasks_file_manager;
pub mod text;
pub mod utils;
