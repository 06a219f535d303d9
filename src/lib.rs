//! A plain-text todo list: one task per line, each line opened by a
//! four-character status marker (`[ ] ` open, `[*] ` done).
//!
//! The library holds the logic of the store: reading the file's lines,
//! parsing index arguments, marking, removing and listing tasks, and deciding
//! what reset and restore do to the files. Reading and writing the files is
//! left to the caller, which hands the library plain values.

pub mod laws;
mod command;
mod paths;
mod task;
mod text;

pub use command::{command_of, Command};
pub use paths::{backup_location, todo_location, Location};
pub use task::{file_content, FileAction, ListItem, Task, TaskError};
pub use text::{decimal, is_white, parse_index, split_lines};
