//! A task list for one user: short texts that are added, listed and removed,
//! kept between runs as one line of text each.
//!
//! - `store`: the list itself, with the text it is kept as and the lines it
//!   is shown as.
//! - `command`: reading a command from the arguments, and carrying it out.
//! - `location`: where the list is kept.
//! - `lines`, `number`, `text`: splitting a text into lines, positions in
//!   decimal, and comparing and joining strings.
//!
//! Nothing here reads or writes a file: the caller hands in what it read and
//! writes what it is handed.

pub mod command;
pub mod lines;
pub mod location;
pub mod number;
pub mod store;
pub mod text;
