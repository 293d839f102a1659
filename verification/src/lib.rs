//! Decides which code formatter to run for a working directory.
//!
//! A project is configured for a formatter by a marker file in one of the
//! directories between the working directory and the user's home. This crate
//! finds that file and says which formatter binary to launch and how:
//!
//! - [`path`] models paths as plain values;
//! - [`locator`] searches upward for the first marker file;
//! - [`selector`] knows the formatters, their marker files, and the command
//!   that runs each;
//! - [`dispatch`] puts the two together, one file-system probe at a time.
//!
//! Nothing here reads the file system or starts a process. The state machines
//! [`dispatch::Dispatch`] and [`locator::Search`] ask their caller whether a
//! path exists; [`dispatch::select_tool`] and [`locator::get_file_path`] work
//! on a listing of existing files instead.

pub mod dispatch;
pub mod locator;
pub mod path;
pub mod selector;
