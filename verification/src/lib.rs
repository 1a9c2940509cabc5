//! The logic of CursorDrop: files dropped on a widget, or pasted from the
//! clipboard, are sent to a remote host by `scp`, and their remote paths are put
//! on the clipboard.
//!
//! Nothing here talks to the outside. Where a task alternates outside calls and
//! decisions, it is a machine that asks for the next call and takes its outcome.

pub mod busy;
pub mod clipboard;
pub mod command_laws;
pub mod config;
pub mod config_laws;
pub mod entry_laws;
pub mod flush;
pub mod menu;
pub mod place;
pub mod remote;
pub mod ssh;
pub mod sys;
pub mod text;
pub mod text_laws;
pub mod ui;
pub mod upload;
pub mod upload_laws;
pub mod util;
pub mod window;
