//! Editing logic of a small Notepad-style text editor: encoding detection and
//! conversion for loading and saving documents, find and replace over the
//! document text, and the decisions the main window makes on the editor state.

pub mod app;
pub mod file_io;
pub mod resource_ids;
pub mod search;
pub mod text;
pub mod unicode;
pub mod win32;
