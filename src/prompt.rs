//! The editing engine behind a prompt.
pub mod buffer;
pub mod completer;
pub mod editor;
pub mod navigation;
