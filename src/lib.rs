//! A line reader core: text navigation over codepoints, a line buffer with a
//! completion and suggestion overlay, and the resolution of key events into
//! editing actions.
pub mod actions;
pub mod completion;
pub mod context;
pub mod prompt;

pub use context::Context;
