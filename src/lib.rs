//! A fixed-capacity in-memory directory tree and the line-oriented command
//! shell that edits it.

pub mod command;
pub mod folder;
pub mod laws;
pub mod model;
pub mod name;
pub mod shell;

pub use model::ShellError;
pub use shell::{Output, Shell};
