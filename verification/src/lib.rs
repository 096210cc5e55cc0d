//! The logic of an interactive front end that re-runs a command on every edit
//! of a query line and shows its live output below the prompt.

pub mod ansi;
pub mod component;
pub mod event;
pub mod input;
pub mod process;
pub mod prompt;
pub mod render;
pub mod writer;
