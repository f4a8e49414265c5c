//! The logic of a terminal viewer for `jj` diffs.

pub mod app;
pub mod cli;
pub mod clipboard;
pub mod config;
pub mod effect;
pub mod git;
pub mod number;
pub mod render;
pub mod text;
