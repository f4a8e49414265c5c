//! Reading a `jj` repository: the changed files, their diffs, and the hunks in a diff.

pub mod diff;
pub mod hunks;
pub mod repository;

pub use diff::get_diff;
pub use hunks::hunk_first_change_lines;
pub use repository::{ChangedFile, FileStatus, Repository};
