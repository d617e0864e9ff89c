//! Verified core of a directory-to-clipboard copier.
//!
//! The library decides which files of a directory walk are kept (a glob
//! filter on the base name plus an ignore-rule veto), which directories are
//! announced, in what order the resulting events come, and how the final
//! text document is framed. Walking the file system, reading files, and
//! talking to the clipboard are left to the surrounding binary.

pub mod doc;
pub mod ignore;
pub mod laws;
pub mod paths;
pub mod pattern;
pub mod scan;
