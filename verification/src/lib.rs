//! Bulk UID/GID remapping of a filesystem subtree: the remapping engine.
//!
//! The engine decides; its caller performs the filesystem work. A caller walks
//! the tree, leaves out what [`fs::should_exclude`] excludes, reads each
//! entry's ownership, hands it to [`commands::remap::RemapCommand`], and
//! carries out the ownership change that comes back.
//!
//! - [`fs`]: the exclusion filter.
//! - [`registry`]: the inodes already handled, by which hard links are skipped.
//! - [`commands::remap`]: the configuration, the decision about one entry's
//!   ownership, and the run.
//! - [`commands::traversal`]: a run over the entries of a traversal, and what
//!   holds of it.
//! - [`ownership`], [`error`], [`text`], [`cli`]: the values that these work on.

pub mod cli;
pub mod commands;
pub mod error;
pub mod fs;
pub mod ownership;
pub mod registry;
pub mod text;
