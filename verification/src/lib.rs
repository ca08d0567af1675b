//! Verified core of a declarative music library builder.
//!
//! The library holds the logic that decides what a build does: how module
//! metadata and tracklists are inherited, how a leaf module's file mapping is
//! checked, how a unit's output paths are named, which units are skipped by
//! the incremental build, and which items of the output directory are stale.
//! Reading and writing files, running external programs and printing are done
//! by the program around the library.

pub mod album;
pub mod build;
pub mod cli;
pub mod command;
pub mod commands;
pub mod dir;
pub mod filesystem;
pub mod manifest;
pub mod mapping;
pub mod model;
pub mod module;
pub mod order;
pub mod paths;
pub mod project;
pub mod release;
pub mod run;
pub mod source;
pub mod text;
pub mod tracklist;
pub mod tree;
