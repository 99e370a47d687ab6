//! A dotfile-farm planning engine.
//!
//! The library mirrors a source directory tree into a destination tree with
//! symbolic links.  Its core is the planner: given the (source, destination)
//! path pairs produced by a tree walk, it classifies each pair against the
//! current destination state into exactly one operation (link, make a
//! directory, warn, or nothing) and accumulates them into a plan.  Planning
//! is total, deterministic and free of side effects, so a caller can preview
//! a plan before anything touches the filesystem.
//!
//! Filesystem access goes through narrow capability interfaces
//! ([`filesystem::FileSystemOps`], [`walker::Walker`], [`config::ConfigReader`])
//! so the planner and the walk logic can run against in-memory backends.

pub mod config;
pub mod error;
pub mod filesystem;
pub mod path;
pub mod toml_doc;
pub mod planner;
pub mod walker;
