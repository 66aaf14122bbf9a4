//! Decisions of a two-stage bootstrap of a Debian-style root filesystem.
//!
//! A run downloads the package indices of a mirror, resolves the packages
//! to install, downloads their archives, unpacks a small stub of them into
//! the target, and lets the package manager inside the target install the
//! rest. This crate holds what such a run decides and computes, on plain
//! values: names and addresses, package lists, the install script, the
//! disk-space guard, and the order of the phases. Reading and writing
//! files, talking to the mirror, solving dependencies and entering the
//! guest are left to the caller.

pub mod archive;
pub mod config;
pub mod deb;
pub mod devices;
pub mod disk;
pub mod download;
pub mod guest;
pub mod lists;
pub mod mirror;
pub mod package;
pub mod pipeline;
pub mod resolved;
pub mod script;
pub mod text;
