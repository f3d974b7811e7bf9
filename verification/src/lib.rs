//! Core logic of a game-library synchronization tool.
//!
//! A game library lives under a *library root*: a directory holding one
//! `appmanifest_<id>.acf` metadata file per installed application and a
//! `common/` payload subdirectory with one install directory per application.
//! This crate contains the verified core of a tool that inventories such a
//! library and copies installations between a live root and a backup root:
//!
//! - [`manifest`]: extraction of the `appid`, `name` and `installdir` fields
//!   from manifest text;
//! - [`steamapps`]: path conventions of a library root;
//! - [`sync`]: the per-application backup/restore state machine and the
//!   batch outcome accounting;
//! - [`listing`]: the inventory of a root's manifest files;
//! - [`progress`]: progress accounting for the payload copy;
//! - [`network`]: display rules for the unrelated network-listing command.
//!
//! The crate itself performs no I/O: reading files, copying directory trees
//! and probing the filesystem are left to the (unverified) caller, which
//! feeds the results back in as plain values.

pub mod errors;
pub mod listing;
pub mod manifest;
pub mod network;
pub mod progress;
pub mod steamapps;
pub mod sync;
