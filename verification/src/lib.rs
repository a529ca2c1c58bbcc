//! A personal game-save manager library: a registry of game records sorted by
//! name with merge-on-write semantics, shell-command templating for cloud-sync
//! hooks, and a backup/restore engine with a deterministic archive-naming
//! protocol.

pub mod archive;
pub mod commands;
pub mod config;
pub mod engine;
pub mod errors;
pub mod game;
pub mod naming;
pub mod registry;
pub mod strutil;
