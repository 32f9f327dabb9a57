//! Trim a Nix configuration down to a chosen set of modules.

pub mod args;
pub mod config;
pub mod flake;
pub mod metadata;
pub mod module;
pub mod path;
pub mod recover;
pub mod text;
pub mod trim;
pub mod tui;
