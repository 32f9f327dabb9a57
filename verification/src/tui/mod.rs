//! The terminal interface's state and decisions.

pub mod command;
pub mod list;
pub mod logo;
pub mod module_panel;
pub mod tab;
pub mod state;
pub mod lines;
pub mod info;
pub mod panels;
