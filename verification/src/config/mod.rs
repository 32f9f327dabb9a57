//! Application configuration.

pub mod keybinding;
pub mod module;

use vstd::prelude::*;

use crate::config::keybinding::{Keybindings, is_default_keybindings};
use crate::config::module::Modules;

verus! {

/// Application configuration loaded from `config.toml`.
#[derive(Clone, Debug)]
pub struct AppConfig {
    /// Key bindings.
    pub keybindings: Keybindings,
    /// Nixos and HomeManager Module names to mark as added on startup.
    pub modules: Modules,
}

impl Default for AppConfig {
    /// The default key bindings, and no module marked as added.
    fn default() -> (c: AppConfig)
        ensures
            is_default_keybindings(c.keybindings),
            c.modules.nixos@.len() == 0,
            c.modules.home@.len() == 0,
    {
        AppConfig {
            keybindings: Keybindings::default(),
            modules: Modules { nixos: Vec::new(), home: Vec::new() },
        }
    }
}

} // verus!
