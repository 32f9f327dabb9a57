//! The application tabs.

use vstd::prelude::*;

use crate::tui::module_panel::ModulePanel;

verus! {

/// Application tab.
#[derive(Clone, Copy, Debug, Eq, PartialEq, Structural)]
pub enum Tab {
    /// General information.
    General,
    /// Nixos modules.
    NixosModules,
    /// HomeManager modules.
    HomeManagerModules,
}

/// Number of tabs.
pub const TAB_COUNT: usize = 3;

impl Tab {
    /// Position of the tab in the header.
    pub open spec fn spec_index(self) -> int {
        match self {
            Tab::General => 0,
            Tab::NixosModules => 1,
            Tab::HomeManagerModules => 2,
        }
    }

    /// The tab at a position; positions past the last tab give the default tab.
    pub open spec fn spec_from_index(i: int) -> Tab {
        if i == 1 {
            Tab::NixosModules
        } else if i == 2 {
            Tab::HomeManagerModules
        } else {
            Tab::General
        }
    }

    /// Position of the tab in the header.
    pub fn index(self) -> (r: usize)
        ensures
            r as int == self.spec_index(),
    {
        match self {
            Tab::General => 0,
            Tab::NixosModules => 1,
            Tab::HomeManagerModules => 2,
        }
    }

    /// The tab at a position; positions past the last tab give the default tab.
    pub fn from_index(i: usize) -> (t: Tab)
        ensures
            t == Tab::spec_from_index(i as int),
    {
        if i == 1 {
            Tab::NixosModules
        } else if i == 2 {
            Tab::HomeManagerModules
        } else {
            Tab::General
        }
    }

    /// Returns the available tabs.
    pub fn get_headers() -> (r: [&'static str; 3])
        ensures
            r@[0]@ == "General"@,
            r@[1]@ == "Nixos Modules"@,
            r@[2]@ == "Home Manager Modules"@,
    {
        ["General", "Nixos Modules", "Home Manager Modules"]
    }
}

impl From<usize> for Tab {
    /// The tab at a position; positions past the last tab give the default tab.
    fn from(v: usize) -> (t: Tab) {
        Tab::from_index(v)
    }
}

impl vstd::std_specs::convert::FromSpecImpl<usize> for Tab {
    open spec fn obeys_from_spec() -> bool {
        true
    }

    open spec fn from_spec(v: usize) -> Tab {
        Tab::spec_from_index(v as int)
    }
}

impl Default for Tab {
    fn default() -> (t: Tab)
        ensures
            t == Tab::General,
    {
        Tab::General
    }
}

/// UI state owned by one module tab.
#[derive(Clone, Copy, Debug, PartialEq, Eq, Structural)]
pub struct ModuleTabState {
    /// Focused panel.
    pub panel: ModulePanel,
    /// Content scroll index.
    pub scroll_index: usize,
}

impl Default for ModuleTabState {
    fn default() -> (s: ModuleTabState)
        ensures
            s.panel == ModulePanel::Modules,
            s.scroll_index == 0,
    {
        ModuleTabState { panel: ModulePanel::Modules, scroll_index: 0 }
    }
}

} // verus!

verus! {

/// A tab is found again from its position.
pub proof fn lemma_tab_index_round_trip(t: Tab)
    ensures
        Tab::spec_from_index(t.spec_index()) == t,
        0 <= t.spec_index() < TAB_COUNT,
{
}

} // verus!
