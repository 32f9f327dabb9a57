//! What the two panels of a module tab show: the rows of the module tree
//! and the content of the selected module.

use vstd::prelude::*;

use crate::flake::rows_view;
use crate::module::Module;
use crate::text::{decimal_of, decimal_string};
use crate::tui::module_panel::spec_tree_prefix;
use crate::tui::state::{focused_modules, focused_tab, with_focused_tab, State};
use crate::tui::tab::{ModuleTabState, Tab};

verus! {

/// A row of the module tree panel.
#[derive(Debug, Clone)]
pub struct TreeRow {
    /// The tree guides before the module.
    pub prefix: String,
    /// Whether the module is added.
    pub added: bool,
    /// The module's name.
    pub name: String,
}

/// A tree row as its prefix, flag and name.
pub open spec fn tree_row_view(r: TreeRow) -> (Seq<char>, bool, Seq<char>) {
    (r.prefix@, r.added, r.name@)
}

/// Whether list row `j` names an added module of the focused tab.
pub open spec fn row_added(s: State, j: int) -> bool {
    &&& j < s.module_rows@.len()
    &&& focused_modules(s) matches Some(ms) && {
        let index = rows_view(s.module_rows@)[j].1;
        0 <= index < ms.len() && ms[index].added
    }
}

/// The name shown on list row `j`: its first cell, or nothing.
pub open spec fn row_name(s: State, j: int) -> Seq<char> {
    if s.list.items@[j]@.len() > 0 {
        s.list.items@[j]@[0]@
    } else {
        Seq::empty()
    }
}

/// The rows of the module tree panel: one per list row, with its tree
/// guides, whether its module is added, and its name.
pub open spec fn spec_tree_rows(s: State) -> Seq<(Seq<char>, bool, Seq<char>)> {
    Seq::new(
        s.list.items@.len(),
        |j: int| (spec_tree_prefix(rows_view(s.module_rows@), j), row_added(s, j), row_name(s, j)),
    )
}

/// The text shown for a module without a known source.
pub open spec fn no_source() -> Seq<char> {
    "source not available"@
}

/// The module of the selected row in the focused module tab, if any.
pub open spec fn selected_module(s: State) -> Option<Module> {
    match (focused_modules(s), s.list.selected) {
        (Some(ms), Some(row)) => if row < s.module_rows@.len() {
            let index = rows_view(s.module_rows@)[row as int].1;
            if 0 <= index < ms.len() {
                Some(ms[index])
            } else {
                None
            }
        } else {
            None
        },
        _ => None,
    }
}

/// What the content panel shows: the selected module's name and source,
/// or a note that its source is not available; nothing without one.
pub open spec fn spec_module_content(s: State) -> (Seq<char>, Seq<char>) {
    match selected_module(s) {
        Some(m) => (
            m.name@,
            match m.content {
                Some(c) => c@,
                None => no_source(),
            },
        ),
        None => (Seq::empty(), Seq::empty()),
    }
}

/// The position shown under the module list, `selected/count` counting from
/// one; nothing for an empty list.
pub open spec fn spec_position_label(selected: Option<usize>, len: nat) -> Seq<char> {
    if len == 0 {
        Seq::empty()
    } else {
        let sel = match selected {
            Some(i) => i as nat,
            None => 0,
        };
        decimal_of(if sel + 1 > usize::MAX {
            usize::MAX as nat
        } else {
            sel + 1
        }) + "/"@ + decimal_of(len)
    }
}

impl State {
    /// The modules of the focused tab, if it is a module tab.
    pub fn focused_modules(&self) -> (r: Option<&Vec<Module>>)
        ensures
            match r {
                Some(ms) => focused_modules(*self) == Some(ms@),
                None => focused_modules(*self) is None,
            },
    {
        match self.tab {
            Tab::General => None,
            Tab::NixosModules => Some(&self.flake.nixos_modules),
            Tab::HomeManagerModules => Some(&self.flake.home_modules),
        }
    }

    /// The rows of the module tree panel.
    pub fn module_tree_rows(&self) -> (r: Vec<TreeRow>)
        ensures
            r@.map_values(|t: TreeRow| tree_row_view(t)) == spec_tree_rows(*self),
    {
        let modules = self.focused_modules();
        let mut r: Vec<TreeRow> = Vec::new();
        let mut j: usize = 0;
        while j < self.list.items.len()
            invariant
                j <= self.list.items@.len(),
                match modules {
                    Some(ms) => focused_modules(*self) == Some(ms@),
                    None => focused_modules(*self) is None,
                },
                r@.len() == j,
                forall|k: int|
                    0 <= k < j ==> tree_row_view(#[trigger] r@[k]) == spec_tree_rows(*self)[k],
            decreases self.list.items@.len() - j,
        {
            let prefix = crate::tui::module_panel::tree_prefix(self.module_rows.as_slice(), j);
            let mut added = false;
            if j < self.module_rows.len() {
                let index = self.module_rows[j].1;
                assert(rows_view(self.module_rows@)[j as int].1 == index as int);
                match modules {
                    Some(ms) => {
                        if index < ms.len() {
                            added = ms[index].added;
                        }
                    },
                    None => {},
                }
            }
            let item = &self.list.items[j];
            let name = if item.len() > 0 {
                item[0].clone()
            } else {
                String::new()
            };
            r.push(TreeRow { prefix, added, name });
            j = j + 1;
        }
        assert(r@.map_values(|t: TreeRow| tree_row_view(t)) =~= spec_tree_rows(*self));
        r
    }

    /// The selected module's name and source for the content panel.
    pub fn module_content(&self) -> (r: (String, String))
        ensures
            (r.0@, r.1@) == spec_module_content(*self),
    {
        proof {
            reveal_strlit("source not available");
        }
        let modules = match self.focused_modules() {
            Some(ms) => ms,
            None => {
                return (String::new(), String::new());
            },
        };
        let row = match self.list.selected {
            Some(row) => row,
            None => {
                return (String::new(), String::new());
            },
        };
        if row >= self.module_rows.len() {
            return (String::new(), String::new());
        }
        let index = self.module_rows[row].1;
        assert(rows_view(self.module_rows@)[row as int].1 == index as int);
        if index >= modules.len() {
            return (String::new(), String::new());
        }
        let module = &modules[index];
        let content = match &module.content {
            Some(c) => c.clone(),
            None => "source not available".to_owned(),
        };
        (module.name.clone(), content)
    }

    /// Keeps the content scroll of the focused module tab within the
    /// content: at most the number of lines that do not fit the viewport.
    pub fn clamp_content_scroll(&mut self, content_lines: usize, viewport_height: usize)
        ensures
            *final(self) == match focused_tab(*old(self)) {
                Some(t) => {
                    let max = if content_lines < viewport_height {
                        0
                    } else {
                        (content_lines - viewport_height) as usize
                    };
                    if t.scroll_index > max {
                        with_focused_tab(*old(self), ModuleTabState { scroll_index: max, ..t })
                    } else {
                        *old(self)
                    }
                },
                None => *old(self),
            },
    {
        let max = if content_lines < viewport_height {
            0
        } else {
            content_lines - viewport_height
        };
        match self.tab {
            Tab::General => {},
            Tab::NixosModules => {
                if self.nixos_tab.scroll_index > max {
                    self.nixos_tab.scroll_index = max;
                }
            },
            Tab::HomeManagerModules => {
                if self.home_tab.scroll_index > max {
                    self.home_tab.scroll_index = max;
                }
            },
        }
    }

    /// The position shown under the module list.
    pub fn position_label(&self) -> (r: String)
        ensures
            r@ == spec_position_label(self.list.selected, self.list.items@.len()),
    {
        let len = self.list.items.len();
        if len == 0 {
            return String::new();
        }
        let sel = match self.list.selected {
            Some(i) => i,
            None => 0,
        };
        let shown = if sel == usize::MAX {
            usize::MAX
        } else {
            sel + 1
        };
        let mut r = decimal_string(shown);
        r.append("/");
        r.append(decimal_string(len).as_str());
        r
    }
}

} // verus!
