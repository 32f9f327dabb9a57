//! The state of the terminal interface and how commands change it.
//!
//! The state decides; the caller performs what lies outside it (the text
//! field, the browser, the export itself) as the returned [`Action`] says.

use vstd::prelude::*;

use crate::config::keybinding::{KeyEvent, Keybindings, binding_label};
use crate::flake::{
    Flake, added_flags, assign_rows, lemma_module_tree_within, rows_view, rows_within, same_but_added,
    set_added, spec_module_tree, subtree_end, subtree_end_from, lemma_subtree_end_from_bounds,
};
use crate::flake::{export_view, selection_upto};
use crate::module::{Module, opt_view};
use crate::path::{expand_tilde, spec_expand_tilde};
use crate::text::{chars_of, string_of, trim_chars, trimmed};
use crate::trim::{ExportModule, ExportReport, ExportRequest};
use crate::tui::command::{Command, InputCommand, ScrollType};
use crate::tui::list::{SelectableList, spec_last_row, spec_next_selection, spec_previous_selection};
use crate::tui::logo::Logo;
use crate::tui::module_panel::ModulePanel;
use crate::tui::tab::{ModuleTabState, TAB_COUNT, Tab};

verus! {

/// Focusable panels of a module tab.
pub type Panel = ModulePanel;

/// Stage of the export flow.
#[derive(Debug)]
pub enum ExportStage {
    /// No export in progress.
    Idle,
    /// Prompting for the new hostname.
    Hostname,
    /// Prompting for the output directory.
    OutputDir {
        /// Hostname confirmed in the previous stage.
        hostname: String,
    },
    /// Export finished; carries the report or the error message.
    Done(Result<ExportReport, String>),
}

impl Default for ExportStage {
    fn default() -> (s: ExportStage)
        ensures
            s is Idle,
    {
        ExportStage::Idle
    }
}

/// What the caller must carry out after a command.
#[derive(Debug)]
pub enum Action {
    /// Nothing.
    Nothing,
    /// Open the project's page in the browser.
    OpenRepo,
    /// Hand the key to the text field.
    EditInput(KeyEvent),
    /// Empty the text field.
    ClearInput,
    /// Restart the application.
    Restart,
    /// Empty the text field, run the export and report its outcome through
    /// [`State::finish_export`].
    Export(ExportRequest),
}

/// Application state.
#[derive(Debug)]
pub struct State {
    /// Is the application running?
    pub running: bool,
    /// Nixos Configuration.
    pub flake: Flake,
    /// Active key bindings (defaults merged with `config.toml`).
    pub keybindings: Keybindings,
    /// Strings call completed.
    pub strings_loaded: bool,
    /// Selected tab.
    pub tab: Tab,
    /// State of the Nixos modules tab.
    pub nixos_tab: ModuleTabState,
    /// State of the HomeManager modules tab.
    pub home_tab: ModuleTabState,
    /// Module rows shown in the focused module tab, as `(depth, module index)`.
    pub module_rows: Vec<(usize, usize)>,
    /// List items.
    pub list: SelectableList<Vec<String>>,
    /// Available config options scroll index.
    pub available_option_scroll_index: usize,
    /// Selected config options scroll index.
    pub selected_option_scroll_index: usize,
    /// Enable input.
    pub input_mode: bool,
    /// Transient status message shown in the input slot.
    pub status: Option<String>,
    /// Export flow stage.
    pub export_stage: ExportStage,
    /// The home directory, which a leading `~/` of the output directory
    /// stands for.
    pub home: Option<String>,
    /// Logo widget.
    pub logo: Logo,
}

/// The modules of the focused tab, if it is a module tab.
pub open spec fn focused_modules(s: State) -> Option<Seq<Module>> {
    match s.tab {
        Tab::General => None,
        Tab::NixosModules => Some(s.flake.nixos_modules@),
        Tab::HomeManagerModules => Some(s.flake.home_modules@),
    }
}

/// The state of the focused tab, if it is a module tab.
pub open spec fn focused_tab(s: State) -> Option<ModuleTabState> {
    match s.tab {
        Tab::General => None,
        Tab::NixosModules => Some(s.nixos_tab),
        Tab::HomeManagerModules => Some(s.home_tab),
    }
}

/// `s` with the state of the focused module tab replaced by `t` (unchanged
/// on the General tab).
pub open spec fn with_focused_tab(s: State, t: ModuleTabState) -> State {
    match s.tab {
        Tab::General => s,
        Tab::NixosModules => State { nixos_tab: t, ..s },
        Tab::HomeManagerModules => State { home_tab: t, ..s },
    }
}

impl State {
    /// Stops the application.
    pub fn exit(&mut self)
        ensures
            *final(self) == (State { running: false, ..*old(self) }),
    {
        self.running = false;
    }

    /// Sets the state of the focused module tab.
    fn set_focused_tab(&mut self, t: ModuleTabState)
        ensures
            *final(self) == with_focused_tab(*old(self), t),
    {
        match self.tab {
            Tab::General => {},
            Tab::NixosModules => {
                self.nixos_tab = t;
            },
            Tab::HomeManagerModules => {
                self.home_tab = t;
            },
        }
    }

    /// The state of the focused module tab.
    pub fn focused_module_tab(&self) -> (r: Option<ModuleTabState>)
        ensures
            r == focused_tab(*self),
    {
        match self.tab {
            Tab::General => None,
            Tab::NixosModules => Some(self.nixos_tab),
            Tab::HomeManagerModules => Some(self.home_tab),
        }
    }
}

/// The list rows show the names of the modules of `rows`, one per row.
pub open spec fn lists_rows(items: Seq<Vec<String>>, ms: Seq<Module>, rows: Seq<(int, int)>) -> bool {
    &&& items.len() == rows.len()
    &&& forall|j: int| 0 <= j < rows.len() ==> (#[trigger] items[j])@ == seq![ms[rows[j].1].name]
}

/// `new` is `base` with the module rows and the list rebuilt for the tab of
/// `base`: the module tree of its modules with the first row selected, or
/// nothing on the General tab.
pub open spec fn shows_tab(base: State, new: State) -> bool {
    &&& new == (State { module_rows: new.module_rows, list: new.list, ..base })
    &&& match focused_modules(base) {
        None => {
            &&& new.module_rows@.len() == 0
            &&& new.list.items@.len() == 0
            &&& new.list.selected is None
        },
        Some(ms) => {
            &&& rows_view(new.module_rows@) == spec_module_tree(ms)
            &&& lists_rows(new.list.items@, ms, rows_view(new.module_rows@))
            &&& new.list.selected == (if new.module_rows@.len() == 0 {
                None
            } else {
                Some(0usize)
            })
        },
    }
}

/// The tab `amount` tabs after `t`, wrapping around; a position past the
/// largest integer counts as the first tab.
pub open spec fn spec_next_tab(t: Tab, amount: usize) -> Tab {
    let sum = t.spec_index() + amount;
    Tab::spec_from_index(
        if sum > usize::MAX {
            0
        } else {
            sum % (TAB_COUNT as int)
        },
    )
}

/// The tab `amount` tabs before `t`; going past the first tab gives the
/// last one.
pub open spec fn spec_previous_tab(t: Tab, amount: usize) -> Tab {
    Tab::spec_from_index(
        if amount <= t.spec_index() {
            t.spec_index() - amount
        } else {
            TAB_COUNT - 1
        },
    )
}

/// `s` with its list selection replaced.
pub open spec fn with_selection(s: State, selected: usize) -> State {
    State { list: SelectableList { items: s.list.items, selected: Some(selected) }, ..s }
}

/// `s` with the scroll of the focused module tab reset.
pub open spec fn with_scroll_reset(s: State) -> State {
    match focused_tab(s) {
        Some(t) => with_focused_tab(s, ModuleTabState { scroll_index: 0, ..t }),
        None => s,
    }
}

/// `s` with the focused module tab on panel `p`.
pub open spec fn with_panel(s: State, p: ModulePanel) -> State {
    match focused_tab(s) {
        Some(t) => with_focused_tab(s, ModuleTabState { panel: p, ..t }),
        None => s,
    }
}

/// What scrolling forward by `amount` does: to a later tab; to the content
/// panel; down the module list (back to the top of the content); or down
/// the content, stopping at the largest index.
pub open spec fn next_post(old: State, new: State, scroll: ScrollType, amount: usize) -> bool {
    match scroll {
        ScrollType::Tab => shows_tab(State { tab: spec_next_tab(old.tab, amount), ..old }, new),
        ScrollType::Table => new == with_panel(old, ModulePanel::Content),
        ScrollType::List => match focused_tab(old) {
            None => new == old,
            Some(t) => match t.panel {
                ModulePanel::Modules => new == with_scroll_reset(
                    with_selection(
                        old,
                        spec_next_selection(old.list.selected, old.list.items@.len() as int, amount),
                    ),
                ),
                ModulePanel::Content => new == with_focused_tab(
                    old,
                    ModuleTabState {
                        scroll_index: if t.scroll_index + amount > usize::MAX {
                            usize::MAX
                        } else {
                            (t.scroll_index + amount) as usize
                        },
                        ..t
                    },
                ),
            },
        },
    }
}

/// What scrolling back by `amount` does: to an earlier tab; to the module
/// panel; up the module list (back to the top of the content); or up the
/// content, stopping at zero.
pub open spec fn previous_post(old: State, new: State, scroll: ScrollType, amount: usize) -> bool {
    match scroll {
        ScrollType::Tab => shows_tab(State { tab: spec_previous_tab(old.tab, amount), ..old }, new),
        ScrollType::Table => new == with_panel(old, ModulePanel::Modules),
        ScrollType::List => match focused_tab(old) {
            None => new == old,
            Some(t) => match t.panel {
                ModulePanel::Modules => new == with_scroll_reset(
                    with_selection(
                        old,
                        spec_previous_selection(
                            old.list.selected,
                            old.list.items@.len() as int,
                            amount,
                        ),
                    ),
                ),
                ModulePanel::Content => new == with_focused_tab(
                    old,
                    ModuleTabState {
                        scroll_index: if t.scroll_index < amount {
                            0
                        } else {
                            (t.scroll_index - amount) as usize
                        },
                        ..t
                    },
                ),
            },
        },
    }
}

/// The list rows of a module list: one row per tree row, holding the name of
/// its module.
fn module_list(modules: &Vec<Module>, rows: &Vec<(usize, usize)>) -> (items: Vec<Vec<String>>)
    requires
        rows_within(rows_view(rows@), modules@.len() as int),
    ensures
        lists_rows(items@, modules@, rows_view(rows@)),
{
    let mut items: Vec<Vec<String>> = Vec::new();
    let mut j: usize = 0;
    while j < rows.len()
        invariant
            j <= rows@.len(),
            rows_within(rows_view(rows@), modules@.len() as int),
            items@.len() == j,
            forall|k: int|
                0 <= k < j ==> (#[trigger] items@[k])@ == seq![modules@[rows_view(rows@)[k].1].name],
        decreases rows@.len() - j,
    {
        let index = rows[j].1;
        assert(rows_view(rows@)[j as int].1 == index as int);
        let name = modules[index].name.clone();
        let mut row: Vec<String> = Vec::new();
        row.push(name);
        items.push(row);
        j = j + 1;
    }
    items
}

impl State {
    /// Rebuilds the module rows and the list for the selected tab.
    pub fn handle_tab(&mut self)
        ensures
            shows_tab(*old(self), *final(self)),
    {
        match self.tab {
            Tab::General => {
                self.module_rows = Vec::new();
                self.list = SelectableList::new();
            },
            Tab::NixosModules => {
                let rows = self.flake.module_tree(self.flake.nixos_modules.as_slice());
                proof {
                    lemma_module_tree_within(self.flake.nixos_modules@);
                }
                let items = module_list(&self.flake.nixos_modules, &rows);
                self.module_rows = rows;
                self.list = SelectableList::with_items(items);
            },
            Tab::HomeManagerModules => {
                let rows = self.flake.module_tree(self.flake.home_modules.as_slice());
                proof {
                    lemma_module_tree_within(self.flake.home_modules@);
                }
                let items = module_list(&self.flake.home_modules, &rows);
                self.module_rows = rows;
                self.list = SelectableList::with_items(items);
            },
        }
    }

    /// Changes the tab and rebuilds the tab-dependent state.
    pub fn set_tab(&mut self, tab: Tab)
        ensures
            shows_tab(State { tab, ..*old(self) }, *final(self)),
    {
        self.tab = tab;
        self.handle_tab();
    }

    /// Selects the first row and scrolls the content back to its top.
    pub fn top(&mut self)
        ensures
            *final(self) == with_scroll_reset(with_selection(*old(self), 0)),
    {
        self.list.first();
        if let Some(t) = self.focused_module_tab() {
            self.set_focused_tab(ModuleTabState { scroll_index: 0, ..t });
        }
    }

    /// Selects the last row and scrolls the content back to its top.
    pub fn bottom(&mut self)
        ensures
            *final(self) == with_scroll_reset(
                with_selection(*old(self), spec_last_row(old(self).list.items@.len() as int)),
            ),
    {
        self.list.last();
        if let Some(t) = self.focused_module_tab() {
            self.set_focused_tab(ModuleTabState { scroll_index: 0, ..t });
        }
    }

    /// Scrolls forward by `amount`.
    pub fn next(&mut self, scroll_type: ScrollType, amount: usize)
        ensures
            next_post(*old(self), *final(self), scroll_type, amount),
    {
        match scroll_type {
            ScrollType::Tab => {
                let i = self.tab.index();
                let j = match i.checked_add(amount) {
                    Some(sum) => sum % TAB_COUNT,
                    None => 0,
                };
                self.tab = Tab::from_index(j);
                self.handle_tab();
            },
            ScrollType::Table => {
                if let Some(t) = self.focused_module_tab() {
                    self.set_focused_tab(ModuleTabState { panel: ModulePanel::Content, ..t });
                }
            },
            ScrollType::List => {
                if let Some(t) = self.focused_module_tab() {
                    match t.panel {
                        ModulePanel::Modules => {
                            self.list.next(amount);
                            self.set_focused_tab(ModuleTabState { scroll_index: 0, ..t });
                        },
                        ModulePanel::Content => {
                            let scroll = match t.scroll_index.checked_add(amount) {
                                Some(v) => v,
                                None => usize::MAX,
                            };
                            self.set_focused_tab(ModuleTabState { scroll_index: scroll, ..t });
                        },
                    }
                }
            },
        }
    }

    /// Scrolls back by `amount`.
    pub fn previous(&mut self, scroll_type: ScrollType, amount: usize)
        ensures
            previous_post(*old(self), *final(self), scroll_type, amount),
    {
        match scroll_type {
            ScrollType::Tab => {
                let i = self.tab.index();
                let j = if amount <= i {
                    i - amount
                } else {
                    TAB_COUNT - 1
                };
                self.tab = Tab::from_index(j);
                self.handle_tab();
            },
            ScrollType::Table => {
                if let Some(t) = self.focused_module_tab() {
                    self.set_focused_tab(ModuleTabState { panel: ModulePanel::Modules, ..t });
                }
            },
            ScrollType::List => {
                if let Some(t) = self.focused_module_tab() {
                    match t.panel {
                        ModulePanel::Modules => {
                            self.list.previous(amount);
                            self.set_focused_tab(ModuleTabState { scroll_index: 0, ..t });
                        },
                        ModulePanel::Content => {
                            let scroll = if t.scroll_index < amount {
                                0
                            } else {
                                t.scroll_index - amount
                            };
                            self.set_focused_tab(ModuleTabState { scroll_index: scroll, ..t });
                        },
                    }
                }
            },
        }
    }
}

/// Stepping one tab forward, then one tab back, returns to the first tab;
/// so does stepping back, then forward.
pub proof fn lemma_tab_step_round_trip(t: Tab)
    ensures
        spec_previous_tab(spec_next_tab(t, 1), 1) == t,
        spec_next_tab(spec_previous_tab(t, 1), 1) == t,
{
}

/// Stepping forward one tab as many times as there are tabs returns to the
/// first tab.
pub proof fn lemma_tab_cycle(t: Tab)
    ensures
        spec_next_tab(spec_next_tab(spec_next_tab(t, 1), 1), 1) == t,
{
}

/// The added flags after toggling the module of row `row`: it takes the
/// opposite flag, and so does every module of its subtree.
pub open spec fn toggled_flags(flags: Seq<bool>, rows: Seq<(int, int)>, row: int) -> Seq<bool> {
    let v = !flags[rows[row].1];
    assign_rows(flags.update(rows[row].1, v), rows, row + 1, subtree_end(rows, row), v)
}

/// The selected row names a module of the focused module tab.
pub open spec fn selects_module(s: State) -> bool {
    &&& focused_modules(s) is Some
    &&& s.list.selected matches Some(row)
    &&& row < s.module_rows@.len()
    &&& 0 <= rows_view(s.module_rows@)[row as int].1 < focused_modules(s)->0.len()
}

/// What toggling the selected module does: when the selected row names a
/// module of the focused tab, that module and its subtree take its opposite
/// flag; otherwise nothing changes.
pub open spec fn add_module_post(old: State, new: State) -> bool {
    if selects_module(old) {
        let row = old.list.selected->0 as int;
        let rows = rows_view(old.module_rows@);
        match old.tab {
            Tab::NixosModules => {
                &&& new == (State {
                    flake: Flake { nixos_modules: new.flake.nixos_modules, ..old.flake },
                    ..old
                })
                &&& same_but_added(old.flake.nixos_modules@, new.flake.nixos_modules@)
                &&& added_flags(new.flake.nixos_modules@) == toggled_flags(
                    added_flags(old.flake.nixos_modules@),
                    rows,
                    row,
                )
            },
            _ => {
                &&& new == (State {
                    flake: Flake { home_modules: new.flake.home_modules, ..old.flake },
                    ..old
                })
                &&& same_but_added(old.flake.home_modules@, new.flake.home_modules@)
                &&& added_flags(new.flake.home_modules@) == toggled_flags(
                    added_flags(old.flake.home_modules@),
                    rows,
                    row,
                )
            },
        }
    } else {
        new == old
    }
}

/// Toggles the module of row `row` and gives its subtree the same flag.
fn toggle_subtree(modules: &mut Vec<Module>, rows: &Vec<(usize, usize)>, row: usize)
    requires
        row < rows@.len(),
        0 <= rows_view(rows@)[row as int].1 < old(modules)@.len(),
    ensures
        same_but_added(old(modules)@, final(modules)@),
        added_flags(final(modules)@) == toggled_flags(
            added_flags(old(modules)@),
            rows_view(rows@),
            row as int,
        ),
{
    let ghost rv = rows_view(rows@);
    let ghost m0 = modules@;
    let (depth, index) = rows[row];
    assert(rv[row as int] == (depth as int, index as int));
    let value = !modules[index].added;
    assert(added_flags(m0)[index as int] == modules@[index as int].added);
    set_added(modules, index, value);
    let ghost flags1 = added_flags(modules@);
    let n = rows.len();
    let mut child = row + 1;
    proof {
        lemma_subtree_end_from_bounds(rv, row as int, row + 1);
    }
    while child < rows.len() && rows[child].0 > depth
        invariant
            rv == rows_view(rows@),
            row < child <= rows@.len(),
            depth as int == rv[row as int].0,
            same_but_added(m0, modules@),
            subtree_end(rv, row as int) == subtree_end_from(rv, row as int, child as int),
            assign_rows(flags1, rv, row + 1, subtree_end(rv, row as int), value) == assign_rows(
                added_flags(modules@),
                rv,
                child as int,
                subtree_end(rv, row as int),
                value,
            ),
        decreases rows@.len() - child,
    {
        let target = rows[child].1;
        assert(rv[child as int].1 == target as int);
        proof {
            lemma_subtree_end_from_bounds(rv, row as int, child + 1);
        }
        if target < modules.len() {
            set_added(modules, target, value);
        }
        child = child + 1;
    }
}

/// Every module of rows `c..end` carries `value` after the rows are set to
/// it, and so does any module that carried it before.
pub proof fn lemma_assign_rows_value(
    flags: Seq<bool>,
    rows: Seq<(int, int)>,
    c: int,
    end: int,
    value: bool,
    k: int,
)
    requires
        0 <= c,
        0 <= k < flags.len(),
        flags[k] == value || exists|j: int| c <= j < end && 0 <= j < rows.len() && rows[j].1 == k,
    ensures
        assign_rows(flags, rows, c, end, value)[k] == value,
        assign_rows(flags, rows, c, end, value).len() == flags.len(),
    decreases end - c,
{
    if c >= end || c < 0 || c >= rows.len() {
        if flags[k] != value {
            let j = choose|j: int| c <= j < end && 0 <= j < rows.len() && rows[j].1 == k;
            assert(false);
        }
    } else {
        let next = if 0 <= rows[c].1 < flags.len() {
            flags.update(rows[c].1, value)
        } else {
            flags
        };
        if rows[c].1 == k {
            assert(next[k] == value);
        } else if flags[k] != value {
            let j = choose|j: int| c <= j < end && 0 <= j < rows.len() && rows[j].1 == k;
            assert(j != c);
        }
        lemma_assign_rows_value(next, rows, c + 1, end, value, k);
    }
}

/// Toggling a module gives it and every module of its subtree the same
/// flag: the opposite of the flag the module had.
pub proof fn lemma_toggle_gives_subtree_flag(flags: Seq<bool>, rows: Seq<(int, int)>, row: int, j: int)
    requires
        0 <= row < rows.len(),
        0 <= rows[row].1 < flags.len(),
        row < j < subtree_end(rows, row),
        j < rows.len(),
        0 <= rows[j].1 < flags.len(),
    ensures
        toggled_flags(flags, rows, row)[rows[row].1] == !flags[rows[row].1],
        toggled_flags(flags, rows, row)[rows[j].1] == !flags[rows[row].1],
{
    let v = !flags[rows[row].1];
    let start = flags.update(rows[row].1, v);
    lemma_assign_rows_value(start, rows, row + 1, subtree_end(rows, row), v, rows[row].1);
    lemma_assign_rows_value(start, rows, row + 1, subtree_end(rows, row), v, rows[j].1);
}

/// Setting rows `c..end` leaves alone every module that none of them names.
proof fn lemma_assign_rows_elsewhere(
    flags: Seq<bool>,
    rows: Seq<(int, int)>,
    c: int,
    end: int,
    value: bool,
    k: int,
)
    requires
        0 <= c,
        0 <= k < flags.len(),
        forall|j: int| c <= j < end && j < rows.len() ==> #[trigger] rows[j].1 != k,
    ensures
        assign_rows(flags, rows, c, end, value)[k] == flags[k],
    decreases end - c,
{
    if !(c >= end || c < 0 || c >= rows.len()) {
        let next = if 0 <= rows[c].1 < flags.len() {
            flags.update(rows[c].1, value)
        } else {
            flags
        };
        assert(rows[c].1 != k);
        lemma_assign_rows_elsewhere(next, rows, c + 1, end, value, k);
    }
}

/// Toggling a module changes no flag but its own and those of the modules
/// of its subtree.
pub proof fn lemma_toggle_keeps_others(flags: Seq<bool>, rows: Seq<(int, int)>, row: int, k: int)
    requires
        0 <= row < rows.len(),
        0 <= rows[row].1 < flags.len(),
        0 <= k < flags.len(),
        rows[row].1 != k,
        forall|j: int| row < j < subtree_end(rows, row) && j < rows.len() ==> #[trigger] rows[j].1 != k,
    ensures
        toggled_flags(flags, rows, row)[k] == flags[k],
{
    let v = !flags[rows[row].1];
    let start = flags.update(rows[row].1, v);
    lemma_assign_rows_elsewhere(start, rows, row + 1, subtree_end(rows, row), v, k);
}

/// Module `k` is the module of row `row` or of a row of its subtree.
pub open spec fn in_toggled_subtree(rows: Seq<(int, int)>, row: int, k: int) -> bool {
    rows[row].1 == k || exists|j: int|
        row < j < subtree_end(rows, row) && j < rows.len() && #[trigger] rows[j].1 == k
}

/// Toggling the selected module, module by module: the selected module and
/// every module of its subtree take the opposite of the selected module's
/// old flag; every other module of the tab keeps its flag, and nothing but
/// the flags changes.
pub proof fn lemma_add_module_per_module(old: State, new: State, k: int)
    requires
        add_module_post(old, new),
        selects_module(old),
        0 <= k < focused_modules(old)->0.len(),
    ensures
        ({
            let row = old.list.selected->0 as int;
            let rows = rows_view(old.module_rows@);
            let before = focused_modules(old)->0;
            let after = focused_modules(new)->0;
            &&& focused_modules(new) is Some
            &&& same_but_added(before, after)
            &&& in_toggled_subtree(rows, row, k) ==> after[k].added == !before[rows[row].1].added
            &&& !in_toggled_subtree(rows, row, k) ==> after[k].added == before[k].added
        }),
{
    let row = old.list.selected->0 as int;
    let rows = rows_view(old.module_rows@);
    let before = focused_modules(old)->0;
    let after = focused_modules(new)->0;
    let flags = added_flags(before);
    assert(new.tab == old.tab);
    assert(added_flags(after) == toggled_flags(flags, rows, row));
    assert(after[k].added == added_flags(after)[k]);
    assert(flags[rows[row].1] == before[rows[row].1].added);
    assert(flags[k] == before[k].added);
    if in_toggled_subtree(rows, row, k) {
        if rows[row].1 == k {
            let v = !flags[rows[row].1];
            let start = flags.update(rows[row].1, v);
            lemma_assign_rows_value(start, rows, row + 1, subtree_end(rows, row), v, k);
        } else {
            let j = choose|j: int|
                row < j < subtree_end(rows, row) && j < rows.len() && #[trigger] rows[j].1 == k;
            lemma_toggle_gives_subtree_flag(flags, rows, row, j);
        }
    } else {
        lemma_toggle_keeps_others(flags, rows, row, k);
    }
}

impl State {
    /// Toggles the module of the selected row in the focused module tab, and
    /// gives every module of its subtree the module's new flag.
    pub fn add_module(&mut self)
        ensures
            add_module_post(*old(self), *final(self)),
    {
        let row = match self.list.selected {
            Some(row) => row,
            None => {
                return;
            },
        };
        if row >= self.module_rows.len() {
            return;
        }
        let index = self.module_rows[row].1;
        assert(rows_view(self.module_rows@)[row as int].1 == index as int);
        match self.tab {
            Tab::General => {},
            Tab::NixosModules => {
                if index < self.flake.nixos_modules.len() {
                    toggle_subtree(&mut self.flake.nixos_modules, &self.module_rows, row);
                }
            },
            Tab::HomeManagerModules => {
                if index < self.flake.home_modules.len() {
                    toggle_subtree(&mut self.flake.home_modules, &self.module_rows, row);
                }
            },
        }
    }
}

/// Some module of the list is added.
pub open spec fn any_added(ms: Seq<Module>) -> bool {
    exists|i: int| 0 <= i < ms.len() && #[trigger] ms[i].added
}

/// The status shown when an export is asked for with nothing added.
pub open spec fn no_modules_message() -> Seq<char> {
    "no modules added"@
}

/// What asking for an export does: with some Nixos module added, prompt
/// for the hostname in an empty text field; otherwise say that no module is
/// added.
pub open spec fn export_post(old: State, new: State, action: Action) -> bool {
    if any_added(old.flake.nixos_modules@) {
        &&& new == (State { export_stage: ExportStage::Hostname, input_mode: true, ..old })
        &&& action is ClearInput
    } else {
        &&& new == (State { status: new.status, ..old })
        &&& new.status matches Some(m) && m@ == no_modules_message()
        &&& action is Nothing
    }
}

/// The request an export started from the output directory prompt makes:
/// the source, the confirmed hostname, the typed directory (trimmed, with
/// `~/` expanded) and the added Nixos modules.
pub open spec fn export_request_for(old: State, hostname: String, value: Seq<char>, req: ExportRequest) -> bool {
    &&& req.source == old.flake.source
    &&& req.hostname == hostname
    &&& req.output_dir@ == spec_expand_tilde(trimmed(value), opt_view(old.home))
    &&& req.modules@.map_values(|e: ExportModule| export_view(e)) == selection_upto(
        old.flake.nixos_modules@,
        old.flake.nixos_modules@.len() as int,
    )
}

/// What a command of the text field does, given the text it holds; the
/// module rows and the list are rebuilt afterwards (except on a restart).
pub open spec fn input_post(
    old: State,
    new: State,
    command: InputCommand,
    value: Seq<char>,
    action: Action,
) -> bool {
    match command {
        InputCommand::Handle(e) => shows_tab(old, new) && action == Action::EditInput(e),
        InputCommand::Enter => shows_tab(old, new) && action is Nothing,
        InputCommand::Resume(e) => if old.tab == Tab::General {
            new == old && action is Restart
        } else if value.len() > 0 {
            shows_tab(State { input_mode: true, ..old }, new) && action == Action::EditInput(e)
        } else {
            shows_tab(old, new) && action is Nothing
        },
        InputCommand::Exit => {
            &&& shows_tab(State { input_mode: false, export_stage: ExportStage::Idle, ..old }, new)
            &&& action is ClearInput
        },
        InputCommand::Confirm => match old.export_stage {
            ExportStage::Hostname => if trimmed(value).len() == 0 {
                shows_tab(old, new) && action is Nothing
            } else {
                &&& new.export_stage matches ExportStage::OutputDir { hostname } && hostname@
                    == trimmed(value)
                &&& shows_tab(State { export_stage: new.export_stage, ..old }, new)
                &&& action is ClearInput
            },
            ExportStage::OutputDir { hostname } => if trimmed(value).len() == 0 {
                shows_tab(old, new) && action is Nothing
            } else {
                &&& shows_tab(
                    State { export_stage: ExportStage::Idle, input_mode: false, ..old },
                    new,
                )
                &&& action matches Action::Export(req) && export_request_for(old, hostname, value, req)
            },
            _ => shows_tab(State { input_mode: false, ..old }, new) && action is Nothing,
        },
    }
}

impl State {
    /// Starts the export flow when some Nixos module is added; otherwise
    /// says that none is.
    pub fn export(&mut self) -> (action: Action)
        ensures
            export_post(*old(self), *final(self), action),
    {
        let mut i: usize = 0;
        while i < self.flake.nixos_modules.len()
            invariant
                *self == *old(self),
                i <= self.flake.nixos_modules@.len(),
                forall|j: int| 0 <= j < i ==> !(#[trigger] self.flake.nixos_modules@[j]).added,
            decreases self.flake.nixos_modules@.len() - i,
        {
            if self.flake.nixos_modules[i].added {
                self.export_stage = ExportStage::Hostname;
                self.input_mode = true;
                return Action::ClearInput;
            }
            i = i + 1;
        }
        proof {
            reveal_strlit("no modules added");
        }
        self.status = Some("no modules added".to_owned());
        Action::Nothing
    }

    /// Opens the project's page from the General tab.
    pub fn open_repo(&self) -> (action: Action)
        ensures
            action == (if self.tab == Tab::General {
                Action::OpenRepo
            } else {
                Action::Nothing
            }),
    {
        if self.tab == Tab::General {
            Action::OpenRepo
        } else {
            Action::Nothing
        }
    }

    /// Handles a command of the text field, which holds `input_value`, then
    /// rebuilds the module rows and the list.
    pub fn input(&mut self, command: InputCommand, input_value: &str) -> (action: Action)
        ensures
            input_post(*old(self), *final(self), command, input_value@, action),
    {
        let action = match command {
            InputCommand::Handle(event) => Action::EditInput(event),
            InputCommand::Enter => Action::Nothing,
            InputCommand::Resume(event) => {
                if self.tab == Tab::General {
                    return Action::Restart;
                }
                if !input_value.is_empty() {
                    self.input_mode = true;
                    Action::EditInput(event)
                } else {
                    Action::Nothing
                }
            },
            InputCommand::Exit => {
                self.input_mode = false;
                self.export_stage = ExportStage::Idle;
                Action::ClearInput
            },
            InputCommand::Confirm => self.confirm(input_value),
        };
        self.handle_tab();
        action
    }

    /// Confirms the prompt of the current export stage with `input_value`.
    fn confirm(&mut self, input_value: &str) -> (action: Action)
        ensures
            match old(self).export_stage {
                ExportStage::Hostname => if trimmed(input_value@).len() == 0 {
                    *final(self) == *old(self) && action is Nothing
                } else {
                    &&& final(self).export_stage matches ExportStage::OutputDir { hostname }
                        && hostname@ == trimmed(input_value@)
                    &&& *final(self) == (State {
                        export_stage: final(self).export_stage,
                        ..*old(self)
                    })
                    &&& action is ClearInput
                },
                ExportStage::OutputDir { hostname } => if trimmed(input_value@).len() == 0 {
                    *final(self) == *old(self) && action is Nothing
                } else {
                    &&& *final(self) == (State {
                        export_stage: ExportStage::Idle,
                        input_mode: false,
                        ..*old(self)
                    })
                    &&& action matches Action::Export(req) && export_request_for(
                        *old(self),
                        hostname,
                        input_value@,
                        req,
                    )
                },
                _ => *final(self) == (State { input_mode: false, ..*old(self) })
                    && action is Nothing,
            },
    {
        let value = trim_chars(&chars_of(input_value));
        let mut stage = ExportStage::Idle;
        core::mem::swap(&mut stage, &mut self.export_stage);
        match stage {
            ExportStage::Hostname => {
                if value.len() == 0 {
                    self.export_stage = ExportStage::Hostname;
                    Action::Nothing
                } else {
                    self.export_stage = ExportStage::OutputDir { hostname: string_of(&value) };
                    Action::ClearInput
                }
            },
            ExportStage::OutputDir { hostname } => {
                if value.len() == 0 {
                    self.export_stage = ExportStage::OutputDir { hostname };
                    Action::Nothing
                } else {
                    let home: Option<&str> = match &self.home {
                        Some(h) => Some(h.as_str()),
                        None => None,
                    };
                    let typed = string_of(&value);
                    let output_dir = expand_tilde(typed.as_str(), home);
                    let modules = self.flake.export_selection(self.flake.nixos_modules.as_slice());
                    let request = ExportRequest {
                        source: self.flake.source.clone(),
                        hostname,
                        output_dir,
                        modules,
                    };
                    self.input_mode = false;
                    Action::Export(request)
                }
            },
            other => {
                self.export_stage = other;
                self.input_mode = false;
                Action::Nothing
            },
        }
    }

    /// Records the outcome of the export that an [`Action::Export`] asked
    /// for: the report, or the error message.
    pub fn finish_export(&mut self, outcome: Result<ExportReport, String>)
        ensures
            *final(self) == (State { export_stage: ExportStage::Done(outcome), ..*old(self) }),
    {
        self.export_stage = ExportStage::Done(outcome);
    }
}

/// What running `command` does, given the text the text field holds: a
/// finished export's report is dismissed by any command and nothing else
/// happens; otherwise the status clears and the command takes effect.
pub open spec fn run_post(old: State, new: State, command: Command, value: Seq<char>, action: Action) -> bool {
    if old.export_stage is Done {
        new == (State { export_stage: ExportStage::Idle, ..old }) && action is Nothing
    } else {
        let base = State { status: None, ..old };
        match command {
            Command::Input(c) => input_post(base, new, c, value, action),
            Command::AddModule => add_module_post(base, new) && action is Nothing,
            Command::OpenRepo => new == base && action == (if base.tab == Tab::General {
                Action::OpenRepo
            } else {
                Action::Nothing
            }),
            Command::Next(t, amount) => next_post(base, new, t, amount) && action is Nothing,
            Command::Previous(t, amount) => previous_post(base, new, t, amount) && action is Nothing,
            Command::Top => new == with_scroll_reset(with_selection(base, 0)) && action is Nothing,
            Command::Bottom => new == with_scroll_reset(
                with_selection(base, spec_last_row(base.list.items@.len() as int)),
            ) && action is Nothing,
            Command::Exit => new == (State { running: false, ..base }) && action is Nothing,
            Command::Nothing => new == base && action is Nothing,
            Command::Export => export_post(base, new, action),
        }
    }
}

/// The help bar of a tab: each entry a key label and what the key does.
pub open spec fn help_entries(k: Keybindings, tab: Tab) -> Seq<(Seq<char>, Seq<char>)> {
    match tab {
        Tab::General => seq![
            (binding_label(k.open_repo), "Open docs"@),
            (binding_label(k.tab_next), "Next"@),
            (binding_label(k.tab_previous), "Previous"@),
            (binding_label(k.quit), "Quit"@),
        ],
        _ => seq![
            (binding_label(k.add_module), "Add module"@),
            (binding_label(k.export), "Export"@),
            (
                binding_label(k.content_scroll_up) + "/"@ + binding_label(k.content_scroll_down),
                "Focus panel"@,
            ),
            (binding_label(k.list_next) + "/"@ + binding_label(k.list_previous), "Scroll"@),
            (binding_label(k.tab_next), "Next"@),
            (binding_label(k.tab_previous), "Previous"@),
            (binding_label(k.quit), "Quit"@),
        ],
    }
}

/// The view of a help-bar entry.
pub open spec fn entry_view(e: (String, &'static str)) -> (Seq<char>, Seq<char>) {
    (e.0@, e.1@)
}

/// Two labels joined by a slash.
fn slash_pair(a: String, b: String) -> (r: String)
    ensures
        r@ == a@ + "/"@ + b@,
{
    let mut r = a;
    proof {
        reveal_strlit("/");
    }
    r.append("/");
    r.append(b.as_str());
    r
}

impl State {
    /// Constructs the state of a freshly started interface on the General
    /// tab; `home` is the home directory, when it is known.
    pub fn new(flake: Flake, keybindings: Keybindings, home: Option<String>) -> (s: State)
        ensures
            s.running,
            s.flake == flake,
            s.keybindings == keybindings,
            !s.strings_loaded,
            s.tab == Tab::General,
            s.nixos_tab == (ModuleTabState { panel: ModulePanel::Modules, scroll_index: 0 }),
            s.home_tab == (ModuleTabState { panel: ModulePanel::Modules, scroll_index: 0 }),
            s.module_rows@.len() == 0,
            s.list.items@.len() == 0,
            s.list.selected is None,
            s.available_option_scroll_index == 0,
            s.selected_option_scroll_index == 0,
            !s.input_mode,
            s.status is None,
            s.export_stage is Idle,
            s.home == home,
            !s.logo.is_rendered,
    {
        let mut state = State {
            running: true,
            flake,
            keybindings,
            strings_loaded: false,
            tab: Tab::General,
            nixos_tab: ModuleTabState::default(),
            home_tab: ModuleTabState::default(),
            module_rows: Vec::new(),
            list: SelectableList::new(),
            available_option_scroll_index: 0,
            selected_option_scroll_index: 0,
            input_mode: false,
            status: None,
            export_stage: ExportStage::Idle,
            home,
            logo: Logo::default(),
        };
        state.handle_tab();
        state
    }

    /// Runs a command, given the text the text field holds, and returns what
    /// the caller must carry out.
    pub fn run_command(&mut self, command: Command, input_value: &str) -> (action: Action)
        ensures
            run_post(*old(self), *final(self), command, input_value@, action),
    {
        if let ExportStage::Done(_) = self.export_stage {
            self.export_stage = ExportStage::Idle;
            return Action::Nothing;
        }
        self.status = None;
        match command {
            Command::Input(c) => self.input(c, input_value),
            Command::AddModule => {
                self.add_module();
                Action::Nothing
            },
            Command::OpenRepo => self.open_repo(),
            Command::Next(t, amount) => {
                self.next(t, amount);
                Action::Nothing
            },
            Command::Previous(t, amount) => {
                self.previous(t, amount);
                Action::Nothing
            },
            Command::Top => {
                self.top();
                Action::Nothing
            },
            Command::Bottom => {
                self.bottom();
                Action::Nothing
            },
            Command::Exit => {
                self.exit();
                Action::Nothing
            },
            Command::Nothing => Action::Nothing,
            Command::Export => self.export(),
        }
    }

    /// Returns the key bindings shown in the help bar.
    pub fn get_key_bindings(&self) -> (r: Vec<(String, &'static str)>)
        ensures
            r@.map_values(|e: (String, &'static str)| entry_view(e)) == help_entries(
                self.keybindings,
                self.tab,
            ),
    {
        let keys = &self.keybindings;
        proof {
            reveal_strlit("Open docs");
            reveal_strlit("Next");
            reveal_strlit("Previous");
            reveal_strlit("Quit");
            reveal_strlit("Add module");
            reveal_strlit("Export");
            reveal_strlit("Focus panel");
            reveal_strlit("Scroll");
        }
        let mut r: Vec<(String, &'static str)> = Vec::new();
        match self.tab {
            Tab::General => {
                r.push((keys.open_repo.label(), "Open docs"));
                r.push((keys.tab_next.label(), "Next"));
                r.push((keys.tab_previous.label(), "Previous"));
                r.push((keys.quit.label(), "Quit"));
            },
            _ => {
                r.push((keys.add_module.label(), "Add module"));
                r.push((keys.export.label(), "Export"));
                r.push(
                    (
                        slash_pair(keys.content_scroll_up.label(), keys.content_scroll_down.label()),
                        "Focus panel",
                    ),
                );
                r.push((slash_pair(keys.list_next.label(), keys.list_previous.label()), "Scroll"));
                r.push((keys.tab_next.label(), "Next"));
                r.push((keys.tab_previous.label(), "Previous"));
                r.push((keys.quit.label(), "Quit"));
            },
        }
        assert(r@.map_values(|e: (String, &'static str)| entry_view(e)) =~= help_entries(
            self.keybindings,
            self.tab,
        ));
        r
    }
}

} // verus!
