//! Commands the terminal interface runs, and the keys that trigger them.

use vstd::prelude::*;

use crate::config::keybinding::{binding_matches, KeyCode, KeyEvent, KeyModifiers, Keybindings};

verus! {

/// Possible scroll areas.
#[derive(Clone, Copy, Debug, PartialEq, Eq, Structural)]
pub enum ScrollType {
    /// Main application tabs.
    Tab,
    /// Inner tables.
    Table,
    /// Main list.
    List,
}

/// Input mode command.
#[derive(Clone, Copy, Debug, PartialEq, Eq, Structural)]
pub enum InputCommand {
    /// Handle input.
    Handle(KeyEvent),
    /// Enter input mode.
    Enter,
    /// Confirm input.
    Confirm,
    /// Resume input.
    Resume(KeyEvent),
    /// Exit input mode
    Exit,
}

/// Application command.
#[derive(Clone, Copy, Debug, PartialEq, Eq, Structural)]
pub enum Command {
    /// Open repository URL.
    OpenRepo,
    /// Add module.
    AddModule,
    /// Next.
    Next(ScrollType, usize),
    /// Previous.
    Previous(ScrollType, usize),
    /// Go to top.
    Top,
    /// Go to bottom.
    Bottom,
    /// Input command.
    Input(InputCommand),
    /// Exit application.
    Exit,
    /// Do nothing.
    Nothing,
    /// Start the export flow.
    Export,
}

/// What a mouse event does, as far as commands are concerned.
#[derive(Clone, Copy, Debug, PartialEq, Eq, Structural)]
pub enum MouseKind {
    /// Wheel scrolled down.
    ScrollDown,
    /// Wheel scrolled up.
    ScrollUp,
    /// Anything else.
    Other,
}

/// The command bound to a key event.
pub open spec fn spec_command_for(k: Keybindings, e: KeyEvent) -> Command {
    if e.modifiers.control && (e.code == KeyCode::Char('c') || e.code == KeyCode::Char('C')) {
        Command::Exit
    } else if e.code == KeyCode::Backspace {
        Command::Input(InputCommand::Resume(e))
    } else if binding_matches(k.quit.0@, e) {
        Command::Exit
    } else if binding_matches(k.list_next.0@, e) {
        Command::Next(ScrollType::List, 1)
    } else if binding_matches(k.list_previous.0@, e) {
        Command::Previous(ScrollType::List, 1)
    } else if binding_matches(k.list_page_next.0@, e) {
        Command::Next(ScrollType::List, 5)
    } else if binding_matches(k.list_page_previous.0@, e) {
        Command::Previous(ScrollType::List, 5)
    } else if binding_matches(k.content_scroll_down.0@, e) {
        Command::Next(ScrollType::Table, 1)
    } else if binding_matches(k.content_scroll_up.0@, e) {
        Command::Previous(ScrollType::Table, 1)
    } else if binding_matches(k.tab_next.0@, e) {
        Command::Next(ScrollType::Tab, 1)
    } else if binding_matches(k.tab_previous.0@, e) {
        Command::Previous(ScrollType::Tab, 1)
    } else if binding_matches(k.top.0@, e) {
        Command::Top
    } else if binding_matches(k.bottom.0@, e) {
        Command::Bottom
    } else if binding_matches(k.search.0@, e) {
        Command::Input(InputCommand::Enter)
    } else if binding_matches(k.add_module.0@, e) {
        Command::AddModule
    } else if binding_matches(k.open_repo.0@, e) {
        Command::OpenRepo
    } else if binding_matches(k.export.0@, e) {
        Command::Export
    } else {
        Command::Nothing
    }
}

impl Keybindings {
    /// Returns the command bound to a key event.
    ///
    /// `ctrl+c` (exit) and `backspace` (resume input) are hardcoded so no
    /// config can shadow them; the bindings are then tried in a fixed order.
    pub fn command_for(&self, event: &KeyEvent) -> (c: Command)
        ensures
            c == spec_command_for(*self, *event),
    {
        if event.modifiers.control && (event.code == KeyCode::Char('c') || event.code
            == KeyCode::Char('C')) {
            return Command::Exit;
        }
        if event.code == KeyCode::Backspace {
            return Command::Input(InputCommand::Resume(*event));
        }
        if self.quit.matches(event) {
            Command::Exit
        } else if self.list_next.matches(event) {
            Command::Next(ScrollType::List, 1)
        } else if self.list_previous.matches(event) {
            Command::Previous(ScrollType::List, 1)
        } else if self.list_page_next.matches(event) {
            Command::Next(ScrollType::List, 5)
        } else if self.list_page_previous.matches(event) {
            Command::Previous(ScrollType::List, 5)
        } else if self.content_scroll_down.matches(event) {
            Command::Next(ScrollType::Table, 1)
        } else if self.content_scroll_up.matches(event) {
            Command::Previous(ScrollType::Table, 1)
        } else if self.tab_next.matches(event) {
            Command::Next(ScrollType::Tab, 1)
        } else if self.tab_previous.matches(event) {
            Command::Previous(ScrollType::Tab, 1)
        } else if self.top.matches(event) {
            Command::Top
        } else if self.bottom.matches(event) {
            Command::Bottom
        } else if self.search.matches(event) {
            Command::Input(InputCommand::Enter)
        } else if self.add_module.matches(event) {
            Command::AddModule
        } else if self.open_repo.matches(event) {
            Command::OpenRepo
        } else if self.export.matches(event) {
            Command::Export
        } else {
            Command::Nothing
        }
    }
}

impl Command {
    /// The command a mouse event runs: the wheel scrolls the list.
    pub fn from_mouse(kind: MouseKind) -> (c: Command)
        ensures
            c == (match kind {
                MouseKind::ScrollDown => Command::Next(ScrollType::List, 1),
                MouseKind::ScrollUp => Command::Previous(ScrollType::List, 1),
                MouseKind::Other => Command::Nothing,
            }),
    {
        match kind {
            MouseKind::ScrollDown => Command::Next(ScrollType::List, 1),
            MouseKind::ScrollUp => Command::Previous(ScrollType::List, 1),
            MouseKind::Other => Command::Nothing,
        }
    }
}

impl InputCommand {
    /// Parses a key event in input mode, given the current input text: `Esc`,
    /// or `Backspace` on an empty input, leaves input mode; `Enter` confirms;
    /// anything else is handed to the input.
    pub fn parse(key_event: KeyEvent, input_value: &str) -> (c: InputCommand)
        ensures
            c == (if key_event.code == KeyCode::Esc || (key_event.code == KeyCode::Backspace
                && input_value@.len() == 0) {
                InputCommand::Exit
            } else if key_event.code == KeyCode::Enter {
                InputCommand::Confirm
            } else {
                InputCommand::Handle(key_event)
            }),
    {
        if key_event.code == KeyCode::Esc || (key_event.code == KeyCode::Backspace
            && input_value.is_empty()) {
            InputCommand::Exit
        } else if key_event.code == KeyCode::Enter {
            InputCommand::Confirm
        } else {
            InputCommand::Handle(key_event)
        }
    }
}

} // verus!

verus! {

/// `ctrl+c` exits whatever the bindings say, and backspace always hands
/// the key back to the text field.
pub proof fn lemma_escape_hatches(k: Keybindings, modifiers: KeyModifiers)
    ensures
        modifiers.control ==> spec_command_for(
            k,
            KeyEvent { code: KeyCode::Char('c'), modifiers },
        ) == Command::Exit,
        spec_command_for(k, KeyEvent { code: KeyCode::Backspace, modifiers }) == Command::Input(
            InputCommand::Resume(KeyEvent { code: KeyCode::Backspace, modifiers }),
        ),
{
}

} // verus!
