//! Configurable key bindings.

use vstd::prelude::*;

use crate::text::{chars_of, is_word, push_char, split_chars, split_on, string_of, trim_chars, trimmed};

verus! {

/// A key, as far as bindings tell keys apart.
#[derive(Clone, Copy, Debug, PartialEq, Eq, Structural)]
pub enum KeyCode {
    /// Escape.
    Esc,
    /// Enter / return.
    Enter,
    /// Tab.
    Tab,
    /// Shift+Tab.
    BackTab,
    /// Arrow up.
    Up,
    /// Arrow down.
    Down,
    /// Arrow left.
    Left,
    /// Arrow right.
    Right,
    /// Home.
    Home,
    /// End.
    End,
    /// Page up.
    PageUp,
    /// Page down.
    PageDown,
    /// Backspace.
    Backspace,
    /// Delete.
    Delete,
    /// Insert.
    Insert,
    /// A function key.
    F(u8),
    /// A character key.
    Char(char),
    /// No key.
    Null,
    /// Any other key.
    Other,
}

/// Modifier keys held with a key.
#[derive(Clone, Copy, Debug, PartialEq, Eq, Structural)]
pub struct KeyModifiers {
    /// Control.
    pub control: bool,
    /// Alt.
    pub alt: bool,
    /// Shift.
    pub shift: bool,
}

impl KeyModifiers {
    /// No modifier held.
    pub fn none() -> (m: KeyModifiers)
        ensures
            !m.control && !m.alt && !m.shift,
    {
        KeyModifiers { control: false, alt: false, shift: false }
    }

    /// Only control held.
    pub fn control() -> (m: KeyModifiers)
        ensures
            m.control && !m.alt && !m.shift,
    {
        KeyModifiers { control: true, alt: false, shift: false }
    }
}

/// A key press: a key and the modifiers held.
#[derive(Clone, Copy, Debug, PartialEq, Eq, Structural)]
pub struct KeyEvent {
    /// Key code.
    pub code: KeyCode,
    /// Modifier keys held.
    pub modifiers: KeyModifiers,
}

impl KeyEvent {
    /// A key press without modifiers.
    pub fn plain(code: KeyCode) -> (e: KeyEvent)
        ensures
            e.code == code,
            e.modifiers == (KeyModifiers { control: false, alt: false, shift: false }),
    {
        KeyEvent { code, modifiers: KeyModifiers::none() }
    }

    /// A key press with modifiers.
    pub fn new(code: KeyCode, modifiers: KeyModifiers) -> (e: KeyEvent)
        ensures
            e.code == code,
            e.modifiers == modifiers,
    {
        KeyEvent { code, modifiers }
    }
}

/// A single key chord, e.g. `q`, `esc` or `ctrl+d`.
#[derive(Clone, Copy, Debug, PartialEq, Eq, Structural)]
pub struct KeyPattern {
    /// Key code.
    pub code: KeyCode,
    /// Modifier keys that must be held.
    pub modifiers: KeyModifiers,
}

/// One or more key chords bound to a single action.
#[derive(Clone, Debug, Default, PartialEq, Eq)]
pub struct Binding(pub Vec<KeyPattern>);

/// ASCII lowercase of a character.
pub open spec fn ascii_lower(c: char) -> char {
    if 'A' <= c && c <= 'Z' {
        ((c as u32) + 32) as char
    } else {
        c
    }
}

/// ASCII lowercase of a character.
pub fn to_ascii_lower(c: char) -> (r: char)
    ensures
        r == ascii_lower(c),
{
    if 'A' <= c && c <= 'Z' {
        let n = (c as u8) + 32;
        (n as char)
    } else {
        c
    }
}

/// A key event made comparable: SHIFT is dropped for character keys and
/// `BackTab` (terminals report it), and characters are lowercased so
/// bindings are case-insensitive.
pub open spec fn normalized(code: KeyCode, modifiers: KeyModifiers) -> (KeyCode, KeyModifiers) {
    match code {
        KeyCode::Char(c) => (KeyCode::Char(ascii_lower(c)), KeyModifiers { shift: false, ..modifiers }),
        KeyCode::BackTab => (code, KeyModifiers { shift: false, ..modifiers }),
        _ => (code, modifiers),
    }
}

/// Normalizes a key event for comparison (see [`normalized`]).
pub fn normalize(code: KeyCode, modifiers: KeyModifiers) -> (r: (KeyCode, KeyModifiers))
    ensures
        r == normalized(code, modifiers),
{
    match code {
        KeyCode::Char(c) => (
            KeyCode::Char(to_ascii_lower(c)),
            KeyModifiers { control: modifiers.control, alt: modifiers.alt, shift: false },
        ),
        KeyCode::BackTab => (
            code,
            KeyModifiers { control: modifiers.control, alt: modifiers.alt, shift: false },
        ),
        _ => (code, modifiers),
    }
}

/// Whether the binding has a chord matching the key event once both are
/// normalized.
pub open spec fn binding_matches(patterns: Seq<KeyPattern>, event: KeyEvent) -> bool {
    exists|i: int|
        0 <= i < patterns.len() && #[trigger] normalized(patterns[i].code, patterns[i].modifiers)
            == normalized(event.code, event.modifiers)
}

/// Decimal digits of a byte.
pub open spec fn decimal(n: u8) -> Seq<char> {
    let d = |x: int| (x + 48) as char;
    let v = n as int;
    if v < 10 {
        seq![d(v)]
    } else if v < 100 {
        seq![d(v / 10), d(v % 10)]
    } else {
        seq![d(v / 100), d((v / 10) % 10), d(v % 10)]
    }
}

/// The help-bar text of a key.
pub open spec fn code_label(code: KeyCode) -> Seq<char> {
    match code {
        KeyCode::Esc => "Esc"@,
        KeyCode::Enter => "⏎"@,
        KeyCode::Tab => "Tab"@,
        KeyCode::BackTab => "⇧+Tab"@,
        KeyCode::Up => "↑"@,
        KeyCode::Down => "↓"@,
        KeyCode::Left => "←"@,
        KeyCode::Right => "→"@,
        KeyCode::Home => "Home"@,
        KeyCode::End => "End"@,
        KeyCode::PageUp => "PgUp"@,
        KeyCode::PageDown => "PgDn"@,
        KeyCode::Backspace => "⌫"@,
        KeyCode::Delete => "Del"@,
        KeyCode::Insert => "Insert"@,
        KeyCode::F(n) => "F("@ + decimal(n) + ")"@,
        KeyCode::Char(c) => if c == ' ' {
            "Space"@
        } else {
            seq![c]
        },
        KeyCode::Null => "Null"@,
        KeyCode::Other => "Other"@,
    }
}

/// The help-bar text of a chord: held modifiers, then the key.
pub open spec fn pattern_label(p: KeyPattern) -> Seq<char> {
    (if p.modifiers.control {
        "Ctrl+"@
    } else {
        Seq::empty()
    }) + (if p.modifiers.alt {
        "Alt+"@
    } else {
        Seq::empty()
    }) + (if p.modifiers.shift {
        "⇧+"@
    } else {
        Seq::empty()
    }) + code_label(p.code)
}

/// Decimal digits of a byte.
fn decimal_string(n: u8) -> (r: String)
    ensures
        r@ == decimal(n),
{
    let mut r = String::new();
    if n >= 100 {
        push_char(&mut r, ((n / 100 + 48) as u8) as char);
    }
    if n >= 10 {
        push_char(&mut r, (((n / 10) % 10 + 48) as u8) as char);
    }
    push_char(&mut r, ((n % 10 + 48) as u8) as char);
    r
}

impl KeyPattern {
    /// The chord as shown in the help bar, e.g. `Ctrl+d`, `⏎` or `Space`.
    pub fn label_text(&self) -> (r: String)
        ensures
            r@ == pattern_label(*self),
    {
        let mut r = String::new();
        if self.modifiers.control {
            r.append("Ctrl+");
        }
        if self.modifiers.alt {
            r.append("Alt+");
        }
        if self.modifiers.shift {
            r.append("⇧+");
        }
        match self.code {
            KeyCode::Esc => r.append("Esc"),
            KeyCode::Enter => r.append("⏎"),
            KeyCode::Tab => r.append("Tab"),
            KeyCode::BackTab => r.append("⇧+Tab"),
            KeyCode::Up => r.append("↑"),
            KeyCode::Down => r.append("↓"),
            KeyCode::Left => r.append("←"),
            KeyCode::Right => r.append("→"),
            KeyCode::Home => r.append("Home"),
            KeyCode::End => r.append("End"),
            KeyCode::PageUp => r.append("PgUp"),
            KeyCode::PageDown => r.append("PgDn"),
            KeyCode::Backspace => r.append("⌫"),
            KeyCode::Delete => r.append("Del"),
            KeyCode::Insert => r.append("Insert"),
            KeyCode::F(n) => {
                r.append("F(");
                let d = decimal_string(n);
                r.append(d.as_str());
                r.append(")");
            },
            KeyCode::Char(c) => {
                if c == ' ' {
                    r.append("Space");
                } else {
                    push_char(&mut r, c);
                }
            },
            KeyCode::Null => r.append("Null"),
            KeyCode::Other => r.append("Other"),
        }
        proof {
            let prefix = (if self.modifiers.control {
                "Ctrl+"@
            } else {
                Seq::empty()
            }) + (if self.modifiers.alt {
                "Alt+"@
            } else {
                Seq::empty()
            }) + (if self.modifiers.shift {
                "⇧+"@
            } else {
                Seq::empty()
            });
            assert(r@ =~= prefix + code_label(self.code));
        }
        r
    }
}

/// Help-bar label of a binding: its first chord, prettified; empty when
/// the binding has no chord.
pub open spec fn binding_label(b: Binding) -> Seq<char> {
    if b.0@.len() == 0 {
        Seq::empty()
    } else {
        pattern_label(b.0@[0])
    }
}

impl Binding {
    /// Help-bar label: the first configured chord, prettified; empty when
    /// the binding has no chord.
    pub fn label(&self) -> (r: String)
        ensures
            r@ == binding_label(*self),
    {
        if self.0.len() == 0 {
            String::new()
        } else {
            self.0[0].label_text()
        }
    }

    /// Whether the given key event triggers this binding: some chord equals
    /// the event once both are normalized.
    pub fn matches(&self, event: &KeyEvent) -> (r: bool)
        ensures
            r == binding_matches(self.0@, *event),
    {
        let target = normalize(event.code, event.modifiers);
        let mut i: usize = 0;
        while i < self.0.len()
            invariant
                i <= self.0@.len(),
                target == normalized(event.code, event.modifiers),
                forall|j: int|
                    0 <= j < i ==> #[trigger] normalized(self.0@[j].code, self.0@[j].modifiers)
                        != target,
            decreases self.0@.len() - i,
        {
            let p = self.0[i];
            let n = normalize(p.code, p.modifiers);
            if n.0 == target.0 && n.1 == target.1 {
                return true;
            }
            i = i + 1;
        }
        false
    }
}

/// The key a lowercased, trimmed name designates, or the error message.
pub open spec fn spec_parse_key_code(s: Seq<char>) -> Result<KeyCode, Seq<char>> {
    if s == "esc"@ || s == "escape"@ {
        Ok(KeyCode::Esc)
    } else if s == "enter"@ || s == "return"@ {
        Ok(KeyCode::Enter)
    } else if s == "tab"@ {
        Ok(KeyCode::Tab)
    } else if s == "backtab"@ {
        Ok(KeyCode::BackTab)
    } else if s == "up"@ {
        Ok(KeyCode::Up)
    } else if s == "down"@ {
        Ok(KeyCode::Down)
    } else if s == "left"@ {
        Ok(KeyCode::Left)
    } else if s == "right"@ {
        Ok(KeyCode::Right)
    } else if s == "home"@ {
        Ok(KeyCode::Home)
    } else if s == "end"@ {
        Ok(KeyCode::End)
    } else if s == "pageup"@ {
        Ok(KeyCode::PageUp)
    } else if s == "pagedown"@ {
        Ok(KeyCode::PageDown)
    } else if s == "backspace"@ {
        Ok(KeyCode::Backspace)
    } else if s == "delete"@ || s == "del"@ {
        Ok(KeyCode::Delete)
    } else if s == "space"@ {
        Ok(KeyCode::Char(' '))
    } else if s.len() == 1 {
        Ok(KeyCode::Char(s[0]))
    } else {
        Err("unknown key `"@ + s + "`"@)
    }
}

/// The name a configuration writes for a key: the lowercase word for each
/// named key, `space` for the space bar, the character itself for any other
/// character key; keys that have no name in a configuration have none.
pub open spec fn key_name(code: KeyCode) -> Option<Seq<char>> {
    match code {
        KeyCode::Esc => Some("esc"@),
        KeyCode::Enter => Some("enter"@),
        KeyCode::Tab => Some("tab"@),
        KeyCode::BackTab => Some("backtab"@),
        KeyCode::Up => Some("up"@),
        KeyCode::Down => Some("down"@),
        KeyCode::Left => Some("left"@),
        KeyCode::Right => Some("right"@),
        KeyCode::Home => Some("home"@),
        KeyCode::End => Some("end"@),
        KeyCode::PageUp => Some("pageup"@),
        KeyCode::PageDown => Some("pagedown"@),
        KeyCode::Backspace => Some("backspace"@),
        KeyCode::Delete => Some("delete"@),
        KeyCode::Char(c) => if c == ' ' {
            Some("space"@)
        } else {
            Some(seq![c])
        },
        KeyCode::F(_) => None,
        KeyCode::Insert => None,
        KeyCode::Null => None,
        KeyCode::Other => None,
    }
}

/// The names a configuration can write for keys, told apart by their
/// length and first two characters.
proof fn lemma_key_name_letters()
    ensures
        "esc"@.len() == 3 && "esc"@[0] == 'e' && "esc"@[1] == 's',
        "escape"@.len() == 6 && "escape"@[0] == 'e' && "escape"@[1] == 's',
        "enter"@.len() == 5 && "enter"@[0] == 'e' && "enter"@[1] == 'n',
        "return"@.len() == 6 && "return"@[0] == 'r' && "return"@[1] == 'e',
        "tab"@.len() == 3 && "tab"@[0] == 't' && "tab"@[1] == 'a',
        "backtab"@.len() == 7 && "backtab"@[0] == 'b' && "backtab"@[1] == 'a',
        "up"@.len() == 2 && "up"@[0] == 'u' && "up"@[1] == 'p',
        "down"@.len() == 4 && "down"@[0] == 'd' && "down"@[1] == 'o',
        "left"@.len() == 4 && "left"@[0] == 'l' && "left"@[1] == 'e',
        "right"@.len() == 5 && "right"@[0] == 'r' && "right"@[1] == 'i',
        "home"@.len() == 4 && "home"@[0] == 'h' && "home"@[1] == 'o',
        "end"@.len() == 3 && "end"@[0] == 'e' && "end"@[1] == 'n',
        "pageup"@.len() == 6 && "pageup"@[0] == 'p' && "pageup"@[1] == 'a',
        "pagedown"@.len() == 8 && "pagedown"@[0] == 'p' && "pagedown"@[1] == 'a',
        "backspace"@.len() == 9 && "backspace"@[0] == 'b' && "backspace"@[1] == 'a',
        "delete"@.len() == 6 && "delete"@[0] == 'd' && "delete"@[1] == 'e',
        "del"@.len() == 3 && "del"@[0] == 'd' && "del"@[1] == 'e',
        "space"@.len() == 5 && "space"@[0] == 's' && "space"@[1] == 'p',
{
    reveal_strlit("esc");
    reveal_strlit("escape");
    reveal_strlit("enter");
    reveal_strlit("return");
    reveal_strlit("tab");
    reveal_strlit("backtab");
    reveal_strlit("up");
    reveal_strlit("down");
    reveal_strlit("left");
    reveal_strlit("right");
    reveal_strlit("home");
    reveal_strlit("end");
    reveal_strlit("pageup");
    reveal_strlit("pagedown");
    reveal_strlit("backspace");
    reveal_strlit("delete");
    reveal_strlit("del");
    reveal_strlit("space");
}

/// Every key that has a name parses back from its name to that very key,
/// and each alias (`escape`, `return`, `del`) parses like the name it
/// stands for.
#[verifier::spinoff_prover]
pub proof fn lemma_key_names_round_trip(code: KeyCode)
    ensures
        key_name(code) matches Some(n) ==> spec_parse_key_code(n) == Ok::<KeyCode, Seq<char>>(code),
        spec_parse_key_code("escape"@) == Ok::<KeyCode, Seq<char>>(KeyCode::Esc),
        spec_parse_key_code("return"@) == Ok::<KeyCode, Seq<char>>(KeyCode::Enter),
        spec_parse_key_code("del"@) == Ok::<KeyCode, Seq<char>>(KeyCode::Delete),
{
    lemma_key_name_letters();
    match code {
        KeyCode::Char(c) => {
            if c != ' ' {
                assert(seq![c].len() == 1);
                assert(seq![c][0] == c);
            }
        },
        _ => {},
    }
}

/// Parses a bare key name (no modifiers) into a [`KeyCode`].
pub fn parse_key_code(s: &[char]) -> (r: Result<KeyCode, String>)
    ensures
        match r {
            Ok(c) => spec_parse_key_code(s@) == Ok::<KeyCode, Seq<char>>(c),
            Err(e) => spec_parse_key_code(s@) == Err::<KeyCode, Seq<char>>(e@),
        },
{
    if is_word(s, "esc") || is_word(s, "escape") {
        Ok(KeyCode::Esc)
    } else if is_word(s, "enter") || is_word(s, "return") {
        Ok(KeyCode::Enter)
    } else if is_word(s, "tab") {
        Ok(KeyCode::Tab)
    } else if is_word(s, "backtab") {
        Ok(KeyCode::BackTab)
    } else if is_word(s, "up") {
        Ok(KeyCode::Up)
    } else if is_word(s, "down") {
        Ok(KeyCode::Down)
    } else if is_word(s, "left") {
        Ok(KeyCode::Left)
    } else if is_word(s, "right") {
        Ok(KeyCode::Right)
    } else if is_word(s, "home") {
        Ok(KeyCode::Home)
    } else if is_word(s, "end") {
        Ok(KeyCode::End)
    } else if is_word(s, "pageup") {
        Ok(KeyCode::PageUp)
    } else if is_word(s, "pagedown") {
        Ok(KeyCode::PageDown)
    } else if is_word(s, "backspace") {
        Ok(KeyCode::Backspace)
    } else if is_word(s, "delete") || is_word(s, "del") {
        Ok(KeyCode::Delete)
    } else if is_word(s, "space") {
        Ok(KeyCode::Char(' '))
    } else if s.len() == 1 {
        Ok(KeyCode::Char(s[0]))
    } else {
        let mut e = String::new();
        e.append("unknown key `");
        e.append(string_of(s).as_str());
        e.append("`");
        Err(e)
    }
}

/// A part of a chord, trimmed and lowercased.
pub open spec fn clean_part(p: Seq<char>) -> Seq<char> {
    trimmed(p).map_values(|c: char| ascii_lower(c))
}

/// Parses the parts of chord `orig` from part `k` on, with the modifiers and
/// key collected so far.
pub open spec fn parse_parts(
    orig: Seq<char>,
    parts: Seq<Seq<char>>,
    k: int,
    modifiers: KeyModifiers,
    code: Option<KeyCode>,
) -> Result<KeyPattern, Seq<char>>
    decreases parts.len() - k,
{
    if k < 0 || k >= parts.len() {
        match code {
            None => Err("`"@ + orig + "`: missing key"@),
            Some(c) => Ok(KeyPattern { code: c, modifiers }),
        }
    } else {
        let p = clean_part(parts[k]);
        if p == "ctrl"@ || p == "control"@ {
            parse_parts(orig, parts, k + 1, KeyModifiers { control: true, ..modifiers }, code)
        } else if p == "alt"@ {
            parse_parts(orig, parts, k + 1, KeyModifiers { alt: true, ..modifiers }, code)
        } else if p == "shift"@ {
            parse_parts(orig, parts, k + 1, KeyModifiers { shift: true, ..modifiers }, code)
        } else if code is Some {
            Err("`"@ + orig + "`: more than one key"@)
        } else {
            match spec_parse_key_code(p) {
                Err(e) => Err(e),
                Ok(c) => parse_parts(orig, parts, k + 1, modifiers, Some(c)),
            }
        }
    }
}

/// What parsing a chord such as `ctrl+d` gives: the `+`-separated parts,
/// each trimmed and lowercased, are modifiers (`ctrl`/`control`, `alt`,
/// `shift`) and exactly one key.
pub open spec fn spec_parse_pattern(s: Seq<char>) -> Result<KeyPattern, Seq<char>> {
    parse_parts(
        s,
        split_on(s, '+'),
        0,
        KeyModifiers { control: false, alt: false, shift: false },
        None,
    )
}

/// A part lowercased.
fn lower_chars(v: &[char]) -> (r: Vec<char>)
    ensures
        r@ == v@.map_values(|c: char| ascii_lower(c)),
{
    let mut r: Vec<char> = Vec::new();
    let mut i: usize = 0;
    while i < v.len()
        invariant
            i <= v@.len(),
            r@ == v@.take(i as int).map_values(|c: char| ascii_lower(c)),
        decreases v@.len() - i,
    {
        r.push(to_ascii_lower(v[i]));
        i = i + 1;
        assert(r@ =~= v@.take(i as int).map_values(|c: char| ascii_lower(c)));
    }
    assert(v@.take(v@.len() as int) =~= v@);
    r
}

impl KeyPattern {
    /// Parses a chord such as `q`, `esc` or `ctrl+d`: the `+`-separated
    /// parts, each trimmed and lowercased, are modifiers (`ctrl`/`control`,
    /// `alt`, `shift`) and exactly one key name.
    pub fn parse(s: &str) -> (r: Result<KeyPattern, String>)
        ensures
            match r {
                Ok(p) => spec_parse_pattern(s@) == Ok::<KeyPattern, Seq<char>>(p),
                Err(e) => spec_parse_pattern(s@) == Err::<KeyPattern, Seq<char>>(e@),
            },
    {
        let v = chars_of(s);
        let parts = split_chars(&v, '+');
        let ghost pv = parts@.map_values(|p: Vec<char>| p@);
        let mut modifiers = KeyModifiers::none();
        let mut code: Option<KeyCode> = None;
        let mut k: usize = 0;
        while k < parts.len()
            invariant
                v@ == s@,
                pv == parts@.map_values(|p: Vec<char>| p@),
                pv == split_on(s@, '+'),
                k <= parts@.len(),
                spec_parse_pattern(s@) == parse_parts(s@, pv, k as int, modifiers, code),
            decreases parts@.len() - k,
        {
            let trimmed_part = trim_chars(&parts[k]);
            let p = lower_chars(&trimmed_part);
            assert(p@ == clean_part(pv[k as int]));
            if is_word(&p, "ctrl") || is_word(&p, "control") {
                modifiers = KeyModifiers { control: true, alt: modifiers.alt, shift: modifiers.shift };
            } else if is_word(&p, "alt") {
                modifiers = KeyModifiers { control: modifiers.control, alt: true, shift: modifiers.shift };
            } else if is_word(&p, "shift") {
                modifiers = KeyModifiers { control: modifiers.control, alt: modifiers.alt, shift: true };
            } else if code.is_some() {
                let mut e = String::new();
                e.append("`");
                e.append(s);
                e.append("`: more than one key");
                return Err(e);
            } else {
                match parse_key_code(&p) {
                    Err(e) => {
                        return Err(e);
                    },
                    Ok(c) => {
                        code = Some(c);
                    },
                }
            }
            k = k + 1;
        }
        match code {
            None => {
                let mut e = String::new();
                e.append("`");
                e.append(s);
                e.append("`: missing key");
                Err(e)
            },
            Some(c) => Ok(KeyPattern { code: c, modifiers }),
        }
    }
}

impl core::str::FromStr for KeyPattern {
    type Err = String;

    fn from_str(s: &str) -> (r: Result<KeyPattern, String>)
        ensures
            match r {
                Ok(p) => spec_parse_pattern(s@) == Ok::<KeyPattern, Seq<char>>(p),
                Err(e) => spec_parse_pattern(s@) == Err::<KeyPattern, Seq<char>>(e@),
            },
    {
        KeyPattern::parse(s)
    }
}

/// Configurable key bindings, one field per action.
#[derive(Clone, Debug)]
pub struct Keybindings {
    /// Move down in the focused list.
    pub list_next: Binding,
    /// Move up in the focused list.
    pub list_previous: Binding,
    /// Move down a page in the focused list.
    pub list_page_next: Binding,
    /// Move up a page in the focused list.
    pub list_page_previous: Binding,
    /// Scroll the content panel down / focus it.
    pub content_scroll_down: Binding,
    /// Scroll the content panel up / focus the list.
    pub content_scroll_up: Binding,
    /// Switch to the next tab.
    pub tab_next: Binding,
    /// Switch to the previous tab.
    pub tab_previous: Binding,
    /// Jump to the top of the list.
    pub top: Binding,
    /// Jump to the bottom of the list.
    pub bottom: Binding,
    /// Enter search/input mode.
    pub search: Binding,
    /// Toggle the selected module for export.
    pub add_module: Binding,
    /// Open the repository in the browser.
    pub open_repo: Binding,
    /// Start the export flow.
    pub export: Binding,
    /// Quit the application.
    pub quit: Binding,
}

/// A chord without modifiers.
pub open spec fn plain(code: KeyCode) -> KeyPattern {
    KeyPattern { code, modifiers: KeyModifiers { control: false, alt: false, shift: false } }
}

/// A chord with control held.
pub open spec fn with_control(code: KeyCode) -> KeyPattern {
    KeyPattern { code, modifiers: KeyModifiers { control: true, alt: false, shift: false } }
}

/// A chord without modifiers.
fn plain_key(code: KeyCode) -> (p: KeyPattern)
    ensures
        p == plain(code),
{
    KeyPattern { code, modifiers: KeyModifiers::none() }
}

/// A chord with control held.
fn control_key(code: KeyCode) -> (p: KeyPattern)
    ensures
        p == with_control(code),
{
    KeyPattern { code, modifiers: KeyModifiers::control() }
}

/// A binding of two chords.
fn two(a: KeyPattern, b: KeyPattern) -> (r: Binding)
    ensures
        r.0@ == seq![a, b],
{
    let v: Vec<KeyPattern> = vec![a, b];
    Binding(v)
}

/// A binding of one chord.
fn one(a: KeyPattern) -> (r: Binding)
    ensures
        r.0@ == seq![a],
{
    let v: Vec<KeyPattern> = vec![a];
    Binding(v)
}

/// The default bindings.
pub open spec fn is_default_keybindings(k: Keybindings) -> bool {
    &&& k.list_next.0@ == seq![plain(KeyCode::Char('j')), plain(KeyCode::Down)]
    &&& k.list_previous.0@ == seq![plain(KeyCode::Char('k')), plain(KeyCode::Up)]
    &&& k.list_page_next.0@ == seq![plain(KeyCode::PageDown), with_control(KeyCode::Char('d'))]
    &&& k.list_page_previous.0@ == seq![plain(KeyCode::PageUp), with_control(KeyCode::Char('u'))]
    &&& k.content_scroll_down.0@ == seq![plain(KeyCode::Char('l')), plain(KeyCode::Right)]
    &&& k.content_scroll_up.0@ == seq![plain(KeyCode::Char('h')), plain(KeyCode::Left)]
    &&& k.tab_next.0@ == seq![plain(KeyCode::Tab)]
    &&& k.tab_previous.0@ == seq![plain(KeyCode::BackTab)]
    &&& k.top.0@ == seq![plain(KeyCode::Char('t')), plain(KeyCode::Home)]
    &&& k.bottom.0@ == seq![plain(KeyCode::Char('b')), plain(KeyCode::End)]
    &&& k.search.0@ == seq![plain(KeyCode::Char('/')), with_control(KeyCode::Char('f'))]
    &&& k.add_module.0@ == seq![plain(KeyCode::Enter), plain(KeyCode::Char(' '))]
    &&& k.open_repo.0@ == seq![plain(KeyCode::Char('o'))]
    &&& k.export.0@ == seq![plain(KeyCode::Char('e'))]
    &&& k.quit.0@ == seq![plain(KeyCode::Char('q')), plain(KeyCode::Esc)]
}

impl Default for Keybindings {
    fn default() -> (k: Keybindings)
        ensures
            is_default_keybindings(k),
    {
        Keybindings {
            list_next: two(plain_key(KeyCode::Char('j')), plain_key(KeyCode::Down)),
            list_previous: two(plain_key(KeyCode::Char('k')), plain_key(KeyCode::Up)),
            list_page_next: two(plain_key(KeyCode::PageDown), control_key(KeyCode::Char('d'))),
            list_page_previous: two(plain_key(KeyCode::PageUp), control_key(KeyCode::Char('u'))),
            content_scroll_down: two(plain_key(KeyCode::Char('l')), plain_key(KeyCode::Right)),
            content_scroll_up: two(plain_key(KeyCode::Char('h')), plain_key(KeyCode::Left)),
            tab_next: one(plain_key(KeyCode::Tab)),
            tab_previous: one(plain_key(KeyCode::BackTab)),
            top: two(plain_key(KeyCode::Char('t')), plain_key(KeyCode::Home)),
            bottom: two(plain_key(KeyCode::Char('b')), plain_key(KeyCode::End)),
            search: two(plain_key(KeyCode::Char('/')), control_key(KeyCode::Char('f'))),
            add_module: two(plain_key(KeyCode::Enter), plain_key(KeyCode::Char(' '))),
            open_repo: one(plain_key(KeyCode::Char('o'))),
            export: one(plain_key(KeyCode::Char('e'))),
            quit: two(plain_key(KeyCode::Char('q')), plain_key(KeyCode::Esc)),
        }
    }
}

} // verus!

verus! {

/// Bindings ignore case: an uppercase letter matches exactly the bindings
/// its lowercase letter matches, whatever the modifiers.
pub proof fn lemma_binding_ignores_case(patterns: Seq<KeyPattern>, c: char, modifiers: KeyModifiers)
    requires
        'A' <= c <= 'Z',
    ensures
        binding_matches(patterns, KeyEvent { code: KeyCode::Char(c), modifiers })
            == binding_matches(
            patterns,
            KeyEvent { code: KeyCode::Char(ascii_lower(c)), modifiers },
        ),
{
    let lower = ascii_lower(c);
    assert(ascii_lower(lower) == lower);
    assert(normalized(KeyCode::Char(c), modifiers) == normalized(KeyCode::Char(lower), modifiers));
}

} // verus!
