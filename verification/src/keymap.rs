//! Two-tier key-binding resolution: a config-overridable primary table
//! consulted first, then a fixed secondary table that configuration can
//! never remove or reassign.

use vstd::prelude::*;
use vstd::string::StrSliceExecFns;
use crate::text::{ascii_lower_char, ascii_lower_string, str_eq};
use crate::config::KeysConfig;

verus! {

/// Abstract action a key press resolves to.
#[derive(Clone, Copy, PartialEq, Eq, Structural, Hash, Debug)]
pub enum Action {
    Quit,
    ScrollDown,
    ScrollUp,
    HalfPageDown,
    HalfPageUp,
    FullPageDown,
    FullPageUp,
    GotoTop,
    GotoBottom,
    PrevBuffer,
    NextBuffer,
    SearchForward,
    SearchBackward,
    NextMatch,
    PrevMatch,
    ToggleNumbers,
    ToggleWrap,
    FollowMode,
    EnterCommand,
    Filter,
    Visual,
    SetMark,
    JumpMark,
    ScrollRight,
    ScrollLeft,
}

/// Abstract key, covering what the viewer reacts to.
#[derive(Clone, Copy, PartialEq, Eq, Structural, Debug)]
pub enum Key {
    Char(char),
    Enter,
    Tab,
    PageDown,
    PageUp,
    Home,
    End,
    Up,
    Down,
    Left,
    Right,
    Backspace,
    Delete,
    Esc,
}

/// One key press: the key with its control and shift modifiers.
#[derive(Clone, Copy, PartialEq, Eq, Structural, Debug)]
pub struct KeyPress {
    pub key: Key,
    pub ctrl: bool,
    pub shift: bool,
}

/// A plain press of `k`, no modifiers.
pub open spec fn plain(k: Key) -> KeyPress {
    KeyPress { key: k, ctrl: false, shift: false }
}

/// A plain press of character `c`.
pub open spec fn ch(c: char) -> KeyPress {
    KeyPress { key: Key::Char(c), ctrl: false, shift: false }
}

/// Control-modified press of character `c`.
pub open spec fn ctrl_ch(c: char) -> KeyPress {
    KeyPress { key: Key::Char(c), ctrl: true, shift: false }
}

/// Shift-modified press of character `c`.
pub open spec fn shift_ch(c: char) -> KeyPress {
    KeyPress { key: Key::Char(c), ctrl: false, shift: true }
}

/// First binding for `k` in the table, front to back.
pub open spec fn assoc(s: Seq<(KeyPress, Action)>, k: KeyPress) -> Option<Action>
    decreases s.len(),
{
    if s.len() == 0 {
        None
    } else if s[0].0 == k {
        Some(s[0].1)
    } else {
        assoc(s.drop_first(), k)
    }
}

/// The built-in primary bindings.
pub open spec fn default_bindings() -> Seq<(KeyPress, Action)> {
    seq![
        (ch('q'), Action::Quit),
        (ch('j'), Action::ScrollDown),
        (ch('k'), Action::ScrollUp),
        (ctrl_ch('d'), Action::HalfPageDown),
        (ch('d'), Action::HalfPageDown),
        (ctrl_ch('u'), Action::HalfPageUp),
        (ch('u'), Action::HalfPageUp),
        (ch(' '), Action::FullPageDown),
        (ch('b'), Action::FullPageUp),
        (ch('g'), Action::GotoTop),
        (ch('G'), Action::GotoBottom),
        (shift_ch('G'), Action::GotoBottom),
        (ch('['), Action::PrevBuffer),
        (ch(']'), Action::NextBuffer),
        (ch('/'), Action::SearchForward),
        (ch('?'), Action::SearchBackward),
        (shift_ch('?'), Action::SearchBackward),
        (ch('n'), Action::NextMatch),
        (ch('N'), Action::PrevMatch),
        (shift_ch('N'), Action::PrevMatch),
        (ch('l'), Action::ToggleNumbers),
        (ch('w'), Action::ToggleWrap),
        (ch('F'), Action::FollowMode),
        (shift_ch('F'), Action::FollowMode),
        (ch(':'), Action::EnterCommand),
        (shift_ch(':'), Action::EnterCommand),
        (ch('&'), Action::Filter),
        (shift_ch('&'), Action::Filter),
        (ch('v'), Action::Visual),
        (ch('m'), Action::SetMark),
        (ch('\''), Action::JumpMark),
        (plain(Key::Right), Action::ScrollRight),
        (plain(Key::Left), Action::ScrollLeft),
    ]
}

/// The fixed secondary bindings: arrows, page keys, enter, and the
/// control-c quit, never overridable.
pub open spec fn secondary_bindings() -> Seq<(KeyPress, Action)> {
    seq![
        (plain(Key::Down), Action::ScrollDown),
        (plain(Key::Enter), Action::ScrollDown),
        (plain(Key::Up), Action::ScrollUp),
        (plain(Key::PageDown), Action::FullPageDown),
        (plain(Key::PageUp), Action::FullPageUp),
        (plain(Key::Home), Action::GotoTop),
        (plain(Key::End), Action::GotoBottom),
        (ctrl_ch('c'), Action::Quit),
    ]
}

/// What a key-spec string denotes: a `ctrl+` prefix takes the following
/// character; a fixed case-insensitive vocabulary names the non-printable
/// keys; any other non-empty spec is its first character, case preserved.
pub open spec fn spec_parse_key(s: Seq<char>) -> Option<KeyPress> {
    let lower = s.map_values(|c: char| ascii_lower_char(c));
    if lower.len() >= 5 && lower.subrange(0, 5) == "ctrl+"@ {
        if lower.len() >= 6 {
            Some(ctrl_ch(lower[5]))
        } else {
            None
        }
    } else if lower == "space"@ {
        Some(ch(' '))
    } else if lower == "enter"@ || lower == "return"@ {
        Some(plain(Key::Enter))
    } else if lower == "tab"@ {
        Some(plain(Key::Tab))
    } else if lower == "pagedown"@ || lower == "pgdn"@ {
        Some(plain(Key::PageDown))
    } else if lower == "pageup"@ || lower == "pgup"@ {
        Some(plain(Key::PageUp))
    } else if lower == "home"@ {
        Some(plain(Key::Home))
    } else if lower == "end"@ {
        Some(plain(Key::End))
    } else if lower == "up"@ {
        Some(plain(Key::Up))
    } else if lower == "down"@ {
        Some(plain(Key::Down))
    } else if lower == "left"@ {
        Some(plain(Key::Left))
    } else if lower == "right"@ {
        Some(plain(Key::Right))
    } else if lower == "backspace"@ {
        Some(plain(Key::Backspace))
    } else if lower == "delete"@ || lower == "del"@ {
        Some(plain(Key::Delete))
    } else if lower == "escape"@ || lower == "esc"@ {
        Some(plain(Key::Esc))
    } else if s.len() > 0 {
        Some(ch(s[0]))
    } else {
        None
    }
}

/// Parses a key-spec string, exactly as `spec_parse_key` says.
pub fn parse_key_spec(s: &str) -> (r: Option<KeyPress>)
    ensures
        r == spec_parse_key(s@),
{
    let lower = ascii_lower_string(s);
    let ll: &str = lower.as_str();
    let n = ll.unicode_len();
    if n >= 5 && has_ctrl_prefix(ll) {
        if n >= 6 {
            return Some(KeyPress { key: Key::Char(ll.get_char(5)), ctrl: true, shift: false });
        } else {
            return None;
        }
    }
    if str_eq(ll, "space") {
        return Some(KeyPress { key: Key::Char(' '), ctrl: false, shift: false });
    }
    if str_eq(ll, "enter") || str_eq(ll, "return") {
        return Some(KeyPress { key: Key::Enter, ctrl: false, shift: false });
    }
    if str_eq(ll, "tab") {
        return Some(KeyPress { key: Key::Tab, ctrl: false, shift: false });
    }
    if str_eq(ll, "pagedown") || str_eq(ll, "pgdn") {
        return Some(KeyPress { key: Key::PageDown, ctrl: false, shift: false });
    }
    if str_eq(ll, "pageup") || str_eq(ll, "pgup") {
        return Some(KeyPress { key: Key::PageUp, ctrl: false, shift: false });
    }
    if str_eq(ll, "home") {
        return Some(KeyPress { key: Key::Home, ctrl: false, shift: false });
    }
    if str_eq(ll, "end") {
        return Some(KeyPress { key: Key::End, ctrl: false, shift: false });
    }
    if str_eq(ll, "up") {
        return Some(KeyPress { key: Key::Up, ctrl: false, shift: false });
    }
    if str_eq(ll, "down") {
        return Some(KeyPress { key: Key::Down, ctrl: false, shift: false });
    }
    if str_eq(ll, "left") {
        return Some(KeyPress { key: Key::Left, ctrl: false, shift: false });
    }
    if str_eq(ll, "right") {
        return Some(KeyPress { key: Key::Right, ctrl: false, shift: false });
    }
    if str_eq(ll, "backspace") {
        return Some(KeyPress { key: Key::Backspace, ctrl: false, shift: false });
    }
    if str_eq(ll, "delete") || str_eq(ll, "del") {
        return Some(KeyPress { key: Key::Delete, ctrl: false, shift: false });
    }
    if str_eq(ll, "escape") || str_eq(ll, "esc") {
        return Some(KeyPress { key: Key::Esc, ctrl: false, shift: false });
    }
    if s.unicode_len() > 0 {
        return Some(KeyPress { key: Key::Char(s.get_char(0)), ctrl: false, shift: false });
    }
    None
}

/// Whether the first five characters read `ctrl+`.
fn has_ctrl_prefix(s: &str) -> (r: bool)
    requires
        s@.len() >= 5,
    ensures
        r == (s@.subrange(0, 5) == "ctrl+"@),
{
    proof {
        reveal_strlit("ctrl+");
    }
    let r = s.get_char(0) == 'c' && s.get_char(1) == 't' && s.get_char(2) == 'r' && s.get_char(3)
        == 'l' && s.get_char(4) == '+';
    proof {
        if r {
            assert(s@.subrange(0, 5) =~= "ctrl+"@);
        } else {
            assert(s@.subrange(0, 5) != "ctrl+"@) by {
                if s@.subrange(0, 5) == "ctrl+"@ {
                    assert(s@[0] == "ctrl+"@[0]);
                    assert(s@[1] == "ctrl+"@[1]);
                    assert(s@[2] == "ctrl+"@[2]);
                    assert(s@[3] == "ctrl+"@[3]);
                    assert(s@[4] == "ctrl+"@[4]);
                }
            }
        }
    }
    r
}

/// The bindings of `p` that survive rebinding `k` to `a`: those neither
/// mapped to `a` nor keyed by `k`, in order.
pub open spec fn retained(
    p: Seq<(KeyPress, Action)>,
    k: KeyPress,
    a: Action,
) -> Seq<(KeyPress, Action)>
    decreases p.len(),
{
    if p.len() == 0 {
        p
    } else {
        let rest = retained(p.drop_last(), k, a);
        if p.last().1 != a && p.last().0 != k {
            rest.push(p.last())
        } else {
            rest
        }
    }
}

/// The primary table with one override applied: a parseable spec removes
/// every binding to the action and any binding of the new key, then adds
/// the new binding; anything else leaves the table alone.
pub open spec fn overridden(
    p: Seq<(KeyPress, Action)>,
    s: Option<Seq<char>>,
    a: Action,
) -> Seq<(KeyPress, Action)> {
    match s {
        None => p,
        Some(txt) => match spec_parse_key(txt) {
            Some(k) => retained(p, k, a).push((k, a)),
            None => p,
        },
    }
}

/// `Some` of the text of an optional string.
pub open spec fn opt_view(o: Option<String>) -> Option<Seq<char>> {
    match o {
        Some(s) => Some(s@),
        None => None,
    }
}

/// The primary table after every configured override, applied in a fixed
/// order.
pub open spec fn apply_overrides_spec(p0: Seq<(KeyPress, Action)>, k: KeysConfig) -> Seq<
    (KeyPress, Action),
> {
    let p = overridden(p0, opt_view(k.quit), Action::Quit);
    let p = overridden(p, opt_view(k.scroll_down), Action::ScrollDown);
    let p = overridden(p, opt_view(k.scroll_up), Action::ScrollUp);
    let p = overridden(p, opt_view(k.half_page_down), Action::HalfPageDown);
    let p = overridden(p, opt_view(k.half_page_up), Action::HalfPageUp);
    let p = overridden(p, opt_view(k.full_page_down), Action::FullPageDown);
    let p = overridden(p, opt_view(k.full_page_up), Action::FullPageUp);
    let p = overridden(p, opt_view(k.goto_top), Action::GotoTop);
    let p = overridden(p, opt_view(k.goto_bottom), Action::GotoBottom);
    let p = overridden(p, opt_view(k.prev_buffer), Action::PrevBuffer);
    let p = overridden(p, opt_view(k.next_buffer), Action::NextBuffer);
    let p = overridden(p, opt_view(k.search_forward), Action::SearchForward);
    let p = overridden(p, opt_view(k.search_backward), Action::SearchBackward);
    let p = overridden(p, opt_view(k.next_match), Action::NextMatch);
    let p = overridden(p, opt_view(k.prev_match), Action::PrevMatch);
    let p = overridden(p, opt_view(k.toggle_numbers), Action::ToggleNumbers);
    let p = overridden(p, opt_view(k.toggle_wrap), Action::ToggleWrap);
    let p = overridden(p, opt_view(k.follow_mode), Action::FollowMode);
    let p = overridden(p, opt_view(k.enter_command), Action::EnterCommand);
    let p = overridden(p, opt_view(k.filter), Action::Filter);
    let p = overridden(p, opt_view(k.visual), Action::Visual);
    let p = overridden(p, opt_view(k.set_mark), Action::SetMark);
    let p = overridden(p, opt_view(k.jump_mark), Action::JumpMark);
    let p = overridden(p, opt_view(k.scroll_right), Action::ScrollRight);
    let p = overridden(p, opt_view(k.scroll_left), Action::ScrollLeft);
    p
}

/// The key dispatch table.
pub struct KeyMap {
    primary: Vec<(KeyPress, Action)>,
    secondary: Vec<(KeyPress, Action)>,
}

impl KeyMap {
    /// The primary, overridable bindings.
    pub closed spec fn spec_primary(&self) -> Seq<(KeyPress, Action)> {
        self.primary@
    }

    /// The fixed secondary bindings.
    pub closed spec fn spec_secondary(&self) -> Seq<(KeyPress, Action)> {
        self.secondary@
    }

    /// Builds the table: defaults, fixed aliases, then the configured
    /// overrides.
    pub fn build(keys: &KeysConfig) -> (r: KeyMap)
        ensures
            r.spec_primary() == apply_overrides_spec(default_bindings(), *keys),
            r.spec_secondary() == secondary_bindings(),
    {
        let mut km = KeyMap { primary: Self::defaults(), secondary: Self::aliases() };
        km.apply_overrides(keys);
        km
    }

    /// Resolves one key press: the primary table first, then the fixed
    /// secondary table.
    pub fn get(&self, key: KeyPress) -> (r: Option<Action>)
        ensures
            r == match assoc(self.spec_primary(), key) {
                Some(a) => Some(a),
                None => assoc(self.spec_secondary(), key),
            },
    {
        match lookup(&self.primary, key) {
            Some(a) => Some(a),
            None => lookup(&self.secondary, key),
        }
    }

    /// The built-in primary bindings.
    fn defaults() -> (r: Vec<(KeyPress, Action)>)
        ensures
            r@ == default_bindings(),
    {
        let mut m: Vec<(KeyPress, Action)> = Vec::new();
        m.push((KeyPress { key: Key::Char('q'), ctrl: false, shift: false }, Action::Quit));
        m.push((KeyPress { key: Key::Char('j'), ctrl: false, shift: false }, Action::ScrollDown));
        m.push((KeyPress { key: Key::Char('k'), ctrl: false, shift: false }, Action::ScrollUp));
        m.push((KeyPress { key: Key::Char('d'), ctrl: true, shift: false }, Action::HalfPageDown));
        m.push((KeyPress { key: Key::Char('d'), ctrl: false, shift: false }, Action::HalfPageDown));
        m.push((KeyPress { key: Key::Char('u'), ctrl: true, shift: false }, Action::HalfPageUp));
        m.push((KeyPress { key: Key::Char('u'), ctrl: false, shift: false }, Action::HalfPageUp));
        m.push((KeyPress { key: Key::Char(' '), ctrl: false, shift: false }, Action::FullPageDown));
        m.push((KeyPress { key: Key::Char('b'), ctrl: false, shift: false }, Action::FullPageUp));
        m.push((KeyPress { key: Key::Char('g'), ctrl: false, shift: false }, Action::GotoTop));
        m.push((KeyPress { key: Key::Char('G'), ctrl: false, shift: false }, Action::GotoBottom));
        m.push((KeyPress { key: Key::Char('G'), ctrl: false, shift: true }, Action::GotoBottom));
        m.push((KeyPress { key: Key::Char('['), ctrl: false, shift: false }, Action::PrevBuffer));
        m.push((KeyPress { key: Key::Char(']'), ctrl: false, shift: false }, Action::NextBuffer));
        m.push((KeyPress { key: Key::Char('/'), ctrl: false, shift: false }, Action::SearchForward));
        m.push(
            (KeyPress { key: Key::Char('?'), ctrl: false, shift: false }, Action::SearchBackward),
        );
        m.push(
            (KeyPress { key: Key::Char('?'), ctrl: false, shift: true }, Action::SearchBackward),
        );
        m.push((KeyPress { key: Key::Char('n'), ctrl: false, shift: false }, Action::NextMatch));
        m.push((KeyPress { key: Key::Char('N'), ctrl: false, shift: false }, Action::PrevMatch));
        m.push((KeyPress { key: Key::Char('N'), ctrl: false, shift: true }, Action::PrevMatch));
        m.push(
            (KeyPress { key: Key::Char('l'), ctrl: false, shift: false }, Action::ToggleNumbers),
        );
        m.push((KeyPress { key: Key::Char('w'), ctrl: false, shift: false }, Action::ToggleWrap));
        m.push((KeyPress { key: Key::Char('F'), ctrl: false, shift: false }, Action::FollowMode));
        m.push((KeyPress { key: Key::Char('F'), ctrl: false, shift: true }, Action::FollowMode));
        m.push((KeyPress { key: Key::Char(':'), ctrl: false, shift: false }, Action::EnterCommand));
        m.push((KeyPress { key: Key::Char(':'), ctrl: false, shift: true }, Action::EnterCommand));
        m.push((KeyPress { key: Key::Char('&'), ctrl: false, shift: false }, Action::Filter));
        m.push((KeyPress { key: Key::Char('&'), ctrl: false, shift: true }, Action::Filter));
        m.push((KeyPress { key: Key::Char('v'), ctrl: false, shift: false }, Action::Visual));
        m.push((KeyPress { key: Key::Char('m'), ctrl: false, shift: false }, Action::SetMark));
        m.push((KeyPress { key: Key::Char('\''), ctrl: false, shift: false }, Action::JumpMark));
        m.push((KeyPress { key: Key::Right, ctrl: false, shift: false }, Action::ScrollRight));
        m.push((KeyPress { key: Key::Left, ctrl: false, shift: false }, Action::ScrollLeft));
        proof {
            assert(m@ =~= default_bindings());
        }
        m
    }

    /// The fixed secondary bindings.
    fn aliases() -> (r: Vec<(KeyPress, Action)>)
        ensures
            r@ == secondary_bindings(),
    {
        let mut m: Vec<(KeyPress, Action)> = Vec::new();
        m.push((KeyPress { key: Key::Down, ctrl: false, shift: false }, Action::ScrollDown));
        m.push((KeyPress { key: Key::Enter, ctrl: false, shift: false }, Action::ScrollDown));
        m.push((KeyPress { key: Key::Up, ctrl: false, shift: false }, Action::ScrollUp));
        m.push((KeyPress { key: Key::PageDown, ctrl: false, shift: false }, Action::FullPageDown));
        m.push((KeyPress { key: Key::PageUp, ctrl: false, shift: false }, Action::FullPageUp));
        m.push((KeyPress { key: Key::Home, ctrl: false, shift: false }, Action::GotoTop));
        m.push((KeyPress { key: Key::End, ctrl: false, shift: false }, Action::GotoBottom));
        m.push((KeyPress { key: Key::Char('c'), ctrl: true, shift: false }, Action::Quit));
        proof {
            assert(m@ =~= secondary_bindings());
        }
        m
    }

    /// Applies every configured override in a fixed order.
    fn apply_overrides(&mut self, keys: &KeysConfig)
        ensures
            final(self).primary@ == apply_overrides_spec(old(self).primary@, *keys),
            final(self).secondary == old(self).secondary,
    {
        self.apply_one(&keys.quit, Action::Quit);
        self.apply_one(&keys.scroll_down, Action::ScrollDown);
        self.apply_one(&keys.scroll_up, Action::ScrollUp);
        self.apply_one(&keys.half_page_down, Action::HalfPageDown);
        self.apply_one(&keys.half_page_up, Action::HalfPageUp);
        self.apply_one(&keys.full_page_down, Action::FullPageDown);
        self.apply_one(&keys.full_page_up, Action::FullPageUp);
        self.apply_one(&keys.goto_top, Action::GotoTop);
        self.apply_one(&keys.goto_bottom, Action::GotoBottom);
        self.apply_one(&keys.prev_buffer, Action::PrevBuffer);
        self.apply_one(&keys.next_buffer, Action::NextBuffer);
        self.apply_one(&keys.search_forward, Action::SearchForward);
        self.apply_one(&keys.search_backward, Action::SearchBackward);
        self.apply_one(&keys.next_match, Action::NextMatch);
        self.apply_one(&keys.prev_match, Action::PrevMatch);
        self.apply_one(&keys.toggle_numbers, Action::ToggleNumbers);
        self.apply_one(&keys.toggle_wrap, Action::ToggleWrap);
        self.apply_one(&keys.follow_mode, Action::FollowMode);
        self.apply_one(&keys.enter_command, Action::EnterCommand);
        self.apply_one(&keys.filter, Action::Filter);
        self.apply_one(&keys.visual, Action::Visual);
        self.apply_one(&keys.set_mark, Action::SetMark);
        self.apply_one(&keys.jump_mark, Action::JumpMark);
        self.apply_one(&keys.scroll_right, Action::ScrollRight);
        self.apply_one(&keys.scroll_left, Action::ScrollLeft);
    }

    /// Applies one override, as `overridden` says.
    fn apply_one(&mut self, spec_str: &Option<String>, action: Action)
        ensures
            final(self).primary@ == overridden(old(self).primary@, opt_view(*spec_str), action),
            final(self).secondary == old(self).secondary,
    {
        let s = match spec_str {
            Some(s) => s,
            None => {
                return ;
            },
        };
        let key = match parse_key_spec(s.as_str()) {
            Some(k) => k,
            None => {
                return ;
            },
        };
        let n = self.primary.len();
        let mut kept: Vec<(KeyPress, Action)> = Vec::new();
        let mut i: usize = 0;
        proof {
            assert(kept@ =~= retained(old(self).primary@.subrange(0, 0), key, action));
        }
        while i < n
            invariant
                n == self.primary@.len(),
                self.primary == old(self).primary,
                self.secondary == old(self).secondary,
                i <= n,
                kept@ =~= retained(self.primary@.subrange(0, i as int), key, action),
            decreases n - i,
        {
            let e = self.primary[i];
            proof {
                let pre = self.primary@.subrange(0, i as int);
                let cur = self.primary@.subrange(0, i + 1);
                assert(cur.drop_last() =~= pre);
                assert(cur.last() == self.primary@[i as int]);
            }
            if !(action_eq(e.1, action) || key_eq(e.0, key)) {
                kept.push(e);
            }
            proof {
                assert(kept@ =~= retained(self.primary@.subrange(0, i + 1), key, action));
            }
            i = i + 1;
        }
        proof {
            assert(self.primary@.subrange(0, n as int) =~= self.primary@);
        }
        kept.push((key, action));
        self.primary = kept;
        proof {
            assert(opt_view(*spec_str) == Some(s@));
            assert(spec_parse_key(s@) == Some(key));
            assert(self.primary@ =~= retained(old(self).primary@, key, action).push(
                (key, action),
            ));
        }
    }
}

/// First binding for `k`, scanning front to back.
fn lookup(table: &Vec<(KeyPress, Action)>, k: KeyPress) -> (r: Option<Action>)
    ensures
        r == assoc(table@, k),
{
    let n = table.len();
    let mut i: usize = 0;
    proof {
        assert(table@.subrange(0, n as int) =~= table@);
    }
    while i < n
        invariant
            n == table@.len(),
            i <= n,
            assoc(table@, k) == assoc(table@.subrange(i as int, n as int), k),
        decreases n - i,
    {
        proof {
            assert(table@.subrange(i as int, n as int)[0] == table@[i as int]);
            assert(table@.subrange(i as int, n as int).drop_first() =~= table@.subrange(
                i + 1,
                n as int,
            ));
        }
        if key_eq(table[i].0, k) {
            return Some(table[i].1);
        }
        i = i + 1;
    }
    None
}

/// Structural equality of two actions.
fn action_eq(a: Action, b: Action) -> (r: bool)
    ensures
        r == (a == b),
{
    a == b
}

/// Structural equality of two key presses.
fn key_eq(a: KeyPress, b: KeyPress) -> (r: bool)
    ensures
        r == (a == b),
{
    a == b
}

} // verus!
