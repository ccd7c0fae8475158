//! Keybinding configuration for terminal actions
//!
//! Power users can customize every aspect of keyboard interaction.
use vstd::prelude::*;
use crate::text::{
    str_to_lowercase, lowered, str_to_string, chars_of, parse_usize, parsed_usize, push_char, all_ascii,
    ascii_lowered,
};

verus! {

/// Keyboard modifiers
#[derive(Debug, Clone, Copy, PartialEq, Eq, Hash, Structural)]
pub struct Modifiers {
    pub ctrl: bool,
    pub alt: bool,
    pub shift: bool,
    pub super_key: bool,
}

/// No modifier held.
pub open spec fn no_modifiers() -> Modifiers {
    Modifiers { ctrl: false, alt: false, shift: false, super_key: false }
}

impl Default for Modifiers {
    fn default() -> (r: Self)
        ensures
            r == no_modifiers(),
    {
        Modifiers { ctrl: false, alt: false, shift: false, super_key: false }
    }
}

/// Append the characters of `s` to `out`.
pub fn push_str(out: &mut String, s: &str)
    ensures
        final(out)@ == old(out)@ + s@,
{
    let cs = chars_of(s);
    let ghost start = out@;
    let mut i: usize = 0;
    while i < cs.len()
        invariant
            i <= cs@.len(),
            out@ == start + cs@.take(i as int),
        decreases cs@.len() - i,
    {
        push_char(out, cs[i]);
        i += 1;
        assert(cs@.take(i as int) =~= cs@.take(i - 1).push(cs@[i - 1]));
    }
    assert(cs@.take(cs@.len() as int) =~= s@);
}

/// Whether the characters of `v` are those of `w`.
pub fn chars_are(v: &Vec<char>, w: &str) -> (r: bool)
    ensures
        r == (v@ == w@),
{
    let wc = chars_of(w);
    if v.len() != wc.len() {
        return false;
    }
    let mut i: usize = 0;
    while i < v.len()
        invariant
            i <= v@.len(),
            v@.len() == wc@.len(),
            wc@ == w@,
            v@.take(i as int) == wc@.take(i as int),
        decreases v@.len() - i,
    {
        if v[i] != wc[i] {
            assert(v@[i as int] != w@[i as int]);
            return false;
        }
        i += 1;
        assert(v@.take(i as int) =~= v@.take(i - 1).push(v@[i - 1]));
        assert(wc@.take(i as int) =~= wc@.take(i - 1).push(wc@[i - 1]));
    }
    assert(v@ =~= v@.take(i as int));
    assert(wc@ =~= wc@.take(i as int));
    true
}

/// The names of the held modifiers, in the order ctrl, alt, shift, super.
pub open spec fn modifier_words(m: Modifiers) -> Seq<Seq<char>> {
    (if m.ctrl { seq!["ctrl"@] } else { Seq::empty() }) + (if m.alt { seq!["alt"@] } else { Seq::empty() }) + (
    if m.shift {
        seq!["shift"@]
    } else {
        Seq::empty()
    }) + (if m.super_key { seq!["super"@] } else { Seq::empty() })
}

/// The text of modifiers as `ctrl+alt+shift+super` (those that are held).
pub open spec fn modifiers_label(m: Modifiers) -> Seq<char> {
    joined_plus(modifier_words(m))
}

/// A key combo written out: the held modifiers, then the key, joined by `+`.
pub open spec fn combo_text(m: Modifiers, key: Seq<char>) -> Seq<char> {
    joined_plus(modifier_words(m).push(key))
}

/// Strings joined with `+` between them.
pub open spec fn joined_plus(parts: Seq<Seq<char>>) -> Seq<char>
    decreases parts.len(),
{
    if parts.len() == 0 {
        Seq::empty()
    } else if parts.len() == 1 {
        parts[0]
    } else {
        joined_plus(parts.drop_last()) + seq!['+'] + parts.last()
    }
}

impl Modifiers {
    pub fn none() -> (r: Self)
        ensures
            r == no_modifiers(),
    {
        Self::default()
    }

    pub fn ctrl() -> (r: Self)
        ensures
            r == (Modifiers { ctrl: true, ..no_modifiers() }),
    {
        Modifiers { ctrl: true, ..Self::default() }
    }

    pub fn alt() -> (r: Self)
        ensures
            r == (Modifiers { alt: true, ..no_modifiers() }),
    {
        Modifiers { alt: true, ..Self::default() }
    }

    pub fn shift() -> (r: Self)
        ensures
            r == (Modifiers { shift: true, ..no_modifiers() }),
    {
        Modifiers { shift: true, ..Self::default() }
    }

    pub fn ctrl_shift() -> (r: Self)
        ensures
            r == (Modifiers { ctrl: true, shift: true, ..no_modifiers() }),
    {
        Modifiers { ctrl: true, shift: true, ..Self::default() }
    }

    pub fn ctrl_alt() -> (r: Self)
        ensures
            r == (Modifiers { ctrl: true, alt: true, ..no_modifiers() }),
    {
        Modifiers { ctrl: true, alt: true, ..Self::default() }
    }

    /// The modifiers as text, e.g. `ctrl+shift`.
    pub fn to_string(&self) -> (r: String)
        ensures
            r@ == modifiers_label(*self),
    {
        let mut out = String::new();
        let mut count: usize = 0;
        let ghost mut parts: Seq<Seq<char>> = Seq::empty();
        if self.ctrl {
            push_str(&mut out, "ctrl");
            count += 1;
            proof {
                parts = parts.push("ctrl"@);
            }
        }
        assert(out@ == joined_plus(parts) && count == parts.len()) by {
            if self.ctrl {
                assert(out@ =~= "ctrl"@);
            } else {
                assert(out@ =~= Seq::<char>::empty());
            }
        }
        if self.alt {
            if count > 0 {
                push_char(&mut out, '+');
            }
            push_str(&mut out, "alt");
            count += 1;
            proof {
                let p0 = parts;
                parts = parts.push("alt"@);
                assert(parts.drop_last() =~= p0);
                if p0.len() == 0 {
                    assert(out@ =~= "alt"@);
                } else {
                    assert(out@ =~= joined_plus(p0) + seq!['+'] + "alt"@);
                }
            }
        }
        assert(out@ == joined_plus(parts) && count == parts.len());
        if self.shift {
            if count > 0 {
                push_char(&mut out, '+');
            }
            push_str(&mut out, "shift");
            count += 1;
            proof {
                let p0 = parts;
                parts = parts.push("shift"@);
                assert(parts.drop_last() =~= p0);
                if p0.len() == 0 {
                    assert(out@ =~= "shift"@);
                } else {
                    assert(out@ =~= joined_plus(p0) + seq!['+'] + "shift"@);
                }
            }
        }
        assert(out@ == joined_plus(parts) && count == parts.len());
        if self.super_key {
            if count > 0 {
                push_char(&mut out, '+');
            }
            push_str(&mut out, "super");
            count += 1;
            proof {
                let p0 = parts;
                parts = parts.push("super"@);
                assert(parts.drop_last() =~= p0);
                if p0.len() == 0 {
                    assert(out@ =~= "super"@);
                } else {
                    assert(out@ =~= joined_plus(p0) + seq!['+'] + "super"@);
                }
            }
        }
        assert(out@ == joined_plus(parts) && count == parts.len());
        proof {
            let a: Seq<Seq<char>> = if self.ctrl { seq!["ctrl"@] } else { Seq::empty() };
            let b: Seq<Seq<char>> = if self.alt { seq!["alt"@] } else { Seq::empty() };
            let c: Seq<Seq<char>> = if self.shift { seq!["shift"@] } else { Seq::empty() };
            let d: Seq<Seq<char>> = if self.super_key { seq!["super"@] } else { Seq::empty() };
            assert(parts =~= a + b + c + d);
        }
        out
    }
}

/// Terminal actions that can be bound to keys
#[derive(Debug, Clone, PartialEq, Eq)]
pub enum Action {
    // Clipboard
    Copy,
    Paste,
    PastePrimary,
    // Tabs
    NewTab,
    CloseTab,
    NextTab,
    PrevTab,
    /// Switch to a specific tab (1-indexed)
    Tab(usize),
    // Panes
    SplitHorizontal,
    SplitVertical,
    ClosePane,
    FocusUp,
    FocusDown,
    FocusLeft,
    FocusRight,
    ResizeUp(u32),
    ResizeDown(u32),
    ResizeLeft(u32),
    ResizeRight(u32),
    // Scrollback
    ScrollUp(usize),
    ScrollDown(usize),
    ScrollPageUp,
    ScrollPageDown,
    ScrollToTop,
    ScrollToBottom,
    // Font
    IncreaseFontSize,
    DecreaseFontSize,
    ResetFontSize,
    // Search
    SearchForward,
    SearchBackward,
    // Misc
    ReloadConfig,
    ToggleFullscreen,
    ResetTerminal,
    ClearScrollback,
    /// Send raw bytes to terminal
    SendBytes(Vec<u8>),
    SendText(String),
    /// Run a callback registered by the Lua configuration
    LuaCallback(usize),
    /// Load a named session from the Lua configuration
    LoadSession(String),
    /// No action (for documenting disabled defaults)
    Noop,
}

/// Mathematical model of an action.
pub enum ActionView {
    Copy,
    Paste,
    PastePrimary,
    NewTab,
    CloseTab,
    NextTab,
    PrevTab,
    Tab(usize),
    SplitHorizontal,
    SplitVertical,
    ClosePane,
    FocusUp,
    FocusDown,
    FocusLeft,
    FocusRight,
    ResizeUp(u32),
    ResizeDown(u32),
    ResizeLeft(u32),
    ResizeRight(u32),
    ScrollUp(usize),
    ScrollDown(usize),
    ScrollPageUp,
    ScrollPageDown,
    ScrollToTop,
    ScrollToBottom,
    IncreaseFontSize,
    DecreaseFontSize,
    ResetFontSize,
    SearchForward,
    SearchBackward,
    ReloadConfig,
    ToggleFullscreen,
    ResetTerminal,
    ClearScrollback,
    SendBytes(Seq<u8>),
    SendText(Seq<char>),
    LuaCallback(usize),
    LoadSession(Seq<char>),
    Noop,
}

impl View for Action {
    type V = ActionView;

    open spec fn view(&self) -> ActionView {
        match self {
            Action::Copy => ActionView::Copy,
            Action::Paste => ActionView::Paste,
            Action::PastePrimary => ActionView::PastePrimary,
            Action::NewTab => ActionView::NewTab,
            Action::CloseTab => ActionView::CloseTab,
            Action::NextTab => ActionView::NextTab,
            Action::PrevTab => ActionView::PrevTab,
            Action::Tab(n) => ActionView::Tab(*n),
            Action::SplitHorizontal => ActionView::SplitHorizontal,
            Action::SplitVertical => ActionView::SplitVertical,
            Action::ClosePane => ActionView::ClosePane,
            Action::FocusUp => ActionView::FocusUp,
            Action::FocusDown => ActionView::FocusDown,
            Action::FocusLeft => ActionView::FocusLeft,
            Action::FocusRight => ActionView::FocusRight,
            Action::ResizeUp(n) => ActionView::ResizeUp(*n),
            Action::ResizeDown(n) => ActionView::ResizeDown(*n),
            Action::ResizeLeft(n) => ActionView::ResizeLeft(*n),
            Action::ResizeRight(n) => ActionView::ResizeRight(*n),
            Action::ScrollUp(n) => ActionView::ScrollUp(*n),
            Action::ScrollDown(n) => ActionView::ScrollDown(*n),
            Action::ScrollPageUp => ActionView::ScrollPageUp,
            Action::ScrollPageDown => ActionView::ScrollPageDown,
            Action::ScrollToTop => ActionView::ScrollToTop,
            Action::ScrollToBottom => ActionView::ScrollToBottom,
            Action::IncreaseFontSize => ActionView::IncreaseFontSize,
            Action::DecreaseFontSize => ActionView::DecreaseFontSize,
            Action::ResetFontSize => ActionView::ResetFontSize,
            Action::SearchForward => ActionView::SearchForward,
            Action::SearchBackward => ActionView::SearchBackward,
            Action::ReloadConfig => ActionView::ReloadConfig,
            Action::ToggleFullscreen => ActionView::ToggleFullscreen,
            Action::ResetTerminal => ActionView::ResetTerminal,
            Action::ClearScrollback => ActionView::ClearScrollback,
            Action::SendBytes(b) => ActionView::SendBytes(b@),
            Action::SendText(t) => ActionView::SendText(t@),
            Action::LuaCallback(i) => ActionView::LuaCallback(*i),
            Action::LoadSession(n) => ActionView::LoadSession(n@),
            Action::Noop => ActionView::Noop,
        }
    }
}

/// The model of an optional action.
pub open spec fn opt_action_view(a: Option<Action>) -> Option<ActionView> {
    match a {
        Some(x) => Some(x@),
        None => None,
    }
}

/// The action a normalized name (lower case, without `-` and `_`) stands for.
pub open spec fn action_for_name(n: Seq<char>) -> Option<ActionView> {
    if n == "copy"@ {
        Some(ActionView::Copy)
    } else if n == "paste"@ {
        Some(ActionView::Paste)
    } else if n == "pasteprimary"@ {
        Some(ActionView::PastePrimary)
    } else if n == "newtab"@ {
        Some(ActionView::NewTab)
    } else if n == "closetab"@ {
        Some(ActionView::CloseTab)
    } else if n == "nexttab"@ {
        Some(ActionView::NextTab)
    } else if n == "prevtab"@ {
        Some(ActionView::PrevTab)
    } else if n == "splithorizontal"@ || n == "hsplit"@ {
        Some(ActionView::SplitHorizontal)
    } else if n == "splitvertical"@ || n == "vsplit"@ {
        Some(ActionView::SplitVertical)
    } else if n == "closepane"@ {
        Some(ActionView::ClosePane)
    } else if n == "focusup"@ {
        Some(ActionView::FocusUp)
    } else if n == "focusdown"@ {
        Some(ActionView::FocusDown)
    } else if n == "focusleft"@ {
        Some(ActionView::FocusLeft)
    } else if n == "focusright"@ {
        Some(ActionView::FocusRight)
    } else if n == "scrollup"@ {
        Some(ActionView::ScrollUp(3))
    } else if n == "scrolldown"@ {
        Some(ActionView::ScrollDown(3))
    } else if n == "scrollpageup"@ || n == "pageup"@ {
        Some(ActionView::ScrollPageUp)
    } else if n == "scrollpagedown"@ || n == "pagedown"@ {
        Some(ActionView::ScrollPageDown)
    } else if n == "scrolltotop"@ || n == "top"@ {
        Some(ActionView::ScrollToTop)
    } else if n == "scrolltobottom"@ || n == "bottom"@ {
        Some(ActionView::ScrollToBottom)
    } else if n == "increasefontsize"@ || n == "zoomin"@ || n == "fontup"@ {
        Some(ActionView::IncreaseFontSize)
    } else if n == "decreasefontsize"@ || n == "zoomout"@ || n == "fontdown"@ {
        Some(ActionView::DecreaseFontSize)
    } else if n == "resetfontsize"@ || n == "zoomreset"@ || n == "fontreset"@ {
        Some(ActionView::ResetFontSize)
    } else if n == "searchforward"@ || n == "search"@ {
        Some(ActionView::SearchForward)
    } else if n == "searchbackward"@ {
        Some(ActionView::SearchBackward)
    } else if n == "reloadconfig"@ || n == "reload"@ {
        Some(ActionView::ReloadConfig)
    } else if n == "togglefullscreen"@ || n == "fullscreen"@ {
        Some(ActionView::ToggleFullscreen)
    } else if n == "resetterminal"@ || n == "reset"@ {
        Some(ActionView::ResetTerminal)
    } else if n == "clearscrollback"@ || n == "clear"@ {
        Some(ActionView::ClearScrollback)
    } else if n == "none"@ || n == "noop"@ || n == "disabled"@ {
        Some(ActionView::Noop)
    } else {
        None
    }
}

/// A string without its `-` and `_` characters.
pub open spec fn without_separators(s: Seq<char>) -> Seq<char> {
    s.filter(|c: char| c != '-' && c != '_')
}

/// Whether `s` starts with `p`.
pub open spec fn has_prefix(s: Seq<char>, p: Seq<char>) -> bool {
    s.len() >= p.len() && s.take(p.len() as int) == p
}

/// The action a configuration string names: `tab_N`, `scroll_up_N` and
/// `scroll_down_N` carry a number; other names are compared in lower case
/// without `-` and `_`.
pub open spec fn action_from_str(s: Seq<char>) -> Option<ActionView> {
    if has_prefix(s, "tab_"@) {
        match parsed_usize(s.skip(4)) {
            Some(n) => Some(ActionView::Tab(n)),
            None => None,
        }
    } else if has_prefix(s, "scroll_up_"@) {
        match parsed_usize(s.skip(10)) {
            Some(n) => Some(ActionView::ScrollUp(n)),
            None => None,
        }
    } else if has_prefix(s, "scroll_down_"@) {
        match parsed_usize(s.skip(12)) {
            Some(n) => Some(ActionView::ScrollDown(n)),
            None => None,
        }
    } else {
        action_for_name(without_separators(lowered(s)))
    }
}

/// The characters of `v` from position `k` on, as a string.
fn string_from(v: &Vec<char>, k: usize) -> (r: String)
    requires
        k <= v@.len(),
    ensures
        r@ == v@.skip(k as int),
{
    let mut out = String::new();
    let mut i = k;
    while i < v.len()
        invariant
            k <= i <= v@.len(),
            out@ == v@.subrange(k as int, i as int),
        decreases v@.len() - i,
    {
        push_char(&mut out, v[i]);
        i += 1;
        assert(v@.subrange(k as int, i as int) =~= v@.subrange(k as int, i - 1).push(v@[i - 1]));
    }
    assert(v@.subrange(k as int, i as int) =~= v@.skip(k as int));
    out
}

/// Whether `v` starts with the characters of `p`.
fn starts_with(v: &Vec<char>, p: &str) -> (r: bool)
    ensures
        r == has_prefix(v@, p@),
{
    let pc = chars_of(p);
    if v.len() < pc.len() {
        return false;
    }
    let mut i: usize = 0;
    while i < pc.len()
        invariant
            i <= pc@.len() <= v@.len(),
            pc@ == p@,
            v@.take(i as int) == pc@.take(i as int),
        decreases pc@.len() - i,
    {
        if v[i] != pc[i] {
            assert(v@.take(pc@.len() as int)[i as int] != p@[i as int]);
            return false;
        }
        i += 1;
        assert(v@.take(i as int) =~= v@.take(i - 1).push(v@[i - 1]));
        assert(pc@.take(i as int) =~= pc@.take(i - 1).push(pc@[i - 1]));
    }
    assert(pc@ =~= pc@.take(i as int));
    true
}

impl Action {
    /// The action a normalized name stands for (lower case, without `-` and `_`).
    pub fn from_normalized_name(n: &Vec<char>) -> (r: Option<Action>)
        ensures
            opt_action_view(r) == action_for_name(n@),
    {
        if chars_are(n, "copy") {
            Some(Action::Copy)
        } else if chars_are(n, "paste") {
            Some(Action::Paste)
        } else if chars_are(n, "pasteprimary") {
            Some(Action::PastePrimary)
        } else if chars_are(n, "newtab") {
            Some(Action::NewTab)
        } else if chars_are(n, "closetab") {
            Some(Action::CloseTab)
        } else if chars_are(n, "nexttab") {
            Some(Action::NextTab)
        } else if chars_are(n, "prevtab") {
            Some(Action::PrevTab)
        } else if chars_are(n, "splithorizontal") || chars_are(n, "hsplit") {
            Some(Action::SplitHorizontal)
        } else if chars_are(n, "splitvertical") || chars_are(n, "vsplit") {
            Some(Action::SplitVertical)
        } else if chars_are(n, "closepane") {
            Some(Action::ClosePane)
        } else if chars_are(n, "focusup") {
            Some(Action::FocusUp)
        } else if chars_are(n, "focusdown") {
            Some(Action::FocusDown)
        } else if chars_are(n, "focusleft") {
            Some(Action::FocusLeft)
        } else if chars_are(n, "focusright") {
            Some(Action::FocusRight)
        } else if chars_are(n, "scrollup") {
            Some(Action::ScrollUp(3))
        } else if chars_are(n, "scrolldown") {
            Some(Action::ScrollDown(3))
        } else if chars_are(n, "scrollpageup") || chars_are(n, "pageup") {
            Some(Action::ScrollPageUp)
        } else if chars_are(n, "scrollpagedown") || chars_are(n, "pagedown") {
            Some(Action::ScrollPageDown)
        } else if chars_are(n, "scrolltotop") || chars_are(n, "top") {
            Some(Action::ScrollToTop)
        } else if chars_are(n, "scrolltobottom") || chars_are(n, "bottom") {
            Some(Action::ScrollToBottom)
        } else if chars_are(n, "increasefontsize") || chars_are(n, "zoomin") || chars_are(n, "fontup") {
            Some(Action::IncreaseFontSize)
        } else if chars_are(n, "decreasefontsize") || chars_are(n, "zoomout") || chars_are(n, "fontdown") {
            Some(Action::DecreaseFontSize)
        } else if chars_are(n, "resetfontsize") || chars_are(n, "zoomreset") || chars_are(n, "fontreset") {
            Some(Action::ResetFontSize)
        } else if chars_are(n, "searchforward") || chars_are(n, "search") {
            Some(Action::SearchForward)
        } else if chars_are(n, "searchbackward") {
            Some(Action::SearchBackward)
        } else if chars_are(n, "reloadconfig") || chars_are(n, "reload") {
            Some(Action::ReloadConfig)
        } else if chars_are(n, "togglefullscreen") || chars_are(n, "fullscreen") {
            Some(Action::ToggleFullscreen)
        } else if chars_are(n, "resetterminal") || chars_are(n, "reset") {
            Some(Action::ResetTerminal)
        } else if chars_are(n, "clearscrollback") || chars_are(n, "clear") {
            Some(Action::ClearScrollback)
        } else if chars_are(n, "none") || chars_are(n, "noop") || chars_are(n, "disabled") {
            Some(Action::Noop)
        } else {
            None
        }
    }

    /// Parse action from string (for TOML config)
    pub fn from_str_loose(s: &str) -> (r: Option<Action>)
        ensures
            opt_action_view(r) == action_from_str(s@),
    {
        let cs = chars_of(s);
        if starts_with(&cs, "tab_") {
            proof {
                reveal_strlit("tab_");
            }
            return match parse_usize(string_from(&cs, 4).as_str()) {
                Some(n) => Some(Action::Tab(n)),
                None => None,
            };
        }
        if starts_with(&cs, "scroll_up_") {
            proof {
                reveal_strlit("scroll_up_");
            }
            return match parse_usize(string_from(&cs, 10).as_str()) {
                Some(n) => Some(Action::ScrollUp(n)),
                None => None,
            };
        }
        if starts_with(&cs, "scroll_down_") {
            proof {
                reveal_strlit("scroll_down_");
            }
            return match parse_usize(string_from(&cs, 12).as_str()) {
                Some(n) => Some(Action::ScrollDown(n)),
                None => None,
            };
        }
        let lower = chars_of(str_to_lowercase(s).as_str());
        let mut name: Vec<char> = Vec::new();
        let mut i: usize = 0;
        while i < lower.len()
            invariant
                i <= lower@.len(),
                name@ == without_separators(lower@.take(i as int)),
            decreases lower@.len() - i,
        {
            let c = lower[i];
            proof {
                reveal(Seq::filter);
                assert(lower@.take(i + 1).drop_last() =~= lower@.take(i as int));
            }
            if c != '-' && c != '_' {
                name.push(c);
            }
            i += 1;
        }
        assert(lower@.take(i as int) =~= lower@);
        Self::from_normalized_name(&name)
    }
}

/// A keybinding mapping a key combo to an action
#[derive(Debug, Clone, PartialEq, Eq)]
pub struct Keybind {
    pub modifiers: Modifiers,
    /// Key name like "t", "Return", "Up"
    pub key: String,
    pub action: Action,
}

/// Mathematical model of a keybinding.
pub struct KeybindView {
    pub modifiers: Modifiers,
    pub key: Seq<char>,
    pub action: ActionView,
}

impl View for Keybind {
    type V = KeybindView;

    open spec fn view(&self) -> KeybindView {
        KeybindView { modifiers: self.modifiers, key: self.key@, action: self.action@ }
    }
}

/// The parts of a string split at `+`, continuing a part that so far holds `cur`.
pub open spec fn split_plus_from(cur: Seq<char>, rest: Seq<char>) -> Seq<Seq<char>>
    decreases rest.len(),
{
    if rest.len() == 0 {
        seq![cur]
    } else if rest[0] == '+' {
        seq![cur] + split_plus_from(Seq::empty(), rest.skip(1))
    } else {
        split_plus_from(cur.push(rest[0]), rest.skip(1))
    }
}

/// The parts of a string split at `+` (as `str::split('+')`: never empty).
pub open spec fn split_plus(s: Seq<char>) -> Seq<Seq<char>> {
    split_plus_from(Seq::empty(), s)
}

/// The modifiers and key after reading `parts` from position `i` on: each
/// part (compared in lower case) sets a modifier or else is the key; the
/// last such part wins.
pub open spec fn combo_from(parts: Seq<Seq<char>>, i: int, m: Modifiers, key: Option<Seq<char>>) -> (
    Modifiers,
    Option<Seq<char>>,
)
    decreases parts.len() - i,
{
    if i < 0 || i >= parts.len() {
        (m, key)
    } else {
        let l = lowered(parts[i]);
        if l == "ctrl"@ || l == "control"@ {
            combo_from(parts, i + 1, Modifiers { ctrl: true, ..m }, key)
        } else if l == "alt"@ || l == "meta"@ || l == "mod1"@ {
            combo_from(parts, i + 1, Modifiers { alt: true, ..m }, key)
        } else if l == "shift"@ {
            combo_from(parts, i + 1, Modifiers { shift: true, ..m }, key)
        } else if l == "super"@ || l == "mod4"@ || l == "win"@ || l == "cmd"@ {
            combo_from(parts, i + 1, Modifiers { super_key: true, ..m }, key)
        } else {
            combo_from(parts, i + 1, m, Some(parts[i]))
        }
    }
}

/// The modifiers and key of a key combo such as `ctrl+shift+t`; `None`
/// when no part names a key.
pub open spec fn key_combo(s: Seq<char>) -> Option<(Modifiers, Seq<char>)> {
    let (m, key) = combo_from(split_plus(s), 0, no_modifiers(), None);
    match key {
        Some(k) => Some((m, k)),
        None => None,
    }
}

/// Split a string at `+`.
fn split_at_plus(s: &str) -> (r: Vec<String>)
    ensures
        r@.len() == split_plus(s@).len(),
        forall|i: int| 0 <= i < r@.len() ==> #[trigger] r@[i]@ == split_plus(s@)[i],
{
    let cs = chars_of(s);
    let mut parts: Vec<String> = Vec::new();
    let mut cur = String::new();
    let ghost mut done: Seq<Seq<char>> = Seq::empty();
    let mut i: usize = 0;
    assert(cs@.skip(0) =~= cs@);
    while i < cs.len()
        invariant
            i <= cs@.len(),
            cs@ == s@,
            parts@.len() == done.len(),
            forall|j: int| 0 <= j < parts@.len() ==> #[trigger] parts@[j]@ == done[j],
            done + split_plus_from(cur@, cs@.skip(i as int)) == split_plus(s@),
        decreases cs@.len() - i,
    {
        let ghost rest = cs@.skip(i as int);
        assert(rest.skip(1) =~= cs@.skip(i + 1));
        if cs[i] == '+' {
            let mut finished = String::new();
            std::mem::swap(&mut cur, &mut finished);
            proof {
                assert(done.push(finished@) + split_plus_from(Seq::empty(), rest.skip(1)) =~= done + (seq![
                    finished@,
                ] + split_plus_from(Seq::empty(), rest.skip(1))));
                done = done.push(finished@);
            }
            parts.push(finished);
        } else {
            push_char(&mut cur, cs[i]);
        }
        i += 1;
    }
    proof {
        assert(cs@.skip(i as int) =~= Seq::<char>::empty());
        assert(done.push(cur@) =~= done + seq![cur@]);
        done = done.push(cur@);
    }
    parts.push(cur);
    parts
}

impl Keybind {
    pub fn new(modifiers: Modifiers, key: &str, action: Action) -> (r: Self)
        ensures
            r@ == (KeybindView { modifiers, key: key@, action: action@ }),
    {
        Keybind { modifiers, key: str_to_string(key), action }
    }

    /// Parse a keybind string like "ctrl+shift+t"
    pub fn parse_key_combo(s: &str) -> (r: Option<(Modifiers, String)>)
        ensures
            match r {
                Some((m, k)) => key_combo(s@) == Some((m, k@)),
                None => key_combo(s@) is None,
            },
    {
        let parts = split_at_plus(s);
        let ghost ps = split_plus(s@);
        let mut modifiers = Modifiers::default();
        let mut key: Option<String> = None;
        let mut i: usize = 0;
        while i < parts.len()
            invariant
                i <= parts@.len(),
                parts@.len() == ps.len(),
                forall|j: int| 0 <= j < parts@.len() ==> #[trigger] parts@[j]@ == ps[j],
                ps == split_plus(s@),
                combo_from(ps, 0, no_modifiers(), None) == combo_from(
                    ps,
                    i as int,
                    modifiers,
                    match key {
                        Some(k) => Some(k@),
                        None => None,
                    },
                ),
            decreases parts@.len() - i,
        {
            assert(parts@[i as int]@ == ps[i as int]);
            let lower = str_to_lowercase(parts[i].as_str());
            let l = chars_of(lower.as_str());
            if chars_are(&l, "ctrl") || chars_are(&l, "control") {
                modifiers.ctrl = true;
            } else if chars_are(&l, "alt") || chars_are(&l, "meta") || chars_are(&l, "mod1") {
                modifiers.alt = true;
            } else if chars_are(&l, "shift") {
                modifiers.shift = true;
            } else if chars_are(&l, "super") || chars_are(&l, "mod4") || chars_are(&l, "win") || chars_are(
                &l,
                "cmd",
            ) {
                modifiers.super_key = true;
            } else {
                key = Some(parts[i].clone());
            }
            i += 1;
        }
        match key {
            Some(k) => Some((modifiers, k)),
            None => None,
        }
    }
}

/// The bit set of modifiers used to index keybindings.
pub open spec fn modifier_bits(m: Modifiers) -> u8 {
    ((if m.ctrl { 1int } else { 0 }) + (if m.alt { 2int } else { 0 }) + (if m.shift { 4int } else { 0 }) + (
    if m.super_key { 8int } else { 0 })) as u8
}

/// The key under which a binding is looked up: its modifiers and the lower
/// case of its key name.
pub open spec fn lookup_key(m: Modifiers, key: Seq<char>) -> (u8, Seq<char>) {
    (modifier_bits(m), lowered(key))
}

/// The position of the first binding with lookup key `k`.
pub open spec fn position_of(binds: Seq<KeybindView>, k: (u8, Seq<char>)) -> Option<int>
    decreases binds.len(),
{
    if binds.len() == 0 {
        None
    } else {
        match position_of(binds.drop_last(), k) {
            Some(i) => Some(i),
            None => if lookup_key(binds.last().modifiers, binds.last().key) == k {
                Some(binds.len() - 1)
            } else {
                None
            },
        }
    }
}

/// Adding a binding: it replaces the one with the same lookup key, or is
/// appended.
pub open spec fn binding_added(binds: Seq<KeybindView>, b: KeybindView) -> Seq<KeybindView> {
    match position_of(binds, lookup_key(b.modifiers, b.key)) {
        Some(i) => binds.update(i, b),
        None => binds.push(b),
    }
}

/// The bindings after adding each of `list`, in order.
pub open spec fn bindings_added(binds: Seq<KeybindView>, list: Seq<KeybindView>) -> Seq<KeybindView>
    decreases list.len(),
{
    if list.len() == 0 {
        binds
    } else {
        binding_added(bindings_added(binds, list.drop_last()), list.last())
    }
}

/// Collection of keybindings; a key combo (modifiers, key name in any case)
/// has at most one binding.
#[derive(Debug, Clone)]
pub struct KeybindSet {
    binds: Vec<Keybind>,
}

impl View for KeybindSet {
    type V = Seq<KeybindView>;

    closed spec fn view(&self) -> Seq<KeybindView> {
        self.binds@.map_values(|b: Keybind| b@)
    }
}

/// The default keybindings, in the order they are added.
pub open spec fn default_bindings() -> Seq<KeybindView> {
    let cs = Modifiers { ctrl: true, shift: true, ..no_modifiers() };
    let a = Modifiers { alt: true, ..no_modifiers() };
    let s = Modifiers { shift: true, ..no_modifiers() };
    seq![
        KeybindView { modifiers: cs, key: "c"@, action: ActionView::Copy },
        KeybindView { modifiers: cs, key: "v"@, action: ActionView::Paste },
        KeybindView { modifiers: a, key: "t"@, action: ActionView::NewTab },
        KeybindView { modifiers: a, key: "w"@, action: ActionView::ClosePane },
        KeybindView { modifiers: a, key: "h"@, action: ActionView::SplitHorizontal },
        KeybindView { modifiers: a, key: "v"@, action: ActionView::SplitVertical },
        KeybindView { modifiers: a, key: "up"@, action: ActionView::FocusUp },
        KeybindView { modifiers: a, key: "down"@, action: ActionView::FocusDown },
        KeybindView { modifiers: a, key: "left"@, action: ActionView::FocusLeft },
        KeybindView { modifiers: a, key: "right"@, action: ActionView::FocusRight },
        KeybindView { modifiers: s, key: "page_up"@, action: ActionView::ScrollPageUp },
        KeybindView { modifiers: s, key: "page_down"@, action: ActionView::ScrollPageDown },
        KeybindView { modifiers: cs, key: "home"@, action: ActionView::ScrollToTop },
        KeybindView { modifiers: cs, key: "end"@, action: ActionView::ScrollToBottom },
        KeybindView { modifiers: cs, key: "equal"@, action: ActionView::IncreaseFontSize },
        KeybindView { modifiers: cs, key: "plus"@, action: ActionView::IncreaseFontSize },
        KeybindView { modifiers: cs, key: "minus"@, action: ActionView::DecreaseFontSize },
        KeybindView { modifiers: cs, key: "0"@, action: ActionView::ResetFontSize },
        KeybindView { modifiers: cs, key: "f"@, action: ActionView::SearchForward },
        KeybindView { modifiers: cs, key: "r"@, action: ActionView::ReloadConfig },
    ]
}

impl KeybindSet {
    pub fn new() -> (r: Self)
        ensures
            r@ == Seq::<KeybindView>::empty(),
    {
        let r = KeybindSet { binds: Vec::new() };
        assert(r@ =~= Seq::<KeybindView>::empty());
        r
    }

    fn modifiers_to_bits(&self, m: &Modifiers) -> (r: u8)
        ensures
            r == modifier_bits(*m),
    {
        let mut bits = 0u8;
        if m.ctrl {
            bits = bits + 1;
        }
        if m.alt {
            bits = bits + 2;
        }
        if m.shift {
            bits = bits + 4;
        }
        if m.super_key {
            bits = bits + 8;
        }
        bits
    }

    /// The position of the binding for a lookup key.
    fn find(&self, bits: u8, lower: &Vec<char>) -> (r: Option<usize>)
        ensures
            match r {
                Some(i) => position_of(self@, (bits, lower@)) == Some(i as int) && i < self@.len(),
                None => position_of(self@, (bits, lower@)) is None,
            },
    {
        let mut i: usize = 0;
        while i < self.binds.len()
            invariant
                i <= self.binds@.len(),
                position_of(self@.take(i as int), (bits, lower@)) is None,
            decreases self.binds@.len() - i,
        {
            let b = &self.binds[i];
            let k = chars_of(str_to_lowercase(b.key.as_str()).as_str());
            proof {
                assert(self@.take(i + 1).drop_last() =~= self@.take(i as int));
                assert(self@[i as int] == b@);
            }
            if self.modifiers_to_bits(&b.modifiers) == bits && vec_chars_eq(&k, lower) {
                proof {
                    lemma_position_prefix(self@, (bits, lower@), (i + 1) as int);
                }
                return Some(i);
            }
            i += 1;
        }
        proof {
            assert(self@.take(i as int) =~= self@);
        }
        None
    }

    /// Add a keybind, returning any conflicting keybind that was replaced
    pub fn add(&mut self, bind: Keybind) -> (r: Option<Keybind>)
        ensures
            final(self)@ == binding_added(old(self)@, bind@),
            match position_of(old(self)@, lookup_key(bind@.modifiers, bind@.key)) {
                Some(i) => r matches Some(o) && o@ == old(self)@[i],
                None => r is None,
            },
    {
        let bits = self.modifiers_to_bits(&bind.modifiers);
        let lower = chars_of(str_to_lowercase(bind.key.as_str()).as_str());
        let ghost bv = bind@;
        match self.find(bits, &lower) {
            Some(idx) => {
                let old_bind = self.binds.remove(idx);
                self.binds.insert(idx, bind);
                proof {
                    assert(self@ =~= old(self)@.update(idx as int, bv));
                }
                Some(old_bind)
            },
            None => {
                self.binds.push(bind);
                proof {
                    assert(self@ =~= old(self)@.push(bv));
                }
                None
            },
        }
    }

    /// Look up action for a key combo
    pub fn get(&self, modifiers: &Modifiers, key: &str) -> (r: Option<&Action>)
        ensures
            match position_of(self@, lookup_key(*modifiers, key@)) {
                Some(i) => r matches Some(a) && a@ == self@[i].action,
                None => r is None,
            },
    {
        let bits = self.modifiers_to_bits(modifiers);
        let lower = chars_of(str_to_lowercase(key).as_str());
        match self.find(bits, &lower) {
            Some(idx) => {
                assert(self@[idx as int] == self.binds@[idx as int]@);
                Some(&self.binds[idx].action)
            },
            None => None,
        }
    }

    /// Get all keybinds
    pub fn iter(&self) -> (r: &Vec<Keybind>)
        ensures
            r@.map_values(|b: Keybind| b@) == self@,
    {
        &self.binds
    }

    /// Create default keybindings
    /// Uses Alt+key for tabs/panes to avoid conflicts with window managers
    pub fn defaults() -> (r: Self)
        ensures
            r@ == bindings_added(Seq::empty(), default_bindings()),
    {
        let mut set = Self::new();
        let cs = Modifiers::ctrl_shift();
        let a = Modifiers::alt();
        let s = Modifiers::shift();
        let ghost list = default_bindings();
        let ghost mut n: int = 0;
        proof {
            assert(list.take(0) =~= Seq::<KeybindView>::empty());
        }
        // Clipboard (Ctrl+Shift is standard terminal convention)
        set.add_default(cs, "c", Action::Copy, Ghost(0));
        set.add_default(cs, "v", Action::Paste, Ghost(1));
        // Tabs (Alt+key to avoid WM conflicts)
        set.add_default(a, "t", Action::NewTab, Ghost(2));
        set.add_default(a, "w", Action::ClosePane, Ghost(3));
        // Splits (Alt+key)
        set.add_default(a, "h", Action::SplitHorizontal, Ghost(4));
        set.add_default(a, "v", Action::SplitVertical, Ghost(5));
        // Focus navigation (Alt+Arrow)
        set.add_default(a, "up", Action::FocusUp, Ghost(6));
        set.add_default(a, "down", Action::FocusDown, Ghost(7));
        set.add_default(a, "left", Action::FocusLeft, Ghost(8));
        set.add_default(a, "right", Action::FocusRight, Ghost(9));
        // Scrollback
        set.add_default(s, "page_up", Action::ScrollPageUp, Ghost(10));
        set.add_default(s, "page_down", Action::ScrollPageDown, Ghost(11));
        set.add_default(cs, "home", Action::ScrollToTop, Ghost(12));
        set.add_default(cs, "end", Action::ScrollToBottom, Ghost(13));
        // Font size (Ctrl+Shift standard)
        set.add_default(cs, "equal", Action::IncreaseFontSize, Ghost(14));
        set.add_default(cs, "plus", Action::IncreaseFontSize, Ghost(15));
        set.add_default(cs, "minus", Action::DecreaseFontSize, Ghost(16));
        set.add_default(cs, "0", Action::ResetFontSize, Ghost(17));
        // Search
        set.add_default(cs, "f", Action::SearchForward, Ghost(18));
        // Misc
        set.add_default(cs, "r", Action::ReloadConfig, Ghost(19));
        proof {
            assert(list.take(20) =~= list);
        }
        set
    }

    /// Add entry `i` of the default bindings.
    fn add_default(&mut self, modifiers: Modifiers, key: &str, action: Action, Ghost(i): Ghost<int>)
        requires
            0 <= i < default_bindings().len(),
            old(self)@ == bindings_added(Seq::empty(), default_bindings().take(i)),
            (KeybindView { modifiers, key: key@, action: action@ }) == default_bindings()[i],
        ensures
            final(self)@ == bindings_added(Seq::empty(), default_bindings().take(i + 1)),
    {
        proof {
            assert(default_bindings().take(i + 1).drop_last() =~= default_bindings().take(i));
        }
        self.add(Keybind::new(modifiers, key, action));
    }
}

/// Whether two character vectors are equal.
fn vec_chars_eq(a: &Vec<char>, b: &Vec<char>) -> (r: bool)
    ensures
        r == (a@ == b@),
{
    if a.len() != b.len() {
        return false;
    }
    let mut i: usize = 0;
    while i < a.len()
        invariant
            i <= a@.len(),
            a@.len() == b@.len(),
            a@.take(i as int) == b@.take(i as int),
        decreases a@.len() - i,
    {
        if a[i] != b[i] {
            assert(a@[i as int] != b@[i as int]);
            return false;
        }
        i += 1;
        assert(a@.take(i as int) =~= a@.take(i - 1).push(a@[i - 1]));
        assert(b@.take(i as int) =~= b@.take(i - 1).push(b@[i - 1]));
    }
    assert(a@ =~= a@.take(i as int));
    assert(b@ =~= b@.take(i as int));
    true
}

/// When the first `k` bindings hold one with lookup key `key`, the first
/// such binding is also the first in the whole list.
proof fn lemma_position_prefix(binds: Seq<KeybindView>, key: (u8, Seq<char>), k: int)
    requires
        0 <= k <= binds.len(),
        position_of(binds.take(k), key) is Some,
    ensures
        position_of(binds, key) == position_of(binds.take(k), key),
    decreases binds.len(),
{
    if k < binds.len() {
        assert(binds.drop_last().take(k) =~= binds.take(k));
        lemma_position_prefix(binds.drop_last(), key, k);
    } else {
        assert(binds.take(k) =~= binds);
    }
}

/// `position_of` finds the first binding with the lookup key, and only one
/// that has it.
proof fn lemma_position_of_first(binds: Seq<KeybindView>, k: (u8, Seq<char>))
    ensures
        match position_of(binds, k) {
            Some(i) => {
                &&& 0 <= i < binds.len()
                &&& lookup_key(binds[i].modifiers, binds[i].key) == k
                &&& forall|j: int| 0 <= j < i ==> lookup_key(#[trigger] binds[j].modifiers, binds[j].key) != k
            },
            None => forall|j: int|
                0 <= j < binds.len() ==> lookup_key(#[trigger] binds[j].modifiers, binds[j].key) != k,
        },
    decreases binds.len(),
{
    if binds.len() > 0 {
        let d = binds.drop_last();
        lemma_position_of_first(d, k);
        assert forall|j: int| 0 <= j < d.len() implies #[trigger] d[j] == binds[j] by {}
        let last = binds.len() - 1;
        assert(binds[last] == binds.last());
        match position_of(d, k) {
            Some(i) => {
                assert(d[i] == binds[i]);
                assert forall|j: int| 0 <= j < i implies lookup_key(#[trigger] binds[j].modifiers, binds[j].key)
                    != k by {
                    assert(d[j] == binds[j]);
                }
            },
            None => {
                assert forall|j: int| 0 <= j < binds.len() - 1 implies lookup_key(
                    #[trigger] binds[j].modifiers,
                    binds[j].key,
                ) != k by {
                    assert(d[j] == binds[j]);
                }
            },
        }
    }
}

/// After a binding is added, looking up its key combo (the key name in any
/// case) finds exactly that binding.
pub proof fn lemma_added_binding_found(binds: Seq<KeybindView>, b: KeybindView)
    ensures
        position_of(binding_added(binds, b), lookup_key(b.modifiers, b.key)) matches Some(i)
            && binding_added(binds, b)[i] == b,
{
    let k = lookup_key(b.modifiers, b.key);
    let after = binding_added(binds, b);
    lemma_position_of_first(binds, k);
    lemma_position_of_first(after, k);
    match position_of(binds, k) {
        Some(i) => {
            assert(after[i] == b);
            assert forall|j: int| 0 <= j < i implies lookup_key(#[trigger] after[j].modifiers, after[j].key) != k by {
                assert(after[j] == binds[j]);
            }
        },
        None => {
            assert(after[binds.len() as int] == b);
            assert forall|j: int| 0 <= j < binds.len() implies lookup_key(
                #[trigger] after[j].modifiers,
                after[j].key,
            ) != k by {
                assert(after[j] == binds[j]);
            }
        },
    }
}

/// Adding a binding leaves every other key combo bound as it was.
pub proof fn lemma_other_bindings_kept(binds: Seq<KeybindView>, b: KeybindView, k: (u8, Seq<char>))
    requires
        k != lookup_key(b.modifiers, b.key),
    ensures
        position_of(binding_added(binds, b), k) == position_of(binds, k),
        position_of(binds, k) matches Some(i) ==> binding_added(binds, b)[i] == binds[i],
{
    let kb = lookup_key(b.modifiers, b.key);
    let after = binding_added(binds, b);
    lemma_position_of_first(binds, k);
    lemma_position_of_first(after, k);
    lemma_position_of_first(binds, kb);
    assert forall|j: int| 0 <= j < binds.len() && lookup_key(binds[j].modifiers, binds[j].key) == k
        implies #[trigger] after[j] == binds[j] by {}
    assert forall|j: int| 0 <= j < after.len() && !(0 <= j < binds.len())
        implies lookup_key(#[trigger] after[j].modifiers, after[j].key) != k by {
        assert(after[j] == b);
    }
    match position_of(binds, k) {
        Some(i) => {
            assert forall|j: int| 0 <= j < i implies lookup_key(#[trigger] after[j].modifiers, after[j].key) != k by {
                if lookup_key(after[j].modifiers, after[j].key) == k {
                    assert(after[j] == binds[j] || after[j] == b);
                }
            }
            assert(after[i] == binds[i]);
        },
        None => {
            assert forall|j: int| 0 <= j < after.len() implies lookup_key(
                #[trigger] after[j].modifiers,
                after[j].key,
            ) != k by {
                if j < binds.len() {
                    assert(after[j] == binds[j] || after[j] == b);
                }
            }
        },
    }
}

/// The key combo a binding is looked up by.
pub open spec fn combo_of(b: KeybindView) -> (u8, Seq<char>) {
    lookup_key(b.modifiers, b.key)
}

/// The key combos of bindings, in order.
pub open spec fn combos(binds: Seq<KeybindView>) -> Seq<(u8, Seq<char>)> {
    binds.map_values(|b: KeybindView| combo_of(b))
}

/// A key combo is found among bindings exactly when one of them has it.
proof fn lemma_found_iff_bound(binds: Seq<KeybindView>, k: (u8, Seq<char>))
    ensures
        position_of(binds, k) is Some <==> combos(binds).contains(k),
{
    lemma_position_of_first(binds, k);
    if combos(binds).contains(k) {
        let j = choose|j: int| 0 <= j < combos(binds).len() && combos(binds)[j] == k;
        assert(lookup_key(binds[j].modifiers, binds[j].key) == k);
    }
    match position_of(binds, k) {
        Some(i) => {
            assert(combos(binds)[i] == k);
        },
        None => {},
    }
}

/// Adding a binding keeps key combos distinct and adds its combo.
proof fn lemma_add_keeps_distinct(binds: Seq<KeybindView>, b: KeybindView)
    requires
        combos(binds).no_duplicates(),
    ensures
        combos(binding_added(binds, b)).no_duplicates(),
        combos(binding_added(binds, b)) == (if combos(binds).contains(combo_of(b)) {
            combos(binds)
        } else {
            combos(binds).push(combo_of(b))
        }),
{
    let k = combo_of(b);
    lemma_found_iff_bound(binds, k);
    lemma_position_of_first(binds, k);
    let after = binding_added(binds, b);
    match position_of(binds, k) {
        Some(p) => {
            assert(combos(after) =~= combos(binds));
        },
        None => {
            assert(combos(after) =~= combos(binds).push(k));
        },
    }
}

/// Where a key combo is first added in `list` (past the end when never).
pub open spec fn first_added(list: Seq<KeybindView>, k: (u8, Seq<char>)) -> int {
    match position_of(list, k) {
        Some(p) => p,
        None => list.len() as int,
    }
}

/// Bindings added one after another to no bindings come in the order in
/// which their key combos were first added.
pub proof fn lemma_bindings_in_first_added_order(list: Seq<KeybindView>)
    ensures
        forall|i: int, j: int|
            0 <= i < j < bindings_added(Seq::empty(), list).len() ==> first_added(
                list,
                combo_of(#[trigger] bindings_added(Seq::empty(), list)[i]),
            ) < first_added(list, combo_of(#[trigger] bindings_added(Seq::empty(), list)[j])),
    decreases list.len(),
{
    let e = Seq::<KeybindView>::empty();
    assert(combos(e) =~= Seq::empty());
    lemma_bindings_added_distinct(e, list);
    if list.len() > 0 {
        let init = list.drop_last();
        let b = list.last();
        let n = list.len() - 1;
        lemma_bindings_in_first_added_order(init);
        lemma_bindings_added_distinct(e, init);
        let r0 = bindings_added(e, init);
        let r = bindings_added(e, list);
        lemma_add_keeps_distinct(r0, b);
        assert(list.take(n) =~= init);
        // Every combo of `r0` was added in `init`, at the same first position.
        assert forall|i: int| 0 <= i < r0.len() implies position_of(init, combo_of(#[trigger] r0[i])) is Some
            && position_of(list, combo_of(r0[i])) == position_of(init, combo_of(r0[i])) by {
            assert(combos(r0)[i] == combo_of(r0[i]));
            assert(combos(r0).contains(combo_of(r0[i])));
            lemma_found_iff_bound(init, combo_of(r0[i]));
            lemma_position_prefix(list, combo_of(r0[i]), n);
        }
        lemma_found_iff_bound(r0, combo_of(b));
        lemma_position_of_first(r0, combo_of(b));
        match position_of(r0, combo_of(b)) {
            Some(p) => {
                assert forall|i: int| 0 <= i < r.len() implies combo_of(#[trigger] r[i]) == combo_of(r0[i]) by {}
            },
            None => {
                lemma_found_iff_bound(init, combo_of(b));
                assert(position_of(init, combo_of(b)) is None);
                assert(position_of(list, combo_of(b)) == Some(n));
                assert forall|i: int| 0 <= i < r0.len() implies #[trigger] r[i] == r0[i] by {}
                assert forall|i: int| 0 <= i < r0.len() implies first_added(init, combo_of(#[trigger] r0[i])) < n by {
                    lemma_position_of_first(init, combo_of(r0[i]));
                }
                assert(r[r0.len() as int] == b);
            },
        }
    }
}

/// Bindings added one after another to bindings whose key combos are
/// distinct (as the empty set's and the defaults' are): no two share a key
/// combo, there is one binding for each combo of the start and of the added
/// ones, and looking up each binding's combo finds that binding.
pub proof fn lemma_bindings_added_distinct(binds: Seq<KeybindView>, list: Seq<KeybindView>)
    requires
        combos(binds).no_duplicates(),
    ensures
        combos(bindings_added(binds, list)).no_duplicates(),
        forall|k: (u8, Seq<char>)|
            #[trigger] combos(bindings_added(binds, list)).contains(k) <==> combos(binds).contains(k) || combos(
                list,
            ).contains(k),
        bindings_added(binds, list).len() == combos(binds).to_set().union(combos(list).to_set()).len(),
        forall|i: int|
            0 <= i < bindings_added(binds, list).len() ==> position_of(
                bindings_added(binds, list),
                combo_of(#[trigger] bindings_added(binds, list)[i]),
            ) == Some(i),
    decreases list.len(),
{
    let r = bindings_added(binds, list);
    if list.len() == 0 {
        assert(combos(list) =~= Seq::empty());
    } else {
        let init = list.drop_last();
        let b = list.last();
        lemma_bindings_added_distinct(binds, init);
        let r0 = bindings_added(binds, init);
        lemma_add_keeps_distinct(r0, b);
        assert(combos(list) =~= combos(init).push(combo_of(b)));
        assert forall|k: (u8, Seq<char>)|
            #[trigger] combos(r).contains(k) <==> combos(binds).contains(k) || combos(list).contains(k) by {
            assert(combos(r0).contains(k) <==> combos(binds).contains(k) || combos(init).contains(k));
            if combos(list).contains(k) && !combos(init).contains(k) {
                assert(k == combo_of(b));
            }
            if combos(init).contains(k) {
                let j = choose|j: int| 0 <= j < combos(init).len() && combos(init)[j] == k;
                assert(combos(list)[j] == k);
            }
            if k == combo_of(b) {
                assert(combos(list)[list.len() - 1] == k);
            }
            if combos(r).contains(k) && !combos(r0).contains(k) {
                assert(k == combo_of(b));
            }
            if combos(r0).contains(k) && !combos(r0).contains(combo_of(b)) {
                let j = choose|j: int| 0 <= j < combos(r0).len() && combos(r0)[j] == k;
                assert(combos(r)[j] == k);
            }
            if k == combo_of(b) && !combos(r0).contains(combo_of(b)) {
                assert(combos(r)[combos(r0).len() as int] == k);
            }
        }
    }
    assert(combos(r).to_set() =~= combos(binds).to_set().union(combos(list).to_set()));
    combos(r).unique_seq_to_set();
    assert forall|i: int| 0 <= i < r.len() implies position_of(r, combo_of(#[trigger] r[i])) == Some(i) by {
        lemma_position_of_first(r, combo_of(r[i]));
        assert(combos(r)[i] == combo_of(r[i]));
        match position_of(r, combo_of(r[i])) {
            Some(p) => {
                assert(combos(r)[p] == combo_of(r[i]));
            },
            None => {},
        }
    }
}


/// Keybindings from the configuration file: key combo and action name, in
/// the order they are applied (e.g. `"ctrl+shift+t" = "new_tab"`).
#[derive(Debug, Clone, Default)]
pub struct KeybindConfig {
    pub bindings: Vec<(String, String)>,
}

/// The warning for a key combo that names no key.
pub open spec fn invalid_combo_warning(combo: Seq<char>) -> Seq<char> {
    "Invalid key combo: "@ + combo
}

/// The warning for an action name that is not known.
pub open spec fn unknown_action_warning(combo: Seq<char>, action: Seq<char>) -> Seq<char> {
    "Unknown action '"@ + action + "' for key '"@ + combo + "'"@
}

/// The bindings and warnings after applying configuration entries from
/// position `i` on.
pub open spec fn config_from(
    entries: Seq<(Seq<char>, Seq<char>)>,
    i: int,
    binds: Seq<KeybindView>,
    warnings: Seq<Seq<char>>,
) -> (Seq<KeybindView>, Seq<Seq<char>>)
    decreases entries.len() - i,
{
    if i < 0 || i >= entries.len() {
        (binds, warnings)
    } else {
        let (combo, action) = entries[i];
        match key_combo(combo) {
            None => config_from(entries, i + 1, binds, warnings.push(invalid_combo_warning(combo))),
            Some((m, key)) => match action_from_str(action) {
                None => config_from(
                    entries,
                    i + 1,
                    binds,
                    warnings.push(unknown_action_warning(combo, action)),
                ),
                Some(a) => config_from(
                    entries,
                    i + 1,
                    binding_added(binds, KeybindView { modifiers: m, key, action: a }),
                    warnings,
                ),
            },
        }
    }
}

/// The models of configuration entries.
pub open spec fn entries_view(e: Seq<(String, String)>) -> Seq<(Seq<char>, Seq<char>)> {
    e.map_values(|p: (String, String)| (p.0@, p.1@))
}

impl KeybindConfig {
    /// Convert to KeybindSet: the defaults with each valid entry added, and
    /// a warning for each entry that was skipped.
    pub fn to_keybind_set(&self) -> (r: (KeybindSet, Vec<String>))
        ensures
            (r.0@, r.1@.map_values(|w: String| w@)) == config_from(
                entries_view(self.bindings@),
                0,
                bindings_added(Seq::empty(), default_bindings()),
                Seq::empty(),
            ),
    {
        let mut set = KeybindSet::defaults();
        let mut warnings: Vec<String> = Vec::new();
        let ghost es = entries_view(self.bindings@);
        let mut i: usize = 0;
        assert(warnings@.map_values(|w: String| w@) =~= Seq::<Seq<char>>::empty());
        while i < self.bindings.len()
            invariant
                i <= self.bindings@.len(),
                es == entries_view(self.bindings@),
                config_from(es, 0, bindings_added(Seq::empty(), default_bindings()), Seq::empty())
                    == config_from(es, i as int, set@, warnings@.map_values(|w: String| w@)),
            decreases self.bindings@.len() - i,
        {
            let (combo, action_str) = &self.bindings[i];
            assert(es[i as int] == (combo@, action_str@));
            let ghost ws = warnings@.map_values(|w: String| w@);
            match Keybind::parse_key_combo(combo.as_str()) {
                None => {
                    let mut w = String::new();
                    push_str(&mut w, "Invalid key combo: ");
                    push_str(&mut w, combo.as_str());
                    warnings.push(w);
                    assert(warnings@.map_values(|w: String| w@) =~= ws.push(invalid_combo_warning(combo@)));
                },
                Some((modifiers, key)) => {
                    match Action::from_str_loose(action_str.as_str()) {
                        None => {
                            let mut w = String::new();
                            push_str(&mut w, "Unknown action '");
                            push_str(&mut w, action_str.as_str());
                            push_str(&mut w, "' for key '");
                            push_str(&mut w, combo.as_str());
                            push_str(&mut w, "'");
                            warnings.push(w);
                            assert(warnings@.map_values(|w: String| w@) =~= ws.push(
                                unknown_action_warning(combo@, action_str@),
                            ));
                        },
                        Some(action) => {
                            let k = Keybind { modifiers, key, action };
                            set.add(k);
                        },
                    }
                },
            }
            i += 1;
        }
        (set, warnings)
    }
}

/// Whether a lower-case word names a modifier in a key combo.
pub open spec fn names_modifier(l: Seq<char>) -> bool {
    ||| l == "ctrl"@
    ||| l == "control"@
    ||| l == "alt"@
    ||| l == "meta"@
    ||| l == "mod1"@
    ||| l == "shift"@
    ||| l == "super"@
    ||| l == "mod4"@
    ||| l == "win"@
    ||| l == "cmd"@
}

/// Text without `+` stays one part.
proof fn lemma_split_no_plus(cur: Seq<char>, rest: Seq<char>)
    requires
        !rest.contains('+'),
    ensures
        split_plus_from(cur, rest) == seq![cur + rest],
    decreases rest.len(),
{
    if rest.len() > 0 {
        assert(rest[0] != '+');
        assert(!rest.skip(1).contains('+')) by {
            if rest.skip(1).contains('+') {
                let j = choose|j: int| 0 <= j < rest.skip(1).len() && rest.skip(1)[j] == '+';
                assert(rest[j + 1] == '+');
            }
        }
        lemma_split_no_plus(cur.push(rest[0]), rest.skip(1));
        assert(cur.push(rest[0]) + rest.skip(1) =~= cur + rest);
    } else {
        assert(cur + rest =~= cur);
    }
}

/// Splitting text around a `+` splits each side on its own.
proof fn lemma_split_at_plus(cur: Seq<char>, a: Seq<char>, b: Seq<char>)
    ensures
        split_plus_from(cur, a + seq!['+'] + b) == split_plus_from(cur, a) + split_plus_from(Seq::empty(), b),
    decreases a.len(),
{
    let t = a + seq!['+'] + b;
    if a.len() == 0 {
        assert(t[0] == '+');
        assert(t.skip(1) =~= b);
    } else {
        assert(t[0] == a[0]);
        assert(t.skip(1) =~= a.skip(1) + seq!['+'] + b);
        if a[0] == '+' {
            lemma_split_at_plus(Seq::empty(), a.skip(1), b);
        } else {
            lemma_split_at_plus(cur.push(a[0]), a.skip(1), b);
        }
    }
}

/// Words without `+`, joined with `+`, split back into the same words.
proof fn lemma_split_joined(parts: Seq<Seq<char>>)
    requires
        parts.len() >= 1,
        forall|i: int| 0 <= i < parts.len() ==> !(#[trigger] parts[i]).contains('+'),
    ensures
        split_plus(joined_plus(parts)) == parts,
    decreases parts.len(),
{
    if parts.len() == 1 {
        lemma_split_no_plus(Seq::empty(), parts[0]);
        assert(Seq::<char>::empty() + parts[0] =~= parts[0]);
        assert(seq![parts[0]] =~= parts);
    } else {
        let init = parts.drop_last();
        assert forall|i: int| 0 <= i < init.len() implies !(#[trigger] init[i]).contains('+') by {
            assert(init[i] == parts[i]);
        }
        lemma_split_joined(init);
        lemma_split_at_plus(Seq::empty(), joined_plus(init), parts.last());
        assert(!parts[parts.len() - 1].contains('+'));
        lemma_split_no_plus(Seq::empty(), parts.last());
        assert(Seq::<char>::empty() + parts.last() =~= parts.last());
        assert(init + seq![parts.last()] =~= parts);
    }
}

/// Reading parts past the end of `a` in `a + b` reads `b`.
proof fn lemma_combo_skip(a: Seq<Seq<char>>, b: Seq<Seq<char>>, j: int, m: Modifiers, key: Option<Seq<char>>)
    requires
        0 <= j,
    ensures
        combo_from(a + b, a.len() + j, m, key) == combo_from(b, j, m, key),
    decreases b.len() - j,
{
    if j < b.len() {
        assert((a + b)[a.len() + j] == b[j]);
        let l = lowered(b[j]);
        lemma_combo_skip(a, b, j + 1, Modifiers { ctrl: true, ..m }, key);
        lemma_combo_skip(a, b, j + 1, Modifiers { alt: true, ..m }, key);
        lemma_combo_skip(a, b, j + 1, Modifiers { shift: true, ..m }, key);
        lemma_combo_skip(a, b, j + 1, Modifiers { super_key: true, ..m }, key);
        lemma_combo_skip(a, b, j + 1, m, Some(b[j]));
        assert(a.len() + j + 1 == a.len() + (j + 1));
    }
}

/// Reading `a + b` reads `a`, then `b` from where `a` left off.
proof fn lemma_combo_append(a: Seq<Seq<char>>, b: Seq<Seq<char>>, i: int, m: Modifiers, key: Option<Seq<char>>)
    requires
        0 <= i <= a.len(),
    ensures
        combo_from(a + b, i, m, key) == ({
            let (m1, k1) = combo_from(a, i, m, key);
            combo_from(b, 0, m1, k1)
        }),
    decreases a.len() - i,
{
    if i == a.len() {
        lemma_combo_skip(a, b, 0, m, key);
    } else {
        assert((a + b)[i] == a[i]);
        lemma_combo_append(a, b, i + 1, Modifiers { ctrl: true, ..m }, key);
        lemma_combo_append(a, b, i + 1, Modifiers { alt: true, ..m }, key);
        lemma_combo_append(a, b, i + 1, Modifiers { shift: true, ..m }, key);
        lemma_combo_append(a, b, i + 1, Modifiers { super_key: true, ..m }, key);
        lemma_combo_append(a, b, i + 1, m, Some(a[i]));
    }
}

/// A word written in lower-case ASCII reads as itself.
proof fn lemma_lowered_plain(w: Seq<char>)
    requires
        forall|i: int| 0 <= i < w.len() ==> 'a' <= #[trigger] w[i] <= 'z',
    ensures
        lowered(w) == w,
{
    assert(all_ascii(w));
    assert(ascii_lowered(w) =~= w);
}

/// What reading the name of each modifier does.
proof fn lemma_combo_words(m: Modifiers, key: Option<Seq<char>>)
    ensures
        combo_from(seq!["ctrl"@], 0, m, key) == (Modifiers { ctrl: true, ..m }, key),
        combo_from(seq!["alt"@], 0, m, key) == (Modifiers { alt: true, ..m }, key),
        combo_from(seq!["shift"@], 0, m, key) == (Modifiers { shift: true, ..m }, key),
        combo_from(seq!["super"@], 0, m, key) == (Modifiers { super_key: true, ..m }, key),
        combo_from(Seq::empty(), 0, m, key) == (m, key),
{
    reveal_strlit("ctrl");
    reveal_strlit("control");
    reveal_strlit("alt");
    reveal_strlit("meta");
    reveal_strlit("mod1");
    reveal_strlit("shift");
    reveal_strlit("super");
    lemma_lowered_plain("ctrl"@);
    lemma_lowered_plain("alt"@);
    lemma_lowered_plain("shift"@);
    lemma_lowered_plain("super"@);
    assert("alt"@ != "ctrl"@ && "alt"@ != "control"@);
    assert("shift"@ != "ctrl"@ && "shift"@ != "control"@ && "shift"@ != "alt"@ && "shift"@ != "meta"@
        && "shift"@ != "mod1"@);
    assert("super"@[1] != "shift"@[1]);
    assert(combo_from(seq!["ctrl"@], 1, Modifiers { ctrl: true, ..m }, key) == (Modifiers { ctrl: true, ..m }, key));
    assert(combo_from(seq!["alt"@], 1, Modifiers { alt: true, ..m }, key) == (Modifiers { alt: true, ..m }, key));
    assert(combo_from(seq!["shift"@], 1, Modifiers { shift: true, ..m }, key) == (Modifiers { shift: true, ..m }, key));
    assert(combo_from(seq!["super"@], 1, Modifiers { super_key: true, ..m }, key) == (
        Modifiers { super_key: true, ..m },
        key,
    ));
    assert("super"@ != "ctrl"@ && "super"@ != "control"@ && "super"@ != "alt"@ && "super"@ != "meta"@
        && "super"@ != "mod1"@ && "super"@ != "shift"@);
}

/// The text of a key combo reads back as its modifiers and key, for a key
/// written in ASCII, without `+`, whose lower case names no modifier.
pub proof fn lemma_combo_round_trip(m: Modifiers, key: Seq<char>)
    requires
        all_ascii(key),
        !key.contains('+'),
        !names_modifier(ascii_lowered(key)),
    ensures
        key_combo(combo_text(m, key)) == Some((m, key)),
{
    let ca: Seq<Seq<char>> = if m.ctrl { seq!["ctrl"@] } else { Seq::empty() };
    let cb: Seq<Seq<char>> = if m.alt { seq!["alt"@] } else { Seq::empty() };
    let cc: Seq<Seq<char>> = if m.shift { seq!["shift"@] } else { Seq::empty() };
    let cd: Seq<Seq<char>> = if m.super_key { seq!["super"@] } else { Seq::empty() };
    let parts = modifier_words(m).push(key);
    assert(parts =~= ca + cb + cc + cd + seq![key]);
    reveal_strlit("ctrl");
    reveal_strlit("alt");
    reveal_strlit("shift");
    reveal_strlit("super");
    assert forall|i: int| 0 <= i < parts.len() implies !(#[trigger] parts[i]).contains('+') by {
        if i < parts.len() - 1 {
            let w = parts[i];
            assert(w == "ctrl"@ || w == "alt"@ || w == "shift"@ || w == "super"@);
            if w.contains('+') {
                let j = choose|j: int| 0 <= j < w.len() && w[j] == '+';
                assert(w[j] != '+');
            }
        }
    }
    lemma_split_joined(parts);
    let none = no_modifiers();
    lemma_combo_words(none, None);
    let m1 = combo_from(ca, 0, none, None);
    lemma_combo_words(m1.0, m1.1);
    let m2 = combo_from(cb, 0, m1.0, m1.1);
    lemma_combo_words(m2.0, m2.1);
    let m3 = combo_from(cc, 0, m2.0, m2.1);
    lemma_combo_words(m3.0, m3.1);
    let m4 = combo_from(cd, 0, m3.0, m3.1);
    lemma_combo_append(ca, cb, 0, none, None);
    lemma_combo_append(ca + cb, cc, 0, none, None);
    lemma_combo_append(ca + cb + cc, cd, 0, none, None);
    lemma_combo_append(ca + cb + cc + cd, seq![key], 0, none, None);
    assert(m4.0 == m);
    assert(lowered(key) == ascii_lowered(key));
    assert(combo_from(seq![key], 1, m4.0, Some(key)) == (m4.0, Some(key)));
}

} // verus!
