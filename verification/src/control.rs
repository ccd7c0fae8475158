//! What a bound action, an IPC command or a Lua command asks the window to do
//!
//! The decisions live here: which effect an action or command has, with
//! its parameters worked out. Carrying an effect out (spawning shells,
//! talking to the X server, writing to a pane) is the window's part.
use vstd::prelude::*;
use vstd::utf8::encode_utf8;
use crate::config::keybinds::{Action, ActionView, Modifiers, chars_are, push_str};
use crate::input::keyboard::Key;
use crate::ipc::Command;
use crate::ui::split::{Direction, SplitDirection};
use crate::ui::pane::PaneId;
use crate::config::runtime::{TerminalCommand, Session, SessionTab, SessionSplit};
use crate::text::{str_to_lowercase, lowered, chars_of};

verus! {

/// Something the window does in answer to an action or a command
#[derive(Debug, Clone)]
pub enum Effect {
    /// Copy the selection to the clipboard
    CopySelection,
    /// Paste from the clipboard
    PasteClipboard,
    /// Paste the primary selection
    PastePrimary,
    /// Open a tab (with a title of its own when one is given)
    NewTab { cwd: Option<String>, startup_cmd: Option<String>, title: Option<String> },
    CloseTab,
    NextTab,
    PrevTab,
    /// Switch to a tab by 1-based index
    SwitchTab(usize),
    /// Split the focused pane
    Split { direction: SplitDirection, cwd: Option<String>, startup_cmd: Option<String> },
    ClosePane,
    /// Move focus to a neighboring pane
    Focus(Direction),
    /// Resize the focused pane in a direction by an amount
    ResizePane(Direction, u32),
    /// Scroll the focused pane's view back by lines
    ScrollUp(usize),
    /// Scroll the focused pane's view forward by lines
    ScrollDown(usize),
    /// Show the focused pane's current screen
    ScrollToBottom,
    FontLarger,
    FontSmaller,
    FontReset,
    /// Enter search mode
    StartSearch,
    ReloadConfig,
    ToggleFullscreen,
    /// Reset the focused pane's terminal
    ResetTerminal,
    /// Drop the focused pane's scrollback
    ClearScrollback,
    /// Write bytes to the focused pane
    Send(Vec<u8>),
    /// Write bytes to a given pane
    SendToPane(PaneId, Vec<u8>),
    /// Focus a given pane
    FocusPane(PaneId),
    /// Run a Lua callback
    RunCallback(usize),
    /// Load a Lua session
    LoadSession(String),
    /// Report the window's state
    ReportInfo,
    /// Close the window
    Quit,
    /// Nothing to do
    Nothing,
}

/// Mathematical model of an effect.
pub enum EffectView {
    CopySelection,
    PasteClipboard,
    PastePrimary,
    NewTab(Option<Seq<char>>, Option<Seq<char>>, Option<Seq<char>>),
    CloseTab,
    NextTab,
    PrevTab,
    SwitchTab(usize),
    Split(SplitDirection, Option<Seq<char>>, Option<Seq<char>>),
    ClosePane,
    Focus(Direction),
    ResizePane(Direction, u32),
    ScrollUp(usize),
    ScrollDown(usize),
    ScrollToBottom,
    FontLarger,
    FontSmaller,
    FontReset,
    StartSearch,
    ReloadConfig,
    ToggleFullscreen,
    ResetTerminal,
    ClearScrollback,
    Send(Seq<u8>),
    SendToPane(PaneId, Seq<u8>),
    FocusPane(PaneId),
    RunCallback(usize),
    LoadSession(Seq<char>),
    ReportInfo,
    Quit,
    Nothing,
}

/// The model of an optional string.
pub open spec fn opt_str(s: Option<String>) -> Option<Seq<char>> {
    match s {
        Some(x) => Some(x@),
        None => None,
    }
}

impl View for Effect {
    type V = EffectView;

    open spec fn view(&self) -> EffectView {
        match self {
            Effect::CopySelection => EffectView::CopySelection,
            Effect::PasteClipboard => EffectView::PasteClipboard,
            Effect::PastePrimary => EffectView::PastePrimary,
            Effect::NewTab { cwd, startup_cmd, title } => EffectView::NewTab(
                opt_str(*cwd),
                opt_str(*startup_cmd),
                opt_str(*title),
            ),
            Effect::CloseTab => EffectView::CloseTab,
            Effect::NextTab => EffectView::NextTab,
            Effect::PrevTab => EffectView::PrevTab,
            Effect::SwitchTab(n) => EffectView::SwitchTab(*n),
            Effect::Split { direction, cwd, startup_cmd } => EffectView::Split(
                *direction,
                opt_str(*cwd),
                opt_str(*startup_cmd),
            ),
            Effect::ClosePane => EffectView::ClosePane,
            Effect::Focus(d) => EffectView::Focus(*d),
            Effect::ResizePane(d, n) => EffectView::ResizePane(*d, *n),
            Effect::ScrollUp(n) => EffectView::ScrollUp(*n),
            Effect::ScrollDown(n) => EffectView::ScrollDown(*n),
            Effect::ScrollToBottom => EffectView::ScrollToBottom,
            Effect::FontLarger => EffectView::FontLarger,
            Effect::FontSmaller => EffectView::FontSmaller,
            Effect::FontReset => EffectView::FontReset,
            Effect::StartSearch => EffectView::StartSearch,
            Effect::ReloadConfig => EffectView::ReloadConfig,
            Effect::ToggleFullscreen => EffectView::ToggleFullscreen,
            Effect::ResetTerminal => EffectView::ResetTerminal,
            Effect::ClearScrollback => EffectView::ClearScrollback,
            Effect::Send(b) => EffectView::Send(b@),
            Effect::SendToPane(p, b) => EffectView::SendToPane(*p, b@),
            Effect::FocusPane(p) => EffectView::FocusPane(*p),
            Effect::RunCallback(i) => EffectView::RunCallback(*i),
            Effect::LoadSession(n) => EffectView::LoadSession(n@),
            Effect::ReportInfo => EffectView::ReportInfo,
            Effect::Quit => EffectView::Quit,
            Effect::Nothing => EffectView::Nothing,
        }
    }
}

/// The lines a page scroll moves on a screen of `rows` rows: all but one,
/// at least one.
pub open spec fn page_lines(rows: usize) -> usize {
    if rows >= 2 { (rows - 1) as usize } else { 1 }
}

/// The effect of a bound action, for a focused pane with `rows` rows and
/// `scrollback` lines of history.
pub open spec fn action_effect(action: ActionView, rows: usize, scrollback: usize) -> EffectView {
    match action {
        ActionView::Copy => EffectView::CopySelection,
        ActionView::Paste => EffectView::PasteClipboard,
        ActionView::PastePrimary => EffectView::PastePrimary,
        ActionView::NewTab => EffectView::NewTab(None, None, None),
        ActionView::CloseTab => EffectView::CloseTab,
        ActionView::NextTab => EffectView::NextTab,
        ActionView::PrevTab => EffectView::PrevTab,
        ActionView::Tab(n) => EffectView::SwitchTab(n),
        ActionView::SplitHorizontal => EffectView::Split(SplitDirection::Horizontal, None, None),
        ActionView::SplitVertical => EffectView::Split(SplitDirection::Vertical, None, None),
        ActionView::ClosePane => EffectView::ClosePane,
        ActionView::FocusUp => EffectView::Focus(Direction::Up),
        ActionView::FocusDown => EffectView::Focus(Direction::Down),
        ActionView::FocusLeft => EffectView::Focus(Direction::Left),
        ActionView::FocusRight => EffectView::Focus(Direction::Right),
        ActionView::ResizeUp(n) => EffectView::ResizePane(Direction::Up, n),
        ActionView::ResizeDown(n) => EffectView::ResizePane(Direction::Down, n),
        ActionView::ResizeLeft(n) => EffectView::ResizePane(Direction::Left, n),
        ActionView::ResizeRight(n) => EffectView::ResizePane(Direction::Right, n),
        ActionView::ScrollUp(n) => EffectView::ScrollUp(n),
        ActionView::ScrollDown(n) => EffectView::ScrollDown(n),
        ActionView::ScrollPageUp => EffectView::ScrollUp(page_lines(rows)),
        ActionView::ScrollPageDown => EffectView::ScrollDown(page_lines(rows)),
        ActionView::ScrollToTop => EffectView::ScrollUp(scrollback),
        ActionView::ScrollToBottom => EffectView::ScrollToBottom,
        ActionView::IncreaseFontSize => EffectView::FontLarger,
        ActionView::DecreaseFontSize => EffectView::FontSmaller,
        ActionView::ResetFontSize => EffectView::FontReset,
        ActionView::SearchForward => EffectView::StartSearch,
        ActionView::SearchBackward => EffectView::StartSearch,
        ActionView::ReloadConfig => EffectView::ReloadConfig,
        ActionView::ToggleFullscreen => EffectView::ToggleFullscreen,
        ActionView::ResetTerminal => EffectView::ResetTerminal,
        ActionView::ClearScrollback => EffectView::ClearScrollback,
        ActionView::SendBytes(b) => EffectView::Send(b),
        ActionView::SendText(t) => EffectView::Send(encode_utf8(t)),
        ActionView::LuaCallback(i) => EffectView::RunCallback(i),
        ActionView::LoadSession(n) => EffectView::LoadSession(n),
        ActionView::Noop => EffectView::Nothing,
    }
}

fn copy_string(s: &String) -> (r: String)
    ensures
        r@ == s@,
{
    s.clone()
}

fn copy_opt(s: &Option<String>) -> (r: Option<String>)
    ensures
        opt_str(r) == opt_str(*s),
{
    match s {
        Some(x) => Some(x.clone()),
        None => None,
    }
}

fn utf8_bytes(s: &String) -> (r: Vec<u8>)
    ensures
        r@ == encode_utf8(s@),
{
    let b = s.as_str().as_bytes();
    let mut out: Vec<u8> = Vec::new();
    let mut i: usize = 0;
    while i < b.len()
        invariant
            i <= b@.len(),
            out@ == b@.take(i as int),
        decreases b@.len() - i,
    {
        out.push(b[i]);
        i += 1;
        assert(b@.take(i as int) =~= b@.take(i - 1).push(b@[i - 1]));
    }
    assert(b@.take(i as int) =~= b@);
    out
}

fn copy_bytes(b: &Vec<u8>) -> (r: Vec<u8>)
    ensures
        r@ == b@,
{
    let mut out: Vec<u8> = Vec::new();
    let mut i: usize = 0;
    while i < b.len()
        invariant
            i <= b@.len(),
            out@ == b@.take(i as int),
        decreases b@.len() - i,
    {
        out.push(b[i]);
        i += 1;
        assert(b@.take(i as int) =~= b@.take(i - 1).push(b@[i - 1]));
    }
    assert(b@.take(i as int) =~= b@);
    out
}

/// What a bound action asks for, given the focused pane's number of rows
/// and lines of history
pub fn effect_of_action(action: &Action, rows: usize, scrollback: usize) -> (r: Effect)
    ensures
        r@ == action_effect(action@, rows, scrollback),
{
    match action {
        Action::Copy => Effect::CopySelection,
        Action::Paste => Effect::PasteClipboard,
        Action::PastePrimary => Effect::PastePrimary,
        Action::NewTab => Effect::NewTab { cwd: None, startup_cmd: None, title: None },
        Action::CloseTab => Effect::CloseTab,
        Action::NextTab => Effect::NextTab,
        Action::PrevTab => Effect::PrevTab,
        Action::Tab(n) => Effect::SwitchTab(*n),
        Action::SplitHorizontal => Effect::Split { direction: SplitDirection::Horizontal, cwd: None, startup_cmd: None },
        Action::SplitVertical => Effect::Split { direction: SplitDirection::Vertical, cwd: None, startup_cmd: None },
        Action::ClosePane => Effect::ClosePane,
        Action::FocusUp => Effect::Focus(Direction::Up),
        Action::FocusDown => Effect::Focus(Direction::Down),
        Action::FocusLeft => Effect::Focus(Direction::Left),
        Action::FocusRight => Effect::Focus(Direction::Right),
        Action::ResizeUp(n) => Effect::ResizePane(Direction::Up, *n),
        Action::ResizeDown(n) => Effect::ResizePane(Direction::Down, *n),
        Action::ResizeLeft(n) => Effect::ResizePane(Direction::Left, *n),
        Action::ResizeRight(n) => Effect::ResizePane(Direction::Right, *n),
        Action::ScrollUp(n) => Effect::ScrollUp(*n),
        Action::ScrollDown(n) => Effect::ScrollDown(*n),
        Action::ScrollPageUp => Effect::ScrollUp(if rows >= 2 { rows - 1 } else { 1 }),
        Action::ScrollPageDown => Effect::ScrollDown(if rows >= 2 { rows - 1 } else { 1 }),
        Action::ScrollToTop => Effect::ScrollUp(scrollback),
        Action::ScrollToBottom => Effect::ScrollToBottom,
        Action::IncreaseFontSize => Effect::FontLarger,
        Action::DecreaseFontSize => Effect::FontSmaller,
        Action::ResetFontSize => Effect::FontReset,
        Action::SearchForward => Effect::StartSearch,
        // Backward search starts the same search mode
        Action::SearchBackward => Effect::StartSearch,
        Action::ReloadConfig => Effect::ReloadConfig,
        Action::ToggleFullscreen => Effect::ToggleFullscreen,
        Action::ResetTerminal => Effect::ResetTerminal,
        Action::ClearScrollback => Effect::ClearScrollback,
        Action::SendBytes(b) => Effect::Send(copy_bytes(b)),
        Action::SendText(t) => Effect::Send(utf8_bytes(t)),
        Action::LuaCallback(i) => Effect::RunCallback(*i),
        Action::LoadSession(n) => Effect::LoadSession(copy_string(n)),
        Action::Noop => Effect::Nothing,
    }
}

/// The split direction a (lower-cased) name gives: `horizontal` or `h`,
/// `vertical` or `v`.
pub open spec fn split_direction_named(n: Seq<char>) -> Option<SplitDirection> {
    if n == "horizontal"@ || n == "h"@ {
        Some(SplitDirection::Horizontal)
    } else if n == "vertical"@ || n == "v"@ {
        Some(SplitDirection::Vertical)
    } else {
        None
    }
}

/// The focus direction a (lower-cased) name gives.
pub open spec fn focus_direction_named(n: Seq<char>) -> Option<Direction> {
    if n == "up"@ {
        Some(Direction::Up)
    } else if n == "down"@ {
        Some(Direction::Down)
    } else if n == "left"@ {
        Some(Direction::Left)
    } else if n == "right"@ {
        Some(Direction::Right)
    } else {
        None
    }
}

/// The answer to an IPC command: its effect, or the error message sent back.
pub open spec fn command_effect(cmd: Command) -> Result<EffectView, Seq<char>> {
    match cmd {
        Command::Reload => Ok(EffectView::ReloadConfig),
        Command::NewTab { cwd, startup_cmd, .. } => Ok(EffectView::NewTab(opt_str(cwd), opt_str(startup_cmd), None)),
        Command::CloseTab => Ok(EffectView::CloseTab),
        Command::NextTab => Ok(EffectView::NextTab),
        Command::PrevTab => Ok(EffectView::PrevTab),
        Command::SwitchTab { index } => Ok(EffectView::SwitchTab(index)),
        Command::Split { direction, cwd, startup_cmd } => match split_direction_named(lowered(direction@)) {
            Some(d) => Ok(EffectView::Split(d, opt_str(cwd), opt_str(startup_cmd))),
            None => Err("Invalid direction: "@ + direction@),
        },
        Command::LoadSession { name } => Ok(EffectView::LoadSession(name@)),
        Command::ClosePane => Ok(EffectView::ClosePane),
        Command::FocusPaneDirection { direction } => match focus_direction_named(lowered(direction@)) {
            Some(d) => Ok(EffectView::Focus(d)),
            None => Err("Invalid direction: "@ + direction@),
        },
        Command::SendText { text } => Ok(EffectView::Send(encode_utf8(text@))),
        Command::GetInfo => Ok(EffectView::ReportInfo),
        Command::Quit => Ok(EffectView::Quit),
        Command::Ping => Ok(EffectView::Nothing),
        Command::NewWindow { .. } => Err("Not implemented"@),
        Command::ResizePane { .. } => Err("Not implemented"@),
    }
}

/// The split direction a (lower-cased) name gives
pub fn split_direction_from_name(n: &Vec<char>) -> (r: Option<SplitDirection>)
    ensures
        r == split_direction_named(n@),
{
    if chars_are(n, "horizontal") || chars_are(n, "h") {
        Some(SplitDirection::Horizontal)
    } else if chars_are(n, "vertical") || chars_are(n, "v") {
        Some(SplitDirection::Vertical)
    } else {
        None
    }
}

/// The focus direction a (lower-cased) name gives
pub fn focus_direction_from_name(n: &Vec<char>) -> (r: Option<Direction>)
    ensures
        r == focus_direction_named(n@),
{
    if chars_are(n, "up") {
        Some(Direction::Up)
    } else if chars_are(n, "down") {
        Some(Direction::Down)
    } else if chars_are(n, "left") {
        Some(Direction::Left)
    } else if chars_are(n, "right") {
        Some(Direction::Right)
    } else {
        None
    }
}

fn invalid_direction(direction: &String) -> (r: String)
    ensures
        r@ == "Invalid direction: "@ + direction@,
{
    let mut m = String::new();
    push_str(&mut m, "Invalid direction: ");
    push_str(&mut m, direction.as_str());
    m
}

fn not_implemented() -> (r: String)
    ensures
        r@ == "Not implemented"@,
{
    let mut m = String::new();
    push_str(&mut m, "Not implemented");
    m
}

/// What an IPC command asks for, or the error to answer it with
pub fn effect_of_command(cmd: &Command) -> (r: Result<Effect, String>)
    ensures
        match r {
            Ok(e) => command_effect(*cmd) == Ok::<EffectView, Seq<char>>(e@),
            Err(m) => command_effect(*cmd) == Err::<EffectView, Seq<char>>(m@),
        },
{
    match cmd {
        Command::Reload => Ok(Effect::ReloadConfig),
        Command::NewTab { cwd, startup_cmd, .. } => Ok(
            Effect::NewTab { cwd: copy_opt(cwd), startup_cmd: copy_opt(startup_cmd), title: None },
        ),
        Command::CloseTab => Ok(Effect::CloseTab),
        Command::NextTab => Ok(Effect::NextTab),
        Command::PrevTab => Ok(Effect::PrevTab),
        Command::SwitchTab { index } => Ok(Effect::SwitchTab(*index)),
        Command::Split { direction, cwd, startup_cmd } => {
            let lower = chars_of(str_to_lowercase(direction.as_str()).as_str());
            match split_direction_from_name(&lower) {
                Some(d) => Ok(Effect::Split { direction: d, cwd: copy_opt(cwd), startup_cmd: copy_opt(startup_cmd) }),
                None => Err(invalid_direction(direction)),
            }
        },
        Command::LoadSession { name } => Ok(Effect::LoadSession(copy_string(name))),
        Command::ClosePane => Ok(Effect::ClosePane),
        Command::FocusPaneDirection { direction } => {
            let lower = chars_of(str_to_lowercase(direction.as_str()).as_str());
            match focus_direction_from_name(&lower) {
                Some(d) => Ok(Effect::Focus(d)),
                None => Err(invalid_direction(direction)),
            }
        },
        Command::SendText { text } => Ok(Effect::Send(utf8_bytes(text))),
        Command::GetInfo => Ok(Effect::ReportInfo),
        Command::Quit => Ok(Effect::Quit),
        Command::Ping => Ok(Effect::Nothing),
        Command::NewWindow { .. } => Err(not_implemented()),
        Command::ResizePane { .. } => Err(not_implemented()),
    }
}

/// The split direction a Lua command or session names (in any case):
/// `horizontal` or `h`, anything else vertical.
pub open spec fn lua_split_named(n: Seq<char>) -> SplitDirection {
    if n == "horizontal"@ || n == "h"@ {
        SplitDirection::Horizontal
    } else {
        SplitDirection::Vertical
    }
}

/// The focus direction a Lua command names (in any case): `up`, `down`,
/// `left`, anything else right.
pub open spec fn lua_focus_named(n: Seq<char>) -> Direction {
    if n == "up"@ {
        Direction::Up
    } else if n == "down"@ {
        Direction::Down
    } else if n == "left"@ {
        Direction::Left
    } else {
        Direction::Right
    }
}

/// The effect of a command queued by a Lua callback.
pub open spec fn lua_command_effect(cmd: TerminalCommand) -> EffectView {
    match cmd {
        TerminalCommand::NewTab { cwd, cmd, title } => EffectView::NewTab(opt_str(cwd), opt_str(cmd), opt_str(title)),
        TerminalCommand::Split { direction, cwd, cmd } => EffectView::Split(
            lua_split_named(lowered(direction@)),
            opt_str(cwd),
            opt_str(cmd),
        ),
        TerminalCommand::SendText { pane_id, text } => match pane_id {
            Some(id) => EffectView::SendToPane(PaneId(id), encode_utf8(text@)),
            None => EffectView::Send(encode_utf8(text@)),
        },
        TerminalCommand::CloseTab { .. } => EffectView::CloseTab,
        TerminalCommand::ClosePane { .. } => EffectView::ClosePane,
        TerminalCommand::FocusTab { index } => EffectView::SwitchTab(index),
        TerminalCommand::FocusPane { pane_id } => EffectView::FocusPane(PaneId(pane_id)),
        TerminalCommand::FocusDirection { direction } => EffectView::Focus(lua_focus_named(lowered(direction@))),
        TerminalCommand::NextTab => EffectView::NextTab,
        TerminalCommand::PrevTab => EffectView::PrevTab,
        TerminalCommand::LoadSession { name } => EffectView::LoadSession(name@),
    }
}

/// The split direction a Lua command or session names.
pub fn lua_split_direction(name: &str) -> (r: SplitDirection)
    ensures
        r == lua_split_named(lowered(name@)),
{
    let lower = chars_of(str_to_lowercase(name).as_str());
    if chars_are(&lower, "horizontal") || chars_are(&lower, "h") {
        SplitDirection::Horizontal
    } else {
        SplitDirection::Vertical
    }
}

/// The focus direction a Lua command names.
pub fn lua_focus_direction(name: &str) -> (r: Direction)
    ensures
        r == lua_focus_named(lowered(name@)),
{
    let lower = chars_of(str_to_lowercase(name).as_str());
    if chars_are(&lower, "up") {
        Direction::Up
    } else if chars_are(&lower, "down") {
        Direction::Down
    } else if chars_are(&lower, "left") {
        Direction::Left
    } else {
        Direction::Right
    }
}

/// What a command queued by a Lua callback asks for
pub fn effect_of_lua_command(cmd: &TerminalCommand) -> (r: Effect)
    ensures
        r@ == lua_command_effect(*cmd),
{
    match cmd {
        TerminalCommand::NewTab { cwd, cmd, title } => Effect::NewTab {
            cwd: copy_opt(cwd),
            startup_cmd: copy_opt(cmd),
            title: copy_opt(title),
        },
        TerminalCommand::Split { direction, cwd, cmd } => Effect::Split {
            direction: lua_split_direction(direction.as_str()),
            cwd: copy_opt(cwd),
            startup_cmd: copy_opt(cmd),
        },
        TerminalCommand::SendText { pane_id, text } => match pane_id {
            Some(id) => Effect::SendToPane(PaneId(*id), utf8_bytes(text)),
            None => Effect::Send(utf8_bytes(text)),
        },
        TerminalCommand::CloseTab { .. } => Effect::CloseTab,
        TerminalCommand::ClosePane { .. } => Effect::ClosePane,
        TerminalCommand::FocusTab { index } => Effect::SwitchTab(*index),
        TerminalCommand::FocusPane { pane_id } => Effect::FocusPane(PaneId(*pane_id)),
        TerminalCommand::FocusDirection { direction } => Effect::Focus(lua_focus_direction(direction.as_str())),
        TerminalCommand::NextTab => Effect::NextTab,
        TerminalCommand::PrevTab => Effect::PrevTab,
        TerminalCommand::LoadSession { name } => Effect::LoadSession(copy_string(name)),
    }
}

/// The effects that open one session tab: the tab, then its splits in order.
pub open spec fn session_tab_effects(t: SessionTab) -> Seq<EffectView> {
    seq![EffectView::NewTab(opt_str(t.cwd), opt_str(t.cmd), opt_str(t.title))] + t.splits@.map_values(
        |s: SessionSplit| EffectView::Split(lua_split_named(lowered(s.direction@)), opt_str(s.cwd), opt_str(s.cmd)),
    )
}

/// The effects of the first `n` tabs of a session.
pub open spec fn session_tabs_effects(tabs: Seq<SessionTab>, n: int) -> Seq<EffectView>
    decreases n,
{
    if n <= 0 || n > tabs.len() {
        Seq::empty()
    } else {
        session_tabs_effects(tabs, n - 1) + session_tab_effects(tabs[n - 1])
    }
}

/// The effects of loading a session: each tab with its splits, then the
/// first tab focused.
pub open spec fn session_effects(s: Session) -> Seq<EffectView> {
    session_tabs_effects(s.tabs@, s.tabs@.len() as int).push(EffectView::SwitchTab(1))
}

/// The models of a list of effects.
pub open spec fn effects_view(v: Seq<Effect>) -> Seq<EffectView> {
    v.map_values(|e: Effect| e@)
}

/// What loading a session asks for, in order
pub fn session_plan(session: &Session) -> (r: Vec<Effect>)
    ensures
        effects_view(r@) == session_effects(*session),
{
    let mut out: Vec<Effect> = Vec::new();
    let mut i: usize = 0;
    while i < session.tabs.len()
        invariant
            i <= session.tabs@.len(),
            effects_view(out@) == session_tabs_effects(session.tabs@, i as int),
        decreases session.tabs@.len() - i,
    {
        let t = &session.tabs[i];
        let ghost before = effects_view(out@);
        out.push(Effect::NewTab { cwd: copy_opt(&t.cwd), startup_cmd: copy_opt(&t.cmd), title: copy_opt(&t.title) });
        let ghost splits = t.splits@.map_values(
            |s: SessionSplit| EffectView::Split(lua_split_named(lowered(s.direction@)), opt_str(s.cwd), opt_str(s.cmd)),
        );
        assert(effects_view(out@) =~= before + seq![
            EffectView::NewTab(opt_str(t.cwd), opt_str(t.cmd), opt_str(t.title)),
        ]);
        let mut j: usize = 0;
        while j < t.splits.len()
            invariant
                j <= t.splits@.len(),
                t == &session.tabs@[i as int],
                splits == t.splits@.map_values(
                    |s: SessionSplit| EffectView::Split(
                        lua_split_named(lowered(s.direction@)),
                        opt_str(s.cwd),
                        opt_str(s.cmd),
                    ),
                ),
                effects_view(out@) == before + seq![
                    EffectView::NewTab(opt_str(t.cwd), opt_str(t.cmd), opt_str(t.title)),
                ] + splits.take(j as int),
            decreases t.splits@.len() - j,
        {
            let sp = &t.splits[j];
            let ghost prev = effects_view(out@);
            out.push(
                Effect::Split {
                    direction: lua_split_direction(sp.direction.as_str()),
                    cwd: copy_opt(&sp.cwd),
                    startup_cmd: copy_opt(&sp.cmd),
                },
            );
            assert(effects_view(out@) =~= prev.push(splits[j as int]));
            assert(splits.take(j + 1) =~= splits.take(j as int).push(splits[j as int]));
            j += 1;
        }
        assert(splits.take(j as int) =~= splits);
        assert(session_tab_effects(*t) =~= seq![
            EffectView::NewTab(opt_str(t.cwd), opt_str(t.cmd), opt_str(t.title)),
        ] + splits);
        assert(effects_view(out@) =~= before + session_tab_effects(*t));
        i += 1;
    }
    let ghost before = effects_view(out@);
    out.push(Effect::SwitchTab(1));
    assert(effects_view(out@) =~= before.push(EffectView::SwitchTab(1)));
    out
}

/// The window's own shortcuts, outside the keybindings: Alt with a digit
/// from 1 to 9 switches to that tab, Alt+] and Alt+[ to the next and the
/// previous one (neither Ctrl nor Shift held).
pub open spec fn shortcut_of(key: Key, mods: Modifiers) -> Option<EffectView> {
    if mods.alt && !mods.ctrl && !mods.shift {
        match key {
            Key::Char(c) => if '1' <= c <= '9' {
                Some(EffectView::SwitchTab((c as u32 - '0' as u32) as usize))
            } else if c == ']' {
                Some(EffectView::NextTab)
            } else if c == '[' {
                Some(EffectView::PrevTab)
            } else {
                None
            },
            _ => None,
        }
    } else {
        None
    }
}

/// The window's own shortcut for a key, if it is one
pub fn shortcut_effect(key: &Key, mods: &Modifiers) -> (r: Option<Effect>)
    ensures
        match r {
            Some(e) => shortcut_of(*key, *mods) == Some(e@),
            None => shortcut_of(*key, *mods) is None,
        },
{
    if mods.alt && !mods.ctrl && !mods.shift {
        match key {
            Key::Char(c) => {
                let c = *c;
                if '1' <= c && c <= '9' {
                    Some(Effect::SwitchTab((c as u32 - '0' as u32) as usize))
                } else if c == ']' {
                    Some(Effect::NextTab)
                } else if c == '[' {
                    Some(Effect::PrevTab)
                } else {
                    None
                }
            },
            _ => None,
        }
    } else {
        None
    }
}

/// The change of the focused pane's split ratio, in thousandths, for a
/// resize by `amount` percent: up and left shrink the pane, down and right
/// grow it, by a hundredth at least. Amounts past a hundred thousand
/// percent all move the ratio to its limit and are taken as that much.
pub open spec fn resize_thousandths(direction: Direction, amount: u32) -> int {
    let a: int = if amount <= 100_000 { amount as int } else { 100_000 };
    let step: int = if a * 10 >= 10 { a * 10 } else { 10 };
    match direction {
        Direction::Up | Direction::Left => -step,
        Direction::Down | Direction::Right => step,
    }
}

/// The split ratio change for resizing the focused pane
pub fn resize_delta(direction: Direction, amount: u32) -> (r: i32)
    ensures
        r == resize_thousandths(direction, amount),
{
    let a: i32 = if amount <= 100_000 { amount as i32 } else { 100_000 };
    let step: i32 = if a * 10 >= 10 { a * 10 } else { 10 };
    match direction {
        Direction::Up | Direction::Left => -step,
        Direction::Down | Direction::Right => step,
    }
}

/// What the window loop does after a round of shell output and exits.
#[derive(Debug, Clone, Copy, PartialEq, Eq, Structural)]
pub struct LoopStep {
    /// Whether the loop goes on: it stops once no tab is left
    pub running: bool,
    /// Whether the panes are laid out again (and redrawn): after closes,
    /// while running
    pub relayout: bool,
}

/// The loop's next step, from whether it was running, whether tabs are
/// left and whether panes were closed.
pub fn loop_step(running: bool, has_tabs: bool, panes_closed: bool) -> (r: LoopStep)
    ensures
        r.running == (running && has_tabs),
        r.relayout == (panes_closed && running && has_tabs),
{
    let running = running && has_tabs;
    LoopStep { running, relayout: panes_closed && running }
}

/// Whether a frame is drawn: always without vsync, else when a pane of the
/// active tab changed.
pub fn render_due(vsync: bool, any_dirty: bool) -> (r: bool)
    ensures
        r == (!vsync || any_dirty),
{
    !vsync || any_dirty
}

} // verus!
