//! State shared between the terminal and its Lua scripts
//!
//! Lua callbacks queue terminal commands, define sessions and bind keys;
//! the terminal takes the commands and merges the keybindings. The Lua
//! interpreter itself holds the callbacks' functions, which this state
//! refers to by keys of type `K`.
use vstd::prelude::*;
use super::keybinds::{
    Action, ActionView, Keybind, KeybindSet, KeybindView, action_from_str, binding_added, key_combo,
    chars_are,
};
use crate::text::chars_of;

verus! {

/// Terminal commands queued by Lua callbacks
#[derive(Debug, Clone)]
pub enum TerminalCommand {
    NewTab { cwd: Option<String>, cmd: Option<String>, title: Option<String> },
    Split { direction: String, cwd: Option<String>, cmd: Option<String> },
    SendText { pane_id: Option<u32>, text: String },
    CloseTab { tab_id: Option<u32> },
    ClosePane { pane_id: Option<u32> },
    FocusTab { index: usize },
    FocusPane { pane_id: u32 },
    FocusDirection { direction: String },
    NextTab,
    PrevTab,
    LoadSession { name: String },
}

/// Split within a session tab
#[derive(Debug, Clone)]
pub struct SessionSplit {
    pub direction: String,
    pub cwd: Option<String>,
    pub cmd: Option<String>,
}

/// Tab within a session
#[derive(Debug, Clone)]
pub struct SessionTab {
    pub title: Option<String>,
    pub cwd: Option<String>,
    pub cmd: Option<String>,
    pub splits: Vec<SessionSplit>,
}

/// Session definition parsed from Lua
#[derive(Debug, Clone)]
pub struct Session {
    pub name: String,
    pub tabs: Vec<SessionTab>,
}

/// Type of keybind action from Lua
#[derive(Debug, Clone)]
pub enum LuaKeybind {
    /// String action name: "new_tab", "copy", etc.
    Action(String),
    /// Index into the callbacks
    Callback(usize),
    /// Load a named session
    SessionLoad(String),
}

/// Mathematical model of a Lua keybinding.
pub enum LuaKeybindView {
    Action(Seq<char>),
    Callback(usize),
    SessionLoad(Seq<char>),
}

impl View for LuaKeybind {
    type V = LuaKeybindView;

    open spec fn view(&self) -> LuaKeybindView {
        match self {
            LuaKeybind::Action(s) => LuaKeybindView::Action(s@),
            LuaKeybind::Callback(i) => LuaKeybindView::Callback(*i),
            LuaKeybind::SessionLoad(s) => LuaKeybindView::SessionLoad(s@),
        }
    }
}

/// The action a Lua keybinding stands for (`None` for an unknown name).
pub open spec fn lua_action(b: LuaKeybindView) -> Option<ActionView> {
    match b {
        LuaKeybindView::Action(s) => action_from_str(s),
        LuaKeybindView::Callback(i) => Some(ActionView::LuaCallback(i)),
        LuaKeybindView::SessionLoad(n) => Some(ActionView::LoadSession(n)),
    }
}

/// The bindings after merging Lua keybindings from position `i` on: each
/// with a valid combo and a known action is added, the others are skipped.
pub open spec fn lua_merged(binds: Seq<KeybindView>, lua: Seq<(Seq<char>, LuaKeybindView)>, i: int) -> Seq<KeybindView>
    decreases lua.len() - i,
{
    if i < 0 || i >= lua.len() {
        binds
    } else {
        let (combo, b) = lua[i];
        match (key_combo(combo), lua_action(b)) {
            (Some((m, key)), Some(a)) => lua_merged(
                binding_added(binds, KeybindView { modifiers: m, key, action: a }),
                lua,
                i + 1,
            ),
            _ => lua_merged(binds, lua, i + 1),
        }
    }
}

/// The models of the Lua keybindings.
pub open spec fn lua_binds_view(s: Seq<(String, LuaKeybind)>) -> Seq<(Seq<char>, LuaKeybindView)> {
    s.map_values(|p: (String, LuaKeybind)| (p.0@, p.1@))
}

/// Shared state between the terminal and Lua
pub struct LuaState<K> {
    /// Registered Lua function callbacks
    pub callbacks: Vec<K>,
    /// Parsed session definitions
    pub sessions: Vec<Session>,
    /// Pending terminal commands from Lua callbacks
    pub pending_commands: Vec<TerminalCommand>,
    /// Keybinds parsed from Lua (separate from TOML keybinds)
    pub lua_keybinds: Vec<(String, LuaKeybind)>,
    /// Last assigned IDs for return values
    pub last_tab_id: u32,
    pub last_pane_id: u32,
}

impl<K> LuaState<K> {
    pub fn new() -> (r: Self)
        ensures
            r.callbacks@.len() == 0,
            r.sessions@.len() == 0,
            r.pending_commands@.len() == 0,
            r.lua_keybinds@.len() == 0,
            r.last_tab_id == 0,
            r.last_pane_id == 0,
    {
        LuaState {
            callbacks: Vec::new(),
            sessions: Vec::new(),
            pending_commands: Vec::new(),
            lua_keybinds: Vec::new(),
            last_tab_id: 0,
            last_pane_id: 0,
        }
    }

    /// `gar.terminal.new_tab`: queue a new tab; the id handed back to Lua
    pub fn request_new_tab(&mut self, cwd: Option<String>, cmd: Option<String>, title: Option<String>) -> (r: u32)
        requires
            old(self).last_tab_id < u32::MAX,
        ensures
            r == old(self).last_tab_id + 1,
            final(self).last_tab_id == r,
            final(self).last_pane_id == old(self).last_pane_id,
            final(self).pending_commands@ == old(self).pending_commands@.push(TerminalCommand::NewTab { cwd, cmd, title }),
            final(self).callbacks@ == old(self).callbacks@,
            final(self).sessions@ == old(self).sessions@,
            final(self).lua_keybinds@ == old(self).lua_keybinds@,
    {
        self.last_tab_id = self.last_tab_id + 1;
        self.pending_commands.push(TerminalCommand::NewTab { cwd, cmd, title });
        self.last_tab_id
    }

    /// `gar.terminal.split`: queue a split; the id handed back to Lua
    pub fn request_split(&mut self, direction: String, cwd: Option<String>, cmd: Option<String>) -> (r: u32)
        requires
            old(self).last_pane_id < u32::MAX,
        ensures
            r == old(self).last_pane_id + 1,
            final(self).last_pane_id == r,
            final(self).last_tab_id == old(self).last_tab_id,
            final(self).pending_commands@ == old(self).pending_commands@.push(TerminalCommand::Split { direction, cwd, cmd }),
            final(self).callbacks@ == old(self).callbacks@,
            final(self).sessions@ == old(self).sessions@,
            final(self).lua_keybinds@ == old(self).lua_keybinds@,
    {
        self.last_pane_id = self.last_pane_id + 1;
        self.pending_commands.push(TerminalCommand::Split { direction, cwd, cmd });
        self.last_pane_id
    }

    /// Queue any other command (`send_text`, `close_tab`, `focus_tab`, ...)
    pub fn request(&mut self, command: TerminalCommand)
        ensures
            final(self).pending_commands@ == old(self).pending_commands@.push(command),
            final(self).last_tab_id == old(self).last_tab_id,
            final(self).last_pane_id == old(self).last_pane_id,
            final(self).callbacks@ == old(self).callbacks@,
            final(self).sessions@ == old(self).sessions@,
            final(self).lua_keybinds@ == old(self).lua_keybinds@,
    {
        self.pending_commands.push(command);
    }

    /// Keep a callback; its index
    pub fn register_callback(&mut self, key: K) -> (r: usize)
        ensures
            r == old(self).callbacks@.len(),
            final(self).callbacks@ == old(self).callbacks@.push(key),
            final(self).pending_commands@ == old(self).pending_commands@,
            final(self).sessions@ == old(self).sessions@,
            final(self).lua_keybinds@ == old(self).lua_keybinds@,
            final(self).last_tab_id == old(self).last_tab_id,
            final(self).last_pane_id == old(self).last_pane_id,
    {
        let index = self.callbacks.len();
        self.callbacks.push(key);
        index
    }

    /// The callback with index `index`
    pub fn callback(&self, index: usize) -> (r: Option<&K>)
        ensures
            index < self.callbacks@.len() ==> r == Some(&self.callbacks@[index as int]),
            index >= self.callbacks@.len() ==> r is None,
    {
        if index < self.callbacks.len() {
            Some(&self.callbacks[index])
        } else {
            None
        }
    }

    /// Whether any callback is registered
    pub fn has_callbacks(&self) -> (r: bool)
        ensures
            r == (self.callbacks@.len() > 0),
    {
        self.callbacks.len() > 0
    }

    /// Add a keybinding from Lua
    pub fn add_keybind(&mut self, key_combo: String, bind: LuaKeybind)
        ensures
            final(self).lua_keybinds@ == old(self).lua_keybinds@.push((key_combo, bind)),
            final(self).callbacks@ == old(self).callbacks@,
            final(self).pending_commands@ == old(self).pending_commands@,
            final(self).sessions@ == old(self).sessions@,
            final(self).last_tab_id == old(self).last_tab_id,
            final(self).last_pane_id == old(self).last_pane_id,
    {
        self.lua_keybinds.push((key_combo, bind));
    }

    /// Store a session, replacing one of the same name
    pub fn insert_session(&mut self, session: Session)
        ensures
            final(self).sessions@ == old(self).sessions@.filter(|s: Session| s.name@ != session.name@).push(session),
            final(self).callbacks@ == old(self).callbacks@,
            final(self).pending_commands@ == old(self).pending_commands@,
            final(self).lua_keybinds@ == old(self).lua_keybinds@,
            final(self).last_tab_id == old(self).last_tab_id,
            final(self).last_pane_id == old(self).last_pane_id,
    {
        let mut kept: Vec<Session> = Vec::new();
        let mut old_sessions: Vec<Session> = Vec::new();
        std::mem::swap(&mut old_sessions, &mut self.sessions);
        let name = chars_of(session.name.as_str());
        let ghost all = old_sessions@;
        let ghost keep = |s: Session| s.name@ != session.name@;
        let ghost mut k: int = 0;
        assert(all.take(0) =~= Seq::<Session>::empty());
        assert(all.skip(0) =~= all);
        while old_sessions.len() > 0
            invariant
                0 <= k <= all.len(),
                old_sessions@ == all.skip(k),
                kept@ == all.take(k).filter(keep),
                name@ == session.name@,
                keep == (|s: Session| s.name@ != session.name@),
            decreases old_sessions@.len(),
        {
            let s = old_sessions.remove(0);
            proof {
                reveal(Seq::filter);
                assert(all.take(k + 1).drop_last() =~= all.take(k));
                assert(all.take(k + 1).last() == s);
                assert(all.skip(k + 1) =~= all.skip(k).skip(1));
                k = k + 1;
            }
            if !chars_are(&name, s.name.as_str()) {
                kept.push(s);
            }
        }
        assert(all.take(k) =~= all);
        kept.push(session);
        self.sessions = kept;
    }

    /// The session named `name`
    pub fn get_session(&self, name: &str) -> (r: Option<&Session>)
        ensures
            match r {
                Some(s) => s.name@ == name@ && exists|i: int|
                    0 <= i < self.sessions@.len() && #[trigger] self.sessions@[i] == *s && forall|j: int|
                        0 <= j < i ==> (#[trigger] self.sessions@[j]).name@ != name@,
                None => forall|i: int| 0 <= i < self.sessions@.len() ==> (#[trigger] self.sessions@[i]).name@ != name@,
            },
    {
        let mut i: usize = 0;
        while i < self.sessions.len()
            invariant
                i <= self.sessions@.len(),
                forall|j: int| 0 <= j < i ==> (#[trigger] self.sessions@[j]).name@ != name@,
            decreases self.sessions@.len() - i,
        {
            let n = chars_of(self.sessions[i].name.as_str());
            if chars_are(&n, name) {
                return Some(&self.sessions[i]);
            }
            i += 1;
        }
        None
    }

    /// Take the queued commands, leaving none
    pub fn take_pending_commands(&mut self) -> (r: Vec<TerminalCommand>)
        ensures
            r@ == old(self).pending_commands@,
            final(self).pending_commands@.len() == 0,
            final(self).callbacks@ == old(self).callbacks@,
            final(self).sessions@ == old(self).sessions@,
            final(self).lua_keybinds@ == old(self).lua_keybinds@,
            final(self).last_tab_id == old(self).last_tab_id,
            final(self).last_pane_id == old(self).last_pane_id,
    {
        let mut taken: Vec<TerminalCommand> = Vec::new();
        std::mem::swap(&mut taken, &mut self.pending_commands);
        taken
    }

    /// Add the Lua keybindings to `keybinds`; those with an invalid combo or
    /// an unknown action name are skipped
    pub fn merge_keybinds(&self, keybinds: &mut KeybindSet)
        ensures
            final(keybinds)@ == lua_merged(old(keybinds)@, lua_binds_view(self.lua_keybinds@), 0),
    {
        let ghost lv = lua_binds_view(self.lua_keybinds@);
        let mut i: usize = 0;
        while i < self.lua_keybinds.len()
            invariant
                i <= self.lua_keybinds@.len(),
                lv == lua_binds_view(self.lua_keybinds@),
                lua_merged(old(keybinds)@, lv, 0) == lua_merged(keybinds@, lv, i as int),
            decreases self.lua_keybinds@.len() - i,
        {
            let (key_combo, lua_bind) = &self.lua_keybinds[i];
            assert(lv[i as int] == (key_combo@, lua_bind@));
            match Keybind::parse_key_combo(key_combo.as_str()) {
                None => {},
                Some((modifiers, key)) => {
                    let action = match lua_bind {
                        LuaKeybind::Action(s) => Action::from_str_loose(s.as_str()),
                        LuaKeybind::Callback(index) => Some(Action::LuaCallback(*index)),
                        LuaKeybind::SessionLoad(name) => Some(Action::LoadSession(name.clone())),
                    };
                    match action {
                        Some(a) => {
                            keybinds.add(Keybind { modifiers, key, action: a });
                        },
                        None => {},
                    }
                },
            }
            i += 1;
        }
    }
}

} // verus!
