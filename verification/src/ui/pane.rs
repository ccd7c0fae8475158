//! Pane identity and the startup command a pane sends once its shell is ready.
use vstd::prelude::*;
use crate::text::str_to_string;
use vstd::utf8::encode_utf8;

verus! {

/// Unique identifier for a pane
#[derive(Debug, Clone, Copy, PartialEq, Eq, Hash, Structural)]
pub struct PaneId(pub u32);

impl PaneId {
    pub fn new(id: u32) -> (r: Self)
        ensures
            r == PaneId(id),
    {
        PaneId(id)
    }
}

/// Where a pane stands with the command it runs at startup.
#[derive(Debug)]
pub enum StartupCmdState {
    /// No startup command
    Idle,
    /// Waiting for the shell's prompt (OSC 133;A), or until the deadline
    WaitingForPrompt { cmd: String, deadline_ms: u64 },
    /// The command was sent
    Sent,
}

/// Mathematical model of the startup command state.
pub enum StartupView {
    Idle,
    Waiting(Seq<char>, u64),
    Sent,
}

impl View for StartupCmdState {
    type V = StartupView;

    open spec fn view(&self) -> StartupView {
        match self {
            StartupCmdState::Idle => StartupView::Idle,
            StartupCmdState::WaitingForPrompt { cmd, deadline_ms } => StartupView::Waiting(cmd@, *deadline_ms),
            StartupCmdState::Sent => StartupView::Sent,
        }
    }
}

/// The bytes that run a command: its text and a newline.
pub open spec fn command_line(cmd: Seq<char>) -> Seq<u8> {
    encode_utf8(cmd) + seq![0x0au8]
}

impl StartupCmdState {
    /// The state for a pane with an optional startup command, to be sent at
    /// the latest at `deadline_ms`.
    pub fn new(cmd: Option<&str>, deadline_ms: u64) -> (r: Self)
        ensures
            r@ == (match cmd {
                Some(c) => StartupView::Waiting(c@, deadline_ms),
                None => StartupView::Idle,
            }),
    {
        match cmd {
            Some(c) => StartupCmdState::WaitingForPrompt { cmd: str_to_string(c), deadline_ms },
            None => StartupCmdState::Idle,
        }
    }

    /// The bytes to send when the command goes out now, and the move to `Sent`.
    fn send(&mut self) -> (r: Option<Vec<u8>>)
        ensures
            match old(self)@ {
                StartupView::Waiting(cmd, _) => final(self)@ == StartupView::Sent && (r matches Some(v)
                    && v@ == command_line(cmd)),
                _ => final(self)@ == old(self)@ && r is None,
            },
    {
        let mut state = StartupCmdState::Sent;
        std::mem::swap(self, &mut state);
        match state {
            StartupCmdState::WaitingForPrompt { cmd, .. } => {
                let mut bytes: Vec<u8> = Vec::new();
                let b = cmd.as_str().as_bytes();
                let mut i: usize = 0;
                while i < b.len()
                    invariant
                        i <= b@.len(),
                        bytes@ == b@.take(i as int),
                    decreases b@.len() - i,
                {
                    bytes.push(b[i]);
                    i += 1;
                    assert(b@.take(i as int) =~= b@.take(i - 1).push(b@[i - 1]));
                }
                bytes.push(0x0a);
                assert(b@.take(i as int) =~= b@);
                assert(bytes@ =~= command_line(cmd@));
                Some(bytes)
            },
            other => {
                *self = other;
                None
            },
        }
    }

    /// The shell reported a prompt: a waiting command is sent now.
    pub fn on_prompt_ready(&mut self) -> (r: Option<Vec<u8>>)
        ensures
            match old(self)@ {
                StartupView::Waiting(cmd, _) => final(self)@ == StartupView::Sent && (r matches Some(v)
                    && v@ == command_line(cmd)),
                _ => final(self)@ == old(self)@ && r is None,
            },
    {
        self.send()
    }

    /// At time `now_ms`: a waiting command whose deadline has come is sent
    /// now even without a prompt.
    pub fn check_deadline(&mut self, now_ms: u64) -> (r: Option<Vec<u8>>)
        ensures
            match old(self)@ {
                StartupView::Waiting(cmd, deadline) => if now_ms >= deadline {
                    final(self)@ == StartupView::Sent && (r matches Some(v) && v@ == command_line(cmd))
                } else {
                    final(self)@ == old(self)@ && r is None
                },
                _ => final(self)@ == old(self)@ && r is None,
            },
    {
        let due = match self {
            StartupCmdState::WaitingForPrompt { deadline_ms, .. } => now_ms >= *deadline_ms,
            _ => false,
        };
        if due {
            self.send()
        } else {
            None
        }
    }

    /// Whether a command is still waiting to be sent.
    pub fn is_pending(&self) -> (r: bool)
        ensures
            r == (self@ is Waiting),
    {
        match self {
            StartupCmdState::WaitingForPrompt { .. } => true,
            _ => false,
        }
    }
}

} // verus!
