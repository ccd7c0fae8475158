//! IPC protocol between garterm instances and their control clients, and
//! the names of the sockets instances listen on.
use vstd::prelude::*;
use crate::text::{chars_of, parse_usize, parsed_usize, is_white_space, push_decimal_str, decimal_chars};
use crate::config::keybinds::{has_prefix, push_str};

verus! {

#[verifier::external_type_specification]
#[verifier::external_body]
pub struct ExJsonValue(serde_json::Value);

/// Commands that can be sent to garterm
#[derive(Debug, Clone)]
pub enum Command {
    /// Open a new window (running `program` in it)
    NewWindow { cwd: Option<String>, program: Option<String> },
    /// Create a new tab in the focused window
    NewTab { cwd: Option<String>, startup_cmd: Option<String>, title: Option<String> },
    /// Close the current tab
    CloseTab,
    /// Switch to next tab
    NextTab,
    /// Switch to previous tab
    PrevTab,
    /// Switch to tab by index (1-based)
    SwitchTab { index: usize },
    /// Split the current pane
    Split { direction: String, cwd: Option<String>, startup_cmd: Option<String> },
    /// Load a session defined in the Lua configuration
    LoadSession { name: String },
    /// Close the current pane
    ClosePane,
    /// Focus pane in direction
    FocusPaneDirection { direction: String },
    /// Resize current pane
    ResizePane { direction: String, amount: i32 },
    /// Send text to the focused pane
    SendText { text: String },
    /// Get info about the window
    GetInfo,
    /// Reload configuration
    Reload,
    /// Quit the window
    Quit,
    /// Ping (health check)
    Ping,
}

/// Information about a garterm window
#[derive(Debug, Clone, Copy, PartialEq, Eq, Structural)]
pub struct WindowInfo {
    pub pid: u32,
    pub tabs: usize,
    pub focused: bool,
}

/// Response from garterm
#[derive(Debug, Clone)]
pub struct Response {
    pub success: bool,
    pub message: Option<String>,
    pub data: Option<serde_json::Value>,
}

impl Response {
    /// Success without data
    pub fn ok() -> (r: Self)
        ensures
            r.success,
            r.message is None,
            r.data is None,
    {
        Response { success: true, message: None, data: None }
    }

    /// Success carrying data
    pub fn ok_with_data(data: serde_json::Value) -> (r: Self)
        ensures
            r.success,
            r.message is None,
            r.data == Some(data),
    {
        Response { success: true, message: None, data: Some(data) }
    }

    /// Failure with a message
    pub fn error(message: String) -> (r: Self)
        ensures
            !r.success,
            r.message matches Some(m) && m@ == message@,
            r.data is None,
    {
        Response { success: false, message: Some(message), data: None }
    }
}

/// Events sent from garterm to clients (for subscriptions)
#[derive(Debug, Clone)]
pub enum Event {
    TitleChanged { window_id: u32, pane_id: u32, title: String },
    PaneCreated { window_id: u32, pane_id: u32 },
    PaneClosed { window_id: u32, pane_id: u32, exit_code: i32 },
    Bell { window_id: u32, pane_id: u32 },
}

/// The socket file name of the instance with process id `pid`:
/// `garterm-<pid>.sock`.
pub open spec fn socket_name(pid: u32) -> Seq<char> {
    "garterm-"@ + decimal_chars(pid as nat) + ".sock"@
}

/// The socket file name of the instance with process id `pid`
pub fn socket_file_name(pid: u32) -> (r: String)
    ensures
        r@ == socket_name(pid),
{
    let mut out = String::new();
    push_str(&mut out, "garterm-");
    push_decimal_str(&mut out, pid as u64);
    push_str(&mut out, ".sock");
    out
}

/// What `str::parse::<u32>` gives.
pub open spec fn parsed_u32(s: Seq<char>) -> Option<u32> {
    match parsed_usize(s) {
        Some(n) => if n <= u32::MAX { Some(n as u32) } else { None },
        None => None,
    }
}

/// Parse a decimal `u32` as `str::parse` does.
pub fn parse_u32(s: &str) -> (r: Option<u32>)
    ensures
        r == parsed_u32(s@),
{
    match parse_usize(s) {
        Some(n) => if n <= u32::MAX as usize { Some(n as u32) } else { None },
        None => None,
    }
}

/// Whether `s` ends with `p`.
pub open spec fn has_suffix(s: Seq<char>, p: Seq<char>) -> bool {
    s.len() >= p.len() && s.skip(s.len() - p.len()) == p
}

/// The process id in a socket file name `garterm-<pid>.sock`.
pub open spec fn socket_pid(name: Seq<char>) -> Option<u32> {
    if has_prefix(name, "garterm-"@) && has_suffix(name, ".sock"@) && name.len() >= 13 {
        parsed_u32(name.subrange(8, name.len() - 5))
    } else {
        None
    }
}

/// The process id in a socket file name `garterm-<pid>.sock`
pub fn pid_from_socket_name(name: &str) -> (r: Option<u32>)
    ensures
        r == socket_pid(name@),
{
    proof {
        reveal_strlit("garterm-");
        reveal_strlit(".sock");
    }
    let cs = chars_of(name);
    let n = cs.len();
    if n < 13 {
        return None;
    }
    let prefix = chars_of("garterm-");
    let suffix = chars_of(".sock");
    assert(prefix@.len() == 8 && suffix@.len() == 5);
    let mut i: usize = 0;
    while i < 8
        invariant
            i <= 8,
            n == cs@.len(),
            cs@ == name@,
            n >= 13,
            prefix@ == "garterm-"@,
            prefix@.len() == 8,
            forall|j: int| 0 <= j < i ==> cs@[j] == prefix@[j],
        decreases 8 - i,
    {
        if cs[i] != prefix[i] {
            assert(!has_prefix(cs@, "garterm-"@)) by {
                if has_prefix(cs@, "garterm-"@) {
                    assert(cs@.take(8)[i as int] == cs@[i as int]);
                }
            }
            return None;
        }
        i += 1;
    }
    assert(cs@.take(8) =~= "garterm-"@);
    let mut k: usize = 0;
    while k < 5
        invariant
            k <= 5,
            n == cs@.len(),
            cs@ == name@,
            n >= 13,
            suffix@ == ".sock"@,
            suffix@.len() == 5,
            forall|j: int| 0 <= j < k ==> cs@[n - 5 + j] == suffix@[j],
        decreases 5 - k,
    {
        if cs[n - 5 + k] != suffix[k] {
            assert(!has_suffix(cs@, ".sock"@)) by {
                if has_suffix(cs@, ".sock"@) {
                    assert(cs@.skip(n - 5)[k as int] == cs@[n - 5 + k]);
                }
            }
            return None;
        }
        k += 1;
    }
    assert(cs@.skip(n - 5) =~= ".sock"@);
    let mut middle = String::new();
    let mut j: usize = 8;
    while j < n - 5
        invariant
            8 <= j <= n - 5,
            n == cs@.len(),
            middle@ == cs@.subrange(8, j as int),
        decreases n - 5 - j,
    {
        crate::text::push_char(&mut middle, cs[j]);
        j += 1;
        assert(cs@.subrange(8, j as int) =~= cs@.subrange(8, j - 1).push(cs@[j - 1]));
    }
    parse_u32(middle.as_str())
}

/// Characters without their leading white space.
pub open spec fn trimmed_start(s: Seq<char>) -> Seq<char>
    decreases s.len(),
{
    if s.len() > 0 && is_white_space(s[0]) {
        trimmed_start(s.skip(1))
    } else {
        s
    }
}

/// The process id written in the focus file (white space around it allowed).
pub open spec fn focus_file_pid(text: Seq<char>) -> Option<u32> {
    parsed_u32(trimmed_start(crate::text::trimmed_end(text)))
}

/// Read the process id written in the focus file
pub fn parse_focused_pid(text: &str) -> (r: Option<u32>)
    ensures
        r == focus_file_pid(text@),
{
    let cs = chars_of(text);
    let mut hi = cs.len();
    assert(cs@.take(hi as int) =~= cs@);
    while hi > 0 && crate::text::white_space_char(cs[hi - 1])
        invariant
            hi <= cs@.len(),
            crate::text::trimmed_end(cs@) == crate::text::trimmed_end(cs@.take(hi as int)),
        decreases hi,
    {
        assert(cs@.take(hi as int).drop_last() =~= cs@.take(hi - 1));
        hi -= 1;
    }
    let ghost body = cs@.take(hi as int);
    assert(crate::text::trimmed_end(body) == body);
    let mut lo: usize = 0;
    assert(body.skip(0) =~= body);
    while lo < hi && crate::text::white_space_char(cs[lo])
        invariant
            lo <= hi <= cs@.len(),
            body == cs@.take(hi as int),
            trimmed_start(body) == trimmed_start(body.skip(lo as int)),
        decreases hi - lo,
    {
        assert(body.skip(lo as int).skip(1) =~= body.skip(lo + 1));
        lo += 1;
    }
    let mut s = String::new();
    let mut j = lo;
    while j < hi
        invariant
            lo <= j <= hi <= cs@.len(),
            s@ == cs@.subrange(lo as int, j as int),
        decreases hi - j,
    {
        crate::text::push_char(&mut s, cs[j]);
        j += 1;
        assert(cs@.subrange(lo as int, j as int) =~= cs@.subrange(lo as int, j - 1).push(cs@[j - 1]));
    }
    assert(body.skip(lo as int) =~= cs@.subrange(lo as int, hi as int));
    parse_u32(s.as_str())
}

} // verus!
