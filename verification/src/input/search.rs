//! Search state: the query being typed, its matches and the current one.
use vstd::prelude::*;
use crate::terminal::search::SearchMatch;
use crate::text::{chars_of, push_char, push_decimal_str, decimal_chars};
use crate::config::keybinds::{push_str, Modifiers};
use super::keyboard::Key;

verus! {

/// Search state for finding text in terminal
#[derive(Debug, Clone)]
pub struct SearchState {
    /// Whether search mode is active
    pub active: bool,
    /// Current search query
    pub query: String,
    /// All matches found
    pub matches: Vec<SearchMatch>,
    /// Index of current match
    pub current_match: usize,
    /// Whether the search ignores case
    pub case_insensitive: bool,
}

/// Stepping back from the next match returns to the current one, and
/// stepping forward from the previous match does too, whenever the current
/// match is one of the matches.
pub proof fn lemma_prev_undoes_next(current: int, count: int)
    requires
        0 <= current < count,
    ensures
        prev_index(next_index(current, count), count) == current,
        next_index(prev_index(current, count), count) == current,
{
    if current + 1 == count {
        assert((current + 1) % count == 0) by (nonlinear_arith)
            requires
                current + 1 == count,
                count > 0,
        ;
    } else {
        assert((current + 1) % count == current + 1) by (nonlinear_arith)
            requires
                0 <= current + 1 < count,
        ;
    }
    if current == 0 {
        assert((count - 1 + 1) % count == 0) by (nonlinear_arith)
            requires
                count > 0,
        ;
    } else {
        assert((current - 1 + 1) % count == current) by (nonlinear_arith)
            requires
                0 <= current < count,
        ;
    }
}

/// Match `current` of `count` after `n` steps forward.
pub open spec fn next_index_steps(current: int, count: int, n: nat) -> int
    decreases n,
{
    if n == 0 {
        current
    } else {
        next_index(next_index_steps(current, count, (n - 1) as nat), count)
    }
}

/// Steps forward through the matches go round: after `n` steps match
/// `current` has moved to `(current + n) % count`.
proof fn lemma_next_steps_wrap(current: int, count: int, n: nat)
    requires
        0 <= current < count,
    ensures
        next_index_steps(current, count, n) == (current + n) % count,
    decreases n,
{
    if n == 0 {
        vstd::arithmetic::div_mod::lemma_small_mod(current as nat, count as nat);
    } else {
        lemma_next_steps_wrap(current, count, (n - 1) as nat);
        vstd::arithmetic::div_mod::lemma_add_mod_noop_right(1, current + n - 1, count);
        assert(1 + (current + n - 1) == current + n);
    }
}

/// Stepping forward through all `count` matches comes back to the current
/// one; without matches a step changes nothing.
pub proof fn lemma_next_round_trip(current: int, count: int)
    requires
        0 <= current < count || count == 0,
    ensures
        next_index_steps(current, count, count as nat) == current,
{
    if count > 0 {
        lemma_next_steps_wrap(current, count, count as nat);
        vstd::arithmetic::div_mod::lemma_mod_add_multiples_vanish(current, count);
        vstd::arithmetic::div_mod::lemma_small_mod(current as nat, count as nat);
    }
}

/// Deleting the last character of the query takes back the one just typed.
pub proof fn lemma_pop_undoes_push(query: Seq<char>, c: char)
    ensures
        popped(query.push(c)) == query,
{
    assert(query.push(c).drop_last() =~= query);
}

/// Whether a match covers column `col` of row `row`.
pub open spec fn match_covers(m: SearchMatch, row: usize, col: usize) -> bool {
    m.row == row && m.col_start <= col < m.col_end
}

/// The text that counts the matches: "i/n" for match i of n, "No matches"
/// when a query found nothing, nothing without a query.
pub open spec fn match_count(query: Seq<char>, count: nat, current: nat) -> Seq<char> {
    if count == 0 {
        if query.len() == 0 {
            Seq::empty()
        } else {
            "No matches"@
        }
    } else {
        decimal_chars(current + 1) + seq!['/'] + decimal_chars(count)
    }
}

/// The match after match `current` of `count`, wrapping to the first.
pub open spec fn next_index(current: int, count: int) -> int {
    if count == 0 {
        current
    } else {
        (current + 1) % count
    }
}

/// The match before match `current` of `count`, wrapping to the last.
pub open spec fn prev_index(current: int, count: int) -> int {
    if count == 0 {
        current
    } else if current == 0 {
        count - 1
    } else {
        current - 1
    }
}

/// The query with its last character taken off, if it has one.
pub open spec fn popped(query: Seq<char>) -> Seq<char> {
    if query.len() > 0 {
        query.drop_last()
    } else {
        query
    }
}

impl SearchState {
    pub fn new() -> (r: Self)
        ensures
            !r.active,
            r.query@ == Seq::<char>::empty(),
            r.matches@ == Seq::<SearchMatch>::empty(),
            r.current_match == 0,
            !r.case_insensitive,
    {
        SearchState {
            active: false,
            query: String::new(),
            matches: Vec::new(),
            current_match: 0,
            case_insensitive: false,
        }
    }

    /// Start a new search
    pub fn start(&mut self)
        ensures
            final(self).active,
            final(self).query@ == Seq::<char>::empty(),
            final(self).matches@ == Seq::<SearchMatch>::empty(),
            final(self).current_match == 0,
            final(self).case_insensitive == old(self).case_insensitive,
    {
        self.active = true;
        self.query = String::new();
        self.matches.clear();
        self.current_match = 0;
    }

    /// Cancel search and clear state
    pub fn cancel(&mut self)
        ensures
            !final(self).active,
            final(self).query@ == Seq::<char>::empty(),
            final(self).matches@ == Seq::<SearchMatch>::empty(),
            final(self).current_match == 0,
            final(self).case_insensitive == old(self).case_insensitive,
    {
        self.active = false;
        self.query = String::new();
        self.matches.clear();
        self.current_match = 0;
    }

    /// Confirm search (exit search mode but keep highlights)
    pub fn confirm(&mut self)
        ensures
            !final(self).active,
            final(self).query@ == old(self).query@,
            final(self).matches@ == old(self).matches@,
            final(self).current_match == old(self).current_match,
            final(self).case_insensitive == old(self).case_insensitive,
    {
        self.active = false;
    }

    /// Clear matches (but keep query)
    pub fn clear(&mut self)
        ensures
            final(self).active == old(self).active,
            final(self).query@ == old(self).query@,
            final(self).matches@ == Seq::<SearchMatch>::empty(),
            final(self).current_match == 0,
            final(self).case_insensitive == old(self).case_insensitive,
    {
        self.matches.clear();
        self.current_match = 0;
    }

    /// Set matches from search results
    pub fn set_matches(&mut self, matches: Vec<SearchMatch>)
        ensures
            final(self).active == old(self).active,
            final(self).query@ == old(self).query@,
            final(self).matches@ == matches@,
            final(self).current_match == (if old(self).current_match >= matches@.len() {
                0
            } else {
                old(self).current_match
            }),
            final(self).case_insensitive == old(self).case_insensitive,
    {
        self.matches = matches;
        // Keep current_match in bounds
        if self.current_match >= self.matches.len() {
            self.current_match = 0;
        }
    }

    /// Move to next match
    pub fn next_match(&mut self)
        requires
            old(self).matches@.len() > 0 ==> old(self).current_match < usize::MAX,
        ensures
            final(self).active == old(self).active,
            final(self).query@ == old(self).query@,
            final(self).matches@ == old(self).matches@,
            final(self).current_match == next_index(old(self).current_match as int, old(self).matches@.len() as int),
            final(self).case_insensitive == old(self).case_insensitive,
    {
        if !self.matches.is_empty() {
            self.current_match = (self.current_match + 1) % self.matches.len();
        }
    }

    /// Move to previous match
    pub fn prev_match(&mut self)
        ensures
            final(self).active == old(self).active,
            final(self).query@ == old(self).query@,
            final(self).matches@ == old(self).matches@,
            final(self).current_match == prev_index(old(self).current_match as int, old(self).matches@.len() as int),
            final(self).case_insensitive == old(self).case_insensitive,
    {
        if !self.matches.is_empty() {
            self.current_match = if self.current_match == 0 {
                self.matches.len() - 1
            } else {
                self.current_match - 1
            };
        }
    }

    /// Get current match
    pub fn current(&self) -> (r: Option<&SearchMatch>)
        ensures
            self.current_match < self.matches@.len() ==> r == Some(&self.matches@[self.current_match as int]),
            self.current_match >= self.matches@.len() ==> r is None,
    {
        if self.current_match < self.matches.len() {
            Some(&self.matches[self.current_match])
        } else {
            None
        }
    }

    /// Check if a cell is part of any match
    pub fn is_match(&self, row: usize, col: usize) -> (r: bool)
        ensures
            r == exists|i: int| 0 <= i < self.matches@.len() && match_covers(#[trigger] self.matches@[i], row, col),
    {
        let mut i: usize = 0;
        while i < self.matches.len()
            invariant
                i <= self.matches@.len(),
                forall|j: int| 0 <= j < i ==> !match_covers(#[trigger] self.matches@[j], row, col),
            decreases self.matches@.len() - i,
        {
            let m = self.matches[i];
            if m.row == row && col >= m.col_start && col < m.col_end {
                assert(match_covers(self.matches@[i as int], row, col));
                return true;
            }
            i += 1;
        }
        false
    }

    /// Check if a cell is part of the current match
    pub fn is_current_match(&self, row: usize, col: usize) -> (r: bool)
        ensures
            r == (self.current_match < self.matches@.len() && match_covers(
                self.matches@[self.current_match as int],
                row,
                col,
            )),
    {
        match self.current() {
            Some(m) => m.row == row && col >= m.col_start && col < m.col_end,
            None => false,
        }
    }

    /// Get match count string for display
    pub fn match_count_text(&self) -> (r: String)
        requires
            self.matches@.len() > 0 ==> self.current_match < usize::MAX,
        ensures
            r@ == match_count(self.query@, self.matches@.len(), self.current_match as nat),
    {
        let mut out = String::new();
        if self.matches.is_empty() {
            if self.query.as_str().is_empty() {
                out
            } else {
                push_str(&mut out, "No matches");
                out
            }
        } else {
            push_decimal_str(&mut out, (self.current_match + 1) as u64);
            push_char(&mut out, '/');
            push_decimal_str(&mut out, self.matches.len() as u64);
            out
        }
    }

    /// Add character to query
    pub fn push_char(&mut self, c: char)
        ensures
            final(self).active == old(self).active,
            final(self).query@ == old(self).query@.push(c),
            final(self).matches@ == old(self).matches@,
            final(self).current_match == old(self).current_match,
            final(self).case_insensitive == old(self).case_insensitive,
    {
        push_char(&mut self.query, c);
    }

    /// Remove last character from query
    pub fn pop_char(&mut self)
        ensures
            final(self).active == old(self).active,
            final(self).query@ == popped(old(self).query@),
            final(self).matches@ == old(self).matches@,
            final(self).current_match == old(self).current_match,
            final(self).case_insensitive == old(self).case_insensitive,
    {
        let cs = chars_of(self.query.as_str());
        if cs.len() == 0 {
            return;
        }
        let mut q = String::new();
        let mut i: usize = 0;
        while i < cs.len() - 1
            invariant
                i <= cs@.len() - 1,
                cs@.len() > 0,
                q@ == cs@.take(i as int),
            decreases cs@.len() - 1 - i,
        {
            push_char(&mut q, cs[i]);
            i += 1;
            assert(cs@.take(i as int) =~= cs@.take(i - 1).push(cs@[i - 1]));
        }
        assert(cs@.take(i as int) =~= cs@.drop_last());
        self.query = q;
    }

    /// Toggle case sensitivity
    pub fn toggle_case_sensitive(&mut self)
        ensures
            final(self).active == old(self).active,
            final(self).query@ == old(self).query@,
            final(self).matches@ == old(self).matches@,
            final(self).current_match == old(self).current_match,
            final(self).case_insensitive == !old(self).case_insensitive,
    {
        self.case_insensitive = !self.case_insensitive;
    }
}

impl Default for SearchState {
    fn default() -> (r: Self)
        ensures
            !r.active,
            r.query@ == Seq::<char>::empty(),
            r.matches@ == Seq::<SearchMatch>::empty(),
            r.current_match == 0,
            !r.case_insensitive,
    {
        SearchState::new()
    }
}

/// What a key does while the search prompt is open.
#[derive(Debug, Clone, Copy, PartialEq, Eq, Structural)]
pub enum SearchKeyStep {
    /// Leave search mode and drop the highlights
    Cancel,
    /// Leave the prompt, keeping the highlights
    Confirm,
    /// Remove the last character of the query
    DeleteChar,
    /// Go to the next match
    NextMatch,
    /// Go to the previous match
    PrevMatch,
    /// Switch between case-sensitive and case-insensitive search
    ToggleCase,
    /// Add a character to the query
    AddChar(char),
    /// Nothing
    Ignore,
}

/// The step a key takes in search mode: Escape cancels, Return confirms,
/// Backspace deletes; Ctrl+n, and a plain `n` once there is a query, go to
/// the next match; Shift+n and `N` to the previous; Ctrl+i toggles case;
/// other characters are typed.
pub open spec fn search_key_step_of(key: Key, mods: Modifiers, query_empty: bool) -> SearchKeyStep {
    match key {
        Key::Escape => SearchKeyStep::Cancel,
        Key::Return => SearchKeyStep::Confirm,
        Key::Backspace => SearchKeyStep::DeleteChar,
        Key::Char(c) => if c == 'n' && mods.ctrl {
            SearchKeyStep::NextMatch
        } else if c == 'n' && mods.shift {
            SearchKeyStep::PrevMatch
        } else if c == 'n' && !mods.alt {
            if query_empty { SearchKeyStep::AddChar('n') } else { SearchKeyStep::NextMatch }
        } else if c == 'N' {
            SearchKeyStep::PrevMatch
        } else if c == 'i' && mods.ctrl {
            SearchKeyStep::ToggleCase
        } else {
            SearchKeyStep::AddChar(c)
        },
        _ => SearchKeyStep::Ignore,
    }
}

/// What a key does in search mode
pub fn search_key_step(key: Key, mods: &Modifiers, query_empty: bool) -> (r: SearchKeyStep)
    ensures
        r == search_key_step_of(key, *mods, query_empty),
{
    match key {
        Key::Escape => SearchKeyStep::Cancel,
        Key::Return => SearchKeyStep::Confirm,
        Key::Backspace => SearchKeyStep::DeleteChar,
        Key::Char(c) => {
            if c == 'n' && mods.ctrl {
                SearchKeyStep::NextMatch
            } else if c == 'n' && mods.shift {
                SearchKeyStep::PrevMatch
            } else if c == 'n' && !mods.alt {
                if query_empty {
                    SearchKeyStep::AddChar('n')
                } else {
                    SearchKeyStep::NextMatch
                }
            } else if c == 'N' {
                SearchKeyStep::PrevMatch
            } else if c == 'i' && mods.ctrl {
                SearchKeyStep::ToggleCase
            } else {
                SearchKeyStep::AddChar(c)
            }
        },
        _ => SearchKeyStep::Ignore,
    }
}

/// The view offset that shows a match on absolute row `row` (row 0 is the
/// oldest line of history): the distance back into the history, or `None`
/// when the match is on the screen and the view goes to the bottom.
pub fn match_scroll_offset(row: usize, scrollback_len: usize) -> (r: Option<usize>)
    ensures
        r == (if row < scrollback_len { Some((scrollback_len - row) as usize) } else { None::<usize> }),
{
    if row < scrollback_len {
        Some(scrollback_len - row)
    } else {
        None
    }
}

} // verus!
