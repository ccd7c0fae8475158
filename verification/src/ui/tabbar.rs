//! Tab bar: where it takes space, and the titles it shows
use vstd::prelude::*;
use crate::config::keybinds::has_prefix;
use crate::text::{chars_of, push_char, split_chars, split_from};

verus! {

/// Default tab bar height in pixels
pub const TAB_BAR_HEIGHT: u32 = 24;

/// The characters of a path without empty parts between its `/`s.
pub open spec fn path_parts(path: Seq<char>) -> Seq<Seq<char>> {
    split_from(Seq::empty(), path, '/').filter(|p: Seq<char>| p.len() > 0)
}

/// Each part's first character and a `/`.
pub open spec fn initials(parts: Seq<Seq<char>>) -> Seq<char>
    decreases parts.len(),
{
    if parts.len() == 0 {
        Seq::empty()
    } else {
        initials(parts.drop_last()) + seq![parts.last()[0], '/']
    }
}

/// The parts of a path with all but the last cut to their first character.
pub open spec fn abbreviated(parts: Seq<Seq<char>>) -> Seq<char> {
    if parts.len() == 0 {
        Seq::empty()
    } else {
        initials(parts.drop_last()) + parts.last()
    }
}

/// A path with the home directory written as `~`.
pub open spec fn home_replaced(title: Seq<char>, home: Option<Seq<char>>) -> Seq<char> {
    match home {
        Some(h) => if has_prefix(title, h) { seq!['~'] + title.skip(h.len() as int) } else { title },
        None => title,
    }
}

/// A title shortened for the tab bar: a path (a title with a `/`) with the
/// home directory as `~` and, when it has more than two parts, every part
/// but the last cut to its first character (`~/p/r/garterm`, `/u/l/bin`).
pub open spec fn shortened(title: Seq<char>, home: Option<Seq<char>>) -> Seq<char> {
    if !title.contains('/') {
        title
    } else {
        let path = home_replaced(title, home);
        let parts = path_parts(path);
        if parts.len() <= 2 {
            path
        } else if has_prefix(path, seq!['~', '/']) {
            seq!['~', '/'] + abbreviated(parts.skip(1))
        } else if path.len() > 0 && path[0] == '/' {
            seq!['/'] + abbreviated(parts)
        } else {
            path
        }
    }
}

/// A title cut to at most `max` characters, the last one an ellipsis when
/// it was cut (just the ellipsis when `max` is 3 or less).
pub open spec fn truncated(s: Seq<char>, max: nat) -> Seq<char> {
    if s.len() <= max {
        s
    } else if max <= 3 {
        seq!['\u{2026}']
    } else {
        s.take(max - 1) + seq!['\u{2026}']
    }
}

fn string_of(cs: &Vec<char>) -> (r: String)
    ensures
        r@ == cs@,
{
    let mut out = String::new();
    let mut i: usize = 0;
    while i < cs.len()
        invariant
            i <= cs@.len(),
            out@ == cs@.take(i as int),
        decreases cs@.len() - i,
    {
        push_char(&mut out, cs[i]);
        i += 1;
        assert(cs@.take(i as int) =~= cs@.take(i - 1).push(cs@[i - 1]));
    }
    assert(cs@.take(i as int) =~= cs@);
    out
}

fn contains_char(cs: &Vec<char>, c: char) -> (r: bool)
    ensures
        r == cs@.contains(c),
{
    let mut i: usize = 0;
    while i < cs.len()
        invariant
            i <= cs@.len(),
            forall|j: int| 0 <= j < i ==> cs@[j] != c,
        decreases cs@.len() - i,
    {
        if cs[i] == c {
            return true;
        }
        i += 1;
    }
    false
}

fn vec_starts_with(cs: &Vec<char>, p: &Vec<char>) -> (r: bool)
    ensures
        r == has_prefix(cs@, p@),
{
    if cs.len() < p.len() {
        return false;
    }
    let mut i: usize = 0;
    while i < p.len()
        invariant
            i <= p@.len() <= cs@.len(),
            cs@.take(i as int) == p@.take(i as int),
        decreases p@.len() - i,
    {
        if cs[i] != p[i] {
            assert(cs@.take(p@.len() as int)[i as int] != p@[i as int]);
            return false;
        }
        i += 1;
        assert(cs@.take(i as int) =~= cs@.take(i - 1).push(cs@[i - 1]));
        assert(p@.take(i as int) =~= p@.take(i - 1).push(p@[i - 1]));
    }
    assert(p@ =~= p@.take(i as int));
    true
}

/// Append the abbreviation of `parts[from..]` to `out`.
fn push_abbreviated(out: &mut Vec<char>, parts: &Vec<Vec<char>>, from: usize)
    requires
        from < parts@.len(),
        forall|i: int| 0 <= i < parts@.len() ==> (#[trigger] parts@[i])@.len() > 0,
    ensures
        final(out)@ == old(out)@ + abbreviated(parts@.skip(from as int).map_values(|p: Vec<char>| p@)),
{
    let ghost ps = parts@.skip(from as int).map_values(|p: Vec<char>| p@);
    let n = parts.len();
    let ghost before = out@;
    let mut i = from;
    assert(ps.take(0) =~= Seq::<Seq<char>>::empty());
    while i < n - 1
        invariant
            from <= i <= n - 1,
            n == parts@.len(),
            ps == parts@.skip(from as int).map_values(|p: Vec<char>| p@),
            forall|i: int| 0 <= i < parts@.len() ==> (#[trigger] parts@[i])@.len() > 0,
            out@ == before + initials(ps.take(i - from)),
        decreases n - 1 - i,
    {
        let part = &parts[i];
        assert(part@.len() > 0);
        out.push(part[0]);
        out.push('/');
        proof {
            assert(ps.take(i + 1 - from).drop_last() =~= ps.take(i - from));
            assert(ps.take(i + 1 - from).last() == part@);
        }
        i += 1;
    }
    let last = &parts[n - 1];
    let mut k: usize = 0;
    let ghost mid = out@;
    while k < last.len()
        invariant
            k <= last@.len(),
            out@ == mid + last@.take(k as int),
        decreases last@.len() - k,
    {
        out.push(last[k]);
        k += 1;
        assert(last@.take(k as int) =~= last@.take(k - 1).push(last@[k - 1]));
    }
    proof {
        assert(last@.take(k as int) =~= last@);
        assert(ps.drop_last() =~= ps.take(n - 1 - from));
        assert(ps.last() == last@);
    }
}

/// Shorten a path for display: home as `~`, and every part but the last cut
/// to its first character once there are more than two parts.
pub fn shorten_path(title: &str, home: Option<&str>) -> (r: String)
    ensures
        r@ == shortened(
            title@,
            match home {
                Some(h) => Some(h@),
                None => None,
            },
        ),
{
    let t = chars_of(title);
    if !contains_char(&t, '/') {
        return string_of(&t);
    }
    let ghost hv = match home {
        Some(h) => Some(h@),
        None => None::<Seq<char>>,
    };
    let path: Vec<char> = match home {
        Some(h) => {
            let hc = chars_of(h);
            if vec_starts_with(&t, &hc) {
                let mut p: Vec<char> = vec!['~'];
                let mut i = hc.len();
                while i < t.len()
                    invariant
                        hc@.len() <= i <= t@.len(),
                        p@ == seq!['~'] + t@.subrange(hc@.len() as int, i as int),
                    decreases t@.len() - i,
                {
                    p.push(t[i]);
                    i += 1;
                    assert(t@.subrange(hc@.len() as int, i as int) =~= t@.subrange(hc@.len() as int, i - 1).push(
                        t@[i - 1],
                    ));
                }
                assert(t@.subrange(hc@.len() as int, i as int) =~= t@.skip(hc@.len() as int));
                p
            } else {
                t
            }
        },
        None => t,
    };
    assert(path@ == home_replaced(title@, hv));
    // Split into parts, dropping empty ones
    let pieces = split_chars(&path, '/');
    let ghost all = split_from(Seq::empty(), path@, '/');
    let mut parts: Vec<Vec<char>> = Vec::new();
    let mut j: usize = 0;
    while j < pieces.len()
        invariant
            j <= pieces@.len(),
            pieces@.len() == all.len(),
            forall|i: int| 0 <= i < pieces@.len() ==> #[trigger] pieces@[i]@ == all[i],
            parts@.map_values(|p: Vec<char>| p@) == all.take(j as int).filter(|p: Seq<char>| p.len() > 0),
            forall|i: int| 0 <= i < parts@.len() ==> (#[trigger] parts@[i])@.len() > 0,
        decreases pieces@.len() - j,
    {
        proof {
            reveal(Seq::filter);
            assert(all.take(j + 1).drop_last() =~= all.take(j as int));
        }
        if pieces[j].len() > 0 {
            let ghost before = parts@;
            parts.push(pieces[j].clone());
            assert(parts@.map_values(|p: Vec<char>| p@) =~= before.map_values(|p: Vec<char>| p@).push(all[j as int]));
        }
        j += 1;
    }
    assert(all.take(j as int) =~= all);
    let ghost pv = parts@.map_values(|p: Vec<char>| p@);
    assert(pv == path_parts(path@));
    if parts.len() <= 2 {
        return string_of(&path);
    }
    let mut result: Vec<char> = Vec::new();
    let home_prefix = vec!['~', '/'];
    assert(home_prefix@ =~= seq!['~', '/']);
    if vec_starts_with(&path, &home_prefix) {
        result.push('~');
        result.push('/');
        push_abbreviated(&mut result, &parts, 1);
        assert(parts@.skip(1).map_values(|p: Vec<char>| p@) =~= pv.skip(1));
        assert(result@ =~= seq!['~', '/'] + abbreviated(pv.skip(1)));
        string_of(&result)
    } else if path.len() > 0 && path[0] == '/' {
        result.push('/');
        push_abbreviated(&mut result, &parts, 0);
        assert(parts@.skip(0).map_values(|p: Vec<char>| p@) =~= pv);
        assert(result@ =~= seq!['/'] + abbreviated(pv));
        string_of(&result)
    } else {
        string_of(&path)
    }
}

/// Truncate a string to `max_chars` characters, ending in an ellipsis when cut
pub fn truncate_with_ellipsis(s: &str, max_chars: usize) -> (r: String)
    ensures
        r@ == truncated(s@, max_chars as nat),
{
    let cs = chars_of(s);
    if cs.len() <= max_chars {
        return string_of(&cs);
    }
    if max_chars <= 3 {
        let mut r = String::new();
        push_char(&mut r, '\u{2026}');
        return r;
    }
    let mut out = String::new();
    let mut i: usize = 0;
    while i < max_chars - 1
        invariant
            i <= max_chars - 1 < cs@.len(),
            out@ == cs@.take(i as int),
        decreases max_chars - 1 - i,
    {
        push_char(&mut out, cs[i]);
        i += 1;
        assert(cs@.take(i as int) =~= cs@.take(i - 1).push(cs@[i - 1]));
    }
    push_char(&mut out, '\u{2026}');
    out
}

/// Where the tab bar sits and which titles it shows
#[derive(Debug, Clone, Copy, PartialEq, Eq, Structural)]
pub struct TabBar {
    /// Whether the tab bar is shown at all
    pub visible: bool,
    /// At the top (or the bottom) of the window
    pub top: bool,
    /// Height in pixels
    pub height: u32,
    /// Shown even with a single tab
    pub show_single_tab: bool,
    /// Titles that are paths are shortened
    pub shorten_paths: bool,
}

/// The tab bar of a new window.
pub open spec fn default_tab_bar() -> TabBar {
    TabBar { visible: true, top: true, height: TAB_BAR_HEIGHT, show_single_tab: false, shorten_paths: true }
}

/// Whether the tab bar shows for `tab_count` tabs.
pub open spec fn bar_shown(bar: TabBar, tab_count: nat) -> bool {
    bar.visible && (tab_count > 1 || bar.show_single_tab)
}

/// The height left for the panes of `tab_count` tabs in a window of
/// `total_height` pixels.
pub open spec fn bar_content_height(bar: TabBar, total_height: u32, tab_count: nat) -> u32 {
    if bar_shown(bar, tab_count) {
        if total_height >= bar.height { (total_height - bar.height) as u32 } else { 0 }
    } else {
        total_height
    }
}

impl Default for TabBar {
    fn default() -> (r: Self)
        ensures
            r == default_tab_bar(),
    {
        TabBar { visible: true, top: true, height: TAB_BAR_HEIGHT, show_single_tab: false, shorten_paths: true }
    }
}

impl TabBar {
    pub fn new() -> (r: Self)
        ensures
            r == default_tab_bar(),
    {
        Self::default()
    }

    /// Show or hide the tab bar
    pub fn set_visible(&mut self, visible: bool)
        ensures
            *final(self) == (TabBar { visible, ..*old(self) }),
    {
        self.visible = visible;
    }

    /// Offset of the panes from the top of the window
    pub fn content_offset(&self, tab_count: usize) -> (r: u32)
        ensures
            r == (if bar_shown(*self, tab_count as nat) && self.top { self.height } else { 0 }),
    {
        let show = self.visible && (tab_count > 1 || self.show_single_tab);
        if show && self.top {
            self.height
        } else {
            0
        }
    }

    /// Height left for the panes
    pub fn content_height(&self, total_height: u32, tab_count: usize) -> (r: u32)
        ensures
            r == bar_content_height(*self, total_height, tab_count as nat),
    {
        let show = self.visible && (tab_count > 1 || self.show_single_tab);
        if show {
            if total_height >= self.height { total_height - self.height } else { 0 }
        } else {
            total_height
        }
    }

    /// The title a tab shows when `max_chars` characters fit
    pub fn display_title(&self, title: &str, max_chars: usize, home: Option<&str>) -> (r: String)
        ensures
            r@ == (if self.shorten_paths {
                truncated(
                    shortened(
                        title@,
                        match home {
                            Some(h) => Some(h@),
                            None => None,
                        },
                    ),
                    max_chars as nat,
                )
            } else {
                truncated(title@, max_chars as nat)
            }),
    {
        if self.shorten_paths {
            let shortened = shorten_path(title, home);
            truncate_with_ellipsis(shortened.as_str(), max_chars)
        } else {
            truncate_with_ellipsis(title, max_chars)
        }
    }
}

} // verus!
