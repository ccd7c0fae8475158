//! Finding text in the scrollback and on the screen.
use vstd::prelude::*;
use super::cell::{Cell, CellView};
use super::grid::{Grid, LineView};
use crate::text::{chars_of, ascii_lower};

verus! {

/// A place where the search text was found: a row counted from the oldest
/// scrollback line, and the columns `col_start..col_end`.
#[derive(Debug, Clone, Copy, PartialEq, Eq, Structural)]
pub struct SearchMatch {
    pub row: usize,
    pub col_start: usize,
    pub col_end: usize,
}

/// Whether two characters match (ASCII letters in either case when the
/// search ignores case).
pub open spec fn chars_match(a: char, b: char, case_insensitive: bool) -> bool {
    if case_insensitive {
        ascii_lower(a) == ascii_lower(b)
    } else {
        a == b
    }
}

/// Whether `query` appears in `cells` from column `col` on.
pub open spec fn found_at(cells: Seq<CellView>, query: Seq<char>, col: int, case_insensitive: bool) -> bool {
    &&& 0 <= col
    &&& col + query.len() <= cells.len()
    &&& forall|k: int| 0 <= k < query.len() ==> chars_match(#[trigger] cells[col + k].c, query[k], case_insensitive)
}

/// The matches in row `row` (cells `cells`) that start before column `upto`.
pub open spec fn row_matches(cells: Seq<CellView>, query: Seq<char>, case_insensitive: bool, row: int, upto: int) -> Seq<
    SearchMatch,
>
    decreases upto,
{
    if upto <= 0 {
        Seq::empty()
    } else {
        row_matches(cells, query, case_insensitive, row, upto - 1) + (if found_at(
            cells,
            query,
            upto - 1,
            case_insensitive,
        ) {
            seq![SearchMatch { row: row as usize, col_start: (upto - 1) as usize, col_end: (upto - 1 + query.len()) as usize }]
        } else {
            Seq::empty()
        })
    }
}

/// The matches in the first `upto` of `lines`, row by row, left to right.
pub open spec fn lines_matches(lines: Seq<LineView>, query: Seq<char>, case_insensitive: bool, upto: int) -> Seq<
    SearchMatch,
>
    decreases upto,
{
    if upto <= 0 {
        Seq::empty()
    } else {
        lines_matches(lines, query, case_insensitive, upto - 1) + row_matches(
            lines[upto - 1].cells,
            query,
            case_insensitive,
            upto - 1,
            lines[upto - 1].cells.len() as int,
        )
    }
}

/// Every place the (non-empty) query appears, overlapping ones included, in
/// the scrollback and then on the screen.
pub open spec fn search_results(all: Seq<LineView>, query: Seq<char>, case_insensitive: bool) -> Seq<SearchMatch> {
    if query.len() == 0 {
        Seq::empty()
    } else {
        lines_matches(all, query, case_insensitive, all.len() as int)
    }
}

fn lower_ascii(c: char) -> (r: char)
    ensures
        r == ascii_lower(c),
{
    if 'A' <= c && c <= 'Z' {
        ((c as u32 + 32) as u8) as char
    } else {
        c
    }
}

/// Whether `query` appears in `cells` from column `col` on.
fn matches_at(cells: &Vec<Cell>, query: &Vec<char>, col: usize, case_insensitive: bool) -> (r: bool)
    requires
        col + query@.len() <= cells@.len(),
    ensures
        r == found_at(cells@.map_values(|c: Cell| c@), query@, col as int, case_insensitive),
{
    let ghost cv = cells@.map_values(|c: Cell| c@);
    let mut k: usize = 0;
    while k < query.len()
        invariant
            k <= query@.len(),
            col + query@.len() <= cells.len(),
            cv == cells@.map_values(|c: Cell| c@),
            forall|j: int| 0 <= j < k ==> chars_match(#[trigger] cv[col + j].c, query@[j], case_insensitive),
        decreases query@.len() - k,
    {
        assert(cv[col + k] == cells@[col + k]@);
        let a = cells[col + k].c;
        let b = query[k];
        let same = if case_insensitive { lower_ascii(a) == lower_ascii(b) } else { a == b };
        if !same {
            assert(!chars_match(cv[col + k as int].c, query@[k as int], case_insensitive));
            return false;
        }
        k += 1;
    }
    true
}

impl Grid {
    /// Find every occurrence of `query` in the scrollback and on the screen.
    pub fn search(&self, query: &str, case_insensitive: bool) -> (r: Vec<SearchMatch>)
        requires
            self@.scrollback.len() + self@.lines.len() <= usize::MAX,
        ensures
            r@ == search_results(self@.scrollback + self@.lines, query@, case_insensitive),
    {
        let q = chars_of(query);
        let mut out: Vec<SearchMatch> = Vec::new();
        if q.len() == 0 {
            return out;
        }
        let ghost all = self@.scrollback + self@.lines;
        let total = self.scrollback_len() + self.lines_len();
        let mut row: usize = 0;
        while row < total
            invariant
                row <= total,
                total == all.len(),
                q@.len() > 0,
                all == self@.scrollback + self@.lines,
                q@ == query@,
                out@ == lines_matches(all, query@, case_insensitive, row as int),
            decreases total - row,
        {
            let line = match self.absolute_line(row) {
                Some(l) => l,
                None => {
                    return out;
                },
            };
            let cells = line.iter();
            let ghost cv = cells@.map_values(|c: Cell| c@);
            assert(cv == all[row as int].cells);
            let n = cells.len();
            let mut col: usize = 0;
            let ghost base = out@;
            while col < n
                invariant
                    col <= n == cells@.len(),
                    cv == cells@.map_values(|c: Cell| c@),
                    q@ == query@,
                    q@.len() > 0,
                    out@ == base + row_matches(cv, query@, case_insensitive, row as int, col as int),
                decreases n - col,
            {
                if q.len() <= n - col && matches_at(cells, &q, col, case_insensitive) {
                    out.push(SearchMatch { row, col_start: col, col_end: col + q.len() });
                }
                col += 1;
            }
            row += 1;
        }
        out
    }
}

} // verus!
