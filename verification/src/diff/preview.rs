//! Diff preview model.

use vstd::prelude::*;

use crate::diff::line::{LineChange, LineChangeView, changes_view, preview_lines_spec};
use crate::text::{decimal, lemma_flatten_push, owned, push_decimal, push_str};

verus! {

/// A compact diff preview produced for display.
#[derive(Clone, Debug, PartialEq, Eq)]
pub struct DiffPreview {
    /// Human-readable preview lines.
    pub lines: Vec<String>,
    /// Whether output was truncated by a preview limit.
    pub truncated: bool,
}

/// The mathematical content of a preview.
pub struct DiffPreviewView {
    pub lines: Seq<Seq<char>>,
    pub truncated: bool,
}

/// Views of a sequence of strings.
pub open spec fn strings_view(v: Seq<String>) -> Seq<Seq<char>> {
    v.map_values(|s: String| s@)
}

impl View for DiffPreview {
    type V = DiffPreviewView;

    open spec fn view(&self) -> DiffPreviewView {
        DiffPreviewView { lines: strings_view(self.lines@), truncated: self.truncated }
    }
}

/// All preview rows of a sequence of changes, change after change.
pub open spec fn preview_rows(cs: Seq<LineChangeView>) -> Seq<Seq<char>> {
    cs.map_values(|c: LineChangeView| preview_lines_spec(c)).flatten()
}

/// The row that stands for `n` rows left out of a preview.
pub open spec fn more_changes_line(n: nat) -> Seq<char> {
    "... "@ + decimal(n) + " more changes"@
}

/// A preview of at most `max` rows of `rows`, followed by a count of the rows left out.
pub open spec fn preview_spec(rows: Seq<Seq<char>>, max: nat) -> DiffPreviewView {
    if rows.len() > max {
        DiffPreviewView {
            lines: rows.take(max as int).push(more_changes_line((rows.len() - max) as nat)),
            truncated: true,
        }
    } else {
        DiffPreviewView { lines: rows, truncated: false }
    }
}

/// A preview shows at most `max` rows and one more line when rows were left out; it is cut
/// exactly when there are more rows than `max`, and what it shows is the rows in order.
pub proof fn law_preview_bounds(rows: Seq<Seq<char>>, max: nat)
    ensures
        preview_spec(rows, max).lines.len() <= max + 1,
        preview_spec(rows, max).truncated <==> rows.len() > max,
        !preview_spec(rows, max).truncated ==> preview_spec(rows, max).lines == rows,
        preview_spec(rows, max).truncated ==> preview_spec(rows, max).lines.take(max as int) == rows.take(max as int),
{
    if rows.len() > max {
        assert(rows.take(max as int).push(more_changes_line((rows.len() - max) as nat)).take(max as int) =~= rows.take(max as int));
    }
}

pub(crate) proof fn lemma_strings_view_push(v: Seq<String>, s: String)
    ensures
        strings_view(v.push(s)) == strings_view(v).push(s@),
{
    assert(strings_view(v.push(s)) =~= strings_view(v).push(s@));
}


/// Appends a string to a vector of strings.
pub(crate) fn push_string(v: &mut Vec<String>, s: String)
    ensures
        strings_view(final(v)@) == strings_view(old(v)@).push(s@),
{
    let ghost prev = v@;
    v.push(s);
    proof {
        lemma_strings_view_push(prev, s);
    }
}

fn more_changes(n: usize) -> (s: String)
    ensures
        s@ == more_changes_line(n as nat),
{
    let mut s = owned("... ");
    push_decimal(&mut s, n as u64);
    push_str(&mut s, " more changes");
    s
}

impl DiffPreview {
    /// Creates an empty diff preview.
    pub fn empty() -> (p: Self)
        ensures
            p@.lines.len() == 0,
            !p@.truncated,
    {
        DiffPreview { lines: Vec::new(), truncated: false }
    }

    /// Builds a preview from line changes.
    pub fn from_changes(changes: &[LineChange], max_lines: usize) -> (p: Self)
        ensures
            p@ == preview_spec(preview_rows(changes_view(changes@)), max_lines as nat),
    {
        let ghost cv = changes_view(changes@);
        let mut all_lines: Vec<String> = Vec::new();
        let mut i: usize = 0;
        while i < changes.len()
            invariant
                i <= changes.len(),
                cv == changes_view(changes@),
                strings_view(all_lines@) == preview_rows(cv.take(i as int)),
            decreases changes.len() - i,
        {
            let rows = changes[i].to_preview_lines();
            let ghost before = strings_view(all_lines@);
            let mut k: usize = 0;
            while k < rows.len()
                invariant
                    k <= rows.len(),
                    strings_view(all_lines@) == before + strings_view(rows@).take(k as int),
                decreases rows.len() - k,
            {
                let ghost prev = all_lines@;
                let row = rows[k].clone();
                all_lines.push(row);
                proof {
                    lemma_strings_view_push(prev, row);
                    assert(strings_view(rows@).take(k + 1) =~= strings_view(rows@).take(k as int).push(row@));
                }
                k = k + 1;
            }
            proof {
                assert(strings_view(rows@).take(rows.len() as int) =~= strings_view(rows@));
                assert(strings_view(rows@) == preview_lines_spec(cv[i as int]));
                assert(cv.take(i + 1).map_values(|c: LineChangeView| preview_lines_spec(c)) =~=
                    cv.take(i as int).map_values(|c: LineChangeView| preview_lines_spec(c)).push(preview_lines_spec(cv[i as int])));
                lemma_flatten_push(cv.take(i as int).map_values(|c: LineChangeView| preview_lines_spec(c)), preview_lines_spec(cv[i as int]));
            }
            i = i + 1;
        }
        assert(cv.take(changes.len() as int) =~= cv);
        let ghost all = strings_view(all_lines@);
        let keep = if all_lines.len() > max_lines { max_lines } else { all_lines.len() };
        let mut lines: Vec<String> = Vec::new();
        let mut k: usize = 0;
        while k < keep
            invariant
                k <= keep <= all_lines.len(),
                all == strings_view(all_lines@),
                strings_view(lines@) == all.take(k as int),
            decreases keep - k,
        {
            let ghost prev = lines@;
            let row = all_lines[k].clone();
            lines.push(row);
            proof {
                lemma_strings_view_push(prev, row);
                assert(all.take(k + 1) =~= all.take(k as int).push(row@));
            }
            k = k + 1;
        }
        let truncated = all_lines.len() > max_lines;
        if truncated {
            let ghost prev = lines@;
            let more = more_changes(all_lines.len() - max_lines);
            lines.push(more);
            proof {
                lemma_strings_view_push(prev, more);
            }
        } else {
            assert(all.take(keep as int) =~= all);
        }
        DiffPreview { lines, truncated }
    }
}

} // verus!
