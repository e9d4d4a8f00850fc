//! Line-based text diffing.

use vstd::prelude::*;

use crate::diff::column::{ColumnChange, InlineDiff, InlineDiffView, inline_diff, inline_diff_spec};
use crate::diff::engine::{RawLine, RawLineView, RawTag, diff_lines_of, groups_view, lemma_diff_lines_len, raw_line_well_formed, similar_diff_lines, similar_line_groups};
use crate::diff::sides::{lemma_groups_texts, new_texts, old_texts, trimmed_lines};
use crate::text::{chars_of, lemma_flatten_push, push_char, push_str, string_from_range};

verus! {

/// A line change produced by the diff engine.
#[derive(Clone, Debug, PartialEq, Eq)]
pub enum LineChange {
    /// Unchanged line.
    Unchanged {
        /// 1-based line number in the old file.
        old_line: usize,
        /// 1-based line number in the new file.
        new_line: usize,
        /// Line text.
        text: String,
    },
    /// Added line.
    Added {
        /// 1-based line number in the new file.
        new_line: usize,
        /// Line text.
        text: String,
    },
    /// Removed line.
    Removed {
        /// 1-based line number in the old file.
        old_line: usize,
        /// Line text.
        text: String,
    },
    /// Modified line.
    Modified {
        /// 1-based line number in the old file.
        old_line: usize,
        /// 1-based line number in the new file.
        new_line: usize,
        /// Previous text.
        old_text: String,
        /// Current text.
        new_text: String,
        /// Optional changed column range.
        columns: Option<ColumnChange>,
        /// Inline diff fragments.
        inline: InlineDiff,
    },
}

/// The mathematical content of a line change.
pub enum LineChangeView {
    Unchanged { old_line: usize, new_line: usize, text: Seq<char> },
    Added { new_line: usize, text: Seq<char> },
    Removed { old_line: usize, text: Seq<char> },
    Modified {
        old_line: usize,
        new_line: usize,
        old_text: Seq<char>,
        new_text: Seq<char>,
        columns: Option<ColumnChange>,
        inline: InlineDiffView,
    },
}

impl View for LineChange {
    type V = LineChangeView;

    open spec fn view(&self) -> LineChangeView {
        match self {
            LineChange::Unchanged { old_line, new_line, text } => LineChangeView::Unchanged {
                old_line: *old_line,
                new_line: *new_line,
                text: text@,
            },
            LineChange::Added { new_line, text } => LineChangeView::Added {
                new_line: *new_line,
                text: text@,
            },
            LineChange::Removed { old_line, text } => LineChangeView::Removed {
                old_line: *old_line,
                text: text@,
            },
            LineChange::Modified { old_line, new_line, old_text, new_text, columns, inline } =>
                LineChangeView::Modified {
                old_line: *old_line,
                new_line: *new_line,
                old_text: old_text@,
                new_text: new_text@,
                columns: *columns,
                inline: inline@,
            },
        }
    }
}

/// Views of a sequence of line changes.
pub open spec fn changes_view(changes: Seq<LineChange>) -> Seq<LineChangeView> {
    changes.map_values(|c: LineChange| c@)
}

/// `"x" + "y" + text`: a preview row with a two-character marker.
pub open spec fn marked(c1: char, c2: char, text: Seq<char>) -> Seq<char> {
    seq![c1, c2] + text
}

/// The single preview line of a change; a modification spans two rows joined by a newline.
pub open spec fn preview_line_spec(c: LineChangeView) -> Seq<char> {
    match c {
        LineChangeView::Unchanged { text, .. } => marked(' ', ' ', text),
        LineChangeView::Added { text, .. } => marked('+', ' ', text),
        LineChangeView::Removed { text, .. } => marked('-', ' ', text),
        LineChangeView::Modified { old_text, new_text, .. } => marked('-', ' ', old_text).push(
            '\n',
        ) + marked('+', ' ', new_text),
    }
}

/// The preview rows of a change: a modification is split into its removed and added rows.
pub open spec fn preview_lines_spec(c: LineChangeView) -> Seq<Seq<char>> {
    match c {
        LineChangeView::Modified { old_text, new_text, .. } => seq![
            marked('-', ' ', old_text),
            marked('+', ' ', new_text),
        ],
        _ => seq![preview_line_spec(c)],
    }
}

/// Whether a change differs from the old file.
pub open spec fn is_changed_spec(c: LineChangeView) -> bool {
    !(c is Unchanged)
}

/// Builds `c1 c2 text` as a string.
fn marked_string(c1: char, c2: char, text: &str) -> (s: String)
    ensures
        s@ == marked(c1, c2, text@),
{
    let mut s = String::new();
    push_char(&mut s, c1);
    push_char(&mut s, c2);
    push_str(&mut s, text);
    assert(s@ == marked(c1, c2, text@));
    s
}

impl LineChange {
    /// Formats this line change as a diff preview line.
    pub fn to_preview_line(&self) -> (s: String)
        ensures
            s@ == preview_line_spec(self@),
    {
        match self {
            LineChange::Unchanged { text, .. } => marked_string(' ', ' ', text.as_str()),
            LineChange::Added { text, .. } => marked_string('+', ' ', text.as_str()),
            LineChange::Removed { text, .. } => marked_string('-', ' ', text.as_str()),
            LineChange::Modified { old_text, new_text, .. } => {
                let mut s = marked_string('-', ' ', old_text.as_str());
                push_char(&mut s, '\n');
                let second = marked_string('+', ' ', new_text.as_str());
                push_str(&mut s, second.as_str());
                s
            },
        }
    }

    /// Formats this line change as one or more diff preview rows.
    pub fn to_preview_lines(&self) -> (rows: Vec<String>)
        ensures
            rows@.map_values(|r: String| r@) == preview_lines_spec(self@),
    {
        let mut rows: Vec<String> = Vec::new();
        match self {
            LineChange::Modified { old_text, new_text, .. } => {
                rows.push(marked_string('-', ' ', old_text.as_str()));
                rows.push(marked_string('+', ' ', new_text.as_str()));
            },
            _ => {
                rows.push(self.to_preview_line());
            },
        }
        assert(rows@.map_values(|r: String| r@) =~= preview_lines_spec(self@));
        rows
    }

    /// Returns whether this line is changed.
    pub fn is_changed(&self) -> (b: bool)
        ensures
            b == is_changed_spec(self@),
    {
        match self {
            LineChange::Unchanged { .. } => false,
            _ => true,
        }
    }

    /// A copy of this change.
    pub(crate) fn duplicate(&self) -> (c: LineChange)
        ensures
            c@ == self@,
    {
        match self {
            LineChange::Unchanged { old_line, new_line, text } => LineChange::Unchanged {
                old_line: *old_line,
                new_line: *new_line,
                text: text.clone(),
            },
            LineChange::Added { new_line, text } => LineChange::Added {
                new_line: *new_line,
                text: text.clone(),
            },
            LineChange::Removed { old_line, text } => LineChange::Removed {
                old_line: *old_line,
                text: text.clone(),
            },
            LineChange::Modified { old_line, new_line, old_text, new_text, columns, inline } =>
                LineChange::Modified {
                old_line: *old_line,
                new_line: *new_line,
                old_text: old_text.clone(),
                new_text: new_text.clone(),
                columns: *columns,
                inline: InlineDiff {
                    removed: inline.removed.clone(),
                    added: inline.added.clone(),
                    columns: inline.columns,
                },
            },
        }
    }
}


/// A numbered line of text.
pub type NumberedLine = (usize, String);

/// Views of numbered lines.
pub open spec fn numbered_view(v: Seq<NumberedLine>) -> Seq<(usize, Seq<char>)> {
    v.map_values(|l: NumberedLine| (l.0, l.1@))
}

/// The removed lines of a change group, in order, with their old line numbers.
pub open spec fn removed_of(cs: Seq<LineChangeView>) -> Seq<(usize, Seq<char>)>
    decreases cs.len(),
{
    if cs.len() == 0 {
        Seq::empty()
    } else {
        let rest = removed_of(cs.drop_last());
        match cs.last() {
            LineChangeView::Removed { old_line, text } => rest.push((old_line, text)),
            _ => rest,
        }
    }
}

/// The added lines of a change group, in order, with their new line numbers.
pub open spec fn added_of(cs: Seq<LineChangeView>) -> Seq<(usize, Seq<char>)>
    decreases cs.len(),
{
    if cs.len() == 0 {
        Seq::empty()
    } else {
        let rest = added_of(cs.drop_last());
        match cs.last() {
            LineChangeView::Added { new_line, text } => rest.push((new_line, text)),
            _ => rest,
        }
    }
}

/// Number of leading positions (from `i` on) where removed and added texts agree.
pub open spec fn text_prefix_from(
    r: Seq<(usize, Seq<char>)>,
    a: Seq<(usize, Seq<char>)>,
    i: nat,
) -> nat
    decreases r.len() - i,
{
    if i < r.len() && i < a.len() && r[i as int].1 == a[i as int].1 {
        text_prefix_from(r, a, i + 1)
    } else {
        i
    }
}

/// Number of trailing positions (from `i` matches on) where removed and added texts agree.
pub open spec fn text_suffix_from(
    r: Seq<(usize, Seq<char>)>,
    a: Seq<(usize, Seq<char>)>,
    i: nat,
) -> nat
    decreases r.len() - i,
{
    if i < r.len() && i < a.len() && r[r.len() - 1 - i].1 == a[a.len() - 1 - i].1 {
        text_suffix_from(r, a, i + 1)
    } else {
        i
    }
}

/// A modified line pairing one removed and one added line.
pub open spec fn modified_spec(old: (usize, Seq<char>), new: (usize, Seq<char>)) -> LineChangeView {
    LineChangeView::Modified {
        old_line: old.0,
        new_line: new.0,
        old_text: old.1,
        new_text: new.1,
        columns: inline_diff_spec(old.1, new.1).columns,
        inline: inline_diff_spec(old.1, new.1),
    }
}

/// An unchanged line built from a removed and an added line with equal text.
pub open spec fn unchanged_pair(old: (usize, Seq<char>), new: (usize, Seq<char>)) -> LineChangeView {
    LineChangeView::Unchanged { old_line: old.0, new_line: new.0, text: old.1 }
}

/// Rewrites a group of raw changes: removed and added lines with equal text at the start
/// and at the end become unchanged lines; the remaining removed and added lines are paired
/// in order into modifications; what cannot be paired stays removed, then added.
pub open spec fn combine_spec(cs: Seq<LineChangeView>) -> Seq<LineChangeView> {
    let r = removed_of(cs);
    let a = added_of(cs);
    if r.len() == 0 || a.len() == 0 {
        cs
    } else {
        let p = text_prefix_from(r, a, 0);
        let rr = r.skip(p as int);
        let aa = a.skip(p as int);
        let s = text_suffix_from(rr, aa, 0);
        let mid_r = rr.take(rr.len() - s);
        let mid_a = aa.take(aa.len() - s);
        let pc = if mid_r.len() <= mid_a.len() { mid_r.len() } else { mid_a.len() };
        Seq::new(p, |i: int| unchanged_pair(r[i], a[i]))
            + Seq::new(pc, |i: int| modified_spec(mid_r[i], mid_a[i]))
            + Seq::new((mid_r.len() - pc) as nat, |i: int| LineChangeView::Removed {
                old_line: mid_r[pc + i].0,
                text: mid_r[pc + i].1,
            })
            + Seq::new((mid_a.len() - pc) as nat, |i: int| LineChangeView::Added {
                new_line: mid_a[pc + i].0,
                text: mid_a[pc + i].1,
            })
            + Seq::new(s, |i: int| unchanged_pair(rr[mid_r.len() + i], aa[mid_a.len() + i]))
    }
}

proof fn lemma_text_prefix_bounds(r: Seq<(usize, Seq<char>)>, a: Seq<(usize, Seq<char>)>, i: nat)
    requires
        i <= r.len(),
        i <= a.len(),
    ensures
        i <= text_prefix_from(r, a, i) <= r.len(),
        text_prefix_from(r, a, i) <= a.len(),
    decreases r.len() - i,
{
    if i < r.len() && i < a.len() && r[i as int].1 == a[i as int].1 {
        lemma_text_prefix_bounds(r, a, i + 1);
    }
}

proof fn lemma_text_suffix_bounds(r: Seq<(usize, Seq<char>)>, a: Seq<(usize, Seq<char>)>, i: nat)
    requires
        i <= r.len(),
        i <= a.len(),
    ensures
        i <= text_suffix_from(r, a, i) <= r.len(),
        text_suffix_from(r, a, i) <= a.len(),
    decreases r.len() - i,
{
    if i < r.len() && i < a.len() && r[r.len() - 1 - i].1 == a[a.len() - 1 - i].1 {
        lemma_text_suffix_bounds(r, a, i + 1);
    }
}

fn removed_lines(changes: &[LineChange]) -> (out: Vec<NumberedLine>)
    ensures
        numbered_view(out@) == removed_of(changes_view(changes@)),
{
    let mut out: Vec<NumberedLine> = Vec::new();
    let mut i: usize = 0;
    while i < changes.len()
        invariant
            i <= changes.len(),
            numbered_view(out@) == removed_of(changes_view(changes@).take(i as int)),
        decreases changes.len() - i,
    {
        let ghost cs = changes_view(changes@);
        assert(cs.take(i + 1).drop_last() == cs.take(i as int));
        match &changes[i] {
            LineChange::Removed { old_line, text } => {
                out.push((*old_line, text.clone()));
            },
            _ => {},
        }
        assert(numbered_view(out@) == removed_of(cs.take(i + 1)));
        i = i + 1;
    }
    assert(changes_view(changes@).take(changes.len() as int) == changes_view(changes@));
    out
}

fn added_lines(changes: &[LineChange]) -> (out: Vec<NumberedLine>)
    ensures
        numbered_view(out@) == added_of(changes_view(changes@)),
{
    let mut out: Vec<NumberedLine> = Vec::new();
    let mut i: usize = 0;
    while i < changes.len()
        invariant
            i <= changes.len(),
            numbered_view(out@) == added_of(changes_view(changes@).take(i as int)),
        decreases changes.len() - i,
    {
        let ghost cs = changes_view(changes@);
        assert(cs.take(i + 1).drop_last() == cs.take(i as int));
        match &changes[i] {
            LineChange::Added { new_line, text } => {
                out.push((*new_line, text.clone()));
            },
            _ => {},
        }
        assert(numbered_view(out@) == added_of(cs.take(i + 1)));
        i = i + 1;
    }
    assert(changes_view(changes@).take(changes.len() as int) == changes_view(changes@));
    out
}

fn modified_line(old_line: usize, old_text: &str, new_line: usize, new_text: &str) -> (c: LineChange)
    ensures
        c@ == modified_spec((old_line, old_text@), (new_line, new_text@)),
{
    let inline = inline_diff(old_text, new_text);
    LineChange::Modified {
        old_line,
        new_line,
        old_text: old_text.to_owned(),
        new_text: new_text.to_owned(),
        columns: inline.columns,
        inline,
    }
}

pub(crate) proof fn lemma_changes_view_push(v: Seq<LineChange>, x: LineChange)
    ensures
        changes_view(v.push(x)) == changes_view(v).push(x@),
{
    assert(changes_view(v.push(x)) =~= changes_view(v).push(x@));
}

fn copy_changes(changes: &[LineChange]) -> (out: Vec<LineChange>)
    ensures
        changes_view(out@) == changes_view(changes@),
{
    let mut out: Vec<LineChange> = Vec::new();
    let mut i: usize = 0;
    while i < changes.len()
        invariant
            i <= changes.len(),
            changes_view(out@) == changes_view(changes@).take(i as int),
        decreases changes.len() - i,
    {
        let ghost before = out@;
        out.push(changes[i].duplicate());
        proof {
            lemma_changes_view_push(before, changes@[i as int]);
            assert(changes_view(changes@).take(i + 1) =~= changes_view(changes@).take(
                i as int,
            ).push(changes@[i as int]@));
        }
        i = i + 1;
    }
    assert(changes_view(changes@).take(changes.len() as int) =~= changes_view(changes@));
    out
}

/// Appends `count` unchanged lines pairing `removed[r_from..]` with `added[a_from..]`.
fn push_unchanged_pairs(
    out: &mut Vec<LineChange>,
    removed: &Vec<NumberedLine>,
    added: &Vec<NumberedLine>,
    r_from: usize,
    a_from: usize,
    count: usize,
)
    requires
        r_from + count <= removed.len(),
        a_from + count <= added.len(),
    ensures
        changes_view(final(out)@) == changes_view(old(out)@) + Seq::new(
            count as nat,
            |i: int| unchanged_pair(numbered_view(removed@)[r_from + i], numbered_view(added@)[a_from + i]),
        ),
{
    let ghost start = changes_view(out@);
    let ghost r = numbered_view(removed@);
    let ghost a = numbered_view(added@);
    let mut k: usize = 0;
    while k < count
        invariant
            k <= count,
            r_from + count <= removed.len(),
            a_from + count <= added.len(),
            r == numbered_view(removed@),
            a == numbered_view(added@),
            changes_view(out@) == start + Seq::new(
                k as nat,
                |i: int| unchanged_pair(r[r_from + i], a[a_from + i]),
            ),
        decreases count - k,
    {
        let old = &removed[r_from + k];
        let new = &added[a_from + k];
        let c = LineChange::Unchanged { old_line: old.0, new_line: new.0, text: old.1.clone() };
        let ghost before = out@;
        out.push(c);
        proof {
            lemma_changes_view_push(before, c);
        }
        k = k + 1;
        assert(changes_view(out@) =~= start + Seq::new(
            k as nat,
            |i: int| unchanged_pair(r[r_from + i], a[a_from + i]),
        ));
    }
}

/// Appends `count` modifications pairing `removed[r_from..]` with `added[a_from..]`.
fn push_modified_pairs(
    out: &mut Vec<LineChange>,
    removed: &Vec<NumberedLine>,
    added: &Vec<NumberedLine>,
    r_from: usize,
    a_from: usize,
    count: usize,
)
    requires
        r_from + count <= removed.len(),
        a_from + count <= added.len(),
    ensures
        changes_view(final(out)@) == changes_view(old(out)@) + Seq::new(
            count as nat,
            |i: int| modified_spec(numbered_view(removed@)[r_from + i], numbered_view(added@)[a_from + i]),
        ),
{
    let ghost start = changes_view(out@);
    let ghost r = numbered_view(removed@);
    let ghost a = numbered_view(added@);
    let mut k: usize = 0;
    while k < count
        invariant
            k <= count,
            r_from + count <= removed.len(),
            a_from + count <= added.len(),
            r == numbered_view(removed@),
            a == numbered_view(added@),
            changes_view(out@) == start + Seq::new(
                k as nat,
                |i: int| modified_spec(r[r_from + i], a[a_from + i]),
            ),
        decreases count - k,
    {
        let old = &removed[r_from + k];
        let new = &added[a_from + k];
        let c = modified_line(old.0, old.1.as_str(), new.0, new.1.as_str());
        let ghost before = out@;
        out.push(c);
        proof {
            lemma_changes_view_push(before, c);
        }
        k = k + 1;
        assert(changes_view(out@) =~= start + Seq::new(
            k as nat,
            |i: int| modified_spec(r[r_from + i], a[a_from + i]),
        ));
    }
}

/// A numbered line as a removed (`removed == true`) or an added line.
pub open spec fn side_change(line: (usize, Seq<char>), removed: bool) -> LineChangeView {
    if removed {
        LineChangeView::Removed { old_line: line.0, text: line.1 }
    } else {
        LineChangeView::Added { new_line: line.0, text: line.1 }
    }
}

/// Appends the lines `lines[from..to]` as removed (`removed == true`) or added lines.
fn push_single_sided(out: &mut Vec<LineChange>, lines: &Vec<NumberedLine>, from: usize, to: usize, removed: bool)
    requires
        from <= to <= lines.len(),
    ensures
        changes_view(final(out)@) == changes_view(old(out)@) + Seq::new(
            (to - from) as nat,
            |i: int| side_change(numbered_view(lines@)[from + i], removed),
        ),
{
    let ghost start = changes_view(out@);
    let ghost l = numbered_view(lines@);
    let mut k: usize = from;
    while k < to
        invariant
            from <= k <= to,
            to <= lines.len(),
            l == numbered_view(lines@),
            changes_view(out@) == start + Seq::new(
                (k - from) as nat,
                |i: int| side_change(l[from + i], removed),
            ),
        decreases to - k,
    {
        let line = &lines[k];
        let c = if removed {
            LineChange::Removed { old_line: line.0, text: line.1.clone() }
        } else {
            LineChange::Added { new_line: line.0, text: line.1.clone() }
        };
        assert(l[k as int] == (lines@[k as int].0, lines@[k as int].1@));
        let ghost before = out@;
        out.push(c);
        proof {
            lemma_changes_view_push(before, c);
        }
        k = k + 1;
        assert(changes_view(out@) =~= start + Seq::new(
            (k - from) as nat,
            |i: int| side_change(l[from + i], removed),
        ));
    }
}

/// Rewrites one group of raw line changes (see `combine_spec`).
#[verifier::rlimit(40)]
pub fn combine_modifications(changes: &[LineChange]) -> (out: Vec<LineChange>)
    ensures
        changes_view(out@) == combine_spec(changes_view(changes@)),
{
    let removed = removed_lines(changes);
    let added = added_lines(changes);
    let ghost r = numbered_view(removed@);
    let ghost a = numbered_view(added@);
    if removed.len() == 0 || added.len() == 0 {
        return copy_changes(changes);
    }
    let mut start: usize = 0;
    while start < removed.len() && start < added.len() && removed[start].1 == added[start].1
        invariant
            start <= removed.len(),
            start <= added.len(),
            r == numbered_view(removed@),
            a == numbered_view(added@),
            text_prefix_from(r, a, 0) == text_prefix_from(r, a, start as nat),
        decreases removed.len() - start,
    {
        start = start + 1;
    }
    let p = start;
    let ghost rr = r.skip(p as int);
    let ghost aa = a.skip(p as int);
    let mut removed_end = removed.len();
    let mut added_end = added.len();
    while removed_end > p && added_end > p && removed[removed_end - 1].1 == added[added_end
        - 1].1
        invariant
            p <= removed_end <= removed.len(),
            p <= added_end <= added.len(),
            removed.len() - removed_end == added.len() - added_end,
            r == numbered_view(removed@),
            a == numbered_view(added@),
            rr == r.skip(p as int),
            aa == a.skip(p as int),
            text_suffix_from(rr, aa, 0) == text_suffix_from(
                rr,
                aa,
                (removed.len() - removed_end) as nat,
            ),
        decreases removed_end,
    {
        removed_end = removed_end - 1;
        added_end = added_end - 1;
    }
    let s = removed.len() - removed_end;
    let remaining_removed = removed_end - p;
    let remaining_added = added_end - p;
    let pair_count = if remaining_removed <= remaining_added {
        remaining_removed
    } else {
        remaining_added
    };
    proof {
        assert(text_prefix_from(r, a, p as nat) == p);
        assert(text_suffix_from(rr, aa, s as nat) == s);
    }
    let mut combined: Vec<LineChange> = Vec::new();
    push_unchanged_pairs(&mut combined, &removed, &added, 0, 0, p);
    let ghost c1 = changes_view(combined@);
    push_modified_pairs(&mut combined, &removed, &added, p, p, pair_count);
    let ghost c2 = changes_view(combined@);
    push_single_sided(&mut combined, &removed, p + pair_count, removed_end, true);
    let ghost c3 = changes_view(combined@);
    push_single_sided(&mut combined, &added, p + pair_count, added_end, false);
    let ghost c4 = changes_view(combined@);
    push_unchanged_pairs(&mut combined, &removed, &added, removed_end, added_end, s);
    proof {
        let mid_r = rr.take(rr.len() - s);
        let mid_a = aa.take(aa.len() - s);
        assert(mid_r.len() == remaining_removed);
        assert(mid_a.len() == remaining_added);
        let pc = pair_count as int;
        let seg1 = Seq::new(p as nat, |i: int| unchanged_pair(r[i], a[i]));
        let seg2 = Seq::new(pair_count as nat, |i: int| modified_spec(mid_r[i], mid_a[i]));
        let seg3 = Seq::new((mid_r.len() - pc) as nat, |i: int| LineChangeView::Removed {
            old_line: mid_r[pc + i].0,
            text: mid_r[pc + i].1,
        });
        let seg4 = Seq::new((mid_a.len() - pc) as nat, |i: int| LineChangeView::Added {
            new_line: mid_a[pc + i].0,
            text: mid_a[pc + i].1,
        });
        let seg5 = Seq::new(s as nat, |i: int| unchanged_pair(rr[mid_r.len() + i], aa[mid_a.len() + i]));
        assert(c1 =~= seg1);
        assert(c2 =~= c1 + seg2);
        assert(c3 =~= c2 + seg3);
        assert(c4 =~= c3 + seg4);
        assert(changes_view(combined@) =~= c4 + seg5);
        assert(combine_spec(changes_view(changes@)) == seg1 + seg2 + seg3 + seg4 + seg5);
        assert(changes_view(combined@) =~= combine_spec(changes_view(changes@)));
    }
    combined
}


/// A line without its trailing `\r` and `\n` characters.
pub open spec fn trim_line_ending_spec(s: Seq<char>) -> Seq<char>
    decreases s.len(),
{
    if s.len() > 0 && (s.last() == '\r' || s.last() == '\n') {
        trim_line_ending_spec(s.drop_last())
    } else {
        s
    }
}

/// Strips every trailing `\r` and `\n` from a line.
fn trim_line_ending(value: &str) -> (t: String)
    ensures
        t@ == trim_line_ending_spec(value@),
{
    let chars = chars_of(value);
    let mut end = chars.len();
    assert(chars@.take(end as int) == chars@);
    while end > 0 && (chars[end - 1] == '\r' || chars[end - 1] == '\n')
        invariant
            end <= chars.len(),
            trim_line_ending_spec(value@) == trim_line_ending_spec(chars@.take(end as int)),
            chars@ == value@,
        decreases end,
    {
        assert(chars@.take(end as int).drop_last() == chars@.take(end - 1));
        end = end - 1;
    }
    string_from_range(&chars, 0, end)
}

/// The 1-based line number of an optional 0-based index, 0 when absent.
pub open spec fn line_number(index: Option<usize>) -> usize {
    match index {
        Some(i) => (i + 1) as usize,
        None => 0,
    }
}

/// A raw change as a line change, its text without the line ending.
pub open spec fn raw_to_change(l: RawLineView) -> LineChangeView {
    match l.tag {
        RawTag::Equal => LineChangeView::Unchanged {
            old_line: line_number(l.old_index),
            new_line: line_number(l.new_index),
            text: trim_line_ending_spec(l.value),
        },
        RawTag::Delete => LineChangeView::Removed {
            old_line: line_number(l.old_index),
            text: trim_line_ending_spec(l.value),
        },
        RawTag::Insert => LineChangeView::Added {
            new_line: line_number(l.new_index),
            text: trim_line_ending_spec(l.value),
        },
    }
}

/// The line changes of one group of raw changes.
pub open spec fn group_changes(g: Seq<RawLineView>) -> Seq<LineChangeView> {
    combine_spec(g.map_values(|l: RawLineView| raw_to_change(l)))
}

/// The line changes from a sequence of raw change groups, group after group.
pub open spec fn changes_of_groups(groups: Seq<Seq<RawLineView>>) -> Seq<LineChangeView> {
    groups.map_values(|g: Seq<RawLineView>| group_changes(g)).flatten()
}

/// The line diff of two texts: every group that the line diff reports is rewritten by
/// `combine_spec`, and the results are concatenated.
pub open spec fn diff_lines_spec(before: Seq<char>, after: Seq<char>) -> Seq<LineChangeView> {
    changes_of_groups(similar_line_groups(before, after))
}

/// Whether the line numbers of a raw change fit in a `usize`.
pub open spec fn raw_indices_fit(l: RawLineView) -> bool {
    &&& (l.old_index matches Some(k) ==> k < usize::MAX)
    &&& (l.new_index matches Some(k) ==> k < usize::MAX)
}

fn raw_line_change(l: &RawLine) -> (c: LineChange)
    requires
        raw_indices_fit(l@),
    ensures
        c@ == raw_to_change(l@),
{
    let text = trim_line_ending(l.value.as_str());
    let old_line = match l.old_index {
        Some(i) => i + 1,
        None => 0,
    };
    let new_line = match l.new_index {
        Some(i) => i + 1,
        None => 0,
    };
    match l.tag {
        RawTag::Equal => LineChange::Unchanged { old_line, new_line, text },
        RawTag::Delete => LineChange::Removed { old_line, text },
        RawTag::Insert => LineChange::Added { new_line, text },
    }
}


/// The line changes of groups of raw changes: each group's changes, with their line
/// endings trimmed, rewritten by `combine_modifications`, group after group.
pub fn changes_from_groups(groups: &Vec<Vec<RawLine>>) -> (changes: Vec<LineChange>)
    requires
        forall|a: int, b: int| 0 <= a < groups@.len() && 0 <= b < groups@[a]@.len() ==> raw_indices_fit(
            #[trigger] groups@[a]@[b]@,
        ),
    ensures
        changes_view(changes@) == changes_of_groups(groups_view(groups@)),
{
    let ghost gv = groups_view(groups@);
    let mut changes: Vec<LineChange> = Vec::new();
    let mut i: usize = 0;
    while i < groups.len()
        invariant
            i <= groups.len(),
            gv == groups_view(groups@),
            forall|a: int, b: int| 0 <= a < groups@.len() && 0 <= b < groups@[a]@.len() ==> raw_indices_fit(
                #[trigger] groups@[a]@[b]@,
            ),
            changes_view(changes@) == changes_of_groups(gv.take(i as int)),
        decreases groups.len() - i,
    {
        let group = &groups[i];
        let mut raw: Vec<LineChange> = Vec::new();
        let mut j: usize = 0;
        while j < group.len()
            invariant
                j <= group.len(),
                group == groups@[i as int],
                forall|b: int| 0 <= b < group@.len() ==> raw_indices_fit(#[trigger] group@[b]@),
                changes_view(raw@) == gv[i as int].map_values(|l: RawLineView| raw_to_change(l)).take(j as int),
                gv[i as int] == group@.map_values(|l: RawLine| l@),
            decreases group.len() - j,
        {
            let c = raw_line_change(&group[j]);
            let ghost before_raw = raw@;
            raw.push(c);
            proof {
                lemma_changes_view_push(before_raw, c);
                assert(gv[i as int].map_values(|l: RawLineView| raw_to_change(l)).take(j + 1) =~=
                    gv[i as int].map_values(|l: RawLineView| raw_to_change(l)).take(j as int).push(c@));
            }
            j = j + 1;
        }
        assert(gv[i as int].map_values(|l: RawLineView| raw_to_change(l)).take(group.len() as int)
            =~= gv[i as int].map_values(|l: RawLineView| raw_to_change(l)));
        let combined = combine_modifications(raw.as_slice());
        let ghost before_changes = changes_view(changes@);
        let mut k: usize = 0;
        while k < combined.len()
            invariant
                k <= combined.len(),
                changes_view(changes@) == before_changes + changes_view(combined@).take(k as int),
            decreases combined.len() - k,
        {
            let ghost prev = changes@;
            let c = combined[k].duplicate();
            changes.push(c);
            proof {
                lemma_changes_view_push(prev, c);
                assert(changes_view(combined@).take(k + 1) =~= changes_view(combined@).take(k as int).push(c@));
            }
            k = k + 1;
        }
        proof {
            assert(changes_view(combined@).take(combined.len() as int) =~= changes_view(combined@));
            assert(gv.take(i + 1).map_values(|g: Seq<RawLineView>| group_changes(g)) =~=
                gv.take(i as int).map_values(|g: Seq<RawLineView>| group_changes(g)).push(group_changes(gv[i as int])));
            lemma_flatten_push(gv.take(i as int).map_values(|g: Seq<RawLineView>| group_changes(g)), group_changes(gv[i as int]));
        }
        i = i + 1;
    }
    assert(gv.take(groups.len() as int) =~= gv);
    changes
}

/// Computes line changes between two text documents.
pub fn diff_lines(before: &str, after: &str) -> (changes: Vec<LineChange>)
    ensures
        changes_view(changes@) == diff_lines_spec(before@, after@),
        old_texts(changes_view(changes@)) == trimmed_lines(diff_lines_of(before@)),
        new_texts(changes_view(changes@)) == trimmed_lines(diff_lines_of(after@)),
{
    let old_chars = chars_of(before);
    let new_chars = chars_of(after);
    let groups = similar_diff_lines(before, after);
    proof {
        lemma_diff_lines_len(before@);
        lemma_diff_lines_len(after@);
        let old_count = diff_lines_of(before@).len();
        let new_count = diff_lines_of(after@).len();
        assert forall|a: int, b: int| 0 <= a < groups@.len() && 0 <= b < groups@[a]@.len() implies raw_indices_fit(
            #[trigger] groups@[a]@[b]@,
        ) by {
            assert(raw_line_well_formed(groups@[a]@[b]@, old_count, new_count));
            assert(old_count <= old_chars.len() <= usize::MAX);
            assert(new_count <= new_chars.len() <= usize::MAX);
        }
    }
    let changes = changes_from_groups(&groups);
    proof {
        lemma_groups_texts(groups_view(groups@));
    }
    changes
}

} // verus!
