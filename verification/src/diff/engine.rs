//! The line-diff engine behind `diff_lines`: the `similar` crate's line diff, seen as
//! groups of raw line changes.

use vstd::prelude::*;

verus! {

/// The kind of a raw line change.
#[derive(Clone, Copy, Debug, PartialEq, Eq)]
pub enum RawTag {
    /// Line present in both texts.
    Equal,
    /// Line only in the old text.
    Delete,
    /// Line only in the new text.
    Insert,
}

/// A raw line change as the diff algorithm reports it.
#[derive(Clone, Debug, PartialEq, Eq)]
pub struct RawLine {
    /// Kind of change.
    pub tag: RawTag,
    /// 0-based index of the line in the old text.
    pub old_index: Option<usize>,
    /// 0-based index of the line in the new text.
    pub new_index: Option<usize>,
    /// The line, with its line ending.
    pub value: String,
}

/// The mathematical content of a raw line change.
pub struct RawLineView {
    pub tag: RawTag,
    pub old_index: Option<usize>,
    pub new_index: Option<usize>,
    pub value: Seq<char>,
}

impl View for RawLine {
    type V = RawLineView;

    open spec fn view(&self) -> RawLineView {
        RawLineView {
            tag: self.tag,
            old_index: self.old_index,
            new_index: self.new_index,
            value: self.value@,
        }
    }
}

/// Views of groups of raw line changes.
pub open spec fn groups_view(groups: Seq<Vec<RawLine>>) -> Seq<Seq<RawLineView>> {
    groups.map_values(|g: Vec<RawLine>| g@.map_values(|l: RawLine| l@))
}

/// End (exclusive) of the line that contains position `i`: a line ends after `\n`, after
/// `\r\n`, after a lone `\r`, or at the end of the text.
pub open spec fn line_end_from(s: Seq<char>, i: nat) -> nat
    decreases s.len() - i,
{
    if i >= s.len() {
        s.len()
    } else if s[i as int] == '\r' {
        if i + 1 < s.len() && s[i + 1 as int] == '\n' {
            i + 2
        } else {
            i + 1
        }
    } else if s[i as int] == '\n' {
        i + 1
    } else {
        line_end_from(s, i + 1)
    }
}

pub proof fn lemma_line_end_bounds(s: Seq<char>, i: nat)
    requires
        i < s.len(),
    ensures
        i < line_end_from(s, i) <= s.len(),
    decreases s.len() - i,
{
    if s[i as int] != '\r' && s[i as int] != '\n' {
        if i + 1 < s.len() {
            lemma_line_end_bounds(s, i + 1);
        } else {
            assert(line_end_from(s, i + 1) == s.len());
        }
    }
}

/// The lines of a text as the line diff sees them, each with its line ending.
pub open spec fn diff_lines_of(s: Seq<char>) -> Seq<Seq<char>>
    decreases s.len(),
{
    if s.len() == 0 {
        Seq::empty()
    } else {
        let e = line_end_from(s, 0);
        proof {
            lemma_line_end_bounds(s, 0);
        }
        seq![s.take(e as int)] + diff_lines_of(s.skip(e as int))
    }
}

pub proof fn lemma_diff_lines_len(s: Seq<char>)
    ensures
        diff_lines_of(s).len() <= s.len(),
    decreases s.len(),
{
    if s.len() > 0 {
        lemma_line_end_bounds(s, 0);
        lemma_diff_lines_len(s.skip(line_end_from(s, 0) as int));
    }
}

/// The values of the changes that read the old text (equal and deleted lines), in order.
pub open spec fn old_side(lines: Seq<RawLineView>) -> Seq<Seq<char>>
    decreases lines.len(),
{
    if lines.len() == 0 {
        Seq::empty()
    } else {
        let rest = old_side(lines.drop_last());
        if lines.last().tag != RawTag::Insert {
            rest.push(lines.last().value)
        } else {
            rest
        }
    }
}

/// The values of the changes that read the new text (equal and inserted lines), in order.
pub open spec fn new_side(lines: Seq<RawLineView>) -> Seq<Seq<char>>
    decreases lines.len(),
{
    if lines.len() == 0 {
        Seq::empty()
    } else {
        let rest = new_side(lines.drop_last());
        if lines.last().tag != RawTag::Delete {
            rest.push(lines.last().value)
        } else {
            rest
        }
    }
}

/// Whether a raw change carries the indices its kind calls for, each within its text.
pub open spec fn raw_line_well_formed(l: RawLineView, old_count: nat, new_count: nat) -> bool {
    &&& (l.tag != RawTag::Insert <==> l.old_index is Some)
    &&& (l.tag != RawTag::Delete <==> l.new_index is Some)
    &&& (l.old_index matches Some(k) ==> k < old_count)
    &&& (l.new_index matches Some(k) ==> k < new_count)
}

/// Whether a group holds only equal lines or no equal line at all.
pub open spec fn group_homogeneous(g: Seq<RawLineView>) -> bool {
    (forall|j: int| 0 <= j < g.len() ==> #[trigger] g[j].tag == RawTag::Equal)
        || (forall|j: int| 0 <= j < g.len() ==> #[trigger] g[j].tag != RawTag::Equal)
}

/// The groups of raw line changes that `similar`'s Myers line diff (`TextDiff::from_lines`)
/// reports for two texts: one group per diff operation, expanded by `iter_changes`.
pub uninterp spec fn similar_line_groups(before: Seq<char>, after: Seq<char>) -> Seq<Seq<RawLineView>>;

/// Runs `similar::TextDiff::from_lines` and expands each operation with `iter_changes`.
///
/// Trusted: the result is named `similar_line_groups`; beyond that the contract claims what
/// `similar`'s source shows of a line diff: each operation is equal, deleted, inserted or
/// replaced lines (so a group never mixes equal lines with others), each change carries
/// the indices of its kind, and the old-side and new-side values, in order, are the old and
/// new texts split into lines with their line endings.
#[verifier::external_body]
pub(crate) fn similar_diff_lines(before: &str, after: &str) -> (groups: Vec<Vec<RawLine>>)
    ensures
        groups_view(groups@) == similar_line_groups(before@, after@),
        forall|i: int| 0 <= i < groups@.len() ==> group_homogeneous(#[trigger] groups_view(groups@)[i]),
        forall|i: int, j: int| 0 <= i < groups@.len() && 0 <= j < groups@[i]@.len() ==>
            raw_line_well_formed(#[trigger] groups@[i]@[j]@, diff_lines_of(before@).len(), diff_lines_of(after@).len()),
        old_side(groups_view(groups@).flatten()) == diff_lines_of(before@),
        new_side(groups_view(groups@).flatten()) == diff_lines_of(after@),
{
    let diff = similar::TextDiff::from_lines(before, after);
    diff.ops().iter().map(|op| diff.iter_changes(op).map(|change| RawLine {
        tag: match change.tag() {
            similar::ChangeTag::Equal => RawTag::Equal,
            similar::ChangeTag::Delete => RawTag::Delete,
            similar::ChangeTag::Insert => RawTag::Insert,
        },
        old_index: change.old_index(),
        new_index: change.new_index(),
        value: change.value().to_string(),
    }).collect()).collect()
}

} // verus!
