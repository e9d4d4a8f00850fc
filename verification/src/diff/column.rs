//! Column and inline change detection.

use vstd::prelude::*;

use crate::text::{chars_of, string_from_chars};

verus! {

/// A changed column range within a modified line.
#[derive(Clone, Copy, Debug, PartialEq, Eq)]
pub struct ColumnChange {
    /// First changed column, 1-based.
    pub start: usize,
    /// Last changed column, 1-based and inclusive.
    pub end: usize,
}

/// Inline diff fragments for a modified line.
#[derive(Clone, Debug, PartialEq, Eq)]
pub struct InlineDiff {
    /// Removed fragment.
    pub removed: String,
    /// Added fragment.
    pub added: String,
    /// Changed column range.
    pub columns: Option<ColumnChange>,
}

/// The mathematical content of an inline diff.
pub struct InlineDiffView {
    pub removed: Seq<char>,
    pub added: Seq<char>,
    pub columns: Option<ColumnChange>,
}

impl View for InlineDiff {
    type V = InlineDiffView;

    open spec fn view(&self) -> InlineDiffView {
        InlineDiffView { removed: self.removed@, added: self.added@, columns: self.columns }
    }
}

/// Length of the longest common prefix of `a` and `b`, counted from position `i`.
pub open spec fn common_prefix_from(a: Seq<char>, b: Seq<char>, i: nat) -> nat
    decreases a.len() - i,
{
    if i < a.len() && i < b.len() && a[i as int] == b[i as int] {
        common_prefix_from(a, b, i + 1)
    } else {
        i
    }
}

/// Number of leading characters that `a` and `b` share.
pub open spec fn common_prefix(a: Seq<char>, b: Seq<char>) -> nat {
    common_prefix_from(a, b, 0)
}

/// Number of trailing characters that `a` and `b` share, counted from `i` matches on.
pub open spec fn common_suffix_from(a: Seq<char>, b: Seq<char>, i: nat) -> nat
    decreases a.len() - i,
{
    if i < a.len() && i < b.len() && a[a.len() - 1 - i] == b[b.len() - 1 - i] {
        common_suffix_from(a, b, i + 1)
    } else {
        i
    }
}

/// Number of trailing characters that `a` and `b` share.
pub open spec fn common_suffix(a: Seq<char>, b: Seq<char>) -> nat {
    common_suffix_from(a, b, 0)
}

pub open spec fn max_nat(a: nat, b: nat) -> nat {
    if a >= b { a } else { b }
}

/// The inline diff of two lines: the common prefix and then the common suffix of what
/// remains are cut away; the columns span the wider of the two changed fragments.
pub open spec fn inline_diff_spec(before: Seq<char>, after: Seq<char>) -> InlineDiffView {
    let p = common_prefix(before, after);
    let s = common_suffix(before.skip(p as int), after.skip(p as int));
    let removed = before.subrange(p as int, before.len() - s);
    let added = after.subrange(p as int, after.len() - s);
    let width = max_nat(removed.len(), added.len());
    InlineDiffView {
        removed,
        added,
        columns: if width > 0 {
            Some(ColumnChange { start: (p + 1) as usize, end: (p + width) as usize })
        } else {
            None
        },
    }
}

proof fn lemma_common_prefix_bounds(a: Seq<char>, b: Seq<char>, i: nat)
    requires
        i <= a.len(),
        i <= b.len(),
    ensures
        i <= common_prefix_from(a, b, i) <= a.len(),
        common_prefix_from(a, b, i) <= b.len(),
        forall|k: int| i <= k < common_prefix_from(a, b, i) ==> #[trigger] a[k] == b[k],
    decreases a.len() - i,
{
    if i < a.len() && i < b.len() && a[i as int] == b[i as int] {
        lemma_common_prefix_bounds(a, b, i + 1);
    }
}

proof fn lemma_common_suffix_bounds(a: Seq<char>, b: Seq<char>, i: nat)
    requires
        i <= a.len(),
        i <= b.len(),
    ensures
        i <= common_suffix_from(a, b, i) <= a.len(),
        common_suffix_from(a, b, i) <= b.len(),
        forall|k: int| i <= k < common_suffix_from(a, b, i) ==> #[trigger] a[a.len() - 1 - k] == b[b.len() - 1 - k],
    decreases a.len() - i,
{
    if i < a.len() && i < b.len() && a[a.len() - 1 - i] == b[b.len() - 1 - i] {
        lemma_common_suffix_bounds(a, b, i + 1);
    }
}

/// An inline diff cuts both lines into a shared prefix, the changed fragment, and a shared
/// suffix: each line is its prefix, its fragment and its suffix, and the prefixes and the
/// suffixes of the two lines are equal.
pub proof fn law_inline_diff_splits(before: Seq<char>, after: Seq<char>)
    ensures
        ({
            let d = inline_diff_spec(before, after);
            let p = common_prefix(before, after);
            let s = common_suffix(before.skip(p as int), after.skip(p as int));
            &&& before == before.take(p as int) + d.removed + before.skip(before.len() - s)
            &&& after == after.take(p as int) + d.added + after.skip(after.len() - s)
            &&& before.take(p as int) == after.take(p as int)
            &&& before.skip(before.len() - s) == after.skip(after.len() - s)
        }),
{
    lemma_common_prefix_bounds(before, after, 0);
    let p = common_prefix(before, after);
    let b = before.skip(p as int);
    let a = after.skip(p as int);
    lemma_common_suffix_bounds(b, a, 0);
    let s = common_suffix(b, a);
    let d = inline_diff_spec(before, after);
    assert(before =~= before.take(p as int) + d.removed + before.skip(before.len() - s));
    assert(after =~= after.take(p as int) + d.added + after.skip(after.len() - s));
    assert(before.take(p as int) =~= after.take(p as int));
    assert forall|k: int| 0 <= k < s implies #[trigger] before.skip(before.len() - s)[k] == after.skip(after.len() - s)[k] by {
        let j = s - 1 - k;
        assert(b[b.len() - 1 - j] == a[a.len() - 1 - j]);
    }
    assert(before.skip(before.len() - s) =~= after.skip(after.len() - s));
}

proof fn lemma_prefix_stops(a: Seq<char>, b: Seq<char>, i: nat)
    requires
        i <= a.len(),
        i <= b.len(),
    ensures
        ({
            let n = common_prefix_from(a, b, i);
            n == a.len() || n == b.len() || a[n as int] != b[n as int]
        }),
    decreases a.len() - i,
{
    if i < a.len() && i < b.len() && a[i as int] == b[i as int] {
        lemma_prefix_stops(a, b, i + 1);
    }
}

proof fn lemma_suffix_stops(a: Seq<char>, b: Seq<char>, i: nat)
    requires
        i <= a.len(),
        i <= b.len(),
    ensures
        ({
            let n = common_suffix_from(a, b, i);
            n == a.len() || n == b.len() || a[a.len() - 1 - n] != b[b.len() - 1 - n]
        }),
    decreases a.len() - i,
{
    if i < a.len() && i < b.len() && a[a.len() - 1 - i] == b[b.len() - 1 - i] {
        lemma_suffix_stops(a, b, i + 1);
    }
}

/// The prefix that an inline diff cuts away is the longest the two lines share, and its
/// suffix the longest their remainders share; the columns start just after the prefix and
/// span the wider changed fragment, and there are none exactly when the lines are equal.
pub proof fn law_inline_diff_longest(before: Seq<char>, after: Seq<char>)
    ensures
        ({
            let d = inline_diff_spec(before, after);
            let p = common_prefix(before, after);
            let rb = before.skip(p as int);
            let ra = after.skip(p as int);
            let s = common_suffix(rb, ra);
            &&& p <= before.len() && p <= after.len()
            &&& before.take(p as int) == after.take(p as int)
            &&& (p == before.len() || p == after.len() || before[p as int] != after[p as int])
            &&& s <= rb.len() && s <= ra.len()
            &&& rb.skip(rb.len() - s) == ra.skip(ra.len() - s)
            &&& (s == rb.len() || s == ra.len() || rb[rb.len() - 1 - s] != ra[ra.len() - 1 - s])
            &&& (d.columns is None <==> before == after)
            &&& (before != after ==> d.columns == Some(
                ColumnChange {
                    start: (p + 1) as usize,
                    end: (p + max_nat(d.removed.len(), d.added.len())) as usize,
                },
            ))
        }),
{
    law_inline_diff_splits(before, after);
    lemma_common_prefix_bounds(before, after, 0);
    lemma_prefix_stops(before, after, 0);
    let p = common_prefix(before, after);
    let rb = before.skip(p as int);
    let ra = after.skip(p as int);
    lemma_common_suffix_bounds(rb, ra, 0);
    lemma_suffix_stops(rb, ra, 0);
    let s = common_suffix(rb, ra);
    let d = inline_diff_spec(before, after);
    assert(rb.skip(rb.len() - s) =~= before.skip(before.len() - s));
    assert(ra.skip(ra.len() - s) =~= after.skip(after.len() - s));
    if before == after {
        law_inline_diff_identical(before);
    } else {
        if d.removed.len() == 0 && d.added.len() == 0 {
            assert(d.removed =~= Seq::<char>::empty());
            assert(d.added =~= Seq::<char>::empty());
            assert(before =~= before.take(p as int) + before.skip(before.len() - s));
            assert(after =~= after.take(p as int) + after.skip(after.len() - s));
        }
    }
}

/// The inline diff of a line with itself finds nothing changed.
pub proof fn law_inline_diff_identical(line: Seq<char>)
    ensures
        inline_diff_spec(line, line).removed.len() == 0,
        inline_diff_spec(line, line).added.len() == 0,
        inline_diff_spec(line, line).columns is None,
{
    lemma_common_prefix_bounds(line, line, 0);
    lemma_prefix_of_itself(line, 0);
}

proof fn lemma_prefix_of_itself(a: Seq<char>, i: nat)
    requires
        i <= a.len(),
    ensures
        common_prefix_from(a, a, i) == a.len(),
    decreases a.len() - i,
{
    if i < a.len() {
        lemma_prefix_of_itself(a, i + 1);
    }
}

/// Counts the leading characters that two character sequences share.
fn common_prefix_len(before: &Vec<char>, after: &Vec<char>) -> (n: usize)
    ensures
        n == common_prefix(before@, after@),
        n <= before.len(),
        n <= after.len(),
{
    let mut i: usize = 0;
    while i < before.len() && i < after.len() && before[i] == after[i]
        invariant
            i <= before.len(),
            i <= after.len(),
            common_prefix(before@, after@) == common_prefix_from(before@, after@, i as nat),
        decreases before.len() - i,
    {
        i = i + 1;
    }
    i
}

/// Counts the trailing characters that two character sequences share.
fn common_suffix_len(before: &Vec<char>, after: &Vec<char>) -> (n: usize)
    ensures
        n == common_suffix(before@, after@),
        n <= before.len(),
        n <= after.len(),
{
    let mut i: usize = 0;
    while i < before.len() && i < after.len()
        && before[before.len() - 1 - i] == after[after.len() - 1 - i]
        invariant
            i <= before.len(),
            i <= after.len(),
            common_suffix(before@, after@) == common_suffix_from(before@, after@, i as nat),
        decreases before.len() - i,
    {
        i = i + 1;
    }
    i
}

fn copy_range(v: &Vec<char>, from: usize, to: usize) -> (out: Vec<char>)
    requires
        from <= to <= v.len(),
    ensures
        out@ == v@.subrange(from as int, to as int),
{
    let mut out: Vec<char> = Vec::new();
    let mut i = from;
    while i < to
        invariant
            from <= i <= to,
            to <= v.len(),
            out@ == v@.subrange(from as int, i as int),
        decreases to - i,
    {
        out.push(v[i]);
        i = i + 1;
    }
    out
}

/// Computes an inline diff by trimming common prefix and suffix.
pub fn inline_diff(before: &str, after: &str) -> (d: InlineDiff)
    ensures
        d@ == inline_diff_spec(before@, after@),
{
    let b = chars_of(before);
    let a = chars_of(after);
    let prefix = common_prefix_len(&b, &a);
    let b_tail = copy_range(&b, prefix, b.len());
    let a_tail = copy_range(&a, prefix, a.len());
    assert(b_tail@ == b@.skip(prefix as int));
    assert(a_tail@ == a@.skip(prefix as int));
    let suffix = common_suffix_len(&b_tail, &a_tail);
    let removed_chars = copy_range(&b, prefix, b.len() - suffix);
    let added_chars = copy_range(&a, prefix, a.len() - suffix);
    let width = if removed_chars.len() >= added_chars.len() {
        removed_chars.len()
    } else {
        added_chars.len()
    };
    let columns = if width > 0 {
        Some(ColumnChange { start: prefix + 1, end: prefix + width })
    } else {
        None
    };
    InlineDiff {
        removed: string_from_chars(removed_chars.as_slice()),
        added: string_from_chars(added_chars.as_slice()),
        columns,
    }
}

} // verus!
