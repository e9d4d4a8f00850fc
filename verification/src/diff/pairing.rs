//! How a group of removed and added lines is paired: both sides keep their lines, with
//! their line numbers, in order, and only lines of equal text are paired as unchanged.

use vstd::prelude::*;

use crate::diff::line::{
    LineChangeView, added_of, combine_spec, modified_spec, removed_of, text_prefix_from, text_suffix_from,
    unchanged_pair,
};
use crate::diff::sides::{lemma_prefix, lemma_suffix};

verus! {

/// The old-side line of a change: its old line number and old text.
pub open spec fn old_entry(c: LineChangeView) -> Option<(usize, Seq<char>)> {
    match c {
        LineChangeView::Unchanged { old_line, text, .. } => Some((old_line, text)),
        LineChangeView::Modified { old_line, old_text, .. } => Some((old_line, old_text)),
        LineChangeView::Removed { old_line, text } => Some((old_line, text)),
        LineChangeView::Added { .. } => None,
    }
}

/// The new-side line of a change: its new line number and new text.
pub open spec fn new_entry(c: LineChangeView) -> Option<(usize, Seq<char>)> {
    match c {
        LineChangeView::Unchanged { new_line, text, .. } => Some((new_line, text)),
        LineChangeView::Modified { new_line, new_text, .. } => Some((new_line, new_text)),
        LineChangeView::Added { new_line, text } => Some((new_line, text)),
        LineChangeView::Removed { .. } => None,
    }
}

/// The old-side lines of a sequence of changes, in order.
pub open spec fn old_entries(cs: Seq<LineChangeView>) -> Seq<(usize, Seq<char>)>
    decreases cs.len(),
{
    if cs.len() == 0 {
        Seq::empty()
    } else {
        match old_entry(cs.last()) {
            Some(e) => old_entries(cs.drop_last()).push(e),
            None => old_entries(cs.drop_last()),
        }
    }
}

/// The new-side lines of a sequence of changes, in order.
pub open spec fn new_entries(cs: Seq<LineChangeView>) -> Seq<(usize, Seq<char>)>
    decreases cs.len(),
{
    if cs.len() == 0 {
        Seq::empty()
    } else {
        match new_entry(cs.last()) {
            Some(e) => new_entries(cs.drop_last()).push(e),
            None => new_entries(cs.drop_last()),
        }
    }
}

proof fn lemma_entries_concat(x: Seq<LineChangeView>, y: Seq<LineChangeView>)
    ensures
        old_entries(x + y) == old_entries(x) + old_entries(y),
        new_entries(x + y) == new_entries(x) + new_entries(y),
    decreases y.len(),
{
    if y.len() == 0 {
        assert(x + y =~= x);
        assert(old_entries(x) + old_entries(y) =~= old_entries(x));
        assert(new_entries(x) + new_entries(y) =~= new_entries(x));
    } else {
        lemma_entries_concat(x, y.drop_last());
        assert((x + y).drop_last() =~= x + y.drop_last());
        assert((x + y).last() == y.last());
        match old_entry(y.last()) {
            Some(t) => {
                assert(old_entries(x) + old_entries(y.drop_last()).push(t) =~= (old_entries(x) + old_entries(
                    y.drop_last(),
                )).push(t));
            },
            None => {},
        }
        match new_entry(y.last()) {
            Some(t) => {
                assert(new_entries(x) + new_entries(y.drop_last()).push(t) =~= (new_entries(x) + new_entries(
                    y.drop_last(),
                )).push(t));
            },
            None => {},
        }
    }
}

proof fn lemma_old_all(s: Seq<LineChangeView>)
    requires
        forall|i: int| 0 <= i < s.len() ==> old_entry(#[trigger] s[i]) is Some,
    ensures
        old_entries(s) =~= Seq::new(s.len(), |i: int| old_entry(s[i])->0),
    decreases s.len(),
{
    if s.len() > 0 {
        lemma_old_all(s.drop_last());
        assert(old_entry(s[s.len() - 1]) is Some);
    }
}

proof fn lemma_new_all(s: Seq<LineChangeView>)
    requires
        forall|i: int| 0 <= i < s.len() ==> new_entry(#[trigger] s[i]) is Some,
    ensures
        new_entries(s) =~= Seq::new(s.len(), |i: int| new_entry(s[i])->0),
    decreases s.len(),
{
    if s.len() > 0 {
        lemma_new_all(s.drop_last());
        assert(new_entry(s[s.len() - 1]) is Some);
    }
}

proof fn lemma_old_none(s: Seq<LineChangeView>)
    requires
        forall|i: int| 0 <= i < s.len() ==> old_entry(#[trigger] s[i]) is None,
    ensures
        old_entries(s) =~= Seq::<(usize, Seq<char>)>::empty(),
    decreases s.len(),
{
    if s.len() > 0 {
        lemma_old_none(s.drop_last());
        assert(old_entry(s[s.len() - 1]) is None);
    }
}

proof fn lemma_new_none(s: Seq<LineChangeView>)
    requires
        forall|i: int| 0 <= i < s.len() ==> new_entry(#[trigger] s[i]) is None,
    ensures
        new_entries(s) =~= Seq::<(usize, Seq<char>)>::empty(),
    decreases s.len(),
{
    if s.len() > 0 {
        lemma_new_none(s.drop_last());
        assert(new_entry(s[s.len() - 1]) is None);
    }
}

/// The pieces of the pairing of removed lines `r` with added lines `a`: leading equal
/// pairs, modifications, leftover removed and added lines, trailing equal pairs.
spec fn pairing_pieces(r: Seq<(usize, Seq<char>)>, a: Seq<(usize, Seq<char>)>) -> (
    Seq<LineChangeView>,
    Seq<LineChangeView>,
    Seq<LineChangeView>,
    Seq<LineChangeView>,
    Seq<LineChangeView>,
) {
    let p = text_prefix_from(r, a, 0);
    let rr = r.skip(p as int);
    let aa = a.skip(p as int);
    let s = text_suffix_from(rr, aa, 0);
    let mid_r = rr.take(rr.len() - s);
    let mid_a = aa.take(aa.len() - s);
    let pc = if mid_r.len() <= mid_a.len() { mid_r.len() } else { mid_a.len() };
    (
        Seq::new(p, |i: int| unchanged_pair(r[i], a[i])),
        Seq::new(pc, |i: int| modified_spec(mid_r[i], mid_a[i])),
        Seq::new((mid_r.len() - pc) as nat, |i: int| LineChangeView::Removed {
            old_line: mid_r[pc + i].0,
            text: mid_r[pc + i].1,
        }),
        Seq::new((mid_a.len() - pc) as nat, |i: int| LineChangeView::Added {
            new_line: mid_a[pc + i].0,
            text: mid_a[pc + i].1,
        }),
        Seq::new(s, |i: int| unchanged_pair(rr[mid_r.len() + i], aa[mid_a.len() + i])),
    )
}

proof fn lemma_pairing_old(r: Seq<(usize, Seq<char>)>, a: Seq<(usize, Seq<char>)>)
    ensures
        ({
            let (pa, pb, pcr, pd, pe) = pairing_pieces(r, a);
            old_entries(pa + pb + pcr + pd + pe) == r
        }),
{
    lemma_prefix(r, a, 0);
    let p = text_prefix_from(r, a, 0);
    let rr = r.skip(p as int);
    let aa = a.skip(p as int);
    lemma_suffix(rr, aa, 0);
    let s = text_suffix_from(rr, aa, 0);
    let mid_r = rr.take(rr.len() - s);
    let mid_a = aa.take(aa.len() - s);
    let pc = if mid_r.len() <= mid_a.len() { mid_r.len() } else { mid_a.len() };
    let (pa, pb, pcr, pd, pe) = pairing_pieces(r, a);
    lemma_entries_concat(pa, pb);
    lemma_entries_concat(pa + pb, pcr);
    lemma_entries_concat(pa + pb + pcr, pd);
    lemma_entries_concat(pa + pb + pcr + pd, pe);
    assert forall|i: int| 0 <= i < pa.len() implies old_entry(#[trigger] pa[i]) is Some by {}
    assert forall|i: int| 0 <= i < pb.len() implies old_entry(#[trigger] pb[i]) is Some by {}
    assert forall|i: int| 0 <= i < pcr.len() implies old_entry(#[trigger] pcr[i]) is Some by {}
    assert forall|i: int| 0 <= i < pd.len() implies old_entry(#[trigger] pd[i]) is None by {}
    assert forall|i: int| 0 <= i < pe.len() implies old_entry(#[trigger] pe[i]) is Some by {}
    lemma_old_all(pa);
    lemma_old_all(pb);
    lemma_old_all(pcr);
    lemma_old_none(pd);
    lemma_old_all(pe);
    assert(old_entries(pa) =~= r.take(p as int));
    assert(old_entries(pb) =~= mid_r.take(pc as int));
    assert(old_entries(pcr) =~= mid_r.skip(pc as int));
    assert(old_entries(pe) =~= rr.skip(mid_r.len() as int));
    assert(rr.take(mid_r.len() as int) == mid_r);
    assert(old_entries(pa) + old_entries(pb) + old_entries(pcr) + old_entries(pd) + old_entries(pe) =~= r);
}

proof fn lemma_pairing_new(r: Seq<(usize, Seq<char>)>, a: Seq<(usize, Seq<char>)>)
    ensures
        ({
            let (pa, pb, pcr, pd, pe) = pairing_pieces(r, a);
            new_entries(pa + pb + pcr + pd + pe) == a
        }),
{
    lemma_prefix(r, a, 0);
    let p = text_prefix_from(r, a, 0);
    let rr = r.skip(p as int);
    let aa = a.skip(p as int);
    lemma_suffix(rr, aa, 0);
    let s = text_suffix_from(rr, aa, 0);
    let mid_r = rr.take(rr.len() - s);
    let mid_a = aa.take(aa.len() - s);
    let pc = if mid_r.len() <= mid_a.len() { mid_r.len() } else { mid_a.len() };
    let (pa, pb, pcr, pd, pe) = pairing_pieces(r, a);
    lemma_entries_concat(pa, pb);
    lemma_entries_concat(pa + pb, pcr);
    lemma_entries_concat(pa + pb + pcr, pd);
    lemma_entries_concat(pa + pb + pcr + pd, pe);
    assert forall|i: int| 0 <= i < pa.len() implies new_entry(#[trigger] pa[i]) is Some by {}
    assert forall|i: int| 0 <= i < pb.len() implies new_entry(#[trigger] pb[i]) is Some by {}
    assert forall|i: int| 0 <= i < pcr.len() implies new_entry(#[trigger] pcr[i]) is None by {}
    assert forall|i: int| 0 <= i < pd.len() implies new_entry(#[trigger] pd[i]) is Some by {}
    assert forall|i: int| 0 <= i < pe.len() implies new_entry(#[trigger] pe[i]) is Some by {}
    lemma_new_all(pa);
    lemma_new_all(pb);
    lemma_new_none(pcr);
    lemma_new_all(pd);
    lemma_new_all(pe);
    assert forall|i: int| 0 <= i < p implies #[trigger] r[i].1 == a[i].1 by {}
    assert(new_entries(pa) =~= a.take(p as int));
    assert(new_entries(pb) =~= mid_a.take(pc as int));
    assert(new_entries(pd) =~= mid_a.skip(pc as int));
    assert forall|i: int| 0 <= i < s implies #[trigger] rr[mid_r.len() + i].1 == aa[mid_a.len() + i].1 by {
        let j = s - 1 - i;
        assert(0 <= j < s);
        assert(rr[rr.len() - 1 - j].1 == aa[aa.len() - 1 - j].1);
    }
    assert(new_entries(pe) =~= aa.skip(mid_a.len() as int));
    assert(aa.take(mid_a.len() as int) == mid_a);
    assert(new_entries(pa) + new_entries(pb) + new_entries(pcr) + new_entries(pd) + new_entries(pe) =~= a);
}

/// Pairing a group of changes leaves a group without removed or without added lines as it
/// is; otherwise the old side of the result is exactly the removed lines and the new side
/// exactly the added lines, each with its line number, in order. So a removed line and an
/// added line become one unchanged line only when their texts are equal.
pub proof fn law_combine_keeps_sides(cs: Seq<LineChangeView>)
    ensures
        removed_of(cs).len() == 0 || added_of(cs).len() == 0 ==> combine_spec(cs) == cs,
        removed_of(cs).len() > 0 && added_of(cs).len() > 0 ==> old_entries(combine_spec(cs)) == removed_of(cs)
            && new_entries(combine_spec(cs)) == added_of(cs),
{
    let r = removed_of(cs);
    let a = added_of(cs);
    if r.len() > 0 && a.len() > 0 {
        let (pa, pb, pcr, pd, pe) = pairing_pieces(r, a);
        assert(combine_spec(cs) == pa + pb + pcr + pd + pe);
        lemma_pairing_old(r, a);
        lemma_pairing_new(r, a);
    }
}

} // verus!
