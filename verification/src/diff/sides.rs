//! What a line diff says of each text: reading the changes that concern the old text gives
//! the old text's lines back, and likewise for the new text.

use vstd::prelude::*;

use crate::diff::engine::{RawLineView, RawTag, group_homogeneous, new_side, old_side};
use crate::diff::line::{
    LineChangeView, added_of, changes_of_groups, combine_spec, group_changes, raw_to_change, removed_of,
    text_prefix_from, text_suffix_from, trim_line_ending_spec, unchanged_pair, modified_spec,
};
use crate::text::lemma_flatten_push;

verus! {

/// The old text of a change: unchanged and removed lines and the old side of a modification.
pub open spec fn old_of(c: LineChangeView) -> Option<Seq<char>> {
    match c {
        LineChangeView::Unchanged { text, .. } => Some(text),
        LineChangeView::Removed { text, .. } => Some(text),
        LineChangeView::Modified { old_text, .. } => Some(old_text),
        LineChangeView::Added { .. } => None,
    }
}

/// The new text of a change: unchanged and added lines and the new side of a modification.
pub open spec fn new_of(c: LineChangeView) -> Option<Seq<char>> {
    match c {
        LineChangeView::Unchanged { text, .. } => Some(text),
        LineChangeView::Added { text, .. } => Some(text),
        LineChangeView::Modified { new_text, .. } => Some(new_text),
        LineChangeView::Removed { .. } => None,
    }
}

/// The old-text lines that a sequence of changes reads, in order.
pub open spec fn old_texts(cs: Seq<LineChangeView>) -> Seq<Seq<char>>
    decreases cs.len(),
{
    if cs.len() == 0 {
        Seq::empty()
    } else {
        match old_of(cs.last()) {
            Some(t) => old_texts(cs.drop_last()).push(t),
            None => old_texts(cs.drop_last()),
        }
    }
}

/// The new-text lines that a sequence of changes reads, in order.
pub open spec fn new_texts(cs: Seq<LineChangeView>) -> Seq<Seq<char>>
    decreases cs.len(),
{
    if cs.len() == 0 {
        Seq::empty()
    } else {
        match new_of(cs.last()) {
            Some(t) => new_texts(cs.drop_last()).push(t),
            None => new_texts(cs.drop_last()),
        }
    }
}

/// Lines without their line endings.
pub open spec fn trimmed_lines(ls: Seq<Seq<char>>) -> Seq<Seq<char>> {
    ls.map_values(|l: Seq<char>| trim_line_ending_spec(l))
}

proof fn lemma_texts_concat(x: Seq<LineChangeView>, y: Seq<LineChangeView>)
    ensures
        old_texts(x + y) == old_texts(x) + old_texts(y),
        new_texts(x + y) == new_texts(x) + new_texts(y),
    decreases y.len(),
{
    if y.len() == 0 {
        assert(x + y =~= x);
        assert(old_texts(y) =~= Seq::<Seq<char>>::empty());
        assert(new_texts(y) =~= Seq::<Seq<char>>::empty());
        assert(old_texts(x) + old_texts(y) =~= old_texts(x));
        assert(new_texts(x) + new_texts(y) =~= new_texts(x));
    } else {
        lemma_texts_concat(x, y.drop_last());
        assert((x + y).drop_last() =~= x + y.drop_last());
        assert((x + y).last() == y.last());
        match old_of(y.last()) {
            Some(t) => {
                assert(old_texts(x) + old_texts(y.drop_last()).push(t) =~= (old_texts(x) + old_texts(y.drop_last())).push(t));
            },
            None => {},
        }
        match new_of(y.last()) {
            Some(t) => {
                assert(new_texts(x) + new_texts(y.drop_last()).push(t) =~= (new_texts(x) + new_texts(y.drop_last())).push(t));
            },
            None => {},
        }
    }
}

proof fn lemma_old_all(s: Seq<LineChangeView>)
    requires
        forall|i: int| 0 <= i < s.len() ==> old_of(#[trigger] s[i]) is Some,
    ensures
        old_texts(s) =~= Seq::new(s.len(), |i: int| old_of(s[i])->0),
    decreases s.len(),
{
    if s.len() > 0 {
        lemma_old_all(s.drop_last());
        assert(old_of(s[s.len() - 1]) is Some);
    }
}

proof fn lemma_new_all(s: Seq<LineChangeView>)
    requires
        forall|i: int| 0 <= i < s.len() ==> new_of(#[trigger] s[i]) is Some,
    ensures
        new_texts(s) =~= Seq::new(s.len(), |i: int| new_of(s[i])->0),
    decreases s.len(),
{
    if s.len() > 0 {
        lemma_new_all(s.drop_last());
        assert(new_of(s[s.len() - 1]) is Some);
    }
}

proof fn lemma_old_none(s: Seq<LineChangeView>)
    requires
        forall|i: int| 0 <= i < s.len() ==> old_of(#[trigger] s[i]) is None,
    ensures
        old_texts(s) =~= Seq::<Seq<char>>::empty(),
    decreases s.len(),
{
    if s.len() > 0 {
        lemma_old_none(s.drop_last());
        assert(old_of(s[s.len() - 1]) is None);
    }
}

proof fn lemma_new_none(s: Seq<LineChangeView>)
    requires
        forall|i: int| 0 <= i < s.len() ==> new_of(#[trigger] s[i]) is None,
    ensures
        new_texts(s) =~= Seq::<Seq<char>>::empty(),
    decreases s.len(),
{
    if s.len() > 0 {
        lemma_new_none(s.drop_last());
        assert(new_of(s[s.len() - 1]) is None);
    }
}

pub(crate) proof fn lemma_prefix(r: Seq<(usize, Seq<char>)>, a: Seq<(usize, Seq<char>)>, k: nat)
    requires
        k <= r.len(),
        k <= a.len(),
    ensures
        k <= text_prefix_from(r, a, k) <= r.len(),
        text_prefix_from(r, a, k) <= a.len(),
        forall|i: int| k <= i < text_prefix_from(r, a, k) ==> #[trigger] r[i].1 == a[i].1,
    decreases r.len() - k,
{
    if k < r.len() && k < a.len() && r[k as int].1 == a[k as int].1 {
        lemma_prefix(r, a, k + 1);
    }
}

pub(crate) proof fn lemma_suffix(r: Seq<(usize, Seq<char>)>, a: Seq<(usize, Seq<char>)>, k: nat)
    requires
        k <= r.len(),
        k <= a.len(),
    ensures
        k <= text_suffix_from(r, a, k) <= r.len(),
        text_suffix_from(r, a, k) <= a.len(),
        forall|i: int| k <= i < text_suffix_from(r, a, k) ==> #[trigger] r[r.len() - 1 - i].1 == a[a.len() - 1 - i].1,
    decreases r.len() - k,
{
    if k < r.len() && k < a.len() && r[r.len() - 1 - k].1 == a[a.len() - 1 - k].1 {
        lemma_suffix(r, a, k + 1);
    }
}

/// Whether a change is a removed or an added line.
pub open spec fn one_sided(c: LineChangeView) -> bool {
    c is Removed || c is Added
}

proof fn lemma_one_sided_texts(cs: Seq<LineChangeView>)
    requires
        forall|i: int| 0 <= i < cs.len() ==> one_sided(#[trigger] cs[i]),
    ensures
        old_texts(cs) == removed_of(cs).map_values(|x: (usize, Seq<char>)| x.1),
        new_texts(cs) == added_of(cs).map_values(|x: (usize, Seq<char>)| x.1),
    decreases cs.len(),
{
    if cs.len() > 0 {
        lemma_one_sided_texts(cs.drop_last());
        assert(one_sided(cs[cs.len() - 1]));
        assert(old_texts(cs) =~= removed_of(cs).map_values(|x: (usize, Seq<char>)| x.1));
        assert(new_texts(cs) =~= added_of(cs).map_values(|x: (usize, Seq<char>)| x.1));
    }
}

proof fn lemma_raw_texts(g: Seq<RawLineView>)
    ensures
        old_texts(g.map_values(|l: RawLineView| raw_to_change(l))) == trimmed_lines(old_side(g)),
        new_texts(g.map_values(|l: RawLineView| raw_to_change(l))) == trimmed_lines(new_side(g)),
    decreases g.len(),
{
    let cs = g.map_values(|l: RawLineView| raw_to_change(l));
    if g.len() == 0 {
        assert(cs =~= Seq::<LineChangeView>::empty());
        assert(trimmed_lines(old_side(g)) =~= Seq::<Seq<char>>::empty());
        assert(trimmed_lines(new_side(g)) =~= Seq::<Seq<char>>::empty());
    } else {
        lemma_raw_texts(g.drop_last());
        assert(cs.drop_last() =~= g.drop_last().map_values(|l: RawLineView| raw_to_change(l)));
        assert(cs.last() == raw_to_change(g.last()));
        assert(old_texts(cs) =~= trimmed_lines(old_side(g)));
        assert(new_texts(cs) =~= trimmed_lines(new_side(g)));
    }
}

/// The texts of numbered lines.
pub open spec fn texts(x: Seq<(usize, Seq<char>)>) -> Seq<Seq<char>> {
    x.map_values(|e: (usize, Seq<char>)| e.1)
}

proof fn lemma_texts_split(x: Seq<(usize, Seq<char>)>, k: int)
    requires
        0 <= k <= x.len(),
    ensures
        texts(x) == texts(x.take(k)) + texts(x.skip(k)),
{
    assert(texts(x) =~= texts(x.take(k)) + texts(x.skip(k)));
}

proof fn lemma_combined_old(r: Seq<(usize, Seq<char>)>, a: Seq<(usize, Seq<char>)>)
    requires
        r.len() > 0,
        a.len() > 0,
    ensures
        ({
            let p = text_prefix_from(r, a, 0);
            let rr = r.skip(p as int);
            let aa = a.skip(p as int);
            let s = text_suffix_from(rr, aa, 0);
            let mid_r = rr.take(rr.len() - s);
            let mid_a = aa.take(aa.len() - s);
            let pc = if mid_r.len() <= mid_a.len() { mid_r.len() } else { mid_a.len() };
            old_texts(
                Seq::new(p, |i: int| unchanged_pair(r[i], a[i]))
                    + Seq::new(pc, |i: int| modified_spec(mid_r[i], mid_a[i]))
                    + Seq::new((mid_r.len() - pc) as nat, |i: int| LineChangeView::Removed {
                        old_line: mid_r[pc + i].0,
                        text: mid_r[pc + i].1,
                    })
                    + Seq::new((mid_a.len() - pc) as nat, |i: int| LineChangeView::Added {
                        new_line: mid_a[pc + i].0,
                        text: mid_a[pc + i].1,
                    })
                    + Seq::new(s, |i: int| unchanged_pair(rr[mid_r.len() + i], aa[mid_a.len() + i])),
            ) == texts(r)
        }),
{
    lemma_prefix(r, a, 0);
    let p = text_prefix_from(r, a, 0);
    let rr = r.skip(p as int);
    let aa = a.skip(p as int);
    lemma_suffix(rr, aa, 0);
    let s = text_suffix_from(rr, aa, 0);
    let mid_r = rr.take(rr.len() - s);
    let mid_a = aa.take(aa.len() - s);
    let pc = if mid_r.len() <= mid_a.len() { mid_r.len() } else { mid_a.len() };
    let pa = Seq::new(p, |i: int| unchanged_pair(r[i], a[i]));
    let pb = Seq::new(pc, |i: int| modified_spec(mid_r[i], mid_a[i]));
    let pcr = Seq::new((mid_r.len() - pc) as nat, |i: int| LineChangeView::Removed {
        old_line: mid_r[pc + i].0,
        text: mid_r[pc + i].1,
    });
    let pd = Seq::new((mid_a.len() - pc) as nat, |i: int| LineChangeView::Added {
        new_line: mid_a[pc + i].0,
        text: mid_a[pc + i].1,
    });
    let pe = Seq::new(s, |i: int| unchanged_pair(rr[mid_r.len() + i], aa[mid_a.len() + i]));
    lemma_texts_concat(pa, pb);
    lemma_texts_concat(pa + pb, pcr);
    lemma_texts_concat(pa + pb + pcr, pd);
    lemma_texts_concat(pa + pb + pcr + pd, pe);
    assert forall|i: int| 0 <= i < pa.len() implies old_of(#[trigger] pa[i]) is Some by {}
    assert forall|i: int| 0 <= i < pb.len() implies old_of(#[trigger] pb[i]) is Some by {}
    assert forall|i: int| 0 <= i < pcr.len() implies old_of(#[trigger] pcr[i]) is Some by {}
    assert forall|i: int| 0 <= i < pd.len() implies old_of(#[trigger] pd[i]) is None by {}
    assert forall|i: int| 0 <= i < pe.len() implies old_of(#[trigger] pe[i]) is Some by {}
    lemma_old_all(pa);
    lemma_old_all(pb);
    lemma_old_all(pcr);
    lemma_old_none(pd);
    lemma_old_all(pe);
    assert(old_texts(pa) =~= texts(r.take(p as int)));
    assert(old_texts(pb) =~= texts(mid_r.take(pc as int)));
    assert(old_texts(pcr) =~= texts(mid_r.skip(pc as int)));
    assert(old_texts(pe) =~= texts(rr.skip(mid_r.len() as int)));
    lemma_texts_split(r, p as int);
    lemma_texts_split(rr, mid_r.len() as int);
    lemma_texts_split(mid_r, pc as int);
    assert(rr.take(mid_r.len() as int) == mid_r);
    assert(r.skip(p as int) == rr);
    assert(old_texts(pa) + old_texts(pb) + old_texts(pcr) + old_texts(pd) + old_texts(pe) =~= texts(r));
}

proof fn lemma_combined_new(r: Seq<(usize, Seq<char>)>, a: Seq<(usize, Seq<char>)>)
    requires
        r.len() > 0,
        a.len() > 0,
    ensures
        ({
            let p = text_prefix_from(r, a, 0);
            let rr = r.skip(p as int);
            let aa = a.skip(p as int);
            let s = text_suffix_from(rr, aa, 0);
            let mid_r = rr.take(rr.len() - s);
            let mid_a = aa.take(aa.len() - s);
            let pc = if mid_r.len() <= mid_a.len() { mid_r.len() } else { mid_a.len() };
            new_texts(
                Seq::new(p, |i: int| unchanged_pair(r[i], a[i]))
                    + Seq::new(pc, |i: int| modified_spec(mid_r[i], mid_a[i]))
                    + Seq::new((mid_r.len() - pc) as nat, |i: int| LineChangeView::Removed {
                        old_line: mid_r[pc + i].0,
                        text: mid_r[pc + i].1,
                    })
                    + Seq::new((mid_a.len() - pc) as nat, |i: int| LineChangeView::Added {
                        new_line: mid_a[pc + i].0,
                        text: mid_a[pc + i].1,
                    })
                    + Seq::new(s, |i: int| unchanged_pair(rr[mid_r.len() + i], aa[mid_a.len() + i])),
            ) == texts(a)
        }),
{
    lemma_prefix(r, a, 0);
    let p = text_prefix_from(r, a, 0);
    let rr = r.skip(p as int);
    let aa = a.skip(p as int);
    lemma_suffix(rr, aa, 0);
    let s = text_suffix_from(rr, aa, 0);
    let mid_r = rr.take(rr.len() - s);
    let mid_a = aa.take(aa.len() - s);
    let pc = if mid_r.len() <= mid_a.len() { mid_r.len() } else { mid_a.len() };
    let pa = Seq::new(p, |i: int| unchanged_pair(r[i], a[i]));
    let pb = Seq::new(pc, |i: int| modified_spec(mid_r[i], mid_a[i]));
    let pcr = Seq::new((mid_r.len() - pc) as nat, |i: int| LineChangeView::Removed {
        old_line: mid_r[pc + i].0,
        text: mid_r[pc + i].1,
    });
    let pd = Seq::new((mid_a.len() - pc) as nat, |i: int| LineChangeView::Added {
        new_line: mid_a[pc + i].0,
        text: mid_a[pc + i].1,
    });
    let pe = Seq::new(s, |i: int| unchanged_pair(rr[mid_r.len() + i], aa[mid_a.len() + i]));
    lemma_texts_concat(pa, pb);
    lemma_texts_concat(pa + pb, pcr);
    lemma_texts_concat(pa + pb + pcr, pd);
    lemma_texts_concat(pa + pb + pcr + pd, pe);
    assert forall|i: int| 0 <= i < pa.len() implies new_of(#[trigger] pa[i]) is Some by {}
    assert forall|i: int| 0 <= i < pb.len() implies new_of(#[trigger] pb[i]) is Some by {}
    assert forall|i: int| 0 <= i < pcr.len() implies new_of(#[trigger] pcr[i]) is None by {}
    assert forall|i: int| 0 <= i < pd.len() implies new_of(#[trigger] pd[i]) is Some by {}
    assert forall|i: int| 0 <= i < pe.len() implies new_of(#[trigger] pe[i]) is Some by {}
    lemma_new_all(pa);
    lemma_new_all(pb);
    lemma_new_none(pcr);
    lemma_new_all(pd);
    lemma_new_all(pe);
    assert(new_texts(pa) =~= texts(a.take(p as int)));
    assert(new_texts(pb) =~= texts(mid_a.take(pc as int)));
    assert(new_texts(pd) =~= texts(mid_a.skip(pc as int)));
    assert forall|i: int| 0 <= i < s implies #[trigger] rr[mid_r.len() + i].1 == aa[mid_a.len() + i].1 by {
        let j = s - 1 - i;
        assert(0 <= j < s);
        assert(rr[rr.len() - 1 - j].1 == aa[aa.len() - 1 - j].1);
    }
    assert(new_texts(pe) =~= texts(aa.skip(mid_a.len() as int)));
    lemma_texts_split(a, p as int);
    lemma_texts_split(aa, mid_a.len() as int);
    lemma_texts_split(mid_a, pc as int);
    assert(aa.take(mid_a.len() as int) == mid_a);
    assert(a.skip(p as int) == aa);
    assert(new_texts(pa) + new_texts(pb) + new_texts(pcr) + new_texts(pd) + new_texts(pe) =~= texts(a));
}

proof fn lemma_combine_one_sided(cs: Seq<LineChangeView>)
    requires
        forall|i: int| 0 <= i < cs.len() ==> one_sided(#[trigger] cs[i]),
    ensures
        old_texts(combine_spec(cs)) == old_texts(cs),
        new_texts(combine_spec(cs)) == new_texts(cs),
{
    let r = removed_of(cs);
    let a = added_of(cs);
    lemma_one_sided_texts(cs);
    assert(texts(r) == r.map_values(|x: (usize, Seq<char>)| x.1));
    assert(texts(a) == a.map_values(|x: (usize, Seq<char>)| x.1));
    if r.len() > 0 && a.len() > 0 {
        lemma_combined_old(r, a);
        lemma_combined_new(r, a);
    }
}

proof fn lemma_group_texts(g: Seq<RawLineView>)
    requires
        group_homogeneous(g),
    ensures
        old_texts(group_changes(g)) == trimmed_lines(old_side(g)),
        new_texts(group_changes(g)) == trimmed_lines(new_side(g)),
{
    let cs = g.map_values(|l: RawLineView| raw_to_change(l));
    lemma_raw_texts(g);
    if forall|j: int| 0 <= j < g.len() ==> #[trigger] g[j].tag == RawTag::Equal {
        if g.len() > 0 {
            lemma_removed_empty(cs);
        }
        assert(combine_spec(cs) == cs) by {
            if g.len() > 0 {
                assert(removed_of(cs).len() == 0);
            } else {
                assert(cs.len() == 0);
                assert(removed_of(cs) =~= Seq::<(usize, Seq<char>)>::empty());
            }
        }
    } else {
        assert forall|i: int| 0 <= i < cs.len() implies one_sided(#[trigger] cs[i]) by {
            assert(g[i].tag != RawTag::Equal);
        }
        lemma_combine_one_sided(cs);
    }
}

proof fn lemma_removed_empty(cs: Seq<LineChangeView>)
    requires
        forall|i: int| 0 <= i < cs.len() ==> (#[trigger] cs[i]) is Unchanged,
    ensures
        removed_of(cs).len() == 0,
    decreases cs.len(),
{
    if cs.len() > 0 {
        lemma_removed_empty(cs.drop_last());
        assert(cs[cs.len() - 1] is Unchanged);
    }
}

proof fn lemma_sides_concat(x: Seq<RawLineView>, y: Seq<RawLineView>)
    ensures
        old_side(x + y) == old_side(x) + old_side(y),
        new_side(x + y) == new_side(x) + new_side(y),
    decreases y.len(),
{
    if y.len() == 0 {
        assert(x + y =~= x);
        assert(old_side(x) + old_side(y) =~= old_side(x));
        assert(new_side(x) + new_side(y) =~= new_side(x));
    } else {
        lemma_sides_concat(x, y.drop_last());
        assert((x + y).drop_last() =~= x + y.drop_last());
        assert((x + y).last() == y.last());
        assert(old_side(x + y) =~= old_side(x) + old_side(y));
        assert(new_side(x + y) =~= new_side(x) + new_side(y));
    }
}

/// The changes of a sequence of homogeneous groups read, on each side, the lines of that
/// side of the groups, without their line endings.
pub proof fn lemma_groups_texts(groups: Seq<Seq<RawLineView>>)
    requires
        forall|i: int| 0 <= i < groups.len() ==> group_homogeneous(#[trigger] groups[i]),
    ensures
        old_texts(changes_of_groups(groups)) == trimmed_lines(old_side(groups.flatten())),
        new_texts(changes_of_groups(groups)) == trimmed_lines(new_side(groups.flatten())),
    decreases groups.len(),
{
    if groups.len() == 0 {
        assert(groups.map_values(|g: Seq<RawLineView>| group_changes(g)) =~= Seq::<Seq<LineChangeView>>::empty());
        assert(changes_of_groups(groups) =~= Seq::<LineChangeView>::empty());
        assert(groups.flatten() =~= Seq::<RawLineView>::empty());
        assert(trimmed_lines(old_side(groups.flatten())) =~= Seq::<Seq<char>>::empty());
        assert(trimmed_lines(new_side(groups.flatten())) =~= Seq::<Seq<char>>::empty());
    } else {
        let init = groups.drop_last();
        let g = groups.last();
        lemma_groups_texts(init);
        lemma_group_texts(g);
        assert(groups == init.push(g));
        lemma_flatten_push(init, g);
        let gm = init.map_values(|x: Seq<RawLineView>| group_changes(x));
        assert(groups.map_values(|x: Seq<RawLineView>| group_changes(x)) =~= gm.push(group_changes(g)));
        lemma_flatten_push(gm, group_changes(g));
        assert(changes_of_groups(groups) == changes_of_groups(init) + group_changes(g));
        lemma_texts_concat(changes_of_groups(init), group_changes(g));
        lemma_sides_concat(init.flatten(), g);
        assert(trimmed_lines(old_side(init.flatten()) + old_side(g)) =~= trimmed_lines(old_side(init.flatten()))
            + trimmed_lines(old_side(g)));
        assert(trimmed_lines(new_side(init.flatten()) + new_side(g)) =~= trimmed_lines(new_side(init.flatten()))
            + trimmed_lines(new_side(g)));
    }
}

} // verus!
