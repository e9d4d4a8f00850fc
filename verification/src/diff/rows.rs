//! Preview rows are single lines: the texts a diff compares hold no line break, and each
//! change gives whole rows.

use vstd::prelude::*;

use crate::diff::engine::{diff_lines_of, lemma_line_end_bounds, line_end_from};
use crate::diff::line::{LineChangeView, marked, preview_lines_spec, trim_line_ending_spec};
use crate::diff::preview::{more_changes_line, preview_rows, preview_spec};
use crate::diff::sides::{new_of, new_texts, old_of, old_texts, trimmed_lines};
use crate::diff::textdiff::changed_only;
use crate::text::{decimal, digit_char, lemma_flatten_push};

verus! {

/// Whether a character breaks a line.
pub open spec fn is_break(c: char) -> bool {
    c == '\n' || c == '\r'
}

/// Whether a text holds no line break.
pub open spec fn no_break(t: Seq<char>) -> bool {
    forall|k: int| 0 <= k < t.len() ==> !is_break(#[trigger] t[k])
}

/// Whether no text of a sequence holds a line break.
pub open spec fn all_no_break(ts: Seq<Seq<char>>) -> bool {
    forall|k: int| 0 <= k < ts.len() ==> no_break(#[trigger] ts[k])
}

/// Whether the texts a change shows hold no line break.
pub open spec fn change_no_break(c: LineChangeView) -> bool {
    &&& (old_of(c) matches Some(t) ==> no_break(t))
    &&& (new_of(c) matches Some(t) ==> no_break(t))
}

/// Whether the texts of every change hold no line break.
pub open spec fn texts_no_break(cs: Seq<LineChangeView>) -> bool {
    forall|k: int| 0 <= k < cs.len() ==> change_no_break(#[trigger] cs[k])
}

/// Whether the line breaks of a text all stand in its trailing run of breaks.
spec fn breaks_trail(t: Seq<char>) -> bool {
    forall|k: int, m: int| 0 <= k <= m < t.len() && is_break(#[trigger] t[k]) ==> is_break(#[trigger] t[m])
}

proof fn lemma_trim_no_break(t: Seq<char>)
    requires
        breaks_trail(t),
    ensures
        no_break(trim_line_ending_spec(t)),
    decreases t.len(),
{
    if t.len() > 0 && is_break(t.last()) {
        assert(breaks_trail(t.drop_last())) by {
            assert forall|k: int, m: int| 0 <= k <= m < t.drop_last().len() && is_break(#[trigger] t.drop_last()[k]) implies is_break(
                #[trigger] t.drop_last()[m],
            ) by {
                assert(t.drop_last()[k] == t[k] && t.drop_last()[m] == t[m]);
            }
        }
        lemma_trim_no_break(t.drop_last());
    } else if t.len() > 0 {
        assert forall|k: int| 0 <= k < t.len() implies !is_break(#[trigger] t[k]) by {
            if is_break(t[k]) {
                assert(is_break(t[t.len() - 1]));
            }
        }
    }
}

proof fn lemma_line_breaks_trail(s: Seq<char>, i: nat)
    requires
        i < s.len(),
    ensures
        breaks_trail(s.subrange(i as int, line_end_from(s, i) as int)),
    decreases s.len() - i,
{
    lemma_line_end_bounds(s, i);
    let e = line_end_from(s, i);
    let t = s.subrange(i as int, e as int);
    if is_break(s[i as int]) {
        assert forall|k: int, m: int| 0 <= k <= m < t.len() && is_break(#[trigger] t[k]) implies is_break(#[trigger] t[m]) by {
            assert(t[m] == s[i + m]);
            if m > 0 {
                assert(s[i as int] == '\r' && i + 1 < s.len() && s[i + 1 as int] == '\n');
            }
        }
    } else if i + 1 < s.len() {
        lemma_line_breaks_trail(s, i + 1);
        let r = s.subrange(i + 1 as int, e as int);
        assert forall|k: int, m: int| 0 <= k <= m < t.len() && is_break(#[trigger] t[k]) implies is_break(#[trigger] t[m]) by {
            assert(t[k] == s[i + k]);
            assert(t[m] == s[i + m]);
            if k > 0 {
                assert(r[k - 1] == s[i + k]);
                assert(r[m - 1] == s[i + m]);
            }
        }
    } else {
        assert(e == s.len());
        assert forall|k: int, m: int| 0 <= k <= m < t.len() && is_break(#[trigger] t[k]) implies is_break(#[trigger] t[m]) by {
            assert(t[k] == s[i + k]);
        }
    }
}

/// The lines the diff compares, without their endings, hold no line break.
pub proof fn lemma_trimmed_lines_no_break(s: Seq<char>)
    ensures
        all_no_break(trimmed_lines(diff_lines_of(s))),
    decreases s.len(),
{
    if s.len() > 0 {
        lemma_line_end_bounds(s, 0);
        let e = line_end_from(s, 0);
        lemma_line_breaks_trail(s, 0);
        assert(s.subrange(0, e as int) == s.take(e as int));
        lemma_trim_no_break(s.take(e as int));
        lemma_trimmed_lines_no_break(s.skip(e as int));
        let rest = diff_lines_of(s.skip(e as int));
        assert(diff_lines_of(s) == seq![s.take(e as int)] + rest);
        assert forall|k: int| 0 <= k < trimmed_lines(diff_lines_of(s)).len() implies no_break(
            #[trigger] trimmed_lines(diff_lines_of(s))[k],
        ) by {
            if k > 0 {
                assert(trimmed_lines(diff_lines_of(s))[k] == trimmed_lines(rest)[k - 1]);
            }
        }
    }
}

/// Changes whose old and new texts hold no line break show texts without one.
pub proof fn lemma_texts_no_break(cs: Seq<LineChangeView>)
    requires
        all_no_break(old_texts(cs)),
        all_no_break(new_texts(cs)),
    ensures
        texts_no_break(cs),
    decreases cs.len(),
{
    if cs.len() > 0 {
        let rest = cs.drop_last();
        let c = cs.last();
        assert(all_no_break(old_texts(rest))) by {
            assert forall|k: int| 0 <= k < old_texts(rest).len() implies no_break(#[trigger] old_texts(rest)[k]) by {
                assert(old_texts(cs)[k] == old_texts(rest)[k]);
            }
        }
        assert(all_no_break(new_texts(rest))) by {
            assert forall|k: int| 0 <= k < new_texts(rest).len() implies no_break(#[trigger] new_texts(rest)[k]) by {
                assert(new_texts(cs)[k] == new_texts(rest)[k]);
            }
        }
        lemma_texts_no_break(rest);
        assert(change_no_break(c)) by {
            if let Some(t) = old_of(c) {
                assert(old_texts(cs)[old_texts(cs).len() - 1] == t);
            }
            if let Some(t) = new_of(c) {
                assert(new_texts(cs)[new_texts(cs).len() - 1] == t);
            }
        }
        assert forall|k: int| 0 <= k < cs.len() implies change_no_break(#[trigger] cs[k]) by {
            if k < cs.len() - 1 {
                assert(cs[k] == rest[k]);
            }
        }
    }
}

/// Keeping the changed lines keeps texts without line breaks.
pub proof fn lemma_changed_only_no_break(cs: Seq<LineChangeView>)
    requires
        texts_no_break(cs),
    ensures
        texts_no_break(changed_only(cs)),
    decreases cs.len(),
{
    if cs.len() > 0 {
        let rest = cs.drop_last();
        assert(texts_no_break(rest)) by {
            assert forall|k: int| 0 <= k < rest.len() implies change_no_break(#[trigger] rest[k]) by {
                assert(rest[k] == cs[k]);
            }
        }
        lemma_changed_only_no_break(rest);
        assert(change_no_break(cs[cs.len() - 1]));
    }
}

proof fn lemma_marked_no_break(c1: char, t: Seq<char>)
    requires
        !is_break(c1),
        no_break(t),
    ensures
        no_break(marked(c1, ' ', t)),
{
    let m = marked(c1, ' ', t);
    assert forall|k: int| 0 <= k < m.len() implies !is_break(#[trigger] m[k]) by {
        if k >= 2 {
            assert(m[k] == t[k - 2]);
        }
    }
}

proof fn lemma_rows_no_break(cs: Seq<LineChangeView>)
    requires
        texts_no_break(cs),
    ensures
        all_no_break(preview_rows(cs)),
    decreases cs.len(),
{
    if cs.len() > 0 {
        let rest = cs.drop_last();
        let c = cs.last();
        assert(texts_no_break(rest)) by {
            assert forall|k: int| 0 <= k < rest.len() implies change_no_break(#[trigger] rest[k]) by {
                assert(rest[k] == cs[k]);
            }
        }
        lemma_rows_no_break(rest);
        assert(change_no_break(cs[cs.len() - 1]));
        let m = rest.map_values(|x: LineChangeView| preview_lines_spec(x));
        assert(cs.map_values(|x: LineChangeView| preview_lines_spec(x)) =~= m.push(preview_lines_spec(c)));
        lemma_flatten_push(m, preview_lines_spec(c));
        let own = preview_lines_spec(c);
        assert(all_no_break(own)) by {
            match c {
                LineChangeView::Unchanged { text, .. } => lemma_marked_no_break(' ', text),
                LineChangeView::Added { text, .. } => lemma_marked_no_break('+', text),
                LineChangeView::Removed { text, .. } => lemma_marked_no_break('-', text),
                LineChangeView::Modified { old_text, new_text, .. } => {
                    lemma_marked_no_break('-', old_text);
                    lemma_marked_no_break('+', new_text);
                },
            }
        }
        let before = preview_rows(rest);
        assert forall|k: int| 0 <= k < preview_rows(cs).len() implies no_break(#[trigger] preview_rows(cs)[k]) by {
            if k < before.len() {
                assert(preview_rows(cs)[k] == before[k]);
            } else {
                assert(preview_rows(cs)[k] == own[k - before.len()]);
            }
        }
    }
}

proof fn lemma_decimal_no_break(n: nat)
    ensures
        no_break(decimal(n)),
    decreases n,
{
    if n >= 10 {
        lemma_decimal_no_break(n / 10);
        let d = decimal(n);
        assert(d == decimal(n / 10).push(digit_char(n % 10)));
        assert forall|k: int| 0 <= k < d.len() implies !is_break(#[trigger] d[k]) by {
            if k < d.len() - 1 {
                assert(d[k] == decimal(n / 10)[k]);
            }
        }
    }
}

/// A preview of rows without line breaks holds none, its closing count included.
pub proof fn lemma_preview_no_break(rows: Seq<Seq<char>>, max: nat)
    requires
        all_no_break(rows),
    ensures
        all_no_break(preview_spec(rows, max).lines),
{
    if rows.len() > max {
        let n = (rows.len() - max) as nat;
        let line = more_changes_line(n);
        lemma_decimal_no_break(n);
        reveal_strlit("... ");
        reveal_strlit(" more changes");
        assert(no_break(line)) by {
            let head = "... "@;
            let tail = " more changes"@;
            assert(line == head + decimal(n) + tail);
            assert forall|k: int| 0 <= k < line.len() implies !is_break(#[trigger] line[k]) by {
                if k < head.len() {
                    assert(line[k] == head[k]);
                } else if k < head.len() + decimal(n).len() {
                    assert(line[k] == decimal(n)[k - head.len()]);
                } else {
                    assert(line[k] == tail[k - head.len() - decimal(n).len()]);
                }
            }
        }
        let lines = rows.take(max as int).push(line);
        assert forall|k: int| 0 <= k < lines.len() implies no_break(#[trigger] lines[k]) by {
            if k < max {
                assert(lines[k] == rows[k]);
            }
        }
    }
}

/// A preview built from changes whose texts hold no line break consists of single lines:
/// each change gives whole rows (a modification two), and so does the count of rows left
/// out.
pub proof fn law_preview_rows_single_line(cs: Seq<LineChangeView>, max: nat)
    requires
        texts_no_break(cs),
    ensures
        all_no_break(preview_spec(preview_rows(cs), max).lines),
{
    lemma_rows_no_break(cs);
    lemma_preview_no_break(preview_rows(cs), max);
}

/// The preview of a text diff consists of single lines.
pub proof fn lemma_text_preview_no_break(cs: Seq<LineChangeView>, before: Seq<char>, after: Seq<char>, max: nat)
    requires
        old_texts(cs) == trimmed_lines(diff_lines_of(before)),
        new_texts(cs) == trimmed_lines(diff_lines_of(after)),
    ensures
        all_no_break(preview_spec(preview_rows(changed_only(cs)), max).lines),
{
    lemma_trimmed_lines_no_break(before);
    lemma_trimmed_lines_no_break(after);
    lemma_texts_no_break(cs);
    lemma_changed_only_no_break(cs);
    law_preview_rows_single_line(changed_only(cs), max);
}

} // verus!
