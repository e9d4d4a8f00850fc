//! Text diff entry points and text detection.

use vstd::prelude::*;

use crate::diff::line::{LineChange, LineChangeView, changes_view, diff_lines, diff_lines_spec, lemma_changes_view_push};
use crate::diff::preview::{DiffPreview, DiffPreviewView, preview_rows, preview_spec};
use crate::paths::{extension_chars, extension_spec};
use crate::diff::engine::diff_lines_of;
use crate::diff::sides::{new_texts, old_texts, trimmed_lines};
use crate::diff::rows::{all_no_break, lemma_text_preview_no_break};
use crate::text::chars_eq_str;

verus! {

/// Text diff output.
#[derive(Clone, Debug, PartialEq, Eq)]
pub struct TextDiff {
    /// Line changes.
    pub changes: Vec<LineChange>,
    /// Preview suitable for UI rendering.
    pub preview: DiffPreview,
}

/// The changes of a sequence that differ from the old file, in order.
pub open spec fn changed_only(cs: Seq<LineChangeView>) -> Seq<LineChangeView>
    decreases cs.len(),
{
    if cs.len() == 0 {
        Seq::empty()
    } else {
        let rest = changed_only(cs.drop_last());
        if cs.last() is Unchanged {
            rest
        } else {
            rest.push(cs.last())
        }
    }
}

/// The extensions of files that are diffed as text.
pub open spec fn is_text_extension_spec(e: Seq<char>) -> bool {
    ||| e == "rs"@
    ||| e == "go"@
    ||| e == "js"@
    ||| e == "jsx"@
    ||| e == "ts"@
    ||| e == "tsx"@
    ||| e == "py"@
    ||| e == "json"@
    ||| e == "yaml"@
    ||| e == "yml"@
    ||| e == "toml"@
    ||| e == "md"@
    ||| e == "txt"@
    ||| e == "css"@
    ||| e == "html"@
    ||| e == "xml"@
    ||| e == "sh"@
    ||| e == "ps1"@
}

/// Whether a path names a text file: its extension is one of the text extensions.
pub open spec fn is_text_path_spec(path: Seq<char>) -> bool {
    extension_spec(path) matches Some(e) && is_text_extension_spec(e)
}

fn is_text_extension(e: &Vec<char>) -> (b: bool)
    ensures
        b == is_text_extension_spec(e@),
{
    chars_eq_str(e, "rs") || chars_eq_str(e, "go") || chars_eq_str(e, "js") || chars_eq_str(
        e,
        "jsx",
    ) || chars_eq_str(e, "ts") || chars_eq_str(e, "tsx") || chars_eq_str(e, "py")
        || chars_eq_str(e, "json") || chars_eq_str(e, "yaml") || chars_eq_str(e, "yml")
        || chars_eq_str(e, "toml") || chars_eq_str(e, "md") || chars_eq_str(e, "txt")
        || chars_eq_str(e, "css") || chars_eq_str(e, "html") || chars_eq_str(e, "xml")
        || chars_eq_str(e, "sh") || chars_eq_str(e, "ps1")
}

/// Returns whether a path is likely to be a text file.
pub fn is_text_path(path: &str) -> (b: bool)
    ensures
        b == is_text_path_spec(path@),
{
    match extension_chars(path) {
        Some(e) => is_text_extension(&e),
        None => false,
    }
}

/// The text diff of two documents: all line changes, and a preview of the changed ones.
pub open spec fn diff_text_preview(before: Seq<char>, after: Seq<char>, max: nat) -> DiffPreviewView {
    preview_spec(preview_rows(changed_only(diff_lines_spec(before, after))), max)
}

/// Computes a text diff with a preview limit.
pub fn diff_text(before: &str, after: &str, max_preview_lines: usize) -> (d: TextDiff)
    ensures
        changes_view(d.changes@) == diff_lines_spec(before@, after@),
        d.preview@ == diff_text_preview(before@, after@, max_preview_lines as nat),
        old_texts(changes_view(d.changes@)) == trimmed_lines(diff_lines_of(before@)),
        new_texts(changes_view(d.changes@)) == trimmed_lines(diff_lines_of(after@)),
        all_no_break(d.preview@.lines),
{
    let changes = diff_lines(before, after);
    let mut changed_lines: Vec<LineChange> = Vec::new();
    let mut i: usize = 0;
    while i < changes.len()
        invariant
            i <= changes.len(),
            changes_view(changed_lines@) == changed_only(changes_view(changes@).take(i as int)),
        decreases changes.len() - i,
    {
        let ghost cv = changes_view(changes@);
        assert(cv.take(i + 1).drop_last() == cv.take(i as int));
        if changes[i].is_changed() {
            let ghost prev = changed_lines@;
            let c = changes[i].duplicate();
            changed_lines.push(c);
            proof {
                lemma_changes_view_push(prev, c);
            }
        }
        i = i + 1;
    }
    assert(changes_view(changes@).take(changes.len() as int) == changes_view(changes@));
    let preview = DiffPreview::from_changes(changed_lines.as_slice(), max_preview_lines);
    proof {
        lemma_text_preview_no_break(changes_view(changes@), before@, after@, max_preview_lines as nat);
    }
    TextDiff { changes, preview }
}

} // verus!
