//! Diff output formatting.

use vstd::prelude::*;

use crate::diff::binary::BinaryDiff;
use crate::diff::line::{LineChange, LineChangeView, changes_view, preview_line_spec};
use crate::diff::preview::{lemma_strings_view_push, strings_view};
use crate::text::{decimal, owned, push_decimal, push_str};

verus! {

/// `true` or `false`, as Rust prints a boolean.
pub open spec fn bool_text(b: bool) -> Seq<char> {
    if b {
        "true"@
    } else {
        "false"@
    }
}

/// Formats line changes as unified-style preview lines.
pub fn format_lines(changes: &[LineChange]) -> (lines: Vec<String>)
    ensures
        strings_view(lines@) == changes_view(changes@).map_values(|c: LineChangeView| preview_line_spec(c)),
{
    let mut lines: Vec<String> = Vec::new();
    let mut i: usize = 0;
    while i < changes.len()
        invariant
            i <= changes.len(),
            strings_view(lines@) == changes_view(changes@).take(i as int).map_values(|c: LineChangeView| preview_line_spec(c)),
        decreases changes.len() - i,
    {
        let row = changes[i].to_preview_line();
        let ghost prev = lines@;
        lines.push(row);
        proof {
            lemma_strings_view_push(prev, row);
            assert(changes_view(changes@)[i as int] == changes@[i as int]@);
            assert(changes_view(changes@).take(i + 1) =~= changes_view(changes@).take(i as int).push(changes@[i as int]@));
        }
        i = i + 1;
        assert(strings_view(lines@) =~= changes_view(changes@).take(i as int).map_values(|c: LineChangeView| preview_line_spec(c)));
    }
    assert(changes_view(changes@).take(changes.len() as int) =~= changes_view(changes@));
    lines
}

/// Formats binary diff metadata for the UI.
pub fn format_binary(diff: &BinaryDiff) -> (lines: Vec<String>)
    ensures
        strings_view(lines@) == seq![
            "binary modified"@,
            "size: "@ + decimal(diff.before.size as nat) + " -> "@ + decimal(diff.after.size as nat),
            "hash changed: "@ + bool_text(diff.hash_changed),
        ],
{
    let mut size = owned("size: ");
    push_decimal(&mut size, diff.before.size);
    push_str(&mut size, " -> ");
    push_decimal(&mut size, diff.after.size);
    let mut hash = owned("hash changed: ");
    if diff.hash_changed {
        push_str(&mut hash, "true");
    } else {
        push_str(&mut hash, "false");
    }
    let mut lines: Vec<String> = Vec::new();
    lines.push(owned("binary modified"));
    lines.push(size);
    lines.push(hash);
    assert(strings_view(lines@) =~= seq![
        "binary modified"@,
        "size: "@ + decimal(diff.before.size as nat) + " -> "@ + decimal(diff.after.size as nat),
        "hash changed: "@ + bool_text(diff.hash_changed),
    ]);
    lines
}

} // verus!
