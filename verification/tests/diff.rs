use rumon::diff::binary::diff_binary;
use rumon::diff::column::{ColumnChange, InlineDiff, inline_diff};
use rumon::diff::formatter::{format_binary, format_lines};
use rumon::diff::engine::{RawLine, RawTag};
use rumon::diff::line::{LineChange, changes_from_groups, combine_modifications, diff_lines};
use rumon::diff::preview::DiffPreview;
use rumon::diff::textdiff::{diff_text, is_text_path};

#[test]
fn detects_binary_hash_change() {
    let diff = diff_binary(b"abc", b"abd");

    assert!(!diff.size_changed);
    assert!(diff.hash_changed);
}

#[test]
fn detects_changed_columns() {
    let diff = inline_diff("let port = 3000;", "let port = 8080;");

    assert_eq!(diff.removed, "300");
    assert_eq!(diff.added, "808");
    assert_eq!(diff.columns, Some(ColumnChange { start: 12, end: 14 }));
}

#[test]
fn detects_added_removed_and_modified_lines() {
    let changes = diff_lines("a\nold\nz", "a\nnew\nz\nextra");

    assert!(matches!(changes[0], LineChange::Unchanged { .. }));
    assert!(matches!(changes[1], LineChange::Modified { columns: Some(ColumnChange { .. }), .. }));
    assert!(matches!(changes[3], LineChange::Added { .. }));
}

#[test]
fn modified_preview_lines_are_split() {
    let change = LineChange::Modified {
        old_line: 1,
        new_line: 1,
        old_text: "}".to_string(),
        new_text: "} else {".to_string(),
        columns: None,
        inline: InlineDiff { columns: None, removed: String::new(), added: String::new() },
    };

    assert_eq!(change.to_preview_lines(), vec!["- }".to_string(), "+ } else {".to_string()]);
}

#[test]
fn empty_preview_has_no_lines() {
    assert!(DiffPreview::empty().lines.is_empty());
}

#[test]
fn modified_changes_do_not_embed_newlines() {
    let preview = DiffPreview::from_changes(
        &[LineChange::Modified {
            old_line: 1,
            new_line: 1,
            old_text: "}".to_string(),
            new_text: "} else {".to_string(),
            columns: None,
            inline: InlineDiff { columns: None, removed: String::new(), added: String::new() },
        }],
        4,
    );

    assert_eq!(preview.lines, vec!["- }", "+ } else {"]);
    assert!(!preview.lines.iter().any(|line| line.contains('\n')));
}

#[test]
fn detects_text_extensions() {
    assert!(is_text_path("src/main.rs"));
    assert!(!is_text_path("image.png"));
}

#[test]
fn text_diff_respects_preview_limit() {
    let diff = diff_text("a\nb\nc", "x\ny\nz", 1);

    assert!(diff.preview.truncated);
    assert_eq!(diff.preview.lines.len(), 2);
}

#[test]
fn if_else_insert_preview_has_clean_rows() {
    let before = r#"fn main() {
  let a = 2;
  let b = 1;
  if a > b {
    println!("a is greater than b");
  }
}"#;
    let after = r#"fn main() {
  let a = 2;
  let b = 1;
  if a > b {
    println!("a is greater than b");
  } else {
    println!("a is not greater than b");
  }
}"#;

    let diff = diff_text(before, after, 8);

    assert!(!diff.preview.lines.iter().any(|line| line.contains('\n')));
    assert!(diff.preview.lines.iter().any(|line| line == "+   } else {"));
    assert!(diff.preview.lines.iter().any(|line| line.contains("a is not greater than b")));
}

#[test]
fn combining_pairs_removals_with_additions() {
    let changes = vec![
        LineChange::Removed { old_line: 2, text: "old".to_string() },
        LineChange::Added { new_line: 2, text: "new".to_string() },
    ];
    let combined = combine_modifications(&changes);
    assert_eq!(combined.len(), 1);
    assert!(matches!(&combined[0], LineChange::Modified { old_line: 2, new_line: 2, .. }));
}

#[test]
fn formatter_shows_binary_fields() {
    let lines = format_binary(&diff_binary(b"ab", b"abc"));
    assert_eq!(lines, vec!["binary modified", "size: 2 -> 3", "hash changed: true"]);
    let rows = format_lines(&diff_lines("a", "b"));
    assert!(!rows.is_empty());
}

#[test]
fn identical_texts_have_no_changed_rows() {
    let diff = diff_text("same\n", "same\n", 4);
    assert!(diff.preview.lines.is_empty());
    assert!(!diff.preview.truncated);
}

#[test]
fn text_preview_rows_are_single_lines() {
    let diff = diff_text("fn a() {\r\n}\rlast", "fn a() {\n  body();\n}\n", 3);
    assert!(!diff.preview.lines.is_empty());
    assert!(diff.preview.lines.iter().all(|line| !line.contains('\n') && !line.contains('\r')));
}

#[test]
fn changes_from_groups_pairs_each_group() {
    let raw = |tag, old: Option<usize>, new: Option<usize>, value: &str| RawLine {
        tag,
        old_index: old,
        new_index: new,
        value: value.to_string(),
    };
    let groups = vec![
        vec![raw(RawTag::Equal, Some(0), Some(0), "fn a() {\n")],
        vec![raw(RawTag::Delete, Some(1), None, "}\n"), raw(RawTag::Insert, None, Some(1), "} else {\r\n")],
    ];
    let changes = changes_from_groups(&groups);
    assert_eq!(changes.len(), 2);
    assert_eq!(changes[0], LineChange::Unchanged { old_line: 1, new_line: 1, text: "fn a() {".to_string() });
    match &changes[1] {
        LineChange::Modified { old_line, new_line, old_text, new_text, .. } => {
            assert_eq!((*old_line, *new_line), (2, 2));
            assert_eq!(old_text, "}");
            assert_eq!(new_text, "} else {");
        }
        other => panic!("expected a modification, got {other:?}"),
    }
}

#[test]
fn pairing_keeps_both_sides_in_order() {
    let removed = |n: usize, t: &str| LineChange::Removed { old_line: n, text: t.to_string() };
    let added = |n: usize, t: &str| LineChange::Added { new_line: n, text: t.to_string() };
    let out = combine_modifications(&[removed(3, "same"), removed(4, "old"), added(3, "same"), added(4, "new"), added(5, "extra")]);
    assert_eq!(out[0], LineChange::Unchanged { old_line: 3, new_line: 3, text: "same".to_string() });
    assert!(matches!(&out[1], LineChange::Modified { old_line: 4, new_line: 4, .. }));
    assert_eq!(out[2], added(5, "extra"));
    assert_eq!(out.len(), 3);
}

#[test]
fn inline_columns_follow_the_longest_prefix() {
    let d = inline_diff("let value = 1;", "let value = 42;");
    assert_eq!(d.removed, "1");
    assert_eq!(d.added, "42");
    assert_eq!(d.columns, Some(ColumnChange { start: 13, end: 14 }));
    assert_eq!(inline_diff("same", "same").columns, None);
}
