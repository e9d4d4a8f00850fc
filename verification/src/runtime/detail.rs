//! Type-aware change details: text diffs, media metadata and binary sizes.

use vstd::prelude::*;

use crate::config::schema::opt_view;
use crate::diff::binary::{diff_binary, diff_binary_spec, metadata, metadata_spec};
use crate::diff::line::{LineChange, LineChangeView, changes_view, diff_lines_spec};
use crate::diff::preview::{push_string, strings_view};
use crate::diff::textdiff::{diff_text, diff_text_preview, is_text_path, is_text_path_spec};
use crate::media::extract::{detect_media, media_spec};
use crate::media::metadata::{MediaDetails, MediaDetailsView, MediaSummary, MediaSummaryView, kind_name};
use crate::shared::{ChangeDetail, ChangeDetailView};
use crate::text::{chars_of, decimal, lines_of, lines_spec, lossy_text, owned, push_char, push_decimal, push_str, string_from_chars, utf8_lossy};

verus! {

/// A number with at least two digits, zero-padded (`{:02}`).
pub open spec fn pad2(n: nat) -> Seq<char> {
    if n < 10 {
        seq!['0'] + decimal(n)
    } else {
        decimal(n)
    }
}

/// A duration in milliseconds as `MM:SS` (whole minutes, then the seconds left over).
pub open spec fn duration_text(ms: nat) -> Seq<char> {
    let total = ms / 1000;
    pad2(total / 60) + ":"@ + pad2(total % 60)
}

fn push_pad2(s: &mut String, n: u64)
    ensures
        final(s)@ == old(s)@ + pad2(n as nat),
{
    if n < 10 {
        push_char(s, '0');
    }
    push_decimal(s, n);
    assert(final(s)@ =~= old(s)@ + pad2(n as nat));
}

/// Formats a duration in milliseconds as `MM:SS`.
pub fn format_duration(milliseconds: u64) -> (s: String)
    ensures
        s@ == duration_text(milliseconds as nat),
{
    let total_seconds = milliseconds / 1000;
    let mut s = String::new();
    push_pad2(&mut s, total_seconds / 60);
    push_str(&mut s, ":");
    push_pad2(&mut s, total_seconds % 60);
    assert(s@ =~= duration_text(milliseconds as nat));
    s
}

/// Where a line change is: `line N` (the new line for additions and modifications, the old
/// one for removals), with the first changed column of a modification when it is known;
/// unchanged lines have no location.
pub open spec fn location_spec(c: LineChangeView) -> Option<Seq<char>> {
    match c {
        LineChangeView::Added { new_line, .. } => Some("line "@ + decimal(new_line as nat)),
        LineChangeView::Removed { old_line, .. } => Some("line "@ + decimal(old_line as nat)),
        LineChangeView::Modified { new_line, columns, .. } => match columns {
            Some(col) => Some("line "@ + decimal(new_line as nat) + " col "@ + decimal(col.start as nat)),
            None => Some("line "@ + decimal(new_line as nat)),
        },
        LineChangeView::Unchanged { .. } => None,
    }
}

/// Describes where a line change is.
pub fn location_summary(change: &LineChange) -> (r: Option<String>)
    ensures
        opt_view(r) == location_spec(change@),
{
    match change {
        LineChange::Added { new_line, .. } => {
            let mut s = owned("line ");
            push_decimal(&mut s, *new_line as u64);
            Some(s)
        },
        LineChange::Removed { old_line, .. } => {
            let mut s = owned("line ");
            push_decimal(&mut s, *old_line as u64);
            Some(s)
        },
        LineChange::Modified { new_line, columns, .. } => {
            let mut s = owned("line ");
            push_decimal(&mut s, *new_line as u64);
            if let Some(col) = columns {
                push_str(&mut s, " col ");
                push_decimal(&mut s, col.start as u64);
            }
            Some(s)
        },
        LineChange::Unchanged { .. } => None,
    }
}

/// The first location among the changes from `i` on.
pub open spec fn first_location(cs: Seq<LineChangeView>, i: nat) -> Option<Seq<char>>
    decreases cs.len() - i,
{
    if i >= cs.len() {
        None
    } else if location_spec(cs[i as int]) is Some {
        location_spec(cs[i as int])
    } else {
        first_location(cs, i + 1)
    }
}

/// The first lines of a text, at most `n`, each marked as added.
pub open spec fn added_head(text: Seq<char>, n: nat) -> Seq<Seq<char>> {
    let ls = lines_spec(text);
    let head = if ls.len() <= n { ls } else { ls.take(n as int) };
    head.map_values(|l: Seq<char>| "+ "@ + l)
}

/// The detail of a text change: the first changed location, the preview of the diff against
/// the previous content (or, when the diff shows nothing, the first four lines of the text
/// marked as added), and whether the preview was cut.
pub open spec fn text_detail_spec(previous: Option<Seq<u8>>, current: Seq<u8>) -> ChangeDetailView {
    let after = utf8_lossy(current);
    let before = match previous {
        Some(p) => utf8_lossy(p),
        None => Seq::empty(),
    };
    let preview = diff_text_preview(before, after, 4);
    ChangeDetailView::Text {
        location: first_location(diff_lines_spec(before, after), 0),
        preview: if preview.lines.len() == 0 { added_head(after, 4) } else { preview.lines },
        truncated: preview.truncated,
    }
}

fn first_location_of(changes: &Vec<LineChange>) -> (r: Option<String>)
    ensures
        opt_view(r) == first_location(changes_view(changes@), 0),
{
    let ghost cv = changes_view(changes@);
    let mut i: usize = 0;
    while i < changes.len()
        invariant
            i <= changes.len(),
            cv == changes_view(changes@),
            first_location(cv, 0) == first_location(cv, i as nat),
        decreases changes.len() - i,
    {
        let r = location_summary(&changes[i]);
        if r.is_some() {
            return r;
        }
        i = i + 1;
    }
    None
}

fn added_head_of(text: &str, n: usize) -> (rows: Vec<String>)
    ensures
        strings_view(rows@) == added_head(text@, n as nat),
{
    let lines = lines_of(text);
    let ghost ls = crate::text::pieces_view(lines@);
    let count = if lines.len() <= n { lines.len() } else { n };
    let ghost head = if ls.len() <= n { ls } else { ls.take(n as int) };
    assert(head.len() == count);
    let mut rows: Vec<String> = Vec::new();
    let mut i: usize = 0;
    while i < count
        invariant
            i <= count <= lines.len(),
            ls == crate::text::pieces_view(lines@),
            head.len() == count,
            forall|k: int| 0 <= k < count ==> head[k] == ls[k],
            strings_view(rows@) == head.take(i as int).map_values(|l: Seq<char>| "+ "@ + l),
        decreases count - i,
    {
        let mut row = owned("+ ");
        let tail = string_from_chars(lines[i].as_slice());
        push_str(&mut row, tail.as_str());
        assert(ls[i as int] == lines@[i as int]@);
        push_string(&mut rows, row);
        assert(head.take(i + 1) == head.take(i as int).push(head[i as int]));
        i = i + 1;
        assert(strings_view(rows@) =~= head.take(i as int).map_values(|l: Seq<char>| "+ "@ + l));
    }
    assert(head.take(count as int) == head);
    rows
}

/// The detail of a text change.
pub fn text_detail(previous: Option<&[u8]>, current: &[u8]) -> (d: ChangeDetail)
    ensures
        d@ == text_detail_spec(
            match previous {
                Some(p) => Some(p@),
                None => None,
            },
            current@,
        ),
{
    let current_text = lossy_text(current);
    let previous_text = match previous {
        Some(p) => lossy_text(p),
        None => String::new(),
    };
    let diff = diff_text(previous_text.as_str(), current_text.as_str(), 4);
    let location = first_location_of(&diff.changes);
    let truncated = diff.preview.truncated;
    let preview = if diff.preview.lines.len() == 0 {
        added_head_of(current_text.as_str(), 4)
    } else {
        diff.preview.lines
    };
    ChangeDetail::Text { location, preview, truncated }
}

/// `label value`, when there is a value.
pub open spec fn labelled(lines: Seq<Seq<char>>, label: Seq<char>, value: Option<Seq<char>>) -> Seq<Seq<char>> {
    match value {
        Some(v) => lines.push(label + " "@ + v),
        None => lines,
    }
}

/// The metadata lines of a media change.
pub open spec fn media_lines(d: MediaDetailsView) -> Seq<Seq<char>> {
    match d {
        MediaDetailsView::Image(i) => {
            let l = crate::media::metadata::dimensions_line(Seq::empty(), i.width, i.height);
            match i.color_type {
                Some(c) => l.push(c),
                None => l,
            }
        },
        MediaDetailsView::Audio(a) => {
            let l1 = labelled(Seq::empty(), "duration"@, match a.duration_ms {
                Some(ms) => Some(duration_text(ms as nat)),
                None => None,
            });
            let l2 = labelled(l1, "bitrate"@, match a.bitrate {
                Some(b) => Some(decimal(b as nat) + " bps"@),
                None => None,
            });
            let l3 = labelled(l2, "channels"@, match a.channels {
                Some(c) => Some(decimal(c as nat)),
                None => None,
            });
            labelled(l3, "sample rate"@, match a.sample_rate {
                Some(r) => Some(decimal(r as nat) + " Hz"@),
                None => None,
            })
        },
        MediaDetailsView::Video(v) => {
            let l1 = crate::media::metadata::dimensions_line(Seq::empty(), v.width, v.height);
            let l2 = labelled(l1, "duration"@, match v.duration_ms {
                Some(ms) => Some(duration_text(ms as nat)),
                None => None,
            });
            let l3 = match v.codec {
                Some(c) => l2.push("codec "@ + c),
                None => l2,
            };
            match v.frame_rate_centi {
                Some(f) => l3.push("frame rate "@ + crate::media::metadata::hundredths_text(f as nat)),
                None => l3,
            }
        },
    }
}

/// The detail of a media change.
pub open spec fn media_detail_spec(m: MediaSummaryView) -> ChangeDetailView {
    ChangeDetailView::Media {
        kind: kind_name(m.kind),
        mime_type: m.mime_type,
        size_bytes: m.file_size,
        metadata: media_lines(m.details),
    }
}

fn push_labelled(lines: &mut Vec<String>, label: &str, value: Option<String>)
    ensures
        strings_view(final(lines)@) == labelled(strings_view(old(lines)@), label@, opt_view(value)),
{
    if let Some(v) = value {
        let mut line = owned(label);
        push_str(&mut line, " ");
        push_str(&mut line, v.as_str());
        push_string(lines, line);
    }
}

fn number_with_unit(n: u64, unit: &str) -> (s: String)
    ensures
        s@ == decimal(n as nat) + unit@,
{
    let mut s = String::new();
    push_decimal(&mut s, n);
    push_str(&mut s, unit);
    s
}

fn push_dims(lines: &mut Vec<String>, width: Option<u32>, height: Option<u32>)
    ensures
        strings_view(final(lines)@) == crate::media::metadata::dimensions_line(strings_view(old(lines)@), width, height),
{
    if let (Some(w), Some(h)) = (width, height) {
        let mut line = String::new();
        push_decimal(&mut line, w as u64);
        push_str(&mut line, "x");
        push_decimal(&mut line, h as u64);
        assert(line@ =~= decimal(w as nat) + "x"@ + decimal(h as nat));
        push_string(lines, line);
    }
}

fn hundredths(v: u32) -> (s: String)
    ensures
        s@ == crate::media::metadata::hundredths_text(v as nat),
{
    let mut s = String::new();
    push_decimal(&mut s, (v / 100) as u64);
    push_str(&mut s, ".");
    push_decimal(&mut s, ((v % 100) / 10) as u64);
    push_decimal(&mut s, (v % 10) as u64);
    assert(s@ =~= crate::media::metadata::hundredths_text(v as nat));
    s
}

/// The detail of a media change: family, MIME type, size, and the metadata lines.
pub fn media_detail(media: MediaSummary) -> (d: ChangeDetail)
    ensures
        d@ == media_detail_spec(media@),
{
    let mut lines: Vec<String> = Vec::new();
    assert(strings_view(lines@) =~= Seq::<Seq<char>>::empty());
    match &media.details {
        MediaDetails::Image(image) => {
            push_dims(&mut lines, image.width, image.height);
            if let Some(color_type) = &image.color_type {
                push_string(&mut lines, color_type.clone());
            }
        },
        MediaDetails::Audio(audio) => {
            push_labelled(&mut lines, "duration", match audio.duration_ms {
                Some(ms) => Some(format_duration(ms)),
                None => None,
            });
            push_labelled(&mut lines, "bitrate", match audio.bitrate {
                Some(b) => Some(number_with_unit(b as u64, " bps")),
                None => None,
            });
            push_labelled(&mut lines, "channels", match audio.channels {
                Some(c) => Some(crate::text::decimal_string(c as u64)),
                None => None,
            });
            push_labelled(&mut lines, "sample rate", match audio.sample_rate {
                Some(r) => Some(number_with_unit(r as u64, " Hz")),
                None => None,
            });
        },
        MediaDetails::Video(video) => {
            push_dims(&mut lines, video.width, video.height);
            push_labelled(&mut lines, "duration", match video.duration_ms {
                Some(ms) => Some(format_duration(ms)),
                None => None,
            });
            if let Some(codec) = &video.codec {
                let mut line = owned("codec ");
                push_str(&mut line, codec.as_str());
                push_string(&mut lines, line);
            }
            if let Some(f) = video.frame_rate_centi {
                let mut line = owned("frame rate ");
                push_str(&mut line, hundredths(f).as_str());
                push_string(&mut lines, line);
            }
        },
    }
    ChangeDetail::Media {
        kind: media.kind.to_string(),
        mime_type: media.mime_type,
        size_bytes: media.file_size,
        metadata: lines,
    }
}

/// The detail of a binary change: the sizes, and whether the content hash changed.
pub open spec fn binary_detail_spec(previous: Option<Seq<u8>>, current: Seq<u8>) -> ChangeDetailView {
    ChangeDetailView::Binary {
        previous_size: match previous {
            Some(p) => Some(diff_binary_spec(p, current).before.size),
            None => None,
        },
        current_size: Some(metadata_spec(current).size),
        hash_changed: match previous {
            Some(p) => diff_binary_spec(p, current).hash_changed,
            None => false,
        },
    }
}

/// The detail of a binary change.
pub fn binary_detail(previous: Option<&[u8]>, current: &[u8]) -> (d: ChangeDetail)
    ensures
        d@ == binary_detail_spec(
            match previous {
                Some(p) => Some(p@),
                None => None,
            },
            current@,
        ),
{
    let current_metadata = metadata(current);
    let (previous_size, hash_changed) = match previous {
        Some(p) => {
            let diff = diff_binary(p, current);
            (Some(diff.before.size), diff.hash_changed)
        },
        None => (None, false),
    };
    ChangeDetail::Binary { previous_size, current_size: Some(current_metadata.size), hash_changed }
}

/// The detail of a change from the file's bytes: a text diff for text paths, media metadata
/// for recognised media, binary sizes otherwise.
pub open spec fn detail_spec(path: Seq<char>, previous: Option<Seq<u8>>, bytes: Seq<u8>) -> ChangeDetailView {
    if is_text_path_spec(path) {
        text_detail_spec(previous, bytes)
    } else if media_spec(path, bytes) is Some {
        media_detail_spec(media_spec(path, bytes)->0)
    } else {
        binary_detail_spec(previous, bytes)
    }
}

/// The detail of a change from the file's bytes and, when known, its previous bytes.
pub fn detail_from_bytes(path: &str, previous: Option<&[u8]>, bytes: &[u8]) -> (d: ChangeDetail)
    ensures
        d@ == detail_spec(
            path@,
            match previous {
                Some(p) => Some(p@),
                None => None,
            },
            bytes@,
        ),
{
    if is_text_path(path) {
        return text_detail(previous, bytes);
    }
    if let Some(media) = detect_media(path, bytes) {
        return media_detail(media);
    }
    binary_detail(previous, bytes)
}

} // verus!
