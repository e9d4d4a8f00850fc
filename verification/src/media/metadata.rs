//! Media metadata models, their display lines, and metadata comparison.

use vstd::prelude::*;

use crate::config::schema::opt_view;
use crate::diff::preview::{push_string, strings_view};
use crate::text::{decimal, owned, push_decimal, push_str};

verus! {

/// Supported media families.
#[derive(Clone, Copy, Debug, PartialEq, Eq, Structural)]
pub enum MediaKind {
    /// Image files such as PNG, JPEG, GIF, WebP, BMP, and SVG.
    Image,
    /// Audio files such as MP3, WAV, FLAC, OGG, M4A, and AAC.
    Audio,
    /// Video files such as MP4, MOV, AVI, `WebM`, and MKV.
    Video,
}

/// The display name of a media family.
pub open spec fn kind_name(k: MediaKind) -> Seq<char> {
    match k {
        MediaKind::Image => "image"@,
        MediaKind::Audio => "audio"@,
        MediaKind::Video => "video"@,
    }
}

impl MediaKind {
    /// The display name of the media family.
    pub fn to_string(&self) -> (s: String)
        ensures
            s@ == kind_name(*self),
    {
        match self {
            MediaKind::Image => owned("image"),
            MediaKind::Audio => owned("audio"),
            MediaKind::Video => owned("video"),
        }
    }
}

/// Image metadata extracted from file headers.
#[derive(Clone, Debug, PartialEq, Eq)]
pub struct ImageMetadata {
    /// Width in pixels.
    pub width: Option<u32>,
    /// Height in pixels.
    pub height: Option<u32>,
    /// Color information when known.
    pub color_type: Option<String>,
}

/// Audio metadata summary.
#[derive(Clone, Copy, Debug, PartialEq, Eq)]
pub struct AudioMetadata {
    /// Duration in milliseconds when known.
    pub duration_ms: Option<u64>,
    /// Bitrate in bits per second when known.
    pub bitrate: Option<u32>,
    /// Channel count when known.
    pub channels: Option<u16>,
    /// Sample rate in hertz when known.
    pub sample_rate: Option<u32>,
}

/// Video metadata summary.
#[derive(Clone, Debug, PartialEq, Eq)]
pub struct VideoMetadata {
    /// Width in pixels when known.
    pub width: Option<u32>,
    /// Height in pixels when known.
    pub height: Option<u32>,
    /// Duration in milliseconds when known.
    pub duration_ms: Option<u64>,
    /// Codec name when known.
    pub codec: Option<String>,
    /// Frame rate in hundredths of a frame per second, when known.
    pub frame_rate_centi: Option<u32>,
}

/// Detailed metadata for a media file.
#[derive(Clone, Debug, PartialEq, Eq)]
pub enum MediaDetails {
    /// Image details.
    Image(ImageMetadata),
    /// Audio details.
    Audio(AudioMetadata),
    /// Video details.
    Video(VideoMetadata),
}

/// Lightweight media summary for UI display.
#[derive(Clone, Debug, PartialEq, Eq)]
pub struct MediaSummary {
    /// Media family.
    pub kind: MediaKind,
    /// MIME type when known.
    pub mime_type: String,
    /// File size in bytes.
    pub file_size: u64,
    /// Detailed metadata.
    pub details: MediaDetails,
}

/// Metadata comparison result.
#[derive(Clone, Debug, PartialEq, Eq)]
pub struct MediaMetadataChange {
    /// Previous metadata.
    pub previous: Option<MediaSummary>,
    /// Current metadata.
    pub current: Option<MediaSummary>,
    /// Whether file size changed.
    pub file_size_changed: bool,
    /// Human-readable summary lines.
    pub summary_lines: Vec<String>,
}

pub struct ImageMetadataView {
    pub width: Option<u32>,
    pub height: Option<u32>,
    pub color_type: Option<Seq<char>>,
}

pub struct VideoMetadataView {
    pub width: Option<u32>,
    pub height: Option<u32>,
    pub duration_ms: Option<u64>,
    pub codec: Option<Seq<char>>,
    pub frame_rate_centi: Option<u32>,
}

pub enum MediaDetailsView {
    Image(ImageMetadataView),
    Audio(AudioMetadata),
    Video(VideoMetadataView),
}

pub struct MediaSummaryView {
    pub kind: MediaKind,
    pub mime_type: Seq<char>,
    pub file_size: u64,
    pub details: MediaDetailsView,
}

impl View for ImageMetadata {
    type V = ImageMetadataView;

    open spec fn view(&self) -> ImageMetadataView {
        ImageMetadataView { width: self.width, height: self.height, color_type: opt_view(self.color_type) }
    }
}

impl View for VideoMetadata {
    type V = VideoMetadataView;

    open spec fn view(&self) -> VideoMetadataView {
        VideoMetadataView {
            width: self.width,
            height: self.height,
            duration_ms: self.duration_ms,
            codec: opt_view(self.codec),
            frame_rate_centi: self.frame_rate_centi,
        }
    }
}

impl View for MediaDetails {
    type V = MediaDetailsView;

    open spec fn view(&self) -> MediaDetailsView {
        match self {
            MediaDetails::Image(i) => MediaDetailsView::Image(i@),
            MediaDetails::Audio(a) => MediaDetailsView::Audio(*a),
            MediaDetails::Video(v) => MediaDetailsView::Video(v@),
        }
    }
}

impl View for MediaSummary {
    type V = MediaSummaryView;

    open spec fn view(&self) -> MediaSummaryView {
        MediaSummaryView {
            kind: self.kind,
            mime_type: self.mime_type@,
            file_size: self.file_size,
            details: self.details@,
        }
    }
}

/// The view of an optional summary.
pub open spec fn summary_view(s: Option<MediaSummary>) -> Option<MediaSummaryView> {
    match s {
        Some(x) => Some(x@),
        None => None,
    }
}

/// `label value`, when there is a value.
pub open spec fn optional_line(lines: Seq<Seq<char>>, label: Seq<char>, value: Option<nat>) -> Seq<Seq<char>> {
    match value {
        Some(v) => lines.push(label + " "@ + decimal(v)),
        None => lines,
    }
}

/// `WIDTHxHEIGHT`, when both are known.
pub open spec fn dimensions_line(lines: Seq<Seq<char>>, width: Option<u32>, height: Option<u32>) -> Seq<Seq<char>> {
    match (width, height) {
        (Some(w), Some(h)) => lines.push(decimal(w as nat) + "x"@ + decimal(h as nat)),
        _ => lines,
    }
}

/// A value in hundredths with two decimals, as `{:.2}` shows it.
pub open spec fn hundredths_text(v: nat) -> Seq<char> {
    decimal(v / 100) + "."@ + decimal((v % 100) / 10) + decimal(v % 10)
}

/// An optional value as a natural number.
pub open spec fn opt_nat_u64(v: Option<u64>) -> Option<nat> {
    match v {
        Some(x) => Some(x as nat),
        None => None,
    }
}

/// An optional value as a natural number.
pub open spec fn opt_nat_u32(v: Option<u32>) -> Option<nat> {
    match v {
        Some(x) => Some(x as nat),
        None => None,
    }
}

/// An optional value as a natural number.
pub open spec fn opt_nat_u16(v: Option<u16>) -> Option<nat> {
    match v {
        Some(x) => Some(x as nat),
        None => None,
    }
}

/// The display lines of a summary: the family, the MIME type, the size, then what the
/// details know.
pub open spec fn display_lines_spec(s: MediaSummaryView) -> Seq<Seq<char>> {
    let head = seq![kind_name(s.kind), s.mime_type, decimal(s.file_size as nat) + " bytes"@];
    match s.details {
        MediaDetailsView::Image(i) => {
            let l = dimensions_line(head, i.width, i.height);
            match i.color_type {
                Some(c) => l.push(c),
                None => l,
            }
        },
        MediaDetailsView::Audio(a) => {
            let l1 = optional_line(head, "duration_ms"@, opt_nat_u64(a.duration_ms));
            let l2 = optional_line(l1, "bitrate"@, opt_nat_u32(a.bitrate));
            let l3 = optional_line(l2, "channels"@, opt_nat_u16(a.channels));
            optional_line(l3, "sample_rate"@, opt_nat_u32(a.sample_rate))
        },
        MediaDetailsView::Video(v) => {
            let l1 = dimensions_line(head, v.width, v.height);
            let l2 = optional_line(l1, "duration_ms"@, opt_nat_u64(v.duration_ms));
            let l3 = match v.codec {
                Some(c) => l2.push("codec "@ + c),
                None => l2,
            };
            match v.frame_rate_centi {
                Some(f) => l3.push("frame_rate "@ + hundredths_text(f as nat)),
                None => l3,
            }
        },
    }
}

fn push_optional(lines: &mut Vec<String>, label: &str, value: Option<u64>)
    ensures
        strings_view(final(lines)@) == optional_line(strings_view(old(lines)@), label@, opt_nat_u64(value)),
{
    if let Some(v) = value {
        let mut line = owned(label);
        push_str(&mut line, " ");
        push_decimal(&mut line, v);
        push_string(lines, line);
    }
}

fn push_dimensions(lines: &mut Vec<String>, width: Option<u32>, height: Option<u32>)
    ensures
        strings_view(final(lines)@) == dimensions_line(strings_view(old(lines)@), width, height),
{
    if let (Some(w), Some(h)) = (width, height) {
        let mut line = String::new();
        push_decimal(&mut line, w as u64);
        push_str(&mut line, "x");
        push_decimal(&mut line, h as u64);
        assert(line@ =~= decimal(w as nat) + "x"@ + decimal(h as nat));
        push_string(lines, line);
    }
}

fn hundredths(v: u32) -> (s: String)
    ensures
        s@ == hundredths_text(v as nat),
{
    let mut s = String::new();
    push_decimal(&mut s, (v / 100) as u64);
    push_str(&mut s, ".");
    push_decimal(&mut s, ((v % 100) / 10) as u64);
    push_decimal(&mut s, (v % 10) as u64);
    assert(s@ =~= hundredths_text(v as nat));
    s
}

fn prefixed(prefix: &str, s: &str) -> (r: String)
    ensures
        r@ == prefix@ + s@,
{
    let mut r = owned(prefix);
    push_str(&mut r, s);
    r
}

impl MediaSummary {
    /// Returns a concise display summary.
    pub fn display_lines(&self) -> (lines: Vec<String>)
        ensures
            strings_view(lines@) == display_lines_spec(self@),
    {
        let mut lines: Vec<String> = Vec::new();
        assert(strings_view(lines@) =~= Seq::<Seq<char>>::empty());
        push_string(&mut lines, self.kind.to_string());
        push_string(&mut lines, self.mime_type.clone());
        let mut size = String::new();
        push_decimal(&mut size, self.file_size);
        push_str(&mut size, " bytes");
        push_string(&mut lines, size);
        assert(strings_view(lines@) =~= seq![
            kind_name(self.kind),
            self.mime_type@,
            decimal(self.file_size as nat) + " bytes"@,
        ]);
        match &self.details {
            MediaDetails::Image(image) => {
                push_dimensions(&mut lines, image.width, image.height);
                if let Some(color_type) = &image.color_type {
                    push_string(&mut lines, color_type.clone());
                }
            },
            MediaDetails::Audio(audio) => {
                push_optional(&mut lines, "duration_ms", audio.duration_ms);
                push_optional(&mut lines, "bitrate", match audio.bitrate {
                    Some(b) => Some(b as u64),
                    None => None,
                });
                push_optional(&mut lines, "channels", match audio.channels {
                    Some(c) => Some(c as u64),
                    None => None,
                });
                push_optional(&mut lines, "sample_rate", match audio.sample_rate {
                    Some(r) => Some(r as u64),
                    None => None,
                });
            },
            MediaDetails::Video(video) => {
                push_dimensions(&mut lines, video.width, video.height);
                push_optional(&mut lines, "duration_ms", video.duration_ms);
                if let Some(codec) = &video.codec {
                    push_string(&mut lines, prefixed("codec ", codec.as_str()));
                }
                if let Some(f) = video.frame_rate_centi {
                    push_string(&mut lines, prefixed("frame_rate ", hundredths(f).as_str()));
                }
            },
        }
        lines
    }
}

/// The file size of an optional summary.
pub open spec fn size_of(s: Option<MediaSummaryView>) -> Option<u64> {
    match s {
        Some(x) => Some(x.file_size),
        None => None,
    }
}

/// The summary lines of a comparison: the MIME types and the sizes (when they differ) of a
/// change, the MIME type and size of a creation, the MIME type of a deletion.
pub open spec fn compare_lines(previous: Option<MediaSummaryView>, current: Option<MediaSummaryView>) -> Seq<Seq<char>> {
    match (previous, current) {
        (Some(p), Some(c)) => {
            let first = seq![p.mime_type + " -> "@ + c.mime_type];
            if p.file_size != c.file_size {
                first.push(decimal(p.file_size as nat) + " bytes -> "@ + decimal(c.file_size as nat) + " bytes"@)
            } else {
                first
            }
        },
        (None, Some(c)) => seq!["created "@ + c.mime_type, decimal(c.file_size as nat) + " bytes"@],
        (Some(p), None) => seq!["deleted "@ + p.mime_type],
        (None, None) => Seq::empty(),
    }
}

/// Compares previous and current metadata.
pub fn compare_metadata(previous: Option<MediaSummary>, current: Option<MediaSummary>) -> (c: MediaMetadataChange)
    ensures
        summary_view(c.previous) == summary_view(previous),
        summary_view(c.current) == summary_view(current),
        c.file_size_changed == (size_of(summary_view(previous)) != size_of(summary_view(current))),
        strings_view(c.summary_lines@) == compare_lines(summary_view(previous), summary_view(current)),
{
    let previous_size = match &previous {
        Some(p) => Some(p.file_size),
        None => None,
    };
    let current_size = match &current {
        Some(s) => Some(s.file_size),
        None => None,
    };
    let file_size_changed = match (previous_size, current_size) {
        (Some(a), Some(b)) => a != b,
        (None, None) => false,
        _ => true,
    };
    let mut summary_lines: Vec<String> = Vec::new();
    assert(strings_view(summary_lines@) =~= Seq::<Seq<char>>::empty());
    match (&previous, &current) {
        (Some(p), Some(c)) => {
            let mut line = owned(p.mime_type.as_str());
            push_str(&mut line, " -> ");
            push_str(&mut line, c.mime_type.as_str());
            push_string(&mut summary_lines, line);
            if file_size_changed {
                let mut sizes = String::new();
                push_decimal(&mut sizes, p.file_size);
                push_str(&mut sizes, " bytes -> ");
                push_decimal(&mut sizes, c.file_size);
                push_str(&mut sizes, " bytes");
                push_string(&mut summary_lines, sizes);
            }
        },
        (None, Some(c)) => {
            push_string(&mut summary_lines, prefixed("created ", c.mime_type.as_str()));
            let mut size = String::new();
            push_decimal(&mut size, c.file_size);
            push_str(&mut size, " bytes");
            push_string(&mut summary_lines, size);
        },
        (Some(p), None) => {
            push_string(&mut summary_lines, prefixed("deleted ", p.mime_type.as_str()));
        },
        (None, None) => {},
    }
    assert(strings_view(summary_lines@) =~= compare_lines(summary_view(previous), summary_view(current)));
    MediaMetadataChange { previous, current, file_size_changed, summary_lines }
}

} // verus!
