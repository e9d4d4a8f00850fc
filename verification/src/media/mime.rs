//! MIME type detection from magic bytes or the path's extension.

use vstd::prelude::*;

use crate::media::bytes::{bytes_at, holds_at};
use crate::media::metadata::MediaKind;
use crate::paths::{extension_chars, extension_spec};
use crate::text::chars_eq_str;

verus! {

/// The views of a detected MIME type and media family.
pub open spec fn mime_view(r: Option<(&str, MediaKind)>) -> Option<(Seq<char>, MediaKind)> {
    match r {
        Some((m, k)) => Some((m@, k)),
        None => None,
    }
}

/// The MIME type and family that a file's first bytes announce.
pub open spec fn magic_mime(b: Seq<u8>) -> Option<(Seq<char>, MediaKind)> {
    if holds_at(b, 0, seq![137u8, 80u8, 78u8, 71u8, 13u8, 10u8, 26u8, 10u8]) {
        Some(("image/png"@, MediaKind::Image))
    }     else if holds_at(b, 0, seq![255u8, 216u8, 255u8]) {
        Some(("image/jpeg"@, MediaKind::Image))
    }     else if holds_at(b, 0, seq![71u8, 73u8, 70u8, 56u8, 55u8, 97u8]) || holds_at(b, 0, seq![71u8, 73u8, 70u8, 56u8, 57u8, 97u8]) {
        Some(("image/gif"@, MediaKind::Image))
    }     else if holds_at(b, 0, seq![82u8, 73u8, 70u8, 70u8]) && holds_at(b, 8, seq![87u8, 69u8, 66u8, 80u8]) {
        Some(("image/webp"@, MediaKind::Image))
    }     else if holds_at(b, 0, seq![66u8, 77u8]) {
        Some(("image/bmp"@, MediaKind::Image))
    }     else if holds_at(b, 0, seq![73u8, 68u8, 51u8]) || holds_at(b, 0, seq![255u8, 251u8]) {
        Some(("audio/mpeg"@, MediaKind::Audio))
    }     else if holds_at(b, 0, seq![82u8, 73u8, 70u8, 70u8]) && holds_at(b, 8, seq![87u8, 65u8, 86u8, 69u8]) {
        Some(("audio/wav"@, MediaKind::Audio))
    }     else if holds_at(b, 0, seq![102u8, 76u8, 97u8, 67u8]) {
        Some(("audio/flac"@, MediaKind::Audio))
    }     else if holds_at(b, 4, seq![102u8, 116u8, 121u8, 112u8]) {
        Some(("video/mp4"@, MediaKind::Video))
    } else {
        None
    }
}

/// The MIME type and family that an extension names.
pub open spec fn extension_mime(e: Seq<char>) -> Option<(Seq<char>, MediaKind)> {
    if e == "png"@ {
        Some(("image/png"@, MediaKind::Image))
    }     else if e == "jpg"@ || e == "jpeg"@ {
        Some(("image/jpeg"@, MediaKind::Image))
    }     else if e == "gif"@ {
        Some(("image/gif"@, MediaKind::Image))
    }     else if e == "webp"@ {
        Some(("image/webp"@, MediaKind::Image))
    }     else if e == "bmp"@ {
        Some(("image/bmp"@, MediaKind::Image))
    }     else if e == "svg"@ {
        Some(("image/svg+xml"@, MediaKind::Image))
    }     else if e == "mp3"@ {
        Some(("audio/mpeg"@, MediaKind::Audio))
    }     else if e == "wav"@ {
        Some(("audio/wav"@, MediaKind::Audio))
    }     else if e == "flac"@ {
        Some(("audio/flac"@, MediaKind::Audio))
    }     else if e == "ogg"@ {
        Some(("audio/ogg"@, MediaKind::Audio))
    }     else if e == "m4a"@ {
        Some(("audio/mp4"@, MediaKind::Audio))
    }     else if e == "aac"@ {
        Some(("audio/aac"@, MediaKind::Audio))
    }     else if e == "mp4"@ {
        Some(("video/mp4"@, MediaKind::Video))
    }     else if e == "mov"@ {
        Some(("video/quicktime"@, MediaKind::Video))
    }     else if e == "avi"@ {
        Some(("video/x-msvideo"@, MediaKind::Video))
    }     else if e == "webm"@ {
        Some(("video/webm"@, MediaKind::Video))
    }     else if e == "mkv"@ {
        Some(("video/x-matroska"@, MediaKind::Video))
    } else {
        None
    }
}

/// The MIME type and family of a file: from its magic bytes, else from its path's extension.
pub open spec fn mime_spec(path: Seq<char>, b: Seq<u8>) -> Option<(Seq<char>, MediaKind)> {
    match magic_mime(b) {
        Some(r) => Some(r),
        None => match extension_spec(path) {
            Some(e) => extension_mime(e),
            None => None,
        },
    }
}

/// Detects the MIME type from magic bytes.
pub fn detect_magic(b: &[u8]) -> (r: Option<(&'static str, MediaKind)>)
    ensures
        mime_view(r) == magic_mime(b@),
{
    if bytes_at(b, 0, &[137u8, 80u8, 78u8, 71u8, 13u8, 10u8, 26u8, 10u8]) {
        Some(("image/png", MediaKind::Image))
    }     else if bytes_at(b, 0, &[255u8, 216u8, 255u8]) {
        Some(("image/jpeg", MediaKind::Image))
    }     else if bytes_at(b, 0, &[71u8, 73u8, 70u8, 56u8, 55u8, 97u8]) || bytes_at(b, 0, &[71u8, 73u8, 70u8, 56u8, 57u8, 97u8]) {
        Some(("image/gif", MediaKind::Image))
    }     else if bytes_at(b, 0, &[82u8, 73u8, 70u8, 70u8]) && bytes_at(b, 8, &[87u8, 69u8, 66u8, 80u8]) {
        Some(("image/webp", MediaKind::Image))
    }     else if bytes_at(b, 0, &[66u8, 77u8]) {
        Some(("image/bmp", MediaKind::Image))
    }     else if bytes_at(b, 0, &[73u8, 68u8, 51u8]) || bytes_at(b, 0, &[255u8, 251u8]) {
        Some(("audio/mpeg", MediaKind::Audio))
    }     else if bytes_at(b, 0, &[82u8, 73u8, 70u8, 70u8]) && bytes_at(b, 8, &[87u8, 65u8, 86u8, 69u8]) {
        Some(("audio/wav", MediaKind::Audio))
    }     else if bytes_at(b, 0, &[102u8, 76u8, 97u8, 67u8]) {
        Some(("audio/flac", MediaKind::Audio))
    }     else if bytes_at(b, 4, &[102u8, 116u8, 121u8, 112u8]) {
        Some(("video/mp4", MediaKind::Video))
    } else {
        None
    }
}

/// Detects the MIME type from a path's extension.
pub fn detect_extension(path: &str) -> (r: Option<(&'static str, MediaKind)>)
    ensures
        mime_view(r) == match extension_spec(path@) {
            Some(e) => extension_mime(e),
            None => None,
        },
{
    let e = match extension_chars(path) {
        Some(e) => e,
        None => {
            return None;
        },
    };
    if chars_eq_str(&e, "png") {
        Some(("image/png", MediaKind::Image))
    }     else if chars_eq_str(&e, "jpg") || chars_eq_str(&e, "jpeg") {
        Some(("image/jpeg", MediaKind::Image))
    }     else if chars_eq_str(&e, "gif") {
        Some(("image/gif", MediaKind::Image))
    }     else if chars_eq_str(&e, "webp") {
        Some(("image/webp", MediaKind::Image))
    }     else if chars_eq_str(&e, "bmp") {
        Some(("image/bmp", MediaKind::Image))
    }     else if chars_eq_str(&e, "svg") {
        Some(("image/svg+xml", MediaKind::Image))
    }     else if chars_eq_str(&e, "mp3") {
        Some(("audio/mpeg", MediaKind::Audio))
    }     else if chars_eq_str(&e, "wav") {
        Some(("audio/wav", MediaKind::Audio))
    }     else if chars_eq_str(&e, "flac") {
        Some(("audio/flac", MediaKind::Audio))
    }     else if chars_eq_str(&e, "ogg") {
        Some(("audio/ogg", MediaKind::Audio))
    }     else if chars_eq_str(&e, "m4a") {
        Some(("audio/mp4", MediaKind::Audio))
    }     else if chars_eq_str(&e, "aac") {
        Some(("audio/aac", MediaKind::Audio))
    }     else if chars_eq_str(&e, "mp4") {
        Some(("video/mp4", MediaKind::Video))
    }     else if chars_eq_str(&e, "mov") {
        Some(("video/quicktime", MediaKind::Video))
    }     else if chars_eq_str(&e, "avi") {
        Some(("video/x-msvideo", MediaKind::Video))
    }     else if chars_eq_str(&e, "webm") {
        Some(("video/webm", MediaKind::Video))
    }     else if chars_eq_str(&e, "mkv") {
        Some(("video/x-matroska", MediaKind::Video))
    } else {
        None
    }
}

/// Returns a MIME type from magic bytes or path extension.
pub fn detect_mime(path: &str, b: &[u8]) -> (r: Option<(&'static str, MediaKind)>)
    ensures
        mime_view(r) == mime_spec(path@, b@),
{
    match detect_magic(b) {
        Some(r) => Some(r),
        None => detect_extension(path),
    }
}

} // verus!
