//! Header metadata of images, audio and video, and the detection pipeline.

use vstd::prelude::*;

use crate::media::bytes::{be16, be32, find_bytes, find_from, le16, le32, read_be_u16, read_be_u32, read_le_u16, read_le_u32};
use crate::media::metadata::{AudioMetadata, ImageMetadata, ImageMetadataView, MediaDetails, MediaDetailsView, MediaKind, MediaSummary, MediaSummaryView, VideoMetadata, VideoMetadataView};
use crate::media::mime::{detect_mime, mime_spec};
use crate::text::{chars_of, find_chars, find_seq_from, leading_digits, leading_digits_from, lossy_text, owned, parse_unsigned, parse_unsigned_spec, push_str, utf8_lossy};

verus! {

/// Image metadata with nothing known.
pub open spec fn unknown_image(color: Option<Seq<char>>) -> ImageMetadataView {
    ImageMetadataView { width: None, height: None, color_type: color }
}

/// The name of a PNG color type.
pub open spec fn png_color_name(kind: u8) -> Seq<char> {
    if kind == 0 {
        "grayscale"@
    } else if kind == 2 {
        "truecolor"@
    } else if kind == 3 {
        "indexed"@
    } else if kind == 4 {
        "grayscale-alpha"@
    } else if kind == 6 {
        "truecolor-alpha"@
    } else {
        "unknown"@
    }
}

/// PNG: the IHDR width and height (big-endian at 16 and 20) and the color type at 25.
pub open spec fn png_spec(b: Seq<u8>) -> ImageMetadataView {
    ImageMetadataView {
        width: be32(b, 16),
        height: be32(b, 20),
        color_type: if b.len() > 25 { Some(png_color_name(b[25])) } else { None },
    }
}

/// A 16-bit dimension widened.
pub open spec fn widen(v: Option<u16>) -> Option<u32> {
    match v {
        Some(x) => Some(x as u32),
        None => None,
    }
}

/// GIF: the logical screen size (little-endian at 6 and 8); always indexed.
pub open spec fn gif_spec(b: Seq<u8>) -> ImageMetadataView {
    ImageMetadataView { width: widen(le16(b, 6)), height: widen(le16(b, 8)), color_type: Some("indexed"@) }
}

/// BMP: the DIB header size (little-endian at 18 and 22).
pub open spec fn bmp_spec(b: Seq<u8>) -> ImageMetadataView {
    ImageMetadataView { width: le32(b, 18), height: le32(b, 22), color_type: None }
}

/// JPEG: segments are walked from offset `index` while ten bytes remain; a byte other than
/// `0xff` is skipped; a start-of-frame marker (`0xc0` to `0xc3`) gives the height and width;
/// a segment length under two stops the walk; otherwise the segment is skipped (a walk that
/// leaves the bytes finds nothing).
pub open spec fn jpeg_scan(b: Seq<u8>, index: nat) -> ImageMetadataView
    decreases b.len() - index,
{
    if !(index + 9 < b.len()) {
        unknown_image(Some("jpeg"@))
    } else if b[index as int] != 0xff {
        jpeg_scan(b, index + 1)
    } else {
        let marker = b[(index + 1) as int];
        let length: nat = match be16(b, (index + 2) as int) {
            Some(v) => v as nat,
            None => 0,
        };
        if 0xc0 <= marker <= 0xc3 {
            ImageMetadataView {
                height: widen(be16(b, (index + 5) as int)),
                width: widen(be16(b, (index + 7) as int)),
                color_type: Some("jpeg"@),
            }
        } else if length < 2 || index + 2 + length >= b.len() {
            unknown_image(Some("jpeg"@))
        } else {
            jpeg_scan(b, index + 2 + length)
        }
    }
}

/// The number an SVG attribute `attr="..."` starts with, when it has one that fits a `u32`.
pub open spec fn svg_number(text: Seq<char>, attr: Seq<char>) -> Option<u32> {
    let needle = attr + "=\""@;
    match find_seq_from(text, needle, 0) {
        Some(k) => match parse_unsigned_spec(leading_digits(text.skip((k + needle.len()) as int)), u32::MAX as nat) {
            Some(n) => Some(n as u32),
            None => None,
        },
        None => None,
    }
}

/// SVG: the `width` and `height` attributes of the text; always vector.
pub open spec fn svg_spec(b: Seq<u8>) -> ImageMetadataView {
    ImageMetadataView {
        width: svg_number(utf8_lossy(b), "width"@),
        height: svg_number(utf8_lossy(b), "height"@),
        color_type: Some("vector"@),
    }
}

/// Image metadata by MIME type.
pub open spec fn image_spec(mime: Seq<char>, b: Seq<u8>) -> ImageMetadataView {
    if mime == "image/png"@ {
        png_spec(b)
    } else if mime == "image/gif"@ {
        gif_spec(b)
    } else if mime == "image/bmp"@ {
        bmp_spec(b)
    } else if mime == "image/jpeg"@ {
        jpeg_scan(b, 2)
    } else if mime == "image/svg+xml"@ {
        svg_spec(b)
    } else {
        unknown_image(None)
    }
}

fn png_metadata(b: &[u8]) -> (m: ImageMetadata)
    ensures
        m@ == png_spec(b@),
{
    let color_type = if b.len() > 25 {
        let kind = b[25];
        Some(
            if kind == 0 {
                owned("grayscale")
            } else if kind == 2 {
                owned("truecolor")
            } else if kind == 3 {
                owned("indexed")
            } else if kind == 4 {
                owned("grayscale-alpha")
            } else if kind == 6 {
                owned("truecolor-alpha")
            } else {
                owned("unknown")
            },
        )
    } else {
        None
    };
    ImageMetadata { width: read_be_u32(b, 16), height: read_be_u32(b, 20), color_type }
}

fn widened(v: Option<u16>) -> (r: Option<u32>)
    ensures
        r == widen(v),
{
    match v {
        Some(x) => Some(x as u32),
        None => None,
    }
}

fn gif_metadata(b: &[u8]) -> (m: ImageMetadata)
    ensures
        m@ == gif_spec(b@),
{
    ImageMetadata {
        width: widened(read_le_u16(b, 6)),
        height: widened(read_le_u16(b, 8)),
        color_type: Some(owned("indexed")),
    }
}

fn bmp_metadata(b: &[u8]) -> (m: ImageMetadata)
    ensures
        m@ == bmp_spec(b@),
{
    ImageMetadata { width: read_le_u32(b, 18), height: read_le_u32(b, 22), color_type: None }
}

fn jpeg_metadata(b: &[u8]) -> (m: ImageMetadata)
    ensures
        m@ == jpeg_scan(b@, 2),
{
    let mut index: usize = 2;
    while index < b.len() && b.len() - index > 9
        invariant
            jpeg_scan(b@, index as nat) == jpeg_scan(b@, 2),
        decreases b.len() - index,
    {
        if b[index] != 0xff {
            index = index + 1;
        } else {
            let marker = b[index + 1];
            let length: usize = match read_be_u16(b, index + 2) {
                Some(v) => v as usize,
                None => 0,
            };
            if 0xc0 <= marker && marker <= 0xc3 {
                return ImageMetadata {
                    height: widened(read_be_u16(b, index + 5)),
                    width: widened(read_be_u16(b, index + 7)),
                    color_type: Some(owned("jpeg")),
                };
            }
            if length < 2 {
                return ImageMetadata { width: None, height: None, color_type: Some(owned("jpeg")) };
            }
            if b.len() - index <= 2 + length {
                return ImageMetadata { width: None, height: None, color_type: Some(owned("jpeg")) };
            }
            index = index + 2 + length;
        }
    }
    ImageMetadata { width: None, height: None, color_type: Some(owned("jpeg")) }
}

fn svg_attribute(text: &Vec<char>, attr: &str) -> (r: Option<u32>)
    ensures
        r == svg_number(text@, attr@),
{
    let mut needle = owned(attr);
    push_str(&mut needle, "=\"");
    let needle_chars = chars_of(needle.as_str());
    match find_chars(text, &needle_chars) {
        Some(k) => {
            let digits = leading_digits_from(text, k + needle_chars.len());
            match parse_unsigned(&digits, 0xffff_ffff) {
                Some(n) => Some(n as u32),
                None => None,
            }
        },
        None => None,
    }
}

fn svg_metadata(b: &[u8]) -> (m: ImageMetadata)
    ensures
        m@ == svg_spec(b@),
{
    let text = lossy_text(b);
    let chars = chars_of(text.as_str());
    ImageMetadata {
        width: svg_attribute(&chars, "width"),
        height: svg_attribute(&chars, "height"),
        color_type: Some(owned("vector")),
    }
}

/// Extracts image metadata from known image headers.
pub fn extract_image_metadata(mime_type: &str, bytes: &[u8]) -> (m: ImageMetadata)
    ensures
        m@ == image_spec(mime_type@, bytes@),
{
    if crate::text::eq_str(mime_type, "image/png") {
        png_metadata(bytes)
    } else if crate::text::eq_str(mime_type, "image/gif") {
        gif_metadata(bytes)
    } else if crate::text::eq_str(mime_type, "image/bmp") {
        bmp_metadata(bytes)
    } else if crate::text::eq_str(mime_type, "image/jpeg") {
        jpeg_metadata(bytes)
    } else if crate::text::eq_str(mime_type, "image/svg+xml") {
        svg_metadata(bytes)
    } else {
        ImageMetadata { width: None, height: None, color_type: None }
    }
}

/// The `data` chunk marker.
pub open spec fn data_marker() -> Seq<u8> {
    seq![0x64u8, 0x61u8, 0x74u8, 0x61u8]
}

/// The size of the first `data` chunk: the little-endian `u32` after the marker.
pub open spec fn data_chunk_size(b: Seq<u8>) -> Option<u32> {
    match find_from(b, data_marker(), 0) {
        Some(p) => le32(b, (p + 4) as int),
        None => None,
    }
}

/// WAV: channels, sample rate and byte rate from the format chunk; the duration from the
/// data chunk size and the byte rate; the bitrate is eight times the byte rate, saturating.
pub open spec fn wav_spec(b: Seq<u8>) -> AudioMetadata {
    let byte_rate = le32(b, 28);
    AudioMetadata {
        duration_ms: match (data_chunk_size(b), byte_rate) {
            (Some(size), Some(rate)) => if rate > 0 {
                Some(((size as nat * 1000) / rate as nat) as u64)
            } else {
                None
            },
            _ => None,
        },
        bitrate: match byte_rate {
            Some(rate) => Some(if rate as nat * 8 > u32::MAX { u32::MAX } else { (rate * 8) as u32 }),
            None => None,
        },
        channels: le16(b, 22),
        sample_rate: le32(b, 24),
    }
}

/// Audio metadata by MIME type: only WAV headers are read.
pub open spec fn audio_spec(mime: Seq<char>, b: Seq<u8>) -> AudioMetadata {
    if mime == "audio/wav"@ {
        wav_spec(b)
    } else {
        AudioMetadata { duration_ms: None, bitrate: None, channels: None, sample_rate: None }
    }
}

fn find_data_chunk_size(b: &[u8]) -> (r: Option<u32>)
    ensures
        r == data_chunk_size(b@),
{
    let marker: [u8; 4] = [0x64u8, 0x61u8, 0x74u8, 0x61u8];
    assert(marker@ == data_marker());
    match find_bytes(b, &marker) {
        Some(p) => if p <= usize::MAX - 4 {
            read_le_u32(b, p + 4)
        } else {
            None
        },
        None => None,
    }
}

fn wav_metadata(b: &[u8]) -> (m: AudioMetadata)
    ensures
        m == wav_spec(b@),
{
    let channels = read_le_u16(b, 22);
    let sample_rate = read_le_u32(b, 24);
    let byte_rate = read_le_u32(b, 28);
    let data_size = find_data_chunk_size(b);
    let duration_ms = match (data_size, byte_rate) {
        (Some(size), Some(rate)) => if rate > 0 {
            assert(size as u64 * 1000 <= u64::MAX) by (nonlinear_arith)
                requires size <= u32::MAX;
            Some((size as u64 * 1000) / (rate as u64))
        } else {
            None
        },
        _ => None,
    };
    let bitrate = match byte_rate {
        Some(rate) => Some(if rate > u32::MAX / 8 { u32::MAX } else { rate * 8 }),
        None => None,
    };
    AudioMetadata { duration_ms, bitrate, channels, sample_rate }
}

/// Extracts lightweight audio metadata from headers.
pub fn extract_audio_metadata(mime_type: &str, bytes: &[u8]) -> (m: AudioMetadata)
    ensures
        m == audio_spec(mime_type@, bytes@),
{
    if crate::text::eq_str(mime_type, "audio/wav") {
        wav_metadata(bytes)
    } else {
        AudioMetadata { duration_ms: None, bitrate: None, channels: None, sample_rate: None }
    }
}

/// The codec that the brands of an MP4 file name: H264 when `avc1` occurs anywhere, else
/// H265 when `hvc1` or `hev1` does.
pub open spec fn codec_spec(b: Seq<u8>) -> Option<Seq<char>> {
    if find_from(b, seq![0x61u8, 0x76u8, 0x63u8, 0x31u8], 0) is Some {
        Some("H264"@)
    } else if find_from(b, seq![0x68u8, 0x76u8, 0x63u8, 0x31u8], 0) is Some || find_from(
        b,
        seq![0x68u8, 0x65u8, 0x76u8, 0x31u8],
        0,
    ) is Some {
        Some("H265"@)
    } else {
        None
    }
}

/// Video metadata by MIME type: MP4 and QuickTime files give their codec.
pub open spec fn video_spec(mime: Seq<char>, b: Seq<u8>) -> VideoMetadataView {
    VideoMetadataView {
        width: None,
        height: None,
        duration_ms: None,
        codec: if mime == "video/mp4"@ || mime == "video/quicktime"@ { codec_spec(b) } else { None },
        frame_rate_centi: None,
    }
}

fn codec_from_brands(b: &[u8]) -> (r: Option<String>)
    ensures
        crate::config::schema::opt_view(r) == codec_spec(b@),
{
    let avc1: [u8; 4] = [0x61u8, 0x76u8, 0x63u8, 0x31u8];
    let hvc1: [u8; 4] = [0x68u8, 0x76u8, 0x63u8, 0x31u8];
    let hev1: [u8; 4] = [0x68u8, 0x65u8, 0x76u8, 0x31u8];
    assert(avc1@ == seq![0x61u8, 0x76u8, 0x63u8, 0x31u8]);
    assert(hvc1@ == seq![0x68u8, 0x76u8, 0x63u8, 0x31u8]);
    assert(hev1@ == seq![0x68u8, 0x65u8, 0x76u8, 0x31u8]);
    if find_bytes(b, &avc1).is_some() {
        return Some(owned("H264"));
    }
    if find_bytes(b, &hvc1).is_some() || find_bytes(b, &hev1).is_some() {
        return Some(owned("H265"));
    }
    None
}

/// Extracts lightweight video metadata from headers.
pub fn extract_video_metadata(mime_type: &str, bytes: &[u8]) -> (m: VideoMetadata)
    ensures
        m@ == video_spec(mime_type@, bytes@),
{
    let codec = if crate::text::eq_str(mime_type, "video/mp4") || crate::text::eq_str(mime_type, "video/quicktime") {
        codec_from_brands(bytes)
    } else {
        None
    };
    VideoMetadata { width: None, height: None, duration_ms: None, codec, frame_rate_centi: None }
}

/// The media summary of a file: its MIME type and family, its size, and the metadata that
/// the family's extractor reads.
pub open spec fn media_spec(path: Seq<char>, b: Seq<u8>) -> Option<MediaSummaryView> {
    match mime_spec(path, b) {
        Some((mime, kind)) => Some(MediaSummaryView {
            kind,
            mime_type: mime,
            file_size: b.len() as u64,
            details: match kind {
                MediaKind::Image => MediaDetailsView::Image(image_spec(mime, b)),
                MediaKind::Audio => MediaDetailsView::Audio(audio_spec(mime, b)),
                MediaKind::Video => MediaDetailsView::Video(video_spec(mime, b)),
            },
        }),
        None => None,
    }
}

/// Detects and extracts media metadata from a path and bytes.
pub fn detect_media(path: &str, bytes: &[u8]) -> (r: Option<MediaSummary>)
    ensures
        crate::media::metadata::summary_view(r) == media_spec(path@, bytes@),
{
    let (mime_type, kind) = match detect_mime(path, bytes) {
        Some(x) => x,
        None => {
            return None;
        },
    };
    let details = match kind {
        MediaKind::Image => MediaDetails::Image(extract_image_metadata(mime_type, bytes)),
        MediaKind::Audio => MediaDetails::Audio(extract_audio_metadata(mime_type, bytes)),
        MediaKind::Video => MediaDetails::Video(extract_video_metadata(mime_type, bytes)),
    };
    Some(MediaSummary { kind, mime_type: owned(mime_type), file_size: bytes.len() as u64, details })
}

/// The dimensions an image header gives: a BMP stores its width and height as little-endian
/// 32-bit numbers at bytes 18 and 22, a PNG as big-endian 32-bit numbers at bytes 16 and 20,
/// and a GIF as little-endian 16-bit numbers at bytes 6 and 8.
pub proof fn law_image_dimensions(b: Seq<u8>)
    ensures
        b.len() >= 26 ==> {
            let m = image_spec("image/bmp"@, b);
            &&& m.width matches Some(w) && w as int == b[18] + b[19] * 256 + b[20] * 65536 + b[21] * 16777216
            &&& m.height matches Some(h) && h as int == b[22] + b[23] * 256 + b[24] * 65536 + b[25] * 16777216
        },
        b.len() >= 24 ==> {
            let m = image_spec("image/png"@, b);
            &&& m.width matches Some(w) && w as int == b[16] * 16777216 + b[17] * 65536 + b[18] * 256 + b[19]
            &&& m.height matches Some(h) && h as int == b[20] * 16777216 + b[21] * 65536 + b[22] * 256 + b[23]
        },
        b.len() >= 10 ==> {
            let m = image_spec("image/gif"@, b);
            &&& m.width matches Some(w) && w as int == b[6] + b[7] * 256
            &&& m.height matches Some(h) && h as int == b[8] + b[9] * 256
        },
{
    reveal_strlit("image/png");
    reveal_strlit("image/gif");
    reveal_strlit("image/bmp");
    assert("image/bmp"@[6] != "image/png"@[6] && "image/bmp"@[6] != "image/gif"@[6]);
    assert("image/gif"@[6] != "image/png"@[6]);
    assert("image/bmp"@ != "image/png"@ && "image/bmp"@ != "image/gif"@ && "image/gif"@ != "image/png"@);
    if b.len() >= 10 {
        let w = b[6] + b[7] * 256;
        assert(0 <= w < 65536);
        assert(le16(b, 6) == Some(w as u16));
    }
}

} // verus!
