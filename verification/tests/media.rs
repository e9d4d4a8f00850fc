use rumon::media::bytes::find_bytes;
use rumon::media::extract::{detect_media, extract_audio_metadata, extract_image_metadata, extract_video_metadata};
use rumon::media::metadata::{ImageMetadata, MediaDetails, MediaKind, MediaSummary, compare_metadata};
use rumon::media::mime::detect_mime;

#[test]
fn extracts_wav_channels_and_rate() {
    let mut bytes = vec![0; 44];
    bytes[0..4].copy_from_slice(b"RIFF");
    bytes[8..12].copy_from_slice(b"WAVE");
    bytes[22..24].copy_from_slice(&2_u16.to_le_bytes());
    bytes[24..28].copy_from_slice(&44_100_u32.to_le_bytes());
    bytes[28..32].copy_from_slice(&176_400_u32.to_le_bytes());
    bytes[36..40].copy_from_slice(b"data");
    bytes[40..44].copy_from_slice(&176_400_u32.to_le_bytes());

    let metadata = extract_audio_metadata("audio/wav", &bytes);

    assert_eq!(metadata.channels, Some(2));
    assert_eq!(metadata.sample_rate, Some(44_100));
    assert_eq!(metadata.duration_ms, Some(1000));
    assert_eq!(metadata.bitrate, Some(1_411_200));
}

#[test]
fn detects_png_from_magic_bytes() {
    let bytes = b"\x89PNG\r\n\x1a\n";
    let summary = detect_media("file.bin", bytes).expect("png should be detected");

    assert_eq!(summary.kind, MediaKind::Image);
    assert_eq!(summary.mime_type, "image/png");
}

#[test]
fn extracts_png_dimensions() {
    let mut bytes = b"\x89PNG\r\n\x1a\nxxxxIHDR".to_vec();
    bytes.extend_from_slice(&512_u32.to_be_bytes());
    bytes.extend_from_slice(&256_u32.to_be_bytes());
    bytes.extend_from_slice(&[8, 6]);

    let metadata = extract_image_metadata("image/png", &bytes);

    assert_eq!(metadata.width, Some(512));
    assert_eq!(metadata.height, Some(256));
    assert_eq!(metadata.color_type, Some("truecolor-alpha".to_string()));
}

#[test]
fn summary_records_kind() {
    let summary = MediaSummary {
        kind: MediaKind::Image,
        mime_type: "image/png".to_string(),
        file_size: 42,
        details: MediaDetails::Image(ImageMetadata { width: Some(1), height: Some(1), color_type: None }),
    };

    assert_eq!(summary.kind, MediaKind::Image);
    assert_eq!(summary.display_lines(), vec!["image", "image/png", "42 bytes", "1x1"]);
}

#[test]
fn comparison_reports_size_change() {
    let previous = MediaSummary {
        kind: MediaKind::Image,
        mime_type: "image/png".to_string(),
        file_size: 42,
        details: MediaDetails::Image(ImageMetadata { width: None, height: None, color_type: None }),
    };
    let current = MediaSummary { file_size: 50, ..previous.clone() };

    let change = compare_metadata(Some(previous), Some(current));

    assert!(change.file_size_changed);
    assert_eq!(change.summary_lines, vec!["image/png -> image/png", "42 bytes -> 50 bytes"]);
}

#[test]
fn comparison_of_creation_and_deletion() {
    let summary = MediaSummary {
        kind: MediaKind::Audio,
        mime_type: "audio/wav".to_string(),
        file_size: 7,
        details: MediaDetails::Audio(extract_audio_metadata("audio/ogg", b"")),
    };
    let created = compare_metadata(None, Some(summary.clone()));
    assert_eq!(created.summary_lines, vec!["created audio/wav", "7 bytes"]);
    let deleted = compare_metadata(Some(summary), None);
    assert_eq!(deleted.summary_lines, vec!["deleted audio/wav"]);
    assert!(deleted.file_size_changed);
    assert!(!compare_metadata(None, None).file_size_changed);
}

#[test]
fn mime_from_magic_then_extension() {
    assert_eq!(detect_mime("a.txt", b"GIF89a...."), Some(("image/gif", MediaKind::Image)));
    assert_eq!(detect_mime("clip.mkv", b"xx"), Some(("video/x-matroska", MediaKind::Video)));
    assert_eq!(detect_mime("song.JPG", b"xx"), None);
    assert_eq!(detect_mime("x", b"\0\0\0\0ftypisom"), Some(("video/mp4", MediaKind::Video)));
    assert_eq!(detect_mime("x", b"RIFF\0\0\0\0WEBPVP8"), Some(("image/webp", MediaKind::Image)));
}

#[test]
fn image_headers() {
    let gif = extract_image_metadata("image/gif", b"GIF89a\x0a\x00\x14\x00");
    assert_eq!((gif.width, gif.height), (Some(10), Some(20)));
    let svg = extract_image_metadata("image/svg+xml", b"<svg width=\"120px\" height=\"x\">");
    assert_eq!((svg.width, svg.height), (Some(120), None));
    let mut jpeg = vec![0xff, 0xd8, 0xff, 0xe0, 0x00, 0x04, 0x00, 0x00];
    jpeg.extend_from_slice(&[0xff, 0xc0, 0x00, 0x11, 0x08, 0x01, 0x00, 0x02, 0x00, 0x03, 0x00]);
    let meta = extract_image_metadata("image/jpeg", &jpeg);
    assert_eq!((meta.width, meta.height), (Some(512), Some(256)));
    let bmp = extract_image_metadata("image/bmp", &[0u8; 10]);
    assert_eq!(bmp.width, None);
}

#[test]
fn video_codec_from_brands() {
    assert_eq!(extract_video_metadata("video/mp4", b"....ftypisomavc1").codec, Some("H264".to_string()));
    assert_eq!(extract_video_metadata("video/quicktime", b"hev1").codec, Some("H265".to_string()));
    assert_eq!(extract_video_metadata("video/webm", b"avc1").codec, None);
}

#[test]
fn find_bytes_takes_patterns_of_any_length() {
    assert_eq!(find_bytes(b"xxdataxx", b"data"), Some(2));
    assert_eq!(find_bytes(b"abcabc", b"ca"), Some(2));
    assert_eq!(find_bytes(b"abc", b"abcd"), None);
    assert_eq!(find_bytes(b"abc", b""), Some(0));
    assert_eq!(find_bytes(b"", b""), None);
}
