use tune::editor::LyricsEditor;
use tune::lyrics::{
    load_lyrics_from_sources, select_uslt_lyrics, LyricLine, LyricsDocument, LyricsSource,
    LyricsTimingPrecision,
};
use tune::online_net::{stream_cache_file_name, StreamPayloadFormat};
use tune::paths::{extension_of, file_stem_of};

/// Builds a raw ID3v2.3 USLT frame with the given encoding byte, 3-byte
/// language code, description bytes, and already-encoded lyric text.
fn uslt_frame(encoding: u8, language: &[u8; 3], description: &[u8], text: &[u8]) -> Vec<u8> {
    let mut payload = Vec::new();
    payload.push(encoding);
    payload.extend_from_slice(language);
    payload.extend_from_slice(description);
    match encoding {
        1 | 2 => payload.extend_from_slice(&[0, 0]),
        _ => payload.push(0),
    }
    payload.extend_from_slice(text);

    let mut frame = Vec::new();
    frame.extend_from_slice(b"USLT");
    frame.extend_from_slice(&(payload.len() as u32).to_be_bytes());
    frame.extend_from_slice(&[0u8, 0]);
    frame.extend_from_slice(&payload);
    frame
}

/// Wraps raw ID3v2.3 frames in a tag header followed by two minimal MPEG frames.
fn mp3_with_id3v2(frames: &[Vec<u8>]) -> Vec<u8> {
    let mut body: Vec<u8> = Vec::new();
    for frame in frames {
        body.extend_from_slice(frame);
    }
    let size = body.len() as u32;
    let mut out = Vec::new();
    out.extend_from_slice(b"ID3");
    out.push(3);
    out.push(0);
    out.push(0);
    out.push(((size >> 21) & 0x7F) as u8);
    out.push(((size >> 14) & 0x7F) as u8);
    out.push(((size >> 7) & 0x7F) as u8);
    out.push((size & 0x7F) as u8);
    out.extend_from_slice(&body);
    for _ in 0..2 {
        out.extend_from_slice(&[0xFF, 0xFB, 0x90, 0x00]);
        out.resize(out.len() + 417 - 4, 0);
    }
    out
}

fn utf16le_with_bom(text: &str) -> Vec<u8> {
    let mut out = vec![0xFF, 0xFE];
    for unit in text.encode_utf16() {
        out.extend_from_slice(&unit.to_le_bytes());
    }
    out
}

/// The lyrics a track file with these frames loads, when it has no sidecar file.
fn load_from_frames(frames: &[Vec<u8>]) -> Option<LyricsDocument> {
    let bytes = mp3_with_id3v2(frames);
    let embedded = select_uslt_lyrics(&bytes);
    load_lyrics_from_sources(None, None, embedded.as_deref())
}

#[test]
fn embedded_uslt_utf8_lrc_loads_with_line_timing() {
    let frames = [uslt_frame(
        3,
        b"eng",
        b"",
        b"[00:01.00]hello\n[00:02.50]world\n",
    )];

    let doc = load_from_frames(&frames).expect("embedded lyrics present");
    assert_eq!(doc.source, LyricsSource::Embedded);
    assert_eq!(doc.precision, LyricsTimingPrecision::Line);
    assert_eq!(doc.lines.len(), 2);
    assert_eq!(doc.lines[0].timestamp_ms, Some(1000));
    assert_eq!(doc.lines[0].text, "hello");
    assert_eq!(doc.lines[1].text, "world");
}

#[test]
fn embedded_uslt_prefers_english_over_first_frame() {
    let frames = [
        uslt_frame(3, b"fra", b"", b"[00:01.00]bonjour\n"),
        uslt_frame(3, b"eng", b"", b"[00:01.00]hello\n"),
    ];

    let doc = load_from_frames(&frames).expect("embedded lyrics present");
    assert_eq!(doc.source, LyricsSource::Embedded);
    assert_eq!(doc.lines.len(), 1);
    assert_eq!(doc.lines[0].text, "hello");
}

#[test]
fn embedded_uslt_decodes_latin1_text() {
    let frames = [uslt_frame(0, b"eng", b"", b"[00:01.00]caf\xe9\n")];

    let doc = load_from_frames(&frames).expect("embedded lyrics present");
    assert_eq!(doc.lines.len(), 1);
    assert_eq!(doc.lines[0].text, "caf\u{e9}");
}

#[test]
fn embedded_uslt_decodes_utf16_text() {
    let text = utf16le_with_bom("[00:01.00]h\u{e9}llo\n");
    let frames = [uslt_frame(1, b"eng", b"", &text)];

    let doc = load_from_frames(&frames).expect("embedded lyrics present");
    assert_eq!(doc.lines.len(), 1);
    assert_eq!(doc.lines[0].text, "h\u{e9}llo");
}

#[test]
fn embedded_uslt_skips_empty_frames() {
    let frames = [
        uslt_frame(3, b"eng", b"", b""),
        uslt_frame(3, b"eng", b"", b"[00:03.00]third\n"),
    ];

    let doc = load_from_frames(&frames).expect("embedded lyrics present");
    assert_eq!(doc.lines.len(), 1);
    assert_eq!(doc.lines[0].text, "third");
}

#[test]
fn embedded_plain_text_uslt_loads_as_untimed() {
    let frames = [uslt_frame(3, b"eng", b"", b"just some words\nmore words\n")];

    let doc = load_from_frames(&frames).expect("embedded lyrics present");
    assert_eq!(doc.source, LyricsSource::Embedded);
    assert_eq!(doc.precision, LyricsTimingPrecision::Untimed);
    assert_eq!(doc.lines.len(), 2);
    assert_eq!(doc.lines[0].timestamp_ms, None);
}

#[test]
fn stream_cache_path_uses_wav_extension_for_balanced_payload() {
    let path: Vec<char> = "artist/song.flac".chars().collect();
    let stem: Option<String> = file_stem_of(&path).map(|s| s.into_iter().collect());
    let ext: Option<String> = extension_of(&path).map(|s| s.into_iter().collect());
    let name = stream_cache_file_name(
        stem.as_deref(),
        ext.as_deref(),
        StreamPayloadFormat::BalancedWavMono24k,
        42,
    );
    let name_chars: Vec<char> = name.chars().collect();
    let cache_ext: Option<String> = extension_of(&name_chars).map(|s| s.into_iter().collect());
    assert_eq!(cache_ext.as_deref(), Some("wav"));
    assert_eq!(name, "song_42.wav");
}

// ---------------------------------------------------------------------------
// Editing lyrics
// ---------------------------------------------------------------------------

fn editor_with(lines: &[(Option<u32>, &str)]) -> LyricsEditor {
    LyricsEditor {
        lyrics: Some(LyricsDocument {
            lines: lines
                .iter()
                .map(|(ts, text)| LyricLine {
                    timestamp_ms: *ts,
                    text: String::from(*text),
                })
                .collect(),
            source: LyricsSource::Created,
            precision: LyricsTimingPrecision::Untimed,
        }),
        selected_line: 0,
        dirty: false,
    }
}

#[test]
fn editor_types_deletes_and_splits_lines() {
    let mut editor = editor_with(&[(Some(1000), "ab")]);
    editor.insert_char('c');
    editor.backspace();
    editor.backspace();
    assert_eq!(editor.lyrics.as_ref().unwrap().lines[0].text, "a");
    editor.insert_line_after();
    assert_eq!(editor.selected_line, 1);
    let lines = &editor.lyrics.as_ref().unwrap().lines;
    assert_eq!(lines.len(), 2);
    assert_eq!(lines[1].timestamp_ms, Some(1000));
    assert_eq!(lines[1].text, "");
    editor.delete_selected_line();
    assert_eq!(editor.selected_line, 0);
    assert_eq!(editor.lyrics.as_ref().unwrap().lines.len(), 1);
    assert!(editor.dirty);
}

#[test]
fn editor_stamps_and_reorders_by_time() {
    let mut editor = editor_with(&[(Some(1000), "one"), (Some(5000), "two"), (None, "three")]);
    editor.selected_line = 2;
    assert_eq!(
        editor.stamp_selected_line(None),
        Some("Cannot stamp timestamp without playback position")
    );
    assert_eq!(editor.stamp_selected_line(Some(3000)), None);
    let texts: Vec<&str> = editor
        .lyrics
        .as_ref()
        .unwrap()
        .lines
        .iter()
        .map(|l| l.text.as_str())
        .collect();
    assert_eq!(texts, vec!["one", "three", "two"]);
    assert_eq!(editor.selected_line, 1);
    editor.sync_highlight_to_position(Some(6000));
    assert_eq!(editor.selected_line, 2);
    editor.move_selection(true);
    assert_eq!(editor.selected_line, 2);
    editor.move_selection(false);
    assert_eq!(editor.selected_line, 1);
}
