use tune::lyrics::{
    choose_embedded_lyrics, load_lyrics_from_sources, looks_like_lrc, parse_lrc, to_lrc,
    LyricLine, LyricsDocument, LyricsSource, LyricsTimingPrecision,
};

fn line(ts: Option<u32>, text: &str) -> LyricLine {
    LyricLine { timestamp_ms: ts, text: String::from(text) }
}

#[test]
fn sidecar_lyrics_win_over_embedded_ones() {
    let doc = load_lyrics_from_sources(
        Some("[00:01.00]from sidecar\n"),
        Some("[00:02.00]beside the track\n"),
        Some("[00:03.00]embedded\n"),
    )
    .expect("lyrics");
    assert_eq!(doc.source, LyricsSource::Sidecar);
    assert_eq!(doc.lines[0].text, "from sidecar");

    let doc = load_lyrics_from_sources(None, Some("[00:02.00]beside the track\n"), Some("x"))
        .expect("lyrics");
    assert_eq!(doc.source, LyricsSource::Sidecar);
    assert_eq!(doc.lines[0].timestamp_ms, Some(2000));

    let doc = load_lyrics_from_sources(None, None, Some("first\n\nsecond  \n")).expect("lyrics");
    assert_eq!(doc.source, LyricsSource::Embedded);
    assert_eq!(doc.precision, LyricsTimingPrecision::Untimed);
    assert_eq!(doc.lines.len(), 2);
    assert_eq!(doc.lines[1].text, "second");

    assert!(load_lyrics_from_sources(None, None, None).is_none());
}

#[test]
fn lrc_detection_ignores_metadata_headers() {
    assert!(looks_like_lrc("  [00:12.50]line"));
    assert!(!looks_like_lrc("[ar:Artist]\n[ti:Title]\nplain"));
    assert!(!looks_like_lrc("no timestamps here"));
}

#[test]
fn embedded_lyrics_prefer_frames_then_best_tag() {
    assert_eq!(
        choose_embedded_lyrics(Some(String::from("frame text")), &vec![]),
        Some(String::from("frame text"))
    );
    let tags = vec![
        (String::from("TITLE"), String::from("Song")),
        (String::from("LYRICS"), String::from("  plain words  ")),
        (String::from("SYLT"), String::from("synced-ish")),
        (String::from("unsyncedlyrics"), String::from("[00:01.00]timed")),
        (String::from("LYRICS"), String::from("   ")),
    ];
    assert_eq!(choose_embedded_lyrics(None, &tags), Some(String::from("[00:01.00]timed")));
    let weaker = vec![
        (String::from("LYRICS"), String::from(" plain ")),
        (String::from("SYLT"), String::from("synced-ish")),
    ];
    assert_eq!(choose_embedded_lyrics(None, &weaker), Some(String::from("synced-ish")));
    assert_eq!(choose_embedded_lyrics(None, &vec![]), None);
}

#[test]
fn written_lrc_reads_back_unchanged() {
    let doc = LyricsDocument {
        lines: vec![line(Some(0), "intro"), line(Some(61_230), "verse"), line(Some(3_600_000), "")],
        source: LyricsSource::Created,
        precision: LyricsTimingPrecision::Line,
    };
    let text = to_lrc(&doc);
    assert_eq!(text, "[00:00.00]intro\n[01:01.23]verse\n[60:00.00]\n");
    let back = parse_lrc(&text);
    assert_eq!(back.precision, LyricsTimingPrecision::Line);
    assert_eq!(back.lines.len(), 3);
    for (a, b) in back.lines.iter().zip(doc.lines.iter()) {
        assert_eq!(a.timestamp_ms, b.timestamp_ms);
        assert_eq!(a.text, b.text);
    }
}

#[test]
fn parse_lrc_sorts_and_repeats_multi_stamp_lines() {
    let doc = parse_lrc("[ti:Title]\n[00:05.00][00:01.00]chorus\r\nuntimed\n[00:03]mid\n");
    let got: Vec<(Option<u32>, &str)> =
        doc.lines.iter().map(|l| (l.timestamp_ms, l.text.as_str())).collect();
    assert_eq!(
        got,
        vec![(Some(1000), "chorus"), (Some(3000), "mid"), (Some(5000), "chorus"), (None, "untimed")]
    );
}
