use tune::lyrics::{build_seeded_from_lines, parse_lrc, to_lrc, LyricsTimingPrecision};

#[test]
fn parse_lrc_handles_line_timing() {
    let doc = parse_lrc("[00:01.00]hello\n[00:02.50]world\n");
    assert_eq!(doc.precision, LyricsTimingPrecision::Line);
    assert_eq!(doc.lines.len(), 2);
    assert_eq!(doc.lines[0].timestamp_ms, Some(1000));
    assert_eq!(doc.lines[1].timestamp_ms, Some(2500));
}

#[test]
fn parse_lrc_detects_word_tags() {
    let doc = parse_lrc("[00:01.00]<00:01.20>hel<00:01.50>lo\n");
    assert_eq!(doc.precision, LyricsTimingPrecision::Word);
    assert_eq!(doc.lines[0].text, "hello");
}

#[test]
fn seeded_import_assigns_fixed_intervals() {
    let doc = build_seeded_from_lines(vec!["a".into(), "b".into(), "c".into()], 3);
    assert_eq!(doc.lines[0].timestamp_ms, Some(0));
    assert_eq!(doc.lines[1].timestamp_ms, Some(3000));
    assert_eq!(doc.lines[2].timestamp_ms, Some(6000));
}

#[test]
fn lrc_round_trip_keeps_timed_and_untimed_lines() {
    let doc = parse_lrc("[00:01.00]first\n[00:02.50]second\nplain words\n");
    let again = parse_lrc(&to_lrc(&doc));
    assert_eq!(pairs(&again.lines), pairs(&doc.lines));
    assert_eq!(again.precision, LyricsTimingPrecision::Line);
    assert_eq!(again.lines[2].timestamp_ms, None);
    assert_eq!(again.lines[2].text, "plain words");

    let untimed = parse_lrc("only\ntext\n");
    let back = parse_lrc(&to_lrc(&untimed));
    assert_eq!(pairs(&back.lines), pairs(&untimed.lines));
    assert_eq!(back.precision, LyricsTimingPrecision::Untimed);
}

fn pairs(lines: &[tune::lyrics::LyricLine]) -> Vec<(Option<u32>, String)> {
    lines.iter().map(|l| (l.timestamp_ms, l.text.clone())).collect()
}
