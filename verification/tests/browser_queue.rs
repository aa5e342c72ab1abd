use tune::browser::{
    active_lyric_line_for_position, lyrics_move_selection, next_queue_index, normalize_scrub_seconds,
    prev_queue_index, HeaderSection, StatsFilterFocus,
};
use tune::lyrics::LyricLine;
use tune::model::LegacyPlaybackMode;

#[test]
fn queue_steps_follow_each_mode() {
    let order: Vec<usize> = Vec::new();
    assert_eq!(next_queue_index(LegacyPlaybackMode::Loop, 2, 3, &order, 0).0, Some(0));
    assert_eq!(prev_queue_index(LegacyPlaybackMode::Loop, 0, 3, &order, 0).0, Some(2));
    assert_eq!(next_queue_index(LegacyPlaybackMode::Normal, 2, 3, &order, 0).0, None);
    assert_eq!(prev_queue_index(LegacyPlaybackMode::Normal, 0, 3, &order, 0).0, None);
    assert_eq!(next_queue_index(LegacyPlaybackMode::LoopOne, 1, 3, &order, 0).0, Some(1));
}

#[test]
fn shuffle_follows_the_order_from_the_current_track() {
    let order = vec![2usize, 0, 1];
    assert_eq!(next_queue_index(LegacyPlaybackMode::Shuffle, 0, 3, &order, 0), (Some(1), 2));
    assert_eq!(next_queue_index(LegacyPlaybackMode::Shuffle, 1, 3, &order, 2), (Some(2), 0));
    assert_eq!(prev_queue_index(LegacyPlaybackMode::Shuffle, 2, 3, &order, 1), (Some(1), 2));
    assert_eq!(next_queue_index(LegacyPlaybackMode::Shuffle, 0, 0, &Vec::new(), 0), (None, 0));
}

#[test]
fn header_and_stats_labels() {
    assert_eq!(HeaderSection::Library.next(), HeaderSection::Lyrics);
    assert_eq!(HeaderSection::Online.next(), HeaderSection::Library);
    assert_eq!(HeaderSection::Stats.label(), "Stats");
    assert_eq!(StatsFilterFocus::Range(2).label(), "Range");
    assert_eq!(normalize_scrub_seconds(30), 30);
    assert_eq!(normalize_scrub_seconds(7), 5);
}

#[test]
fn lyric_highlight_follows_position() {
    let lines = vec![
        LyricLine { timestamp_ms: Some(1000), text: String::from("a") },
        LyricLine { timestamp_ms: None, text: String::from("note") },
        LyricLine { timestamp_ms: Some(3000), text: String::from("b") },
        LyricLine { timestamp_ms: Some(5000), text: String::from("c") },
    ];
    assert_eq!(active_lyric_line_for_position(&lines, 500), None);
    assert_eq!(active_lyric_line_for_position(&lines, 1000), Some(0));
    assert_eq!(active_lyric_line_for_position(&lines, 4000), Some(2));
    assert_eq!(active_lyric_line_for_position(&lines, 9000), Some(3));
    assert_eq!(lyrics_move_selection(3, 4, true), 3);
    assert_eq!(lyrics_move_selection(0, 4, false), 0);
    assert_eq!(lyrics_move_selection(5, 0, true), 0);
}
