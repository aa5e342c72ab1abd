use tune::library::{audio_quality_snapshot, classify_audio_quality, clean_metadata_value, AudioQualityRating};

#[test]
fn metadata_value_cleaning_trims_and_drops_empty() {
    assert_eq!(
        clean_metadata_value("  hello  "),
        Some(String::from("hello"))
    );
    assert_eq!(clean_metadata_value("   \t  "), None);
}

#[test]
fn quality_rating_thresholds_match_issue_rules() {
    assert_eq!(
        classify_audio_quality(None, false),
        AudioQualityRating::Unavailable
    );
    assert_eq!(
        classify_audio_quality(Some(96), false),
        AudioQualityRating::Red
    );
    assert_eq!(
        classify_audio_quality(Some(192), false),
        AudioQualityRating::Yellow
    );
    assert_eq!(
        classify_audio_quality(Some(256), false),
        AudioQualityRating::Green
    );
    assert_eq!(
        classify_audio_quality(Some(320), false),
        AudioQualityRating::Gold
    );
    assert_eq!(
        classify_audio_quality(Some(1411), true),
        AudioQualityRating::Gold
    );
}

#[test]
fn unreadable_file_summary_shows_unavailable_spectrograph() {
    let snapshot = audio_quality_snapshot(Some("mp3"), None, None, None, None, None);
    assert_eq!(snapshot.format_label, "MP3");
    assert_eq!(snapshot.rating, AudioQualityRating::Unavailable);
    assert_eq!(snapshot.bitrate_kbps, None);
    assert_eq!(snapshot.duration_seconds, None);
    assert_eq!(snapshot.spectrograph_rows, vec![String::from("(spectrograph unavailable)")]);
    let unknown = audio_quality_snapshot(None, None, None, None, None, Some(vec![String::from("row")]));
    assert_eq!(unknown.format_label, "Unknown");
    assert_eq!(unknown.spectrograph_rows, vec![String::from("row")]);
}
