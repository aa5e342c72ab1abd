use tune::config::{
    lyrics_path_for_track, sanitize_display_text, sanitize_user_folder_path,
    strip_windows_verbatim_prefix,
};

#[test]
fn strips_windows_verbatim_prefix() {
    let cleaned = strip_windows_verbatim_prefix(r"\\?\E:\LOCALMUSIC\a.mp3");
    assert_eq!(cleaned, String::from(r"E:\LOCALMUSIC\a.mp3"));
}

#[test]
fn sanitize_user_folder_path_strips_leading_bullet_symbol() {
    let cleaned = sanitize_user_folder_path("• E:\\LOCALMUSIC");
    assert_eq!(cleaned, String::from(r"E:\LOCALMUSIC"));
}

#[test]
fn sanitize_user_folder_path_strips_leading_bullet_without_space() {
    let cleaned = sanitize_user_folder_path("•E:\\LOCALMUSIC");
    assert_eq!(cleaned, String::from(r"E:\LOCALMUSIC"));
}

#[test]
fn sanitize_display_text_removes_directional_control_chars() {
    let cleaned = sanitize_display_text("A\u{202E}B\u{200B}C");
    assert_eq!(cleaned, "ABC");
}

#[test]
fn sanitize_user_folder_path_preserves_internal_characters() {
    let cleaned = sanitize_user_folder_path("E:\\MUSIC\\4 \u{0007} WOD");
    assert_eq!(cleaned, String::from("E:\\MUSIC\\4 \u{0007} WOD"));
}

#[test]
fn sanitize_user_folder_path_preserves_real_leading_dash_names() {
    let cleaned = sanitize_user_folder_path("-mixes");
    assert_eq!(cleaned, String::from("-mixes"));
}

#[test]
fn sanitize_user_folder_path_strips_bullets_inside_path() {
    let cleaned = sanitize_user_folder_path(r"E:\MUSIC\•Albums\▪Live");
    assert_eq!(cleaned, String::from(r"E:\MUSIC\Albums\Live"));
}

#[test]
fn lyrics_path_for_track_uses_config_lyrics_directory() {
    let path = lyrics_path_for_track("/tmp/tunetui-test", r"D:\Music\Artist\song.mp3", Some("song"));
    assert!(path.contains("tunetui"));
    assert!(path.contains("lyrics"));
    assert!(path.ends_with(".lrc"));
    let filename = path.rsplit('/').next().expect("filename");
    assert!(filename.starts_with("song-"));
}
