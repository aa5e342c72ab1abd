use tune::model::Theme;
use tune::online::{OnlineSession, Participant};
use tune::panel::{
    append_invite_char, append_invite_input, append_password_input, concise_audio_error,
    crossfade_label, duration_to_recorded_seconds, next_crossfade_seconds,
    next_online_sync_correction_threshold_ms, next_scrub_seconds, next_stats_top_songs_count,
    online_authority_nickname, provider_track_id_for_path, root_action_index, root_action_label,
    root_action_matches_query, root_selected_for_action, root_visible_actions, same_track_restarted,
    scrub_label, theme_label, theme_options, update_panel_selection, update_recent_root_actions,
    HostInviteModalButton, JoinPromptButton, RootActionId,
};

const SEC: u128 = 1_000_000_000;

#[test]
fn root_menu_search_and_selection() {
    assert_eq!(root_action_index(RootActionId::ClosePanel), 18);
    assert_eq!(root_action_label(RootActionId::Theme), "Theme");
    assert!(root_action_matches_query(RootActionId::RescanLibrary, "scan"));
    assert!(!root_action_matches_query(RootActionId::RescanLibrary, "theme"));
    let visible = root_visible_actions("  PLAYLIST ", &[RootActionId::Theme, RootActionId::CreatePlaylist]);
    assert_eq!(visible[0].action, RootActionId::CreatePlaylist);
    assert_eq!(visible[0].label, "Recent: Create playlist");
    assert!(visible.iter().all(|row| row.action != RootActionId::Theme));
    assert_eq!(visible.iter().filter(|row| row.action == RootActionId::CreatePlaylist).count(), 1);
    assert_eq!(root_selected_for_action(RootActionId::AddDirectory, &[RootActionId::Theme]), 1);
    assert_eq!(root_selected_for_action(RootActionId::Theme, &[RootActionId::Theme]), 0);
}

#[test]
fn closing_the_panel_is_not_recorded() {
    let mut recent = vec![RootActionId::Theme];
    update_recent_root_actions(&mut recent, RootActionId::ClosePanel);
    assert_eq!(recent, vec![RootActionId::Theme]);
}

#[test]
fn settings_cycle_through_their_choices() {
    assert_eq!(next_crossfade_seconds(0), 2);
    assert_eq!(next_crossfade_seconds(10), 0);
    assert_eq!(next_crossfade_seconds(3), 0);
    assert_eq!(crossfade_label(0), "Off");
    assert_eq!(crossfade_label(6), "6s");
    assert_eq!(scrub_label(60), "1m");
    assert_eq!(scrub_label(15), "15s");
    assert_eq!(next_scrub_seconds(60), 5);
    assert_eq!(next_scrub_seconds(7), 10);
    assert_eq!(next_stats_top_songs_count(5), 8);
    assert_eq!(next_stats_top_songs_count(9), 12);
    assert_eq!(next_stats_top_songs_count(15), 5);
    assert_eq!(next_stats_top_songs_count(200), 8);
    assert_eq!(next_online_sync_correction_threshold_ms(100), 150);
    assert_eq!(next_online_sync_correction_threshold_ms(760), 100);
    assert_eq!(next_online_sync_correction_threshold_ms(1000), 100);
    assert_eq!(next_online_sync_correction_threshold_ms(5000), 150);
}

#[test]
fn theme_menu_marks_the_current_theme() {
    let options = theme_options(Theme::Galaxy);
    assert_eq!(options.len(), 6);
    assert_eq!(options[0], "Dark");
    assert_eq!(options[2], "* Galaxy");
    assert_eq!(theme_label(Theme::CottonCandy), "Cotton Candy");
}

#[test]
fn dialog_buttons_and_selection_wrap() {
    assert_eq!(JoinPromptButton::Join.toggle(), JoinPromptButton::Paste);
    assert_eq!(HostInviteModalButton::Confirm.toggle(), HostInviteModalButton::Copy);
    let mut selected = 2usize;
    update_panel_selection(&mut selected, 3, true);
    assert_eq!(selected, 0);
    update_panel_selection(&mut selected, 3, false);
    assert_eq!(selected, 2);
    update_panel_selection(&mut selected, 0, true);
    assert_eq!(selected, 2);
}

#[test]
fn typed_invite_and_password_inputs() {
    let mut code = String::new();
    append_invite_input(&mut code, "t2 ab\tc");
    assert_eq!(code, "T2ABC");
    let mut full = "A".repeat(96);
    append_invite_char(&mut full, 'b');
    assert_eq!(full.len(), 96);
    let mut password = String::new();
    append_password_input(&mut password, "pa\u{7}ss word");
    assert_eq!(password, "pass word");
}

#[test]
fn recorded_seconds_round_up() {
    assert_eq!(duration_to_recorded_seconds(0, 0), 0);
    assert_eq!(duration_to_recorded_seconds(3, 0), 3);
    assert_eq!(duration_to_recorded_seconds(3, 1), 4);
    assert_eq!(duration_to_recorded_seconds(u64::MAX, 5), u32::MAX);
}

#[test]
fn looped_restart_detection() {
    assert!(same_track_restarted(true, Some(178 * SEC), Some(180 * SEC), Some(SEC), false, 0));
    assert!(!same_track_restarted(true, Some(178 * SEC), Some(180 * SEC), Some(SEC), true, 0));
    assert!(!same_track_restarted(false, Some(178 * SEC), Some(180 * SEC), Some(SEC), false, 0));
    assert!(!same_track_restarted(true, Some(10 * SEC), Some(180 * SEC), Some(SEC), false, 0));
    assert!(same_track_restarted(true, Some(25 * SEC), None, Some(6 * SEC), false, 4));
    assert!(!same_track_restarted(true, Some(25 * SEC), None, Some(7 * SEC), false, 4));
}

#[test]
fn audio_errors_are_shortened() {
    assert_eq!(
        concise_audio_error("Output DEVICE is no longer available"),
        "Audio device unavailable. Use / -> Audio driver settings -> Reload"
    );
    assert_eq!(concise_audio_error("decoder failed"), "Playback failed: decoder failed");
    assert_eq!(provider_track_id_for_path("C:/Music/Song.MP3"), "c:/music/song.mp3");
}

#[test]
fn authority_is_last_sender_present_else_host() {
    let mut session = OnlineSession::host("host");
    session.participants.push(Participant {
        nickname: String::from("Guest"),
        is_local: false,
        is_host: false,
        ping_ms: 0,
        manual_extra_delay_ms: 0,
        auto_ping_delay: true,
    });
    assert_eq!(online_authority_nickname(&session), Some(String::from("host")));
    session.last_transport = Some(tune::online::TransportEnvelope {
        seq: 1,
        origin_nickname: String::from("guest"),
        command: tune::online::TransportCommand::SetPaused { paused: true },
    });
    assert_eq!(online_authority_nickname(&session), Some(String::from("guest")));
    session.last_transport.as_mut().unwrap().origin_nickname = String::from("gone");
    assert_eq!(online_authority_nickname(&session), Some(String::from("host")));
}
