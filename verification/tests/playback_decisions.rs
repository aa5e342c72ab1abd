use tune::model::{CoverArtTemplate, Track};
use tune::model::default_online_sync_correction_threshold_ms;
use tune::online::{OnlineSession, Participant, TransportCommand, TransportEnvelope};
use tune::playback::{
    apply_remote_sync, consume_shared_head, new_remote_transport, remote_pause_status, remote_sync_status, end_shared_queue, idle_shared_queue_start, online_advance_decision, online_delay_settings_options,
    OnlineAdvance, OnlinePlaybackSource, parse_folder_picker_selection, playback_settings_options,
    scrub_position, should_trigger_crossfade_advance,
};
use tune::tune_core::{AdvanceAction, PersistedLibrary, PlayerState, TuneCore};

const SECOND: u128 = 1_000_000_000;

fn track(path: &str, title: &str) -> Track {
    Track {
        path: String::from(path),
        title: String::from(title),
        artist: None,
        album: None,
    }
}

fn finished_player() -> PlayerState {
    PlayerState {
        has_track: true,
        paused: false,
        finished: true,
        crossfade_seconds: 0,
        position: None,
        duration: None,
        crossfade_queued: false,
    }
}

#[test]
fn parse_folder_picker_selection_handles_plain_path() {
    let parsed = parse_folder_picker_selection(b"/home/tune/music\n");
    assert_eq!(parsed.as_deref(), Some("/home/tune/music"));
}

#[test]
fn parse_folder_picker_selection_strips_file_scheme() {
    let parsed = parse_folder_picker_selection(b"file:///home/tune/music\n");
    assert_eq!(parsed.as_deref(), Some("/home/tune/music"));
}

#[test]
fn parse_folder_picker_selection_handles_empty_output() {
    let parsed = parse_folder_picker_selection(b"\n");
    assert_eq!(parsed, None);
}

#[test]
fn scrub_current_track_clamps_within_bounds() {
    let forward = scrub_position(98 * SECOND, Some(100 * SECOND), 10, true);
    assert_eq!(forward, 100 * SECOND);
    let back = scrub_position(forward, Some(100 * SECOND), 120, false);
    assert_eq!(back, 0);
}

#[test]
fn auto_advance_plays_next_track_when_finished() {
    let mut core = TuneCore::from_persisted(PersistedLibrary::default(), Vec::new());
    core.tracks = vec![track("a.mp3", "a"), track("b.mp3", "b")];
    core.queue = vec![0, 1];
    core.current_queue_index = Some(0);

    match core.auto_advance(finished_player()) {
        AdvanceAction::Play(path) => assert_eq!(path, "b.mp3"),
        other => panic!("expected to play the next track, got {other:?}"),
    }
    assert_eq!(core.current_queue_index, Some(1));
}

#[test]
fn auto_advance_starts_next_track_within_crossfade_window() {
    let mut core = TuneCore::from_persisted(PersistedLibrary::default(), Vec::new());
    core.tracks = vec![track("a.mp3", "a"), track("b.mp3", "b")];
    core.queue = vec![0, 1];
    core.current_queue_index = Some(0);

    let state = PlayerState {
        has_track: true,
        paused: false,
        finished: false,
        crossfade_seconds: 6,
        position: Some(95 * SECOND),
        duration: Some(100 * SECOND),
        crossfade_queued: false,
    };
    match core.auto_advance(state) {
        AdvanceAction::Crossfade(path) => assert_eq!(path, "b.mp3"),
        other => panic!("expected a crossfade, got {other:?}"),
    }
    assert_eq!(core.current_queue_index, Some(1));
}

#[test]
fn auto_advance_stops_when_queue_ends() {
    let mut core = TuneCore::from_persisted(PersistedLibrary::default(), Vec::new());
    core.tracks = vec![track("a.mp3", "a")];
    core.queue = vec![0];
    core.current_queue_index = Some(0);

    assert!(matches!(core.auto_advance(finished_player()), AdvanceAction::Stop));
    assert_eq!(core.status, "Reached end of queue");
}

// ---------------------------------------------------------------------------
// Further cases
// ---------------------------------------------------------------------------

#[test]
fn auto_advance_waits_while_paused_or_already_fading() {
    let mut core = TuneCore::from_persisted(PersistedLibrary::default(), Vec::new());
    core.tracks = vec![track("a.mp3", "a"), track("b.mp3", "b")];
    core.queue = vec![0, 1];
    core.current_queue_index = Some(0);
    let paused = PlayerState {
        paused: true,
        ..finished_player()
    };
    assert!(matches!(core.auto_advance(paused), AdvanceAction::Nothing));
    let fading = PlayerState {
        has_track: true,
        paused: false,
        finished: false,
        crossfade_seconds: 6,
        position: Some(97 * SECOND),
        duration: Some(100 * SECOND),
        crossfade_queued: true,
    };
    assert!(matches!(core.auto_advance(fading), AdvanceAction::Nothing));
    assert_eq!(core.current_queue_index, Some(0));
}

#[test]
fn crossfade_window_opens_only_near_the_end() {
    assert!(!should_trigger_crossfade_advance(0, Some(99 * SECOND), Some(100 * SECOND)));
    assert!(!should_trigger_crossfade_advance(5, Some(90 * SECOND), Some(100 * SECOND)));
    assert!(should_trigger_crossfade_advance(5, Some(95 * SECOND), Some(100 * SECOND)));
    assert!(!should_trigger_crossfade_advance(5, Some(100 * SECOND), Some(100 * SECOND)));
    assert!(!should_trigger_crossfade_advance(5, None, Some(100 * SECOND)));
    assert_eq!(scrub_position(10 * SECOND, None, 5, true), 15 * SECOND);
}

#[test]
fn settings_menus_show_current_values() {
    let options = playback_settings_options(true, 0, 60, false, 10, CoverArtTemplate::Aurora);
    assert_eq!(
        options,
        vec![
            "Loudness normalization: On",
            "Song crossfade: Off",
            "Scrub length: 1m",
            "Stats tracking: Off",
            "Stats top songs rows: 10",
            "Missing cover fallback: Music Note",
            "Online sync delay settings",
            "Back",
        ]
    );
    let none = online_delay_settings_options(None, 300);
    assert_eq!(none[4], "Sync correction threshold: 300ms");
    assert_eq!(none[5], "Back (Join or host a room first)");
    let local = Participant {
        nickname: String::from("me"),
        is_local: true,
        is_host: true,
        ping_ms: 20,
        manual_extra_delay_ms: 30,
        auto_ping_delay: true,
    };
    let with_local = online_delay_settings_options(Some(&local), 300);
    assert_eq!(with_local[5], "Back (Manual 30ms  Effective 50ms  Auto On)");
}

#[test]
fn remote_sync_applies_effective_delay_to_seek_target() {
    let mut session = Some(OnlineSession::join("ROOM22", "listener"));
    {
        let local = session
            .as_mut()
            .and_then(|session| session.local_participant_mut())
            .expect("local participant");
        local.ping_ms = 80;
        local.manual_extra_delay_ms = 40;
        local.auto_ping_delay = true;
    }

    let correction = apply_remote_sync(
        &mut session,
        1_200,
        Some(1_000),
        false,
        default_online_sync_correction_threshold_ms(),
    );

    assert!(correction.seek);
    assert_eq!(correction.target_ms, 1_320);
    assert_eq!(
        session.as_ref().map(|session| session.last_sync_drift_ms),
        Some(320)
    );
}

#[test]
fn remote_sync_keeps_position_for_drift_below_threshold() {
    let mut session = Some(OnlineSession::join("ROOM22", "listener"));

    let correction = apply_remote_sync(
        &mut session,
        1_250,
        Some(1_000),
        false,
        default_online_sync_correction_threshold_ms(),
    );

    assert!(!correction.seek);
    assert_eq!(correction.target_ms, 1_292);
    assert_eq!(
        session.as_ref().map(|session| session.last_sync_drift_ms),
        Some(292)
    );
}

#[test]
fn paused_sync_corrects_smaller_drifts_without_delay() {
    let mut session = None;
    let correction = apply_remote_sync(&mut session, 500, None, true, 300);
    assert_eq!(correction.target_ms, 500);
    assert_eq!(correction.drift_ms, 500);
    assert!(correction.seek);
    let small = apply_remote_sync(&mut session, 1_050, Some(1_000), true, 300);
    assert!(!small.seek);
}

fn hosted_room_with_queue() -> OnlineSession {
    let mut session = OnlineSession::host("host");
    session.push_shared_track("/music/one.flac", String::from("One"), Some(String::from("host")), true);
    session.push_shared_track("/music/two.flac", String::from("Two"), Some(String::from("host")), true);
    session
}

#[test]
fn room_authority_starts_shared_queue_head_when_track_ends() {
    let session = hosted_room_with_queue();
    let decision = online_advance_decision(&session, "HOST", true, None, OnlinePlaybackSource::LocalQueue);
    match decision {
        OnlineAdvance::StartShared(path) => assert_eq!(path, "/music/one.flac"),
        other => panic!("unexpected decision {:?}", other),
    }
}

#[test]
fn room_authority_waits_for_pending_stream_of_queue_head() {
    let session = hosted_room_with_queue();
    let decision =
        online_advance_decision(&session, "host", true, Some("/music/one.flac"), OnlinePlaybackSource::SharedQueue);
    assert!(matches!(decision, OnlineAdvance::Nothing));
    let other = online_advance_decision(&session, "host", true, Some("/music/two.flac"), OnlinePlaybackSource::SharedQueue);
    assert!(matches!(other, OnlineAdvance::StartShared(_)));
}

#[test]
fn room_authority_ends_or_continues_when_shared_queue_is_empty() {
    let session = OnlineSession::host("host");
    let shared = online_advance_decision(&session, "host", true, None, OnlinePlaybackSource::SharedQueue);
    assert!(matches!(shared, OnlineAdvance::EndSharedQueue));
    let local = online_advance_decision(&session, "host", true, None, OnlinePlaybackSource::LocalQueue);
    assert!(matches!(local, OnlineAdvance::NextLocal));
    let running = online_advance_decision(&session, "host", false, None, OnlinePlaybackSource::LocalQueue);
    assert!(matches!(running, OnlineAdvance::Nothing));
}

#[test]
fn listeners_leave_advancing_to_the_last_transport_origin() {
    let mut session = OnlineSession::join("ROOM22", "listener");
    session.participants.push(Participant {
        nickname: String::from("host"),
        is_local: false,
        is_host: true,
        ping_ms: 42,
        manual_extra_delay_ms: 0,
        auto_ping_delay: true,
    });
    let listener = online_advance_decision(&session, "listener", true, None, OnlinePlaybackSource::LocalQueue);
    assert!(matches!(listener, OnlineAdvance::Nothing));
    session.last_transport = Some(TransportEnvelope {
        seq: 7,
        origin_nickname: String::from("Listener"),
        command: TransportCommand::SetPaused { paused: false },
    });
    let now_authority = online_advance_decision(&session, "listener", true, None, OnlinePlaybackSource::LocalQueue);
    assert!(matches!(now_authority, OnlineAdvance::NextLocal));
}

#[test]
fn idle_room_authority_starts_first_shared_track() {
    let session = hosted_room_with_queue();
    assert_eq!(idle_shared_queue_start(&session, "host", false, false), Some(String::from("/music/one.flac")));
    assert_eq!(idle_shared_queue_start(&session, "host", true, false), None);
    assert_eq!(idle_shared_queue_start(&session, "host", false, true), None);
    assert_eq!(idle_shared_queue_start(&session, "guest", false, false), None);
    assert_eq!(idle_shared_queue_start(&OnlineSession::host("host"), "host", false, false), None);
}

fn listener_room_with_host() -> OnlineSession {
    let mut session = OnlineSession::join("ROOM22", "listener");
    session.participants.push(Participant {
        nickname: String::from("host"),
        is_local: false,
        is_host: true,
        ping_ms: 0,
        manual_extra_delay_ms: 0,
        auto_ping_delay: true,
    });
    session
}

fn core_playing_first_of_two() -> TuneCore {
    let mut core = TuneCore::from_persisted(PersistedLibrary::default(), Vec::new());
    core.tracks = vec![track("a.mp3", "a"), track("b.mp3", "b")];
    core.queue = vec![0, 1];
    core.current_queue_index = Some(0);
    core
}

#[test]
fn online_auto_advance_skips_non_authority_peer() {
    let core = core_playing_first_of_two();
    let mut session = listener_room_with_host();
    session.last_transport = Some(TransportEnvelope {
        seq: 1,
        origin_nickname: String::from("host"),
        command: TransportCommand::SetPaused { paused: false },
    });

    let decision = online_advance_decision(&session, "listener", true, None, OnlinePlaybackSource::LocalQueue);

    assert!(matches!(decision, OnlineAdvance::Nothing));
    assert_eq!(core.current_queue_index, Some(0));
}

#[test]
fn online_auto_advance_consumes_shared_queue_fifo() {
    let mut session = OnlineSession::host("host");
    session.push_shared_track("shared.mp3", String::from("shared"), Some(String::from("listener")), false);
    let mut source = OnlinePlaybackSource::LocalQueue;
    let mut played = Vec::new();

    match online_advance_decision(&session, "host", true, None, source) {
        OnlineAdvance::StartShared(path) => {
            played.push(path.clone());
            consume_shared_head(&mut session, Some(path.as_str()));
            source = OnlinePlaybackSource::SharedQueue;
        },
        other => panic!("unexpected decision {:?}", other),
    }

    assert_eq!(played, vec![String::from("shared.mp3")]);
    assert_eq!(source, OnlinePlaybackSource::SharedQueue);
    assert_eq!(session.shared_queue.len(), 0);
}

#[test]
fn online_auto_advance_stops_when_shared_queue_finishes() {
    let mut core = TuneCore::from_persisted(PersistedLibrary::default(), Vec::new());
    let session = OnlineSession::host("host");
    let mut source = OnlinePlaybackSource::SharedQueue;
    let mut stopped = false;

    match online_advance_decision(&session, "host", true, None, source) {
        OnlineAdvance::EndSharedQueue => {
            stopped = true;
            end_shared_queue(&mut core, &mut source);
        },
        other => panic!("unexpected decision {:?}", other),
    }

    assert!(stopped);
    assert_eq!(core.status, "Reached end of shared queue");
    assert_eq!(source, OnlinePlaybackSource::LocalQueue);
}

#[test]
fn online_auto_advance_falls_back_to_host_when_last_origin_missing() {
    let mut core = core_playing_first_of_two();
    let mut session = OnlineSession::host("host");
    session.last_transport = Some(TransportEnvelope {
        seq: 2,
        origin_nickname: String::from("gone"),
        command: TransportCommand::SetPaused { paused: false },
    });
    let mut played = Vec::new();

    match online_advance_decision(&session, "host", true, None, OnlinePlaybackSource::LocalQueue) {
        OnlineAdvance::NextLocal => {
            if let Some(path) = core.next_track_path() {
                played.push(path);
            }
        },
        other => panic!("unexpected decision {:?}", other),
    }

    assert_eq!(played, vec![String::from("b.mp3")]);
    assert_eq!(core.current_queue_index, Some(1));
}

#[test]
fn online_shared_queue_starts_immediately_when_idle_for_authority() {
    let mut session = OnlineSession::host("host");
    session.push_shared_track("shared.mp3", String::from("shared"), Some(String::from("listener")), false);
    let mut source = OnlinePlaybackSource::LocalQueue;
    let mut played = Vec::new();

    if let Some(path) = idle_shared_queue_start(&session, "host", false, false) {
        played.push(path.clone());
        consume_shared_head(&mut session, Some(path.as_str()));
        source = OnlinePlaybackSource::SharedQueue;
    }

    assert_eq!(played, vec![String::from("shared.mp3")]);
    assert_eq!(source, OnlinePlaybackSource::SharedQueue);
    assert_eq!(session.shared_queue.len(), 0);
}

#[test]
fn online_shared_queue_does_not_start_immediately_when_idle_for_non_authority() {
    let mut session = listener_room_with_host();
    session.push_shared_track("shared.mp3", String::from("shared"), Some(String::from("listener")), false);

    let start = idle_shared_queue_start(&session, "listener", false, false);

    assert!(start.is_none());
    assert_eq!(session.shared_queue.len(), 1);
}

#[test]
fn consuming_the_shared_head_needs_the_expected_track() {
    let mut session = OnlineSession::host("host");
    session.push_shared_track("one.mp3", String::from("one"), None, false);
    session.push_shared_track("two.mp3", String::from("two"), None, false);
    consume_shared_head(&mut session, Some("two.mp3"));
    assert_eq!(session.shared_queue.len(), 2);
    consume_shared_head(&mut session, None);
    assert_eq!(session.shared_queue.len(), 1);
    assert_eq!(session.shared_queue[0].path, "two.mp3");
}

#[test]
fn synced_transport_is_followed_once_and_only_from_others() {
    let mut session = listener_room_with_host();
    assert_eq!(new_remote_transport(&session, 0, "listener"), None);
    session.last_transport = Some(TransportEnvelope {
        seq: 5,
        origin_nickname: String::from("HOST"),
        command: TransportCommand::SetPaused { paused: true },
    });
    assert_eq!(new_remote_transport(&session, 4, "listener"), Some((5, true)));
    assert_eq!(new_remote_transport(&session, 5, "listener"), None);
    assert_eq!(new_remote_transport(&session, 4, "host"), Some((5, false)));
    assert_eq!(remote_pause_status(true), "Remote paused playback");
    assert_eq!(remote_pause_status(false), "Remote resumed playback");
    assert_eq!(remote_sync_status(292), "Remote sync drift 292ms");
}

#[test]
fn following_a_remote_track_moves_the_playing_position() {
    let mut core = core_playing_first_of_two();
    core.follow_remote_track("b.mp3", "Remote switched track");
    assert_eq!(core.current_queue_index, Some(1));
    assert_eq!(core.status, "Remote switched track");
    core.follow_remote_track("elsewhere.mp3", "Remote switched track");
    assert_eq!(core.current_queue_index, None);
}
