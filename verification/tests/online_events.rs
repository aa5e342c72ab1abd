use tune::model::Track;
use tune::online::{OnlineSession, OnlineState, TransportCommand, TransportEnvelope};
use tune::online_events::{
    online_event_step, online_play_outcome, preferred_stream_source, OnlineEvent, PlayerAction, RemotePlayback,
};
use tune::online_keys::OnlinePrompts;
use tune::online_net::NetworkRole;
use tune::playback::OnlinePlaybackSource;
use tune::tune_core::{PersistedLibrary, TuneCore};

fn track(path: &str, title: &str) -> Track {
    Track {
        path: path.to_string(),
        title: title.to_string(),
        artist: None,
        album: None,
    }
}

fn core_with_queue() -> TuneCore {
    let mut core = TuneCore::from_persisted(PersistedLibrary::default(), Vec::new());
    core.tracks = vec![track("a.mp3", "a"), track("song.mp3", "song")];
    core.queue = vec![0, 1];
    core.current_queue_index = Some(0);
    core
}

fn joined_room() -> OnlineState {
    OnlineState { session: Some(OnlineSession::join("ROOM22", "listener")) }
}

fn sync_with(seq: u64, origin: &str, command: TransportCommand) -> OnlineEvent {
    let mut session = OnlineSession::join("ROOM22", "host");
    session.last_transport = Some(TransportEnvelope { seq, origin_nickname: origin.to_string(), command });
    OnlineEvent::SessionSync(session)
}

#[test]
fn disconnect_status_leaves_the_room_and_resets_transport_sequence() {
    let mut core = core_with_queue();
    let mut remote = RemotePlayback::new();
    remote.last_transport_seq = 9;
    remote.pending_stream_path = Some(String::from("x.mp3"));
    let mut online = joined_room();
    let mut prompts = OnlinePrompts::new();
    prompts.room_code_revealed = true;
    let actions = online_event_step(
        &mut core,
        &mut remote,
        &mut online,
        &mut prompts,
        OnlineEvent::Status(String::from("Host ended session")),
        "listener",
        NetworkRole::Client,
        false,
        None,
        300,
    );
    assert!(matches!(actions.as_slice(), [PlayerAction::ShutDownNetwork]));
    assert_eq!(core.status, "Host ended session");
    assert!(online.session.is_none());
    assert_eq!(remote.last_transport_seq, 0);
    assert!(remote.pending_stream_path.is_none());
    assert!(!prompts.room_code_revealed);
}

#[test]
fn ordinary_status_is_only_shown() {
    let mut core = core_with_queue();
    let mut remote = RemotePlayback::new();
    let mut online = joined_room();
    let mut prompts = OnlinePrompts::new();
    let actions = online_event_step(
        &mut core,
        &mut remote,
        &mut online,
        &mut prompts,
        OnlineEvent::Status(String::from("Remote sync drift 120ms")),
        "listener",
        NetworkRole::Client,
        false,
        None,
        300,
    );
    assert!(actions.is_empty());
    assert_eq!(core.status, "Remote sync drift 120ms");
    assert!(online.session.is_some());
}

#[test]
fn ready_stream_plays_only_when_it_is_the_pending_path() {
    let mut core = core_with_queue();
    let mut remote = RemotePlayback::new();
    let mut online = joined_room();
    let mut prompts = OnlinePrompts::new();
    let other = OnlineEvent::StreamTrackReady {
        requested_path: String::from("other.flac"),
        local_temp_path: String::from("/tmp/other.flac"),
    };
    let actions =
        online_event_step(&mut core, &mut remote, &mut online, &mut prompts, other, "listener", NetworkRole::Client, false, None, 300);
    assert!(actions.is_empty());
    assert_eq!(remote.streamed_tracks.len(), 1);

    remote.pending_stream_path = Some(String::from("music/song.flac"));
    let ready = OnlineEvent::StreamTrackReady {
        requested_path: String::from("music//song.flac"),
        local_temp_path: String::from("/tmp/tunetui_stream_1.flac"),
    };
    let actions =
        online_event_step(&mut core, &mut remote, &mut online, &mut prompts, ready, "listener", NetworkRole::Client, false, None, 300);
    match actions.as_slice() {
        [PlayerAction::Play(p)] => assert_eq!(p, "/tmp/tunetui_stream_1.flac"),
        other => panic!("unexpected actions {other:?}"),
    }
    let after = online_play_outcome(&mut core, &mut remote, Ok(()), Some(0), 300);
    assert!(after.is_empty());
    assert_eq!(core.status, "Streaming fallback active: song.flac");
    assert!(remote.pending_stream_path.is_none());
    assert_eq!(remote.remote_logical_track.as_deref(), Some("music//song.flac"));
}

#[test]
fn failed_stream_play_reports_a_concise_error() {
    let mut core = core_with_queue();
    let mut remote = RemotePlayback::new();
    let mut online = joined_room();
    let mut prompts = OnlinePrompts::new();
    remote.pending_stream_path = Some(String::from("s.flac"));
    let ready = OnlineEvent::StreamTrackReady {
        requested_path: String::from("s.flac"),
        local_temp_path: String::from("/tmp/s.flac"),
    };
    online_event_step(&mut core, &mut remote, &mut online, &mut prompts, ready, "listener", NetworkRole::Client, false, None, 300);
    online_play_outcome(&mut core, &mut remote, Err(String::from("decoder error")), None, 300);
    assert_eq!(core.status, "Stream playback failed: Playback failed: decoder error");
    assert!(remote.pending_stream_path.is_none());
}

#[test]
fn session_sync_replaces_session_and_follows_remote_pause() {
    let mut core = core_with_queue();
    let mut remote = RemotePlayback::new();
    let mut online = joined_room();
    let mut prompts = OnlinePrompts::new();
    let event = sync_with(3, "host", TransportCommand::SetPaused { paused: true });
    let actions =
        online_event_step(&mut core, &mut remote, &mut online, &mut prompts, event, "listener", NetworkRole::Client, true, None, 300);
    assert!(matches!(actions.as_slice(), [PlayerAction::Pause]));
    assert_eq!(core.status, "Remote paused playback");
    assert_eq!(remote.last_transport_seq, 3);
    assert_eq!(remote.last_remote_transport_origin.as_deref(), Some("host"));
    let session = online.session.as_ref().unwrap();
    assert!(session.participants.iter().any(|p| p.nickname == "listener" && p.is_local));

    // The same transport again is not followed.
    let again = sync_with(3, "host", TransportCommand::SetPaused { paused: false });
    let actions =
        online_event_step(&mut core, &mut remote, &mut online, &mut prompts, again, "listener", NetworkRole::Client, true, None, 300);
    assert!(actions.is_empty());
    assert_eq!(core.status, "Remote paused playback");
}

#[test]
fn own_transport_is_not_followed() {
    let mut core = core_with_queue();
    let mut remote = RemotePlayback::new();
    let mut online = joined_room();
    let mut prompts = OnlinePrompts::new();
    let event = sync_with(5, "LISTENER", TransportCommand::SetPaused { paused: true });
    let actions =
        online_event_step(&mut core, &mut remote, &mut online, &mut prompts, event, "listener", NetworkRole::Client, true, None, 300);
    assert!(actions.is_empty());
    assert_eq!(remote.last_transport_seq, 5);
    assert!(remote.last_remote_transport_origin.is_none());
}

#[test]
fn remote_track_switch_plays_and_moves_queue_position() {
    let mut core = core_with_queue();
    let mut remote = RemotePlayback::new();
    remote.playback_source = OnlinePlaybackSource::SharedQueue;
    let mut online = joined_room();
    let mut prompts = OnlinePrompts::new();
    let event = sync_with(1, "host", TransportCommand::PlayTrack { path: String::from("song.mp3") });
    let actions =
        online_event_step(&mut core, &mut remote, &mut online, &mut prompts, event, "listener", NetworkRole::Client, false, None, 300);
    match actions.as_slice() {
        [PlayerAction::Play(p)] => assert_eq!(p, "song.mp3"),
        other => panic!("unexpected actions {other:?}"),
    }
    let after = online_play_outcome(&mut core, &mut remote, Ok(()), Some(0), 300);
    assert!(after.is_empty());
    assert_eq!(core.status, "Remote switched track");
    assert_eq!(core.current_queue_index, Some(1));
    assert_eq!(remote.playback_source, OnlinePlaybackSource::LocalQueue);
    assert_eq!(remote.remote_logical_track.as_deref(), Some("song.mp3"));
}

#[test]
fn missing_remote_track_is_requested_by_stream_after_cached_copy_fails() {
    let mut core = core_with_queue();
    let mut remote = RemotePlayback::new();
    remote.streamed_tracks.push((String::from("far.flac"), String::from("/tmp/old.flac")));
    let mut online = joined_room();
    let mut prompts = OnlinePrompts::new();
    let event = sync_with(2, "host", TransportCommand::PlayTrack { path: String::from("far.flac") });
    let actions =
        online_event_step(&mut core, &mut remote, &mut online, &mut prompts, event, "listener", NetworkRole::Client, false, None, 300);
    match actions.as_slice() {
        [PlayerAction::PlayIfPresent(p)] => assert_eq!(p, "/tmp/old.flac"),
        other => panic!("unexpected actions {other:?}"),
    }
    let next = online_play_outcome(&mut core, &mut remote, Err(String::from("missing")), None, 300);
    match next.as_slice() {
        [PlayerAction::Play(p)] => assert_eq!(p, "far.flac"),
        other => panic!("unexpected actions {other:?}"),
    }
    let last = online_play_outcome(&mut core, &mut remote, Err(String::from("no such file")), None, 300);
    match last.as_slice() {
        [PlayerAction::RequestStream { path, source }] => {
            assert_eq!(path, "far.flac");
            assert!(source.is_none());
        },
        other => panic!("unexpected actions {other:?}"),
    }
    assert_eq!(core.status, "Remote track missing locally, requesting stream...");
    assert_eq!(remote.pending_stream_path.as_deref(), Some("far.flac"));
    assert_eq!(core.current_queue_index, Some(0));
}

#[test]
fn loaded_track_follows_remote_position_with_local_delay() {
    let mut core = core_with_queue();
    let mut remote = RemotePlayback::new();
    remote.remote_logical_track = Some(String::from("song.mp3"));
    let mut online = joined_room();
    {
        let local = online.session.as_mut().unwrap().local_participant_mut().unwrap();
        local.ping_ms = 80;
        local.manual_extra_delay_ms = 40;
        local.auto_ping_delay = true;
    }
    let mut prompts = OnlinePrompts::new();
    let event = sync_with(
        4,
        "host",
        TransportCommand::SetPlaybackState { path: String::from("song.mp3"), position_ms: 1_200, paused: false },
    );
    let actions = online_event_step(
        &mut core,
        &mut remote,
        &mut online,
        &mut prompts,
        event,
        "listener",
        NetworkRole::Client,
        true,
        Some(1_000),
        300,
    );
    match actions.as_slice() {
        [PlayerAction::SeekTo(ms), PlayerAction::Resume] => assert_eq!(*ms, 1_320),
        other => panic!("unexpected actions {other:?}"),
    }
    assert_eq!(core.status, "Remote sync drift 320ms");
    assert_eq!(core.current_queue_index, Some(1));
}

#[test]
fn host_streams_from_the_participant_who_queued_the_track() {
    let mut session = OnlineSession::host("host");
    session.push_shared_track("/music/one.flac", String::from("One"), Some(String::from("alice")), true);
    session.push_shared_track("/music/one.flac", String::from("One"), Some(String::from("HOST")), true);
    let room = Some(session);
    let source = preferred_stream_source(NetworkRole::Host, &room, &Some(String::from("bob")), "/music/one.flac");
    assert_eq!(source.as_deref(), Some("alice"));
    let fallback = preferred_stream_source(NetworkRole::Host, &room, &Some(String::from("bob")), "/music/two.flac");
    assert_eq!(fallback.as_deref(), Some("bob"));
    let own = preferred_stream_source(NetworkRole::Host, &room, &Some(String::from("Host")), "/music/two.flac");
    assert!(own.is_none());
    let client = preferred_stream_source(NetworkRole::Client, &room, &Some(String::from("bob")), "/music/one.flac");
    assert!(client.is_none());
}
