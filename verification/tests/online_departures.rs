use tune::online::{OnlineRoomMode, OnlineSession, Participant, TransportCommand, TransportEnvelope};
use tune::online_net::{
    apply_action_to_session, constant_time_eq, normalize_local_online_participant,
    peer_display_name, remove_departed_participant, sanitize_cache_name, stream_cache_file_name,
    LocalAction, NetworkRole, StreamPayloadFormat,
};

fn guest(name: &str) -> Participant {
    Participant {
        nickname: String::from(name),
        is_local: false,
        is_host: false,
        ping_ms: 20,
        manual_extra_delay_ms: 0,
        auto_ping_delay: true,
    }
}

#[test]
fn disconnect_peer_removes_matching_participant_case_insensitive() {
    let mut session = OnlineSession::host("host");
    session.participants.push(guest("ListenerA"));
    let outcome = remove_departed_participant(&mut session, "listenera");
    assert!(outcome.changed);
    assert!(outcome.new_host.is_none());
    assert!(!session.participants.iter().any(|p| p.nickname.eq_ignore_ascii_case("listenera")));
    assert_eq!(peer_display_name(Some("listenera"), 9), "listenera");
    assert_eq!(peer_display_name(None, 9), "peer-9");
}

#[test]
fn disconnecting_host_promotes_earliest_joined_participant() {
    let mut session = OnlineSession::host("host");
    session.participants.push(guest("alpha"));
    session.participants.push(guest("beta"));
    let outcome = remove_departed_participant(&mut session, "HOST");
    assert_eq!(session.participants.len(), 2);
    assert_eq!(session.participants[0].nickname, "alpha");
    assert!(session.participants[0].is_host);
    assert!(!session.participants[1].is_host);
    assert_eq!(outcome.new_host, Some(String::from("alpha")));
    let unchanged = remove_departed_participant(&mut session, "nobody");
    assert!(!unchanged.changed);
}

#[test]
fn local_participant_is_normalized_after_sync() {
    let mut session = OnlineSession::host("host");
    session.participants[0].is_local = false;
    session.participants.push(guest("Me"));
    normalize_local_online_participant(&mut session, "me", NetworkRole::Client);
    assert!(!session.participants[0].is_local);
    assert!(session.participants[1].is_local);
    assert!(!session.participants[1].is_host);
    normalize_local_online_participant(&mut session, "newbie", NetworkRole::Host);
    assert_eq!(session.participants.len(), 3);
    assert!(session.participants[2].is_local && session.participants[2].is_host);
    assert_eq!(session.participants[2].ping_ms, 30);
    assert!(!session.participants[1].is_local);
}

#[test]
fn transport_commands_are_numbered_and_signed() {
    let mut session = OnlineSession::host("host");
    let command = |paused| TransportEnvelope {
        seq: 77,
        origin_nickname: String::from("spoofed"),
        command: TransportCommand::SetPaused { paused },
    };
    apply_action_to_session(&mut session, LocalAction::Transport(command(true)), "host");
    apply_action_to_session(&mut session, LocalAction::Transport(command(false)), "host");
    let last = session.last_transport.as_ref().expect("transport");
    assert_eq!(last.seq, 2);
    assert_eq!(last.origin_nickname, "host");
}

#[test]
fn shared_queue_keeps_the_newest_items() {
    let mut session = OnlineSession::host("host");
    for k in 0..515 {
        apply_action_to_session(
            &mut session,
            LocalAction::QueueAdd(tune::online::SharedQueueItem {
                path: format!("{k}.flac"),
                title: format!("{k}"),
                delivery: tune::online::QueueDelivery::HostStreamOnly,
                owner_nickname: None,
            }),
            "host",
        );
    }
    assert_eq!(session.shared_queue.len(), 512);
    assert_eq!(session.shared_queue[0].path, "3.flac");
}

#[test]
fn host_only_mode_blocks_listener_mode_changes() {
    let mut session = OnlineSession::host("host");
    session.mode = OnlineRoomMode::HostOnly;
    session.participants.push(guest("listener"));
    apply_action_to_session(&mut session, LocalAction::SetMode(OnlineRoomMode::Collaborative), "listener");
    assert_eq!(session.mode, OnlineRoomMode::HostOnly);
    apply_action_to_session(&mut session, LocalAction::SetMode(OnlineRoomMode::Collaborative), "HOST");
    assert_eq!(session.mode, OnlineRoomMode::Collaborative);
}

#[test]
fn taken_nicknames_are_refused() {
    let mut session = OnlineSession::host("host");
    session.participants.push(guest("dj"));
    apply_action_to_session(&mut session, LocalAction::SetNickname { nickname: String::from(" DJ ") }, "host");
    assert_eq!(session.participants[0].nickname, "host");
    apply_action_to_session(&mut session, LocalAction::SetNickname { nickname: String::from("   ") }, "host");
    assert_eq!(session.participants[0].nickname, "host");
}

#[test]
fn cache_names_and_equality() {
    assert_eq!(sanitize_cache_name("My Song (live)!"), "My_Song__live__");
    assert_eq!(sanitize_cache_name(&"a".repeat(70)).len(), 64);
    assert_eq!(
        stream_cache_file_name(Some("My Song"), Some("flac"), StreamPayloadFormat::OriginalFile, 12),
        "My_Song_12.flac"
    );
    assert_eq!(
        stream_cache_file_name(None, Some("flac"), StreamPayloadFormat::BalancedWavMono24k, 5),
        "track_5.wav"
    );
    assert_eq!(stream_cache_file_name(Some(""), None, StreamPayloadFormat::OriginalFile, 0), "track_0.bin");
    assert!(constant_time_eq(b"abc", b"abc"));
    assert!(!constant_time_eq(b"abc", b"abd"));
    assert!(!constant_time_eq(b"abc", b"ab"));
}
