use tune::online::{OnlineRoomMode, OnlineSession, Participant, StreamQuality};

#[test]
fn host_session_starts_in_collaborative_lossless_mode() {
    let session = OnlineSession::host("dj");
    assert_eq!(session.mode, OnlineRoomMode::Collaborative);
    assert_eq!(session.quality, StreamQuality::Lossless);
    assert_eq!(session.participants.len(), 1);
    assert!(session.participants[0].is_host);
}

#[test]
fn host_only_blocks_non_host_local_control() {
    let mut session = OnlineSession::join("ROOM22", "listener");
    session.mode = OnlineRoomMode::HostOnly;
    assert!(!session.can_local_control_playback());
}

#[test]
fn effective_delay_uses_ping_when_auto_enabled() {
    let participant = Participant {
        nickname: String::from("x"),
        is_local: true,
        is_host: false,
        ping_ms: 35,
        manual_extra_delay_ms: 40,
        auto_ping_delay: true,
    };
    assert_eq!(participant.effective_delay_ms(), 75);
}
