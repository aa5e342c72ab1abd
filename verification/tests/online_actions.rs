use tune::online::{OnlineRoomMode, OnlineSession, Participant, QueueDelivery, SharedQueueItem};
use tune::online_net::{apply_action_to_session, smooth_ping, LocalAction};

fn item(path: &str, title: &str, owner: &str) -> SharedQueueItem {
    SharedQueueItem {
        path: String::from(path),
        title: String::from(title),
        delivery: QueueDelivery::HostStreamOnly,
        owner_nickname: Some(String::from(owner)),
    }
}

fn listener(ping_ms: u16) -> Participant {
    Participant {
        nickname: String::from("listener"),
        is_local: false,
        is_host: false,
        ping_ms,
        manual_extra_delay_ms: 0,
        auto_ping_delay: true,
    }
}

#[test]
fn queue_consume_removes_front_when_expected_matches() {
    let mut session = OnlineSession::host("host");
    session.shared_queue.push(item("a.flac", "a", "host"));
    session.shared_queue.push(item("b.flac", "b", "host"));

    apply_action_to_session(
        &mut session,
        LocalAction::QueueConsume {
            expected_path: Some(String::from("a.flac")),
        },
        "host",
    );

    assert_eq!(session.shared_queue.len(), 1);
    assert_eq!(session.shared_queue[0].path, String::from("b.flac"));
}

#[test]
fn queue_consume_keeps_queue_when_expected_mismatch() {
    let mut session = OnlineSession::host("host");
    session.shared_queue.push(item("a.flac", "a", "host"));

    apply_action_to_session(
        &mut session,
        LocalAction::QueueConsume {
            expected_path: Some(String::from("b.flac")),
        },
        "host",
    );

    assert_eq!(session.shared_queue.len(), 1);
    assert_eq!(session.shared_queue[0].path, String::from("a.flac"));
}

#[test]
fn host_only_blocks_listener_queue_add_network_action() {
    let mut session = OnlineSession::host("host");
    session.mode = OnlineRoomMode::HostOnly;
    session.participants.push(listener(0));

    apply_action_to_session(
        &mut session,
        LocalAction::QueueAdd(item("a.flac", "a", "listener")),
        "listener",
    );

    assert!(session.shared_queue.is_empty());
}

#[test]
fn host_only_allows_listener_delay_update_network_action() {
    let mut session = OnlineSession::host("host");
    session.mode = OnlineRoomMode::HostOnly;
    session.participants.push(listener(12));

    apply_action_to_session(
        &mut session,
        LocalAction::DelayUpdate {
            manual_extra_delay_ms: 75,
            auto_ping_delay: false,
        },
        "listener",
    );

    let listener = session
        .participants
        .iter()
        .find(|participant| participant.nickname == "listener")
        .expect("listener participant");
    assert_eq!(listener.manual_extra_delay_ms, 75);
    assert!(!listener.auto_ping_delay);
}

#[test]
fn nickname_update_renames_participant_and_owned_queue_items() {
    let mut session = OnlineSession::host("host");
    session.shared_queue.push(item("a.flac", "a", "host"));

    apply_action_to_session(
        &mut session,
        LocalAction::SetNickname {
            nickname: String::from("dj"),
        },
        "host",
    );

    assert_eq!(session.participants[0].nickname, "dj");
    assert_eq!(
        session.shared_queue[0].owner_nickname.as_deref(),
        Some("dj")
    );
}

#[test]
fn host_only_allows_listener_nickname_update() {
    let mut session = OnlineSession::host("host");
    session.mode = OnlineRoomMode::HostOnly;
    session.participants.push(listener(12));

    apply_action_to_session(
        &mut session,
        LocalAction::SetNickname {
            nickname: String::from("listener2"),
        },
        "listener",
    );

    assert!(
        session
            .participants
            .iter()
            .any(|participant| participant.nickname == "listener2")
    );
}

#[test]
fn smooth_ping_prefers_recent_history() {
    assert_eq!(smooth_ping(0, 38), 38);
    assert_eq!(smooth_ping(100, 20), 80);
}
