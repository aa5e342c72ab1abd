use tune::home::{
    directory_listing, resolve_from_response, room_idle_update, room_lookup_key, rooms_from_response,
    validate_new_room, verify_response, home_request_decision, HomeDecision, HomeError, HomeRequest,
    HomeResponse, HomeRoomDirectoryEntry, HomeRoomResolved,
};
use tune::invite::Ipv4Endpoint;
use tune::stun::{
    advertise_needs_detection, is_public_ipv4, parse_mapped_ipv4, parse_stun_mapped_ipv4,
    resolve_advertise_addr, stun_binding_request, Ipv4Octets,
};

fn entry(name: &str) -> HomeRoomDirectoryEntry {
    HomeRoomDirectoryEntry {
        room_name: String::from(name),
        room_code: name.to_uppercase(),
        locked: false,
        current_connections: 1,
        max_connections: 8,
    }
}

#[test]
fn parses_xor_mapped_ipv4_from_stun_response() {
    let txid = [1_u8, 2, 3, 4, 5, 6, 7, 8, 9, 10, 11, 12];
    let mapped = [74_u8, 199, 151, 6];
    let cookie = 0x2112_A442u32.to_be_bytes();
    let xored = [
        mapped[0] ^ cookie[0],
        mapped[1] ^ cookie[1],
        mapped[2] ^ cookie[2],
        mapped[3] ^ cookie[3],
    ];

    let mut packet = Vec::new();
    packet.extend_from_slice(&0x0101u16.to_be_bytes());
    packet.extend_from_slice(&12_u16.to_be_bytes());
    packet.extend_from_slice(&0x2112_A442u32.to_be_bytes());
    packet.extend_from_slice(&txid);
    packet.extend_from_slice(&0x0020u16.to_be_bytes());
    packet.extend_from_slice(&8_u16.to_be_bytes());
    packet.push(0);
    packet.push(0x01);
    packet.extend_from_slice(&0_u16.to_be_bytes());
    packet.extend_from_slice(&xored);

    let parsed = parse_stun_mapped_ipv4(&packet, &txid).expect("parsed mapped ip");
    assert_eq!(parsed, Ipv4Octets { a: 74, b: 199, c: 151, d: 6 });

    let mut other_tx = packet.clone();
    other_tx[8] = 99;
    assert_eq!(parse_stun_mapped_ipv4(&other_tx, &txid), None);
    assert_eq!(parse_stun_mapped_ipv4(&packet[..19], &txid), None);
}

#[test]
fn stun_request_carries_cookie_and_transaction() {
    let txid = [9u8; 12];
    let request = stun_binding_request(&txid);
    assert_eq!(&request[..8], &[0, 1, 0, 0, 0x21, 0x12, 0xA4, 0x42]);
    assert_eq!(&request[8..], &txid);
    assert_eq!(parse_mapped_ipv4(&[0, 1, 0, 0, 8, 8, 4, 4]), Some(Ipv4Octets { a: 8, b: 8, c: 4, d: 4 }));
    assert_eq!(parse_mapped_ipv4(&[0, 2, 0, 0, 8, 8, 4, 4]), None);
}

#[test]
fn advertised_address_prefers_public_bind_then_detected_then_loopback() {
    assert!(is_public_ipv4(Ipv4Octets { a: 8, b: 8, c: 8, d: 8 }));
    assert!(!is_public_ipv4(Ipv4Octets { a: 192, b: 168, c: 0, d: 2 }));
    assert!(!is_public_ipv4(Ipv4Octets { a: 198, b: 51, c: 100, d: 7 }));
    let public = Ipv4Endpoint { a: 8, b: 8, c: 8, d: 8, port: 7878 };
    let any = Ipv4Endpoint { a: 0, b: 0, c: 0, d: 0, port: 7878 };
    assert!(!advertise_needs_detection(public));
    assert!(advertise_needs_detection(any));
    assert_eq!(resolve_advertise_addr(public, None), "8.8.8.8:7878");
    assert_eq!(
        resolve_advertise_addr(any, Some(Ipv4Octets { a: 1, b: 2, c: 3, d: 4 })),
        "1.2.3.4:7878"
    );
    assert_eq!(resolve_advertise_addr(any, None), "127.0.0.1:7878");
}

#[test]
fn home_responses_map_to_results() {
    let resolved = HomeRoomResolved {
        room_name: String::from("Den"),
        room_code: String::from("DEN"),
        room_server_addr: String::from("1.2.3.4:9000"),
        locked: true,
        current_connections: 2,
        max_connections: 8,
    };
    let room = resolve_from_response(HomeResponse::RoomResolved { room: resolved }).expect("room");
    assert_eq!(room.room_server_addr, "1.2.3.4:9000");
    match resolve_from_response(HomeResponse::Error { message: String::from("room not found") }) {
        Err(HomeError::Server(message)) => assert_eq!(message, "room not found"),
        other => panic!("unexpected {other:?}"),
    }
    assert!(matches!(resolve_from_response(HomeResponse::Accepted), Err(HomeError::UnexpectedResponse)));
    assert!(verify_response(HomeResponse::Accepted).is_ok());
    assert!(rooms_from_response(HomeResponse::Rooms { rooms: vec![entry("a")] }).is_ok());
}

#[test]
fn new_rooms_are_validated() {
    let keys = vec![String::from("den")];
    assert!(matches!(validate_new_room("   ", 8, &keys), Err(HomeError::RoomNameRequired)));
    assert!(matches!(validate_new_room("Lab", 1, &keys), Err(HomeError::MaxConnectionsOutOfRange)));
    assert!(matches!(validate_new_room("Lab", 33, &keys), Err(HomeError::MaxConnectionsOutOfRange)));
    assert!(matches!(validate_new_room(" DEN ", 8, &keys), Err(HomeError::RoomExists)));
    assert_eq!(validate_new_room(" Lab ", 2, &keys).expect("ok"), "Lab");
    assert_eq!(room_lookup_key("  Lo Fi "), "lo fi");
}

#[test]
fn empty_rooms_close_after_the_grace_period() {
    assert_eq!(room_idle_update(3, Some(10), 50_000), (None, false));
    assert_eq!(room_idle_update(0, None, 1_000), (Some(1_000), false));
    assert_eq!(room_idle_update(0, Some(1_000), 3_999), (Some(1_000), false));
    assert_eq!(room_idle_update(0, Some(1_000), 4_000), (Some(1_000), true));
}

#[test]
fn directory_lists_matching_rooms_in_name_order() {
    let rooms = vec![entry("zeta"), entry("Alpha"), entry("beta lounge"), entry("Gamma")];
    let all = directory_listing(&rooms, None);
    let names: Vec<&str> = all.iter().map(|e| e.room_name.as_str()).collect();
    assert_eq!(names, vec!["Alpha", "Gamma", "beta lounge", "zeta"]);
    let some = directory_listing(&rooms, Some("A"));
    let names: Vec<&str> = some.iter().map(|e| e.room_name.as_str()).collect();
    assert_eq!(names, vec!["Alpha", "Gamma", "beta lounge", "zeta"]);
    let lounge = directory_listing(&rooms, Some("LOUNGE"));
    assert_eq!(lounge.len(), 1);
    assert_eq!(lounge[0].room_name, "beta lounge");
}

fn error_of(decision: HomeDecision) -> String {
    match decision {
        HomeDecision::Respond(HomeResponse::Error { message }) => message,
        other => panic!("expected an error, got {other:?}"),
    }
}

#[test]
fn home_requests_are_answered_from_the_directory() {
    let rooms = vec![entry("Lounge"), entry("Attic")];
    assert!(matches!(
        home_request_decision(HomeRequest::Verify, &rooms),
        HomeDecision::Respond(HomeResponse::Accepted)
    ));
    match home_request_decision(HomeRequest::ListRooms { query: Some(String::from("T")) }, &rooms) {
        HomeDecision::Respond(HomeResponse::Rooms { rooms: listed }) => {
            let names: Vec<&str> = listed.iter().map(|r| r.room_name.as_str()).collect();
            assert_eq!(names, vec!["Attic"]);
        },
        other => panic!("unexpected {other:?}"),
    }
    assert!(matches!(
        home_request_decision(HomeRequest::ResolveRoom { room_name: String::from("  attic ") }, &rooms),
        HomeDecision::ResolveAt(1)
    ));
    assert_eq!(
        error_of(home_request_decision(HomeRequest::ResolveRoom { room_name: String::from("cellar") }, &rooms)),
        "room not found"
    );
}

#[test]
fn home_room_creation_checks_name_limit_and_key() {
    let rooms = vec![entry("Lounge")];
    let create = |name: &str, password: Option<&str>, max: u16| HomeRequest::CreateRoom {
        room_name: name.to_string(),
        owner_nickname: String::from("host"),
        password: password.map(str::to_string),
        max_connections: max,
    };
    assert_eq!(error_of(home_request_decision(create("   ", None, 8), &rooms)), "room name is required");
    assert_eq!(error_of(home_request_decision(create("Den", None, 1), &rooms)), "max connections must be 2..=32 ");
    assert_eq!(error_of(home_request_decision(create(" LOUNGE ", None, 8), &rooms)), "room already exists");
    match home_request_decision(create(" Den ", Some("  secret "), 4), &rooms) {
        HomeDecision::StartRoom { room_name, room_code, password, max_connections } => {
            assert_eq!(room_name, "Den");
            assert_eq!(room_code, "DEN");
            assert_eq!(password.as_deref(), Some("secret"));
            assert_eq!(max_connections, 4);
        },
        other => panic!("unexpected {other:?}"),
    }
    match home_request_decision(create("Den", Some("   "), 4), &rooms) {
        HomeDecision::StartRoom { password, .. } => assert!(password.is_none()),
        other => panic!("unexpected {other:?}"),
    }
}
