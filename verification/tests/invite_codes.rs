use tune::invite::{
    base32_decode_no_padding, base32_encode_no_padding, build_invite_code, decode_invite_code,
    format_endpoint, invite_code_with_salt, parse_socket_addr_v4, InviteError, Ipv4Endpoint,
};

#[test]
fn invite_code_round_trips_with_password_key() {
    let code = build_invite_code("192.168.1.33:7878", "party123").expect("code build");
    let decoded = decode_invite_code(&code, "party123").expect("decode");
    assert_eq!(decoded.server_addr, "192.168.1.33:7878");
    assert_eq!(decoded.room_code, code);
}

#[test]
fn invite_code_rejects_wrong_password() {
    let code = build_invite_code("10.0.0.8:9000", "party123").expect("code build");
    let decoded = decode_invite_code(&code, "wrong-pass");
    assert!(decoded.is_err());
}

#[test]
fn invite_code_requires_password() {
    let code = build_invite_code("10.0.0.8:9000", "party123").expect("code build");
    let decoded = decode_invite_code(&code, "");
    assert!(decoded.is_err());
}

#[test]
fn invite_code_uses_secure_prefix() {
    let code = build_invite_code("10.0.0.8:9000", "party123").expect("code build");
    assert!(code.starts_with("T2"));
}

#[test]
fn invite_code_errors_name_their_cause() {
    assert_eq!(build_invite_code("not-an-address", "pw").err(), Some(InviteError::UnsupportedAddress));
    assert_eq!(build_invite_code("[::1]:80", "pw").err(), Some(InviteError::UnsupportedAddress));
    assert_eq!(build_invite_code("1.2.3.4:80", "   ").err(), Some(InviteError::PasswordRequired));
    let long = "x".repeat(33);
    assert_eq!(build_invite_code("1.2.3.4:80", &long).err(), Some(InviteError::PasswordTooLong));
    assert_eq!(decode_invite_code("X2ABC", "pw").err(), Some(InviteError::InvalidPrefix));
    assert_eq!(decode_invite_code("T2AB1", "pw").err(), Some(InviteError::InvalidCharacter));
    assert_eq!(decode_invite_code("T2AB", "pw").err(), Some(InviteError::PayloadLength));
    let code = build_invite_code("10.0.0.8:9000", "party123").expect("code");
    assert_eq!(decode_invite_code(&code, "nope").err(), Some(InviteError::BadChecksum));
}

#[test]
fn invite_code_accepts_lower_case_and_padding_around_it() {
    let code = build_invite_code("10.0.0.8:9000", " party123 ").expect("code");
    let lowered = format!("  {}\n", code.to_lowercase());
    let decoded = decode_invite_code(&lowered, "party123").expect("decode");
    assert_eq!(decoded.server_addr, "10.0.0.8:9000");
    assert_eq!(decoded.room_code, code);
}

#[test]
fn invite_code_with_fixed_salt_is_deterministic() {
    let e = Ipv4Endpoint { a: 127, b: 0, c: 0, d: 1, port: 7878 };
    let salt = [7u8; 12];
    let a = invite_code_with_salt(e, b"secret", &salt);
    let b = invite_code_with_salt(e, b"secret", &salt);
    assert_eq!(a, b);
    assert_eq!(a.len(), 2 + 44);
    let decoded = decode_invite_code(&a, "secret").expect("decode");
    assert_eq!(decoded.server_addr, "127.0.0.1:7878");
}

#[test]
fn base32_matches_known_text_and_round_trips() {
    let text: String = base32_encode_no_padding(&[0xFF]).into_iter().collect();
    assert_eq!(text, "96");
    let data = [0u8, 1, 2, 3, 250, 251, 252];
    let encoded = base32_encode_no_padding(&data);
    assert_eq!(encoded.len(), (8 * data.len() + 4) / 5);
    assert_eq!(base32_decode_no_padding(&encoded), Some(data.to_vec()));
    assert_eq!(base32_decode_no_padding(&['A', 'I']), None);
    assert_eq!(base32_decode_no_padding(&[]), Some(Vec::new()));
}

#[test]
fn socket_addresses_parse_like_the_standard_parser() {
    assert_eq!(
        parse_socket_addr_v4(" 192.168.1.33:7878 "),
        Some(Ipv4Endpoint { a: 192, b: 168, c: 1, d: 33, port: 7878 })
    );
    assert_eq!(parse_socket_addr_v4("1.2.3.4:0080").map(|e| e.port), Some(80));
    assert_eq!(parse_socket_addr_v4("01.2.3.4:80"), None);
    assert_eq!(parse_socket_addr_v4("256.2.3.4:80"), None);
    assert_eq!(parse_socket_addr_v4("1.2.3:80"), None);
    assert_eq!(parse_socket_addr_v4("1.2.3.4:65536"), None);
    assert_eq!(parse_socket_addr_v4("1.2.3.4"), None);
    assert_eq!(format_endpoint(Ipv4Endpoint { a: 10, b: 0, c: 0, d: 8, port: 9000 }), "10.0.0.8:9000");
}
