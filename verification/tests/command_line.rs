use tune::cli::{
    local_home_target_from_bind_addr, normalize_home_server_addr, parse_args, screenshot_scale_text,
    ArgsErrorKind, CliError, ScaleText,
};
use tune::netaddr::{is_ipv6_addr, parse_socket_v6};

fn args(values: &[&str]) -> Vec<String> {
    values.iter().map(|value| (*value).to_string()).collect()
}

fn chars(s: &str) -> Vec<char> {
    s.chars().collect()
}

#[test]
fn local_home_target_maps_unspecified_v4_to_loopback() {
    assert_eq!(
        local_home_target_from_bind_addr("0.0.0.0:7878"),
        "127.0.0.1:7878"
    );
}

#[test]
fn local_home_target_keeps_specific_host() {
    assert_eq!(
        local_home_target_from_bind_addr("198.51.100.42:7878"),
        "198.51.100.42:7878"
    );
}

#[test]
fn screenshot_options_require_screenshot_mode() {
    assert!(parse_args(args(&["--screenshot-size", "120x36"])).is_err());
}

#[test]
fn normalize_home_server_addr_adds_default_port() {
    assert_eq!(
        normalize_home_server_addr("198.51.100.42"),
        "198.51.100.42:7878"
    );
    assert_eq!(
        normalize_home_server_addr("example.com"),
        "example.com:7878"
    );
}

#[test]
fn normalize_home_server_addr_keeps_explicit_port() {
    assert_eq!(
        normalize_home_server_addr("198.51.100.42:9000"),
        "198.51.100.42:9000"
    );
}

#[test]
fn parse_args_accepts_explicit_host_ip() {
    let parsed = parse_args(args(&["--host", "--host-ip", "0.0.0.0"])).expect("args");
    assert!(parsed.host);
    assert_eq!(parsed.host_ip.as_deref(), Some("0.0.0.0:7878"));
    assert_eq!(parsed.ip, None);
}

#[test]
fn parse_args_keeps_host_ip_port() {
    let parsed = parse_args(args(&["--host", "--host-ip", "0.0.0.0:9000"])).expect("args");
    assert_eq!(parsed.host_ip.as_deref(), Some("0.0.0.0:9000"));
}

#[test]
fn parse_args_keeps_legacy_host_ip_alias() {
    let parsed = parse_args(args(&["--host", "--ip", "0.0.0.0"])).expect("args");
    assert!(parsed.host);
    assert_eq!(parsed.ip.as_deref(), Some("0.0.0.0:7878"));
    assert_eq!(parsed.host_ip, None);
}

#[test]
fn parse_args_uses_ip_as_connect_target_without_host() {
    let parsed = parse_args(args(&["--ip", "192.168.1.100"])).expect("args");
    assert!(!parsed.host);
    assert_eq!(parsed.ip.as_deref(), Some("192.168.1.100:7878"));
    assert_eq!(parsed.host_ip, None);
}

#[test]
fn parse_args_accepts_screenshot_mode() {
    let parsed = parse_args(args(&[
        "--screenshots",
        "--screenshot-pages",
        "library,stats",
        "--screenshot-size",
        "120x36",
        "--screenshot-font-scale",
        "1.2",
    ]))
    .unwrap();

    assert!(parsed.screenshots);
    assert_eq!(parsed.screenshot_pages, ["library", "stats"]);
    assert_eq!(parsed.screenshot_sizes, [(120, 36)]);
    let scale = parsed
        .screenshot_font_scale
        .as_deref()
        .map(|raw| raw.parse::<f32>().expect("number"));
    assert_eq!(scale, Some(1.2));
}

#[test]
fn parse_args_rejects_ambiguous_host_ip_and_ip() {
    let err = parse_args(args(&[
        "--host",
        "--host-ip",
        "0.0.0.0",
        "--ip",
        "192.168.1.100",
    ]))
    .expect_err("ambiguous args should fail");
    assert!(err.message().contains("not both"));
}

#[test]
fn parse_args_rejects_host_ip_without_host() {
    let err = parse_args(args(&["--host-ip", "0.0.0.0"]))
        .expect_err("host-ip without host should fail");
    assert!(err.message().contains("requires --host"));
}

// ---------------------------------------------------------------------------
// Further cases
// ---------------------------------------------------------------------------

#[test]
fn ipv6_text_is_read_as_the_standard_parser_reads_it() {
    let accepted = [
        "::", "::1", "1::", "1:2:3:4:5:6:7:8", "1:2:3:4:5:6:7::", "::2:3:4:5:6:7:8",
        "fe80::1ff:fe23:4567:890a", "::ffff:192.0.2.1", "1:2:3:4:5:6:1.2.3.4", "ABCD:ef01::",
        "1:2:3:4:5::1.2.3.4", "::0:0:0:0:0:0:0", "::0:0:0:0:0:0",
    ];
    let refused = [
        "1:2:3:4:5:6:7:8:9", "1::2::3", ":::", ":1::", "1:::2", "12345::", "1:2:3:4:5:1.2.3.4",
        "1.2.3.4::", "::1.2.3.4:5", "::1.2.3.256", "::01.2.3.4", "", "1", "0.0.0.0", "[::1]",
        "g::", "1:2:3:4:5:6::1.2.3.4", "1:2:3:4:5:6:7:8::",
    ];
    for s in accepted {
        assert!(is_ipv6_addr(&chars(s)), "{s}");
    }
    for s in refused {
        assert!(!is_ipv6_addr(&chars(s)), "{s}");
    }
}

#[test]
fn ipv6_socket_addresses_are_read_with_zone_and_port() {
    assert_eq!(parse_socket_v6(&chars("[::]:7878")), Some((true, 7878)));
    assert_eq!(parse_socket_v6(&chars("[::1]:80")), Some((false, 80)));
    assert_eq!(parse_socket_v6(&chars("[fe80::1%3]:8080")), Some((false, 8080)));
    assert_eq!(parse_socket_v6(&chars("[0:0::0.0.0.0]:9")), Some((true, 9)));
    assert_eq!(parse_socket_v6(&chars("[1:2:3:4:5:6:7:8]:0")), Some((false, 0)));
    for s in ["[fe80::1%]:80", "[::1]", "[::1]:", "[::1]:65536", "::1:80", "[::1]x:80"] {
        assert_eq!(parse_socket_v6(&chars(s)), None, "{s}");
    }
}

#[test]
fn ipv6_addresses_get_brackets_and_unspecified_v6_binds_map_to_loopback() {
    assert_eq!(normalize_home_server_addr("::1"), "[::1]:7878");
    assert_eq!(normalize_home_server_addr("[::1]:9000"), "[::1]:9000");
    assert_eq!(normalize_home_server_addr("[::1]"), "[::1]:7878");
    assert_eq!(normalize_home_server_addr("host:abc"), "host:abc:7878");
    assert_eq!(local_home_target_from_bind_addr("[::]:9000"), "127.0.0.1:9000");
    assert_eq!(local_home_target_from_bind_addr("[::1]:9000"), "[::1]:9000");
}

#[test]
fn parse_args_reports_each_refusal() {
    let kind = |values: &[&str]| parse_args(args(values)).expect_err("refused").kind;
    assert_eq!(kind(&["--ip"]), ArgsErrorKind::IpMissing);
    assert_eq!(kind(&["--ip", "  "]), ArgsErrorKind::IpEmpty);
    assert_eq!(kind(&["--host", "--host-ip"]), ArgsErrorKind::HostIpMissing);
    assert_eq!(kind(&["--room-port-range"]), ArgsErrorKind::RoomPortRangeMissing);
    assert_eq!(
        kind(&["--host", "--room-port-range", "10-1"]),
        ArgsErrorKind::RoomPortRange(CliError::PortRangeOrder)
    );
    assert_eq!(kind(&["--room-port-range", "1-10"]), ArgsErrorKind::RoomPortRangeWithoutHost);
    assert_eq!(
        kind(&["--screenshots", "--screenshot-size", "10x10"]),
        ArgsErrorKind::ScreenshotSize(CliError::ScreenshotTooSmall)
    );
    assert_eq!(kind(&["--screenshots", "--app"]), ArgsErrorKind::ScreenshotsWithAppOrHost);
    let unknown = parse_args(args(&["--nope"])).expect_err("unknown");
    assert_eq!(unknown.kind, ArgsErrorKind::UnknownArgument);
    assert_eq!(unknown.message(), "unknown argument --nope");
    let help = parse_args(args(&["--help", "--nope"])).expect("help");
    assert!(help.help);
    let pages = parse_args(args(&["--screenshots", "--screenshot-pages", " a, ,b ,"])).expect("pages");
    assert_eq!(pages.screenshot_pages, ["a", "b"]);
    let default = parse_args(Vec::new()).expect("no arguments");
    assert!(!default.host && !default.app && default.ip.is_none());
}

#[test]
fn font_scale_is_checked_where_it_is_read() {
    let bad = parse_args(args(&["--screenshot-font-scale", "big"])).unwrap_err();
    assert!(matches!(bad.kind, ArgsErrorKind::ScreenshotFontScaleInvalid));
    assert_eq!(bad.message(), "invalid screenshot font scale");
    let zero = parse_args(args(&["--screenshot-font-scale", "0.0"])).unwrap_err();
    assert_eq!(zero.message(), "--screenshot-font-scale must be positive");
    let fine = parse_args(args(&["--screenshot-font-scale", "1.5"])).unwrap_err();
    assert!(matches!(fine.kind, ArgsErrorKind::ScreenshotOptionsWithoutScreenshots));
}

#[test]
fn font_scale_text_follows_number_syntax() {
    assert_eq!(screenshot_scale_text("1.2"), ScaleText::Positive);
    assert_eq!(screenshot_scale_text("+.5e1"), ScaleText::Positive);
    assert_eq!(screenshot_scale_text("3."), ScaleText::Positive);
    assert_eq!(screenshot_scale_text("-1"), ScaleText::NotPositive);
    assert_eq!(screenshot_scale_text("0e5"), ScaleText::NotPositive);
    assert_eq!(screenshot_scale_text("INF"), ScaleText::NotPositive);
    assert_eq!(screenshot_scale_text("NaN"), ScaleText::NotPositive);
    assert_eq!(screenshot_scale_text(""), ScaleText::Invalid);
    assert_eq!(screenshot_scale_text("."), ScaleText::Invalid);
    assert_eq!(screenshot_scale_text("1e"), ScaleText::Invalid);
    assert_eq!(screenshot_scale_text("1.2.3"), ScaleText::Invalid);
    assert_eq!(screenshot_scale_text(" 1"), ScaleText::Invalid);
    for text in ["1.2", "+.5e1", "3.", "-1", "0e5", "INF", "NaN", "", ".", "1e", "1.2.3", " 1", "1e+3", "x"] {
        let parsed = text.parse::<f32>();
        match screenshot_scale_text(text) {
            ScaleText::Invalid => assert!(parsed.is_err(), "{text}"),
            ScaleText::NotPositive => assert!(parsed.map(|v| !v.is_finite() || v <= 0.0).unwrap(), "{text}"),
            ScaleText::Positive => assert!(parsed.map(|v| v.is_finite() && v > 0.0).unwrap(), "{text}"),
        }
    }
}
