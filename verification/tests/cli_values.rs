use tune::cli::{parse_port_range, parse_screenshot_size};

#[test]
fn parse_port_range_accepts_valid_input() {
    assert_eq!(parse_port_range("9000-9100").expect("range"), (9000, 9100));
}

#[test]
fn parse_port_range_rejects_invalid_input() {
    assert!(parse_port_range("9100-9000").is_err());
    assert!(parse_port_range("abc-def").is_err());
    assert!(parse_port_range("0-10").is_err());
}

#[test]
fn parse_screenshot_size_accepts_cols_by_rows() {
    assert_eq!(parse_screenshot_size("120x36").unwrap(), (120, 36));
    assert_eq!(parse_screenshot_size("90X30").unwrap(), (90, 30));
}
