use desktop_stream::sender::config::{parse_monitor, parse_resolution};

#[test]
fn parse_resolution_valid() {
    let parsed = parse_resolution("1280x720").unwrap();
    assert_eq!(parsed.width, 1280);
    assert_eq!(parsed.height, 720);
}

#[test]
fn parse_resolution_invalid() {
    assert!(parse_resolution("invalid").is_err());
    assert!(parse_resolution("1280x0").is_err());
}

#[test]
fn parse_monitor_valid() {
    let parsed = parse_monitor("1:2").unwrap();
    assert_eq!(parsed.adapter_index, 1);
    assert_eq!(parsed.output_index, 2);
}
