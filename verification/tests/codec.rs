use desktop_stream::codec::h264::parse_nal_units;

#[test]
fn test_parse_nal_units() {
    let test_data = vec![
        0x00, 0x00, 0x00, 0x01, 0x67, 0x42, 0x00, 0x1e,
        0x00, 0x00, 0x00, 0x01, 0x68, 0xce, 0x3c, 0x80,
        0x00, 0x00, 0x01, 0x65, 0x88, 0x84, 0x00,
    ];

    let nal_units = parse_nal_units(&test_data);

    assert!(nal_units.len() >= 2, "Should find at least 2 NAL units");

    let nal_types: Vec<u8> = nal_units.iter().map(|(_, _, t)| *t).collect();
    println!("Parsed NAL types: {:?}", nal_types);
}
