use desktop_stream::error::AppError;
use desktop_stream::network::addr::{parse_socket_address, SocketAddress};
use desktop_stream::network::assembly::FrameAssembly;
use desktop_stream::network::endpoint::{
    clamp_redundancy, parse_socket_addr, validate_address, EndpointConfig, HANDSHAKE_RETRIES,
};
use desktop_stream::network::fragment::{ceil_fragments, AdaptivePacketSizer, FragmentPlan};
use desktop_stream::network::jitter::JitterBuffer;
use desktop_stream::network::receiver::ReceiverState;
use desktop_stream::network::session::{
    handshake_request, open_handshake, FramePayload, HandshakeAttempt, HandshakeStep, SenderState,
};
use desktop_stream::network::wire::{
    DataPacket, HandshakeAck, HandshakeMessage, PacketFlags, PacketHeader, WireMessage, PROTOCOL_VERSION,
};

fn message(e: AppError) -> String {
    match e {
        AppError::Message(m) => m,
        other => panic!("unexpected error {:?}", other),
    }
}

#[test]
fn ipv4_socket_address_parses() {
    assert_eq!(
        parse_socket_address("127.0.0.1:5000"),
        Some(SocketAddress::V4 { octets: [127, 0, 0, 1], port: 5000 })
    );
    assert_eq!(
        parse_socket_address("0.0.0.0:0"),
        Some(SocketAddress::V4 { octets: [0, 0, 0, 0], port: 0 })
    );
    assert_eq!(
        parse_socket_address("255.255.255.255:65535"),
        Some(SocketAddress::V4 { octets: [255, 255, 255, 255], port: 65535 })
    );
    assert_eq!(
        parse_socket_address("10.1.2.3:0080"),
        Some(SocketAddress::V4 { octets: [10, 1, 2, 3], port: 80 })
    );
}

#[test]
fn malformed_ipv4_socket_addresses_are_refused() {
    for text in [
        "",
        "127.0.0.1",
        "127.0.0.1:",
        "127.0.0:1",
        "256.0.0.1:80",
        "01.0.0.1:80",
        "1.2.3.4:65536",
        "1.2.3.4:80:90",
        " 1.2.3.4:80",
        "1.2.3.4:8a",
        "localhost:80",
    ] {
        assert_eq!(parse_socket_address(text), None, "{text}");
    }
}

#[test]
fn ipv6_socket_addresses_parse() {
    assert_eq!(
        parse_socket_address("[::1]:8080"),
        Some(SocketAddress::V6 { segments: [0, 0, 0, 0, 0, 0, 0, 1], scope_id: 0, port: 8080 })
    );
    assert_eq!(
        parse_socket_address("[::]:9"),
        Some(SocketAddress::V6 { segments: [0; 8], scope_id: 0, port: 9 })
    );
    assert_eq!(
        parse_socket_address("[2001:db8::ff00:42:8329]:443"),
        Some(SocketAddress::V6 {
            segments: [0x2001, 0xdb8, 0, 0, 0, 0xff00, 0x42, 0x8329],
            scope_id: 0,
            port: 443
        })
    );
    assert_eq!(
        parse_socket_address("[1:2:3:4:5:6:7:8]:1"),
        Some(SocketAddress::V6 { segments: [1, 2, 3, 4, 5, 6, 7, 8], scope_id: 0, port: 1 })
    );
    assert_eq!(
        parse_socket_address("[fe80::1%3]:5000"),
        Some(SocketAddress::V6 { segments: [0xfe80, 0, 0, 0, 0, 0, 0, 1], scope_id: 3, port: 5000 })
    );
    assert_eq!(
        parse_socket_address("[::ffff:192.168.0.1]:80"),
        Some(SocketAddress::V6 { segments: [0, 0, 0, 0, 0, 0xffff, 0xc0a8, 0x0001], scope_id: 0, port: 80 })
    );
    assert_eq!(
        parse_socket_address("[ABCD:ef01::]:7"),
        Some(SocketAddress::V6 { segments: [0xabcd, 0xef01, 0, 0, 0, 0, 0, 0], scope_id: 0, port: 7 })
    );
}

#[test]
fn malformed_ipv6_socket_addresses_are_refused() {
    for text in [
        "[::1]",
        "::1:80",
        "[::1:80",
        "[1:2:3:4:5:6:7:8:9]:80",
        "[1:2:3:4:5:6:7]:80",
        "[12345::]:80",
        "[1::2::3]:80",
        "[::1%]:80",
        "[1.2.3.4::]:80",
        "[::1]:70000",
        "[:::1]:80",
    ] {
        assert_eq!(parse_socket_address(text), None, "{text}");
    }
}

#[test]
fn invalid_address_error_quotes_the_text() {
    let err = parse_socket_addr("nowhere").unwrap_err();
    assert_eq!(message(err), "invalid socket address 'nowhere': invalid socket address syntax");
    assert!(validate_address("1.2.3.4:5").is_ok());
    let err = validate_address("1.2.3.4").unwrap_err();
    assert_eq!(message(err), "invalid socket address '1.2.3.4': invalid socket address syntax");
}

#[test]
fn endpoint_validation_reports_each_problem() {
    let ok = EndpointConfig::new("127.0.0.1:5000");
    assert!(ok.validate().is_ok());
    assert_eq!(ok.handshake_timeout(), 250);
    assert_eq!(message(EndpointConfig::new("   ").validate().unwrap_err()), "network address cannot be empty");
    assert_eq!(
        message(EndpointConfig::new("nope").validate().unwrap_err()),
        "invalid socket address 'nope': invalid socket address syntax"
    );
    assert_eq!(
        message(EndpointConfig::new("127.0.0.1:5000").with_bind_address("x").validate().unwrap_err()),
        "invalid socket address 'x': invalid socket address syntax"
    );
    let base = EndpointConfig::new("127.0.0.1:5000");
    let mut c = base.clone();
    c.target_bitrate = 0;
    assert_eq!(message(c.validate().unwrap_err()), "target bitrate must be greater than zero");
    let mut c = base.clone();
    c.max_packet_payload = 100;
    assert_eq!(message(c.validate().unwrap_err()), "max packet payload must be between 256 and 1300 bytes");
    let mut c = base.clone();
    c.max_packet_payload = 1_301;
    assert_eq!(message(c.validate().unwrap_err()), "max packet payload must be between 256 and 1300 bytes");
    let mut c = base.clone();
    c.jitter_buffer_capacity = 0;
    assert_eq!(message(c.validate().unwrap_err()), "jitter buffer capacity must be greater than zero");
    let mut c = base.clone();
    c.key_frame_redundancy = 0;
    assert_eq!(message(c.validate().unwrap_err()), "key frame redundancy must be at least 1");
    // The builders keep a configuration valid.
    let built = base.with_target_bitrate(0).with_max_packet_payload(100).with_jitter_capacity(0).with_key_frame_redundancy(0);
    assert!(built.validate().is_ok());
    assert_eq!(built.max_packet_payload, 1_200);
    assert_eq!(built.key_frame_redundancy, 1);
}

#[test]
fn bind_address_defaults_to_unspecified_of_same_family() {
    let v4 = EndpointConfig::new("10.0.0.2:7000");
    assert_eq!(v4.remote_addr().unwrap(), SocketAddress::V4 { octets: [10, 0, 0, 2], port: 7000 });
    assert_eq!(v4.bind_addr().unwrap(), SocketAddress::V4 { octets: [0, 0, 0, 0], port: 7000 });
    let v6 = EndpointConfig::new("[::1]:7001");
    assert_eq!(v6.bind_addr().unwrap(), SocketAddress::V6 { segments: [0; 8], scope_id: 0, port: 7001 });
    let bound = EndpointConfig::new("10.0.0.2:7000").with_bind_address("192.168.1.1:1234");
    assert_eq!(bound.bind_addr().unwrap(), SocketAddress::V4 { octets: [192, 168, 1, 1], port: 1234 });
}

#[test]
fn redundancy_is_clamped() {
    assert_eq!(clamp_redundancy(0), 1);
    assert_eq!(clamp_redundancy(3), 3);
    assert_eq!(clamp_redundancy(9), 4);
}

#[test]
fn handshake_request_clamps_payload_and_redundancy() {
    let config = EndpointConfig::new("127.0.0.1:5000").with_max_packet_payload(5_000).with_key_frame_redundancy(9);
    let m = handshake_request(&config, 77);
    assert_eq!(m.session_id, 77);
    assert_eq!(m.target_bitrate, 6_000_000);
    assert_eq!(m.max_packet_payload, 1_300);
    assert_eq!(m.key_frame_redundancy, 4);
    let opened = open_handshake(&config);
    assert_eq!(opened.max_packet_payload, 1_300);
    assert_eq!(opened.key_frame_redundancy, 4);
}

fn established_sender(payload: u32, redundancy: u8) -> SenderState {
    let config = EndpointConfig::new("127.0.0.1:5000");
    let mut sender = SenderState::new(config);
    let ack = HandshakeAck {
        session_id: 9,
        accepted_packet_payload: payload,
        jitter_capacity: 32,
        key_frame_redundancy: redundancy,
    };
    assert!(!sender.accept_reply(8, &WireMessage::HandshakeAck(ack)));
    assert!(sender.session.is_none());
    assert!(sender.accept_reply(9, &WireMessage::HandshakeAck(ack)));
    sender
}

#[test]
fn accepted_handshake_sets_up_the_session() {
    let sender = established_sender(100, 7);
    let session = sender.session.unwrap();
    assert_eq!(session.session_id, 9);
    assert_eq!(session.next_frame_id, 0);
    assert_eq!(session.max_payload, 256);
    assert_eq!(session.redundancy, 4);
    assert_eq!(sender.sizer.max_payload, 256);
}

#[test]
fn frame_without_session_is_refused() {
    let mut sender = SenderState::new(EndpointConfig::new("127.0.0.1:5000"));
    let data = vec![1u8; 10];
    let err = sender.prepare_frame(&FramePayload::new(&data), 5).unwrap_err();
    assert_eq!(message(err), "handshake did not produce a session");
}

#[test]
fn empty_frame_yields_no_packet() {
    let mut sender = established_sender(1_200, 2);
    let packets = sender.prepare_frame(&FramePayload::new(&[]), 5).unwrap();
    assert!(packets.is_empty());
    assert_eq!(sender.session.unwrap().next_frame_id, 0);
}

#[test]
fn key_frame_packets_are_repeated_and_numbered() {
    let mut sender = established_sender(300, 2);
    let data: Vec<u8> = (0..700u32).map(|i| (i % 251) as u8).collect();
    let frame = FramePayload::new(&data).with_timestamp(1_000).as_key_frame();
    let packets = sender.prepare_frame(&frame, 5).unwrap();
    let session = sender.session.unwrap();
    assert_eq!(session.next_frame_id, 1);
    assert_eq!(session.next_sequence as usize, packets.len());
    let mut fragments = 0;
    for (n, p) in packets.iter().enumerate() {
        match p {
            WireMessage::Data(d) => {
                assert_eq!(n % 2, 0);
                assert!(d.header.flags.is_key());
                assert_eq!(d.header.sequence, n as u64);
                assert_eq!(d.header.timestamp_micros, 1_000);
                assert_eq!(d.header.fragment_index as usize, fragments);
                fragments += 1;
            }
            WireMessage::Redundant(d) => {
                assert_eq!(n % 2, 1);
                assert_eq!(d.header.flags.0, 3);
                assert_eq!(d.header.sequence, n as u64);
            }
            other => panic!("unexpected message {:?}", other),
        }
    }
    assert_eq!(packets.len(), fragments * 2);
}

#[test]
fn sent_frame_is_delivered_once_and_intact() {
    let mut sender = established_sender(256, 3);
    let data: Vec<u8> = (0..1_000u32).map(|i| (i * 7 % 256) as u8).collect();
    let frame = FramePayload::new(&data).as_key_frame();
    let packets = sender.prepare_frame(&frame, 123_456).unwrap();

    let mut receiver: ReceiverState<u32> = ReceiverState::new(EndpointConfig::new("0.0.0.0:5000"));
    let request = HandshakeMessage {
        session_id: 9,
        target_bitrate: 6_000_000,
        max_packet_payload: 256,
        key_frame_redundancy: 3,
    };
    let ack = receiver.handle_handshake(request, 1);
    assert_eq!(ack.accepted_packet_payload, 256);
    assert_eq!(ack.key_frame_redundancy, 3);
    assert_eq!(ack.jitter_capacity, 32);

    let mut delivered = Vec::new();
    for p in packets {
        match p {
            WireMessage::Data(d) | WireMessage::Redundant(d) => {
                if let Some(frame) = receiver.handle_data(d, 1) {
                    delivered.push(frame);
                }
            }
            _ => {}
        }
    }
    assert_eq!(delivered.len(), 1);
    let (sid, frame) = delivered.pop().unwrap();
    assert_eq!(sid, 9);
    assert_eq!(frame.frame_id, 0);
    assert_eq!(frame.timestamp_micros, 123_456);
    assert!(frame.flags.is_key());
    assert_eq!(frame.payload, data);
    assert!(receiver.try_pop_ready().is_none());
}

#[test]
fn packets_of_unknown_sessions_are_dropped() {
    let mut receiver: ReceiverState<u32> = ReceiverState::new(EndpointConfig::new("0.0.0.0:5000"));
    let packet = DataPacket {
        header: PacketHeader {
            protocol_version: PROTOCOL_VERSION,
            session_id: 5,
            frame_id: 0,
            sequence: 0,
            timestamp_micros: 0,
            fragment_index: 0,
            fragment_count: 1,
            flags: PacketFlags::empty(),
        },
        payload: vec![1, 2, 3],
    };
    assert!(receiver.handle_data(packet, 1).is_none());
    assert!(receiver.sessions.is_empty());
}

#[test]
fn fragment_plan_ranges_tile_the_payload() {
    let plan = FragmentPlan { fragment_size: 300, fragment_count: 4 };
    let ranges = plan.fragment_ranges(1_000);
    assert_eq!(ranges, vec![0..300, 300..600, 600..900, 900..1_000]);
    assert_eq!(ceil_fragments(1_000, 300), 4);
    assert_eq!(ceil_fragments(0, 300), 1);
    assert_eq!(ceil_fragments(900, 300), 3);
}

#[test]
fn sizer_clamps_its_payload() {
    let mut sizer = AdaptivePacketSizer::new(6_000_000, 5_000);
    assert_eq!(sizer.max_payload, 1_300);
    sizer.update_max_payload(10);
    assert_eq!(sizer.max_payload, 256);
    assert!(sizer.current_payload <= 256);
}

fn packet(frame_id: u64, index: u16, count: u16, flags: PacketFlags, ts: u64, bytes: &[u8]) -> DataPacket {
    DataPacket {
        header: PacketHeader {
            protocol_version: PROTOCOL_VERSION,
            session_id: 1,
            frame_id,
            sequence: 0,
            timestamp_micros: ts,
            fragment_index: index,
            fragment_count: count,
            flags,
        },
        payload: bytes.to_vec(),
    }
}

#[test]
fn assembly_keeps_first_copy_of_a_slot() {
    let mut a = FrameAssembly::new(2, 10, PacketFlags::empty());
    a.insert(packet(4, 1, 2, PacketFlags::empty(), 11, b"b"));
    a.insert(packet(4, 1, 2, PacketFlags::empty(), 12, b"X"));
    assert!(!a.is_complete());
    a.insert(packet(4, 5, 2, PacketFlags::empty(), 13, b"ignored"));
    a.insert(packet(4, 0, 2, PacketFlags(1), 14, b"a"));
    assert!(a.is_complete());
    let f = a.into_frame(4);
    assert_eq!(f.payload, b"ab".to_vec());
    assert_eq!(f.timestamp_micros, 14);
    assert!(f.flags.is_key());
    let r = f.into_received_at(1, 20);
    assert_eq!(r.latency_micros, 6);
    assert_eq!(r.arrival_micros, 20);
    assert!(r.is_key);
}

#[test]
fn received_frame_stamped_in_the_future_has_no_latency() {
    let mut a = FrameAssembly::new(1, 0, PacketFlags::empty());
    a.insert(packet(0, 0, 1, PacketFlags::empty(), 50, b"z"));
    let r = a.into_frame(0).into_received_at(2, 10);
    assert_eq!(r.latency_micros, 0);
    assert!(!r.is_key);
}

#[test]
fn jitter_buffer_gives_up_the_oldest_pending_frame() {
    let mut buffer = JitterBuffer::new(1);
    buffer.push(packet(1, 0, 2, PacketFlags::empty(), 0, b"a"));
    buffer.push(packet(2, 0, 2, PacketFlags::empty(), 0, b"b"));
    // Frame 1 was given up, so its last fragment is ignored.
    buffer.push(packet(1, 1, 2, PacketFlags::empty(), 0, b"c"));
    assert!(buffer.pop_ready().is_none());
    buffer.push(packet(2, 1, 2, PacketFlags::empty(), 0, b"d"));
    let f = buffer.pop_ready().unwrap();
    assert_eq!(f.frame_id, 2);
    assert_eq!(f.payload, b"bd".to_vec());
    // Older frames are no longer accepted.
    buffer.push(packet(2, 0, 1, PacketFlags::empty(), 0, b"e"));
    assert!(!buffer.has_ready());
}

#[test]
fn handshake_leaves_both_ends_agreeing() {
    let sender_config = EndpointConfig::new("127.0.0.1:5000").with_max_packet_payload(1_000).with_key_frame_redundancy(3);
    let receiver_config = EndpointConfig::new("0.0.0.0:5000").with_max_packet_payload(800);
    let request = handshake_request(&sender_config, 42);
    let mut receiver: ReceiverState<u8> = ReceiverState::new(receiver_config);
    let ack = receiver.handle_handshake(request, 7);
    assert_eq!(ack.session_id, 42);
    assert_eq!(ack.accepted_packet_payload, 800);
    assert_eq!(ack.key_frame_redundancy, 3);
    let mut sender = SenderState::new(sender_config);
    assert!(sender.accept_reply(42, &WireMessage::HandshakeAck(ack)));
    let session = sender.session.unwrap();
    let far_end = &receiver.sessions[&42];
    assert_eq!(session.max_payload, far_end.max_payload);
    assert_eq!(session.redundancy, far_end.redundancy);
    assert_eq!(far_end.remote_addr, 7);
}

#[test]
fn fragments_reassemble_in_any_arrival_order() {
    let data: Vec<u8> = (0u8..10).collect();
    let plan = FragmentPlan { fragment_size: 4, fragment_count: 3 };
    let ranges = plan.fragment_ranges(data.len());
    for order in [[0usize, 1, 2], [2, 0, 1], [1, 2, 0], [2, 1, 0]] {
        let mut buffer = JitterBuffer::new(4);
        for (step, &i) in order.iter().enumerate() {
            let bytes = &data[ranges[i].clone()];
            buffer.push(packet(7, i as u16, 3, PacketFlags(1), 55, bytes));
            if step < 2 {
                assert!(buffer.pop_ready().is_none());
            }
        }
        let frame = buffer.pop_ready().expect("frame");
        assert_eq!(frame.frame_id, 7);
        assert_eq!(frame.payload, data);
        assert_eq!(frame.flags, PacketFlags(1));
        assert_eq!(frame.timestamp_micros, 55);
        assert!(buffer.pop_ready().is_none());
    }
}

#[test]
fn handshake_attempts_retry_then_give_up() {
    let peer = SocketAddress::V4 { octets: [127, 0, 0, 1], port: 5000 };
    let stranger = SocketAddress::V4 { octets: [127, 0, 0, 2], port: 5000 };
    let ack = HandshakeAck { session_id: 9, accepted_packet_payload: 800, jitter_capacity: 32, key_frame_redundancy: 3 };
    let mut sender = SenderState::new(EndpointConfig::new("127.0.0.1:5000"));
    assert_eq!(sender.after_handshake_attempt(0, 9, &peer, &HandshakeAttempt::TimedOut), HandshakeStep::Retry { attempt: 1 });
    assert_eq!(
        sender.after_handshake_attempt(HANDSHAKE_RETRIES - 1, 9, &peer, &HandshakeAttempt::TimedOut),
        HandshakeStep::GiveUp
    );
    let from_stranger = HandshakeAttempt::Reply { from: stranger, message: Some(WireMessage::HandshakeAck(ack)) };
    assert_eq!(sender.after_handshake_attempt(1, 9, &peer, &from_stranger), HandshakeStep::Retry { attempt: 2 });
    assert!(sender.session.is_none());
    let other_session = HandshakeAttempt::Reply { from: peer, message: Some(WireMessage::HandshakeAck(ack)) };
    assert_eq!(sender.after_handshake_attempt(2, 8, &peer, &other_session), HandshakeStep::Retry { attempt: 3 });
    assert!(sender.session.is_none());
    let unreadable = HandshakeAttempt::Reply { from: peer, message: None };
    assert_eq!(sender.after_handshake_attempt(2, 9, &peer, &unreadable), HandshakeStep::Unreadable);
    let unreadable_elsewhere = HandshakeAttempt::Reply { from: stranger, message: None };
    assert_eq!(sender.after_handshake_attempt(2, 9, &peer, &unreadable_elsewhere), HandshakeStep::Retry { attempt: 3 });
    assert_eq!(sender.after_handshake_attempt(3, 9, &peer, &other_session), HandshakeStep::Established);
    let session = sender.session.unwrap();
    assert_eq!((session.session_id, session.max_payload, session.redundancy), (9, 800, 3));
}

#[test]
fn frame_payload_builders_keep_bytes_and_last_timestamp() {
    let data = vec![4u8, 5, 6];
    let p = FramePayload::new(&data).with_timestamp(10).as_key_frame().with_timestamp(20);
    assert_eq!(p.data(), &data[..]);
    assert_eq!(p.timestamp(), Some(20));
    assert!(p.is_key());
    let q = FramePayload::new(&data).with_timestamp(3);
    assert_eq!(q.timestamp(), Some(3));
    assert!(!q.is_key());
    assert_eq!(FramePayload::new(&data).timestamp(), None);
}

#[test]
fn endpoint_builders_keep_a_valid_config_valid() {
    let config = EndpointConfig::new("10.0.0.1:7000")
        .with_target_bitrate(0)
        .with_max_packet_payload(100)
        .with_jitter_capacity(0)
        .with_handshake_timeout(0)
        .with_key_frame_redundancy(0);
    assert!(config.validate().is_ok());
    assert_eq!(config.max_packet_payload, 1_200);
    assert_eq!(config.key_frame_redundancy, 1);
    let config = config.with_max_packet_payload(9_000).with_key_frame_redundancy(200).with_target_bitrate(5);
    assert!(config.validate().is_ok());
    assert_eq!(config.max_packet_payload, 1_300);
    assert_eq!(config.key_frame_redundancy, 4);
}
