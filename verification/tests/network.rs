use desktop_stream::network::fragment::AdaptivePacketSizer;
use desktop_stream::network::jitter::JitterBuffer;
use desktop_stream::network::wire::{DataPacket, PacketFlags, PacketHeader, PROTOCOL_VERSION};

fn make_packet(session_id: u64, frame_id: u64, fragment_index: u16, fragment_count: u16, payload: &[u8]) -> DataPacket {
    DataPacket {
        header: PacketHeader {
            protocol_version: PROTOCOL_VERSION,
            session_id,
            frame_id,
            sequence: fragment_index as u64,
            timestamp_micros: 42,
            fragment_index,
            fragment_count,
            flags: PacketFlags::empty(),
        },
        payload: payload.to_vec(),
    }
}

#[test]
fn adaptive_packet_sizer_splits_payload() {
    let mut sizer = AdaptivePacketSizer::new(4_000_000, 800);
    let plan = sizer.plan(4_096, false, 800);
    assert!(plan.fragment_count > 1);
    let ranges = plan.fragment_ranges(4_096);
    let total: usize = ranges.iter().map(|r| r.len()).sum();
    assert_eq!(total, 4_096);
    for range in ranges {
        assert!(range.len() <= 800);
    }
}

#[test]
fn jitter_buffer_reorders_frames() {
    let mut buffer = JitterBuffer::new(8);
    buffer.push(make_packet(1, 100, 1, 2, b"world"));
    assert!(buffer.pop_ready().is_none());
    buffer.push(make_packet(1, 100, 0, 2, b"hello"));
    let frame = buffer.pop_ready().expect("assembled frame");
    assert_eq!(frame.payload, b"helloworld".to_vec());
    buffer.push(make_packet(1, 102, 0, 1, b"gamma"));
    buffer.push(make_packet(1, 101, 0, 1, b"beta"));
    let first = buffer.pop_ready().expect("beta frame");
    assert_eq!(first.frame_id, 101);
    let second = buffer.pop_ready().expect("gamma frame");
    assert_eq!(second.frame_id, 102);
}
