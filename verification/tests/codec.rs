use transit_relay::codec::{
    decode, encode, high_nibble, low_nibble, pack_nibbles, NotificationPacket, ProtocolError,
    TransportStatus, TransportType, BASE_PAYLOAD_SIZE, PACKET_SIZE,
};
use transit_relay::PROTOCOL_VERSION;

fn sample_packet() -> NotificationPacket {
    NotificationPacket {
        version: PROTOCOL_VERSION,
        source_id: 0xA1B2C3D4,
        notification_id: 0x01020304,
        event_id: 7,
        destination_id: 12,
        transport_type: TransportType::Train,
        transport_status: TransportStatus::Late,
        duration_secs: 300,
        infra_tag: 0x1122334455667788,
        client_tag: 0x99AABBCC,
    }
}

#[test]
fn round_trip_identity() {
    let p = sample_packet();
    let bytes = encode(&p);
    assert_eq!(bytes.len(), PACKET_SIZE);
    let q = decode(&bytes).expect("well-formed packet must decode");
    assert_eq!(q, p);
}

#[test]
fn round_trip_all_enum_combinations() {
    for tt in [TransportType::Bus, TransportType::Train] {
        for ts in [TransportStatus::Passing, TransportStatus::Coming, TransportStatus::Late] {
            let p = NotificationPacket { transport_type: tt, transport_status: ts, ..sample_packet() };
            let q = decode(&encode(&p)).unwrap();
            assert_eq!(q, p);
        }
    }
}

#[test]
fn wire_layout_offsets_little_endian() {
    let p = sample_packet();
    let bytes = encode(&p);
    assert_eq!(bytes[0], PROTOCOL_VERSION);
    assert_eq!(&bytes[1..5], &[0xD4, 0xC3, 0xB2, 0xA1]);
    assert_eq!(&bytes[5..9], &[0x04, 0x03, 0x02, 0x01]);
    assert_eq!(bytes[9], (7 << 4) | 12);
    assert_eq!(bytes[10], (2 << 4) | 3); // Train = 2, Late = 3
    assert_eq!(&bytes[11..13], &300u16.to_le_bytes());
    assert_eq!(&bytes[13..21], &0x1122334455667788u64.to_le_bytes());
    assert_eq!(&bytes[21..25], &0x99AABBCCu32.to_le_bytes());
    assert_eq!(BASE_PAYLOAD_SIZE, 13);
}

#[test]
fn nibble_pack_example() {
    // event_id = 10 and destination_id = 3 pack into 0xA3, and back.
    assert_eq!(pack_nibbles(10, 3), 0xA3);
    assert_eq!(high_nibble(0xA3), 10);
    assert_eq!(low_nibble(0xA3), 3);

    let p = NotificationPacket { event_id: 10, destination_id: 3, ..sample_packet() };
    let bytes = encode(&p);
    assert_eq!(bytes[9], 0xA3);
    let q = decode(&bytes).unwrap();
    assert_eq!(q.event_id, 10);
    assert_eq!(q.destination_id, 3);
}

#[test]
fn decode_too_short() {
    let bytes = encode(&sample_packet());
    for n in 0..PACKET_SIZE {
        assert_eq!(decode(&bytes[..n]), Err(ProtocolError::TooShort));
    }
}

#[test]
fn decode_version_mismatch() {
    let mut bytes = encode(&sample_packet());
    bytes[0] = PROTOCOL_VERSION + 1;
    assert_eq!(decode(&bytes), Err(ProtocolError::VersionMismatch));
    bytes[0] = 0;
    assert_eq!(decode(&bytes), Err(ProtocolError::VersionMismatch));
}

#[test]
fn decode_invalid_enum() {
    let good = encode(&sample_packet());

    // transport_type nibble 0 and 3 are unknown.
    for bad_type in [0u8, 3, 15] {
        let mut bytes = good.clone();
        bytes[10] = (bad_type << 4) | (bytes[10] & 0x0F);
        assert_eq!(decode(&bytes), Err(ProtocolError::InvalidEnum));
    }
    // transport_status nibble 0 and 4 are unknown.
    for bad_status in [0u8, 4, 15] {
        let mut bytes = good.clone();
        bytes[10] = (bytes[10] & 0xF0) | bad_status;
        assert_eq!(decode(&bytes), Err(ProtocolError::InvalidEnum));
    }
}

#[test]
fn decode_ignores_trailing_bytes() {
    let p = sample_packet();
    let mut bytes = encode(&p);
    bytes.extend_from_slice(&[0xDE, 0xAD, 0xBE, 0xEF]);
    assert_eq!(decode(&bytes), Ok(p));
}

#[test]
fn enum_codes_round_trip() {
    assert_eq!(TransportType::from_u8(1), Some(TransportType::Bus));
    assert_eq!(TransportType::from_u8(2), Some(TransportType::Train));
    assert_eq!(TransportType::from_u8(0), None);
    assert_eq!(TransportType::from_u8(3), None);
    assert_eq!(TransportStatus::from_u8(1), Some(TransportStatus::Passing));
    assert_eq!(TransportStatus::from_u8(2), Some(TransportStatus::Coming));
    assert_eq!(TransportStatus::from_u8(3), Some(TransportStatus::Late));
    assert_eq!(TransportStatus::from_u8(0), None);
    assert_eq!(TransportStatus::from_u8(4), None);
    assert_eq!(TransportType::Bus.to_u8(), 1);
    assert_eq!(TransportType::Train.to_u8(), 2);
    assert_eq!(TransportStatus::Passing.to_u8(), 1);
    assert_eq!(TransportStatus::Coming.to_u8(), 2);
    assert_eq!(TransportStatus::Late.to_u8(), 3);
}
