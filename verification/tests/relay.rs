use transit_relay::auth::AuthError;
use transit_relay::codec::{decode, encode, ProtocolError, TransportStatus, TransportType};
use transit_relay::origin::{random_notification, signed_notification};
use transit_relay::relay::{
    merge_candidates, process_candidate, remaining_secs, run_cycle_step, RelayError,
};
use transit_relay::store::{ActiveEntry, Store};
use transit_relay::{MANUFACTURER_ID, PROTOCOL_VERSION};

fn fresh_packet(id: u32, duration_secs: u16) -> Vec<u8> {
    let p = signed_notification(
        0xABCD0000 ^ id,
        id,
        4,
        11,
        TransportType::Train,
        TransportStatus::Coming,
        duration_secs,
    );
    encode(&p)
}

#[test]
fn process_accepts_valid_candidate() {
    let bytes = fresh_packet(10, 30);
    let entry = process_candidate(&bytes, 1_000_000).unwrap().unwrap();
    assert_eq!(entry.packet.notification_id, 10);
    assert_eq!(entry.expires_at_us, 1_000_000 + 30 * 1_000_000);
    // The rebroadcast bytes are the vendor identifier followed by the
    // (now client-signed) wire encoding.
    assert_eq!(&entry.raw_payload[..2], &MANUFACTURER_ID.to_le_bytes());
    assert_eq!(&entry.raw_payload[2..], &encode(&entry.packet)[..]);
    assert!(entry.packet.verify_infra());
    assert!(entry.packet.verify_client());
}

#[test]
fn process_signs_client_tag_once() {
    let bytes = fresh_packet(11, 30);
    assert_eq!(decode(&bytes).unwrap().client_tag, 0);

    // The first relay signs the unset tag.
    let first = process_candidate(&bytes, 0).unwrap().unwrap();
    let signed = first.packet;
    assert!(signed.has_client_tag());

    // A later relay receives the signed bytes and passes the tag
    // through unchanged, byte for byte.
    let relayed = &first.raw_payload[2..];
    let second = process_candidate(relayed, 7_000_000).unwrap().unwrap();
    assert_eq!(second.packet, signed);
    assert_eq!(&second.raw_payload[..], &first.raw_payload[..]);
}

#[test]
fn process_drops_zero_duration() {
    let bytes = fresh_packet(12, 0);
    // The packet is valid, but intentionally not relayed further.
    assert!(decode(&bytes).unwrap().verify_infra());
    assert_eq!(process_candidate(&bytes, 0).unwrap(), None);
}

#[test]
fn process_rejects_malformed() {
    let bytes = fresh_packet(13, 30);
    assert_eq!(
        process_candidate(&bytes[..10], 0),
        Err(RelayError::Protocol(ProtocolError::TooShort))
    );
    let mut wrong_version = bytes.clone();
    wrong_version[0] = PROTOCOL_VERSION + 1;
    assert_eq!(
        process_candidate(&wrong_version, 0),
        Err(RelayError::Protocol(ProtocolError::VersionMismatch))
    );
    let mut bad_enum = bytes.clone();
    bad_enum[10] = 0x00;
    assert_eq!(
        process_candidate(&bad_enum, 0),
        Err(RelayError::Protocol(ProtocolError::InvalidEnum))
    );
}

#[test]
fn forged_candidate_never_reaches_snapshot() {
    let mut forged = fresh_packet(14, 30);
    forged[5] ^= 0xFF; // alter the notification id after signing
    let forged_id = decode(&forged).unwrap().notification_id;

    let mut store = Store::new();
    // Present the forged candidate over many cycles, mixed with
    // honest traffic.
    for cycle in 0..5i64 {
        let now = cycle * 1_000_000;
        let r = process_candidate(&forged, now);
        assert_eq!(r, Err(RelayError::Auth(AuthError::InfraTagMismatch)));

        let mut cands: Vec<ActiveEntry> = Vec::new();
        if let Ok(Some(e)) = process_candidate(&fresh_packet(cycle as u32 + 1, 30), now) {
            cands.push(e);
        }
        run_cycle_step(&mut store, now, cands);
        assert!(
            !store.snapshot().iter().any(|e| e.packet.notification_id == forged_id),
            "forged candidate must never appear in a snapshot"
        );
    }
    assert_eq!(store.len(), 5);
}

#[test]
fn cycle_prunes_then_merges() {
    let mut store = Store::new();

    let e1 = process_candidate(&fresh_packet(1, 5), 0).unwrap().unwrap();
    let e2 = process_candidate(&fresh_packet(2, 60), 0).unwrap().unwrap();
    let stats = run_cycle_step(&mut store, 0, vec![e1, e2]);
    assert_eq!(stats.pruned, 0);
    assert_eq!(stats.rejected, 0);
    assert_eq!(store.len(), 2);

    // Ten seconds later the short-lived entry is pruned before the new
    // candidate merges.
    let now = 10_000_000;
    let e3 = process_candidate(&fresh_packet(3, 60), now).unwrap().unwrap();
    let stats = run_cycle_step(&mut store, now, vec![e3]);
    assert_eq!(stats.pruned, 1);
    assert_eq!(store.len(), 2);
    let ids: Vec<u32> = store.snapshot().iter().map(|e| e.packet.notification_id).collect();
    assert_eq!(ids, vec![2, 3]);
}

#[test]
fn merge_phase_reports_rejections() {
    let mut store = Store::new();
    let mut cands: Vec<ActiveEntry> = Vec::new();
    // 18 distinct ids against a 16-entry store: two rejections.
    for id in 0..18u32 {
        cands.push(process_candidate(&fresh_packet(id, 30), 0).unwrap().unwrap());
    }
    let rejected = merge_candidates(&mut store, cands);
    assert_eq!(rejected, 2);
    assert_eq!(store.len(), 16);
}

#[test]
fn remaining_secs_floors_at_zero() {
    let e = process_candidate(&fresh_packet(21, 30), 0).unwrap().unwrap();
    assert_eq!(remaining_secs(&e, 0), 30);
    assert_eq!(remaining_secs(&e, 29_999_999), 0);
    assert_eq!(remaining_secs(&e, 25_000_000), 5);
    assert_eq!(remaining_secs(&e, 30_000_000), 0);
    assert_eq!(remaining_secs(&e, 99_000_000), 0);
}

#[test]
fn random_notification_is_relayable() {
    let p = random_notification();
    assert_eq!(p.version, PROTOCOL_VERSION);
    assert!(p.event_id <= 15);
    assert!(p.destination_id <= 15);
    assert_eq!(p.duration_secs, 30);
    assert_eq!(p.client_tag, 0);
    assert!(p.verify_infra());

    let entry = process_candidate(&encode(&p), 500).unwrap().unwrap();
    assert_eq!(entry.packet.notification_id, p.notification_id);
    assert_eq!(entry.expires_at_us, 500 + 30 * 1_000_000);
}
