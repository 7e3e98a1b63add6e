use transit_relay::codec::{decode, encode, TransportStatus, TransportType, BASE_PAYLOAD_SIZE};
use transit_relay::origin::signed_notification;

#[test]
fn generator_packet_verifies() {
    let p = signed_notification(
        0xDEADBEEF,
        0x12345678,
        5,
        9,
        TransportType::Bus,
        TransportStatus::Coming,
        120,
    );
    assert!(p.verify_infra());
    assert_eq!(p.client_tag, 0);
    assert!(!p.has_client_tag());
}

#[test]
fn tampering_any_base_payload_byte_invalidates() {
    let p = signed_notification(
        0xDEADBEEF,
        0x12345678,
        5,
        9,
        TransportType::Bus,
        TransportStatus::Coming,
        120,
    );
    let bytes = encode(&p);
    for i in 0..BASE_PAYLOAD_SIZE {
        let mut forged = bytes.clone();
        forged[i] ^= 0x01;
        // Only consider alterations that still decode as a packet.
        if let Ok(q) = decode(&forged) {
            assert!(!q.verify_infra(), "altered byte {} must invalidate the tag", i);
        }
    }
}

#[test]
fn tampering_tag_itself_invalidates() {
    let p = signed_notification(
        1,
        2,
        0,
        0,
        TransportType::Train,
        TransportStatus::Passing,
        60,
    );
    let mut q = p;
    q.infra_tag ^= 1;
    assert!(!q.verify_infra());
}

#[test]
fn infra_tag_depends_on_payload() {
    // If the MAC merely echoed its input, packets differing only in a
    // byte outside the first eight would share a tag.
    let a = signed_notification(7, 8, 1, 2, TransportType::Bus, TransportStatus::Passing, 60);
    let b = signed_notification(7, 8, 1, 2, TransportType::Bus, TransportStatus::Passing, 61);
    assert_ne!(a.infra_tag, b.infra_tag);
    // The two tiers use distinct secrets over the same payload.
    let mut c = a;
    c.sign_client();
    assert_ne!(c.client_tag as u64, c.infra_tag & 0xFFFF_FFFF);
}

#[test]
fn client_sign_and_verify() {
    let mut p = signed_notification(3, 4, 2, 6, TransportType::Train, TransportStatus::Late, 45);
    assert!(!p.verify_client());
    p.sign_client();
    assert!(p.verify_client());
    assert!(p.has_client_tag());
    // The infrastructure tag still verifies: the client tag is not
    // part of the base payload.
    assert!(p.verify_infra());
}

#[test]
fn client_tag_set_only_when_unset() {
    let mut p = signed_notification(3, 4, 2, 6, TransportType::Train, TransportStatus::Late, 45);

    // A pre-set (non-zero) tag passes through untouched, even a wrong one.
    let mut q = p;
    q.client_tag = 0x5151_5151;
    q.ensure_client_tag();
    assert_eq!(q.client_tag, 0x5151_5151);

    // An unset tag is signed; repeating the policy changes nothing.
    p.ensure_client_tag();
    let first = p.client_tag;
    p.ensure_client_tag();
    assert_eq!(p.client_tag, first);
    p.ensure_client_tag();
    assert_eq!(p.client_tag, first);
}
