//! Origin generator: authoring of fresh, infrastructure-signed
//! notifications. This is the only component permitted to compute a
//! first infrastructure tag; relays only verify it, never regenerate
//! it.

use vstd::prelude::*;
use rand::Rng;
use crate::PROTOCOL_VERSION;
use crate::auth::{infra_sign, infra_valid};
use crate::codec::{NotificationPacket, TransportStatus, TransportType, base_payload};
use vstd::pervasive::unreached;

verus! {

/// How long a freshly authored notification asks to be relayed.
pub const DEFAULT_DURATION_SECS: u16 = 30;

/// Relies on rand's thread-local generator and `Rng::gen_range`: the
/// result is uniformly drawn from the inclusive range, and lies
/// within it. Nothing further is assumed of the value.
#[verifier::external_body]
fn random_in_range(lo: u8, hi: u8) -> (r: u8)
    requires
        lo <= hi,
    ensures
        lo <= r <= hi,
{
    rand::thread_rng().gen_range(lo..=hi)
}

/// Relies on uuid's `Uuid::new_v4`: a freshly generated random
/// identifier, of which the leading four bytes serve as a compact
/// 32-bit id. Nothing is assumed of the value.
#[verifier::external_body]
fn random_id() -> (r: u32) {
    let u = uuid::Uuid::new_v4();
    let b = u.as_bytes();
    u32::from_le_bytes([b[0], b[1], b[2], b[3]])
}

/// Author a notification: assemble the fields, leave the client tag
/// all-zero for the first relay to sign, and compute the
/// infrastructure tag over the resulting base payload.
pub fn signed_notification(
    source_id: u32,
    notification_id: u32,
    event_id: u8,
    destination_id: u8,
    transport_type: TransportType,
    transport_status: TransportStatus,
    duration_secs: u16,
) -> (p: NotificationPacket)
    requires
        event_id <= 0xF,
        destination_id <= 0xF,
    ensures
        p.wf(),
        infra_valid(p),
        p == (NotificationPacket {
            version: PROTOCOL_VERSION,
            source_id,
            notification_id,
            event_id,
            destination_id,
            transport_type,
            transport_status,
            duration_secs,
            infra_tag: p.infra_tag,
            client_tag: 0,
        }),
{
    let mut p = NotificationPacket {
        version: PROTOCOL_VERSION,
        source_id,
        notification_id,
        event_id,
        destination_id,
        transport_type,
        transport_status,
        duration_secs,
        infra_tag: 0,
        client_tag: 0,
    };
    let payload = base_payload(&p);
    let tag = infra_sign(payload.as_slice());
    p.infra_tag = tag;
    p
}

/// Author a random notification: fresh random station and event
/// identifiers, a random transport type and status, random event and
/// destination codes, the default duration, and a valid
/// infrastructure tag. The client tag is left unset.
pub fn random_notification() -> (p: NotificationPacket)
    ensures
        p.wf(),
        infra_valid(p),
        p.client_tag == 0,
        p.duration_secs == DEFAULT_DURATION_SECS,
{
    let transport_type = if random_in_range(0, 1) == 0 {
        TransportType::Bus
    } else {
        TransportType::Train
    };
    let transport_status = match random_in_range(0, 2) {
        0 => TransportStatus::Passing,
        1 => TransportStatus::Coming,
        2 => TransportStatus::Late,
        _ => unreached(),
    };
    let notification_id = random_id();
    let source_id = random_id();
    let event_id = random_in_range(0, 15);
    let destination_id = random_in_range(0, 15);
    signed_notification(
        source_id,
        notification_id,
        event_id,
        destination_id,
        transport_type,
        transport_status,
        DEFAULT_DURATION_SECS,
    )
}

} // verus!
