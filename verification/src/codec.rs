//! Protocol codec: the fixed 25-byte wire layout, nibble packing and
//! unpacking, and decode validation.

use vstd::prelude::*;
use vstd::bytes::*;
use vstd::slice::*;
use crate::PROTOCOL_VERSION;

verus! {

/// Size in bytes of a complete packet on the wire.
pub const PACKET_SIZE: usize = 25;

/// Size in bytes of the base payload: every field preceding the two
/// authentication tags, and exactly what both tags authenticate.
pub const BASE_PAYLOAD_SIZE: usize = 13;

/// Kind of vehicle a notification speaks of.
#[derive(Clone, Copy, Debug, PartialEq, Eq, Structural)]
pub enum TransportType {
    Bus,
    Train,
}

/// Current status of the vehicle at the stop.
#[derive(Clone, Copy, Debug, PartialEq, Eq, Structural)]
pub enum TransportStatus {
    Passing,
    Coming,
    Late,
}

/// Wire code of a transport type (the high nibble of the type/status byte).
pub open spec fn type_code(t: TransportType) -> u8 {
    match t {
        TransportType::Bus => 1,
        TransportType::Train => 2,
    }
}

/// Transport type denoted by a wire code, if any.
pub open spec fn type_from_code(v: u8) -> Option<TransportType> {
    if v == 1 {
        Some(TransportType::Bus)
    } else if v == 2 {
        Some(TransportType::Train)
    } else {
        None
    }
}

/// Wire code of a transport status (the low nibble of the type/status byte).
pub open spec fn status_code(s: TransportStatus) -> u8 {
    match s {
        TransportStatus::Passing => 1,
        TransportStatus::Coming => 2,
        TransportStatus::Late => 3,
    }
}

/// Transport status denoted by a wire code, if any.
pub open spec fn status_from_code(v: u8) -> Option<TransportStatus> {
    if v == 1 {
        Some(TransportStatus::Passing)
    } else if v == 2 {
        Some(TransportStatus::Coming)
    } else if v == 3 {
        Some(TransportStatus::Late)
    } else {
        None
    }
}

impl TransportType {
    /// Fallible constructor from a raw nibble value.
    pub fn from_u8(v: u8) -> (r: Option<TransportType>)
        ensures
            r == type_from_code(v),
    {
        match v {
            1 => Some(TransportType::Bus),
            2 => Some(TransportType::Train),
            _ => None,
        }
    }

    /// Wire code of this transport type.
    pub fn to_u8(self) -> (r: u8)
        ensures
            r == type_code(self),
    {
        match self {
            TransportType::Bus => 1,
            TransportType::Train => 2,
        }
    }
}

impl TransportStatus {
    /// Fallible constructor from a raw nibble value.
    pub fn from_u8(v: u8) -> (r: Option<TransportStatus>)
        ensures
            r == status_from_code(v),
    {
        match v {
            1 => Some(TransportStatus::Passing),
            2 => Some(TransportStatus::Coming),
            3 => Some(TransportStatus::Late),
            _ => None,
        }
    }

    /// Wire code of this transport status.
    pub fn to_u8(self) -> (r: u8)
        ensures
            r == status_code(self),
    {
        match self {
            TransportStatus::Passing => 1,
            TransportStatus::Coming => 2,
            TransportStatus::Late => 3,
        }
    }
}

/// A transit-stop notification, as authored by the infrastructure
/// origin and relayed hop by hop. Multi-byte fields travel
/// little-endian on the wire.
#[derive(Clone, Copy, Debug, PartialEq, Eq, Structural)]
pub struct NotificationPacket {
    /// Protocol version; must equal [`PROTOCOL_VERSION`] to be accepted.
    pub version: u8,
    /// Opaque station identifier.
    pub source_id: u32,
    /// Opaque per-event identifier; the primary deduplication key.
    pub notification_id: u32,
    /// Event code, a 4-bit value packed into the high nibble of its byte.
    pub event_id: u8,
    /// Destination code, a 4-bit value packed into the low nibble.
    pub destination_id: u8,
    /// Kind of vehicle.
    pub transport_type: TransportType,
    /// Status of the vehicle.
    pub transport_status: TransportStatus,
    /// Seconds the notification should keep being relayed from the
    /// moment it is freshly observed.
    pub duration_secs: u16,
    /// Truncated keyed MAC over the base payload, set once by the
    /// infrastructure origin and immutable thereafter.
    pub infra_tag: u64,
    /// Truncated keyed MAC over the base payload, set once by the
    /// first relay that validates the packet; zero means unset.
    pub client_tag: u32,
}

impl NotificationPacket {
    /// Well-formedness: the version is the supported one and the two
    /// nibble-packed fields fit in four bits.
    pub open spec fn wf(self) -> bool {
        &&& self.version == PROTOCOL_VERSION
        &&& self.event_id <= 0xF
        &&& self.destination_id <= 0xF
    }
}

/// The byte that packs `hi` into its high nibble and `lo` into its low
/// nibble.
pub open spec fn spec_pack_nibbles(hi: u8, lo: u8) -> u8 {
    ((hi & 0xF) << 4 | (lo & 0xF)) as u8
}

/// High nibble of a byte.
pub open spec fn spec_high_nibble(b: u8) -> u8 {
    ((b >> 4) & 0xF) as u8
}

/// Low nibble of a byte.
pub open spec fn spec_low_nibble(b: u8) -> u8 {
    (b & 0xF) as u8
}

/// Pack two 4-bit values into one byte, high nibble first.
pub fn pack_nibbles(hi: u8, lo: u8) -> (r: u8)
    requires
        hi <= 0xF,
        lo <= 0xF,
    ensures
        r == spec_pack_nibbles(hi, lo),
        spec_high_nibble(r) == hi,
        spec_low_nibble(r) == lo,
{
    proof {
        lemma_nibble_roundtrip(hi, lo);
    }
    (hi & 0xF) << 4 | (lo & 0xF)
}

/// High nibble of a byte.
pub fn high_nibble(b: u8) -> (r: u8)
    ensures
        r == spec_high_nibble(b),
        r <= 0xF,
{
    proof {
        assert((b >> 4) & 0xF <= 0xF) by (bit_vector);
    }
    (b >> 4) & 0xF
}

/// Low nibble of a byte.
pub fn low_nibble(b: u8) -> (r: u8)
    ensures
        r == spec_low_nibble(b),
        r <= 0xF,
{
    proof {
        assert(b & 0xF <= 0xF) by (bit_vector);
    }
    b & 0xF
}

/// Packing two nibbles and taking them apart again returns the
/// original values.
pub proof fn lemma_nibble_roundtrip(hi: u8, lo: u8)
    requires
        hi <= 0xF,
        lo <= 0xF,
    ensures
        spec_high_nibble(spec_pack_nibbles(hi, lo)) == hi,
        spec_low_nibble(spec_pack_nibbles(hi, lo)) == lo,
{
    assert(hi <= 0xF && lo <= 0xF ==> ((((hi & 0xF) << 4 | (lo & 0xF)) as u8) >> 4) & 0xF == hi)
        by (bit_vector);
    assert(hi <= 0xF && lo <= 0xF ==> (((hi & 0xF) << 4 | (lo & 0xF)) as u8) & 0xF == lo)
        by (bit_vector);
}

/// Taking a byte's nibbles and packing them again returns the byte.
pub proof fn lemma_nibble_repack(b: u8)
    ensures
        spec_pack_nibbles(spec_high_nibble(b), spec_low_nibble(b)) == b,
{
    assert(((((b >> 4) & 0xF) as u8) & 0xF) << 4 | ((((b & 0xF) as u8)) & 0xF) == b)
        by (bit_vector);
}

/// A decode failure; always non-fatal, the candidate is dropped.
#[derive(Clone, Copy, Debug, PartialEq, Eq, Structural)]
pub enum ProtocolError {
    /// The buffer is smaller than the fixed packet size.
    TooShort,
    /// The version byte differs from the supported protocol version.
    VersionMismatch,
    /// A nibble of the type/status byte maps to no known value.
    InvalidEnum,
}

/// The base payload of a packet: every field preceding the two
/// authentication tags, in wire order. This is the sole input to both
/// keyed-MAC computations.
pub open spec fn spec_base_payload(p: NotificationPacket) -> Seq<u8> {
    seq![p.version] + spec_u32_to_le_bytes(p.source_id) + spec_u32_to_le_bytes(
        p.notification_id,
    ) + seq![spec_pack_nibbles(p.event_id, p.destination_id)] + seq![
        spec_pack_nibbles(type_code(p.transport_type), status_code(p.transport_status)),
    ] + spec_u16_to_le_bytes(p.duration_secs)
}

/// The full wire encoding of a packet: the base payload followed by
/// the infrastructure tag and the client tag.
pub open spec fn spec_encode(p: NotificationPacket) -> Seq<u8> {
    spec_base_payload(p) + spec_u64_to_le_bytes(p.infra_tag) + spec_u32_to_le_bytes(p.client_tag)
}

/// Where each field stands in the encoding: exact offsets and sizes of
/// the wire layout.
pub proof fn lemma_encode_fields(p: NotificationPacket)
    ensures
        spec_base_payload(p).len() == BASE_PAYLOAD_SIZE,
        spec_encode(p).len() == PACKET_SIZE,
        spec_encode(p).subrange(0, BASE_PAYLOAD_SIZE as int) == spec_base_payload(p),
        spec_encode(p)[0] == p.version,
        spec_encode(p).subrange(1, 5) == spec_u32_to_le_bytes(p.source_id),
        spec_encode(p).subrange(5, 9) == spec_u32_to_le_bytes(p.notification_id),
        spec_encode(p)[9] == spec_pack_nibbles(p.event_id, p.destination_id),
        spec_encode(p)[10] == spec_pack_nibbles(
            type_code(p.transport_type),
            status_code(p.transport_status),
        ),
        spec_encode(p).subrange(11, 13) == spec_u16_to_le_bytes(p.duration_secs),
        spec_encode(p).subrange(13, 21) == spec_u64_to_le_bytes(p.infra_tag),
        spec_encode(p).subrange(21, 25) == spec_u32_to_le_bytes(p.client_tag),
{
    lemma_auto_spec_u16_to_from_le_bytes();
    lemma_auto_spec_u32_to_from_le_bytes();
    lemma_auto_spec_u64_to_from_le_bytes();
    assert(spec_encode(p).subrange(0, BASE_PAYLOAD_SIZE as int) =~= spec_base_payload(p));
    assert(spec_encode(p).subrange(1, 5) =~= spec_u32_to_le_bytes(p.source_id));
    assert(spec_encode(p).subrange(5, 9) =~= spec_u32_to_le_bytes(p.notification_id));
    assert(spec_encode(p).subrange(11, 13) =~= spec_u16_to_le_bytes(p.duration_secs));
    assert(spec_encode(p).subrange(13, 21) =~= spec_u64_to_le_bytes(p.infra_tag));
    assert(spec_encode(p).subrange(21, 25) =~= spec_u32_to_le_bytes(p.client_tag));
}

/// Serialize the base payload: every field preceding the two tags, at
/// its documented offset, multi-byte fields little-endian.
pub fn base_payload(p: &NotificationPacket) -> (r: Vec<u8>)
    requires
        p.wf(),
    ensures
        r@ == spec_base_payload(*p),
        r@.len() == BASE_PAYLOAD_SIZE,
{
    proof {
        lemma_encode_fields(*p);
    }
    let mut out: Vec<u8> = Vec::new();
    out.push(p.version);
    let mut sid = u32_to_le_bytes(p.source_id);
    out.append(&mut sid);
    let mut nid = u32_to_le_bytes(p.notification_id);
    out.append(&mut nid);
    out.push(pack_nibbles(p.event_id, p.destination_id));
    out.push(pack_nibbles(p.transport_type.to_u8(), p.transport_status.to_u8()));
    let mut dur = u16_to_le_bytes(p.duration_secs);
    out.append(&mut dur);
    proof {
        assert(out@ =~= spec_base_payload(*p));
    }
    out
}

/// Serialize a packet into its fixed-size wire form.
pub fn encode(p: &NotificationPacket) -> (r: Vec<u8>)
    requires
        p.wf(),
    ensures
        r@ == spec_encode(*p),
        r@.len() == PACKET_SIZE,
{
    proof {
        lemma_encode_fields(*p);
    }
    let mut out = base_payload(p);
    let mut infra = u64_to_le_bytes(p.infra_tag);
    out.append(&mut infra);
    let mut client = u32_to_le_bytes(p.client_tag);
    out.append(&mut client);
    proof {
        assert(out@ =~= spec_encode(*p));
    }
    out
}

/// What decoding a byte sequence yields: the packet read field by
/// field from the documented offsets, or the exact error owed to it.
/// Bytes beyond the fixed packet size are ignored.
pub open spec fn spec_decode(s: Seq<u8>) -> Result<NotificationPacket, ProtocolError> {
    if s.len() < PACKET_SIZE {
        Err(ProtocolError::TooShort)
    } else if s[0] != PROTOCOL_VERSION {
        Err(ProtocolError::VersionMismatch)
    } else {
        match (type_from_code(spec_high_nibble(s[10])), status_from_code(spec_low_nibble(s[10]))) {
            (Some(tt), Some(ts)) => Ok(
                NotificationPacket {
                    version: s[0],
                    source_id: spec_u32_from_le_bytes(s.subrange(1, 5)),
                    notification_id: spec_u32_from_le_bytes(s.subrange(5, 9)),
                    event_id: spec_high_nibble(s[9]),
                    destination_id: spec_low_nibble(s[9]),
                    transport_type: tt,
                    transport_status: ts,
                    duration_secs: spec_u16_from_le_bytes(s.subrange(11, 13)),
                    infra_tag: spec_u64_from_le_bytes(s.subrange(13, 21)),
                    client_tag: spec_u32_from_le_bytes(s.subrange(21, 25)),
                },
            ),
            _ => Err(ProtocolError::InvalidEnum),
        }
    }
}

/// Deserialize a packet from raw bytes, validating length, version and
/// the two packed enumeration nibbles.
pub fn decode(bytes: &[u8]) -> (r: Result<NotificationPacket, ProtocolError>)
    ensures
        r == spec_decode(bytes@),
        r matches Ok(p) ==> p.wf(),
{
    if bytes.len() < PACKET_SIZE {
        return Err(ProtocolError::TooShort);
    }
    let version = *slice_index_get(bytes, 0);
    if version != PROTOCOL_VERSION {
        return Err(ProtocolError::VersionMismatch);
    }
    let type_status = *slice_index_get(bytes, 10);
    let tt = match TransportType::from_u8(high_nibble(type_status)) {
        Some(tt) => tt,
        None => {
            return Err(ProtocolError::InvalidEnum);
        },
    };
    let ts = match TransportStatus::from_u8(low_nibble(type_status)) {
        Some(ts) => ts,
        None => {
            return Err(ProtocolError::InvalidEnum);
        },
    };
    let event_dest = *slice_index_get(bytes, 9);
    Ok(
        NotificationPacket {
            version,
            source_id: u32_from_le_bytes(slice_subrange(bytes, 1, 5)),
            notification_id: u32_from_le_bytes(slice_subrange(bytes, 5, 9)),
            event_id: high_nibble(event_dest),
            destination_id: low_nibble(event_dest),
            transport_type: tt,
            transport_status: ts,
            duration_secs: u16_from_le_bytes(slice_subrange(bytes, 11, 13)),
            infra_tag: u64_from_le_bytes(slice_subrange(bytes, 13, 21)),
            client_tag: u32_from_le_bytes(slice_subrange(bytes, 21, 25)),
        },
    )
}

/// Round-trip identity: decoding an encoded well-formed packet yields
/// the packet back, field for field.
pub proof fn lemma_decode_encode_roundtrip(p: NotificationPacket)
    requires
        p.wf(),
    ensures
        spec_decode(spec_encode(p)) == Ok::<NotificationPacket, ProtocolError>(p),
{
    lemma_auto_spec_u16_to_from_le_bytes();
    lemma_auto_spec_u32_to_from_le_bytes();
    lemma_auto_spec_u64_to_from_le_bytes();
    lemma_encode_fields(p);
    let s = spec_encode(p);
    lemma_nibble_roundtrip(p.event_id, p.destination_id);
    assert(type_code(p.transport_type) <= 0xF && status_code(p.transport_status) <= 0xF);
    lemma_nibble_roundtrip(type_code(p.transport_type), status_code(p.transport_status));
    assert(type_from_code(type_code(p.transport_type)) == Some(p.transport_type));
    assert(status_from_code(status_code(p.transport_status)) == Some(p.transport_status));
    assert(spec_decode(s) == Ok::<NotificationPacket, ProtocolError>(p));
}

/// Exactness of decoding: a successfully decoded packet re-encodes to
/// the very bytes it was read from, so a relay that re-serializes an
/// unchanged packet floods it verbatim.
pub proof fn lemma_encode_decode_exact(s: Seq<u8>, p: NotificationPacket)
    requires
        spec_decode(s) == Ok::<NotificationPacket, ProtocolError>(p),
    ensures
        spec_encode(p) == s.subrange(0, PACKET_SIZE as int),
{
    lemma_auto_spec_u16_to_from_le_bytes();
    lemma_auto_spec_u32_to_from_le_bytes();
    lemma_auto_spec_u64_to_from_le_bytes();
    lemma_encode_fields(p);
    lemma_nibble_repack(s[9]);
    lemma_nibble_repack(s[10]);
    let t = s.subrange(0, PACKET_SIZE as int);
    assert(spec_encode(p).len() == t.len());
    assert forall|i: int| 0 <= i < PACKET_SIZE implies spec_encode(p)[i] == t[i] by {
        lemma_encode_decode_byte(s, p, i);
    }
    assert(spec_encode(p) =~= t);
}

/// One byte of the re-encoding of a decoded packet equals the
/// corresponding input byte.
proof fn lemma_encode_decode_byte(s: Seq<u8>, p: NotificationPacket, i: int)
    requires
        spec_decode(s) == Ok::<NotificationPacket, ProtocolError>(p),
        0 <= i < PACKET_SIZE,
    ensures
        spec_encode(p)[i] == s[i],
{
    lemma_auto_spec_u16_to_from_le_bytes();
    lemma_auto_spec_u32_to_from_le_bytes();
    lemma_auto_spec_u64_to_from_le_bytes();
    lemma_encode_fields(p);
    lemma_nibble_repack(s[9]);
    lemma_nibble_repack(s[10]);
    if 1 <= i < 5 {
        assert(spec_u32_to_le_bytes(spec_u32_from_le_bytes(s.subrange(1, 5))) == s.subrange(1, 5));
        assert(spec_encode(p)[i] == spec_encode(p).subrange(1, 5)[i - 1]);
        assert(s[i] == s.subrange(1, 5)[i - 1]);
    } else if 5 <= i < 9 {
        assert(spec_u32_to_le_bytes(spec_u32_from_le_bytes(s.subrange(5, 9))) == s.subrange(5, 9));
        assert(spec_encode(p)[i] == spec_encode(p).subrange(5, 9)[i - 5]);
        assert(s[i] == s.subrange(5, 9)[i - 5]);
    } else if i == 9 {
        assert(spec_pack_nibbles(spec_high_nibble(s[9]), spec_low_nibble(s[9])) == s[9]);
    } else if i == 10 {
        assert(type_from_code(spec_high_nibble(s[10])) == Some(p.transport_type));
        assert(status_from_code(spec_low_nibble(s[10])) == Some(p.transport_status));
        assert(type_code(p.transport_type) == spec_high_nibble(s[10]));
        assert(status_code(p.transport_status) == spec_low_nibble(s[10]));
    } else if 11 <= i < 13 {
        assert(spec_u16_to_le_bytes(spec_u16_from_le_bytes(s.subrange(11, 13))) == s.subrange(
            11,
            13,
        ));
        assert(spec_encode(p)[i] == spec_encode(p).subrange(11, 13)[i - 11]);
        assert(s[i] == s.subrange(11, 13)[i - 11]);
    } else if 13 <= i < 21 {
        assert(spec_u64_to_le_bytes(spec_u64_from_le_bytes(s.subrange(13, 21))) == s.subrange(
            13,
            21,
        ));
        assert(spec_encode(p)[i] == spec_encode(p).subrange(13, 21)[i - 13]);
        assert(s[i] == s.subrange(13, 21)[i - 13]);
    } else if 21 <= i < 25 {
        assert(spec_u32_to_le_bytes(spec_u32_from_le_bytes(s.subrange(21, 25))) == s.subrange(
            21,
            25,
        ));
        assert(spec_encode(p)[i] == spec_encode(p).subrange(21, 25)[i - 21]);
        assert(s[i] == s.subrange(21, 25)[i - 21]);
    }
}

} // verus!
