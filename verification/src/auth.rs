//! Authentication chain: two keyed truncated-MAC instances, one per
//! secret. The infrastructure tag (8 bytes) is computed once by the
//! origin and verified by every relay; the client tag (4 bytes) is
//! computed once by the first relay that validates a packet and passed
//! through unchanged thereafter.

use vstd::prelude::*;
use vstd::bytes::{spec_u32_from_le_bytes, spec_u64_from_le_bytes, u32_from_le_bytes, u64_from_le_bytes};
use vstd::slice::slice_subrange;
use hmac::{Hmac, Mac};
use sha2::Sha256;
use crate::codec::{NotificationPacket, base_payload, spec_base_payload};

verus! {

/// A verification failure: the candidate is dropped and logged as a
/// likely forgery attempt, never treated as fatal.
#[derive(Clone, Copy, Debug, PartialEq, Eq, Structural)]
pub enum AuthError {
    /// The packet's infrastructure tag differs from the MAC recomputed
    /// over its base payload.
    InfraTagMismatch,
}

/// The keyed MAC digest over `data` under the infrastructure secret.
pub uninterp spec fn infra_mac(data: Seq<u8>) -> Seq<u8>;

/// The keyed MAC digest over `data` under the client secret.
pub uninterp spec fn client_mac(data: Seq<u8>) -> Seq<u8>;

/// Relies on hmac's `Hmac<Sha256>`: the 32-byte digest depends on the
/// key and the data alone, and any key length is accepted. The
/// infrastructure secret is fixed inside this body (held in eFuse on
/// production hardware).
#[verifier::external_body]
fn infra_mac_digest(data: &[u8]) -> (r: Vec<u8>)
    ensures
        r@ == infra_mac(data@),
        r@.len() == 32,
{
    let mut mac = <Hmac<Sha256> as Mac>::new_from_slice(b"infra-secret-key-efuse!!")
        .expect("HMAC accepts any key length");
    mac.update(data);
    mac.finalize().into_bytes().to_vec()
}

/// Relies on hmac's `Hmac<Sha256>`: the 32-byte digest depends on the
/// key and the data alone, and any key length is accepted. The
/// client-facing secret is fixed inside this body.
#[verifier::external_body]
fn client_mac_digest(data: &[u8]) -> (r: Vec<u8>)
    ensures
        r@ == client_mac(data@),
        r@.len() == 32,
{
    let mut mac = <Hmac<Sha256> as Mac>::new_from_slice(b"client-secret-key-app!!!")
        .expect("HMAC accepts any key length");
    mac.update(data);
    mac.finalize().into_bytes().to_vec()
}

/// The 8-byte infrastructure tag of a payload: the leading bytes of
/// its MAC digest, read little-endian.
pub open spec fn infra_tag_of(data: Seq<u8>) -> u64 {
    spec_u64_from_le_bytes(infra_mac(data).subrange(0, 8))
}

/// The 4-byte client tag of a payload: the leading bytes of its MAC
/// digest, read little-endian.
pub open spec fn client_tag_of(data: Seq<u8>) -> u32 {
    spec_u32_from_le_bytes(client_mac(data).subrange(0, 4))
}

/// Compute the truncated infrastructure tag over a payload.
pub fn infra_sign(data: &[u8]) -> (r: u64)
    ensures
        r == infra_tag_of(data@),
{
    let digest = infra_mac_digest(data);
    u64_from_le_bytes(slice_subrange(digest.as_slice(), 0, 8))
}

/// Compute the truncated client tag over a payload.
pub fn client_sign(data: &[u8]) -> (r: u32)
    ensures
        r == client_tag_of(data@),
{
    let digest = client_mac_digest(data);
    u32_from_le_bytes(slice_subrange(digest.as_slice(), 0, 4))
}

/// A packet's infrastructure tag is valid: it equals the keyed MAC of
/// the base payload under the infrastructure secret. This must hold
/// for the packet ever to enter a relay's store.
pub open spec fn infra_valid(p: NotificationPacket) -> bool {
    p.infra_tag == infra_tag_of(spec_base_payload(p))
}

/// A packet's client tag is valid: it equals the keyed MAC of the base
/// payload under the client secret.
pub open spec fn client_valid(p: NotificationPacket) -> bool {
    p.client_tag == client_tag_of(spec_base_payload(p))
}

impl NotificationPacket {
    /// Recompute the infrastructure tag over the base payload and
    /// compare. The comparison is a single full-width machine-word
    /// equality, so its timing does not depend on where a mismatch
    /// lies.
    pub fn verify_infra(&self) -> (r: bool)
        requires
            self.wf(),
        ensures
            r == infra_valid(*self),
    {
        let payload = base_payload(self);
        let expected = infra_sign(payload.as_slice());
        expected == self.infra_tag
    }

    /// Recompute the client tag over the base payload and compare, as
    /// the client application will. The comparison is a single
    /// full-width machine-word equality.
    pub fn verify_client(&self) -> (r: bool)
        requires
            self.wf(),
        ensures
            r == client_valid(*self),
    {
        let payload = base_payload(self);
        let expected = client_sign(payload.as_slice());
        expected == self.client_tag
    }

    /// The client tag has been set (is non-zero).
    pub fn has_client_tag(&self) -> (r: bool)
        ensures
            r == (self.client_tag != 0),
    {
        self.client_tag != 0
    }

    /// Sign the client tag in place, as the first relay in the chain
    /// does. Only the client tag changes; the base payload it signs
    /// does not contain it.
    pub fn sign_client(&mut self)
        requires
            old(self).wf(),
        ensures
            *final(self) == (NotificationPacket {
                client_tag: client_tag_of(spec_base_payload(*old(self))),
                ..*old(self)
            }),
    {
        let payload = base_payload(self);
        let tag = client_sign(payload.as_slice());
        self.client_tag = tag;
    }
}

/// The client-tag policy applied to a packet: a packet whose client
/// tag is already set passes through unchanged; one whose tag is unset
/// (zero) leaves with the tag signed over its base payload.
pub open spec fn spec_with_client_tag(p: NotificationPacket) -> NotificationPacket {
    if p.client_tag != 0 {
        p
    } else {
        NotificationPacket { client_tag: client_tag_of(spec_base_payload(p)), ..p }
    }
}

impl NotificationPacket {
    /// Apply the client-tag policy: sign only if the tag is unset.
    pub fn ensure_client_tag(&mut self)
        requires
            old(self).wf(),
        ensures
            *final(self) == spec_with_client_tag(*old(self)),
            final(self).wf(),
    {
        if !self.has_client_tag() {
            self.sign_client();
        }
    }
}

/// Once the client tag is non-zero, the signing policy never changes
/// the packet: relays pass it through byte for byte.
pub proof fn lemma_client_tag_stable(p: NotificationPacket)
    requires
        p.client_tag != 0,
    ensures
        spec_with_client_tag(p) == p,
{
}

/// The signing policy is idempotent: applying it a second time, at any
/// later relay, changes nothing.
pub proof fn lemma_client_sign_idempotent(p: NotificationPacket)
    ensures
        spec_with_client_tag(spec_with_client_tag(p)) == spec_with_client_tag(p),
{
    let q = spec_with_client_tag(p);
    if p.client_tag == 0 {
        assert(spec_base_payload(q) == spec_base_payload(p));
    }
}

/// The signing policy touches only the client tag: every other field,
/// and with it the base payload both tags authenticate, is unchanged.
pub proof fn lemma_client_sign_preserves_base(p: NotificationPacket)
    ensures
        spec_base_payload(spec_with_client_tag(p)) == spec_base_payload(p),
        spec_with_client_tag(p).infra_tag == p.infra_tag,
        spec_with_client_tag(p).notification_id == p.notification_id,
        spec_with_client_tag(p).duration_secs == p.duration_secs,
        spec_with_client_tag(p).wf() == p.wf(),
{
}

} // verus!
