//! Relay duty-cycle decisions: the scan-phase handling of one raw
//! candidate buffer, the merge phase that applies retained candidates
//! to the store, and the bookkeeping the rebroadcast phase logs. The
//! cycle itself — prune, scan, merge, rebroadcast, looped without a
//! terminal state — is driven from outside; every per-packet or
//! per-entry failure here is contained at its point of occurrence.

use vstd::prelude::*;
use vstd::bytes::{spec_u16_to_le_bytes, u16_to_le_bytes};
use crate::MANUFACTURER_ID;
use crate::auth::{
    AuthError, infra_valid, lemma_client_sign_preserves_base, lemma_client_tag_stable,
    spec_with_client_tag,
};
use crate::codec::{
    NotificationPacket, PACKET_SIZE, ProtocolError, decode, encode, lemma_encode_decode_exact,
    spec_decode, spec_encode,
};
use crate::store::{
    ActiveEntry, EntryModel, STORE_CAPACITY, Store, entries_view, entry_wf, has_id, live,
    spec_merge, spec_merge_all,
};

verus! {

/// Why a scanned candidate was dropped. Always non-fatal: the one
/// candidate is discarded and the scan goes on.
#[derive(Clone, Copy, Debug, PartialEq, Eq, Structural)]
pub enum RelayError {
    /// The buffer did not decode as a packet.
    Protocol(ProtocolError),
    /// The packet's infrastructure tag failed verification: a likely
    /// forgery.
    Auth(AuthError),
}

/// A radio failure while rebroadcasting one entry: the entry is
/// skipped and the cycle continues with the next.
#[derive(Clone, Copy, Debug, PartialEq, Eq, Structural)]
pub enum RadioError {
    StartFailed,
    StopFailed,
}

/// The longest possible notification lifetime in microseconds: the
/// largest encodable duration, scaled to the monotonic clock's unit.
pub const MAX_DURATION_US: i64 = 65_535_000_000;

/// What the scan phase decides for one raw candidate observed at
/// `now`: the decoded, infrastructure-verified, client-signed entry
/// to retain; `None` for a valid packet with zero duration, which is
/// intentionally not relayed; or the exact error that dropped it.
pub open spec fn spec_process(s: Seq<u8>, now: int) -> Result<Option<EntryModel>, RelayError> {
    match spec_decode(s) {
        Err(e) => Err(RelayError::Protocol(e)),
        Ok(p) => {
            if !infra_valid(p) {
                Err(RelayError::Auth(AuthError::InfraTagMismatch))
            } else if p.duration_secs == 0 {
                Ok(None)
            } else {
                let q = spec_with_client_tag(p);
                Ok(
                    Some(
                        EntryModel {
                            packet: q,
                            raw: spec_u16_to_le_bytes(MANUFACTURER_ID) + spec_encode(q),
                            expires_at_us: now + p.duration_secs * 1_000_000,
                        },
                    ),
                )
            }
        },
    }
}

/// The model of a scan-phase result.
pub open spec fn process_result_model(r: Result<Option<ActiveEntry>, RelayError>) -> Result<
    Option<EntryModel>,
    RelayError,
> {
    match r {
        Ok(Some(e)) => Ok(Some(e@)),
        Ok(None) => Ok(None),
        Err(e) => Err(e),
    }
}

/// Scan-phase handling of one raw candidate buffer observed at `now`:
/// decode it, verify the infrastructure tag, drop zero-duration
/// packets, sign the client tag if and only if it is unset, and wrap
/// the packet with its rebroadcast bytes and absolute expiry.
pub fn process_candidate(bytes: &[u8], now: i64) -> (r: Result<Option<ActiveEntry>, RelayError>)
    requires
        0 <= now,
        now + MAX_DURATION_US <= i64::MAX,
    ensures
        process_result_model(r) == spec_process(bytes@, now as int),
        r matches Ok(Some(e)) ==> entry_wf(e@) && e@.expires_at_us > now,
{
    let mut p = match decode(bytes) {
        Ok(p) => p,
        Err(e) => {
            return Err(RelayError::Protocol(e));
        },
    };
    if !p.verify_infra() {
        return Err(RelayError::Auth(AuthError::InfraTagMismatch));
    }
    let dur = p.duration_secs;
    if dur == 0 {
        return Ok(None);
    }
    let ghost p0 = p;
    p.ensure_client_tag();
    proof {
        lemma_client_sign_preserves_base(p0);
    }
    let mut raw = u16_to_le_bytes(MANUFACTURER_ID);
    let mut enc = encode(&p);
    raw.append(&mut enc);
    let expires_at_us = now + (dur as i64) * 1_000_000;
    Ok(Some(ActiveEntry { packet: p, raw_payload: raw, expires_at_us }))
}

/// How many of the candidates, applied in order, the store turns
/// away: those whose id is absent while no capacity is left.
pub open spec fn spec_rejected_count(s: Seq<EntryModel>, cands: Seq<EntryModel>) -> nat
    decreases cands.len(),
{
    if cands.len() == 0 {
        0
    } else {
        let c = cands[0];
        let hit = has_id(s, c.packet.notification_id) || s.len() < STORE_CAPACITY;
        (if hit {
            0nat
        } else {
            1nat
        }) + spec_rejected_count(spec_merge(s, c), cands.skip(1))
    }
}

/// Merge phase: apply every retained candidate of this cycle's scan,
/// in order, to the store. A full store rejects a candidate without
/// disturbing the others; the failure is contained to that candidate.
/// Returns how many candidates were rejected, for observability.
pub fn merge_candidates(store: &mut Store, cands: Vec<ActiveEntry>) -> (rejected: usize)
    requires
        old(store).wf(),
        forall|i: int| 0 <= i < cands@.len() ==> entry_wf(#[trigger] cands@[i]@),
    ensures
        final(store).wf(),
        final(store)@ == spec_merge_all(old(store)@, entries_view(cands@)),
        rejected == spec_rejected_count(old(store)@, entries_view(cands@)),
        rejected <= cands@.len(),
{
    let ghost s0 = store@;
    let ghost cs0 = entries_view(cands@);
    let total = cands.len();
    let mut pending = cands;
    let mut rejected: usize = 0;
    while pending.len() > 0
        invariant
            store.wf(),
            rejected + pending@.len() <= total,
            forall|i: int| 0 <= i < pending@.len() ==> entry_wf(#[trigger] pending@[i]@),
            spec_merge_all(s0, cs0) == spec_merge_all(store@, entries_view(pending@)),
            spec_rejected_count(s0, cs0) == rejected + spec_rejected_count(
                store@,
                entries_view(pending@),
            ),
        decreases pending@.len(),
    {
        let ghost pb = pending@;
        let ghost sb = store@;
        let c = pending.remove(0);
        proof {
            assert(c == pb[0]);
            assert(c@ == entries_view(pb)[0]);
            assert forall|i: int| 0 <= i < pending@.len() implies (#[trigger] entries_view(
                pending@,
            )[i]) == entries_view(pb).skip(1)[i] && entry_wf(entries_view(pending@)[i]) by {
                assert(pending@[i] == pb[i + 1]);
                assert(entries_view(pending@)[i] == pb[i + 1]@);
                assert(entries_view(pb)[i + 1] == pb[i + 1]@);
            }
            assert(entries_view(pending@) =~= entries_view(pb).skip(1));
        }
        let r = store.merge(c);
        proof {
            assert(store@ == spec_merge(sb, c@));
            assert(spec_merge_all(sb, entries_view(pb)) == spec_merge_all(
                spec_merge(sb, c@),
                entries_view(pb).skip(1),
            ));
            assert(spec_rejected_count(sb, entries_view(pb)) == (if has_id(
                sb,
                c@.packet.notification_id,
            ) || sb.len() < STORE_CAPACITY {
                0nat
            } else {
                1nat
            }) + spec_rejected_count(spec_merge(sb, c@), entries_view(pb).skip(1)));
        }
        if r.is_err() {
            rejected = rejected + 1;
        }
    }
    proof {
        assert(entries_view(pending@) =~= Seq::<EntryModel>::empty());
        assert(spec_merge_all(store@, entries_view(pending@)) == store@);
        assert(spec_rejected_count(store@, entries_view(pending@)) == 0);
    }
    rejected
}

/// Counters one pass of the duty cycle reports, for observability
/// only: entries dropped by the prune phase and candidates rejected
/// by the merge phase.
#[derive(Clone, Copy, Debug, PartialEq, Eq, Structural)]
pub struct CycleStats {
    pub pruned: usize,
    pub rejected: usize,
}

/// The store mutations of one duty-cycle pass: prune every entry
/// whose expiry is at or before `now`, then merge the candidates the
/// scan phase retained, in order. The rebroadcast phase that follows
/// only reads the store's snapshot.
pub fn run_cycle_step(store: &mut Store, now: i64, cands: Vec<ActiveEntry>) -> (r: CycleStats)
    requires
        old(store).wf(),
        forall|i: int| 0 <= i < cands@.len() ==> entry_wf(#[trigger] cands@[i]@),
    ensures
        final(store).wf(),
        final(store)@ == spec_merge_all(
            old(store)@.filter(live(now as int)),
            entries_view(cands@),
        ),
        r.pruned + old(store)@.filter(live(now as int)).len() == old(store)@.len(),
        r.rejected == spec_rejected_count(
            old(store)@.filter(live(now as int)),
            entries_view(cands@),
        ),
        r.rejected <= cands@.len(),
{
    let pruned = store.prune(now);
    let rejected = merge_candidates(store, cands);
    CycleStats { pruned, rejected }
}

/// A scanned buffer whose packet fails infrastructure verification
/// is dropped with an authentication error, whenever and however
/// often it is presented: it can never become a merge candidate, so
/// it never appears in any snapshot.
pub proof fn lemma_forged_candidate_dropped(s: Seq<u8>, p: NotificationPacket, now: int)
    requires
        spec_decode(s) == Ok::<NotificationPacket, ProtocolError>(p),
        !infra_valid(p),
    ensures
        spec_process(s, now) == Err::<Option<EntryModel>, RelayError>(
            RelayError::Auth(AuthError::InfraTagMismatch),
        ),
{
}

/// A valid packet whose client tag is already set is relayed
/// verbatim: the retained entry carries the packet unchanged, and its
/// rebroadcast bytes are the vendor identifier followed by the very
/// bytes that were received.
pub proof fn lemma_signed_packet_relayed_verbatim(s: Seq<u8>, p: NotificationPacket, now: int)
    requires
        spec_decode(s) == Ok::<NotificationPacket, ProtocolError>(p),
        infra_valid(p),
        p.client_tag != 0,
        p.duration_secs > 0,
    ensures
        spec_process(s, now) == Ok::<Option<EntryModel>, RelayError>(
            Some(
                EntryModel {
                    packet: p,
                    raw: spec_u16_to_le_bytes(MANUFACTURER_ID) + s.subrange(0, PACKET_SIZE as int),
                    expires_at_us: now + p.duration_secs * 1_000_000,
                },
            ),
        ),
{
    lemma_client_tag_stable(p);
    lemma_encode_decode_exact(s, p);
}

/// Remaining time-to-live of an entry in whole seconds at `now`,
/// floored at zero: what the rebroadcast phase logs for
/// observability.
pub fn remaining_secs(e: &ActiveEntry, now: i64) -> (r: i64)
    requires
        0 <= now,
        e@.expires_at_us >= 0,
    ensures
        r == if e@.expires_at_us > now {
            (e@.expires_at_us - now) / 1_000_000
        } else {
            0
        },
{
    if e.expires_at_us > now {
        let d = (e.expires_at_us - now) as u64;
        let secs = d / 1_000_000;
        proof {
            assert(secs <= d);
        }
        secs as i64
    } else {
        0
    }
}

} // verus!
