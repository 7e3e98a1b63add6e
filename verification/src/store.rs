//! Notification store: a capacity-bounded collection of the
//! notifications a relay is currently re-broadcasting, keyed by
//! notification id, with TTL-driven pruning and merge-by-identity
//! semantics. Iteration order is insertion order of first sighting;
//! a merge of an already-present id updates in place.

use vstd::prelude::*;
use vstd::seq_lib::*;
use crate::MANUFACTURER_ID;
use crate::auth::infra_valid;
use crate::codec::{NotificationPacket, spec_encode};
use vstd::bytes::spec_u16_to_le_bytes;

verus! {

/// Most entries the store will hold at once.
pub const STORE_CAPACITY: usize = 16;

/// A merge failure: the store is at capacity and the candidate's id
/// was never seen. Non-fatal; existing entries are untouched.
#[derive(Clone, Copy, Debug, PartialEq, Eq, Structural)]
pub enum StoreError {
    Full,
}

/// A notification the relay actively re-broadcasts: the verified
/// packet, the exact raw manufacturer-data bytes to retransmit, and an
/// absolute monotonic expiry timestamp in microseconds.
#[derive(Debug, PartialEq, Eq)]
pub struct ActiveEntry {
    /// The verified, possibly client-signed packet.
    pub packet: NotificationPacket,
    /// Raw manufacturer-data payload for direct re-broadcast: the
    /// two-byte vendor identifier followed by the full wire encoding.
    pub raw_payload: Vec<u8>,
    /// Monotonic timestamp (microseconds) at which this entry expires.
    pub expires_at_us: i64,
}

/// Mathematical model of an active entry.
pub ghost struct EntryModel {
    pub packet: NotificationPacket,
    pub raw: Seq<u8>,
    pub expires_at_us: int,
}

impl View for ActiveEntry {
    type V = EntryModel;

    open spec fn view(&self) -> EntryModel {
        EntryModel {
            packet: self.packet,
            raw: self.raw_payload@,
            expires_at_us: self.expires_at_us as int,
        }
    }
}

/// The models of a sequence of entries.
pub open spec fn entries_view(s: Seq<ActiveEntry>) -> Seq<EntryModel> {
    s.map_values(|e: ActiveEntry| e@)
}

/// Well-formedness of an entry: the packet is well formed and carries
/// a valid infrastructure tag, the raw bytes are exactly the vendor
/// identifier followed by the packet's wire encoding, and the expiry
/// is a valid monotonic timestamp.
pub open spec fn entry_wf(e: EntryModel) -> bool {
    &&& e.packet.wf()
    &&& infra_valid(e.packet)
    &&& e.raw == spec_u16_to_le_bytes(MANUFACTURER_ID) + spec_encode(e.packet)
    &&& e.expires_at_us >= 0
}

/// Some entry carries this notification id.
pub open spec fn has_id(s: Seq<EntryModel>, id: u32) -> bool {
    exists|i: int| 0 <= i < s.len() && s[i].packet.notification_id == id
}

/// The index of the entry carrying this notification id (meaningful
/// when `has_id` holds and ids are unique).
pub open spec fn index_of_id(s: Seq<EntryModel>, id: u32) -> int {
    choose|i: int| 0 <= i < s.len() && s[i].packet.notification_id == id
}

/// No two entries share a notification id.
pub open spec fn unique_ids(s: Seq<EntryModel>) -> bool {
    forall|i: int, j: int|
        #![trigger s[i], s[j]]
        0 <= i < j < s.len() ==> s[i].packet.notification_id != s[j].packet.notification_id
}

/// Well-formedness of the whole store: bounded, ids unique, every
/// entry well formed.
pub open spec fn store_wf(s: Seq<EntryModel>) -> bool {
    &&& s.len() <= STORE_CAPACITY
    &&& unique_ids(s)
    &&& forall|i: int| 0 <= i < s.len() ==> entry_wf(#[trigger] s[i])
}

/// How many entries carry this notification id.
pub open spec fn count_id(s: Seq<EntryModel>, id: u32) -> nat
    decreases s.len(),
{
    if s.len() == 0 {
        0
    } else {
        count_id(s.drop_last(), id) + if s.last().packet.notification_id == id {
            1nat
        } else {
            0nat
        }
    }
}

/// What one merge does to the store's contents: an already-present id
/// is replaced in place (absolute replacement, position kept), a new
/// id is appended while there is spare capacity, and otherwise the
/// contents are unchanged.
pub open spec fn spec_merge(s: Seq<EntryModel>, c: EntryModel) -> Seq<EntryModel> {
    if has_id(s, c.packet.notification_id) {
        s.update(index_of_id(s, c.packet.notification_id), c)
    } else if s.len() < STORE_CAPACITY {
        s.push(c)
    } else {
        s
    }
}

/// The entries that are still live at `now`: those whose expiry lies
/// strictly after it.
pub open spec fn live(now: int) -> spec_fn(EntryModel) -> bool {
    |e: EntryModel| e.expires_at_us > now
}

/// When ids are unique, any index carrying an id is the index
/// `index_of_id` denotes.
pub proof fn lemma_index_of_id(s: Seq<EntryModel>, id: u32, i: int)
    requires
        unique_ids(s),
        0 <= i < s.len(),
        s[i].packet.notification_id == id,
    ensures
        has_id(s, id),
        index_of_id(s, id) == i,
{
    assert(has_id(s, id));
    let j = index_of_id(s, id);
    assert(0 <= j < s.len() && s[j].packet.notification_id == id);
    if i < j {
        assert(s[i].packet.notification_id != s[j].packet.notification_id);
    } else if j < i {
        assert(s[j].packet.notification_id != s[i].packet.notification_id);
    }
}

/// With unique ids, an id is carried by exactly one entry or none.
pub proof fn lemma_count_unique(s: Seq<EntryModel>, id: u32)
    requires
        unique_ids(s),
    ensures
        count_id(s, id) == if has_id(s, id) {
            1nat
        } else {
            0nat
        },
    decreases s.len(),
{
    if s.len() == 0 {
        assert(!has_id(s, id));
    } else {
        let prefix = s.drop_last();
        assert(unique_ids(prefix)) by {
            assert forall|i: int, j: int|
                #![trigger prefix[i], prefix[j]]
                0 <= i < j < prefix.len() implies prefix[i].packet.notification_id
                != prefix[j].packet.notification_id by {
                assert(s[i] == prefix[i]);
                assert(s[j] == prefix[j]);
            }
        }
        lemma_count_unique(prefix, id);
        let last = s.last();
        if last.packet.notification_id == id {
            assert(has_id(s, id)) by {
                assert(s[s.len() - 1].packet.notification_id == id);
            }
            assert(!has_id(prefix, id)) by {
                if has_id(prefix, id) {
                    let i = choose|i: int|
                        0 <= i < prefix.len() && prefix[i].packet.notification_id == id;
                    assert(s[i] == prefix[i]);
                    assert(s[i].packet.notification_id != s[s.len() - 1].packet.notification_id);
                }
            }
        } else {
            if has_id(s, id) {
                let i = choose|i: int| 0 <= i < s.len() && s[i].packet.notification_id == id;
                assert(i < s.len() - 1);
                assert(prefix[i] == s[i]);
                assert(has_id(prefix, id));
            }
            if has_id(prefix, id) {
                let i = choose|i: int|
                    0 <= i < prefix.len() && prefix[i].packet.notification_id == id;
                assert(s[i] == prefix[i]);
                assert(has_id(s, id));
            }
        }
    }
}

/// The store object. Its contents are only ever touched through
/// `merge` and `prune`; `snapshot` exposes them read-only, in
/// insertion order of first sighting.
pub struct Store {
    pub entries: Vec<ActiveEntry>,
}

impl View for Store {
    type V = Seq<EntryModel>;

    open spec fn view(&self) -> Seq<EntryModel> {
        entries_view(self.entries@)
    }
}

impl Store {
    /// The store's invariant.
    pub open spec fn wf(self) -> bool {
        store_wf(self@)
    }

    /// An empty store.
    pub fn new() -> (r: Store)
        ensures
            r@ == Seq::<EntryModel>::empty(),
            r.wf(),
    {
        let s = Store { entries: Vec::new() };
        proof {
            assert(s@ =~= Seq::<EntryModel>::empty());
        }
        s
    }

    /// Number of active entries.
    pub fn len(&self) -> (r: usize)
        ensures
            r == self@.len(),
    {
        self.entries.len()
    }

    /// Whether no entry is active.
    pub fn is_empty(&self) -> (r: bool)
        ensures
            r == (self@.len() == 0),
    {
        self.entries.len() == 0
    }

    /// The current entries, in insertion order of first sighting: a
    /// finite, restartable sequence for the rebroadcast phase.
    pub fn snapshot(&self) -> (r: &Vec<ActiveEntry>)
        ensures
            entries_view(r@) == self@,
            r@.len() == self@.len(),
    {
        &self.entries
    }

    /// Index of the entry carrying `id`, if any.
    fn find_index(&self, id: u32) -> (r: Option<usize>)
        ensures
            match r {
                Some(i) => 0 <= i < self@.len() && self@[i as int].packet.notification_id == id,
                None => !has_id(self@, id),
            },
    {
        let n = self.entries.len();
        let mut i: usize = 0;
        while i < n
            invariant
                n == self@.len(),
                i <= n,
                forall|j: int| 0 <= j < i ==> self@[j].packet.notification_id != id,
            decreases n - i,
        {
            if self.entries[i].packet.notification_id == id {
                return Some(i);
            }
            i = i + 1;
        }
        None
    }

    /// Merge a candidate: replace the entry already carrying its id
    /// (content replaced, expiry refreshed to the candidate's),
    /// append it while there is spare capacity, or reject it with
    /// `StoreError::Full`, leaving every existing entry untouched.
    /// Succeeds exactly when the id is present or the store has room.
    pub fn merge(&mut self, cand: ActiveEntry) -> (r: Result<(), StoreError>)
        requires
            old(self).wf(),
            entry_wf(cand@),
        ensures
            final(self)@ == spec_merge(old(self)@, cand@),
            final(self).wf(),
            (r matches Ok(k) && k == ()) <==> (has_id(old(self)@, cand@.packet.notification_id)
                || old(self)@.len() < STORE_CAPACITY),
            (r matches Err(e) && e == StoreError::Full) <==> (!has_id(
                old(self)@,
                cand@.packet.notification_id,
            ) && old(self)@.len() >= STORE_CAPACITY),
            r matches Err(e) ==> final(self)@ == old(self)@,
    {
        let ghost s0 = self@;
        let ghost c = cand@;
        let id = cand.packet.notification_id;
        match self.find_index(id) {
            Some(i) => {
                proof {
                    lemma_index_of_id(s0, id, i as int);
                }
                self.entries.remove(i);
                self.entries.insert(i, cand);
                proof {
                    assert(self@ =~= s0.update(i as int, c));
                    lemma_merge_preserves_wf(s0, c);
                }
                Ok(())
            },
            None => {
                if self.entries.len() < STORE_CAPACITY {
                    self.entries.push(cand);
                    proof {
                        assert(self@ =~= s0.push(c));
                        lemma_merge_preserves_wf(s0, c);
                    }
                    Ok(())
                } else {
                    Err(StoreError::Full)
                }
            },
        }
    }

    /// Remove every entry whose expiry is at or before `now`; retain
    /// all others, in order. Returns the count removed, for
    /// observability only.
    pub fn prune(&mut self, now: i64) -> (removed: usize)
        requires
            old(self).wf(),
        ensures
            final(self)@ == old(self)@.filter(live(now as int)),
            final(self)@.len() + removed == old(self)@.len(),
            final(self).wf(),
    {
        let ghost s0 = self@;
        let total = self.entries.len();
        let mut pending: Vec<ActiveEntry> = Vec::new();
        core::mem::swap(&mut self.entries, &mut pending);
        let mut removed: usize = 0;
        let ghost mut k: int = 0;
        proof {
            assert(entries_view(pending@) =~= s0.skip(0));
            assert(self@ =~= s0.take(0).filter(live(now as int)));
        }
        while pending.len() > 0
            invariant
                0 <= k <= s0.len(),
                s0.len() == total,
                removed <= k,
                entries_view(pending@) == s0.skip(k),
                self@ == s0.take(k).filter(live(now as int)),
                self@.len() + removed == k,
                pending@.len() == s0.len() - k,
            decreases pending@.len(),
        {
            let ghost pb = pending@;
            let e = pending.remove(0);
            proof {
                assert(e == pb[0]);
                assert(e@ == entries_view(pb)[0]);
                assert(e@ == s0.skip(k)[0]);
                assert(e@ == s0[k]);
                assert forall|i: int| 0 <= i < pending@.len() implies entries_view(pending@)[i]
                    == s0.skip(k + 1)[i] by {
                    assert(entries_view(pending@)[i] == pending@[i]@);
                    assert(pending@[i] == pb[i + 1]);
                    assert(pb[i + 1]@ == entries_view(pb)[i + 1]);
                    assert(entries_view(pb)[i + 1] == s0.skip(k)[i + 1]);
                    assert(s0.skip(k)[i + 1] == s0.skip(k + 1)[i]);
                }
                assert(entries_view(pending@) =~= s0.skip(k + 1));
                assert(s0.take(k + 1) =~= s0.take(k).push(s0[k]));
                lemma_filter_push(s0.take(k), live(now as int), s0[k]);
            }
            if e.expires_at_us > now {
                self.entries.push(e);
                proof {
                    assert(e@.expires_at_us > now as int);
                    assert(live(now as int)(e@));
                    assert(self@ =~= s0.take(k).filter(live(now as int)).push(s0[k]));
                }
            } else {
                removed = removed + 1;
                proof {
                    assert(!live(now as int)(e@));
                }
            }
            proof {
                k = k + 1;
            }
        }
        proof {
            assert(k == s0.len());
            assert(s0.take(k) =~= s0);
            lemma_store_wf_filter(s0, now as int);
        }
        removed
    }
}

/// Filtering by a predicate turns a trailing push into a conditional
/// push on the filtered sequence.
pub proof fn lemma_filter_push(s: Seq<EntryModel>, pred: spec_fn(EntryModel) -> bool, x: EntryModel)
    ensures
        s.push(x).filter(pred) == if pred(x) {
            s.filter(pred).push(x)
        } else {
            s.filter(pred)
        },
{
    reveal(Seq::filter);
    assert(s.push(x).drop_last() =~= s);
    assert(s.push(x).last() == x);
}

/// A merge preserves the store invariant: the bound, the uniqueness
/// of ids and the well-formedness of every entry.
pub proof fn lemma_merge_preserves_wf(s: Seq<EntryModel>, c: EntryModel)
    requires
        store_wf(s),
        entry_wf(c),
    ensures
        store_wf(spec_merge(s, c)),
        has_id(s, c.packet.notification_id) || s.len() < STORE_CAPACITY ==> {
            let m = spec_merge(s, c);
            &&& has_id(m, c.packet.notification_id)
            &&& m[index_of_id(m, c.packet.notification_id)] == c
        },
{
    let id = c.packet.notification_id;
    let m = spec_merge(s, c);
    if has_id(s, id) {
        let i = index_of_id(s, id);
        assert(0 <= i < s.len() && s[i].packet.notification_id == id);
        assert(m == s.update(i, c));
        assert(unique_ids(m)) by {
            assert forall|a: int, b: int|
                #![trigger m[a], m[b]]
                0 <= a < b < m.len() implies m[a].packet.notification_id
                != m[b].packet.notification_id by {
                assert(s[a].packet.notification_id != s[b].packet.notification_id);
            }
        }
        assert(forall|j: int| 0 <= j < m.len() ==> entry_wf(#[trigger] m[j]));
        lemma_index_of_id(m, id, i);
    } else if s.len() < STORE_CAPACITY {
        assert(m == s.push(c));
        assert(unique_ids(m)) by {
            assert forall|a: int, b: int|
                #![trigger m[a], m[b]]
                0 <= a < b < m.len() implies m[a].packet.notification_id
                != m[b].packet.notification_id by {
                if b < s.len() {
                    assert(s[a].packet.notification_id != s[b].packet.notification_id);
                } else {
                    assert(m[b] == c);
                    assert(!(s[a].packet.notification_id == id));
                }
            }
        }
        assert(forall|j: int| 0 <= j < m.len() ==> entry_wf(#[trigger] m[j]));
        lemma_index_of_id(m, id, s.len() as int);
    }
}

/// Pruning preserves the store invariant.
pub proof fn lemma_store_wf_filter(s: Seq<EntryModel>, now: int)
    requires
        store_wf(s),
    ensures
        store_wf(s.filter(live(now))),
    decreases s.len(),
{
    let f = s.filter(live(now));
    broadcast use vstd::seq_lib::group_filter_ensures;

    if s.len() == 0 {
        reveal(Seq::filter);
    } else {
        let prefix = s.drop_last();
        assert(store_wf(prefix)) by {
            assert forall|i: int, j: int|
                #![trigger prefix[i], prefix[j]]
                0 <= i < j < prefix.len() implies prefix[i].packet.notification_id
                != prefix[j].packet.notification_id by {
                assert(s[i] == prefix[i]);
                assert(s[j] == prefix[j]);
            }
            assert forall|i: int| 0 <= i < prefix.len() implies entry_wf(#[trigger] prefix[i]) by {
                assert(prefix[i] == s[i]);
            }
        }
        lemma_store_wf_filter(prefix, now);
        assert(prefix.push(s.last()) =~= s);
        lemma_filter_push(prefix, live(now), s.last());
        let fp = prefix.filter(live(now));
        if live(now)(s.last()) {
            assert(f == fp.push(s.last()));
            assert(unique_ids(f)) by {
                assert forall|a: int, b: int|
                    #![trigger f[a], f[b]]
                    0 <= a < b < f.len() implies f[a].packet.notification_id
                    != f[b].packet.notification_id by {
                    lemma_filter_mem_unique(s, now, a, b);
                }
            }
        } else {
            assert(f == fp);
        }
    }
}

/// Two distinct positions of the filtered sequence come from distinct
/// positions of the original, so their ids differ.
proof fn lemma_filter_mem_unique(s: Seq<EntryModel>, now: int, a: int, b: int)
    requires
        unique_ids(s),
        0 <= a < b < s.filter(live(now)).len(),
    ensures
        s.filter(live(now))[a].packet.notification_id != s.filter(
            live(now),
        )[b].packet.notification_id,
    decreases s.len(),
{
    reveal(Seq::filter);
    broadcast use vstd::seq_lib::group_filter_ensures;

    let f = s.filter(live(now));
    let prefix = s.drop_last();
    assert(s.len() > 0);
    assert(unique_ids(prefix)) by {
        assert forall|i: int, j: int|
            #![trigger prefix[i], prefix[j]]
            0 <= i < j < prefix.len() implies prefix[i].packet.notification_id
            != prefix[j].packet.notification_id by {
            assert(s[i] == prefix[i]);
            assert(s[j] == prefix[j]);
        }
    }
    let fp = prefix.filter(live(now));
    if live(now)(s.last()) {
        assert(f == fp.push(s.last()));
        if b < fp.len() {
            lemma_filter_mem_unique(prefix, now, a, b);
        } else {
            assert(f[b] == s.last());
            assert(fp.contains(f[a])) by {
                assert(f[a] == fp[a]);
            }
            let i = choose|i: int| 0 <= i < fp.len() && fp[i] == f[a];
            lemma_filter_index(prefix, now, i);
            let j = choose|j: int| 0 <= j < prefix.len() && prefix[j] == fp[i];
            assert(s[j] == prefix[j]);
            assert(s[j].packet.notification_id != s[s.len() - 1].packet.notification_id);
        }
    } else {
        assert(f == fp);
        lemma_filter_mem_unique(prefix, now, a, b);
    }
}

/// Every element of a filtered sequence stands somewhere in the
/// original.
proof fn lemma_filter_index(s: Seq<EntryModel>, now: int, i: int)
    requires
        0 <= i < s.filter(live(now)).len(),
    ensures
        exists|j: int| 0 <= j < s.len() && s[j] == s.filter(live(now))[i],
    decreases s.len(),
{
    reveal(Seq::filter);
    broadcast use vstd::seq_lib::group_filter_ensures;

    let f = s.filter(live(now));
    assert(s.len() > 0);
    let prefix = s.drop_last();
    let fp = prefix.filter(live(now));
    if live(now)(s.last()) {
        assert(f == fp.push(s.last()));
        if i < fp.len() {
            lemma_filter_index(prefix, now, i);
            let j = choose|j: int| 0 <= j < prefix.len() && prefix[j] == fp[i];
            assert(s[j] == prefix[j]);
            assert(s[j] == f[i]);
        } else {
            assert(f[i] == s[s.len() - 1]);
        }
    } else {
        assert(f == fp);
        lemma_filter_index(prefix, now, i);
        let j = choose|j: int| 0 <= j < prefix.len() && prefix[j] == fp[i];
        assert(s[j] == prefix[j]);
        assert(s[j] == f[i]);
    }
}

/// Every entry a well-formed store holds carries a valid
/// infrastructure tag: a candidate that failed verification can never
/// appear in any snapshot.
pub proof fn lemma_store_entries_verified(s: Seq<EntryModel>, i: int)
    requires
        store_wf(s),
        0 <= i < s.len(),
    ensures
        infra_valid(s[i].packet),
        s[i].packet.wf(),
{
}

/// Applying `spec_merge` once per candidate, in order.
pub open spec fn spec_merge_all(s: Seq<EntryModel>, cands: Seq<EntryModel>) -> Seq<EntryModel>
    decreases cands.len(),
{
    if cands.len() == 0 {
        s
    } else {
        spec_merge_all(spec_merge(s, cands[0]), cands.skip(1))
    }
}

/// After any number of consecutive merges of candidates that all
/// carry one notification id, the store holds exactly one entry for
/// that id — the most recently merged candidate, with that
/// candidate's expiry — provided the first merge could take hold (the
/// id was already present or the store had room).
pub proof fn lemma_repeated_merge_single_id(s: Seq<EntryModel>, cands: Seq<EntryModel>, id: u32)
    requires
        store_wf(s),
        cands.len() > 0,
        forall|i: int| 0 <= i < cands.len() ==> entry_wf(#[trigger] cands[i]),
        forall|i: int| 0 <= i < cands.len() ==> (#[trigger] cands[i]).packet.notification_id == id,
        has_id(s, id) || s.len() < STORE_CAPACITY,
    ensures
        store_wf(spec_merge_all(s, cands)),
        count_id(spec_merge_all(s, cands), id) == 1,
        spec_merge_all(s, cands)[index_of_id(spec_merge_all(s, cands), id)] == cands.last(),
    decreases cands.len(),
{
    let c = cands[0];
    let m1 = spec_merge(s, c);
    lemma_merge_preserves_wf(s, c);
    assert(has_id(m1, id) && m1[index_of_id(m1, id)] == c);
    if cands.len() == 1 {
        assert(cands.skip(1).len() == 0);
        assert(spec_merge_all(m1, cands.skip(1)) == m1);
        assert(spec_merge_all(s, cands) == m1);
        lemma_count_unique(m1, id);
        assert(cands.last() == c);
    } else {
        let rest = cands.skip(1);
        assert forall|i: int| 0 <= i < rest.len() implies entry_wf(#[trigger] rest[i])
            && (#[trigger] rest[i]).packet.notification_id == id by {
            assert(rest[i] == cands[i + 1]);
        }
        lemma_repeated_merge_single_id(m1, rest, id);
        assert(rest.last() == cands.last());
    }
}

} // verus!
