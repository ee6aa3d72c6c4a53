//! Caches a user-verification proof for a single subsequent operation on the
//! same CTAPHID channel and relying party.
//!
//! A proof is use-once (consumed on first match), time-limited (expires after
//! the TTL even if never consumed) and source-bound (it only matches the
//! exact (channel, relying party) pair it was stored for).

use vstd::prelude::*;
use crate::clock::{MonotonicClock, seconds_as_nanos, secs_to_nanos};

verus! {

/// The key of a cached proof: CTAPHID channel ID and relying-party ID.
pub type ProofKey = (u32, Seq<char>);

/// Abstract state of the cache: creation time (nanoseconds on the cache's
/// clock) of the proof held for each key, and the time-to-live.
pub struct UvCacheState {
    pub proofs: Map<ProofKey, u64>,
    pub ttl: u128,
}

/// Age of a proof created at `created`, seen at `now` (zero if `now` is earlier).
pub open spec fn proof_age(created: u64, now: u64) -> int {
    if now >= created { now - created } else { 0 }
}

/// A proof created at `created` is still valid at `now`.
pub open spec fn proof_fresh(created: u64, now: u64, ttl: u128) -> bool {
    proof_age(created, now) < ttl
}

/// The cache after storing a proof for `key` at `now`: expired proofs are
/// dropped, and the proof for `key` is (re)created at `now`.
pub open spec fn store_step(s: UvCacheState, key: ProofKey, now: u64) -> UvCacheState {
    UvCacheState {
        proofs: Map::new(
            |k: ProofKey| s.proofs.contains_key(k) && proof_fresh(s.proofs[k], now, s.ttl),
            |k: ProofKey| s.proofs[k],
        ).insert(key, now),
        ttl: s.ttl,
    }
}

/// The cache after an attempt to consume the proof for `key`: it is gone.
pub open spec fn consume_step(s: UvCacheState, key: ProofKey) -> UvCacheState {
    UvCacheState { proofs: s.proofs.remove(key), ttl: s.ttl }
}

/// Whether consuming `key` at `now` finds a valid proof.
pub open spec fn consume_succeeds(s: UvCacheState, key: ProofKey, now: u64) -> bool {
    s.proofs.contains_key(key) && proof_fresh(s.proofs[key], now, s.ttl)
}

/// One cached proof.
struct CachedProof {
    cid: u32,
    rp_id: String,
    created: u64,
}

/// The key a cached proof is stored under.
spec fn entry_key(e: CachedProof) -> ProofKey {
    (e.cid, e.rp_id@)
}

/// No two cached proofs share a key.
spec fn keys_unique(s: Seq<CachedProof>) -> bool {
    forall|i: int, j: int| 0 <= i < j < s.len() ==> entry_key(s[i]) != entry_key(s[j])
}

/// The map from keys to creation times that a list of proofs stands for.
spec fn entries_map(s: Seq<CachedProof>) -> Map<ProofKey, u64>
    decreases s.len(),
{
    if s.len() == 0 {
        Map::empty()
    } else {
        entries_map(s.drop_last()).insert(entry_key(s.last()), s.last().created)
    }
}

/// With unique keys, the map holds exactly the listed keys, each with its
/// entry's creation time.
proof fn lemma_entries_map(s: Seq<CachedProof>)
    requires
        keys_unique(s),
    ensures
        forall|i: int|
            0 <= i < s.len() ==> #[trigger] entries_map(s).contains_key(entry_key(s[i]))
                && entries_map(s)[entry_key(s[i])] == s[i].created,
        forall|k: ProofKey|
            #[trigger] entries_map(s).contains_key(k) ==> exists|i: int|
                0 <= i < s.len() && entry_key(s[i]) == k,
    decreases s.len(),
{
    if s.len() > 0 {
        let p = s.drop_last();
        let last = s[s.len() - 1];
        assert(keys_unique(p)) by {
            assert forall|a: int, b: int| 0 <= a < b < p.len() implies entry_key(p[a]) != entry_key(
                p[b],
            ) by {
                assert(p[a] == s[a] && p[b] == s[b]);
            }
        }
        lemma_entries_map(p);
        let m = entries_map(p);
        assert(entries_map(s) == m.insert(entry_key(last), last.created));
        assert forall|i: int| 0 <= i < s.len() implies #[trigger] entries_map(s).contains_key(
            entry_key(s[i]),
        ) && entries_map(s)[entry_key(s[i])] == s[i].created by {
            if i < s.len() - 1 {
                assert(p[i] == s[i]);
                assert(m.contains_key(entry_key(p[i])));
                assert(entry_key(s[i]) != entry_key(last));
            }
        }
        assert forall|k: ProofKey| #[trigger] entries_map(s).contains_key(k) implies exists|i: int|
            0 <= i < s.len() && entry_key(s[i]) == k by {
            if k != entry_key(last) {
                assert(m.contains_key(k));
                let i = choose|i: int| 0 <= i < p.len() && entry_key(p[i]) == k;
                assert(s[i] == p[i]);
            } else {
                assert(entry_key(s[s.len() - 1]) == k);
            }
        }
    }
}

/// `e` is an entry of `old` before index `i` that is fresh at `now` and not
/// stored under `key`.
spec fn kept_from_prefix(
    old: Seq<CachedProof>,
    i: int,
    e: CachedProof,
    now: u64,
    ttl: u128,
    key: ProofKey,
) -> bool {
    exists|m: int|
        0 <= m < i && #[trigger] old[m] == e && proof_fresh(old[m].created, now, ttl) && entry_key(
            old[m],
        ) != key
}

/// Caches user-verification proofs per (channel, relying party).
///
/// The proofs are kept in a `Vec` whose entries have distinct keys (the
/// type invariant), read as a map from key to creation time. The key holds
/// the relying party's ID as a `String`; with such keys Verus proves too
/// little of `std::collections::HashMap`'s operations for the cache's laws.
pub struct UvCache {
    entries: Vec<CachedProof>,
    ttl: u128,
    clock: MonotonicClock,
}

impl View for UvCache {
    type V = UvCacheState;

    closed spec fn view(&self) -> UvCacheState {
        UvCacheState { proofs: entries_map(self.entries@), ttl: self.ttl }
    }
}

impl UvCache {
    #[verifier::type_invariant]
    spec fn inv(self) -> bool {
        keys_unique(self.entries@)
    }

    /// The last time this cache's clock was read and remembered (by `store`
    /// or `consume`); later readings are never earlier.
    pub closed spec fn clock_reading(&self) -> u64 {
        self.clock.last_reading()
    }

    /// An empty cache whose proofs live `ttl_secs` seconds.
    pub fn new(ttl_secs: u64) -> (c: Self)
        ensures
            c@.proofs == Map::<ProofKey, u64>::empty(),
            c@.ttl == secs_to_nanos(ttl_secs),
            c.clock_reading() == 0,
    {
        UvCache { entries: Vec::new(), ttl: seconds_as_nanos(ttl_secs), clock: MonotonicClock::start() }
    }

    /// Stores a proof for (`cid`, `rp_id`) created at `now` (nanoseconds on
    /// the cache's clock), dropping expired proofs on the way.
    pub fn store_at(&mut self, cid: u32, rp_id: &str, now: u64)
        ensures
            final(self)@ == store_step(old(self)@, (cid, rp_id@), now),
            final(self).clock_reading() == old(self).clock_reading(),
            final(self)@.ttl == old(self)@.ttl,
            final(self)@.proofs.contains_key((cid, rp_id@)),
            final(self)@.proofs[(cid, rp_id@)] == now,
            forall|k: ProofKey| k != (cid, rp_id@) ==> (#[trigger] final(self)@.proofs.contains_key(k) <==> (
                old(self)@.proofs.contains_key(k) && proof_age(old(self)@.proofs[k], now) < old(self)@.ttl)),
            forall|k: ProofKey| k != (cid, rp_id@) && #[trigger] final(self)@.proofs.contains_key(k)
                ==> final(self)@.proofs[k] == old(self)@.proofs[k],
    {
        proof {
            use_type_invariant(&*self);
            lemma_entries_map(self.entries@);
        }
        let key_rp: String = rp_id.to_owned();
        let ghost new_key: ProofKey = (cid, rp_id@);
        let ghost old_entries = self.entries@;
        let ttl = self.ttl;
        let mut kept: Vec<CachedProof> = Vec::new();
        let mut i: usize = 0;
        while i < self.entries.len()
            invariant
                self.entries@ == old_entries,
                keys_unique(old_entries),
                ttl == self.ttl,
                key_rp@ == new_key.1,
                new_key == (cid, rp_id@),
                i <= old_entries.len(),
                keys_unique(kept@),
                forall|j: int|
                    0 <= j < kept.len() ==> kept_from_prefix(
                        old_entries,
                        i as int,
                        #[trigger] kept@[j],
                        now,
                        ttl,
                        new_key,
                    ),
                forall|m: int|
                    0 <= m < i && proof_fresh(old_entries[m].created, now, ttl) && entry_key(
                        old_entries[m],
                    ) != new_key ==> exists|j: int|
                        0 <= j < kept.len() && kept@[j] == #[trigger] old_entries[m],
            decreases old_entries.len() - i,
        {
            let e = &self.entries[i];
            let age: u64 = if now >= e.created { now - e.created } else { 0 };
            let same_cid = e.cid == cid;
            let same_rp = e.rp_id == key_rp;
            let same_key = same_cid && same_rp;
            let ghost kept_before = kept@;
            proof {
                assert(same_key == (entry_key(old_entries[i as int]) == new_key));
                assert(((age as u128) < ttl) == proof_fresh(old_entries[i as int].created, now, ttl));
            }
            if (age as u128) < ttl && !same_key {
                let copy = CachedProof { cid: e.cid, rp_id: e.rp_id.clone(), created: e.created };
                proof {
                    assert forall|j: int| 0 <= j < kept.len() implies entry_key(kept@[j]) != entry_key(
                        copy,
                    ) by {
                        let m = choose|m: int|
                            0 <= m < i && #[trigger] old_entries[m] == kept@[j] && proof_fresh(
                                old_entries[m].created,
                                now,
                                ttl,
                            ) && entry_key(old_entries[m]) != new_key;
                        assert(entry_key(old_entries[m]) != entry_key(old_entries[i as int]));
                    }
                }
                kept.push(copy);
                proof {
                    assert(kept@[kept.len() - 1] == old_entries[i as int]);
                }
            }
            proof {
                assert forall|m: int|
                    0 <= m < i + 1 && proof_fresh(old_entries[m].created, now, ttl) && entry_key(
                        old_entries[m],
                    ) != new_key implies exists|j: int|
                    0 <= j < kept.len() && kept@[j] == #[trigger] old_entries[m] by {
                    if m < i {
                        let j = choose|j: int|
                            0 <= j < kept_before.len() && kept_before[j] == #[trigger] old_entries[m];
                        assert(kept@[j] == kept_before[j]);
                    } else {
                        assert(kept@[kept.len() - 1] == old_entries[m]);
                    }
                }
                assert forall|j: int| 0 <= j < kept.len() implies kept_from_prefix(
                    old_entries,
                    i + 1,
                    #[trigger] kept@[j],
                    now,
                    ttl,
                    new_key,
                ) by {
                    if j < kept_before.len() {
                        assert(kept@[j] == kept_before[j]);
                        assert(kept_from_prefix(old_entries, i as int, kept_before[j], now, ttl, new_key));
                    } else {
                        assert(old_entries[i as int] == kept@[j]);
                    }
                }
            }
            i = i + 1;
        }
        proof {
            lemma_entries_map(kept@);
            let target = Map::new(
                |k: ProofKey|
                    entries_map(old_entries).contains_key(k) && proof_fresh(
                        entries_map(old_entries)[k],
                        now,
                        ttl,
                    ),
                |k: ProofKey| entries_map(old_entries)[k],
            );
            assert forall|k: ProofKey| k != new_key implies (#[trigger] entries_map(
                kept@,
            ).contains_key(k) == target.contains_key(k)) && (entries_map(kept@).contains_key(k)
                ==> entries_map(kept@)[k] == target[k]) by {
                if entries_map(kept@).contains_key(k) {
                    let j = choose|j: int| 0 <= j < kept.len() && entry_key(kept@[j]) == k;
                    let m = choose|m: int|
                        0 <= m < i && #[trigger] old_entries[m] == kept@[j] && proof_fresh(
                            old_entries[m].created,
                            now,
                            ttl,
                        ) && entry_key(old_entries[m]) != new_key;
                    assert(entries_map(old_entries).contains_key(entry_key(old_entries[m])));
                }
                if target.contains_key(k) {
                    let m = choose|m: int| 0 <= m < old_entries.len() && entry_key(old_entries[m]) == k;
                    assert(entries_map(old_entries).contains_key(entry_key(old_entries[m])));
                    let j = choose|j: int| 0 <= j < kept.len() && kept@[j] == #[trigger] old_entries[m];
                    assert(entries_map(kept@).contains_key(entry_key(kept@[j])));
                }
            }
        }
        let new_entry = CachedProof { cid, rp_id: key_rp, created: now };
        let ghost before_push = kept@;
        proof {
            assert forall|j: int| 0 <= j < kept.len() implies entry_key(kept@[j]) != entry_key(
                new_entry,
            ) by {
                let m = choose|m: int|
                    0 <= m < i && #[trigger] old_entries[m] == kept@[j] && proof_fresh(
                        old_entries[m].created,
                        now,
                        ttl,
                    ) && entry_key(old_entries[m]) != new_key;
            }
        }
        kept.push(new_entry);
        proof {
            assert(kept@.drop_last() =~= before_push);
            assert(entries_map(kept@) =~= entries_map(before_push).insert(new_key, now));
            assert(entries_map(kept@) =~= store_step(
                UvCacheState { proofs: entries_map(old_entries), ttl },
                new_key,
                now,
            ).proofs);
        }
        self.entries = kept;
    }

    /// Stores a proof for (`cid`, `rp_id`) now; the time is remembered as
    /// the clock's last reading.
    pub fn store(&mut self, cid: u32, rp_id: &str)
        ensures
            final(self).clock_reading() >= old(self).clock_reading(),
            final(self)@ == store_step(old(self)@, (cid, rp_id@), final(self).clock_reading()),
    {
        proof {
            use_type_invariant(&*self);
        }
        let (clock, now) = self.clock.read();
        self.clock = clock;
        self.store_at(cid, rp_id, now);
    }

    /// Consumes the proof for (`cid`, `rp_id`) at time `now`: it is removed in
    /// any case, and `true` is returned when it existed and had not expired.
    pub fn consume_at(&mut self, cid: u32, rp_id: &str, now: u64) -> (r: bool)
        ensures
            final(self)@ == consume_step(old(self)@, (cid, rp_id@)),
            r == consume_succeeds(old(self)@, (cid, rp_id@), now),
            final(self).clock_reading() == old(self).clock_reading(),
            r <==> (old(self)@.proofs.contains_key((cid, rp_id@)) && proof_age(
                old(self)@.proofs[(cid, rp_id@)],
                now,
            ) < old(self)@.ttl),
            !final(self)@.proofs.contains_key((cid, rp_id@)),
            final(self)@.proofs.remove((cid, rp_id@)) == old(self)@.proofs.remove((cid, rp_id@)),
            final(self)@.ttl == old(self)@.ttl,
    {
        proof {
            use_type_invariant(&*self);
            lemma_entries_map(self.entries@);
        }
        let key_rp: String = rp_id.to_owned();
        let ghost key: ProofKey = (cid, rp_id@);
        let ghost old_entries = self.entries@;
        let mut i: usize = 0;
        while i < self.entries.len()
            invariant
                self.entries@ == old_entries,
                keys_unique(old_entries),
                key_rp@ == key.1,
                key == (cid, rp_id@),
                i <= old_entries.len(),
                forall|m: int| 0 <= m < i ==> entry_key(#[trigger] old_entries[m]) != key,
            ensures
                self.entries@ == old_entries,
                i <= old_entries.len(),
                forall|m: int| 0 <= m < i ==> entry_key(#[trigger] old_entries[m]) != key,
                i < old_entries.len() ==> entry_key(old_entries[i as int]) == key,
            decreases old_entries.len() - i,
        {
            let same_cid = self.entries[i].cid == cid;
            let same_rp = self.entries[i].rp_id == key_rp;
            if same_cid && same_rp {
                proof {
                    assert(same_rp == (old_entries[i as int].rp_id@ == key.1));
                    assert(same_cid == (old_entries[i as int].cid == key.0));
                }
                break;
            }
            proof {
                assert(same_rp == (old_entries[i as int].rp_id@ == key.1));
                assert(same_cid == (old_entries[i as int].cid == key.0));
                assert(!(same_cid && same_rp));
                assert(entry_key(old_entries[i as int]).0 == old_entries[i as int].cid);
                assert(entry_key(old_entries[i as int]) != key);
            }
            i = i + 1;
        }
        if i == self.entries.len() {
            proof {
                assert(!entries_map(old_entries).contains_key(key)) by {
                    if entries_map(old_entries).contains_key(key) {
                        let m = choose|m: int| 0 <= m < old_entries.len() && entry_key(old_entries[m]) == key;
                        assert(entry_key(old_entries[m]) != key);
                    }
                }
                assert(entries_map(old_entries).remove(key) =~= entries_map(old_entries));
            }
            return false;
        }
        let ttl = self.ttl;
        let mut entries: Vec<CachedProof> = Vec::new();
        std::mem::swap(&mut entries, &mut self.entries);
        let removed = entries.remove(i);
        proof {
            let rest = entries@;
            assert(rest =~= old_entries.remove(i as int));
            assert(entry_key(old_entries[i as int]) == key);
            assert(keys_unique(rest)) by {
                assert forall|a: int, b: int| 0 <= a < b < rest.len() implies entry_key(rest[a])
                    != entry_key(rest[b]) by {
                    let a2 = if a < i { a } else { a + 1 };
                    let b2 = if b < i { b } else { b + 1 };
                    assert(rest[a] == old_entries[a2]);
                    assert(rest[b] == old_entries[b2]);
                }
            }
            lemma_entries_map(rest);
            assert forall|k: ProofKey| #[trigger] entries_map(rest).contains_key(k) == entries_map(
                old_entries,
            ).remove(key).contains_key(k) && (entries_map(rest).contains_key(k) ==> entries_map(
                rest,
            )[k] == entries_map(old_entries)[k]) by {
                if entries_map(rest).contains_key(k) {
                    let a = choose|a: int| 0 <= a < rest.len() && entry_key(rest[a]) == k;
                    let a2 = if a < i { a } else { a + 1 };
                    assert(rest[a] == old_entries[a2]);
                    assert(entries_map(old_entries).contains_key(entry_key(old_entries[a2])));
                }
                if entries_map(old_entries).contains_key(k) && k != key {
                    let m = choose|m: int| 0 <= m < old_entries.len() && entry_key(old_entries[m]) == k;
                    assert(m != i);
                    let a = if m < i { m } else { m - 1 };
                    assert(rest[a] == old_entries[m]);
                    assert(entries_map(rest).contains_key(entry_key(rest[a])));
                }
            }
            assert(entries_map(rest) =~= entries_map(old_entries).remove(key));
        }
        self.entries = entries;
        proof {
            assert(removed == old_entries[i as int]);
            assert(entries_map(old_entries).contains_key(entry_key(old_entries[i as int])));
            assert(entries_map(old_entries)[key] == removed.created);
        }
        let age: u64 = if now >= removed.created { now - removed.created } else { 0 };
        assert(age == proof_age(removed.created, now));
        (age as u128) < ttl
    }

    /// Consumes the proof for (`cid`, `rp_id`) now; `true` when a valid,
    /// unexpired proof was found (it is removed in any case).
    pub fn consume(&mut self, cid: u32, rp_id: &str) -> (r: bool)
        ensures
            final(self)@ == consume_step(old(self)@, (cid, rp_id@)),
            final(self).clock_reading() >= old(self).clock_reading(),
            r == consume_succeeds(old(self)@, (cid, rp_id@), final(self).clock_reading()),
    {
        proof {
            use_type_invariant(&*self);
        }
        let (clock, now) = self.clock.read();
        self.clock = clock;
        self.consume_at(cid, rp_id, now)
    }
}

/// Law (use-once): once consumed, a proof cannot be consumed again until a
/// new one is stored for the same key.
pub proof fn lemma_consume_is_use_once(s: UvCacheState, key: ProofKey, now: u64)
    ensures
        !consume_succeeds(consume_step(s, key), key, now),
{
}

/// Law: a stored proof is found by the next consumption of the same key
/// before its time-to-live has passed.
pub proof fn lemma_store_then_consume(s: UvCacheState, key: ProofKey, stored: u64, now: u64)
    requires
        stored <= now,
        now - stored < s.ttl,
    ensures
        consume_succeeds(store_step(s, key, stored), key, now),
{
}

/// Law (time-limited): a proof is not found once its time-to-live has passed.
pub proof fn lemma_expired_proof_refused(s: UvCacheState, key: ProofKey, stored: u64, now: u64)
    requires
        now >= stored,
        now - stored >= s.ttl,
    ensures
        !consume_succeeds(store_step(s, key, stored), key, now),
{
}

/// Law (source-bound): consuming one key never succeeds on a proof stored
/// for another key, and leaves the other keys' proofs as they were.
pub proof fn lemma_consume_is_source_bound(
    s: UvCacheState,
    stored: ProofKey,
    other: ProofKey,
    t0: u64,
    now: u64,
)
    requires
        stored != other,
        !s.proofs.contains_key(other),
    ensures
        !consume_succeeds(store_step(s, stored, t0), other, now),
        consume_step(store_step(s, stored, t0), other).proofs.contains_key(stored),
        consume_step(store_step(s, stored, t0), other).proofs[stored] == t0,
{
}

/// Law (janitor): after a store at `now`, every other proof left in the cache
/// is still valid at `now`.
pub proof fn lemma_store_drops_expired(s: UvCacheState, key: ProofKey, now: u64, k: ProofKey)
    requires
        k != key,
        store_step(s, key, now).proofs.contains_key(k),
    ensures
        proof_fresh(store_step(s, key, now).proofs[k], now, s.ttl),
        s.proofs.contains_key(k),
{
}

/// An operation on the cache, at a time on its clock.
pub enum CacheOp {
    Store(ProofKey, u64),
    Consume(ProofKey, u64),
}

/// The key an operation is about.
pub open spec fn op_key(op: CacheOp) -> ProofKey {
    match op {
        CacheOp::Store(k, _) => k,
        CacheOp::Consume(k, _) => k,
    }
}

/// The time of an operation.
pub open spec fn op_time(op: CacheOp) -> u64 {
    match op {
        CacheOp::Store(_, t) => t,
        CacheOp::Consume(_, t) => t,
    }
}

/// The cache after one operation.
pub open spec fn apply_op(s: UvCacheState, op: CacheOp) -> UvCacheState {
    match op {
        CacheOp::Store(k, t) => store_step(s, k, t),
        CacheOp::Consume(k, _) => consume_step(s, k),
    }
}

/// The cache after the operations `ops`, in order.
pub open spec fn run_ops(s: UvCacheState, ops: Seq<CacheOp>) -> UvCacheState
    decreases ops.len(),
{
    if ops.len() == 0 {
        s
    } else {
        apply_op(run_ops(s, ops.drop_last()), ops.last())
    }
}

proof fn lemma_other_ops_keep_proof(s: UvCacheState, key: ProofKey, t0: u64, ops: Seq<CacheOp>, t1: u64)
    requires
        s.proofs.contains_key(key),
        s.proofs[key] == t0,
        t0 <= t1,
        t1 - t0 < s.ttl,
        forall|i: int| 0 <= i < ops.len() ==> op_key(#[trigger] ops[i]) != key && t0 <= op_time(ops[i]) <= t1,
    ensures
        run_ops(s, ops).ttl == s.ttl,
        run_ops(s, ops).proofs.contains_key(key),
        run_ops(s, ops).proofs[key] == t0,
    decreases ops.len(),
{
    if ops.len() > 0 {
        let init = ops.drop_last();
        assert forall|i: int| 0 <= i < init.len() implies op_key(#[trigger] init[i]) != key && t0 <= op_time(init[i]) <= t1 by {
            assert(init[i] == ops[i]);
        }
        lemma_other_ops_keep_proof(s, key, t0, init, t1);
        let last = ops[ops.len() - 1];
        assert(op_key(last) != key);
        assert(t0 <= op_time(last) <= t1);
    }
}

/// Law: a proof stored for a key at `t0` is found by a consumption of that
/// key at `t1`, from `t0` up to (not including) `t0` plus the time-to-live,
/// whatever operations on other keys happen in between at times from `t0`
/// to `t1`.
pub proof fn lemma_stored_proof_survives_other_keys(
    s: UvCacheState,
    key: ProofKey,
    t0: u64,
    ops: Seq<CacheOp>,
    t1: u64,
)
    requires
        t0 <= t1,
        t1 - t0 < s.ttl,
        forall|i: int| 0 <= i < ops.len() ==> op_key(#[trigger] ops[i]) != key && t0 <= op_time(ops[i]) <= t1,
    ensures
        consume_succeeds(run_ops(store_step(s, key, t0), ops), key, t1),
{
    lemma_other_ops_keep_proof(store_step(s, key, t0), key, t0, ops, t1);
}

} // verus!
