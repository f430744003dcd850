//! Periodic storage-usage collection: a self-perpetuating three-message chain
//! (schedule, fetch, update) so that a slow collection can never overlap the
//! next one. Scheduling uses a deterministic pseudo-random offset seeded from
//! the deployment's stable identifier, so that independently operated
//! deployments sharing an interval do not collect in lockstep, while one
//! deployment's collection instants stay fixed across restarts.

use vstd::prelude::*;

use rand::{Rng, SeedableRng};

use crate::coord::Coordinator;
use crate::message::Action;
use crate::statement::{insert_sorted_unique, sorted_strict};

verus! {

/// The shards backing one storage collection. Every shard a collection
/// refers to is accounted for, so that its usage is recorded.
#[derive(Clone, Copy, PartialEq, Eq, Structural, Debug)]
pub struct CollectionMetadata {
    pub data_shard: u64,
    pub remap_shard: Option<u64>,
    pub status_shard: Option<u64>,
}

/// One recorded usage measurement: the size of a shard at a collection time.
#[derive(Clone, Copy, PartialEq, Eq, Structural, Debug)]
pub struct UsageOp {
    pub shard_id: u64,
    pub size_bytes: u64,
    pub collection_timestamp: u64,
}

/// The offset within the collection interval that the given seed determines.
pub uninterp spec fn sched_offset_of(seed: Seq<u8>, interval_ms: u64) -> u64;

/// Relies on rand's SmallRng: from_seed is deterministic in the seed, and
/// gen_range over a nonempty right-open range returns a value inside it.
#[verifier::external_body]
fn sched_offset(seed: &Vec<u8>, interval_ms: u64) -> (r: u64)
    requires
        seed@.len() == 32,
        interval_ms > 0,
    ensures
        r == sched_offset_of(seed@, interval_ms),
        r < interval_ms,
{
    let seed: [u8; 32] = seed.as_slice().try_into().expect("seed is 32 bytes");
    rand::rngs::SmallRng::from_seed(seed).gen_range(0..interval_ms)
}

/// The first collection instant strictly after `now_ts`: the most recent
/// interval boundary plus the deployment's offset, advanced by one interval
/// if that instant has already passed.
pub open spec fn next_collection_of(offset: u64, interval_ms: u64, now_ts: u64) -> int {
    let previous = now_ts - (now_ts as int % interval_ms as int) + offset;
    if previous > now_ts {
        previous
    } else {
        previous + interval_ms
    }
}

/// The 32-byte generator seed a deployment identifier determines: its first
/// bytes, zero-padded.
pub open spec fn seed_of(org: Seq<u8>) -> Seq<u8> {
    Seq::new(32, |i: int| if i < org.len() { org[i] } else { 0u8 })
}

/// A collection mentions a shard if the shard backs it in any role.
impl CollectionMetadata {
    pub open spec fn mentions(self, s: u64) -> bool {
        self.data_shard == s || self.remap_shard == Some(s) || self.status_shard == Some(s)
    }
}

/// Some collection in the list is backed by the shard.
pub open spec fn shard_mentioned(cols: Seq<CollectionMetadata>, s: u64) -> bool {
    exists|i: int| 0 <= i < cols.len() && (#[trigger] cols[i]).mentions(s)
}

/// The next collection instant lies strictly after now, at most one interval
/// away, and on the fixed schedule: it is congruent to the deployment's
/// offset modulo the interval.
pub proof fn lemma_next_collection_bounds(offset: u64, interval_ms: u64, now_ts: u64)
    requires
        interval_ms > 0,
        offset < interval_ms,
    ensures
        now_ts < next_collection_of(offset, interval_ms, now_ts),
        next_collection_of(offset, interval_ms, now_ts) <= now_ts + interval_ms,
        next_collection_of(offset, interval_ms, now_ts) % (interval_ms as int) == offset,
{
    let i = interval_ms as int;
    let n = now_ts as int;
    let q = n / i;
    let r = n % i;
    vstd::arithmetic::div_mod::lemma_fundamental_div_mod(n, i);
    vstd::arithmetic::div_mod::lemma_mod_bound(n, i);
    let previous = n - r + offset;
    assert(previous == q * i + offset);
    vstd::arithmetic::div_mod::lemma_mod_multiples_vanish(q, offset as int, i);
    vstd::arithmetic::div_mod::lemma_small_mod(offset as nat, interval_ms as nat);
    assert(previous % i == offset);
    if previous <= n {
        assert((q + 1) * i == q * i + i) by (nonlinear_arith);
        vstd::arithmetic::div_mod::lemma_mod_multiples_vanish(q + 1, offset as int, i);
        vstd::arithmetic::div_mod::lemma_small_mod(offset as nat, interval_ms as nat);
        assert((previous + i) % i == offset);
    }
}

/// Scheduling determinism: two schedule computations with the same offset and
/// interval, made at any two instants before the scheduled collection, name
/// the same collection instant — a restart before the collection does not
/// drift the schedule.
pub proof fn lemma_schedule_deterministic(offset: u64, interval_ms: u64, n1: u64, n2: u64)
    requires
        interval_ms > 0,
        offset < interval_ms,
        n1 <= n2,
        n2 < next_collection_of(offset, interval_ms, n1),
    ensures
        next_collection_of(offset, interval_ms, n1) == next_collection_of(offset, interval_ms, n2),
{
    let i = interval_ms as int;
    let t1 = next_collection_of(offset, interval_ms, n1);
    let t2 = next_collection_of(offset, interval_ms, n2);
    lemma_next_collection_bounds(offset, interval_ms, n1);
    lemma_next_collection_bounds(offset, interval_ms, n2);
    vstd::arithmetic::div_mod::lemma_fundamental_div_mod(t1, i);
    vstd::arithmetic::div_mod::lemma_fundamental_div_mod(t2, i);
    let q1 = t1 / i;
    let q2 = t2 / i;
    assert(t1 == q1 * i + offset);
    assert(t2 == q2 * i + offset);
    assert(t1 - t2 == (q1 - q2) * i) by (nonlinear_arith)
        requires
            t1 == q1 * i + offset,
            t2 == q2 * i + offset,
    ;
    assert(n2 < t1 <= n2 + i);
    assert(n2 < t2 <= n2 + i);
    assert(q1 == q2) by (nonlinear_arith)
        requires
            (q1 - q2) * i < i,
            -i < (q1 - q2) * i,
            i > 0,
    ;
}

/// The outcome of starting a collection: one background scan over exactly the
/// shards the live collections reference, each once, in increasing order.
pub open spec fn fetch_outcome(collections: Seq<CollectionMetadata>, actions: Seq<Action>) -> bool {
    &&& actions.len() == 1
    &&& actions[0] matches Action::FetchShardSizes { shards } && sorted_strict(shards@) && (forall|
        s: u64,
    | shards@.contains(s) <==> shard_mentioned(collections, s))
}

/// The outcome of recording fetched shard sizes: one commit of exactly one
/// usage record per shard, all at the collection timestamp.
pub open spec fn update_outcome(
    sizes: Seq<(u64, u64)>,
    collection_timestamp: u64,
    actions: Seq<Action>,
) -> bool {
    &&& actions.len() == 1
    &&& actions[0] matches Action::TransactUsageOps { ops } && ops@.len() == sizes.len() && (forall|
        i: int,
    |
        0 <= i < sizes.len() ==> ops@[i] == (UsageOp {
            shard_id: sizes[i].0,
            size_bytes: sizes[i].1,
            collection_timestamp,
        }))
}

/// The outcome of scheduling the next collection: one wait that ends exactly
/// at the deployment's next collection instant — determined by its seed, its
/// interval and the current timestamp alone — which lies strictly in the
/// future and at most one interval away.
pub open spec fn schedule_outcome(s: Coordinator, now_ts: u64, actions: Seq<Action>) -> bool {
    &&& actions.len() == 1
    &&& actions[0] matches Action::ScheduleStorageFetch { after_ms } && now_ts + after_ms
        == next_collection_of(
        sched_offset_of(seed_of(s.organization_id@), s.storage_usage_collection_interval_ms),
        s.storage_usage_collection_interval_ms,
        now_ts,
    ) && 0 < after_ms <= s.storage_usage_collection_interval_ms
}

impl Coordinator {
    /// Starts one storage-usage collection over the given live collections:
    /// gathers every shard they reference — data, remap and status shards
    /// alike, each once — and hands the set to a background scan whose result
    /// re-enters the loop as a usage update.
    pub fn storage_usage_fetch(&self, collections: &Vec<CollectionMetadata>) -> (actions: Vec<
        Action,
    >)
        ensures
            fetch_outcome(collections@, actions@),
    {
        let ghost cols = collections@;
        let mut shards: Vec<u64> = Vec::new();
        let mut k: usize = 0;
        while k < collections.len()
            invariant
                cols == collections@,
                k <= cols.len(),
                sorted_strict(shards@),
                forall|s: u64| shards@.contains(s) <==> shard_mentioned(cols.take(k as int), s),
            decreases cols.len() - k,
        {
            let ghost before = cols.take(k as int);
            proof {
                assert(cols.take(k + 1).drop_last() =~= before);
                assert(cols.take(k + 1).last() == cols[k as int]);
            }
            let c = collections[k];
            insert_sorted_unique(&mut shards, c.data_shard);
            if let Some(s) = c.remap_shard {
                insert_sorted_unique(&mut shards, s);
            }
            if let Some(s) = c.status_shard {
                insert_sorted_unique(&mut shards, s);
            }
            proof {
                assert forall|s: u64| shards@.contains(s) implies shard_mentioned(
                    cols.take(k + 1),
                    s,
                ) by {
                    if shard_mentioned(before, s) {
                        let i = choose|i: int| 0 <= i < before.len() && (#[trigger] before[i]).mentions(s);
                        assert(cols.take(k + 1)[i].mentions(s));
                    } else {
                        assert(cols.take(k + 1)[k as int].mentions(s));
                    }
                }
                assert forall|s: u64| shard_mentioned(cols.take(k + 1), s) implies shards@.contains(
                    s,
                ) by {
                    let i = choose|i: int|
                        0 <= i < cols.take(k + 1).len() && (#[trigger] cols.take(k + 1)[i]).mentions(
                        s);
                    if i < k {
                        assert(before[i].mentions(s));
                        assert(shard_mentioned(before, s));
                    } else {
                        assert(cols[k as int].mentions(s));
                    }
                }
            }
            k = k + 1;
        }
        proof {
            assert(cols.take(cols.len() as int) =~= cols);
        }
        let mut actions: Vec<Action> = Vec::new();
        actions.push(Action::FetchShardSizes { shards });
        actions
    }

    /// Records fetched shard sizes: one usage record per shard, all at the
    /// collection timestamp — the timestamp of when collection finished, so
    /// that no data is written at a timestamp in the past. The runtime
    /// commits the records and, on success, schedules the next collection.
    pub fn storage_usage_update(&self, sizes: &Vec<(u64, u64)>, collection_timestamp: u64) -> (actions: Vec<Action>)
        ensures
            update_outcome(sizes@, collection_timestamp, actions@),
    {
        let mut ops: Vec<UsageOp> = Vec::new();
        let mut k: usize = 0;
        while k < sizes.len()
            invariant
                k <= sizes@.len(),
                ops@.len() == k,
                forall|i: int|
                    0 <= i < k ==> ops@[i] == (UsageOp {
                        shard_id: sizes@[i].0,
                        size_bytes: sizes@[i].1,
                        collection_timestamp,
                    }),
            decreases sizes@.len() - k,
        {
            let (shard_id, size_bytes) = sizes[k];
            ops.push(UsageOp { shard_id, size_bytes, collection_timestamp });
            k = k + 1;
        }
        let mut actions: Vec<Action> = Vec::new();
        actions.push(Action::TransactUsageOps { ops });
        actions
    }

    /// Schedules the next storage-usage collection. The instant is the most
    /// recent interval boundary plus a deterministic pseudo-random offset
    /// seeded from the deployment's stable identifier — so independently
    /// operated deployments sharing an interval spread out, while one
    /// deployment's schedule is identical across restarts — advanced by one
    /// interval if it has already passed. The runtime sleeps for the returned
    /// wait and then begins the collection.
    pub fn schedule_storage_usage_collection(&self, now_ts: u64) -> (actions: Vec<Action>)
        requires
            self.storage_usage_collection_interval_ms > 0,
            now_ts + self.storage_usage_collection_interval_ms <= u64::MAX,
        ensures
            schedule_outcome(*self, now_ts, actions@),
    {
        let interval_ms = self.storage_usage_collection_interval_ms;
        let mut seed: Vec<u8> = Vec::new();
        let mut k: usize = 0;
        while k < 32
            invariant
                k <= 32,
                seed@.len() == k,
                forall|i: int|
                    0 <= i < k ==> seed@[i] == (if i < self.organization_id@.len() {
                        self.organization_id@[i]
                    } else {
                        0u8
                    }),
            decreases 32 - k,
        {
            if k < self.organization_id.len() {
                let b = self.organization_id[k];
                seed.push(b);
            } else {
                seed.push(0);
            }
            k = k + 1;
        }
        proof {
            assert(seed@ =~= seed_of(self.organization_id@));
        }
        let offset = sched_offset(&seed, interval_ms);
        proof {
            lemma_next_collection_bounds(offset, interval_ms, now_ts);
            vstd::arithmetic::div_mod::lemma_mod_decreases(now_ts as nat, interval_ms as nat);
        }
        let previous_collection_ts = (now_ts - (now_ts % interval_ms)) + offset;
        let next_collection_ts = if previous_collection_ts > now_ts {
            previous_collection_ts
        } else {
            previous_collection_ts + interval_ms
        };
        let after_ms = next_collection_ts - now_ts;
        let mut actions: Vec<Action> = Vec::new();
        actions.push(Action::ScheduleStorageFetch { after_ms });
        actions
    }
}

} // verus!
