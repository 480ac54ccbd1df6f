//! The cache's laws: properties of the model that hold for all inputs,
//! stated and proved once here.

use vstd::prelude::*;

use crate::dns_lru::{hit_outcome, rebased_ttl, remaining_of, saturated_ttl, LruValueV};
use crate::model::{
    clamp_ttl, distinct_keys, insert_buckets, lemma_without_key_noop, min_ttl, model_clear,
    model_insert, model_remove, partition_spec, positive_entry, positive_ttl, sub_queries,
    sub_query_of, without_key, CacheModel,
};
use crate::rr::{QueryKey, RecordType, RecordV};

verus! {

/// The smallest element of a sequence of TTLs (the top of the range when
/// the sequence is empty).
pub open spec fn seq_min(ttls: Seq<u32>) -> u64
    decreases ttls.len(),
{
    if ttls.len() == 0 {
        u64::MAX
    } else {
        let rest = seq_min(ttls.drop_last());
        if (ttls.last() as u64) < rest {
            ttls.last() as u64
        } else {
            rest
        }
    }
}

/// `seq_min` is a lower bound on every element and is attained by one.
pub proof fn lemma_seq_min_is_min(ttls: Seq<u32>)
    ensures
        forall|j: int| 0 <= j < ttls.len() ==> seq_min(ttls) <= ttls[j],
        ttls.len() > 0 ==> exists|j: int| 0 <= j < ttls.len() && seq_min(ttls) == ttls[j],
    decreases ttls.len(),
{
    if ttls.len() > 0 {
        lemma_seq_min_is_min(ttls.drop_last());
        assert(forall|j: int| 0 <= j < ttls.len() - 1 ==> ttls.drop_last()[j] == ttls[j]);
        if (ttls.last() as u64) < seq_min(ttls.drop_last()) {
            assert(seq_min(ttls) == ttls[ttls.len() - 1]);
        } else {
            let w = choose|j: int|
                0 <= j < ttls.drop_last().len() && seq_min(ttls.drop_last())
                    == ttls.drop_last()[j];
            assert(seq_min(ttls) == ttls[w]);
        }
    }
}

pub proof fn lemma_min_ttl_is_capped_min(cap: u64, ttls: Seq<u32>)
    ensures
        min_ttl(cap, ttls) == (if seq_min(ttls) < cap {
            seq_min(ttls)
        } else {
            cap
        }),
    decreases ttls.len(),
{
    if ttls.len() > 0 {
        lemma_min_ttl_is_capped_min(cap, ttls.drop_last());
    }
}

/// For any positive insert with at least one record and bounds
/// `lo <= hi`: the effective TTL is the smallest per-record TTL clamped
/// into `[lo, hi]`.
pub proof fn lemma_positive_ttl_is_clamp(lo: u64, hi: u64, ttls: Seq<u32>)
    requires
        lo <= hi,
        ttls.len() > 0,
    ensures
        positive_ttl(lo, hi, ttls) == clamp_ttl(seq_min(ttls), lo, hi),
{
    lemma_min_ttl_is_capped_min(hi, ttls);
}

/// For any negative insert with TTL `t` and bounds `lo <= hi` within the
/// 32-bit range: the TTL written back into the returned outcome is exactly
/// the clamped value (no truncation distorts it), the same value whose
/// offset from `now` becomes the cached deadline.
pub proof fn lemma_negative_ttl_is_clamp(t: u32, lo: u64, hi: u64)
    requires
        lo <= hi,
        hi <= u32::MAX,
    ensures
        saturated_ttl(clamp_ttl(t as u64, lo, hi)) == clamp_ttl(t as u64, lo, hi),
{
}

/// While a positive entry is current, the per-record TTL a hit reports
/// equals the seconds remaining to the fixed deadline, and is therefore
/// non-increasing as `now` advances toward it. (Stated for remaining times
/// within the 32-bit TTL range; past it the reported TTL is the remaining
/// time truncated to 32 bits.)
pub proof fn lemma_hit_ttl_tracks_remaining(v: LruValueV, now1: u64, now2: u64)
    requires
        v.lookup is Ok,
        now1 <= now2 <= v.valid_until,
        v.valid_until - now1 <= u32::MAX,
    ensures
        hit_outcome(v, now1) is Ok,
        hit_outcome(v, now2) is Ok,
        forall|j: int|
            0 <= j < hit_outcome(v, now1)->Ok_0.records.len() ==> {
                &&& hit_outcome(v, now1)->Ok_0.records[j].ttl == v.valid_until - now1
                &&& hit_outcome(v, now2)->Ok_0.records[j].ttl == v.valid_until - now2
                &&& hit_outcome(v, now2)->Ok_0.records[j].ttl <= hit_outcome(
                    v,
                    now1,
                )->Ok_0.records[j].ttl
            },
{
    assert(rebased_ttl(remaining_of(v.valid_until, now1)) == v.valid_until - now1);
    assert(rebased_ttl(remaining_of(v.valid_until, now2)) == v.valid_until - now2);
    let lk = v.lookup->Ok_0;
    assert forall|j: int| 0 <= j < hit_outcome(v, now1)->Ok_0.records.len() implies {
        &&& hit_outcome(v, now1)->Ok_0.records[j].ttl == v.valid_until - now1
        &&& hit_outcome(v, now2)->Ok_0.records[j].ttl == v.valid_until - now2
        &&& hit_outcome(v, now2)->Ok_0.records[j].ttl <= hit_outcome(v, now1)->Ok_0.records[j].ttl
    } by {
        assert(hit_outcome(v, now1)->Ok_0.records[j].ttl == rebased_ttl(
            remaining_of(v.valid_until, now1),
        ));
        assert(hit_outcome(v, now2)->Ok_0.records[j].ttl == rebased_ttl(
            remaining_of(v.valid_until, now2),
        ));
    }
}

/// A read that evicts an expired entry leaves the key absent, so every
/// later read of that key misses.
pub proof fn lemma_eviction_is_permanent(c: CacheModel, k: QueryKey)
    ensures
        !model_remove(c, k).entries.contains_key(k),
{
}

/// After `clear`, no key has an entry.
pub proof fn lemma_clear_forgets(c: CacheModel, k: QueryKey)
    ensures
        !model_clear(c).entries.contains_key(k),
{
}

pub proof fn lemma_without_key_len(r: Seq<QueryKey>, k: QueryKey)
    ensures
        without_key(r, k).len() <= r.len(),
    decreases r.len(),
{
    if r.len() > 0 {
        lemma_without_key_len(r.drop_last(), k);
    }
}

/// Inserting under a key always leaves that key present, bound to the new
/// entry (a store of capacity zero, which keeps nothing, is excluded).
pub proof fn lemma_insert_key_present(c: CacheModel, k: QueryKey, v: LruValueV)
    requires
        c.capacity >= 1,
    ensures
        model_insert(c, k, v).entries.contains_key(k),
        model_insert(c, k, v).entries[k] == v,
        model_insert(c, k, v).recency.contains(k),
{
    let wk = without_key(c.recency, k);
    let r1 = wk.push(k);
    if !c.recency.contains(k) && c.recency.len() >= c.capacity {
        assert(forall|i: int| 0 <= i < c.recency.len() ==> c.recency[i] != k);
        lemma_without_key_noop(c.recency, k);
        assert(r1[0] == c.recency[0]);
        assert(r1[0] != k);
        let rec = model_insert(c, k, v).recency;
        assert(rec[r1.len() - 2] == r1[r1.len() - 1]);
        assert(rec.contains(k));
    } else {
        assert(r1[r1.len() - 1] == k);
        assert(model_insert(c, k, v).recency.contains(k));
    }
}

/// Inserting the same key twice replaces the prior entry: afterwards the
/// key is bound to the second value, and the mapping as a whole is the
/// first insertion's mapping with only that binding changed — the old entry
/// is not observable.
pub proof fn lemma_insert_replaces(c: CacheModel, k: QueryKey, v1: LruValueV, v2: LruValueV)
    requires
        c.capacity >= 1,
    ensures
        model_insert(model_insert(c, k, v1), k, v2).entries[k] == v2,
        model_insert(model_insert(c, k, v1), k, v2).entries == model_insert(
            c,
            k,
            v1,
        ).entries.insert(k, v2),
{
    lemma_insert_key_present(c, k, v1);
}

/// A CNAME record's cache key carries the original query's type, not the
/// CNAME type itself.
pub proof fn lemma_cname_key_uses_original_type(orig: QueryKey, r: RecordV)
    requires
        r.rr_type == RecordType::Cname,
    ensures
        sub_query_of(orig, r).query_type == orig.query_type,
{
}

/// Two signature records that share an owner name but cover different
/// record types are cached under distinct keys, so neither insertion
/// overwrites the other.
pub proof fn lemma_rrsig_keys_distinct(orig: QueryKey, r1: RecordV, r2: RecordV)
    requires
        r1.rr_type == RecordType::Rrsig,
        r2.rr_type == RecordType::Rrsig,
        r1.rdata is Rrsig,
        r2.rdata is Rrsig,
        r1.rdata->Rrsig_0.type_covered != r2.rdata->Rrsig_0.type_covered,
    ensures
        sub_query_of(orig, r1) != sub_query_of(orig, r2),
{
}

/// The keys of a partition are distinct.
pub proof fn lemma_distinct_keys_no_dup(s: Seq<QueryKey>)
    ensures
        forall|a: int, b: int|
            0 <= a < b < distinct_keys(s).len() ==> distinct_keys(s)[a] != distinct_keys(s)[b],
    decreases s.len(),
{
    if s.len() > 0 {
        lemma_distinct_keys_no_dup(s.drop_last());
        let p = distinct_keys(s.drop_last());
        if !p.contains(s.last()) {
            assert(forall|a: int| 0 <= a < p.len() ==> p[a] != s.last());
            assert(forall|a: int|
                0 <= a < distinct_keys(s).len() - 1 ==> distinct_keys(s)[a] == p[a]);
        }
    }
}

/// Inserting buckets with pairwise distinct keys into a store with room
/// for all of them leaves every bucket present, each under its own key
/// with its own entry: none of them overwrites another.
pub proof fn lemma_insert_buckets_all_present(
    c: CacheModel,
    pmin: u64,
    pmax: u64,
    bs: Seq<(QueryKey, Seq<(RecordV, u32)>)>,
    now: u64,
)
    requires
        c.recency.len() + bs.len() <= c.capacity,
        forall|a: int, b: int| 0 <= a < b < bs.len() ==> bs[a].0 != bs[b].0,
    ensures
        insert_buckets(c, pmin, pmax, bs, now).capacity == c.capacity,
        insert_buckets(c, pmin, pmax, bs, now).recency.len() <= c.recency.len() + bs.len(),
        forall|l: int|
            0 <= l < bs.len() ==> insert_buckets(c, pmin, pmax, bs, now).entries.contains_key(
                bs[l].0,
            ) && insert_buckets(c, pmin, pmax, bs, now).entries[bs[l].0] == positive_entry(
                pmin,
                pmax,
                bs[l].0,
                bs[l].1,
                now,
            ),
    decreases bs.len(),
{
    if bs.len() > 0 {
        let prefix = bs.drop_last();
        lemma_insert_buckets_all_present(c, pmin, pmax, prefix, now);
        let m1 = insert_buckets(c, pmin, pmax, prefix, now);
        let k = bs.last().0;
        let e = positive_entry(pmin, pmax, bs.last().0, bs.last().1, now);
        lemma_without_key_len(m1.recency, k);
        assert(m1.recency.len() < m1.capacity);
        assert(!(!m1.recency.contains(k) && m1.recency.len() >= m1.capacity));
        assert(insert_buckets(c, pmin, pmax, bs, now).recency == without_key(
            m1.recency,
            k,
        ).push(k));
        assert(insert_buckets(c, pmin, pmax, bs, now).entries == m1.entries.insert(k, e));
        assert(forall|l: int| 0 <= l < bs.len() - 1 ==> bs[l].0 != k);
        assert(forall|l: int| 0 <= l < bs.len() - 1 ==> prefix[l] == bs[l]);
    }
}

/// The partition of any record set has pairwise distinct keys, so the laws
/// above apply to what `insert_records` caches.
pub proof fn lemma_partition_keys_distinct(orig: QueryKey, rs: Seq<RecordV>)
    ensures
        forall|a: int, b: int|
            0 <= a < b < partition_spec(orig, rs).len() ==> partition_spec(orig, rs)[a].0
                != partition_spec(orig, rs)[b].0,
{
    let dk = distinct_keys(sub_queries(orig, rs));
    lemma_distinct_keys_no_dup(sub_queries(orig, rs));
    assert forall|a: int, b: int|
        0 <= a < b < partition_spec(orig, rs).len() implies partition_spec(orig, rs)[a].0
        != partition_spec(orig, rs)[b].0 by {
        assert(partition_spec(orig, rs)[a].0 == dk[a]);
        assert(partition_spec(orig, rs)[b].0 == dk[b]);
    }
}


} // verus!
