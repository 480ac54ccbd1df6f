//! The mathematical model of the cache: its abstract state and the
//! transition each operation performs on it.

use vstd::prelude::*;

use crate::dns_lru::LruValueV;
use crate::lookup::LookupV;
use crate::rr::{QueryKey, RDataV, RecordType, RecordV};

verus! {

/// The abstract state of the store: the key-to-entry mapping, the keys in
/// least- to most-recently-used order, and the fixed capacity.
#[verifier::ext_equal]
pub struct CacheModel {
    pub entries: Map<QueryKey, LruValueV>,
    pub recency: Seq<QueryKey>,
    pub capacity: usize,
}

/// A store holding nothing.
pub open spec fn empty_model(capacity: usize) -> CacheModel {
    CacheModel { entries: Map::empty(), recency: Seq::empty(), capacity }
}

/// The keys of `r` in order, with every occurrence of `k` dropped.
pub open spec fn without_key(r: Seq<QueryKey>, k: QueryKey) -> Seq<QueryKey>
    decreases r.len(),
{
    if r.len() == 0 {
        Seq::empty()
    } else {
        let rest = without_key(r.drop_last(), k);
        if r.last() == k {
            rest
        } else {
            rest.push(r.last())
        }
    }
}

/// The recency order after key `k` is used: `k` moves to (or enters at) the
/// most recently used end.
pub open spec fn refreshed(r: Seq<QueryKey>, k: QueryKey) -> Seq<QueryKey> {
    without_key(r, k).push(k)
}

/// The state after `k` is bound to `v`: any prior entry for `k` is replaced,
/// `k` becomes the most recently used key, and if `k` is new while the store
/// is already full, the least recently used key is evicted.
pub open spec fn model_insert(c: CacheModel, k: QueryKey, v: LruValueV) -> CacheModel {
    let m1 = c.entries.insert(k, v);
    let r1 = refreshed(c.recency, k);
    if !c.recency.contains(k) && c.recency.len() >= c.capacity {
        CacheModel {
            entries: m1.remove(r1[0]),
            recency: r1.subrange(1, r1.len() as int),
            capacity: c.capacity,
        }
    } else {
        CacheModel { entries: m1, recency: r1, capacity: c.capacity }
    }
}

/// The state after a hit on `k`: entries unchanged, `k` most recently used.
pub open spec fn model_refresh(c: CacheModel, k: QueryKey) -> CacheModel {
    CacheModel { entries: c.entries, recency: refreshed(c.recency, k), capacity: c.capacity }
}

/// The state after `k`'s entry is dropped.
pub open spec fn model_remove(c: CacheModel, k: QueryKey) -> CacheModel {
    CacheModel {
        entries: c.entries.remove(k),
        recency: without_key(c.recency, k),
        capacity: c.capacity,
    }
}

/// The state with every entry removed.
pub open spec fn model_clear(c: CacheModel) -> CacheModel {
    CacheModel { entries: Map::empty(), recency: Seq::empty(), capacity: c.capacity }
}

pub proof fn lemma_without_key_push_same(a: Seq<QueryKey>, k: QueryKey)
    ensures
        without_key(a.push(k), k) == without_key(a, k),
{
    assert(a.push(k).drop_last() =~= a);
    assert(a.push(k).last() == k);
}

pub proof fn lemma_without_key_elements(r: Seq<QueryKey>, k: QueryKey)
    ensures
        forall|i: int| 0 <= i < without_key(r, k).len() ==> without_key(r, k)[i] != k,
    decreases r.len(),
{
    if r.len() > 0 {
        lemma_without_key_elements(r.drop_last(), k);
        if r.last() != k {
            assert(without_key(r, k) == without_key(r.drop_last(), k).push(r.last()));
        } else {
            assert(without_key(r, k) == without_key(r.drop_last(), k));
        }
    }
}

pub proof fn lemma_without_key_noop(a: Seq<QueryKey>, k: QueryKey)
    requires
        forall|i: int| 0 <= i < a.len() ==> a[i] != k,
    ensures
        without_key(a, k) == a,
    decreases a.len(),
{
    if a.len() > 0 {
        lemma_without_key_noop(a.drop_last(), k);
        assert(a.drop_last().push(a.last()) =~= a);
    }
}

/// Refreshing a key and then dropping it leaves the same order as dropping
/// it outright.
pub proof fn lemma_remove_after_refresh(r: Seq<QueryKey>, k: QueryKey)
    ensures
        without_key(refreshed(r, k), k) == without_key(r, k),
{
    let wk = without_key(r, k);
    lemma_without_key_push_same(wk, k);
    lemma_without_key_elements(r, k);
    lemma_without_key_noop(wk, k);
}

/// `t` clamped into `[lo, hi]` (meaningful for `lo <= hi`).
pub open spec fn clamp_ttl(t: u64, lo: u64, hi: u64) -> u64
    recommends
        lo <= hi,
{
    if t < lo {
        lo
    } else if t > hi {
        hi
    } else {
        t
    }
}

/// The fold of `min` over the given record TTLs, started at `cap`.
pub open spec fn min_ttl(cap: u64, ttls: Seq<u32>) -> u64
    decreases ttls.len(),
{
    if ttls.len() == 0 {
        cap
    } else {
        let rest = min_ttl(cap, ttls.drop_last());
        if (ttls.last() as u64) < rest {
            ttls.last() as u64
        } else {
            rest
        }
    }
}

/// The effective TTL of a positive insert: the smallest record TTL, capped
/// by `pos_max` and then floored by `pos_min`.
pub open spec fn positive_ttl(pos_min: u64, pos_max: u64, ttls: Seq<u32>) -> u64 {
    let m = min_ttl(pos_max, ttls);
    if pos_min > m {
        pos_min
    } else {
        m
    }
}

pub proof fn lemma_min_ttl_le_cap(cap: u64, ttls: Seq<u32>)
    ensures
        min_ttl(cap, ttls) <= cap,
    decreases ttls.len(),
{
    if ttls.len() > 0 {
        lemma_min_ttl_le_cap(cap, ttls.drop_last());
    }
}

/// The record type under which a freshly obtained record is cached: a CNAME
/// is cached under the original query's type, a signature record under the
/// type it covers (its own type when the covered type cannot be determined),
/// and any other record under its own type.
pub open spec fn effective_type(original_type: RecordType, r: RecordV) -> RecordType {
    if r.rr_type == RecordType::Cname {
        original_type
    } else if r.rr_type == RecordType::Rrsig {
        match r.rdata {
            RDataV::Rrsig(s) => s.type_covered,
            _ => RecordType::Rrsig,
        }
    } else {
        r.rr_type
    }
}

/// The sub-query a freshly obtained record is cached under: the record's own
/// name and class, with the effective type.
pub open spec fn sub_query_of(original: QueryKey, r: RecordV) -> QueryKey {
    QueryKey {
        name: r.name,
        query_type: effective_type(original.query_type, r),
        query_class: r.dns_class,
    }
}

/// The sub-query of each record, in order.
pub open spec fn sub_queries(original: QueryKey, rs: Seq<RecordV>) -> Seq<QueryKey> {
    rs.map_values(|r: RecordV| sub_query_of(original, r))
}

/// The distinct values of a sequence, in order of first occurrence.
pub open spec fn distinct_keys(s: Seq<QueryKey>) -> Seq<QueryKey>
    decreases s.len(),
{
    if s.len() == 0 {
        Seq::empty()
    } else {
        let p = distinct_keys(s.drop_last());
        if p.contains(s.last()) {
            p
        } else {
            p.push(s.last())
        }
    }
}

/// The bucket cached under `k`: every record whose sub-query is `k`, paired
/// with its own TTL, in order.
pub open spec fn bucket_for(original: QueryKey, rs: Seq<RecordV>, k: QueryKey) -> Seq<
    (RecordV, u32),
>
    decreases rs.len(),
{
    if rs.len() == 0 {
        Seq::empty()
    } else {
        let rest = bucket_for(original, rs.drop_last(), k);
        if sub_query_of(original, rs.last()) == k {
            rest.push((rs.last(), rs.last().ttl))
        } else {
            rest
        }
    }
}

/// The partition of freshly obtained records into the buckets they are
/// cached under, keyed by sub-query in order of first occurrence.
pub open spec fn partition_spec(original: QueryKey, rs: Seq<RecordV>) -> Seq<
    (QueryKey, Seq<(RecordV, u32)>),
> {
    distinct_keys(sub_queries(original, rs)).map_values(
        |k: QueryKey| (k, bucket_for(original, rs, k)),
    )
}

/// The entry written by a positive insert of bucket `(k, pairs)` at `now`.
pub open spec fn positive_entry(
    pos_min: u64,
    pos_max: u64,
    k: QueryKey,
    pairs: Seq<(RecordV, u32)>,
    now: u64,
) -> LruValueV {
    let eff = positive_ttl(pos_min, pos_max, pairs.map_values(|p: (RecordV, u32)| p.1));
    let vu = (now + eff) as u64;
    LruValueV {
        lookup: Ok(
            LookupV {
                query: k,
                records: pairs.map_values(|p: (RecordV, u32)| p.0),
                valid_until: vu,
            },
        ),
        valid_until: vu,
    }
}

/// The state after every bucket is inserted, first to last.
pub open spec fn insert_buckets(
    c: CacheModel,
    pos_min: u64,
    pos_max: u64,
    bs: Seq<(QueryKey, Seq<(RecordV, u32)>)>,
    now: u64,
) -> CacheModel
    decreases bs.len(),
{
    if bs.len() == 0 {
        c
    } else {
        model_insert(
            insert_buckets(c, pos_min, pos_max, bs.drop_last(), now),
            bs.last().0,
            positive_entry(pos_min, pos_max, bs.last().0, bs.last().1, now),
        )
    }
}

} // verus!
