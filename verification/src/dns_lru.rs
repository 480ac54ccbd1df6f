//! The cache engine: entries, TTL clamping, and the LRU-evicting store.

use vstd::prelude::*;

use crate::config::ResolverOpts;
use crate::error::{has_negative_ttl, nx_with_ttl, spec_negative_ttl, ProtoError, ProtoErrorKind, ProtoErrorV};
use crate::lookup::{Lookup, LookupV};
use crate::model::{
    bucket_for, clamp_ttl, distinct_keys, insert_buckets, min_ttl, model_clear, model_insert,
    model_refresh, model_remove, partition_spec, positive_entry, positive_ttl, sub_queries,
    sub_query_of, CacheModel,
};
use crate::rr::{Query, QueryKey, RData, Record, RecordType, RecordV};
use crate::store::{
    store_clear, store_get_refresh, store_insert, store_model, store_new, store_remove, LruStore,
};

verus! {

/// The largest time to live the cache will ever hand out, in seconds (one
/// day). Resolvers bound received TTLs well below the protocol's nominal
/// 32-bit range.
pub const MAX_TTL: u32 = 86400;

/// The time-to-live bounds used by the cache, each an optional number of
/// seconds; an absent bound falls back to its default at construction:
/// 0 for the minimums and [`MAX_TTL`] for the maximums.
#[derive(Clone, Copy, Debug)]
pub struct TtlConfig {
    /// Positive responses with TTLs under this value use it instead.
    pub positive_min_ttl: Option<u64>,
    /// Negative responses with TTLs under this value use it instead.
    pub negative_min_ttl: Option<u64>,
    /// Positive responses with TTLs over this value use it instead.
    pub positive_max_ttl: Option<u64>,
    /// Negative responses with TTLs over this value use it instead.
    pub negative_max_ttl: Option<u64>,
}

impl TtlConfig {
    /// Reads the TTL bounds out of the resolver's configuration.
    pub fn from_opts(opts: &ResolverOpts) -> (r: Self)
        ensures
            r.positive_min_ttl == opts.positive_min_ttl,
            r.negative_min_ttl == opts.negative_min_ttl,
            r.positive_max_ttl == opts.positive_max_ttl,
            r.negative_max_ttl == opts.negative_max_ttl,
    {
        TtlConfig {
            positive_min_ttl: opts.positive_min_ttl,
            negative_min_ttl: opts.negative_min_ttl,
            positive_max_ttl: opts.positive_max_ttl,
            negative_max_ttl: opts.negative_max_ttl,
        }
    }
}

impl Default for TtlConfig {
    fn default() -> (r: Self)
        ensures
            r.positive_min_ttl.is_none(),
            r.negative_min_ttl.is_none(),
            r.positive_max_ttl.is_none(),
            r.negative_max_ttl.is_none(),
    {
        TtlConfig {
            positive_min_ttl: None,
            negative_min_ttl: None,
            positive_max_ttl: None,
            negative_max_ttl: None,
        }
    }
}

/// One stored cache entry: a positive or negative outcome plus the absolute
/// time until which it is valid.
#[derive(Debug)]
pub struct LruValue {
    /// A positive answer set, or a negative outcome standing for an
    /// authoritative "no records" reply.
    pub lookup: Result<Lookup, ProtoError>,
    pub valid_until: u64,
}

/// The mathematical value of an [`LruValue`].
#[verifier::ext_equal]
pub struct LruValueV {
    pub lookup: Result<LookupV, ProtoErrorV>,
    pub valid_until: u64,
}

impl View for LruValue {
    type V = LruValueV;

    open spec fn view(&self) -> LruValueV {
        LruValueV {
            lookup: match &self.lookup {
                Ok(lk) => Ok(lk@),
                Err(e) => Err(e@),
            },
            valid_until: self.valid_until,
        }
    }
}

/// Seconds from `now` until `valid_until`, saturating at zero.
pub open spec fn remaining_of(valid_until: u64, now: u64) -> u64 {
    if now <= valid_until {
        (valid_until - now) as u64
    } else {
        0
    }
}

/// A remaining duration truncated into a record's 32-bit TTL field.
pub open spec fn rebased_ttl(remaining: u64) -> u32 {
    (remaining % 0x1_0000_0000) as u32
}

/// A remaining duration converted for a negative answer's TTL field: values
/// past the 32-bit range fall back to [`MAX_TTL`].
pub open spec fn saturated_ttl(remaining: u64) -> u32 {
    if remaining > u32::MAX {
        MAX_TTL
    } else {
        remaining as u32
    }
}

/// The entry re-derived for return at time `now`: a positive outcome has
/// every record's TTL field rewritten to the seconds remaining, and its
/// lookup re-stamped with the entry's own deadline; a negative outcome is
/// returned unchanged.
pub open spec fn with_updated_ttl_spec(v: LruValueV, now: u64) -> LruValueV {
    match v.lookup {
        Ok(lk) => {
            let t = rebased_ttl(remaining_of(v.valid_until, now));
            LruValueV {
                lookup: Ok(
                    LookupV {
                        query: lk.query,
                        records: lk.records.map_values(
                            |r: crate::rr::RecordV| crate::rr::RecordV { ttl: t, ..r },
                        ),
                        valid_until: v.valid_until,
                    },
                ),
                valid_until: v.valid_until,
            }
        },
        Err(_) => v,
    }
}

impl LruValue {
    /// True while the entry has not passed its deadline; the boundary is
    /// inclusive.
    pub fn is_current(&self, now: u64) -> (r: bool)
        ensures
            r == (now <= self.valid_until),
    {
        now <= self.valid_until
    }

    /// The time remaining until the deadline, saturating at zero.
    pub fn ttl(&self, now: u64) -> (r: u64)
        ensures
            r == remaining_of(self.valid_until, now),
    {
        if now <= self.valid_until {
            self.valid_until - now
        } else {
            0
        }
    }

    /// Re-derives the entry with record TTLs rebased to the time remaining.
    pub fn with_updated_ttl(&self, now: u64) -> (r: Self)
        ensures
            r@ == with_updated_ttl_spec(self@, now),
    {
        let lookup = match &self.lookup {
            Ok(lookup) => {
                let remaining = self.ttl(now);
                let t: u32 = (remaining % 0x1_0000_0000) as u32;
                let mut records: Vec<Record> = Vec::new();
                let mut i: usize = 0;
                while i < lookup.records.len()
                    invariant
                        i <= lookup.records.len(),
                        records.len() == i,
                        forall|j: int|
                            0 <= j < i ==> records@[j]@ == (crate::rr::RecordV {
                                ttl: t,
                                ..lookup.records@[j]@
                            }),
                    decreases lookup.records.len() - i,
                {
                    let mut record = lookup.records[i].clone();
                    record.set_ttl(t);
                    records.push(record);
                    i += 1;
                }
                proof {
                    let lk = self@.lookup->Ok_0;
                    let tspec = rebased_ttl(remaining_of(self@.valid_until, now));
                    assert(t == tspec);
                    let lhs = records@.map_values(|r: Record| r@);
                    let rhs = with_updated_ttl_spec(self@, now).lookup->Ok_0.records;
                    assert forall|j: int| 0 <= j < rhs.len() implies lhs[j] == rhs[j] by {
                        assert(lk.records[j] == lookup.records@[j]@);
                        assert(rhs[j] == (crate::rr::RecordV { ttl: tspec, ..lk.records[j] }));
                    }
                    assert(lhs =~= rhs);
                }
                Ok(Lookup::new_with_deadline(lookup.query.clone(), records, self.valid_until))
            },
            Err(e) => Err(e.clone()),
        };
        LruValue { lookup, valid_until: self.valid_until }
    }
}

/// Rewrites a negative outcome's TTL field to the given number of seconds;
/// outcomes of any other kind are left unchanged.
pub fn nx_error_with_ttl(error: &mut ProtoError, new_ttl: u64)
    ensures
        final(error)@ == nx_with_ttl(old(error)@, saturated_ttl(new_ttl)),
{
    match &mut error.kind {
        crate::error::ProtoErrorKind::NoRecordsFound { negative_ttl, .. } => {
            *negative_ttl = Some(
                if new_ttl > 0xffff_ffff {
                    MAX_TTL
                } else {
                    new_ttl as u32
                },
            );
        },
        _ => {},
    }
}

/// The seconds of an optional bound, or the given default.
pub open spec fn secs_or(o: Option<u64>, d: u64) -> u64 {
    match o {
        Some(x) => x,
        None => d,
    }
}

/// The per-record TTLs of a positive insert's record list.
pub open spec fn pairs_ttls(ps: Seq<(Record, u32)>) -> Seq<u32> {
    ps.map_values(|p: (Record, u32)| p.1)
}

/// The record values of a positive insert's record list.
pub open spec fn pairs_records(ps: Seq<(Record, u32)>) -> Seq<RecordV> {
    ps.map_values(|p: (Record, u32)| p.0@)
}

/// The mathematical value of a returned outcome.
pub open spec fn outcome_view(o: Result<Lookup, ProtoError>) -> Result<LookupV, ProtoErrorV> {
    match o {
        Ok(l) => Ok(l@),
        Err(e) => Err(e@),
    }
}

/// What a hit on entry `v` at time `now` returns: the entry re-derived to
/// the time remaining, with a negative outcome's TTL field rewritten too.
pub open spec fn hit_outcome(v: LruValueV, now: u64) -> Result<LookupV, ProtoErrorV> {
    match with_updated_ttl_spec(v, now).lookup {
        Ok(lk) => Ok(lk),
        Err(e) => Err(nx_with_ttl(e, saturated_ttl(remaining_of(v.valid_until, now)))),
    }
}

/// The mathematical value of a sequence of records.
pub open spec fn records_view(rs: Seq<Record>) -> Seq<RecordV> {
    rs.map_values(|r: Record| r@)
}

/// The mathematical value of a sequence of queries.
pub open spec fn queries_view(qs: Seq<Query>) -> Seq<QueryKey> {
    qs.map_values(|q: Query| q@)
}

/// The mathematical value of a record list paired with TTLs.
pub open spec fn pairs_view(ps: Seq<(Record, u32)>) -> Seq<(RecordV, u32)> {
    ps.map_values(|p: (Record, u32)| (p.0@, p.1))
}

/// The mathematical value of a bucket list.
pub open spec fn buckets_view(bs: Seq<(Query, Vec<(Record, u32)>)>) -> Seq<
    (QueryKey, Seq<(RecordV, u32)>),
> {
    bs.map_values(|b: (Query, Vec<(Record, u32)>)| (b.0@, pairs_view(b.1@)))
}

/// Groups freshly obtained records into the sub-queries they are cached
/// under: a CNAME under the original query's type, a signature record under
/// the type it covers, anything else under its own type; each sub-query
/// carries the record's own name and class.
pub fn partition_records(original_query: &Query, records: Vec<Record>) -> (bs: Vec<
    (Query, Vec<(Record, u32)>),
>)
    ensures
        buckets_view(bs@) == partition_spec(original_query@, records_view(records@)),
{
    let ghost rv = records_view(records@);
    let ghost orig = original_query@;

    let mut subs: Vec<Query> = Vec::with_capacity(records.len());
    let mut i: usize = 0;
    while i < records.len()
        invariant
            i <= records.len(),
            subs.len() == i,
            orig == original_query@,
            rv == records_view(records@),
            forall|j: int| 0 <= j < i ==> subs@[j]@ == sub_query_of(orig, rv[j]),
        decreases records.len() - i,
    {
        let record = &records[i];
        let rtype = if record.rr_type == RecordType::Cname {
            original_query.query_type
        } else if record.rr_type == RecordType::Rrsig {
            match &record.rdata {
                RData::Rrsig(s) => s.type_covered,
                _ => RecordType::Rrsig,
            }
        } else {
            record.rr_type
        };
        let mut query = Query::query(record.name.clone(), rtype);
        query.set_query_class(record.dns_class);
        proof {
            assert(rv[i as int] == records@[i as int]@);
            assert(rv[i as int].rr_type == record.rr_type);
            assert(rtype == crate::model::effective_type(orig.query_type, rv[i as int]));
            assert(query@.name == rv[i as int].name);
            assert(query@.query_class == rv[i as int].dns_class);
            assert(query@ == sub_query_of(orig, rv[i as int]));
        }
        subs.push(query);
        i += 1;
    }
    proof {
        assert(queries_view(subs@) =~= sub_queries(orig, rv));
    }

    let mut keys: Vec<Query> = Vec::new();
    let mut i: usize = 0;
    while i < subs.len()
        invariant
            i <= subs.len(),
            orig == original_query@,
            queries_view(subs@) == sub_queries(orig, rv),
            queries_view(keys@) == distinct_keys(sub_queries(orig, rv).take(i as int)),
        decreases subs.len() - i,
    {
        let mut found = false;
        let mut j: usize = 0;
        while j < keys.len()
            invariant
                j <= keys.len(),
                i < subs.len(),
                found == (exists|l: int|
                    0 <= l < j && queries_view(keys@)[l] == subs@[i as int]@),
            decreases keys.len() - j,
        {
            if keys[j] == subs[i] {
                found = true;
                proof {
                    assert(queries_view(keys@)[j as int] == subs@[i as int]@);
                }
            }
            j += 1;
        }
        proof {
            let sq = sub_queries(orig, rv);
            assert(found == distinct_keys(sq.take(i as int)).contains(subs@[i as int]@));
            assert(sq.take(i + 1).drop_last() =~= sq.take(i as int));
            assert(sq.take(i + 1).last() == subs@[i as int]@);
        }
        if !found {
            keys.push(subs[i].clone());
            proof {
                assert(queries_view(keys@) =~= distinct_keys(
                    sub_queries(orig, rv).take(i + 1),
                ));
            }
        }
        i += 1;
    }
    proof {
        assert(sub_queries(orig, rv).take(subs@.len() as int) =~= sub_queries(orig, rv));
    }

    let mut bs: Vec<(Query, Vec<(Record, u32)>)> = Vec::with_capacity(keys.len());
    let mut ki: usize = 0;
    while ki < keys.len()
        invariant
            ki <= keys.len(),
            bs.len() == ki,
            orig == original_query@,
            rv == records_view(records@),
            queries_view(subs@) == sub_queries(orig, rv),
            subs.len() == records.len(),
            queries_view(keys@) == distinct_keys(sub_queries(orig, rv)),
            forall|l: int|
                0 <= l < ki ==> bs@[l].0@ == queries_view(keys@)[l] && pairs_view(bs@[l].1@)
                    == bucket_for(orig, rv, queries_view(keys@)[l]),
        decreases keys.len() - ki,
    {
        let ghost key = keys@[ki as int]@;
        let mut bucket: Vec<(Record, u32)> = Vec::new();
        let mut j: usize = 0;
        while j < records.len()
            invariant
                j <= records.len(),
                ki < keys.len(),
                orig == original_query@,
                rv == records_view(records@),
                queries_view(subs@) == sub_queries(orig, rv),
                subs.len() == records.len(),
                key == keys@[ki as int]@,
                pairs_view(bucket@) == bucket_for(orig, rv.take(j as int), key),
            decreases records.len() - j,
        {
            proof {
                assert(rv.take(j + 1).drop_last() =~= rv.take(j as int));
                assert(rv.take(j + 1).last() == rv[j as int]);
                assert(queries_view(subs@)[j as int] == subs@[j as int]@);
                assert(sub_queries(orig, rv)[j as int] == sub_query_of(orig, rv[j as int]));
                assert(subs@[j as int]@ == sub_query_of(orig, rv[j as int]));
            }
            if subs[j] == keys[ki] {
                let rec = records[j].clone();
                let t = rec.ttl;
                bucket.push((rec, t));
                proof {
                    assert(pairs_view(bucket@) =~= bucket_for(orig, rv.take(j + 1), key));
                }
            }
            j += 1;
        }
        proof {
            assert(rv.take(records@.len() as int) =~= rv);
        }
        bs.push((keys[ki].clone(), bucket));
        ki += 1;
    }
    proof {
        assert(buckets_view(bs@) =~= partition_spec(orig, rv));
    }
    bs
}

/// The cache: a bounded, LRU-evicting store keyed by query, plus the TTL
/// bounds applied to every insertion.
pub struct DnsLru {
    pub cache: LruStore,
    /// The floor for positive entries' TTLs, in seconds.
    pub positive_min_ttl: u64,
    /// The floor for negative entries' TTLs, in seconds.
    pub negative_min_ttl: u64,
    /// The ceiling for positive entries' TTLs, in seconds.
    pub positive_max_ttl: u64,
    /// The ceiling for negative entries' TTLs, in seconds.
    pub negative_max_ttl: u64,
}

impl DnsLru {
    /// The abstract state of the backing store.
    pub open spec fn model(&self) -> CacheModel {
        store_model(self.cache)
    }

    /// The key-to-entry mapping currently held.
    pub open spec fn entries(&self) -> Map<crate::rr::QueryKey, LruValueV> {
        self.model().entries
    }

    /// The four configured TTL bounds together.
    pub open spec fn bounds(&self) -> (u64, u64, u64, u64) {
        (self.positive_min_ttl, self.negative_min_ttl, self.positive_max_ttl, self.negative_max_ttl)
    }

    /// Builds a cache holding at most `capacity` entries, with absent TTL
    /// bounds replaced by their defaults.
    pub fn new(capacity: usize, ttl_cfg: TtlConfig) -> (r: Self)
        ensures
            r.model() == crate::model::empty_model(capacity),
            r.positive_min_ttl == secs_or(ttl_cfg.positive_min_ttl, 0),
            r.negative_min_ttl == secs_or(ttl_cfg.negative_min_ttl, 0),
            r.positive_max_ttl == secs_or(ttl_cfg.positive_max_ttl, MAX_TTL as u64),
            r.negative_max_ttl == secs_or(ttl_cfg.negative_max_ttl, MAX_TTL as u64),
    {
        let cache = store_new(capacity);
        DnsLru {
            cache,
            positive_min_ttl: match ttl_cfg.positive_min_ttl {
                Some(d) => d,
                None => 0,
            },
            negative_min_ttl: match ttl_cfg.negative_min_ttl {
                Some(d) => d,
                None => 0,
            },
            positive_max_ttl: match ttl_cfg.positive_max_ttl {
                Some(d) => d,
                None => MAX_TTL as u64,
            },
            negative_max_ttl: match ttl_cfg.negative_max_ttl {
                Some(d) => d,
                None => MAX_TTL as u64,
            },
        }
    }

    /// Removes every entry unconditionally.
    pub fn clear(&mut self)
        ensures
            final(self).model() == model_clear(old(self).model()),
            final(self).bounds() == old(self).bounds(),
    {
        store_clear(&mut self.cache);
    }

    /// Stores the given records under `query` and returns the lookup built
    /// over them. The entry's TTL is the smallest per-record TTL, capped by
    /// the configured ceiling and floored by the configured floor.
    pub fn insert(&mut self, query: Query, records_and_ttl: Vec<(Record, u32)>, now: u64) -> (r:
        Lookup)
        requires
            now + old(self).positive_min_ttl <= u64::MAX,
            now + old(self).positive_max_ttl <= u64::MAX,
        ensures
            final(self).bounds() == old(self).bounds(),
            ({
                let eff = positive_ttl(
                    old(self).positive_min_ttl,
                    old(self).positive_max_ttl,
                    pairs_ttls(records_and_ttl@),
                );
                r@ == (LookupV {
                    query: query@,
                    records: pairs_records(records_and_ttl@),
                    valid_until: (now + eff) as u64,
                }) && final(self).model() == model_insert(
                    old(self).model(),
                    query@,
                    LruValueV { lookup: Ok(r@), valid_until: (now + eff) as u64 },
                )
            }),
    {
        let ghost ttls = pairs_ttls(records_and_ttl@);
        let mut records: Vec<Record> = Vec::with_capacity(records_and_ttl.len());
        let mut ttl: u64 = self.positive_max_ttl;
        let mut i: usize = 0;
        while i < records_and_ttl.len()
            invariant
                i <= records_and_ttl.len(),
                records.len() == i,
                forall|j: int| 0 <= j < i ==> records@[j] == records_and_ttl@[j].0,
                ttl == min_ttl(self.positive_max_ttl, ttls.take(i as int)),
                ttls == pairs_ttls(records_and_ttl@),
                *self == *old(self),
            decreases records_and_ttl.len() - i,
        {
            let pair = &records_and_ttl[i];
            records.push(pair.0.clone());
            proof {
                assert(ttls.take(i + 1).drop_last() =~= ttls.take(i as int));
                assert(ttls.take(i + 1).last() == ttls[i as int]);
                assert(ttls[i as int] == records_and_ttl@[i as int].1);
            }
            if (pair.1 as u64) < ttl {
                ttl = pair.1 as u64;
            }
            i += 1;
        }
        proof {
            assert(ttls.take(records_and_ttl@.len() as int) =~= ttls);
            crate::model::lemma_min_ttl_le_cap(self.positive_max_ttl, ttls);
        }
        if self.positive_min_ttl > ttl {
            ttl = self.positive_min_ttl;
        }
        let valid_until = now + ttl;

        let lookup = Lookup::new_with_deadline(query.clone(), records, valid_until);
        let stored = LruValue { lookup: Ok(lookup.clone()), valid_until };
        store_insert(&mut self.cache, query, stored);
        proof {
            assert(lookup@.records =~= pairs_records(records_and_ttl@));
        }
        lookup
    }

    /// Stores an existing lookup under an additional key with its own
    /// deadline `now + ttl`; no clamping is applied. Returns the lookup
    /// unchanged.
    pub fn duplicate(&mut self, query: Query, lookup: Lookup, ttl: u32, now: u64) -> (r: Lookup)
        requires
            now + ttl <= u64::MAX,
        ensures
            r@ == lookup@,
            final(self).bounds() == old(self).bounds(),
            final(self).model() == model_insert(
                old(self).model(),
                query@,
                LruValueV { lookup: Ok(lookup@), valid_until: (now + ttl) as u64 },
            ),
    {
        let valid_until = now + (ttl as u64);
        let stored = LruValue { lookup: Ok(lookup.clone()), valid_until };
        store_insert(&mut self.cache, query, stored);
        lookup
    }

    /// Caches a negative outcome that carries a TTL, clamping that TTL into
    /// the configured negative bounds, and returns the outcome with its TTL
    /// field rewritten to the clamped value; an outcome without a TTL is
    /// returned unchanged and nothing is cached.
    pub fn negative(&mut self, query: Query, error: ProtoError, now: u64) -> (r: ProtoError)
        requires
            has_negative_ttl(error@) ==> old(self).negative_min_ttl <= old(
                self,
            ).negative_max_ttl && now + old(self).negative_max_ttl <= u64::MAX,
        ensures
            final(self).bounds() == old(self).bounds(),
            ({
                if has_negative_ttl(error@) {
                    let clamped = clamp_ttl(
                        spec_negative_ttl(error@) as u64,
                        old(self).negative_min_ttl,
                        old(self).negative_max_ttl,
                    );
                    r@ == nx_with_ttl(error@, saturated_ttl(clamped)) && final(self).model()
                        == model_insert(
                        old(self).model(),
                        query@,
                        LruValueV { lookup: Err(error@), valid_until: (now + clamped) as u64 },
                    )
                } else {
                    r@ == error@ && final(self).model() == old(self).model()
                }
            }),
    {
        let mut error = error;
        let ttl_opt: Option<u32> = match &error.kind {
            ProtoErrorKind::NoRecordsFound { negative_ttl: Some(t), .. } => Some(*t),
            _ => None,
        };
        if let Some(t) = ttl_opt {
            let t64 = t as u64;
            let clamped = if t64 < self.negative_min_ttl {
                self.negative_min_ttl
            } else if t64 > self.negative_max_ttl {
                self.negative_max_ttl
            } else {
                t64
            };
            let valid_until = now + clamped;
            let stored = LruValue { lookup: Err(error.clone()), valid_until };
            store_insert(&mut self.cache, query, stored);
            nx_error_with_ttl(&mut error, clamped);
        }
        error
    }

    /// Looks `query` up at time `now`. A present, current entry is returned
    /// re-derived to the time remaining and becomes the most recently used;
    /// a present but expired entry is evicted and nothing is returned; an
    /// absent key returns nothing and changes nothing.
    pub fn get(&mut self, query: &Query, now: u64) -> (r: Option<Result<Lookup, ProtoError>>)
        ensures
            final(self).bounds() == old(self).bounds(),
            ({
                let c = old(self).model();
                if !c.entries.contains_key(query@) {
                    r is None && final(self).model() == c
                } else {
                    let v = c.entries[query@];
                    if now <= v.valid_until {
                        final(self).model() == model_refresh(c, query@) && (r matches Some(out)
                            && outcome_view(out) == hit_outcome(v, now))
                    } else {
                        r is None && final(self).model() == model_remove(c, query@)
                    }
                }
            }),
    {
        let got = store_get_refresh(&mut self.cache, query);
        match got {
            Some(value) => {
                if value.is_current(now) {
                    let updated = value.with_updated_ttl(now);
                    let mut result = updated.lookup;
                    if let Err(err) = &mut result {
                        nx_error_with_ttl(err, value.ttl(now));
                    }
                    Some(result)
                } else {
                    store_remove(&mut self.cache, query);
                    proof {
                        crate::model::lemma_remove_after_refresh(
                            old(self).model().recency,
                            query@,
                        );
                    }
                    None
                }
            },
            None => None,
        }
    }

    /// Partitions freshly obtained records into sub-queries, caches each
    /// bucket as one positive entry, and returns the lookup for the bucket
    /// matching `original_query`, if any bucket does.
    pub fn insert_records(&mut self, original_query: Query, records: Vec<Record>, now: u64) -> (r:
        Option<Lookup>)
        requires
            now + old(self).positive_min_ttl <= u64::MAX,
            now + old(self).positive_max_ttl <= u64::MAX,
        ensures
            final(self).bounds() == old(self).bounds(),
            final(self).model() == insert_buckets(
                old(self).model(),
                old(self).positive_min_ttl,
                old(self).positive_max_ttl,
                partition_spec(original_query@, records_view(records@)),
                now,
            ),
            ({
                let rv = records_view(records@);
                if distinct_keys(sub_queries(original_query@, rv)).contains(original_query@) {
                    r matches Some(lk) && lk@ == positive_entry(
                        old(self).positive_min_ttl,
                        old(self).positive_max_ttl,
                        original_query@,
                        bucket_for(original_query@, rv, original_query@),
                        now,
                    ).lookup->Ok_0
                } else {
                    r is None
                }
            }),
    {
        let ghost rv = records_view(records@);
        let ghost orig = original_query@;
        let ghost bs = partition_spec(orig, rv);
        let ghost pmin = self.positive_min_ttl;
        let ghost pmax = self.positive_max_ttl;
        let ghost init = self.model();

        let mut buckets = partition_records(&original_query, records);
        let mut lookup: Option<Lookup> = None;
        let ghost mut done: int = 0;

        while buckets.len() > 0
            invariant
                0 <= done <= bs.len(),
                bs == partition_spec(orig, rv),
                orig == original_query@,
                pmin == old(self).positive_min_ttl,
                pmax == old(self).positive_max_ttl,
                init == old(self).model(),
                self.bounds() == old(self).bounds(),
                now + pmin <= u64::MAX,
                now + pmax <= u64::MAX,
                done == bs.len() - buckets@.len(),
                buckets_view(buckets@) == bs.subrange(done, bs.len() as int),
                self.model() == insert_buckets(init, pmin, pmax, bs.take(done), now),
                ({
                    if exists|l: int| 0 <= l < done && bs[l].0 == orig {
                        lookup matches Some(lk) && lk@ == positive_entry(
                            pmin,
                            pmax,
                            orig,
                            bucket_for(orig, rv, orig),
                            now,
                        ).lookup->Ok_0
                    } else {
                        lookup is None
                    }
                }),
            decreases buckets.len(),
        {
            let ghost pre = buckets@;
            let (query, records_and_ttl) = buckets.remove(0);
            proof {
                assert(buckets_view(pre)[0] == bs.subrange(done, bs.len() as int)[0]);
                assert(buckets_view(pre)[0] == (pre[0].0@, pairs_view(pre[0].1@)));
                assert(query@ == bs[done].0);
                assert(pairs_view(records_and_ttl@) == bs[done].1);
                assert forall|m: int| 0 <= m < buckets@.len() implies buckets_view(buckets@)[m]
                    == bs.subrange(done + 1, bs.len() as int)[m] by {
                    assert(buckets@[m] == pre[m + 1]);
                    assert(buckets_view(pre)[m + 1] == bs.subrange(done, bs.len() as int)[m + 1]);
                }
                assert(buckets_view(buckets@) =~= bs.subrange(done + 1, bs.len() as int));
            }
            let is_query = original_query == query;
            let inserted = self.insert(query, records_and_ttl, now);
            proof {
                let entry = positive_entry(pmin, pmax, bs[done].0, bs[done].1, now);
                let ttls_a = pairs_ttls(records_and_ttl@);
                let ttls_b = bs[done].1.map_values(|p: (RecordV, u32)| p.1);
                assert forall|m: int| 0 <= m < ttls_a.len() implies ttls_a[m] == ttls_b[m] by {
                    assert(pairs_view(records_and_ttl@)[m] == (records_and_ttl@[m].0@,
                    records_and_ttl@[m].1));
                }
                assert(ttls_a =~= ttls_b);
                let recs_a = pairs_records(records_and_ttl@);
                let recs_b = bs[done].1.map_values(|p: (RecordV, u32)| p.0);
                assert forall|m: int| 0 <= m < recs_a.len() implies recs_a[m] == recs_b[m] by {
                    assert(pairs_view(records_and_ttl@)[m] == (records_and_ttl@[m].0@,
                    records_and_ttl@[m].1));
                }
                assert(recs_a =~= recs_b);
                assert(inserted@ == entry.lookup->Ok_0);
                assert(bs.take(done + 1).drop_last() =~= bs.take(done));
                assert(bs.take(done + 1).last() == bs[done]);
                assert(self.model() == insert_buckets(init, pmin, pmax, bs.take(done + 1), now));
                assert(partition_spec(orig, rv)[done] == (distinct_keys(sub_queries(orig, rv))[done],
                bucket_for(orig, rv, distinct_keys(sub_queries(orig, rv))[done])));
            }
            if is_query {
                lookup = Some(inserted);
                proof {
                    assert(bs[done].0 == orig);
                    assert(bs[done].1 == bucket_for(orig, rv, orig));
                }
            }
            proof {
                done = done + 1;
            }
        }
        proof {
            assert(bs.take(done) =~= bs);
            let dk = distinct_keys(sub_queries(orig, rv));
            assert forall|l: int| 0 <= l < bs.len() implies bs[l].0 == dk[l] by {
                assert(partition_spec(orig, rv)[l] == (dk[l], bucket_for(orig, rv, dk[l])));
            }
            if dk.contains(orig) {
                let l = choose|l: int| 0 <= l < dk.len() && dk[l] == orig;
                assert(bs[l].0 == orig);
            }
            if exists|l: int| 0 <= l < done && bs[l].0 == orig {
                let l = choose|l: int| 0 <= l < done && bs[l].0 == orig;
                assert(dk[l] == orig);
                assert(dk.contains(orig));
            }
        }
        lookup
    }
}

} // verus!
