//! The backing store: an LRU-evicting map from an outside crate, held
//! behind a small trusted boundary.
//!
//! Everything the rest of the crate knows about the store is stated here,
//! over [`store_model`], and believed rather than proved; each wrapper's
//! contract records what the `lru-cache` crate's source shows.

use vstd::prelude::*;

use lru_cache::LruCache;

use crate::dns_lru::{LruValue, LruValueV};
use crate::model::{model_insert, model_refresh, model_remove, CacheModel};
use crate::rr::{Query, QueryKey};

verus! {

/// The LRU-evicting map holding the cache's entries; opaque to the
/// verifier.
#[verifier::external_body]
pub struct LruStore {
    inner: LruCache<Query, LruValue>,
}

/// The key-to-entry mapping held by the store.
pub uninterp spec fn store_entries(s: LruStore) -> Map<QueryKey, LruValueV>;

/// The store's keys in least- to most-recently-used order.
pub uninterp spec fn store_recency(s: LruStore) -> Seq<QueryKey>;

/// The capacity the store was created with.
pub uninterp spec fn store_capacity(s: LruStore) -> usize;

/// The store's whole abstract state.
pub open spec fn store_model(s: LruStore) -> CacheModel {
    CacheModel {
        entries: store_entries(s),
        recency: store_recency(s),
        capacity: store_capacity(s),
    }
}

/// Relies on `lru_cache::LruCache::new`: an empty cache that holds at most
/// `capacity` entries.
#[verifier::external_body]
pub(crate) fn store_new(capacity: usize) -> (s: LruStore)
    ensures
        store_model(s) == crate::model::empty_model(capacity),
        store_recency(s) == Seq::<QueryKey>::empty(),
        store_capacity(s) == capacity,
{
    LruStore { inner: LruCache::new(capacity) }
}

/// Relies on `lru_cache::LruCache::insert`: binds the key to the value,
/// makes it the most recently used, and, when a new key overflows the
/// capacity, removes the least recently used entry.
#[verifier::external_body]
pub(crate) fn store_insert(s: &mut LruStore, k: Query, v: LruValue)
    ensures
        store_model(*final(s)) == model_insert(store_model(*old(s)), k@, v@),
{
    s.inner.insert(k, v);
}

/// Relies on `lru_cache::LruCache::get_mut`: returns the key's entry, if
/// any, making the key the most recently used; the mapping itself is
/// unchanged either way.
#[verifier::external_body]
pub(crate) fn store_get_refresh(s: &mut LruStore, k: &Query) -> (r: Option<LruValue>)
    ensures
        match r {
            Some(v) => store_entries(*old(s)).contains_key(k@) && v@ == store_entries(*old(s))[k@]
                && store_model(*final(s)) == model_refresh(store_model(*old(s)), k@),
            None => !store_entries(*old(s)).contains_key(k@) && store_model(*final(s))
                == store_model(*old(s)),
        },
{
    s.inner.get_mut(k).map(
        |v| LruValue {
            lookup: match &v.lookup {
                Ok(l) => Ok(l.clone()),
                Err(e) => Err(e.clone()),
            },
            valid_until: v.valid_until,
        },
    )
}

/// Relies on `lru_cache::LruCache::remove`: drops the key's entry if one is
/// present.
#[verifier::external_body]
pub(crate) fn store_remove(s: &mut LruStore, k: &Query)
    ensures
        store_model(*final(s)) == model_remove(store_model(*old(s)), k@),
{
    s.inner.remove(k);
}

/// Relies on `lru_cache::LruCache::clear`: removes every entry, keeping the
/// capacity.
#[verifier::external_body]
pub(crate) fn store_clear(s: &mut LruStore)
    ensures
        store_model(*final(s)) == crate::model::model_clear(store_model(*old(s))),
{
    s.inner.clear();
}

} // verus!
