//! Resolver configuration consumed by the cache.

use vstd::prelude::*;

verus! {

/// The resolver options the cache reads: four optional TTL bounds, each a
/// number of seconds.
#[derive(Clone, Copy, Debug)]
pub struct ResolverOpts {
    pub positive_min_ttl: Option<u64>,
    pub negative_min_ttl: Option<u64>,
    pub positive_max_ttl: Option<u64>,
    pub negative_max_ttl: Option<u64>,
}

impl Default for ResolverOpts {
    fn default() -> (r: Self)
        ensures
            r.positive_min_ttl.is_none(),
            r.negative_min_ttl.is_none(),
            r.positive_max_ttl.is_none(),
            r.negative_max_ttl.is_none(),
    {
        ResolverOpts {
            positive_min_ttl: None,
            negative_min_ttl: None,
            positive_max_ttl: None,
            negative_max_ttl: None,
        }
    }
}

} // verus!
