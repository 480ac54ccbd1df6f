//! A deadline-stamped sequence of records answering one query.

use vstd::prelude::*;

use crate::rr::{Query, QueryKey, Record, RecordV};

verus! {

/// The records that answer one query, stamped with the absolute time until
/// which they are valid.
#[derive(Debug)]
pub struct Lookup {
    pub query: Query,
    pub records: Vec<Record>,
    pub valid_until: u64,
}

/// The mathematical value of a [`Lookup`].
#[verifier::ext_equal]
pub struct LookupV {
    pub query: QueryKey,
    pub records: Seq<RecordV>,
    pub valid_until: u64,
}

impl View for Lookup {
    type V = LookupV;

    open spec fn view(&self) -> LookupV {
        LookupV {
            query: self.query@,
            records: self.records@.map_values(|r: Record| r@),
            valid_until: self.valid_until,
        }
    }
}

impl Clone for Lookup {
    fn clone(&self) -> (r: Self)
        ensures
            r@ == self@,
    {
        let mut records: Vec<Record> = Vec::new();
        let mut i: usize = 0;
        while i < self.records.len()
            invariant
                i <= self.records.len(),
                records@ == self.records@.take(i as int),
            decreases self.records.len() - i,
        {
            records.push(self.records[i].clone());
            proof {
                assert(records@ =~= self.records@.take(i + 1));
            }
            i += 1;
        }
        proof {
            assert(records@ =~= self.records@);
        }
        Lookup { query: self.query.clone(), records, valid_until: self.valid_until }
    }
}

impl Lookup {
    /// Builds a lookup over the given records, valid until the given time.
    pub fn new_with_deadline(query: Query, records: Vec<Record>, valid_until: u64) -> (r: Self)
        ensures
            r == (Lookup { query, records, valid_until }),
    {
        Lookup { query, records, valid_until }
    }

    pub fn query(&self) -> (q: &Query)
        ensures
            q == &self.query,
    {
        &self.query
    }

    pub fn records(&self) -> (r: &Vec<Record>)
        ensures
            r == &self.records,
    {
        &self.records
    }

    pub fn valid_until(&self) -> (t: u64)
        ensures
            t == self.valid_until,
    {
        self.valid_until
    }

    pub fn is_empty(&self) -> (r: bool)
        ensures
            r == (self@.records.len() == 0),
    {
        self.records.len() == 0
    }
}

} // verus!
