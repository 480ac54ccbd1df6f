//! Resource records and queries: the values the cache stores and the keys it
//! stores them under.

use vstd::prelude::*;

verus! {

/// The DNS class of ordinary Internet records.
pub const CLASS_IN: u16 = 1;

/// A DNS record type.
#[derive(Clone, Copy, Debug, Hash, PartialEq, Eq, Structural)]
pub enum RecordType {
    A,
    Aaaa,
    Cname,
    Ns,
    Rrsig,
    Soa,
    Txt,
    Unknown(u16),
}

/// An IPv4 address carried by an `A` record.
#[derive(Clone, Copy, Debug, Hash, PartialEq, Eq, Structural)]
pub struct A {
    pub a: u8,
    pub b: u8,
    pub c: u8,
    pub d: u8,
}

impl A {
    pub fn new(a: u8, b: u8, c: u8, d: u8) -> (r: Self)
        ensures
            r == (A { a, b, c, d }),
    {
        A { a, b, c, d }
    }
}

/// The data of a signature record: the record type whose records it covers.
#[derive(Clone, Copy, Debug, Hash, PartialEq, Eq, Structural)]
pub struct Rrsig {
    pub type_covered: RecordType,
}

/// The typed data carried by a resource record.
#[derive(Debug, Hash, PartialEq, Eq)]
pub enum RData {
    A(A),
    Cname(String),
    Ns(String),
    Rrsig(Rrsig),
    Unknown(u16),
}

/// The mathematical value of an [`RData`].
#[verifier::ext_equal]
pub enum RDataV {
    A(A),
    Cname(Seq<char>),
    Ns(Seq<char>),
    Rrsig(Rrsig),
    Unknown(u16),
}

impl View for RData {
    type V = RDataV;

    open spec fn view(&self) -> RDataV {
        match self {
            RData::A(a) => RDataV::A(*a),
            RData::Cname(n) => RDataV::Cname(n@),
            RData::Ns(n) => RDataV::Ns(n@),
            RData::Rrsig(s) => RDataV::Rrsig(*s),
            RData::Unknown(c) => RDataV::Unknown(*c),
        }
    }
}

/// The record type that a piece of record data belongs to.
pub open spec fn rdata_type(d: RDataV) -> RecordType {
    match d {
        RDataV::A(_) => RecordType::A,
        RDataV::Cname(_) => RecordType::Cname,
        RDataV::Ns(_) => RecordType::Ns,
        RDataV::Rrsig(_) => RecordType::Rrsig,
        RDataV::Unknown(c) => RecordType::Unknown(c),
    }
}

impl RData {
    pub fn record_type(&self) -> (t: RecordType)
        ensures
            t == rdata_type(self@),
    {
        match self {
            RData::A(_) => RecordType::A,
            RData::Cname(_) => RecordType::Cname,
            RData::Ns(_) => RecordType::Ns,
            RData::Rrsig(_) => RecordType::Rrsig,
            RData::Unknown(c) => RecordType::Unknown(*c),
        }
    }
}

/// One DNS resource record: owner name, type, class, time to live, and data.
#[derive(Debug)]
pub struct Record {
    pub name: String,
    pub rr_type: RecordType,
    pub dns_class: u16,
    pub ttl: u32,
    pub rdata: RData,
}

/// The mathematical value of a [`Record`].
#[verifier::ext_equal]
pub struct RecordV {
    pub name: Seq<char>,
    pub rr_type: RecordType,
    pub dns_class: u16,
    pub ttl: u32,
    pub rdata: RDataV,
}

impl View for Record {
    type V = RecordV;

    open spec fn view(&self) -> RecordV {
        RecordV {
            name: self.name@,
            rr_type: self.rr_type,
            dns_class: self.dns_class,
            ttl: self.ttl,
            rdata: self.rdata@,
        }
    }
}

impl Clone for RData {
    fn clone(&self) -> (r: Self)
        ensures
            r == *self,
    {
        match self {
            RData::A(a) => RData::A(*a),
            RData::Cname(n) => RData::Cname(n.clone()),
            RData::Ns(n) => RData::Ns(n.clone()),
            RData::Rrsig(s) => RData::Rrsig(*s),
            RData::Unknown(c) => RData::Unknown(*c),
        }
    }
}

impl Clone for Record {
    fn clone(&self) -> (r: Self)
        ensures
            r == *self,
    {
        Record {
            name: self.name.clone(),
            rr_type: self.rr_type,
            dns_class: self.dns_class,
            ttl: self.ttl,
            rdata: self.rdata.clone(),
        }
    }
}

impl Record {
    /// Builds a record in the `IN` class whose type is taken from its data.
    pub fn from_rdata(name: String, ttl: u32, rdata: RData) -> (r: Self)
        ensures
            r@ == (RecordV {
                name: name@,
                rr_type: rdata_type(rdata@),
                dns_class: CLASS_IN,
                ttl,
                rdata: rdata@,
            }),
    {
        let rr_type = rdata.record_type();
        Record { name, rr_type, dns_class: CLASS_IN, ttl, rdata }
    }

    pub fn ttl(&self) -> (t: u32)
        ensures
            t == self.ttl,
    {
        self.ttl
    }

    /// Rewrites the record's time to live, leaving everything else unchanged.
    pub fn set_ttl(&mut self, ttl: u32)
        ensures
            *final(self) == (Record { ttl, ..*old(self) }),
    {
        self.ttl = ttl;
    }

    pub fn data(&self) -> (d: &RData)
        ensures
            d == &self.rdata,
    {
        &self.rdata
    }
}

/// The key a cache entry is stored under: owner name, record type and class.
///
/// `Hash` is derived over the same three fields that the hand-written
/// equality below compares, so the two agree, as the backing hash map
/// requires.
#[derive(Debug, Hash, Eq)]
pub struct Query {
    pub name: String,
    pub query_type: RecordType,
    pub query_class: u16,
}

/// The mathematical value of a [`Query`].
#[verifier::ext_equal]
pub struct QueryKey {
    pub name: Seq<char>,
    pub query_type: RecordType,
    pub query_class: u16,
}

impl View for Query {
    type V = QueryKey;

    open spec fn view(&self) -> QueryKey {
        QueryKey { name: self.name@, query_type: self.query_type, query_class: self.query_class }
    }
}

impl Clone for Query {
    fn clone(&self) -> (r: Self)
        ensures
            r == *self,
    {
        Query {
            name: self.name.clone(),
            query_type: self.query_type,
            query_class: self.query_class,
        }
    }
}

impl PartialEq for Query {
    fn eq(&self, other: &Self) -> (r: bool)
    {
        self.name == other.name && self.query_type == other.query_type && self.query_class
            == other.query_class
    }
}

impl vstd::std_specs::cmp::PartialEqSpecImpl for Query {
    open spec fn obeys_eq_spec() -> bool {
        true
    }

    open spec fn eq_spec(&self, other: &Self) -> bool {
        self@ == other@
    }
}

impl Query {
    /// Builds a query in the `IN` class.
    pub fn query(name: String, query_type: RecordType) -> (q: Self)
        ensures
            q@ == (QueryKey { name: name@, query_type, query_class: CLASS_IN }),
    {
        Query { name, query_type, query_class: CLASS_IN }
    }

    pub fn set_query_class(&mut self, query_class: u16)
        ensures
            *final(self) == (Query { query_class, ..*old(self) }),
    {
        self.query_class = query_class;
    }

    pub fn query_type(&self) -> (t: RecordType)
        ensures
            t == self.query_type,
    {
        self.query_type
    }
}

} // verus!
