//! Negative resolution outcomes: the error values the cache stores and
//! rewrites.

use vstd::prelude::*;

use crate::rr::{Query, QueryKey};

verus! {

/// The response code reported alongside a negative answer.
#[derive(Clone, Copy, Debug, PartialEq, Eq, Structural)]
pub enum ResponseCode {
    NoError,
    NxDomain,
    ServFail,
    Unknown(u16),
}

/// What went wrong, or what was authoritatively absent.
///
/// `NoRecordsFound` is cacheable data, not a failure: it reports that the
/// queried name and type have no records, for `negative_ttl` seconds.
#[derive(Debug)]
pub enum ProtoErrorKind {
    Message(String),
    NoRecordsFound {
        query: Query,
        negative_ttl: Option<u32>,
        response_code: ResponseCode,
        trusted: bool,
    },
}

/// The mathematical value of a [`ProtoErrorKind`].
#[verifier::ext_equal]
pub enum ProtoErrorKindV {
    Message(Seq<char>),
    NoRecordsFound {
        query: QueryKey,
        negative_ttl: Option<u32>,
        response_code: ResponseCode,
        trusted: bool,
    },
}

impl View for ProtoErrorKind {
    type V = ProtoErrorKindV;

    open spec fn view(&self) -> ProtoErrorKindV {
        match self {
            ProtoErrorKind::Message(m) => ProtoErrorKindV::Message(m@),
            ProtoErrorKind::NoRecordsFound { query, negative_ttl, response_code, trusted } => {
                ProtoErrorKindV::NoRecordsFound {
                    query: query@,
                    negative_ttl: *negative_ttl,
                    response_code: *response_code,
                    trusted: *trusted,
                }
            },
        }
    }
}

impl Clone for ProtoErrorKind {
    fn clone(&self) -> (r: Self)
        ensures
            r == *self,
    {
        match self {
            ProtoErrorKind::Message(m) => ProtoErrorKind::Message(m.clone()),
            ProtoErrorKind::NoRecordsFound { query, negative_ttl, response_code, trusted } => {
                ProtoErrorKind::NoRecordsFound {
                    query: query.clone(),
                    negative_ttl: *negative_ttl,
                    response_code: *response_code,
                    trusted: *trusted,
                }
            },
        }
    }
}

/// A negative resolution outcome.
#[derive(Debug)]
pub struct ProtoError {
    pub kind: ProtoErrorKind,
}

/// The mathematical value of a [`ProtoError`].
#[verifier::ext_equal]
pub struct ProtoErrorV {
    pub kind: ProtoErrorKindV,
}

impl View for ProtoError {
    type V = ProtoErrorV;

    open spec fn view(&self) -> ProtoErrorV {
        ProtoErrorV { kind: self.kind@ }
    }
}

impl Clone for ProtoError {
    fn clone(&self) -> (r: Self)
        ensures
            r == *self,
    {
        ProtoError { kind: self.kind.clone() }
    }
}

impl ProtoError {
    pub fn new(kind: ProtoErrorKind) -> (r: Self)
        ensures
            r == (ProtoError { kind }),
    {
        ProtoError { kind }
    }

    pub fn kind(&self) -> (k: &ProtoErrorKind)
        ensures
            k == &self.kind,
    {
        &self.kind
    }
}

/// True when the outcome is a negative answer that carries a time to live.
pub open spec fn has_negative_ttl(e: ProtoErrorV) -> bool {
    e.kind matches ProtoErrorKindV::NoRecordsFound { negative_ttl: Some(_), .. }
}

/// The time to live carried by a negative answer.
pub open spec fn spec_negative_ttl(e: ProtoErrorV) -> u32
    recommends
        has_negative_ttl(e),
{
    match e.kind {
        ProtoErrorKindV::NoRecordsFound { negative_ttl: Some(t), .. } => t,
        _ => 0,
    }
}

/// The same outcome with its `negative_ttl` field rewritten to `t`; an
/// outcome of any other kind is left unchanged.
pub open spec fn nx_with_ttl(e: ProtoErrorV, t: u32) -> ProtoErrorV {
    match e.kind {
        ProtoErrorKindV::NoRecordsFound { query, negative_ttl: _, response_code, trusted } => {
            ProtoErrorV {
                kind: ProtoErrorKindV::NoRecordsFound {
                    query,
                    negative_ttl: Some(t),
                    response_code,
                    trusted,
                },
            }
        },
        _ => e,
    }
}

} // verus!
