//! The wire-facing record shapes of the managed-DNS provider, and their
//! conversion to and from the provider-independent model.
//!
//! Serialization happens outside the library, on mirror types carrying the
//! derives; here the values are plain.

use vstd::prelude::*;

use crate::model::record::{DNSRecord, DNSRecordType};
use crate::strutil::str_eq;

verus! {

/// Where the provider is reached: its API base and the profile to mutate.
pub struct NextDNSConfig {
    pub profile_id: String,
    pub api_url: String,
}

/// The provider's login request body.
pub struct LoginRequest {
    pub email: String,
    pub password: String,
}

/// One rewrite as the provider reports it.
#[derive(Debug, Clone)]
pub struct NextDNSRecord {
    pub id: String,
    pub domain: String,
    /// The record type as text: `A`, `AAAA` or `CNAME`.
    pub record_type: String,
    pub value: String,
    pub ttl: Option<u32>,
}

/// The request body creating one rewrite.
pub struct CreateRecordRequest {
    pub domain: String,
    pub record_type: String,
    pub value: String,
    pub ttl: Option<u32>,
}

/// The provider's error body.
#[derive(Debug)]
pub struct NextDNSError {
    pub code: String,
    pub message: String,
}

/// The model type a textual record type names; anything unknown falls back
/// to an address record.
pub open spec fn record_type_of_text(t: Seq<char>) -> DNSRecordType {
    if t == "AAAA"@ {
        DNSRecordType::AAAA
    } else if t == "CNAME"@ {
        DNSRecordType::CNAME
    } else {
        DNSRecordType::A
    }
}

/// The text a model record type maps to.
pub open spec fn text_of_record_type(t: DNSRecordType) -> Seq<char> {
    match t {
        DNSRecordType::A => "A"@,
        DNSRecordType::AAAA => "AAAA"@,
        DNSRecordType::CNAME => "CNAME"@,
    }
}

/// Convert a provider record to the model; an unknown type text falls back
/// to an address record.
pub fn to_dns_record(nr: &NextDNSRecord) -> (r: DNSRecord)
    ensures
        r.record_type == record_type_of_text(nr.record_type@),
        r.name@ == nr.domain@,
        r.value@ == nr.value@,
        r.ttl == nr.ttl,
{
    let record_type = if str_eq(nr.record_type.as_str(), "AAAA") {
        DNSRecordType::AAAA
    } else if str_eq(nr.record_type.as_str(), "CNAME") {
        DNSRecordType::CNAME
    } else {
        DNSRecordType::A
    };
    DNSRecord { record_type, name: nr.domain.clone(), value: nr.value.clone(), ttl: nr.ttl }
}

/// Convert a model record to a creation request for the provider.
pub fn to_nextdns_record(rec: &DNSRecord) -> (r: CreateRecordRequest)
    ensures
        r.domain@ == rec.name@,
        r.record_type@ == text_of_record_type(rec.record_type),
        r.value@ == rec.value@,
        r.ttl == rec.ttl,
{
    let record_type = match rec.record_type {
        DNSRecordType::A => String::from_str("A"),
        DNSRecordType::AAAA => String::from_str("AAAA"),
        DNSRecordType::CNAME => String::from_str("CNAME"),
    };
    CreateRecordRequest {
        domain: rec.name.clone(),
        record_type,
        value: rec.value.clone(),
        ttl: rec.ttl,
    }
}

} // verus!
