//! The provider-independent record model of the rewrite-reconciling tool.

use vstd::prelude::*;

verus! {

/// The record types a rewrite can carry.
#[derive(Debug, Clone, Copy, PartialEq, Eq, Hash, Structural)]
pub enum DNSRecordType {
    A,
    AAAA,
    CNAME,
}

/// One rewrite record: a name pointing at an address or target value.
#[derive(Debug, Clone, PartialEq, Eq, Hash)]
pub struct DNSRecord {
    pub record_type: DNSRecordType,
    pub name: String,
    pub value: String,
    /// Time-to-live in seconds, where the provider reports one.
    pub ttl: Option<u32>,
}

} // verus!
