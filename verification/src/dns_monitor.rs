//! The reconciler: sole owner of the tracked-hostname set and the cached
//! current address, consumer of the event bus, and planner of the DNS writes
//! that converge server state.
//!
//! Every decision is a function from plain values to plain values. The event
//! loop outside the library performs the planned lookups and writes and feeds
//! their outcomes back in.

use vstd::prelude::*;
use vstd::string::StrSliceExecFns;

use crate::config::Config;
use crate::dns_client::{normalize_spec, res_chars, DnsZone};
use crate::error::DnsError;
use crate::registry::{registry_name_spec, sentinel, Registry};
use crate::strutil::str_eq;
use crate::DnsUpdate;

verus! {

/// One DNS write the reconciler asks for, in the order planned.
#[derive(Debug, Clone)]
pub enum DnsWrite {
    /// Create the ownership marker: a TXT record holding the sentinel.
    CreateMarker { name: String, value: String },
    /// Create a fresh address record.
    CreateAddress { name: String, ip: String },
    /// Replace an existing address record's value in one compare-and-swap
    /// transaction: remove exactly the old record, add the replacement.
    ReplaceAddress { name: String, old_ip: String, new_ip: String },
}

/// What the per-host lookups observed before convergence is planned.
#[derive(Debug, Clone)]
pub enum HostObservation {
    /// No address record exists for the hostname.
    NoAddress,
    /// An address record exists, with the marker value found beside it, if
    /// any.
    Address { ip: String, marker: Option<String> },
}

pub open spec fn is_create_marker(w: DnsWrite, name: Seq<char>, value: Seq<char>) -> bool {
    w matches DnsWrite::CreateMarker { name: n, value: v } && n@ == name && v@ == value
}

pub open spec fn is_create_address(w: DnsWrite, name: Seq<char>, ip: Seq<char>) -> bool {
    w matches DnsWrite::CreateAddress { name: n, ip: i } && n@ == name && i@ == ip
}

pub open spec fn is_replace_address(
    w: DnsWrite,
    name: Seq<char>,
    old_ip: Seq<char>,
    new_ip: Seq<char>,
) -> bool {
    w matches DnsWrite::ReplaceAddress { name: n, old_ip: o, new_ip: i } && n@ == name && o@
        == old_ip && i@ == new_ip
}

/// Plan the writes that converge one hostname onto `ip`.
///
/// With no existing address record, the plan claims ownership first and
/// creates the address record second — the marker write precedes the
/// address write, so no window exists where an address record has no owner.
/// With an existing record, the plan touches it only when the marker proves
/// ownership; otherwise it is an `OwnershipConflict` and nothing is written.
pub fn converge_host(hostname: &str, obs: &HostObservation, ip: &str) -> (r: Result<
    Vec<DnsWrite>,
    DnsError,
>)
    ensures
        match obs {
            HostObservation::NoAddress => {
                &&& r is Ok
                &&& r->Ok_0@.len() == 2
                &&& is_create_marker(r->Ok_0@[0], registry_name_spec(hostname@), sentinel())
                &&& is_create_address(r->Ok_0@[1], hostname@, ip@)
            },
            HostObservation::Address { ip: old_ip, marker } => {
                if marker matches Some(m) && m@ == sentinel() {
                    &&& r is Ok
                    &&& r->Ok_0@.len() == 1
                    &&& is_replace_address(r->Ok_0@[0], hostname@, old_ip@, ip@)
                } else {
                    r == Err::<Vec<DnsWrite>, DnsError>(DnsError::OwnershipConflict)
                }
            },
        },
{
    let registry = Registry::new(hostname);
    match obs {
        HostObservation::NoAddress => {
            let writes = vec![
                DnsWrite::CreateMarker { name: registry.registry_hostname, value: registry.txt },
                DnsWrite::CreateAddress { name: hostname.to_owned(), ip: ip.to_owned() },
            ];
            Ok(writes)
        },
        HostObservation::Address { ip: old_ip, marker } => {
            if registry.host_in_registry(marker) {
                let writes = vec![
                    DnsWrite::ReplaceAddress {
                        name: hostname.to_owned(),
                        old_ip: old_ip.clone(),
                        new_ip: ip.to_owned(),
                    },
                ];
                Ok(writes)
            } else {
                Err(DnsError::OwnershipConflict)
            }
        },
    }
}

/// Does the tracked set hold an entry for this raw hostname?
pub open spec fn has_host(hosts: Seq<(String, String)>, raw: Seq<char>) -> bool {
    exists|i: int| 0 <= i < hosts.len() && #[trigger] hosts[i].0@ == raw
}

/// The reconciler's state: the zone it serves, the raw-to-normalized
/// hostname cache, and the last address an `IP` event carried.
pub struct DnsMonitor {
    pub zone: DnsZone,
    /// Tracked hostnames: raw input mapped to its normalized form; keys are
    /// unique and the set only grows.
    pub hosts: Vec<(String, String)>,
    /// Last known public address; empty until the first `IP` event.
    pub current_ip: String,
}

impl DnsMonitor {
    /// Well-formedness: the zone is valid and every cached entry is exactly
    /// the normalization of its key.
    pub open spec fn wf(&self) -> bool {
        &&& self.zone.wf()
        &&& forall|i: int, j: int|
            0 <= i < j < self.hosts@.len() ==> self.hosts@[i].0@ != self.hosts@[j].0@
        &&& forall|i: int|
            0 <= i < self.hosts@.len() ==> normalize_spec(
                #[trigger] self.hosts@[i].0@,
                self.zone.zone@,
            ) == Ok::<Seq<char>, DnsError>(self.hosts@[i].1@)
    }

    /// Build the reconciler from the loaded settings. Only `hmac-sha256` is
    /// accepted as the key algorithm, and the zone must be a valid name.
    pub fn new(config: &Config) -> (r: Result<DnsMonitor, DnsError>)
        ensures
            match r {
                Ok(m) => {
                    &&& config.key_alg@ == "hmac-sha256"@
                    &&& crate::dns_client::valid_hostname(config.dns_zone@)
                    &&& m.wf()
                    &&& m.zone.zone@ == crate::strutil::lower(
                        crate::dns_client::strip_root(config.dns_zone@),
                    )
                    &&& m.zone.ttl == config.ttl
                    &&& m.hosts@.len() == 0
                    &&& m.current_ip@.len() == 0
                },
                Err(e) => {
                    ||| (e == DnsError::UnsupportedAlgorithm && config.key_alg@
                        != "hmac-sha256"@)
                    ||| (e == DnsError::InvalidZone && config.key_alg@ == "hmac-sha256"@
                        && !crate::dns_client::valid_hostname(config.dns_zone@))
                },
            },
    {
        if !str_eq(config.key_alg.as_str(), "hmac-sha256") {
            return Err(DnsError::UnsupportedAlgorithm);
        }
        let zone = DnsZone::new(config.dns_zone.as_str(), config.ttl)?;
        Ok(DnsMonitor { zone, hosts: Vec::new(), current_ip: String::new() })
    }

    /// The last address an `IP` event carried.
    pub fn current_ip(&self) -> (r: &String)
        ensures
            r == self.current_ip,
    {
        &self.current_ip
    }

    /// Process one event from the bus and say which normalized hostnames to
    /// converge next, using the current cached address.
    ///
    /// A `Host` event normalizes the raw hostname, caches the mapping (a
    /// re-discovery is a lookup, not a duplicate), and names that one host.
    /// An `IP` event replaces the cached address and names a snapshot of
    /// every tracked host.
    #[verifier::loop_isolation(false)]
    pub fn handle_event(&mut self, ev: &DnsUpdate) -> (r: Result<Vec<String>, DnsError>)
        requires
            old(self).wf(),
        ensures
            final(self).wf(),
            final(self).zone == old(self).zone,
            match ev {
                DnsUpdate::Host(raw) => {
                    &&& final(self).current_ip == old(self).current_ip
                    &&& match normalize_spec(raw@, old(self).zone.zone@) {
                        Ok(n) => {
                            &&& r is Ok
                            &&& r->Ok_0@.len() == 1
                            &&& r->Ok_0@[0]@ == n
                            &&& if has_host(old(self).hosts@, raw@) {
                                final(self).hosts@ == old(self).hosts@
                            } else {
                                &&& final(self).hosts@.len() == old(self).hosts@.len() + 1
                                &&& (forall|i: int|
                                    0 <= i < old(self).hosts@.len() ==> final(self).hosts@[i]
                                        == old(self).hosts@[i])
                                &&& final(self).hosts@.last().0@ == raw@
                                &&& final(self).hosts@.last().1@ == n
                            }
                        },
                        Err(e) => {
                            &&& r == Err::<Vec<String>, DnsError>(e)
                            &&& final(self).hosts@ == old(self).hosts@
                        },
                    }
                },
                DnsUpdate::IP(ip) => {
                    &&& final(self).current_ip@ == ip@
                    &&& final(self).hosts@ == old(self).hosts@
                    &&& r is Ok
                    &&& r->Ok_0@.len() == old(self).hosts@.len()
                    &&& (forall|i: int|
                        0 <= i < old(self).hosts@.len() ==> #[trigger] r->Ok_0@[i]@ == old(
                            self,
                        ).hosts@[i].1@)
                },
            },
    {
        match ev {
            DnsUpdate::Host(raw) => {
                let mut i: usize = 0;
                while i < self.hosts.len()
                    invariant
                        i <= self.hosts@.len(),
                        self == old(self),
                        old(self).wf(),
                        forall|j: int| 0 <= j < i ==> #[trigger] self.hosts@[j].0@ != raw@,
                    decreases self.hosts@.len() - i,
                {
                    if str_eq(self.hosts[i].0.as_str(), raw.as_str()) {
                        let n = self.hosts[i].1.clone();
                        proof {
                            assert(self.hosts@[i as int].0@ == raw@);
                            assert(normalize_spec(raw@, old(self).zone.zone@) == Ok::<
                                Seq<char>,
                                DnsError,
                            >(self.hosts@[i as int].1@));
                            assert(has_host(old(self).hosts@, raw@));
                        }
                        let mut one: Vec<String> = Vec::new();
                        one.push(n);
                        return Ok(one);
                    }
                    i += 1;
                }
                match self.zone.normalize_hostname(raw.as_str()) {
                    Ok(n) => {
                        self.hosts.push((raw.clone(), n.clone()));
                        let mut one: Vec<String> = Vec::new();
                        one.push(n);
                        Ok(one)
                    },
                    Err(e) => Err(e),
                }
            },
            DnsUpdate::IP(ip) => {
                self.current_ip = ip.clone();
                let mut out: Vec<String> = Vec::new();
                let mut i: usize = 0;
                while i < self.hosts.len()
                    invariant
                        i <= self.hosts@.len(),
                        self.hosts@ == old(self).hosts@,
                        self.zone == old(self).zone,
                        out@.len() == i,
                        forall|j: int| 0 <= j < i ==> #[trigger] out@[j]@ == self.hosts@[j].1@,
                    decreases self.hosts@.len() - i,
                {
                    out.push(self.hosts[i].1.clone());
                    i += 1;
                }
                Ok(out)
            },
        }
    }
}

} // verus!
