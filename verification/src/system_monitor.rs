//! The address poller: on a fixed interval it resolves one well-known lookup
//! hostname and reports a change event only when the answer differs from the
//! last remembered address.
//!
//! The sleeping loop runs outside the library and calls `check_host_ip` once
//! per tick.

use vstd::prelude::*;

use crate::dns_client::{DnsFetchTrait, RecordType};
use crate::DnsUpdate;

verus! {

/// What one tick does: the remembered address afterwards, and the address to
/// report, if any. A failed resolution changes nothing; an unchanged answer
/// is absorbed; only a transition is reported.
pub open spec fn tick_spec(prev: Seq<char>, resolved: Option<Seq<char>>) -> (Seq<char>, Option<
    Seq<char>,
>) {
    match resolved {
        None => (prev, None),
        Some(ip) => {
            if ip == prev {
                (prev, None)
            } else {
                (ip, Some(ip))
            }
        },
    }
}

/// Two consecutive ticks resolving the same address emit at most one event:
/// whatever the starting state, the second tick emits nothing. A tick
/// resolving an address different from the remembered one emits exactly that
/// address, and an unchanged one emits nothing.
pub proof fn lemma_poller_dedup(prev: Seq<char>, ip: Seq<char>)
    ensures
        tick_spec(tick_spec(prev, Some(ip)).0, Some(ip)).1 is None,
        ip != prev ==> tick_spec(prev, Some(ip)) == (ip, Some(ip)),
        ip == prev ==> tick_spec(prev, Some(ip)) == (prev, None::<Seq<char>>),
{
}

/// The view of an optional resolved address.
pub open spec fn opt_chars(o: Option<String>) -> Option<Seq<char>> {
    match o {
        Some(s) => Some(s@),
        None => None,
    }
}

/// The poller's state: its fetch source, the lookup hostname, the poll
/// interval, and the address it last reported.
pub struct SystemMonitor<D: DnsFetchTrait> {
    pub dns: D,
    pub hostname: String,
    /// Seconds between two ticks.
    pub check_interval_secs: u64,
    /// The last reported address; empty until the first report.
    pub current_ip: String,
}

impl<D: DnsFetchTrait> SystemMonitor<D> {
    pub fn new(dns: D, hostname: String, check_interval_secs: u64) -> (r: Self)
        ensures
            r.dns == dns,
            r.hostname == hostname,
            r.check_interval_secs == check_interval_secs,
            r.current_ip@ == Seq::<char>::empty(),
    {
        SystemMonitor { dns, hostname, check_interval_secs, current_ip: String::new() }
    }

    /// Absorb one resolution outcome, exactly as `tick_spec` describes.
    pub fn process_resolved(&mut self, resolved: Option<String>) -> (ev: Option<DnsUpdate>)
        ensures
            final(self).dns == old(self).dns,
            final(self).hostname == old(self).hostname,
            final(self).check_interval_secs == old(self).check_interval_secs,
            final(self).current_ip@ == tick_spec(old(self).current_ip@, opt_chars(resolved)).0,
            match tick_spec(old(self).current_ip@, opt_chars(resolved)).1 {
                Some(ip) => ev matches Some(DnsUpdate::IP(e)) && e@ == ip,
                None => ev is None && final(self).current_ip == old(self).current_ip,
            },
    {
        match resolved {
            None => None,
            Some(ip) => {
                if crate::strutil::str_eq(ip.as_str(), self.current_ip.as_str()) {
                    None
                } else {
                    self.current_ip = ip.clone();
                    Some(DnsUpdate::IP(ip))
                }
            },
        }
    }

    /// One poll tick: resolve the lookup hostname's address record and absorb
    /// the outcome. Whatever the fetch source answers, an event is emitted
    /// only for an address different from the remembered one, which is then
    /// remembered in its place.
    pub fn check_host_ip(&mut self) -> (ev: Option<DnsUpdate>)
        ensures
            final(self).dns == old(self).dns,
            final(self).hostname == old(self).hostname,
            final(self).check_interval_secs == old(self).check_interval_secs,
            match ev {
                Some(u) => match u {
                    DnsUpdate::IP(ip) => {
                        &&& ip@ != old(self).current_ip@
                        &&& final(self).current_ip@ == ip@
                    },
                    DnsUpdate::Host(_) => false,
                },
                None => final(self).current_ip == old(self).current_ip,
            },
    {
        let resolved = self.dns.fetch(self.hostname.as_str(), RecordType::A);
        self.process_resolved(resolved)
    }
}

} // verus!
