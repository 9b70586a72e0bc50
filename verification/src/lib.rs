use vstd::prelude::*;

pub mod auth;
pub mod config;
pub mod dns_client;
pub mod dns_monitor;
pub mod docker_monitor;
pub mod error;
pub mod ip;
pub mod model;
pub mod nextdns;
pub mod onepassword;
pub mod registry;
pub mod rewrites;
pub mod strutil;
pub mod system_monitor;

verus! {

/// One unit of work crossing the event bus from the producers
/// (container watcher, address poller) to the reconciler.
#[derive(Debug, Clone)]
pub enum DnsUpdate {
    /// A candidate hostname was discovered from a container event.
    Host(String),
    /// The externally visible address changed.
    IP(String),
}

} // verus!
