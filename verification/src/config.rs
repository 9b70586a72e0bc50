//! Connection and behaviour settings, loaded once at process start.
//!
//! Reading the environment happens outside the library; the library only
//! holds the resulting plain values and validates them.

use vstd::prelude::*;

verus! {

/// Immutable facts about the zone, the signing key and the two intervals.
#[derive(Clone)]
pub struct Config {
    /// Address of the authoritative DNS server, as `host:port`.
    pub dns_server: String,
    /// The zone this system is authorized to mutate.
    pub dns_zone: String,
    /// Name of the shared TSIG key.
    pub key_name: String,
    /// TSIG algorithm; only `hmac-sha256` is accepted.
    pub key_alg: String,
    /// Path of the file holding the raw key bytes.
    pub key_file: String,
    /// Time-to-live, in seconds, of created records.
    pub ttl: u32,
    /// Seconds between two polls of the lookup hostname.
    pub check_interval_secs: u64,
    /// The hostname whose address record reveals the public address.
    pub lookup_hostname: String,
}

impl Default for Config {
    /// The local test configuration.
    fn default() -> (c: Self)
        ensures
            c.dns_server@ == "127.0.0.1:53"@,
            c.dns_zone@ == "example.com"@,
            c.key_name@ == "example-com"@,
            c.key_alg@ == "hmac-sha256"@,
            c.key_file@ == "tests/fixtures/secret.key"@,
            c.ttl == 300,
            c.check_interval_secs == 300,
            c.lookup_hostname@ == "thishost.example.com"@,
    {
        Config {
            dns_server: String::from_str("127.0.0.1:53"),
            dns_zone: String::from_str("example.com"),
            key_name: String::from_str("example-com"),
            key_alg: String::from_str("hmac-sha256"),
            key_file: String::from_str("tests/fixtures/secret.key"),
            ttl: 300,
            check_interval_secs: 300,
            lookup_hostname: String::from_str("thishost.example.com"),
        }
    }
}

/// Parse a decimal string as a `u32`, as the settings loader needs for the
/// time-to-live and interval values.
pub fn parse_u32(s: &str) -> (r: Option<u32>)
    ensures
        match r {
            Some(v) => {
                &&& s@.len() > 0
                &&& forall|i: int| 0 <= i < s@.len() ==> ('0' <= #[trigger] s@[i] <= '9')
                &&& v == crate::ip::dec_val(s@)
                &&& crate::ip::dec_val(s@) <= u32::MAX
            },
            None => {
                ||| s@.len() == 0
                ||| (exists|i: int| 0 <= i < s@.len() && !('0' <= #[trigger] s@[i] <= '9'))
                ||| crate::ip::dec_val(s@) > u32::MAX
            },
        },
{
    crate::ip::parse_dec_u32(s)
}

} // verus!
