//! The protocol client's pure core: hostname normalization against the
//! configured zone, record modelling, and classification of update responses.
//!
//! The wire side (opening a signed UDP session, sending queries and UPDATE
//! messages) lives outside the library; everything here is a function from
//! plain values to plain values.

use vstd::prelude::*;
use vstd::string::StrSliceExecFns;
use vstd::utf8::is_ascii_chars;

use crate::error::DnsError;
use crate::strutil::{ascii_lower, lemma_lower_idempotent, lower, str_eq, str_ends_with, to_lower_char};

verus! {

/// Characters a hostname label may hold.
pub open spec fn is_host_char(c: char) -> bool {
    ||| ('a' <= c && c <= 'z')
    ||| ('A' <= c && c <= 'Z')
    ||| ('0' <= c && c <= '9')
    ||| c == '-'
    ||| c == '_'
}

/// A well-formed hostname: non-empty, made of label characters and dots,
/// with no empty label (a single trailing dot marks a fully-qualified name).
pub open spec fn valid_hostname(s: Seq<char>) -> bool {
    &&& s.len() > 0
    &&& forall|i: int| 0 <= i < s.len() ==> (is_host_char(#[trigger] s[i]) || s[i] == '.')
    &&& s[0] != '.'
    &&& forall|i: int| 0 < i < s.len() && #[trigger] s[i] == '.' ==> s[i - 1] != '.'
}

/// A fully-qualified name carries a trailing dot.
pub open spec fn is_fqdn(s: Seq<char>) -> bool {
    s.len() > 0 && s[s.len() - 1] == '.'
}

/// The name without its trailing dot, if it has one.
pub open spec fn strip_root(s: Seq<char>) -> Seq<char> {
    if is_fqdn(s) {
        s.drop_last()
    } else {
        s
    }
}

/// Does `host` lie within `zone`? Both are lower-case names without a
/// trailing dot; membership is equality or a suffix match on a label boundary.
pub open spec fn in_zone(host: Seq<char>, zone: Seq<char>) -> bool {
    ||| host == zone
    ||| {
        &&& host.len() > zone.len()
        &&& host[host.len() - zone.len() - 1] == '.'
        &&& host.subrange(host.len() - zone.len(), host.len() as int) == zone
    }
}

/// A well-formed zone name: valid, lower-case, without a trailing dot.
pub open spec fn zone_wf(zone: Seq<char>) -> bool {
    &&& valid_hostname(zone)
    &&& !is_fqdn(zone)
    &&& lower(zone) == zone
}

/// What normalization returns for every input: empty or malformed names are
/// rejected; a fully-qualified name must already lie within the zone; a bare
/// name inside the zone gains its trailing dot; any other bare name gains the
/// zone suffix. The output is always lower-case and fully qualified.
pub open spec fn normalize_spec(raw: Seq<char>, zone: Seq<char>) -> Result<Seq<char>, DnsError> {
    if !valid_hostname(raw) {
        Err(DnsError::InvalidHostname)
    } else {
        let h = lower(strip_root(raw));
        if in_zone(h, zone) {
            Ok(h.push('.'))
        } else if is_fqdn(raw) {
            Err(DnsError::ZoneMismatch)
        } else {
            Ok(h.push('.') + zone.push('.'))
        }
    }
}

/// The character sequence behind a `Result` carrying a `String`.
pub open spec fn res_chars(r: Result<String, DnsError>) -> Result<Seq<char>, DnsError> {
    match r {
        Ok(s) => Ok(s@),
        Err(e) => Err(e),
    }
}

/// Every character of a valid hostname is ASCII.
pub proof fn lemma_valid_ascii(s: Seq<char>)
    requires
        valid_hostname(s),
    ensures
        is_ascii_chars(s),
{
    assert forall|i: int| 0 <= i < s.len() implies '\0' <= #[trigger] s[i] <= '\u{7f}' by {
        assert(is_host_char(s[i]) || s[i] == '.');
    }
}

/// Lower-casing keeps hostname validity, and keeps every dot in place.
pub proof fn lemma_lower_valid(s: Seq<char>)
    requires
        valid_hostname(s),
    ensures
        valid_hostname(lower(s)),
        lower(s).len() == s.len(),
        forall|i: int| 0 <= i < s.len() ==> ((#[trigger] lower(s)[i] == '.') <==> s[i] == '.'),
{
    assert forall|i: int| 0 <= i < s.len() implies ((#[trigger] lower(s)[i] == '.') <==> s[i]
        == '.') by {
        lemma_to_lower_dot(s[i]);
    }
    assert forall|i: int| 0 <= i < lower(s).len() implies (is_host_char(#[trigger] lower(s)[i])
        || lower(s)[i] == '.') by {
        lemma_to_lower_host(s[i]);
    }
    assert forall|i: int| 0 < i < lower(s).len() && #[trigger] lower(s)[i] == '.' implies lower(
        s,
    )[i - 1] != '.' by {
        lemma_to_lower_dot(s[i]);
        lemma_to_lower_dot(s[i - 1]);
    }
}

proof fn lemma_to_lower_dot(c: char)
    ensures
        (to_lower_char(c) == '.') <==> (c == '.'),
{
    if 'A' <= c && c <= 'Z' {
        vstd::utf8::char_u32_cast(to_lower_char(c), ((c as u32) + 32) as u32);
    }
}

proof fn lemma_to_lower_host(c: char)
    requires
        is_host_char(c) || c == '.',
    ensures
        is_host_char(to_lower_char(c)) || to_lower_char(c) == '.',
{
    if 'A' <= c && c <= 'Z' {
        vstd::utf8::char_u32_cast(to_lower_char(c), ((c as u32) + 32) as u32);
    }
}

/// Dropping the trailing dot of a valid name leaves a valid, bare name.
pub proof fn lemma_strip_valid(s: Seq<char>)
    requires
        valid_hostname(s),
    ensures
        valid_hostname(strip_root(s)),
        !is_fqdn(strip_root(s)),
        strip_root(s).len() > 0,
{
    if is_fqdn(s) {
        assert(s.len() >= 2) by {
            assert(s[0] != '.');
        }
        assert(s[s.len() - 1] == '.');
        assert(s[s.len() - 2] != '.');
    }
}

/// Zone-boundary rejection: an empty input always fails with
/// `InvalidHostname`, and a fully-qualified input lying outside the
/// configured zone always fails with `ZoneMismatch`.
pub proof fn lemma_zone_boundary_rejection(raw: Seq<char>, zone: Seq<char>)
    ensures
        raw.len() == 0 ==> normalize_spec(raw, zone) == Err::<Seq<char>, DnsError>(
            DnsError::InvalidHostname,
        ),
        valid_hostname(raw) && is_fqdn(raw) && !in_zone(lower(strip_root(raw)), zone)
            ==> normalize_spec(raw, zone) == Err::<Seq<char>, DnsError>(DnsError::ZoneMismatch),
{
}

/// A successful normalization yields a valid, lower-case, fully-qualified
/// name that lies within the zone.
pub proof fn lemma_normalize_ok(raw: Seq<char>, zone: Seq<char>)
    requires
        zone_wf(zone),
        normalize_spec(raw, zone) is Ok,
    ensures
        ({
            let n = normalize_spec(raw, zone)->Ok_0;
            &&& valid_hostname(n)
            &&& is_fqdn(n)
            &&& lower(n) == n
            &&& in_zone(strip_root(n), zone)
        }),
{
    let n = normalize_spec(raw, zone)->Ok_0;
    let st = strip_root(raw);
    let h = lower(st);
    lemma_strip_valid(raw);
    lemma_lower_valid(st);
    lemma_lower_idempotent(st);
    assert(h[h.len() - 1] != '.') by {
        assert(st[st.len() - 1] != '.');
    }
    if in_zone(h, zone) {
        assert(n == h.push('.'));
        assert(valid_hostname(n)) by {
            assert forall|i: int| 0 < i < n.len() && #[trigger] n[i] == '.' implies n[i - 1]
                != '.' by {
                if i < h.len() {
                    assert(n[i] == h[i] && n[i - 1] == h[i - 1]);
                }
            }
        }
        assert(strip_root(n) =~= h);
        assert(lower(n) =~= n) by {
            assert forall|i: int| 0 <= i < n.len() implies #[trigger] to_lower_char(n[i])
                == n[i] by {
                if i < h.len() {
                    assert(lower(h)[i] == to_lower_char(h[i]));
                }
            }
        }
    } else {
        assert(!is_fqdn(raw));
        assert(n == h.push('.') + zone.push('.'));
        let hl = h.len() as int;
        let zl = zone.len() as int;
        assert(n.len() == hl + 1 + zl + 1);
        assert(forall|i: int| 0 <= i < hl ==> n[i] == h[i]);
        assert(n[hl] == '.');
        assert(forall|i: int| 0 <= i < zl ==> n[hl + 1 + i] == zone[i]);
        assert(n[hl + 1 + zl] == '.');
        assert(valid_hostname(n)) by {
            assert(zone[0] != '.');
            assert(zone[zl - 1] != '.');
            assert forall|i: int| 0 <= i < n.len() implies (is_host_char(#[trigger] n[i]) || n[i]
                == '.') by {
                if i < hl {
                    assert(n[i] == h[i]);
                } else if hl + 1 <= i < hl + 1 + zl {
                    assert(n[i] == zone[i - hl - 1]);
                }
            }
            assert forall|i: int| 0 < i < n.len() && #[trigger] n[i] == '.' implies n[i - 1]
                != '.' by {
                if i < hl {
                    assert(n[i] == h[i] && n[i - 1] == h[i - 1]);
                } else if i == hl {
                    assert(n[i - 1] == h[hl - 1]);
                } else if hl + 1 <= i < hl + 1 + zl {
                    assert(n[i] == zone[i - hl - 1]);
                    if i - 1 == hl {
                        assert(n[i] == zone[0]);
                        assert(false);
                    } else {
                        assert(n[i - 1] == zone[i - hl - 2]);
                    }
                } else {
                    assert(i == hl + 1 + zl);
                    assert(n[i - 1] == zone[zl - 1]);
                }
            }
        }
        assert(is_fqdn(n));
        assert(strip_root(n) =~= h.push('.') + zone);
        assert(in_zone(strip_root(n), zone)) by {
            let m = strip_root(n);
            assert(m.len() - zone.len() - 1 == hl);
            assert(m[hl] == n[hl]);
            assert(m.subrange(m.len() - zone.len(), m.len() as int) =~= zone);
        }
        assert(lower(n) =~= n) by {
            assert forall|i: int| 0 <= i < n.len() implies #[trigger] to_lower_char(n[i])
                == n[i] by {
                if i < hl {
                    assert(lower(h)[i] == to_lower_char(h[i]));
                    assert(n[i] == h[i]);
                } else if hl + 1 <= i < hl + 1 + zl {
                    assert(n[i] == zone[i - hl - 1]);
                    assert(lower(zone)[i - hl - 1] == to_lower_char(zone[i - hl - 1]));
                }
            }
        }
    }
}

/// Normalization is idempotent: feeding a normalized name back through
/// normalization returns it unchanged.
pub proof fn lemma_normalize_idempotent(raw: Seq<char>, zone: Seq<char>)
    requires
        zone_wf(zone),
        normalize_spec(raw, zone) is Ok,
    ensures
        normalize_spec(normalize_spec(raw, zone)->Ok_0, zone) == normalize_spec(raw, zone),
{
    let n = normalize_spec(raw, zone)->Ok_0;
    lemma_normalize_ok(raw, zone);
    lemma_strip_valid(n);
    let h2 = lower(strip_root(n));
    assert(h2 =~= strip_root(n)) by {
        assert forall|i: int| 0 <= i < strip_root(n).len() implies #[trigger] to_lower_char(
            strip_root(n)[i],
        ) == strip_root(n)[i] by {
            assert(strip_root(n)[i] == n[i]);
            assert(lower(n)[i] == to_lower_char(n[i]));
        }
    }
    assert(h2.push('.') =~= n);
}

/// Zone and time-to-live settings of the protocol client; the connection
/// facts (server address, signing key) stay with the transport outside the
/// library.
pub struct DnsZone {
    /// The configured zone, lower-case, without a trailing dot.
    pub zone: String,
    /// Time-to-live, in seconds, of the records this client creates.
    pub ttl: u32,
}

impl DnsZone {
    /// Well-formedness: the stored zone is valid, lower-case and bare.
    pub open spec fn wf(&self) -> bool {
        zone_wf(self.zone@)
    }

    /// Build the client core from a configured zone name, which may arrive
    /// in any case and with or without a trailing dot.
    pub fn new(zone: &str, ttl: u32) -> (r: Result<DnsZone, DnsError>)
        ensures
            match r {
                Ok(z) => {
                    &&& valid_hostname(zone@)
                    &&& z.zone@ == lower(strip_root(zone@))
                    &&& z.ttl == ttl
                    &&& z.wf()
                },
                Err(e) => !valid_hostname(zone@) && e == DnsError::InvalidZone,
            },
    {
        if !validate_hostname(zone) {
            return Err(DnsError::InvalidZone);
        }
        proof {
            lemma_valid_ascii(zone@);
            lemma_strip_valid(zone@);
            lemma_lower_valid(strip_root(zone@));
            lemma_lower_idempotent(strip_root(zone@));
            if is_fqdn(lower(strip_root(zone@))) {
                let st = strip_root(zone@);
                assert(lower(st)[st.len() - 1] == '.' ==> st[st.len() - 1] == '.') by {
                    lemma_to_lower_dot(st[st.len() - 1]);
                }
            }
        }
        let n = zone.unicode_len();
        let bare: &str = if zone.get_char(n - 1) == '.' {
            zone.substring_char(0, n - 1)
        } else {
            zone
        };
        proof {
            assert(bare@ =~= strip_root(zone@));
        }
        let low = ascii_lower(bare);
        Ok(DnsZone { zone: low, ttl })
    }

    /// Normalize a raw hostname against the configured zone, exactly as
    /// `normalize_spec` describes.
    pub fn normalize_hostname(&self, hostname: &str) -> (r: Result<String, DnsError>)
        requires
            self.wf(),
        ensures
            res_chars(r) == normalize_spec(hostname@, self.zone@),
    {
        if !validate_hostname(hostname) {
            return Err(DnsError::InvalidHostname);
        }
        proof {
            lemma_valid_ascii(hostname@);
            lemma_strip_valid(hostname@);
        }
        let n = hostname.unicode_len();
        let fq = hostname.get_char(n - 1) == '.';
        let bare: &str = if fq {
            hostname.substring_char(0, n - 1)
        } else {
            hostname
        };
        proof {
            assert(bare@ =~= strip_root(hostname@));
        }
        let low = ascii_lower(bare);
        if in_zone_exec(low.as_str(), self.zone.as_str()) {
            let r = low.concat(".");
            proof {
                reveal_strlit(".");
                assert(r@ =~= lower(strip_root(hostname@)).push('.'));
            }
            Ok(r)
        } else if fq {
            Err(DnsError::ZoneMismatch)
        } else {
            let r = low.concat(".").concat(self.zone.as_str()).concat(".");
            proof {
                reveal_strlit(".");
                assert(r@ =~= lower(strip_root(hostname@)).push('.') + self.zone@.push('.'));
            }
            Ok(r)
        }
    }
}

/// The record types the protocol client reads and writes.
#[derive(Debug, Clone, Copy, PartialEq, Eq, Structural)]
pub enum RecordType {
    A,
    TXT,
}

/// One server-side resource record, as a single lookup returned it.
#[derive(Debug, Clone)]
pub struct DnsRecord {
    /// The owning, fully-qualified name.
    pub name: String,
    pub rtype: RecordType,
    /// The record data: a dotted-quad address, or a text value.
    pub value: String,
    /// Time-to-live in seconds.
    pub ttl: u32,
}

/// Validated record data, ready to go on the wire.
#[derive(Debug, Clone)]
pub enum Rdata {
    Ipv4(String),
    Txt(String),
}

/// Validate record data before it is written: an address record needs
/// dotted-quad syntax, a text record takes any value.
pub fn build_rdata(record_type: RecordType, data: String) -> (r: Option<Rdata>)
    ensures
        match record_type {
            RecordType::A => {
                if crate::ip::is_ipv4_chars(data@) {
                    r matches Some(Rdata::Ipv4(v)) && v@ == data@
                } else {
                    r is None
                }
            },
            RecordType::TXT => r matches Some(Rdata::Txt(v)) && v@ == data@,
        },
{
    match record_type {
        RecordType::A => {
            if crate::ip::is_ipv4_literal(data.as_str()) {
                Some(Rdata::Ipv4(data))
            } else {
                None
            }
        },
        RecordType::TXT => Some(Rdata::Txt(data)),
    }
}

/// Classify the responses of one UPDATE transaction: no response at all
/// means `NoResponse`; otherwise the first response code decides, and any
/// code other than zero is a protocol failure.
pub fn check_update_response(codes: &Vec<u16>) -> (r: Result<(), DnsError>)
    ensures
        codes@.len() == 0 ==> r == Err::<(), DnsError>(DnsError::NoResponse),
        codes@.len() > 0 && codes@[0] == 0 ==> r is Ok,
        codes@.len() > 0 && codes@[0] != 0 ==> r == Err::<(), DnsError>(
            DnsError::ProtocolError { code: codes@[0] },
        ),
{
    if codes.len() == 0 {
        Err(DnsError::NoResponse)
    } else {
        let code = codes[0];
        if code == 0 {
            Ok(())
        } else {
            Err(DnsError::ProtocolError { code })
        }
    }
}

/// The capability to resolve a name to a record value. The wire client
/// outside the library provides it, and so does the fixed-response test
/// double below; nothing is promised about what a fetch returns.
pub trait DnsFetchTrait {
    fn fetch(&self, hostname: &str, record_type: RecordType) -> Option<String>;
}

/// A fetch source answering every query with one fixed address.
pub struct MockDnsClient {
    pub ip: String,
}

impl DnsFetchTrait for MockDnsClient {
    fn fetch(&self, _hostname: &str, _record_type: RecordType) -> Option<String> {
        Some(self.ip.clone())
    }
}

impl MockDnsClient {
    pub fn new() -> (r: Self)
        ensures
            r.ip@ == Seq::<char>::empty(),
    {
        MockDnsClient { ip: String::new() }
    }

    pub fn set_ip(&mut self, ip: String)
        ensures
            final(self).ip == ip,
    {
        self.ip = ip;
    }
}

/// Check a raw string for hostname well-formedness.
pub fn validate_hostname(s: &str) -> (r: bool)
    ensures
        r == valid_hostname(s@),
{
    let n = s.unicode_len();
    if n == 0 {
        return false;
    }
    if s.get_char(0) == '.' {
        return false;
    }
    let mut prev: char = s.get_char(0);
    if !is_host_char_exec(prev) && prev != '.' {
        return false;
    }
    let mut i: usize = 1;
    while i < n
        invariant
            1 <= i <= n,
            n == s@.len(),
            n > 0,
            s@[0] != '.',
            prev == s@[i - 1],
            forall|j: int| 0 <= j < i ==> (is_host_char(#[trigger] s@[j]) || s@[j] == '.'),
            forall|j: int| 0 < j < i && #[trigger] s@[j] == '.' ==> s@[j - 1] != '.',
        decreases n - i,
    {
        let c = s.get_char(i);
        if !is_host_char_exec(c) && c != '.' {
            return false;
        }
        if c == '.' && prev == '.' {
            return false;
        }
        prev = c;
        i += 1;
    }
    true
}

/// Executable mirror of `is_host_char`.
pub fn is_host_char_exec(c: char) -> (r: bool)
    ensures
        r == is_host_char(c),
{
    let u = c as u32;
    (97 <= u && u <= 122) || (65 <= u && u <= 90) || (48 <= u && u <= 57) || c == '-' || c == '_'
}

/// Executable mirror of `in_zone`; both names lower-case and bare.
fn in_zone_exec(host: &str, zone: &str) -> (r: bool)
    ensures
        r == in_zone(host@, zone@),
{
    if str_eq(host, zone) {
        return true;
    }
    let hn = host.unicode_len();
    let zn = zone.unicode_len();
    if hn <= zn {
        return false;
    }
    if !str_ends_with(host, zone) {
        return false;
    }
    host.get_char(hn - zn - 1) == '.'
}

} // verus!
