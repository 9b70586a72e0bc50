//! The event extractor: turns one container-lifecycle notification into at
//! most one candidate hostname.
//!
//! Subscribing to the container runtime's event stream happens outside the
//! library; the notification arrives here as plain values.

use vstd::prelude::*;
use vstd::string::StrSliceExecFns;

use crate::strutil::{assoc, find_char_from, str_eq, str_starts_with, str_ends_with};
use crate::DnsUpdate;

verus! {

/// One container-lifecycle notification, reduced to what the extractor
/// reads: the action, and the actor's label attributes, where present.
#[derive(Debug, Clone)]
pub struct ContainerEvent {
    /// The lifecycle action, such as `start`.
    pub action: Option<String>,
    /// Label attributes of the container, in the order delivered; `None`
    /// when the notification carried no actor or no attributes.
    pub attributes: Option<Vec<(String, String)>>,
}

/// Does some attribute enable routing for the container?
pub open spec fn routing_enabled(attrs: Seq<(String, String)>) -> bool {
    exists|i: int|
        0 <= i < attrs.len() && #[trigger] attrs[i].0@ == "traefik.enable"@ && attrs[i].1@
            == "true"@
}

/// Is this the key of a routing-rule label?
pub open spec fn is_rule_key(k: Seq<char>) -> bool {
    &&& k.len() >= "traefik.http.routers"@.len()
    &&& k.subrange(0, "traefik.http.routers"@.len() as int) == "traefik.http.routers"@
    &&& k.len() >= ".rule"@.len()
    &&& k.subrange(k.len() - ".rule"@.len(), k.len() as int) == ".rule"@
}

/// Index of the first routing-rule attribute, or the length if none exists.
pub open spec fn first_rule_idx(attrs: Seq<(String, String)>) -> int
    decreases attrs.len(),
{
    if attrs.len() == 0 {
        0
    } else if is_rule_key(attrs[0].0@) {
        0
    } else {
        1 + first_rule_idx(attrs.drop_first())
    }
}

proof fn lemma_first_rule_idx_at(attrs: Seq<(String, String)>, i: int)
    requires
        0 <= i <= attrs.len(),
        forall|j: int| 0 <= j < i ==> !is_rule_key(#[trigger] attrs[j].0@),
        i < attrs.len() ==> is_rule_key(attrs[i].0@),
    ensures
        first_rule_idx(attrs) == i,
    decreases i,
{
    if i == 0 {
    } else {
        lemma_first_rule_idx_at(attrs.drop_first(), i - 1);
    }
}

/// The substring between the first pair of backticks: everything after the
/// first backtick, up to the next backtick or the end. Nothing without a
/// backtick.
pub open spec fn backtick_host(v: Seq<char>) -> Option<Seq<char>> {
    if exists|i: int| 0 <= i < v.len() && v[i] == '`' {
        let i = first_backtick(v);
        let rest = v.skip(i + 1);
        if exists|j: int| 0 <= j < rest.len() && rest[j] == '`' {
            Some(rest.take(first_backtick(rest)))
        } else {
            Some(rest)
        }
    } else {
        None
    }
}

/// Index of the first backtick; the length if none exists.
pub open spec fn first_backtick(v: Seq<char>) -> int
    decreases v.len(),
{
    if v.len() == 0 {
        0
    } else if v[0] == '`' {
        0
    } else {
        1 + first_backtick(v.drop_first())
    }
}

proof fn lemma_first_backtick_at(v: Seq<char>, i: int)
    requires
        0 <= i <= v.len(),
        forall|j: int| 0 <= j < i ==> v[j] != '`',
        i < v.len() ==> v[i] == '`',
    ensures
        first_backtick(v) == i,
    decreases i,
{
    if i > 0 {
        lemma_first_backtick_at(v.drop_first(), i - 1);
    }
}

/// The hostname the routing-rule label carries, if any: the first rule
/// attribute's backtick-delimited host expression.
pub open spec fn rule_host(attrs: Seq<(String, String)>) -> Option<Seq<char>> {
    if first_rule_idx(attrs) == attrs.len() {
        None
    } else {
        backtick_host(attrs[first_rule_idx(attrs)].1@)
    }
}

/// What the extractor yields for one notification: nothing unless routing is
/// enabled; then the rule label's host expression, or the container's own
/// name as fallback.
pub open spec fn extract_spec(ev: ContainerEvent) -> Option<Seq<char>> {
    match ev.attributes {
        None => None,
        Some(attrs) => {
            if !routing_enabled(attrs@) {
                None
            } else {
                match rule_host(attrs@) {
                    Some(h) => Some(h),
                    None => assoc(attrs@, "name"@),
                }
            }
        },
    }
}

/// Only a `start` notification is considered at all.
pub open spec fn handle_spec(ev: ContainerEvent) -> Option<Seq<char>> {
    if ev.action matches Some(a) && a@ == "start"@ {
        extract_spec(ev)
    } else {
        None
    }
}

/// Extract the backtick-delimited host expression of a label value.
fn backtick_host_exec(v: &str) -> (r: Option<String>)
    ensures
        match r {
            Some(h) => backtick_host(v@) == Some(h@),
            None => backtick_host(v@) is None,
        },
{
    let n = v.unicode_len();
    match find_char_from(v, '`', 0) {
        None => {
            proof {
                assert forall|i: int| 0 <= i < v@.len() implies v@[i] != '`' by {}
            }
            None
        },
        Some(i) => {
            proof {
                lemma_first_backtick_at(v@, i as int);
                assert(v@[i as int] == '`');
            }
            match find_char_from(v, '`', i + 1) {
                Some(j) => {
                    let h = v.substring_char(i + 1, j).to_owned();
                    proof {
                        let rest = v@.skip(i + 1);
                        assert forall|m: int| 0 <= m < (j - i - 1) implies rest[m] != '`' by {
                            assert(rest[m] == v@[i + 1 + m]);
                        }
                        lemma_first_backtick_at(rest, j - i - 1);
                        assert(rest[j - i - 1] == v@[j as int]);
                        assert(rest.take(j - i - 1) =~= v@.subrange(i + 1, j as int));
                    }
                    Some(h)
                },
                None => {
                    let h = v.substring_char(i + 1, n).to_owned();
                    proof {
                        let rest = v@.skip(i + 1);
                        assert forall|m: int| 0 <= m < rest.len() implies rest[m] != '`' by {
                            assert(rest[m] == v@[i + 1 + m]);
                        }
                        assert(rest =~= v@.subrange(i + 1, n as int));
                    }
                    Some(h)
                },
            }
        },
    }
}

/// Turn one notification into at most one candidate hostname, as
/// `extract_spec` describes.
pub fn extract_hostname(event: &ContainerEvent) -> (r: Option<String>)
    ensures
        match r {
            Some(h) => extract_spec(*event) == Some(h@),
            None => extract_spec(*event) is None,
        },
{
    let attrs = match &event.attributes {
        None => {
            return None;
        },
        Some(a) => a,
    };
    let mut enabled = false;
    let mut i: usize = 0;
    while i < attrs.len() && !enabled
        invariant
            i <= attrs@.len(),
            enabled ==> routing_enabled(attrs@),
            !enabled ==> forall|j: int|
                0 <= j < i ==> !(#[trigger] attrs@[j].0@ == "traefik.enable"@ && attrs@[j].1@
                    == "true"@),
        decreases attrs@.len() - i,
    {
        if str_eq(attrs[i].0.as_str(), "traefik.enable") && str_eq(attrs[i].1.as_str(), "true") {
            enabled = true;
        }
        i += 1;
    }
    if !enabled {
        return None;
    }
    let mut k: usize = 0;
    while k < attrs.len() && !is_rule_key_exec(attrs[k].0.as_str())
        invariant
            k <= attrs@.len(),
            forall|j: int| 0 <= j < k ==> !is_rule_key(#[trigger] attrs@[j].0@),
        decreases attrs@.len() - k,
    {
        k += 1;
    }
    proof {
        lemma_first_rule_idx_at(attrs@, k as int);
    }
    if k < attrs.len() {
        if let Some(h) = backtick_host_exec(attrs[k].1.as_str()) {
            return Some(h);
        }
    }
    match crate::strutil::assoc_get(attrs, "name") {
        Some(v) => Some(v.clone()),
        None => None,
    }
}

/// Executable mirror of `is_rule_key`.
pub fn is_rule_key_exec(k: &str) -> (r: bool)
    ensures
        r == is_rule_key(k@),
{
    str_starts_with(k, "traefik.http.routers") && str_ends_with(k, ".rule")
}

/// Decide one raw notification: a `start` action whose extraction yields a
/// hostname becomes a discovery event; everything else is dropped.
pub fn handle_container_event(event: &ContainerEvent) -> (r: Option<DnsUpdate>)
    ensures
        match r {
            Some(u) => u matches DnsUpdate::Host(h) && handle_spec(*event) == Some(h@),
            None => handle_spec(*event) is None,
        },
{
    match &event.action {
        Some(a) => {
            if !str_eq(a.as_str(), "start") {
                return None;
            }
        },
        None => {
            return None;
        },
    }
    match extract_hostname(event) {
        Some(h) => Some(DnsUpdate::Host(h)),
        None => None,
    }
}

} // verus!
