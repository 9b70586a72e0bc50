//! The ownership registry: a sibling TXT record per managed hostname whose
//! presence, with the sentinel value, proves that this system created the
//! hostname's address record.
//!
//! Only the naming rule and the ownership decision live here; fetching and
//! writing the TXT record itself goes over the wire outside the library.

use vstd::prelude::*;
use vstd::string::StrSliceExecFns;

use crate::strutil::find_char_from;

verus! {

/// The sentinel value a Registry Marker must hold.
pub open spec fn sentinel() -> Seq<char> {
    "REGISTRY"@
}

/// End of the first label: the index of the first dot, or the whole length.
pub open spec fn first_label_end(s: Seq<char>) -> int
    decreases s.len(),
{
    if s.len() == 0 {
        0
    } else if s[0] == '.' {
        0
    } else {
        1 + first_label_end(s.drop_first())
    }
}

pub proof fn lemma_first_label_end(s: Seq<char>)
    ensures
        0 <= first_label_end(s) <= s.len(),
        first_label_end(s) < s.len() ==> s[first_label_end(s)] == '.',
        forall|j: int| 0 <= j < first_label_end(s) ==> s[j] != '.',
    decreases s.len(),
{
    if s.len() > 0 && s[0] != '.' {
        let d = s.drop_first();
        lemma_first_label_end(d);
        assert forall|j: int| 0 <= j < first_label_end(s) implies s[j] != '.' by {
            if j > 0 {
                assert(s[j] == d[j - 1]);
            }
        }
    }
}

/// The registry name of a hostname: its first label, suffixed with
/// `_registry`, in front of the rest of the name.
pub open spec fn registry_name_spec(s: Seq<char>) -> Seq<char> {
    s.take(first_label_end(s)) + "_registry"@ + s.skip(first_label_end(s))
}

/// The per-hostname view of the ownership registry.
pub struct Registry {
    /// The name of the marker record.
    pub registry_hostname: String,
    /// The value the marker must hold.
    pub txt: String,
}

impl Registry {
    /// Derive the registry view of one hostname.
    pub fn new(hostname: &str) -> (r: Registry)
        ensures
            r.registry_hostname@ == registry_name_spec(hostname@),
            r.txt@ == sentinel(),
    {
        Registry {
            registry_hostname: Registry::get_registry_name(hostname),
            txt: String::from_str("REGISTRY"),
        }
    }

    /// Prefix the hostname's leftmost label with `_registry`.
    pub fn get_registry_name(hostname: &str) -> (r: String)
        ensures
            r@ == registry_name_spec(hostname@),
    {
        let n = hostname.unicode_len();
        let cut = match find_char_from(hostname, '.', 0) {
            Some(i) => i,
            None => n,
        };
        proof {
            lemma_first_label_end(hostname@);
            lemma_first_label_end_at(hostname@, cut as int);
        }
        let head = hostname.substring_char(0, cut);
        let tail = hostname.substring_char(cut, n);
        let r = head.to_owned().concat("_registry").concat(tail);
        proof {
            assert(head@ =~= hostname@.take(cut as int));
            assert(tail@ =~= hostname@.skip(cut as int));
        }
        r
    }

    /// Is the fetched marker value proof of ownership?
    pub fn host_in_registry(&self, fetched: &Option<String>) -> (r: bool)
        ensures
            r == match fetched {
                Some(v) => v@ == self.txt@,
                None => false,
            },
    {
        match fetched {
            Some(v) => crate::strutil::str_eq(v.as_str(), self.txt.as_str()),
            None => false,
        }
    }
}

/// The index of the first dot, or the length where there is none, determines
/// `first_label_end`.
proof fn lemma_first_label_end_at(s: Seq<char>, i: int)
    requires
        0 <= i <= s.len(),
        forall|j: int| 0 <= j < i ==> s[j] != '.',
        i < s.len() ==> s[i] == '.',
    ensures
        first_label_end(s) == i,
    decreases i,
{
    if i == 0 {
    } else {
        lemma_first_label_end_at(s.drop_first(), i - 1);
    }
}

} // verus!
