//! The credential vault's client-side value handling: the vault handle, the
//! shape of the stored credentials, and the cleanup of stored field values.
//!
//! Running the vault's command-line tool and parsing its JSON output happen
//! outside the library.

use vstd::prelude::*;
use vstd::string::StrSliceExecFns;

use crate::error::Error;
use crate::strutil::{assoc, assoc_get, str_ends_with, str_starts_with, trim_spec, trim_str};

verus! {

/// What vault access can fail with.
#[derive(Debug, Clone)]
pub enum OnePasswordError {
    /// The command-line tool failed, by its message.
    Cli(String),
    /// Its output was not the JSON shape expected, by the parser's message.
    Json(String),
    /// A stored item lacks a required field.
    MissingField(String),
}

/// A handle on one vault.
pub struct OnePasswordClient {
    pub vault: String,
}

impl OnePasswordClient {
    pub fn new(vault: &str) -> (r: Self)
        ensures
            r.vault@ == vault@,
    {
        OnePasswordClient { vault: vault.to_owned() }
    }
}

/// The credentials stored for the managed-DNS provider.
#[derive(Debug, Clone)]
pub struct NextDnsCredentials {
    pub id: String,
    pub email: String,
    pub password: String,
}

/// The credential field a lookup key names; an unknown key is a credential
/// error naming it.
pub fn credential_field(creds: &NextDnsCredentials, key: &str) -> (r: Result<String, Error>)
    ensures
        match r {
            Ok(v) => {
                ||| (key@ == "nextdns_email"@ && v@ == creds.email@)
                ||| (key@ == "nextdns_password"@ && v@ == creds.password@)
                ||| (key@ == "nextdns_profile_id"@ && v@ == creds.id@)
            },
            Err(e) => {
                &&& key@ != "nextdns_email"@
                &&& key@ != "nextdns_password"@
                &&& key@ != "nextdns_profile_id"@
                &&& e matches Error::CredentialError(m) && m@ == "Unknown key: "@ + key@
            },
        },
{
    if crate::strutil::str_eq(key, "nextdns_email") {
        Ok(creds.email.clone())
    } else if crate::strutil::str_eq(key, "nextdns_password") {
        Ok(creds.password.clone())
    } else if crate::strutil::str_eq(key, "nextdns_profile_id") {
        Ok(creds.id.clone())
    } else {
        Err(Error::CredentialError(String::from_str("Unknown key: ").concat(key)))
    }
}

/// One code-fence marker stripped from the front and the back, where
/// present.
pub open spec fn strip_fence(s: Seq<char>, f: Seq<char>) -> Seq<char> {
    let a = if s.len() >= f.len() && s.subrange(0, f.len() as int) == f {
        s.skip(f.len() as int)
    } else {
        s
    };
    if a.len() >= f.len() && a.subrange(a.len() - f.len(), a.len() as int) == f {
        a.take(a.len() - f.len())
    } else {
        a
    }
}

/// A stored value, trimmed and with backtick and tilde code fences removed.
pub open spec fn strip_formatting_spec(s: Seq<char>) -> Seq<char> {
    trim_spec(strip_fence(strip_fence(trim_spec(s), "```"@), "~~~"@))
}

fn strip_fence_exec<'a>(s: &'a str, f: &str) -> (r: &'a str)
    ensures
        r@ == strip_fence(s@, f@),
{
    let a: &str = if str_starts_with(s, f) {
        s.substring_char(f.unicode_len(), s.unicode_len())
    } else {
        s
    };
    proof {
        if s@.len() >= f@.len() && s@.subrange(0, f@.len() as int) == f@ {
            assert(a@ =~= s@.skip(f@.len() as int));
        }
    }
    if str_ends_with(a, f) {
        let r = a.substring_char(0, a.unicode_len() - f.unicode_len());
        proof {
            assert(r@ =~= a@.take(a@.len() - f@.len()));
        }
        r
    } else {
        a
    }
}

/// Clean a stored field value: trim it and remove a surrounding code fence.
pub fn strip_formatting(value: &str) -> (r: String)
    ensures
        r@ == strip_formatting_spec(value@),
{
    let v = trim_str(value);
    let v = strip_fence_exec(v, "```");
    let v = strip_fence_exec(v, "~~~");
    trim_str(v).to_owned()
}

/// Assemble the provider credentials from fetched field values; the first
/// missing field names the failure.
pub fn credentials_from_fields(fields: &Vec<(String, String)>) -> (r: Result<
    NextDnsCredentials,
    OnePasswordError,
>)
    ensures
        match r {
            Ok(c) => {
                &&& assoc(fields@, "prefix"@) == Some(c.id@)
                &&& assoc(fields@, "email"@) == Some(c.email@)
                &&& assoc(fields@, "password"@) == Some(c.password@)
            },
            Err(e) => match e {
                OnePasswordError::MissingField(f) => {
                    ||| (f@ == "prefix"@ && assoc(fields@, "prefix"@) is None)
                    ||| (f@ == "email"@ && assoc(fields@, "prefix"@) is Some && assoc(
                        fields@,
                        "email"@,
                    ) is None)
                    ||| (f@ == "password"@ && assoc(fields@, "prefix"@) is Some && assoc(
                        fields@,
                        "email"@,
                    ) is Some && assoc(fields@, "password"@) is None)
                },
                _ => false,
            },
        },
{
    let id = match assoc_get(fields, "prefix") {
        Some(v) => v.clone(),
        None => {
            return Err(OnePasswordError::MissingField(String::from_str("prefix")));
        },
    };
    let email = match assoc_get(fields, "email") {
        Some(v) => v.clone(),
        None => {
            return Err(OnePasswordError::MissingField(String::from_str("email")));
        },
    };
    let password = match assoc_get(fields, "password") {
        Some(v) => v.clone(),
        None => {
            return Err(OnePasswordError::MissingField(String::from_str("password")));
        },
    };
    Ok(NextDnsCredentials { id, email, password })
}

} // verus!
