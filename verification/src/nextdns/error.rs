//! The provider client's error kinds and their mapping onto the tool's
//! error type.
//!
//! A transport failure reaches the library as its message text; the HTTP
//! machinery itself stays outside.

use vstd::prelude::*;

use crate::error::Error;
use crate::nextdns::types::NextDNSError;
use crate::strutil::str_eq;

verus! {

/// What a provider call can fail with.
#[derive(Debug, Clone)]
pub enum NextDNSProviderError {
    /// A transport-level failure, by its message.
    Http(String),
    Credential(String),
    NotFound(String),
    InvalidInput(String),
    Provider(String),
    RateLimited,
    Unknown(String),
}

/// The provider error an error body maps to, by its code.
pub open spec fn provider_error_of_body(err: NextDNSError) -> NextDNSProviderError {
    if err.code@ == "not_found"@ {
        NextDNSProviderError::NotFound(err.message)
    } else if err.code@ == "invalid_input"@ {
        NextDNSProviderError::InvalidInput(err.message)
    } else if err.code@ == "unauthorized"@ {
        NextDNSProviderError::Credential(err.message)
    } else if err.code@ == "rate_limited"@ {
        NextDNSProviderError::RateLimited
    } else {
        NextDNSProviderError::Provider(err.message)
    }
}

impl From<NextDNSError> for NextDNSProviderError {
    /// Classify a provider error body by its code.
    fn from(err: NextDNSError) -> (r: Self) {
        if str_eq(err.code.as_str(), "not_found") {
            NextDNSProviderError::NotFound(err.message)
        } else if str_eq(err.code.as_str(), "invalid_input") {
            NextDNSProviderError::InvalidInput(err.message)
        } else if str_eq(err.code.as_str(), "unauthorized") {
            NextDNSProviderError::Credential(err.message)
        } else if str_eq(err.code.as_str(), "rate_limited") {
            NextDNSProviderError::RateLimited
        } else {
            NextDNSProviderError::Provider(err.message)
        }
    }
}

impl vstd::std_specs::convert::FromSpecImpl<NextDNSError> for NextDNSProviderError {
    open spec fn obeys_from_spec() -> bool {
        true
    }

    open spec fn from_spec(err: NextDNSError) -> Self {
        provider_error_of_body(err)
    }
}

/// Map a provider error onto the tool's error type.
pub fn map_error(e: NextDNSProviderError) -> (r: Error)
    ensures
        match e {
            NextDNSProviderError::Http(msg) => r matches Error::ProviderError(m) && m@ == msg@,
            NextDNSProviderError::Credential(msg) => r matches Error::CredentialError(m) && m@
                == msg@,
            NextDNSProviderError::NotFound(msg) => r matches Error::NotFound(m) && m@ == msg@,
            NextDNSProviderError::InvalidInput(msg) => r matches Error::InvalidInput(m) && m@
                == msg@,
            NextDNSProviderError::Provider(msg) => r matches Error::ProviderError(m) && m@
                == msg@,
            NextDNSProviderError::RateLimited => r matches Error::ProviderError(m) && m@
                == "Rate limited"@,
            NextDNSProviderError::Unknown(msg) => r matches Error::Other(m) && m@ == msg@,
        },
{
    match e {
        NextDNSProviderError::Http(msg) => Error::ProviderError(msg),
        NextDNSProviderError::Credential(msg) => Error::CredentialError(msg),
        NextDNSProviderError::NotFound(msg) => Error::NotFound(msg),
        NextDNSProviderError::InvalidInput(msg) => Error::InvalidInput(msg),
        NextDNSProviderError::Provider(msg) => Error::ProviderError(msg),
        NextDNSProviderError::RateLimited => Error::ProviderError(String::from_str("Rate limited")),
        NextDNSProviderError::Unknown(msg) => Error::Other(msg),
    }
}

} // verus!
