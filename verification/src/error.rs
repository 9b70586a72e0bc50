use vstd::prelude::*;

verus! {

/// Failures of the reconciliation engine and the protocol client.
///
/// `NotFound` is a normal branch signal (an expected record is absent),
/// not a failure surfaced to callers of the reconciler.
#[derive(Debug, Clone, Copy, PartialEq, Eq, Structural)]
pub enum DnsError {
    /// The hostname input was empty or contains characters no DNS name may hold.
    InvalidHostname,
    /// A fully-qualified input lies outside the configured zone.
    ZoneMismatch,
    /// The transport failed before the server answered.
    ConnectionError,
    /// The server answered with a non-success response code.
    ProtocolError { code: u16 },
    /// An update produced no response at all.
    NoResponse,
    /// An expected record is absent.
    NotFound,
    /// An existing record is not provably owned by this system.
    OwnershipConflict,
    /// The configured TSIG key algorithm is not supported.
    UnsupportedAlgorithm,
    /// The configured zone name is not a valid DNS name.
    InvalidZone,
}

/// The provider-facing error type of the rewrite-reconciling tool.
#[derive(Debug, Clone)]
pub enum Error {
    ProviderError(String),
    CredentialError(String),
    NotFound(String),
    InvalidInput(String),
    Other(String),
}

impl Error {
    /// The human-readable form of the error.
    pub fn message(&self) -> (r: String)
        ensures
            match self {
                Error::ProviderError(m) => r@ == "Provider error: "@ + m@,
                Error::CredentialError(m) => r@ == "Credential error: "@ + m@,
                Error::NotFound(m) => r@ == "Not found: "@ + m@,
                Error::InvalidInput(m) => r@ == "Invalid input: "@ + m@,
                Error::Other(m) => r@ == "Other error: "@ + m@,
            },
    {
        match self {
            Error::ProviderError(m) => String::from_str("Provider error: ").concat(m.as_str()),
            Error::CredentialError(m) => String::from_str("Credential error: ").concat(m.as_str()),
            Error::NotFound(m) => String::from_str("Not found: ").concat(m.as_str()),
            Error::InvalidInput(m) => String::from_str("Invalid input: ").concat(m.as_str()),
            Error::Other(m) => String::from_str("Other error: ").concat(m.as_str()),
        }
    }
}

} // verus!
