//! The error taxonomy of the tool, with the exact message each kind carries.

use vstd::prelude::*;
use vstd::string::*;

verus! {

/// Everything that can go wrong between parsing the command line and
/// producing output. Every error is fatal; nothing is recovered internally.
#[derive(Debug, PartialEq, Eq)]
pub enum Error {
    /// Malformed flags or a missing required flag; carries the usage message.
    Usage(String),
    /// The proxy URL did not parse.
    InvalidProxyUri,
    /// The home directory could not be determined, so neither could the
    /// default destination credential file.
    NoHomeDirectory,
    /// The destination credential file exists but does not parse; carries
    /// the path for context.
    MalformedCredentialFile(String),
    /// The endpoint answered success but returned no credentials.
    NoCredentialsInResponse,
    /// The endpoint rejected the request; carries its message.
    AssumeRoleFailed(String),
}

/// The human-readable message of an error, stated once so that every caller
/// and test agrees on it.
pub open spec fn spec_message(e: Error) -> Seq<char> {
    match e {
        Error::Usage(m) => m@,
        Error::InvalidProxyUri => "invalid proxy_uri"@,
        Error::NoHomeDirectory => "unable to determine home directory"@,
        Error::MalformedCredentialFile(p) => "unable to load credential file "@ + p@,
        Error::NoCredentialsInResponse => "no credentials in response"@,
        Error::AssumeRoleFailed(m) => "assume role failed: "@ + m@,
    }
}

impl Error {
    /// The message to print on standard error before exiting non-zero.
    pub fn message(&self) -> (r: String)
        ensures
            r@ == spec_message(*self),
    {
        match self {
            Error::Usage(m) => m.clone(),
            Error::InvalidProxyUri => String::from_str("invalid proxy_uri"),
            Error::NoHomeDirectory => String::from_str("unable to determine home directory"),
            Error::MalformedCredentialFile(p) => String::from_str(
                "unable to load credential file ",
            ).concat(p.as_str()),
            Error::NoCredentialsInResponse => String::from_str("no credentials in response"),
            Error::AssumeRoleFailed(m) => String::from_str("assume role failed: ").concat(
                m.as_str(),
            ),
        }
    }
}

} // verus!
