//! The tool's own record of the short-lived credentials a successful call
//! returns. The unverified edge converts the endpoint's response into this
//! record; everything downstream of it is verified.

use vstd::prelude::*;

verus! {

/// Short-lived credentials: four non-empty strings on success, with the
/// expiration already rendered as an RFC 3339 instant.
pub struct Credentials {
    pub access_key_id: String,
    pub secret_access_key: String,
    pub session_token: String,
    pub expiration: String,
}

/// The mathematical value of a `Credentials`.
#[verifier::ext_equal]
pub struct CredentialsV {
    pub access_key_id: Seq<char>,
    pub secret_access_key: Seq<char>,
    pub session_token: Seq<char>,
    pub expiration: Seq<char>,
}

impl View for Credentials {
    type V = CredentialsV;

    open spec fn view(&self) -> CredentialsV {
        CredentialsV {
            access_key_id: self.access_key_id@,
            secret_access_key: self.secret_access_key@,
            session_token: self.session_token@,
            expiration: self.expiration@,
        }
    }
}

} // verus!
