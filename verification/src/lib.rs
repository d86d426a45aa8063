//! Library behind a command-line tool that obtains temporary cloud
//! credentials from an identity-federation endpoint and either merges them
//! into a shared INI-style credentials file or emits them as JSON for a
//! credential-process consumer.
//!
//! Everything here is verified: command-line parsing, the credentials-file
//! model with its parser and serializer, the request record, the JSON
//! emitter, and the decision of what to write where. The unverified binary
//! around this library performs the network call and the file reads and
//! writes, handing plain values in and out.

pub mod credentials;
pub mod credfile;
pub mod error;
pub mod laws;
pub mod orchestrate;
pub mod process;
pub mod request;
pub mod settings;
pub mod strutil;

use vstd::prelude::*;

verus! {

} // verus!
