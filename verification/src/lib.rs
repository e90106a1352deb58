//! Identity and request authentication for a federated actor: request
//! digests, canonical signing strings, RSA-SHA256 signatures, the `Signature`
//! header in both directions, the verification of inbound requests with a
//! bounded cache of resolved keys, and the two discovery documents through
//! which a remote server finds the actor's public key.
use vstd::prelude::*;

pub mod cache;
pub mod canonical;
pub mod codec;
pub mod date;
pub mod discovery;
pub mod error;
pub mod header;
pub mod keys;
pub mod signer;
pub mod text;
pub mod verification;

verus! {

/// The actor this process speaks for: a local account name and the domain
/// under which its documents are published.
#[derive(Clone, Debug, PartialEq, Eq)]
pub struct AppState {
    pub user: String,
    pub domain: String,
}

} // verus!
