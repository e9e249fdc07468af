//! Trusted boundary to the TLS stack.
//!
//! The DNS-over-HTTPS transport carries a `rustls::ClientConfig` from
//! configuration time to the handshake.  The transaction layer never looks
//! inside it; it only creates one, clones it, and feeds caller-supplied
//! trust anchors into its root store.

use vstd::prelude::*;

verus! {

#[verifier::external_type_specification]
#[verifier::external_body]
pub struct ExClientConfig(rustls::ClientConfig);

/// Whether the TLS stack accepts this DER-encoded certificate as a trust
/// anchor.  Acceptance is a pure function of the certificate bytes.
pub uninterp spec fn anchor_accepted(der: Seq<u8>) -> bool;

/// Relies on rustls::ClientConfig::new: a fresh client configuration with
/// an empty root store and safe defaults.
#[verifier::external_body]
pub(crate) fn new_client_config() -> rustls::ClientConfig {
    rustls::ClientConfig::new()
}

/// Relies on the derived Clone of rustls::ClientConfig: an identical,
/// independent configuration value, with no other effect.
#[verifier::external_body]
pub(crate) fn clone_client_config(config: &rustls::ClientConfig) -> (r: rustls::ClientConfig)
    ensures
        r == *config,
{
    config.clone()
}

/// Relies on rustls::RootCertStore::add, which parses the DER bytes as a
/// trust anchor through webpki and succeeds or fails on the bytes alone:
/// it returns Ok and appends to the store exactly when the certificate
/// parses, and leaves the store unchanged otherwise.
#[verifier::external_body]
pub(crate) fn add_trust_anchor(config: &mut rustls::ClientConfig, der: &Vec<u8>) -> (r: bool)
    ensures
        r == anchor_accepted(der@),
        !r ==> *final(config) == *old(config),
{
    config.root_store.add(&rustls::Certificate(der.clone())).is_ok()
}

} // verus!
