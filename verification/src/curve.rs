//! Curve25519 arithmetic, done by the `x25519-dalek` crate.
//!
//! Nothing in this file is proved. Each function below makes one call into that
//! crate, and its contract gives the result a name so that the callers can say
//! exactly which value they hand on.

use vstd::prelude::*;

verus! {

/// The X25519 function of RFC 7748: what `StaticSecret::diffie_hellman` returns
/// for a scalar and a peer's public key, both as the 32 bytes they were made from.
pub uninterp spec fn x25519(scalar: Seq<u8>, point: Seq<u8>) -> Seq<u8>;

/// The public key that belongs to a scalar: what `PublicKey::from(&StaticSecret)`
/// returns for the 32 bytes the secret was made from.
pub uninterp spec fn x25519_public(scalar: Seq<u8>) -> Seq<u8>;

/// Calls `x25519_dalek::StaticSecret::diffie_hellman`.
///
/// The secret and the public key are built from the given bytes as they are
/// (`From<[u8; 32]>` stores them unchanged), and the shared secret is read back
/// with `to_bytes`. The result depends on the two arguments alone; the contract
/// names it and claims nothing else.
#[verifier::external_body]
pub(crate) fn diffie_hellman(scalar: &[u8; 32], point: &[u8; 32]) -> (shared: [u8; 32])
    ensures
        shared@ == x25519(scalar@, point@),
{
    let secret = x25519_dalek::StaticSecret::from(*scalar);
    let peer = x25519_dalek::PublicKey::from(*point);
    secret.diffie_hellman(&peer).to_bytes()
}

/// Calls `<x25519_dalek::PublicKey as From<&StaticSecret>>::from`.
///
/// The secret is built from the given bytes as they are, and the public key is
/// read back with `to_bytes`. The result depends on the argument alone; the
/// contract names it and claims nothing else.
#[verifier::external_body]
pub(crate) fn public_key_of(scalar: &[u8; 32]) -> (public: [u8; 32])
    ensures
        public@ == x25519_public(scalar@),
{
    let secret = x25519_dalek::StaticSecret::from(*scalar);
    x25519_dalek::PublicKey::from(&secret).to_bytes()
}

/// `rand_core::Error`, the error of `try_fill_bytes`. Nothing is read from it.
#[verifier::external_type_specification]
#[verifier::external_body]
pub struct ExRandomError(rand_core::Error);

/// Calls `rand_core::RngCore::try_fill_bytes` on `rand_core::OsRng`, with a
/// buffer of 32 bytes.
///
/// The bytes come from the operating system and differ from call to call, so
/// the contract says nothing of them. Where the system gives none, the crate's
/// error is handed on.
#[verifier::external_body]
pub(crate) fn random_bytes() -> (bytes: Result<[u8; 32], rand_core::Error>) {
    let mut buffer = [0u8; 32];
    rand_core::RngCore::try_fill_bytes(&mut rand_core::OsRng, &mut buffer).map(|_| buffer)
}

} // verus!
