//! Making a key pair for a peer that keeps its key in memory.

use vstd::prelude::*;
use crate::curve::{random_bytes, x25519_public};
use crate::keys::{sentinel, PrivateScalar, PublicKey};
use crate::smartcard::local_public_key;

verus! {

/// Why no key pair was made.
#[derive(Clone, Copy, Debug, PartialEq, Eq, Structural)]
pub enum KeygenError {
    /// The operating system gave no random bytes.
    NoEntropy,
    /// The bytes drawn are the reserved scalar, which no real key may be.
    ReservedScalar,
}

/// The key pair of a scalar, unless the scalar is the reserved one.
pub fn key_pair_from(bytes: [u8; 32]) -> (pair: Option<(PrivateScalar, PublicKey)>)
    ensures
        match pair {
            Some((scalar, public)) => scalar@ == bytes@ && !scalar.is_sentinel() && public@
                == x25519_public(bytes@),
            None => bytes@ == sentinel(),
        },
{
    let scalar = PrivateScalar::from_bytes(bytes);
    if scalar.is_token_backed() {
        None
    } else {
        let public = local_public_key(&scalar);
        Some((scalar, public))
    }
}

/// Draws a private scalar from the operating system and derives its public
/// key. A draw of the reserved scalar is refused, so that a generated key is
/// never mistaken for a key on a token; the caller may draw again.
pub fn generate_key() -> (pair: Result<(PrivateScalar, PublicKey), KeygenError>)
    ensures
        pair matches Ok((scalar, public)) ==> !scalar.is_sentinel() && public@ == x25519_public(
            scalar@,
        ),
{
    key_pair_of_draw(random_bytes())
}

/// What a draw from the operating system amounts to. Where the system gave no
/// bytes, there is no key pair for want of entropy. Where it gave the reserved
/// scalar, the draw is refused. Any other 32 bytes are the private scalar, and
/// the pair is completed with the public key that belongs to them.
pub fn key_pair_of_draw(
    draw: Result<[u8; 32], rand_core::Error>,
) -> (pair: Result<(PrivateScalar, PublicKey), KeygenError>)
    ensures
        match pair {
            Ok((scalar, public)) => draw matches Ok(bytes) && bytes@ != sentinel() && scalar@
                == bytes@ && public@ == x25519_public(bytes@),
            Err(KeygenError::NoEntropy) => draw is Err,
            Err(KeygenError::ReservedScalar) => draw matches Ok(bytes) && bytes@ == sentinel(),
        },
{
    match draw {
        Err(_) => Err(KeygenError::NoEntropy),
        Ok(bytes) => match key_pair_from(bytes) {
            Some(pair) => Ok(pair),
            None => Err(KeygenError::ReservedScalar),
        },
    }
}

} // verus!
