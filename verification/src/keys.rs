//! The 32-byte values that key agreement passes around, and the reserved scalar
//! that stands for a key held by a token.

use vstd::prelude::*;

verus! {

/// The reserved scalar as a sequence: 32 bytes, all zero but the first, which is 1.
pub open spec fn sentinel() -> Seq<u8> {
    Seq::new(32, |i: int| if i == 0 { 1u8 } else { 0u8 })
}

/// The reserved scalar as it is written in a peer's configuration.
pub fn smartcard_indicator() -> (bytes: [u8; 32])
    ensures
        bytes@ == sentinel(),
{
    let mut bytes = [0u8; 32];
    bytes[0] = 1;
    assert(bytes@ =~= sentinel());
    bytes
}

/// Whether two 32-byte buffers hold the same bytes.
pub fn same_bytes(left: &[u8; 32], right: &[u8; 32]) -> (same: bool)
    ensures
        same <==> left@ == right@,
{
    let mut i: usize = 0;
    while i < 32
        invariant
            i <= 32,
            forall|j: int| 0 <= j < i ==> left@[j] == right@[j],
        decreases 32 - i,
    {
        if left[i] != right[i] {
            return false;
        }
        i += 1;
    }
    assert(left@ =~= right@);
    true
}

/// A peer's private scalar: a real Curve25519 scalar, or the reserved value.
pub struct PrivateScalar {
    bytes: [u8; 32],
}

impl View for PrivateScalar {
    type V = Seq<u8>;

    closed spec fn view(&self) -> Seq<u8> {
        self.bytes@
    }
}

impl PrivateScalar {
    /// Takes the scalar as the configuration holds it.
    pub fn from_bytes(bytes: [u8; 32]) -> (scalar: PrivateScalar)
        ensures
            scalar@ == bytes@,
    {
        PrivateScalar { bytes }
    }

    /// The scalar that says "the key is on a token".
    pub fn token_backed() -> (scalar: PrivateScalar)
        ensures
            scalar@ == sentinel(),
            scalar.is_sentinel(),
    {
        PrivateScalar { bytes: smartcard_indicator() }
    }

    /// The scalar's bytes.
    pub fn to_bytes(&self) -> (bytes: [u8; 32])
        ensures
            bytes@ == self@,
    {
        self.bytes
    }

    /// The scalar is the reserved value: every one of its 32 bytes matches.
    pub open spec fn is_sentinel(&self) -> bool {
        self@ == sentinel()
    }

    /// The one place where the scalar is compared with the reserved value.
    pub fn is_token_backed(&self) -> (token: bool)
        ensures
            token <==> self.is_sentinel(),
    {
        let reserved = smartcard_indicator();
        same_bytes(&self.bytes, &reserved)
    }

    /// A scalar always has 32 bytes.
    pub proof fn lemma_len(&self)
        ensures
            self@.len() == 32,
    {
    }
}

/// A Curve25519 public key.
#[derive(Clone, Copy, Debug)]
pub struct PublicKey {
    bytes: [u8; 32],
}

impl View for PublicKey {
    type V = Seq<u8>;

    closed spec fn view(&self) -> Seq<u8> {
        self.bytes@
    }
}

impl PublicKey {
    /// Takes a public key from its 32 bytes.
    pub fn from_bytes(bytes: [u8; 32]) -> (key: PublicKey)
        ensures
            key@ == bytes@,
    {
        PublicKey { bytes }
    }

    /// The key's bytes.
    pub fn to_bytes(&self) -> (bytes: [u8; 32])
        ensures
            bytes@ == self@,
    {
        self.bytes
    }

    /// A public key always has 32 bytes.
    pub proof fn lemma_len(&self)
        ensures
            self@.len() == 32,
    {
    }

    /// Two public keys with the same bytes are the same key.
    pub proof fn lemma_same_bytes(&self, other: &PublicKey)
        requires
            self@ == other@,
        ensures
            *self == *other,
    {
        assert(self.bytes =~= other.bytes);
    }
}

/// The 32 bytes that both sides of a key agreement end up with.
pub struct SharedSecret {
    bytes: [u8; 32],
}

impl View for SharedSecret {
    type V = Seq<u8>;

    closed spec fn view(&self) -> Seq<u8> {
        self.bytes@
    }
}

impl SharedSecret {
    /// Takes a shared secret from its 32 bytes.
    pub fn from_bytes(bytes: [u8; 32]) -> (secret: SharedSecret)
        ensures
            secret@ == bytes@,
    {
        SharedSecret { bytes }
    }

    /// The secret's bytes.
    pub fn to_bytes(&self) -> (bytes: [u8; 32])
        ensures
            bytes@ == self@,
    {
        self.bytes
    }

    /// A shared secret always has 32 bytes.
    pub proof fn lemma_len(&self)
        ensures
            self@.len() == 32,
    {
    }
}

} // verus!
