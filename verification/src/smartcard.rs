//! The two operations that the tunnel's keying asks for, with the choice between
//! local arithmetic and the token.
//!
//! The choice is made on the private scalar alone, by comparing all of its 32
//! bytes with the reserved value. An ordinary scalar is used for the arithmetic
//! and for nothing else. The reserved one is never used as a scalar: the
//! operation then becomes a session on the token, which the caller runs to its
//! end. A session that fails gives an error and never key material, so the
//! handshake has to be given up.

use vstd::prelude::*;
use crate::credential::{credential_of, get_user_pin, CredentialCache};
use crate::curve::{diffie_hellman, public_key_of, x25519, x25519_public};
use crate::keys::{sentinel, PrivateScalar, PublicKey, SharedSecret};
use crate::token::{
    lemma_no_token_is_fatal, next_phase, none_reachable, run, PhaseView, TokenError,
    TokenEventView, TokenOperation, TokenSession,
};

verus! {

/// How far an operation has come when the dispatcher hands it back.
pub enum Derivation<T> {
    /// The value, computed here from an ordinary scalar.
    Done(T),
    /// The key is on a token: this session has to be run to get the value.
    OnToken(TokenSession),
}

/// The phase in which the session for a shared secret starts.
pub open spec fn secret_session_start(peer_public_key: PublicKey) -> PhaseView {
    PhaseView::Enumerating(TokenOperation::Decipher(peer_public_key))
}

/// The phase in which the session for a public key starts.
pub open spec fn public_key_session_start() -> PhaseView {
    PhaseView::Enumerating(TokenOperation::ExportPublicKey)
}

/// The Diffie-Hellman agreement of an ordinary scalar with a peer's public key.
pub fn local_diffie_hellman(
    static_secret: &PrivateScalar,
    peer_public_key: &PublicKey,
) -> (secret: SharedSecret)
    ensures
        secret@ == x25519(static_secret@, peer_public_key@),
{
    let scalar = static_secret.to_bytes();
    let point = peer_public_key.to_bytes();
    SharedSecret::from_bytes(diffie_hellman(&scalar, &point))
}

/// The public key of an ordinary scalar.
pub fn local_public_key(static_secret: &PrivateScalar) -> (public: PublicKey)
    ensures
        public@ == x25519_public(static_secret@),
{
    let scalar = static_secret.to_bytes();
    PublicKey::from_bytes(public_key_of(&scalar))
}

/// Derives the secret shared with a peer.
///
/// With any scalar but the reserved one, the result is the X25519 agreement of
/// the scalar and the peer's key, computed here. With the reserved scalar, the
/// result is a session that asks the token to decipher the peer's key, with the
/// cached unlock code to submit.
pub fn extended_diffie_hellman(
    static_secret: &PrivateScalar,
    peer_public_key: &PublicKey,
    cache: &CredentialCache,
) -> (step: Derivation<SharedSecret>)
    ensures
        match step {
            Derivation::Done(secret) => !static_secret.is_sentinel() && secret@ == x25519(
                static_secret@,
                peer_public_key@,
            ),
            Derivation::OnToken(session) => static_secret.is_sentinel() && session@.phase
                == secret_session_start(*peer_public_key) && session@.credential == credential_of(
                cache@,
            ),
        },
{
    if static_secret.is_token_backed() {
        let pin = get_user_pin(cache);
        Derivation::OnToken(TokenSession::new(TokenOperation::Decipher(*peer_public_key), pin))
    } else {
        Derivation::Done(local_diffie_hellman(static_secret, peer_public_key))
    }
}

/// Derives the public key that belongs to a private scalar.
///
/// With any scalar but the reserved one, the result is the scalar's public key,
/// computed here. With the reserved scalar, the result is a session that asks
/// the token for the public key of its decryption key; no unlock code is
/// submitted in it.
pub fn extended_public_key_derivation(
    static_secret: &PrivateScalar,
) -> (step: Derivation<PublicKey>)
    ensures
        match step {
            Derivation::Done(public) => !static_secret.is_sentinel() && public@ == x25519_public(
                static_secret@,
            ),
            Derivation::OnToken(session) => static_secret.is_sentinel() && session@.phase
                == public_key_session_start() && session@.credential == Seq::<char>::empty(),
        },
{
    if static_secret.is_token_backed() {
        Derivation::OnToken(TokenSession::new(TokenOperation::ExportPublicKey, String::new()))
    } else {
        Derivation::Done(local_public_key(static_secret))
    }
}

/// What a session for a shared secret has brought, once it has finished: the
/// token's 32 bytes taken as the shared secret, or the failure.
pub fn token_shared_secret(
    session: &TokenSession,
) -> (secret: Option<Result<SharedSecret, TokenError>>)
    ensures
        match session@.phase {
            PhaseView::Finished(Ok(key)) => secret matches Some(Ok(s)) && s@ == key,
            PhaseView::Finished(Err(error)) => secret matches Some(Err(e)) && e == error,
            _ => secret is None,
        },
{
    match session.outcome() {
        Some(Ok(key)) => Some(Ok(SharedSecret::from_bytes(key))),
        Some(Err(error)) => Some(Err(error)),
        None => None,
    }
}

/// What a session for a public key has brought, once it has finished: the key
/// that the token's answer spells, or the failure.
pub fn token_public_key(
    session: &TokenSession,
) -> (public: Option<Result<PublicKey, TokenError>>)
    ensures
        match session@.phase {
            PhaseView::Finished(Ok(key)) => public matches Some(Ok(p)) && p@ == key,
            PhaseView::Finished(Err(error)) => public matches Some(Err(e)) && e == error,
            _ => public is None,
        },
{
    match session.outcome() {
        Some(Ok(key)) => Some(Ok(PublicKey::from_bytes(key))),
        Some(Err(error)) => Some(Err(error)),
        None => None,
    }
}

/// The choice between the two paths compares the whole buffer: a scalar that
/// differs from the reserved value in any one byte is an ordinary scalar,
/// however many of the other bytes match.
pub proof fn lemma_no_partial_match(scalar: PrivateScalar, i: int)
    requires
        0 <= i < 32,
        scalar@[i] != sentinel()[i],
    ensures
        !scalar.is_sentinel(),
{
}

/// With no token to be reached, both operations on the reserved scalar fail:
/// the sessions that they start end with that failure once the enumeration has
/// brought nothing that can be reached, and with no key material, whatever is
/// reported later.
pub proof fn lemma_sentinel_needs_a_token(
    peer_public_key: PublicKey,
    tokens: Seq<bool>,
    later: Seq<TokenEventView>,
)
    requires
        none_reachable(tokens),
    ensures
        run(secret_session_start(peer_public_key), seq![TokenEventView::Enumerated(tokens)] + later)
            == PhaseView::Finished(Err(TokenError::NoToken)),
        run(public_key_session_start(), seq![TokenEventView::Enumerated(tokens)] + later)
            == PhaseView::Finished(Err(TokenError::NoToken)),
        next_phase(secret_session_start(peer_public_key), TokenEventView::Enumerated(tokens))
            == PhaseView::Finished(Err(TokenError::NoToken)),
        next_phase(public_key_session_start(), TokenEventView::Enumerated(tokens))
            == PhaseView::Finished(Err(TokenError::NoToken)),
{
    lemma_no_token_is_fatal(TokenOperation::Decipher(peer_public_key), tokens, later);
    lemma_no_token_is_fatal(TokenOperation::ExportPublicKey, tokens, later);
}

} // verus!
