use smartcard_keying::credential::{set_user_pin, CredentialCache};
use smartcard_keying::keys::{smartcard_indicator, PrivateScalar, PublicKey};
use smartcard_keying::smartcard::{
    extended_diffie_hellman, extended_public_key_derivation, local_diffie_hellman,
    local_public_key, token_public_key, token_shared_secret, Derivation,
};
use smartcard_keying::token::{
    first_reachable, Phase, TokenAction, TokenError, TokenEvent, TokenOperation, TokenSession,
};

fn bytes_of(text: &str) -> [u8; 32] {
    let digits = text.as_bytes();
    assert_eq!(digits.len(), 64);
    let mut out = [0u8; 32];
    for i in 0..32 {
        let high = (digits[2 * i] as char).to_digit(16).unwrap() as u8;
        let low = (digits[2 * i + 1] as char).to_digit(16).unwrap() as u8;
        out[i] = high * 16 + low;
    }
    out
}

const ALICE_PRIVATE: &str = "77076d0a7318a57d3c16c17251b26645df4c2f87ebc0992ab177fba51db92c2a";
const ALICE_PUBLIC: &str = "8520f0098930a754748b7ddcb43ef75a0dbf3a0d26381af4eba4a98eaa9b4e6a";
const BOB_PRIVATE: &str = "5dab087e624a8a4b79e17f8b83800ee66f3bb1292618b6fd1c2f8b27ff88e0eb";
const BOB_PUBLIC: &str = "de9edb7d7b7dc1b4d35b61c2ece435373f8343c85b78674dadfc7e146f882b4f";
const SHARED: &str = "4a5d9d5ba4ce2de1728e3bf480350f25e07e21c947d19e3376f09b3c1e161742";

fn local_secret(scalar: [u8; 32], peer: [u8; 32]) -> [u8; 32] {
    let cache = CredentialCache::new();
    let scalar = PrivateScalar::from_bytes(scalar);
    let peer = PublicKey::from_bytes(peer);
    match extended_diffie_hellman(&scalar, &peer, &cache) {
        Derivation::Done(secret) => secret.to_bytes(),
        Derivation::OnToken(_) => panic!("an ordinary scalar was sent to the token"),
    }
}

fn local_public(scalar: [u8; 32]) -> [u8; 32] {
    match extended_public_key_derivation(&PrivateScalar::from_bytes(scalar)) {
        Derivation::Done(public) => public.to_bytes(),
        Derivation::OnToken(_) => panic!("an ordinary scalar was sent to the token"),
    }
}

fn decipher_session(peer: [u8; 32], pin: &str) -> TokenSession {
    let mut cache = CredentialCache::new();
    set_user_pin(&mut cache, pin.to_string());
    let scalar = PrivateScalar::token_backed();
    match extended_diffie_hellman(&scalar, &PublicKey::from_bytes(peer), &cache) {
        Derivation::OnToken(session) => session,
        Derivation::Done(_) => panic!("the reserved scalar was used for arithmetic"),
    }
}

fn export_session() -> TokenSession {
    match extended_public_key_derivation(&PrivateScalar::token_backed()) {
        Derivation::OnToken(session) => session,
        Derivation::Done(_) => panic!("the reserved scalar was used for arithmetic"),
    }
}

#[test]
fn shared_secret_of_reference_vector() {
    assert_eq!(local_secret(bytes_of(ALICE_PRIVATE), bytes_of(BOB_PUBLIC)), bytes_of(SHARED));
    assert_eq!(local_secret(bytes_of(BOB_PRIVATE), bytes_of(ALICE_PUBLIC)), bytes_of(SHARED));
}

#[test]
fn public_key_of_reference_vector() {
    assert_eq!(local_public(bytes_of(ALICE_PRIVATE)), bytes_of(ALICE_PUBLIC));
    assert_eq!(local_public(bytes_of(BOB_PRIVATE)), bytes_of(BOB_PUBLIC));
}

#[test]
fn local_path_agrees_with_the_curve_library() {
    let mut scalar = [0u8; 32];
    let mut peer = [0u8; 32];
    for round in 0..16u8 {
        for i in 0..32 {
            scalar[i] = (i as u8).wrapping_mul(7).wrapping_add(round.wrapping_mul(31)).wrapping_add(3);
            peer[i] = (i as u8).wrapping_mul(13).wrapping_add(round.wrapping_mul(17)).wrapping_add(9);
        }
        assert_eq!(local_secret(scalar, peer), x25519_dalek::x25519(scalar, peer));
        assert_eq!(
            local_public(scalar),
            x25519_dalek::x25519(scalar, x25519_dalek::X25519_BASEPOINT_BYTES)
        );
    }
}

#[test]
fn local_functions_do_the_arithmetic() {
    let scalar = PrivateScalar::from_bytes(bytes_of(ALICE_PRIVATE));
    let peer = PublicKey::from_bytes(bytes_of(BOB_PUBLIC));
    assert_eq!(local_diffie_hellman(&scalar, &peer).to_bytes(), bytes_of(SHARED));
    assert_eq!(local_public_key(&scalar).to_bytes(), bytes_of(ALICE_PUBLIC));
}

#[test]
fn reserved_scalar_is_one_then_zeros() {
    let mut expected = [0u8; 32];
    expected[0] = 1;
    assert_eq!(smartcard_indicator(), expected);
    assert_eq!(PrivateScalar::token_backed().to_bytes(), expected);
    assert!(PrivateScalar::token_backed().is_token_backed());
    assert!(PrivateScalar::from_bytes(expected).is_token_backed());
}

#[test]
fn partial_matches_are_ordinary_scalars() {
    let peer = bytes_of(BOB_PUBLIC);
    let reserved = smartcard_indicator();
    for i in 0..32 {
        for delta in [1u8, 0x80, 0xff] {
            let mut scalar = reserved;
            scalar[i] ^= delta;
            assert!(!PrivateScalar::from_bytes(scalar).is_token_backed());
            assert_eq!(local_secret(scalar, peer), x25519_dalek::x25519(scalar, peer));
            assert_eq!(
                local_public(scalar),
                x25519_dalek::x25519(scalar, x25519_dalek::X25519_BASEPOINT_BYTES)
            );
        }
    }
    assert_eq!(local_secret([0u8; 32], peer), x25519_dalek::x25519([0u8; 32], peer));
    assert_eq!(local_secret([1u8; 32], peer), x25519_dalek::x25519([1u8; 32], peer));
}

#[test]
fn reserved_scalar_starts_a_decipher_session() {
    let peer = bytes_of(BOB_PUBLIC);
    let session = decipher_session(peer, "123456");
    assert!(matches!(session.pending(), TokenAction::Enumerate));
    assert!(matches!(session.phase(), Phase::Enumerating(TokenOperation::Decipher(_))));
    assert_eq!(session.credential(), "123456");
    assert!(session.outcome().is_none());
    assert!(token_shared_secret(&session).is_none());
}

#[test]
fn reserved_scalar_starts_an_export_session() {
    let session = export_session();
    assert!(matches!(session.pending(), TokenAction::Enumerate));
    assert_eq!(session.credential(), "");
    assert!(token_public_key(&session).is_none());
}

#[test]
fn unprimed_cache_gives_an_empty_unlock_code() {
    let cache = CredentialCache::new();
    let scalar = PrivateScalar::token_backed();
    let peer = PublicKey::from_bytes(bytes_of(BOB_PUBLIC));
    match extended_diffie_hellman(&scalar, &peer, &cache) {
        Derivation::OnToken(session) => assert_eq!(session.credential(), ""),
        Derivation::Done(_) => panic!("the reserved scalar was used for arithmetic"),
    }
}

#[test]
fn decipher_session_runs_in_order() {
    let peer = bytes_of(BOB_PUBLIC);
    let answer: Vec<u8> = (100u8..132).collect();
    let session = decipher_session(peer, "123456");
    let session = session.step(TokenEvent::Enumerated(vec![true]));
    assert!(matches!(session.pending(), TokenAction::OpenSession(0)));
    let session = session.step(TokenEvent::SessionOpened);
    assert!(matches!(session.pending(), TokenAction::Unlock));
    assert_eq!(session.credential(), "123456");
    let session = session.step(TokenEvent::UnlockAccepted);
    match session.pending() {
        TokenAction::Decipher(key) => assert_eq!(key.to_bytes(), peer),
        other => panic!("expected the decipherment, got {:?}", other),
    }
    let session = session.step(TokenEvent::Deciphered(answer.clone()));
    assert!(matches!(session.pending(), TokenAction::CloseSession));
    assert!(session.outcome().is_none());
    let session = session.step(TokenEvent::SessionClosed);
    assert!(matches!(session.pending(), TokenAction::Stop));
    let secret = token_shared_secret(&session).unwrap().unwrap();
    assert_eq!(secret.to_bytes().to_vec(), answer);
    let outcome = session.outcome().unwrap().unwrap();
    assert_eq!(outcome.to_vec(), answer);
}

#[test]
fn token_agrees_with_reference_computation() {
    // A token in software: it holds Alice's scalar and does what the card does.
    let token_scalar = bytes_of(ALICE_PRIVATE);
    let token_public = local_public(token_scalar);
    let peer_scalar = bytes_of(BOB_PRIVATE);
    let peer_public = local_public(peer_scalar);

    let mut session = decipher_session(peer_public, "123456");
    loop {
        let event = match session.pending() {
            TokenAction::Enumerate => TokenEvent::Enumerated(vec![true]),
            TokenAction::OpenSession(_) => TokenEvent::SessionOpened,
            TokenAction::Unlock => {
                if session.credential() == "123456" {
                    TokenEvent::UnlockAccepted
                } else {
                    TokenEvent::UnlockRejected
                }
            }
            TokenAction::Decipher(key) => {
                TokenEvent::Deciphered(x25519_dalek::x25519(token_scalar, key.to_bytes()).to_vec())
            }
            TokenAction::ExportPublicKey => TokenEvent::KeyMissing,
            TokenAction::CloseSession => TokenEvent::SessionClosed,
            TokenAction::Stop => break,
        };
        session = session.step(event);
    }
    let from_token = token_shared_secret(&session).unwrap().unwrap().to_bytes();
    let reference = local_secret(peer_scalar, token_public);
    assert_eq!(from_token, reference);
    assert_eq!(from_token, bytes_of(SHARED));
}

#[test]
fn rejected_unlock_ends_the_operation() {
    let peer = bytes_of(BOB_PUBLIC);
    let session = decipher_session(peer, "wrong")
        .step(TokenEvent::Enumerated(vec![true]))
        .step(TokenEvent::SessionOpened);
    assert!(matches!(session.pending(), TokenAction::Unlock));
    let session = session.step(TokenEvent::UnlockRejected);
    assert!(matches!(session.pending(), TokenAction::CloseSession));
    assert!(session.outcome().is_none());
    let session = session.step(TokenEvent::SessionClosed);
    assert!(matches!(session.pending(), TokenAction::Stop));
    assert_eq!(session.outcome(), Some(Err(TokenError::UnlockRejected)));
    match token_shared_secret(&session) {
        Some(Err(error)) => assert_eq!(error, TokenError::UnlockRejected),
        _ => panic!("a secret from a token that stayed locked"),
    }
}

#[test]
fn locked_token_is_never_asked_to_decipher() {
    let token_scalar = bytes_of(ALICE_PRIVATE);
    let mut session = decipher_session(bytes_of(BOB_PUBLIC), "000000");
    let mut asked = Vec::new();
    loop {
        let event = match session.pending() {
            TokenAction::Enumerate => TokenEvent::Enumerated(vec![true]),
            TokenAction::OpenSession(_) => TokenEvent::SessionOpened,
            TokenAction::Unlock => {
                if session.credential() == "123456" {
                    TokenEvent::UnlockAccepted
                } else {
                    TokenEvent::UnlockRejected
                }
            }
            TokenAction::Decipher(key) => {
                TokenEvent::Deciphered(x25519_dalek::x25519(token_scalar, key.to_bytes()).to_vec())
            }
            TokenAction::ExportPublicKey => TokenEvent::KeyMissing,
            TokenAction::CloseSession => TokenEvent::SessionClosed,
            TokenAction::Stop => break,
        };
        asked.push(format!("{:?}", session.pending()));
        session = session.step(event);
    }
    assert_eq!(asked, vec!["Enumerate", "OpenSession(0)", "Unlock", "CloseSession"]);
    assert_eq!(session.outcome(), Some(Err(TokenError::UnlockRejected)));
}

#[test]
fn answers_after_a_rejected_unlock_bring_no_secret() {
    let session = decipher_session(bytes_of(BOB_PUBLIC), "wrong")
        .step(TokenEvent::Enumerated(vec![true]))
        .step(TokenEvent::SessionOpened)
        .step(TokenEvent::UnlockRejected)
        .step(TokenEvent::Deciphered(vec![7u8; 32]));
    assert!(matches!(session.pending(), TokenAction::Stop));
    assert!(matches!(session.outcome(), Some(Err(_))));
    let session = session.step(TokenEvent::Deciphered(vec![7u8; 32])).step(TokenEvent::SessionClosed);
    assert!(matches!(session.outcome(), Some(Err(_))));
}

#[test]
fn failed_decipherment_is_fatal() {
    let peer = bytes_of(BOB_PUBLIC);
    let session = decipher_session(peer, "123456")
        .step(TokenEvent::Enumerated(vec![true]))
        .step(TokenEvent::SessionOpened)
        .step(TokenEvent::UnlockAccepted);
    match session.pending() {
        TokenAction::Decipher(key) => assert_eq!(key.to_bytes(), peer),
        other => panic!("expected the decipherment, got {:?}", other),
    }
    let session = session.step(TokenEvent::CommandFailed);
    assert!(matches!(session.pending(), TokenAction::CloseSession));
    let session = session.step(TokenEvent::SessionClosed);
    assert_eq!(session.outcome(), Some(Err(TokenError::CommandFailed)));
}

#[test]
fn refused_card_is_fatal() {
    let session = decipher_session(bytes_of(BOB_PUBLIC), "123456")
        .step(TokenEvent::Enumerated(vec![true]))
        .step(TokenEvent::CardRefused);
    assert!(matches!(session.pending(), TokenAction::Stop));
    assert_eq!(session.outcome(), Some(Err(TokenError::CardRefused)));
    let session = export_session()
        .step(TokenEvent::Enumerated(vec![false, true]))
        .step(TokenEvent::CardRefused);
    assert_eq!(session.outcome(), Some(Err(TokenError::CardRefused)));
}

#[test]
fn no_token_fails_the_shared_secret() {
    let session = decipher_session(bytes_of(BOB_PUBLIC), "123456").step(TokenEvent::Enumerated(vec![]));
    assert!(matches!(session.pending(), TokenAction::Stop));
    assert_eq!(session.outcome(), Some(Err(TokenError::NoToken)));
    match token_shared_secret(&session) {
        Some(Err(error)) => assert_eq!(error, TokenError::NoToken),
        _ => panic!("a secret without a token"),
    }
    // Nothing reported afterwards turns the failure into a secret.
    let session = session
        .step(TokenEvent::Enumerated(vec![true]))
        .step(TokenEvent::Deciphered(vec![0u8; 32]))
        .step(TokenEvent::SessionClosed);
    assert_eq!(session.outcome(), Some(Err(TokenError::NoToken)));
}

#[test]
fn no_token_fails_the_public_key() {
    let session = export_session().step(TokenEvent::Enumerated(vec![]));
    assert!(matches!(session.pending(), TokenAction::Stop));
    assert_eq!(session.outcome(), Some(Err(TokenError::NoToken)));
    match token_public_key(&session) {
        Some(Err(error)) => assert_eq!(error, TokenError::NoToken),
        _ => panic!("a public key without a token"),
    }
}

#[test]
fn unreachable_service_is_fatal() {
    let session = export_session().step(TokenEvent::ServiceUnavailable);
    assert_eq!(session.outcome(), Some(Err(TokenError::ServiceUnavailable)));
}

#[test]
fn refused_session_is_fatal() {
    let session = decipher_session(bytes_of(BOB_PUBLIC), "123456")
        .step(TokenEvent::Enumerated(vec![true]))
        .step(TokenEvent::SessionRefused);
    assert!(matches!(session.pending(), TokenAction::Stop));
    assert_eq!(session.outcome(), Some(Err(TokenError::SessionRefused)));
}

#[test]
fn decipherment_of_wrong_length_is_a_decode_error() {
    for len in [0usize, 1, 31, 33, 64] {
        let session = decipher_session(bytes_of(BOB_PUBLIC), "123456")
            .step(TokenEvent::Enumerated(vec![true]))
            .step(TokenEvent::SessionOpened)
            .step(TokenEvent::UnlockAccepted)
            .step(TokenEvent::Deciphered(vec![7u8; len]))
            .step(TokenEvent::SessionClosed);
        assert_eq!(session.outcome(), Some(Err(TokenError::MalformedResponse)));
    }
}

#[test]
fn unexpected_report_closes_and_fails() {
    let session = decipher_session(bytes_of(BOB_PUBLIC), "123456")
        .step(TokenEvent::Enumerated(vec![true]))
        .step(TokenEvent::SessionOpened)
        .step(TokenEvent::Deciphered(vec![7u8; 32]));
    assert!(matches!(session.pending(), TokenAction::CloseSession));
    let session = session.step(TokenEvent::SessionClosed);
    assert_eq!(session.outcome(), Some(Err(TokenError::UnexpectedEvent)));

    let session = export_session().step(TokenEvent::SessionOpened);
    assert!(matches!(session.pending(), TokenAction::Stop));
    assert_eq!(session.outcome(), Some(Err(TokenError::UnexpectedEvent)));

    let session = export_session()
        .step(TokenEvent::Enumerated(vec![true]))
        .step(TokenEvent::SessionOpened)
        .step(TokenEvent::KeyMissing)
        .step(TokenEvent::Enumerated(vec![true]));
    assert_eq!(session.outcome(), Some(Err(TokenError::UnexpectedEvent)));
}

#[test]
fn session_ends_within_five_reports() {
    let reports: [fn() -> TokenEvent; 10] = [
        || TokenEvent::Enumerated(vec![true]),
        || TokenEvent::SessionOpened,
        || TokenEvent::UnlockRejected,
        || TokenEvent::UnlockAccepted,
        || TokenEvent::CardRefused,
        || TokenEvent::CommandFailed,
        || TokenEvent::KeyMissing,
        || TokenEvent::SessionClosed,
        || TokenEvent::Enumerated(vec![]),
        || TokenEvent::Enumerated(vec![false, true]),
    ];
    for a in 0..reports.len() {
        for b in 0..reports.len() {
            for c in 0..reports.len() {
                for d in 0..reports.len() {
                    for e in 0..reports.len() {
                        let session = decipher_session([9u8; 32], "")
                            .step(reports[a]())
                            .step(reports[b]())
                            .step(reports[c]())
                            .step(reports[d]())
                            .step(reports[e]());
                        assert!(matches!(session.pending(), TokenAction::Stop));
                        assert!(matches!(session.outcome(), Some(Err(_))));
                    }
                }
            }
        }
    }
}

#[test]
fn failures_have_words() {
    assert_eq!(TokenError::NoToken.message(), "No valid card found");
    assert_eq!(TokenError::ServiceUnavailable.message(), "Failed to get backends");
    assert_eq!(TokenError::SessionRefused.message(), "Transaction creation failed");
    assert_eq!(TokenError::CardRefused.message(), "Card creation failed");
    assert_eq!(TokenError::UnlockRejected.message(), "User PIN verification failed");
    assert_eq!(TokenError::CommandFailed.message(), "Diffie-Hellman failed");
    assert_eq!(TokenError::MalformedResponse.message(), "Failed to decode the card's answer");
    assert_eq!(TokenError::UnexpectedEvent.message(), "Unexpected answer from the card");
}

#[test]
fn first_reachable_token_is_taken() {
    let session = export_session().step(TokenEvent::Enumerated(vec![false, false, true, true]));
    assert!(matches!(session.pending(), TokenAction::OpenSession(2)));
    let session = export_session().step(TokenEvent::Enumerated(vec![true, false]));
    assert!(matches!(session.pending(), TokenAction::OpenSession(0)));
    assert_eq!(first_reachable(&[false, true, false, true]), Some(1));
    assert_eq!(first_reachable(&[false, false]), None);
    assert_eq!(first_reachable(&[]), None);
}

#[test]
fn tokens_that_cannot_be_reached_are_no_tokens() {
    for listed in 0..4usize {
        let session = decipher_session(bytes_of(BOB_PUBLIC), "123456")
            .step(TokenEvent::Enumerated(vec![false; listed]));
        assert_eq!(session.outcome(), Some(Err(TokenError::NoToken)));
        let session = export_session().step(TokenEvent::Enumerated(vec![false; listed]));
        assert_eq!(session.outcome(), Some(Err(TokenError::NoToken)));
    }
}
