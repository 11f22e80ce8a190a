use smartcard_keying::hexkey::{hex_value, trailing_key};
use smartcard_keying::keys::PrivateScalar;
use smartcard_keying::smartcard::{extended_public_key_derivation, token_public_key, Derivation};
use smartcard_keying::token::{
    key_from_export, key_from_response, TokenAction, TokenError, TokenEvent, TokenSession,
};

const KEY: [u8; 32] = [
    0x85, 0x20, 0xf0, 0x09, 0x89, 0x30, 0xa7, 0x54, 0x74, 0x8b, 0x7d, 0xdc, 0xb4, 0x3e, 0xf7, 0x5a,
    0x0d, 0xbf, 0x3a, 0x0d, 0x26, 0x38, 0x1a, 0xf4, 0xeb, 0xa4, 0xa9, 0x8e, 0xaa, 0x9b, 0x4e, 0x6a,
];
const KEY_UPPER: &str = "8520F0098930A754748B7DDCB43EF75A0DBF3A0D26381AF4EBA4A98EAA9B4E6A";
const KEY_LOWER: &str = "8520f0098930a754748b7ddcb43ef75a0dbf3a0d26381af4eba4a98eaa9b4e6a";

fn exported(session: TokenSession, event: TokenEvent) -> TokenSession {
    session
        .step(TokenEvent::Enumerated(vec![true]))
        .step(TokenEvent::SessionOpened)
        .step(event)
        .step(TokenEvent::SessionClosed)
}

fn export_session() -> TokenSession {
    match extended_public_key_derivation(&PrivateScalar::token_backed()) {
        Derivation::OnToken(session) => session,
        Derivation::Done(_) => panic!("the reserved scalar was used for arithmetic"),
    }
}

#[test]
fn key_is_read_from_the_end_of_the_answer() {
    let answer = format!("ECC [Cv25519], data: 40{}", KEY_UPPER);
    assert_eq!(key_from_export(&answer), Ok(KEY));
    assert_eq!(trailing_key(answer.as_bytes()), Some(KEY));
}

#[test]
fn key_digits_may_be_of_either_case() {
    assert_eq!(key_from_export(KEY_LOWER), Ok(KEY));
    assert_eq!(key_from_export(KEY_UPPER), Ok(KEY));
    let mixed = format!("{}{}", &KEY_LOWER[..31], &KEY_UPPER[31..]);
    assert_eq!(key_from_export(&mixed), Ok(KEY));
}

#[test]
fn every_byte_value_is_decoded() {
    let digits = b"0123456789abcdef";
    for start in (0..256usize).step_by(32) {
        let mut text = String::from("key ");
        let mut expected = [0u8; 32];
        for i in 0..32 {
            let value = (start + i) as u8;
            expected[i] = value;
            text.push(digits[(value >> 4) as usize] as char);
            text.push(digits[(value & 15) as usize] as char);
        }
        assert_eq!(key_from_export(&text), Ok(expected));
        assert_eq!(key_from_export(&text.to_uppercase()), Ok(expected));
    }
}

#[test]
fn short_answer_is_a_decode_error() {
    assert_eq!(key_from_export(""), Err(TokenError::MalformedResponse));
    assert_eq!(key_from_export(&KEY_UPPER[..63]), Err(TokenError::MalformedResponse));
    assert_eq!(key_from_export(&KEY_UPPER[1..]), Err(TokenError::MalformedResponse));
    assert_eq!(trailing_key(&KEY_UPPER.as_bytes()[..63]), None);
}

#[test]
fn fewer_than_64_trailing_digits_is_a_decode_error() {
    let answer = format!("ECC [Cv25519], data: {}", &KEY_UPPER[..62]);
    assert!(answer.len() > 64);
    assert_eq!(key_from_export(&answer), Err(TokenError::MalformedResponse));
    let answer = format!("{} {}", &KEY_UPPER[..32], &KEY_UPPER[32..]);
    assert_eq!(key_from_export(&answer), Err(TokenError::MalformedResponse));
}

#[test]
fn other_characters_among_the_digits_are_a_decode_error() {
    for bad in ["G", "g", " ", "/", ":", "@", "`", "x", "\n", "\0"] {
        for at in [0usize, 1, 31, 32, 62, 63] {
            let answer = format!("{}{}{}", &KEY_UPPER[..at], bad, &KEY_UPPER[at + 1..]);
            assert_eq!(answer.len(), 64);
            assert_eq!(key_from_export(&answer), Err(TokenError::MalformedResponse));
            let longer = format!("data: {}", answer);
            assert_eq!(key_from_export(&longer), Err(TokenError::MalformedResponse));
        }
    }
}

#[test]
fn characters_beyond_ascii_are_a_decode_error() {
    let answer = format!("{}\u{e9}{}", &KEY_UPPER[..10], &KEY_UPPER[10..]);
    assert_eq!(key_from_export(&answer), Err(TokenError::MalformedResponse));
    let answer = format!("{}\u{20ac}", KEY_UPPER);
    assert_eq!(key_from_export(&answer), Err(TokenError::MalformedResponse));
    // Before the last 64 bytes they are of no interest.
    let answer = format!("cl\u{e9} : {}", KEY_UPPER);
    assert_eq!(key_from_export(&answer), Ok(KEY));
}

#[test]
fn export_session_gives_the_decoded_key() {
    let answer = format!("ECC [Cv25519], data: 40{}", KEY_LOWER);
    let session = export_session()
        .step(TokenEvent::Enumerated(vec![true]))
        .step(TokenEvent::SessionOpened);
    assert!(matches!(session.pending(), TokenAction::ExportPublicKey));
    let session = session.step(TokenEvent::KeyExported(answer));
    assert!(matches!(session.pending(), TokenAction::CloseSession));
    assert!(token_public_key(&session).is_none());
    let session = session.step(TokenEvent::SessionClosed);
    assert_eq!(token_public_key(&session).unwrap().unwrap().to_bytes(), KEY);
}

#[test]
fn export_session_never_unlocks() {
    let mut session = export_session();
    let mut asked = Vec::new();
    loop {
        let event = match session.pending() {
            TokenAction::Enumerate => TokenEvent::Enumerated(vec![true]),
            TokenAction::OpenSession(_) => TokenEvent::SessionOpened,
            TokenAction::Unlock => TokenEvent::UnlockAccepted,
            TokenAction::Decipher(_) => TokenEvent::CommandFailed,
            TokenAction::ExportPublicKey => TokenEvent::KeyExported(KEY_UPPER.to_string()),
            TokenAction::CloseSession => TokenEvent::SessionClosed,
            TokenAction::Stop => break,
        };
        asked.push(format!("{:?}", session.pending()));
        session = session.step(event);
    }
    assert_eq!(asked, vec!["Enumerate", "OpenSession(0)", "ExportPublicKey", "CloseSession"]);
    assert_eq!(session.outcome(), Some(Ok(KEY)));
}

#[test]
fn malformed_export_fails_the_session() {
    let session = exported(export_session(), TokenEvent::KeyExported("RSA, n: 00, e: 010001".to_string()));
    assert_eq!(session.outcome(), Some(Err(TokenError::MalformedResponse)));
    let session = exported(export_session(), TokenEvent::KeyExported(KEY_UPPER[..63].to_string()));
    assert_eq!(session.outcome(), Some(Err(TokenError::MalformedResponse)));
}

#[test]
fn missing_key_fails_the_session() {
    let session = exported(export_session(), TokenEvent::KeyMissing);
    assert_eq!(session.outcome(), Some(Err(TokenError::MalformedResponse)));
    match token_public_key(&session) {
        Some(Err(error)) => assert_eq!(error, TokenError::MalformedResponse),
        _ => panic!("a public key without an answer"),
    }
}

#[test]
fn decipher_answer_must_have_32_bytes() {
    let answer: Vec<u8> = (1u8..=32).collect();
    let mut expected = [0u8; 32];
    expected.copy_from_slice(&answer);
    assert_eq!(key_from_response(&answer), Ok(expected));
    assert_eq!(key_from_response(&answer[..31]), Err(TokenError::MalformedResponse));
    assert_eq!(key_from_response(&[]), Err(TokenError::MalformedResponse));
    let mut longer = answer.clone();
    longer.push(33);
    assert_eq!(key_from_response(&longer), Err(TokenError::MalformedResponse));
}

#[test]
fn decoding_agrees_with_the_hex_library() {
    let alphabet = b"0123456789abcdefABCDEFgG/:@`x ";
    let mut state: u32 = 0x2545_f491;
    for round in 0..400 {
        let mut text = Vec::new();
        let len = if round % 5 == 0 { 60 + round % 9 } else { 64 };
        for _ in 0..len {
            state = state.wrapping_mul(1_664_525).wrapping_add(1_013_904_223);
            // Mostly digits, now and then something else.
            let pick = (state >> 24) as usize;
            let index = if pick % 16 == 0 { pick % alphabet.len() } else { pick % 22 };
            text.push(alphabet[index]);
        }
        let mut expected = [0u8; 32];
        let decoded = hex::decode_to_slice(&text, &mut expected).ok().map(|_| expected);
        assert_eq!(trailing_key(&text), if text.len() >= 64 {
            let mut last = [0u8; 32];
            hex::decode_to_slice(&text[text.len() - 64..], &mut last).ok().map(|_| last)
        } else {
            None
        });
        if text.len() == 64 {
            assert_eq!(trailing_key(&text), decoded);
        }
    }
}

#[test]
fn digits_have_their_values() {
    for c in 0..=255u8 {
        let expected = (c as char).to_digit(16).map(|v| v as u8);
        assert_eq!(hex_value(c), expected);
    }
}
