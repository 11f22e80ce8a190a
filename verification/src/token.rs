//! One operation on a hardware token, as a sequence of commands and answers.
//!
//! A session knows what has to be asked of the token next and what each answer
//! leads to. It talks to no device itself: the caller carries out the pending
//! command (`TokenSession::pending`) and reports what happened
//! (`TokenSession::step`), until the session has finished.
//!
//! The order is fixed. The tokens are enumerated and the first one that can be
//! reached is taken, whichever token it is. A session is opened on it. For a
//! decipherment the cached unlock code is submitted, and only where the token
//! accepts it is the decipherment asked for: a rejected code ends the operation
//! with no command sent after it. An export asks for the key without unlocking.
//! An open session is closed before the operation ends, whatever the token
//! answered, and only then is the outcome final. Every failure ends the
//! operation; nothing is tried twice and no result is made up.

use vstd::prelude::*;
use vstd::utf8::encode_utf8;
use crate::hexkey::{
    ends_in_key, hex_decoded, hex_digit_value, is_hex_digit, key_digits, trailing_key,
};
use crate::keys::PublicKey;

verus! {

/// Why an operation on a token gave no key material.
#[derive(Clone, Copy, Debug, PartialEq, Eq, Structural)]
pub enum TokenError {
    /// The smartcard service could not list its tokens.
    ServiceUnavailable,
    /// The enumeration brought no token that can be reached.
    NoToken,
    /// The token did not answer as a card of the expected kind.
    CardRefused,
    /// The token did not let a session be opened.
    SessionRefused,
    /// The token did not accept the unlock code.
    UnlockRejected,
    /// The token did not carry out the decipherment.
    CommandFailed,
    /// The token's answer has the wrong shape: not 32 bytes, no key, or no 64
    /// hexadecimal digits at its end.
    MalformedResponse,
    /// What was reported does not answer the pending command.
    UnexpectedEvent,
}

/// The words in which each failure is reported.
pub open spec fn error_text(error: TokenError) -> Seq<char> {
    match error {
        TokenError::ServiceUnavailable => "Failed to get backends"@,
        TokenError::NoToken => "No valid card found"@,
        TokenError::CardRefused => "Card creation failed"@,
        TokenError::SessionRefused => "Transaction creation failed"@,
        TokenError::UnlockRejected => "User PIN verification failed"@,
        TokenError::CommandFailed => "Diffie-Hellman failed"@,
        TokenError::MalformedResponse => "Failed to decode the card's answer"@,
        TokenError::UnexpectedEvent => "Unexpected answer from the card"@,
    }
}

impl TokenError {
    /// The failure in words, for whoever has to give up on the handshake.
    pub fn message(&self) -> (text: String)
        ensures
            text@ == error_text(*self),
    {
        match self {
            TokenError::ServiceUnavailable => "Failed to get backends".to_owned(),
            TokenError::NoToken => "No valid card found".to_owned(),
            TokenError::CardRefused => "Card creation failed".to_owned(),
            TokenError::SessionRefused => "Transaction creation failed".to_owned(),
            TokenError::UnlockRejected => "User PIN verification failed".to_owned(),
            TokenError::CommandFailed => "Diffie-Hellman failed".to_owned(),
            TokenError::MalformedResponse => "Failed to decode the card's answer".to_owned(),
            TokenError::UnexpectedEvent => "Unexpected answer from the card".to_owned(),
        }
    }
}

/// What a session is for.
#[derive(Clone, Copy, Debug)]
pub enum TokenOperation {
    /// The token's half of a key agreement with the peer whose public key this is.
    Decipher(PublicKey),
    /// The public key of the token's decryption key.
    ExportPublicKey,
}

/// A command for the caller to carry out.
#[derive(Clone, Copy, Debug)]
pub enum TokenAction {
    /// List the tokens that the smartcard service knows of, and tell of each
    /// whether it can be reached.
    Enumerate,
    /// Take up the token at this place of the list as a card, and open a session
    /// on it, exclusive until it is closed.
    OpenSession(usize),
    /// Submit the session's unlock code (`TokenSession::credential`) as the user PIN.
    Unlock,
    /// Ask for the decipherment of this public key.
    Decipher(PublicKey),
    /// Ask for the public key of the decryption key, as text.
    ExportPublicKey,
    /// Close the session on the token.
    CloseSession,
    /// Nothing is left to do: the outcome is final.
    Stop,
}

/// What the caller reports after carrying out a command.
#[derive(Debug)]
pub enum TokenEvent {
    /// The smartcard service could not be asked for its tokens.
    ServiceUnavailable,
    /// The tokens that the service listed, in its order: for each, whether it
    /// can be reached.
    Enumerated(Vec<bool>),
    /// The session is open.
    SessionOpened,
    /// The token could not be taken up as a card.
    CardRefused,
    /// The token refused the session.
    SessionRefused,
    /// The token accepted the unlock code.
    UnlockAccepted,
    /// The token did not accept the unlock code.
    UnlockRejected,
    /// The token's answer to the decipherment.
    Deciphered(Vec<u8>),
    /// The token did not carry out the decipherment.
    CommandFailed,
    /// The token's answer to the export, as text.
    KeyExported(String),
    /// The token reported no decryption key.
    KeyMissing,
    /// The session on the token is closed.
    SessionClosed,
}

/// An event with its payload as plain bytes; text as its UTF-8 encoding.
pub enum TokenEventView {
    ServiceUnavailable,
    Enumerated(Seq<bool>),
    SessionOpened,
    CardRefused,
    SessionRefused,
    UnlockAccepted,
    UnlockRejected,
    Deciphered(Seq<u8>),
    CommandFailed,
    KeyExported(Seq<u8>),
    KeyMissing,
    SessionClosed,
}

impl View for TokenEvent {
    type V = TokenEventView;

    open spec fn view(&self) -> TokenEventView {
        match self {
            TokenEvent::ServiceUnavailable => TokenEventView::ServiceUnavailable,
            TokenEvent::Enumerated(tokens) => TokenEventView::Enumerated(tokens@),
            TokenEvent::SessionOpened => TokenEventView::SessionOpened,
            TokenEvent::CardRefused => TokenEventView::CardRefused,
            TokenEvent::SessionRefused => TokenEventView::SessionRefused,
            TokenEvent::UnlockAccepted => TokenEventView::UnlockAccepted,
            TokenEvent::UnlockRejected => TokenEventView::UnlockRejected,
            TokenEvent::Deciphered(bytes) => TokenEventView::Deciphered(bytes@),
            TokenEvent::CommandFailed => TokenEventView::CommandFailed,
            TokenEvent::KeyExported(text) => TokenEventView::KeyExported(encode_utf8(text@)),
            TokenEvent::KeyMissing => TokenEventView::KeyMissing,
            TokenEvent::SessionClosed => TokenEventView::SessionClosed,
        }
    }
}

/// Where a session stands.
#[derive(Clone, Copy, Debug)]
pub enum Phase {
    /// The tokens are being enumerated.
    Enumerating(TokenOperation),
    /// A token was found at this place of the list; a session on it is being
    /// opened.
    Opening(TokenOperation, usize),
    /// The session is open; the unlock code is being submitted.
    Unlocking(PublicKey),
    /// The unlock code was submitted; the decipherment is being asked for.
    Deciphering(PublicKey),
    /// The session is open; the public key is being asked for.
    Exporting,
    /// The token has answered; the session is being closed.
    Closing(Result<[u8; 32], TokenError>),
    /// Nothing is left to do.
    Finished(Result<[u8; 32], TokenError>),
}

/// A phase with its key material as a sequence of bytes.
pub enum PhaseView {
    Enumerating(TokenOperation),
    Opening(TokenOperation, usize),
    Unlocking(PublicKey),
    Deciphering(PublicKey),
    Exporting,
    Closing(Result<Seq<u8>, TokenError>),
    Finished(Result<Seq<u8>, TokenError>),
}

/// An outcome with its key material as a sequence of bytes.
pub open spec fn outcome_view(
    outcome: Result<[u8; 32], TokenError>,
) -> Result<Seq<u8>, TokenError> {
    match outcome {
        Ok(key) => Ok(key@),
        Err(error) => Err(error),
    }
}

impl View for Phase {
    type V = PhaseView;

    open spec fn view(&self) -> PhaseView {
        match self {
            Phase::Enumerating(operation) => PhaseView::Enumerating(*operation),
            Phase::Opening(operation, place) => PhaseView::Opening(*operation, *place),
            Phase::Unlocking(peer) => PhaseView::Unlocking(*peer),
            Phase::Deciphering(peer) => PhaseView::Deciphering(*peer),
            Phase::Exporting => PhaseView::Exporting,
            Phase::Closing(outcome) => PhaseView::Closing(outcome_view(*outcome)),
            Phase::Finished(outcome) => PhaseView::Finished(outcome_view(*outcome)),
        }
    }
}

/// No token of the list can be reached; an empty list is such a list.
pub open spec fn none_reachable(tokens: Seq<bool>) -> bool {
    forall|j: int| 0 <= j < tokens.len() ==> !tokens[j]
}

/// The token at `place` can be reached and none before it can.
pub open spec fn is_first_reachable(tokens: Seq<bool>, place: int) -> bool {
    &&& 0 <= place < tokens.len()
    &&& tokens[place]
    &&& forall|j: int| 0 <= j < place ==> !tokens[j]
}

/// The place of the first token of the list that can be reached, if there is one.
pub open spec fn first_reachable_of(tokens: Seq<bool>) -> Option<int> {
    if none_reachable(tokens) {
        None
    } else {
        Some(choose|place: int| is_first_reachable(tokens, place))
    }
}

/// What a decipherment's answer amounts to: the answer itself where it has
/// exactly 32 bytes, a decode error otherwise.
pub open spec fn deciphered_outcome(response: Seq<u8>) -> Result<Seq<u8>, TokenError> {
    if response.len() == 32 {
        Ok(response)
    } else {
        Err(TokenError::MalformedResponse)
    }
}

/// What an export's answer amounts to: the key that its last 64 bytes spell in
/// hexadecimal, a decode error where they spell none.
pub open spec fn exported_outcome(response: Seq<u8>) -> Result<Seq<u8>, TokenError> {
    if ends_in_key(response) {
        Ok(hex_decoded(key_digits(response)))
    } else {
        Err(TokenError::MalformedResponse)
    }
}

/// Whether a session is open on the token in this phase.
pub open spec fn session_open(phase: PhaseView) -> bool {
    phase is Unlocking || phase is Deciphering || phase is Exporting || phase is Closing
}

/// Where an event that does not answer the pending command leads: to the end,
/// by way of closing the session where the token has yet to answer in it.
pub open spec fn after_unexpected(phase: PhaseView) -> PhaseView {
    if phase is Unlocking || phase is Deciphering || phase is Exporting {
        PhaseView::Closing(Err(TokenError::UnexpectedEvent))
    } else {
        PhaseView::Finished(Err(TokenError::UnexpectedEvent))
    }
}

/// The phase that follows `phase` once `event` has been reported. (A list of
/// tokens that a program can hold has no place beyond `usize`.)
pub open spec fn next_phase(phase: PhaseView, event: TokenEventView) -> PhaseView {
    match phase {
        PhaseView::Enumerating(operation) => match event {
            TokenEventView::Enumerated(tokens) => match first_reachable_of(tokens) {
                Some(place) => PhaseView::Opening(operation, place as usize),
                None => PhaseView::Finished(Err(TokenError::NoToken)),
            },
            TokenEventView::ServiceUnavailable => PhaseView::Finished(
                Err(TokenError::ServiceUnavailable),
            ),
            _ => after_unexpected(phase),
        },
        PhaseView::Opening(operation, _) => match event {
            TokenEventView::SessionOpened => match operation {
                TokenOperation::Decipher(peer) => PhaseView::Unlocking(peer),
                TokenOperation::ExportPublicKey => PhaseView::Exporting,
            },
            TokenEventView::CardRefused => PhaseView::Finished(Err(TokenError::CardRefused)),
            TokenEventView::SessionRefused => PhaseView::Finished(Err(TokenError::SessionRefused)),
            _ => after_unexpected(phase),
        },
        PhaseView::Unlocking(peer) => match event {
            TokenEventView::UnlockAccepted => PhaseView::Deciphering(peer),
            TokenEventView::UnlockRejected => PhaseView::Closing(Err(TokenError::UnlockRejected)),
            _ => after_unexpected(phase),
        },
        PhaseView::Deciphering(_) => match event {
            TokenEventView::Deciphered(response) => PhaseView::Closing(
                deciphered_outcome(response),
            ),
            TokenEventView::CommandFailed => PhaseView::Closing(Err(TokenError::CommandFailed)),
            _ => after_unexpected(phase),
        },
        PhaseView::Exporting => match event {
            TokenEventView::KeyExported(response) => PhaseView::Closing(exported_outcome(response)),
            TokenEventView::KeyMissing => PhaseView::Closing(Err(TokenError::MalformedResponse)),
            _ => after_unexpected(phase),
        },
        PhaseView::Closing(outcome) => match event {
            TokenEventView::SessionClosed => PhaseView::Finished(outcome),
            _ => after_unexpected(phase),
        },
        PhaseView::Finished(_) => phase,
    }
}

/// The command that is pending in `phase`.
pub open spec fn pending_action(phase: PhaseView) -> TokenAction {
    match phase {
        PhaseView::Enumerating(_) => TokenAction::Enumerate,
        PhaseView::Opening(_, place) => TokenAction::OpenSession(place),
        PhaseView::Unlocking(_) => TokenAction::Unlock,
        PhaseView::Deciphering(peer) => TokenAction::Decipher(peer),
        PhaseView::Exporting => TokenAction::ExportPublicKey,
        PhaseView::Closing(_) => TokenAction::CloseSession,
        PhaseView::Finished(_) => TokenAction::Stop,
    }
}

/// Before a token that can be reached there is a first one.
proof fn lemma_some_token_is_first(tokens: Seq<bool>, place: int)
    requires
        0 <= place < tokens.len(),
        tokens[place],
    ensures
        exists|first: int| is_first_reachable(tokens, first),
    decreases place,
{
    if exists|j: int| 0 <= j < place && tokens[j] {
        let j = choose|j: int| 0 <= j < place && tokens[j];
        lemma_some_token_is_first(tokens, j);
    } else {
        assert(is_first_reachable(tokens, place));
    }
}

/// What `first_reachable_of` gives is the first place that can be reached, and
/// there is no other first place; it gives none exactly where no place can be
/// reached.
pub proof fn lemma_first_reachable(tokens: Seq<bool>)
    ensures
        match first_reachable_of(tokens) {
            Some(place) => is_first_reachable(tokens, place),
            None => none_reachable(tokens),
        },
        forall|place: int|
            is_first_reachable(tokens, place) ==> first_reachable_of(tokens) == Some(place),
{
    if !none_reachable(tokens) {
        let j = choose|j: int| 0 <= j < tokens.len() && tokens[j];
        lemma_some_token_is_first(tokens, j);
    }
}

/// Picks the token to work with: the first of the list that can be reached.
pub fn first_reachable(tokens: &[bool]) -> (place: Option<usize>)
    ensures
        match place {
            Some(i) => first_reachable_of(tokens@) == Some(i as int) && is_first_reachable(
                tokens@,
                i as int,
            ),
            None => first_reachable_of(tokens@) is None && none_reachable(tokens@),
        },
{
    let mut i: usize = 0;
    while i < tokens.len()
        invariant
            i <= tokens@.len(),
            forall|j: int| 0 <= j < i ==> !tokens@[j],
        decreases tokens@.len() - i,
    {
        if tokens[i] {
            proof {
                lemma_first_reachable(tokens@);
            }
            return Some(i);
        }
        i += 1;
    }
    proof {
        lemma_first_reachable(tokens@);
    }
    None
}

/// The 32 bytes of a decipherment's answer, where it has exactly 32.
pub fn key_from_response(response: &[u8]) -> (key: Result<[u8; 32], TokenError>)
    ensures
        outcome_view(key) == deciphered_outcome(response@),
{
    if response.len() != 32 {
        return Err(TokenError::MalformedResponse);
    }
    let mut key = [0u8; 32];
    let mut i: usize = 0;
    while i < 32
        invariant
            i <= 32,
            response@.len() == 32,
            forall|j: int| 0 <= j < i ==> key@[j] == response@[j],
        decreases 32 - i,
    {
        key[i] = response[i];
        i += 1;
    }
    assert(key@ =~= response@);
    Ok(key)
}

/// The key that an export's answer ends in.
pub fn key_from_export(response: &str) -> (key: Result<[u8; 32], TokenError>)
    ensures
        outcome_view(key) == exported_outcome(encode_utf8(response@)),
{
    match trailing_key(response.as_bytes()) {
        Some(key) => Ok(key),
        None => Err(TokenError::MalformedResponse),
    }
}

/// The state of one operation on a token.
#[derive(Debug)]
pub struct TokenSession {
    phase: Phase,
    pin: String,
}

/// A session as the contracts see it.
pub struct TokenSessionView {
    /// Where the session stands.
    pub phase: PhaseView,
    /// The unlock code that the session submits.
    pub credential: Seq<char>,
}

impl View for TokenSession {
    type V = TokenSessionView;

    closed spec fn view(&self) -> TokenSessionView {
        TokenSessionView { phase: self.phase@, credential: self.pin@ }
    }
}

impl TokenSession {
    /// A session that has yet to enumerate the tokens.
    pub fn new(operation: TokenOperation, pin: String) -> (session: TokenSession)
        ensures
            session@.phase == PhaseView::Enumerating(operation),
            session@.credential == pin@,
    {
        TokenSession { phase: Phase::Enumerating(operation), pin }
    }

    /// Where the session stands.
    pub fn phase(&self) -> (phase: Phase)
        ensures
            phase@ == self@.phase,
    {
        self.phase
    }

    /// The unlock code to submit on `TokenAction::Unlock`.
    pub fn credential(&self) -> (pin: &str)
        ensures
            pin@ == self@.credential,
    {
        self.pin.as_str()
    }

    /// The command that the caller has to carry out now.
    pub fn pending(&self) -> (action: TokenAction)
        ensures
            action == pending_action(self@.phase),
    {
        match self.phase {
            Phase::Enumerating(_) => TokenAction::Enumerate,
            Phase::Opening(_, place) => TokenAction::OpenSession(place),
            Phase::Unlocking(_) => TokenAction::Unlock,
            Phase::Deciphering(peer) => TokenAction::Decipher(peer),
            Phase::Exporting => TokenAction::ExportPublicKey,
            Phase::Closing(_) => TokenAction::CloseSession,
            Phase::Finished(_) => TokenAction::Stop,
        }
    }

    /// The outcome, once the session has finished.
    pub fn outcome(&self) -> (outcome: Option<Result<[u8; 32], TokenError>>)
        ensures
            match self@.phase {
                PhaseView::Finished(result) => outcome matches Some(o) && outcome_view(o) == result,
                _ => outcome is None,
            },
    {
        match self.phase {
            Phase::Finished(result) => Some(result),
            _ => None,
        }
    }

    /// Takes in what the caller reports of the pending command.
    pub fn step(self, event: TokenEvent) -> (next: TokenSession)
        ensures
            next@.phase == next_phase(self@.phase, event@),
            next@.credential == self@.credential,
    {
        let answering = match self.phase {
            Phase::Unlocking(_) | Phase::Deciphering(_) | Phase::Exporting => true,
            _ => false,
        };
        let unexpected = if answering {
            Phase::Closing(Err(TokenError::UnexpectedEvent))
        } else {
            Phase::Finished(Err(TokenError::UnexpectedEvent))
        };
        let phase = match self.phase {
            Phase::Enumerating(operation) => match event {
                TokenEvent::Enumerated(tokens) => match first_reachable(tokens.as_slice()) {
                    Some(place) => Phase::Opening(operation, place),
                    None => Phase::Finished(Err(TokenError::NoToken)),
                },
                TokenEvent::ServiceUnavailable => Phase::Finished(
                    Err(TokenError::ServiceUnavailable),
                ),
                _ => unexpected,
            },
            Phase::Opening(operation, _) => match event {
                TokenEvent::SessionOpened => match operation {
                    TokenOperation::Decipher(peer) => Phase::Unlocking(peer),
                    TokenOperation::ExportPublicKey => Phase::Exporting,
                },
                TokenEvent::CardRefused => Phase::Finished(Err(TokenError::CardRefused)),
                TokenEvent::SessionRefused => Phase::Finished(Err(TokenError::SessionRefused)),
                _ => unexpected,
            },
            Phase::Unlocking(peer) => match event {
                TokenEvent::UnlockAccepted => Phase::Deciphering(peer),
                TokenEvent::UnlockRejected => Phase::Closing(Err(TokenError::UnlockRejected)),
                _ => unexpected,
            },
            Phase::Deciphering(_) => match event {
                TokenEvent::Deciphered(response) => Phase::Closing(
                    key_from_response(response.as_slice()),
                ),
                TokenEvent::CommandFailed => Phase::Closing(Err(TokenError::CommandFailed)),
                _ => unexpected,
            },
            Phase::Exporting => match event {
                TokenEvent::KeyExported(response) => Phase::Closing(
                    key_from_export(response.as_str()),
                ),
                TokenEvent::KeyMissing => Phase::Closing(Err(TokenError::MalformedResponse)),
                _ => unexpected,
            },
            Phase::Closing(outcome) => match event {
                TokenEvent::SessionClosed => Phase::Finished(outcome),
                _ => unexpected,
            },
            Phase::Finished(outcome) => Phase::Finished(outcome),
        };
        TokenSession { phase, pin: self.pin }
    }
}

/// The phase reached from `phase` once the events of `events` have been
/// reported, in their order.
pub open spec fn run(phase: PhaseView, events: Seq<TokenEventView>) -> PhaseView
    decreases events.len(),
{
    if events.len() == 0 {
        phase
    } else {
        run(next_phase(phase, events[0]), events.drop_first())
    }
}

/// How many reports a session in `phase` can still take in before it has
/// finished.
pub open spec fn steps_left(phase: PhaseView) -> nat {
    match phase {
        PhaseView::Enumerating(_) => 5,
        PhaseView::Opening(_, _) => 4,
        PhaseView::Unlocking(_) => 3,
        PhaseView::Deciphering(_) => 2,
        PhaseView::Exporting => 2,
        PhaseView::Closing(_) => 1,
        PhaseView::Finished(_) => 0,
    }
}

/// Whether `event` is the token's answer that gives `key` for `operation`: for a
/// decipherment the 32 bytes themselves, for an export a text whose last 64
/// bytes spell the key.
pub open spec fn answers(operation: TokenOperation, event: TokenEventView, key: Seq<u8>) -> bool {
    match operation {
        TokenOperation::Decipher(_) => event == TokenEventView::Deciphered(key) && key.len() == 32,
        TokenOperation::ExportPublicKey => event matches TokenEventView::KeyExported(response)
            && exported_outcome(response) == Ok::<Seq<u8>, TokenError>(key),
    }
}

/// Whether a session for `operation` can be in `phase` before the token has
/// answered.
pub open spec fn serves(phase: PhaseView, operation: TokenOperation) -> bool {
    match phase {
        PhaseView::Enumerating(o) => o == operation,
        PhaseView::Opening(o, _) => o == operation,
        PhaseView::Unlocking(peer) => operation == TokenOperation::Decipher(peer),
        PhaseView::Deciphering(peer) => operation == TokenOperation::Decipher(peer),
        PhaseView::Exporting => operation == TokenOperation::ExportPublicKey,
        PhaseView::Closing(_) => false,
        PhaseView::Finished(_) => false,
    }
}

/// A finished session stays as it is, whatever is reported to it.
pub proof fn lemma_finished_is_final(outcome: Result<Seq<u8>, TokenError>, events: Seq<TokenEventView>)
    ensures
        run(PhaseView::Finished(outcome), events) == PhaseView::Finished(outcome),
    decreases events.len(),
{
    if events.len() > 0 {
        lemma_finished_is_final(outcome, events.drop_first());
    }
}

/// Where the enumeration brings no token that can be reached, the operation
/// has failed for good: its outcome is that failure, whatever the operation was
/// and whatever is reported afterwards. No key material comes out of it.
pub proof fn lemma_no_token_is_fatal(
    operation: TokenOperation,
    tokens: Seq<bool>,
    later: Seq<TokenEventView>,
)
    requires
        none_reachable(tokens),
    ensures
        next_phase(PhaseView::Enumerating(operation), TokenEventView::Enumerated(tokens))
            == PhaseView::Finished(Err(TokenError::NoToken)),
        run(PhaseView::Enumerating(operation), seq![TokenEventView::Enumerated(tokens)] + later)
            == PhaseView::Finished(Err(TokenError::NoToken)),
{
    lemma_first_reachable(tokens);
    let events = seq![TokenEventView::Enumerated(tokens)] + later;
    assert(events[0] == TokenEventView::Enumerated(tokens));
    assert(events.drop_first() =~= later);
    lemma_finished_is_final(Err(TokenError::NoToken), later);
}

/// The first token that can be reached is the one that is worked with, whatever
/// stands behind it in the list.
pub proof fn lemma_first_token_wins(operation: TokenOperation, tokens: Seq<bool>, place: usize)
    requires
        is_first_reachable(tokens, place as int),
    ensures
        next_phase(PhaseView::Enumerating(operation), TokenEventView::Enumerated(tokens))
            == PhaseView::Opening(operation, place),
        pending_action(PhaseView::Opening(operation, place)) == TokenAction::OpenSession(place),
{
    lemma_first_reachable(tokens);
}

/// Every report brings an unfinished session closer to its end.
pub proof fn lemma_step_makes_progress(phase: PhaseView, event: TokenEventView)
    requires
        !(phase is Finished),
    ensures
        steps_left(next_phase(phase, event)) < steps_left(phase),
{
}

/// A session has finished once as many reports as it had steps left have been
/// taken in: five at most from its start.
pub proof fn lemma_session_ends(phase: PhaseView, events: Seq<TokenEventView>)
    requires
        events.len() >= steps_left(phase),
    ensures
        run(phase, events) is Finished,
    decreases events.len(),
{
    if events.len() == 0 {
    } else if phase is Finished {
        lemma_finished_is_final(phase->Finished_0, events);
    } else {
        lemma_step_makes_progress(phase, events[0]);
        lemma_session_ends(next_phase(phase, events[0]), events.drop_first());
    }
}

/// A session that is open on the token is closed before the operation ends: the
/// only phase with an open session that leads to the end is the one whose
/// pending command is to close it. This holds on success, on a decode error and
/// on a failed command alike.
pub proof fn lemma_open_session_is_closed(phase: PhaseView, event: TokenEventView)
    requires
        session_open(phase),
        next_phase(phase, event) is Finished,
    ensures
        phase is Closing,
        pending_action(phase) is CloseSession,
{
}

/// The decipherment is asked for only after the token has accepted the unlock
/// code: no other phase and no other report lead to it.
pub proof fn lemma_decipher_follows_unlock(phase: PhaseView, event: TokenEventView, peer: PublicKey)
    ensures
        next_phase(phase, event) is Deciphering ==> phase is Unlocking
            && pending_action(phase) is Unlock && event is UnlockAccepted,
        next_phase(PhaseView::Unlocking(peer), TokenEventView::UnlockAccepted)
            == PhaseView::Deciphering(peer),
{
}

/// A session that is closing with a failure never asks for anything but the
/// closing, and ends with a failure.
pub proof fn lemma_failure_stays(error: TokenError, later: Seq<TokenEventView>)
    ensures
        match run(PhaseView::Closing(Err(error)), later) {
            PhaseView::Closing(outcome) => later.len() == 0 && outcome == Err::<
                Seq<u8>,
                TokenError,
            >(error),
            PhaseView::Finished(outcome) => later.len() > 0 && outcome is Err && (later[0]
                == TokenEventView::SessionClosed ==> outcome == Err::<Seq<u8>, TokenError>(error)),
            _ => false,
        },
    decreases later.len(),
{
    if later.len() > 0 {
        let next = next_phase(PhaseView::Closing(Err(error)), later[0]);
        lemma_finished_is_final(next->Finished_0, later.drop_first());
    }
}

/// A rejected unlock code ends the operation. The session is closed and the
/// outcome is that failure; whatever is reported afterwards, no decipherment is
/// ever asked for and no key material comes out.
pub proof fn lemma_rejected_unlock_is_fatal(peer: PublicKey, later: Seq<TokenEventView>)
    ensures
        next_phase(PhaseView::Unlocking(peer), TokenEventView::UnlockRejected)
            == PhaseView::Closing(Err(TokenError::UnlockRejected)),
        pending_action(PhaseView::Closing(Err(TokenError::UnlockRejected))) is CloseSession,
        !(pending_action(
            run(PhaseView::Unlocking(peer), seq![TokenEventView::UnlockRejected] + later),
        ) is Decipher),
        match run(PhaseView::Unlocking(peer), seq![TokenEventView::UnlockRejected] + later) {
            PhaseView::Closing(outcome) => outcome == Err::<Seq<u8>, TokenError>(
                TokenError::UnlockRejected,
            ),
            PhaseView::Finished(outcome) => outcome is Err && (later[0]
                == TokenEventView::SessionClosed ==> outcome == Err::<Seq<u8>, TokenError>(
                TokenError::UnlockRejected,
            )),
            _ => false,
        },
{
    let events = seq![TokenEventView::UnlockRejected] + later;
    assert(events[0] == TokenEventView::UnlockRejected);
    assert(events.drop_first() =~= later);
    lemma_failure_stays(TokenError::UnlockRejected, later);
}

/// Once the token has answered, the outcome can only get worse: a session that
/// is closing with one outcome does not finish with other key material.
pub proof fn lemma_closing_keeps_outcome(
    outcome: Result<Seq<u8>, TokenError>,
    events: Seq<TokenEventView>,
    key: Seq<u8>,
)
    requires
        run(PhaseView::Closing(outcome), events) == PhaseView::Finished(
            Ok::<Seq<u8>, TokenError>(key),
        ),
    ensures
        outcome == Ok::<Seq<u8>, TokenError>(key),
    decreases events.len(),
{
    if events.len() > 0 {
        let next = next_phase(PhaseView::Closing(outcome), events[0]);
        lemma_finished_is_final(next->Finished_0, events.drop_first());
    }
}

/// Key material is never made up: where a session, from whatever phase before
/// the token's answer, finishes with a key, one of the reports was the token's
/// answer that gives this key.
pub proof fn lemma_key_comes_from_token(
    phase: PhaseView,
    operation: TokenOperation,
    events: Seq<TokenEventView>,
    key: Seq<u8>,
)
    requires
        serves(phase, operation),
        run(phase, events) == PhaseView::Finished(Ok::<Seq<u8>, TokenError>(key)),
    ensures
        exists|i: int| 0 <= i < events.len() && answers(operation, #[trigger] events[i], key),
    decreases events.len(),
{
    if events.len() == 0 {
    } else {
        let next = next_phase(phase, events[0]);
        let rest = events.drop_first();
        if serves(next, operation) {
            lemma_key_comes_from_token(next, operation, rest, key);
            let i = choose|i: int| 0 <= i < rest.len() && answers(operation, #[trigger] rest[i], key);
            assert(events[i + 1] == rest[i]);
        } else if next is Finished {
            lemma_finished_is_final(next->Finished_0, rest);
        } else {
            lemma_closing_keeps_outcome(next->Closing_0, rest, key);
            assert(answers(operation, events[0], key));
        }
    }
}

/// An answer to the export gives a key only through 64 hexadecimal digits at
/// its end: where it is shorter than 64 bytes, or where any of its last 64 bytes
/// is something else, the outcome is a decode error, and where it gives a key,
/// the key has 32 bytes, each spelled by two of the digits.
pub proof fn lemma_export_needs_64_digits(response: Seq<u8>, i: int)
    ensures
        response.len() < 64 ==> exported_outcome(response) == Err::<Seq<u8>, TokenError>(
            TokenError::MalformedResponse,
        ),
        response.len() - 64 <= i < response.len() && !is_hex_digit(response[i])
            ==> exported_outcome(response) == Err::<Seq<u8>, TokenError>(
            TokenError::MalformedResponse,
        ),
        exported_outcome(response) matches Ok(key) ==> key.len() == 32 && response.len() >= 64
            && (0 <= i < 32 ==> key[i] == 16 * hex_digit_value(response[response.len() - 64 + 2 * i])
            + hex_digit_value(response[response.len() - 64 + 2 * i + 1])),
{
    if response.len() >= 64 && response.len() - 64 <= i < response.len() && !is_hex_digit(
        response[i],
    ) {
        assert(key_digits(response)[i - (response.len() - 64)] == response[i]);
    }
    if ends_in_key(response) && 0 <= i < 32 {
        let digits = key_digits(response);
        assert(is_hex_digit(digits[2 * i]));
        assert(is_hex_digit(digits[2 * i + 1]));
    }
}

} // verus!
