//! The unlock code of the token, asked for once and kept for later handshakes.
//!
//! The cache is a plain value. Whoever owns it decides how it is shared: a
//! program keeps one behind a lock and holds the lock only while it calls one of
//! the functions below, none of which waits for anything.
//!
//! Policy on priming twice: the first entry stays. Once a code has been stored,
//! priming asks for nothing and storing changes nothing, whether or not a token
//! is still connected.

use vstd::prelude::*;
use crate::token::{first_reachable, none_reachable};

verus! {

/// What priming has to do next.
#[derive(Clone, Copy, Debug, PartialEq, Eq, Structural)]
pub enum PrimeAction {
    /// Ask the user for the unlock code, without echo, and store what was entered.
    Prompt,
    /// Ask nothing.
    Skip,
}

/// The slot for the unlock code: empty until the first entry is stored.
#[derive(Clone, Debug)]
pub struct CredentialCache {
    pin: Option<String>,
}

impl View for CredentialCache {
    type V = Option<Seq<char>>;

    closed spec fn view(&self) -> Option<Seq<char>> {
        match self.pin {
            Some(pin) => Some(pin@),
            None => None,
        }
    }
}

/// What priming does on a slot, given whether a token answered the enumeration:
/// it prompts only where a token is there and nothing has been stored yet.
pub open spec fn prime_action(slot: Option<Seq<char>>, token_present: bool) -> PrimeAction {
    if token_present && slot is None {
        PrimeAction::Prompt
    } else {
        PrimeAction::Skip
    }
}

/// The slot after an entry is handed to it: the entry where the slot was empty,
/// the slot as it was otherwise.
pub open spec fn stored(slot: Option<Seq<char>>, entry: Seq<char>) -> Option<Seq<char>> {
    match slot {
        Some(_) => slot,
        None => Some(entry),
    }
}

/// What a reader of the slot gets: the stored code, or the empty string.
pub open spec fn credential_of(slot: Option<Seq<char>>) -> Seq<char> {
    match slot {
        Some(pin) => pin,
        None => Seq::empty(),
    }
}

impl CredentialCache {
    /// An empty slot.
    pub fn new() -> (cache: CredentialCache)
        ensures
            cache@ is None,
    {
        CredentialCache { pin: None }
    }

    /// Whether an entry has been stored.
    pub fn is_primed(&self) -> (primed: bool)
        ensures
            primed <==> self@ is Some,
    {
        self.pin.is_some()
    }

    /// Decides whether the user has to be asked, once the tokens have been
    /// enumerated: `tokens` tells of each listed token whether it can be reached.
    pub fn prime(&self, tokens: &[bool]) -> (action: PrimeAction)
        ensures
            action == prime_action(self@, !none_reachable(tokens@)),
    {
        if first_reachable(tokens).is_some() && self.pin.is_none() {
            PrimeAction::Prompt
        } else {
            PrimeAction::Skip
        }
    }
}

/// Stores what the user entered. The first entry stays: on a slot that holds one
/// this changes nothing.
pub fn set_user_pin(cache: &mut CredentialCache, pin: String)
    ensures
        final(cache)@ == stored(old(cache)@, pin@),
{
    if cache.pin.is_none() {
        cache.pin = Some(pin);
    }
}

/// Reads the unlock code: the stored entry, or the empty string where none was
/// stored (with which no token will unlock).
pub fn get_user_pin(cache: &CredentialCache) -> (pin: String)
    ensures
        pin@ == credential_of(cache@),
{
    match &cache.pin {
        Some(pin) => pin.clone(),
        None => String::new(),
    }
}

/// Priming twice asks once: after an entry has been stored, priming asks for
/// nothing, whether or not a token is connected, and a second entry leaves the
/// stored code as it was.
pub proof fn lemma_second_prime_is_silent(
    slot: Option<Seq<char>>,
    first: Seq<char>,
    second: Seq<char>,
    token_present: bool,
)
    ensures
        prime_action(stored(slot, first), token_present) == PrimeAction::Skip,
        stored(stored(slot, first), second) == stored(slot, first),
        credential_of(stored(stored(slot, first), second)) == credential_of(stored(slot, first)),
{
}

/// The first prime with a token connected asks, and what was entered is what
/// readers get from then on.
pub proof fn lemma_first_prime_stores(entry: Seq<char>)
    ensures
        prime_action(None, true) == PrimeAction::Prompt,
        prime_action(None, false) == PrimeAction::Skip,
        credential_of(stored(None, entry)) == entry,
        credential_of(None) == Seq::<char>::empty(),
{
}

} // verus!
