//! Key agreement for a tunnel peer whose private key may live on a smartcard.
//!
//! A peer's configuration holds a 32-byte private scalar. One reserved value of
//! that field means that the real key never leaves a hardware token. The
//! functions here look at the scalar, do the Curve25519 arithmetic locally where
//! the scalar is an ordinary one, and otherwise say, step by step, what has to be
//! asked of the token and what its answers amount to.
//!
//! - `smartcard`: the two operations of the tunnel's keying and the choice of path
//! - `token`: one operation on a token, command by command
//! - `credential`: the unlock code, entered once
//! - `hexkey`: the key in the text of a token's answer
//! - `keys`, `keygen`, `curve`: the 32-byte values and the curve arithmetic
//! - `echo`, `checksum`: the echo responder used to measure the tunnel interface

pub mod checksum;
pub mod credential;
pub mod curve;
pub mod echo;
pub mod hexkey;
pub mod keygen;
pub mod keys;
pub mod smartcard;
pub mod token;
