//! The Internet checksum of an echo message, over 16-bit words.
//!
//! The words are read with the low byte first and the result is stored the same
//! way, which gives the bytes that the network order asks for: the one's
//! complement sum does not depend on the byte order.

use vstd::prelude::*;
use vstd::arithmetic::div_mod::{lemma_fundamental_div_mod, lemma_mod_multiples_vanish};

verus! {

/// The `k`-th 16-bit word of `data`, low byte first.
pub open spec fn word(data: Seq<u8>, k: int) -> nat {
    (data[2 * k] + 256 * data[2 * k + 1]) as nat
}

/// The sum of the first `words` 16-bit words of `data`.
pub open spec fn word_sum(data: Seq<u8>, words: nat) -> nat
    decreases words,
{
    if words == 0 {
        0
    } else {
        word_sum(data, (words - 1) as nat) + word(data, words - 1)
    }
}

/// The sum of all the 16-bit words of `data`; a last byte without a partner is
/// left out.
pub open spec fn total(data: Seq<u8>) -> nat {
    word_sum(data, data.len() / 2)
}

/// A sum brought down to 16 bits by adding what goes beyond them back in, until
/// nothing goes beyond: zero stays zero, and any other sum becomes the number
/// from 1 to 65535 that leaves the same remainder on division by 65535.
pub open spec fn fold16(sum: nat) -> nat {
    if sum == 0 {
        0
    } else {
        ((sum - 1) % 65535 + 1) as nat
    }
}

/// The checksum of `data`: the one's complement of its folded word sum.
pub open spec fn checksum(data: Seq<u8>) -> nat {
    (65535 - fold16(total(data))) as nat
}

/// `data` with the checksum `value` in its third and fourth byte, low byte first.
pub open spec fn with_checksum(data: Seq<u8>, value: nat) -> Seq<u8> {
    data.update(2, (value % 256) as u8).update(3, (value / 256) as u8)
}

/// A sum of words grows with their number.
pub proof fn lemma_word_sum_grows(data: Seq<u8>, fewer: nat, more: nat)
    requires
        fewer <= more,
    ensures
        word_sum(data, fewer) <= word_sum(data, more),
    decreases more,
{
    if fewer < more {
        lemma_word_sum_grows(data, fewer, (more - 1) as nat);
    }
}

/// No word is above 65535, so a sum of `words` words is at most `65535 * words`.
/// The sum of up to 65537 words therefore fits in 32 bits.
pub proof fn lemma_word_sum_bound(data: Seq<u8>, words: nat)
    ensures
        word_sum(data, words) <= 65535 * words,
    decreases words,
{
    if words > 0 {
        lemma_word_sum_bound(data, (words - 1) as nat);
    }
}

/// Adding the high half of a sum to its low half does not change what the sum
/// folds to.
pub proof fn lemma_fold_step(sum: nat)
    ensures
        fold16(sum % 65536 + sum / 65536) == fold16(sum),
        sum > 65535 ==> sum % 65536 + sum / 65536 < sum,
{
    let low = sum % 65536;
    let high = sum / 65536;
    lemma_fundamental_div_mod(sum as int, 65536);
    if sum > 0 {
        assert(low + high >= 1);
        assert(sum - 1 == 65535 * high + (low + high - 1));
        lemma_mod_multiples_vanish(high as int, low + high - 1, 65535);
    }
}

/// A sum that fits in 16 bits folds to itself.
pub proof fn lemma_fold_small(sum: nat)
    requires
        sum <= 65535,
    ensures
        fold16(sum) == sum,
{
}

/// Computes the checksum of `data` and stores it in the third and fourth byte
/// of `data`, low byte first. The two bytes count with what they held before:
/// a caller that wants the checksum of the message sets them to zero first.
pub fn calculate_checksum(data: &mut [u8])
    requires
        old(data)@.len() >= 4,
        total(old(data)@) <= u32::MAX,
    ensures
        final(data)@ == with_checksum(old(data)@, checksum(old(data)@)),
{
    let n = data.len();
    let mut f: usize = 0;
    let mut chk: u32 = 0;
    while n - f >= 2
        invariant
            n == data@.len(),
            data@ == old(data)@,
            f <= n,
            f % 2 == 0,
            chk == word_sum(data@, (f / 2) as nat),
            total(data@) <= u32::MAX,
        decreases n - f,
    {
        let low = data[f];
        let high = data[f + 1];
        proof {
            assert(word_sum(data@, (f / 2 + 1) as nat) == chk + word(data@, f as int / 2));
            lemma_word_sum_grows(data@, (f / 2 + 1) as nat, data@.len() / 2);
        }
        chk = chk + (low as u32 + 256 * (high as u32));
        f = f + 2;
    }
    assert(chk == total(data@));
    let ghost sum = chk as nat;
    while chk > 0xffff
        invariant
            fold16(chk as nat) == fold16(sum),
        decreases chk,
    {
        proof {
            let c = chk;
            assert(c & 0xffff == c % 65536) by (bit_vector);
            assert(c >> 16 == c / 65536) by (bit_vector);
            lemma_fold_step(chk as nat);
        }
        chk = (chk & 0xffff) + (chk >> 16);
    }
    proof {
        lemma_fold_small(chk as nat);
    }
    let folded: u16 = chk as u16;
    let value: u16 = !folded & 0xffff;
    assert(value == 65535 - folded) by (bit_vector)
        requires
            value == !folded & 0xffff,
    ;
    assert(value >> 8 == value / 256) by (bit_vector);
    assert(value & 0xff == value % 256) by (bit_vector);
    data[3] = (value >> 8) as u8;
    data[2] = (value & 0xff) as u8;
    assert(data@ =~= with_checksum(old(data)@, checksum(old(data)@)));
}

/// Putting a checksum in place changes the second word and no other.
pub proof fn lemma_word_sum_with_checksum(data: Seq<u8>, value: nat, words: nat)
    requires
        value <= 65535,
        words >= 2,
        2 * words <= data.len(),
    ensures
        word_sum(with_checksum(data, value), words) + word(data, 1) == word_sum(data, words) + value,
    decreases words,
{
    let stored = with_checksum(data, value);
    if words == 2 {
        assert(word_sum(stored, 2) == word_sum(stored, 1) + word(stored, 1));
        assert(word_sum(stored, 1) == word_sum(stored, 0) + word(stored, 0));
        assert(word_sum(data, 2) == word_sum(data, 1) + word(data, 1));
        assert(word_sum(data, 1) == word_sum(data, 0) + word(data, 0));
        assert(word(stored, 1) == value);
    } else {
        lemma_word_sum_with_checksum(data, value, (words - 1) as nat);
        assert(word(stored, words - 1) == word(data, words - 1));
    }
}

/// A sum and the complement of what it folds to add up to something that folds
/// to 65535.
pub proof fn lemma_complement_completes(sum: nat)
    ensures
        fold16(sum) <= 65535,
        fold16((sum + (65535 - fold16(sum))) as nat) == 65535,
{
    if sum > 0 {
        let q = (sum - 1) / 65535;
        lemma_fundamental_div_mod(sum - 1, 65535);
        assert(sum + (65535 - fold16(sum)) - 1 == 65535 * q + 65534);
        lemma_mod_multiples_vanish(q, 65534, 65535);
    }
}

/// The checksum does what it is for. Where the checksum of a message is
/// computed with the field at zero and then put in the field, the words of the
/// message add up to 65535, which is what a receiver tests.
pub proof fn lemma_checksum_verifies(data: Seq<u8>)
    requires
        data.len() >= 4,
        data[2] == 0,
        data[3] == 0,
    ensures
        fold16(total(with_checksum(data, checksum(data)))) == 65535,
{
    let sum = total(data);
    let value = checksum(data);
    let stored = with_checksum(data, value);
    assert(stored.len() == data.len());
    lemma_complement_completes(sum);
    lemma_word_sum_with_checksum(data, value, data.len() / 2);
    assert(total(stored) == sum + value);
}

} // verus!
