//! The pseudo-random source that weights and biases are drawn from: the
//! Xorshift128+ generator of the `random` crate, held as a value so that
//! two builds never share a stream.

use vstd::prelude::*;
use random::Source;
use random::Xorshift128Plus;

verus! {

/// The generator of the `random` crate: two words of state that only its
/// own methods read and write.
#[verifier::external_type_specification]
#[verifier::external_body]
pub struct ExXorshift128Plus(Xorshift128Plus);

/// The two words of state that a generator holds, in the order of its
/// fields.
pub uninterp spec fn generator_state(g: Xorshift128Plus) -> (u64, u64);

/// The word that one step mixes from the two words of state.
pub open spec fn mixed(x: u64, y: u64) -> u64 {
    let a = x ^ (x << 23);
    let b = a ^ (a >> 17);
    b ^ y ^ (y >> 26)
}

/// The state that follows `s` after one word is read.
pub open spec fn next_state(s: (u64, u64)) -> (u64, u64) {
    (s.1, mixed(s.0, s.1))
}

/// The word that is read in state `s`: the mixed word plus the second
/// word of state, wrapping round at 64 bits.
pub open spec fn word_of(s: (u64, u64)) -> u64 {
    ((mixed(s.0, s.1) as int + s.1 as int) % 0x1_0000_0000_0000_0000) as u64
}

/// The state after `k` words were read, starting from `s`.
pub open spec fn advance(s: (u64, u64), k: nat) -> (u64, u64)
    decreases k,
{
    if k == 0 {
        s
    } else {
        next_state(advance(s, (k - 1) as nat))
    }
}

/// Word number `k` of the stream that starts in state `s`, counting from
/// zero.
pub open spec fn stream_word(s: (u64, u64), k: nat) -> u64 {
    word_of(advance(s, k))
}

/// Reading `a` words and then `b` more is reading `a + b` words.
pub proof fn lemma_advance_sum(s: (u64, u64), a: nat, b: nat)
    ensures
        advance(advance(s, a), b) == advance(s, a + b),
    decreases b,
{
    if b > 0 {
        lemma_advance_sum(s, a, (b - 1) as nat);
    }
}

/// A state of two zero words never moves, and every word read in it is
/// zero.
pub proof fn lemma_zero_state_stays(k: nat)
    ensures
        advance((0u64, 0u64), k) == (0u64, 0u64),
        stream_word((0u64, 0u64), k) == 0,
    decreases k,
{
    assert(mixed(0, 0) == 0) by {
        assert(0u64 ^ (0u64 << 23) == 0) by (bit_vector);
        assert(0u64 ^ (0u64 >> 17) == 0) by (bit_vector);
        assert(0u64 ^ 0u64 ^ (0u64 >> 26) == 0) by (bit_vector);
    }
    if k > 0 {
        lemma_zero_state_stays((k - 1) as nat);
    }
}

/// Calls `random::Xorshift128Plus::new`, which stores the two words of the
/// seed as the state. It stops a program built with debug assertions when
/// both words are zero, so that seed is left out.
#[verifier::external_body]
pub(crate) fn seeded(seed0: u64, seed1: u64) -> (g: Xorshift128Plus)
    requires
        seed0 != 0 || seed1 != 0,
    ensures
        generator_state(g) == (seed0, seed1),
{
    Xorshift128Plus::new([seed0, seed1])
}

/// Calls `read_u64` of `random::Source` on the generator: it hands out the
/// word of the state it is in and moves on to the next state, by shifts,
/// exclusive-ors and one wrapping addition.
#[verifier::external_body]
pub(crate) fn next_word(g: &mut Xorshift128Plus) -> (w: u64)
    ensures
        w == word_of(generator_state(*old(g))),
        generator_state(*final(g)) == next_state(generator_state(*old(g))),
{
    g.read_u64()
}

} // verus!
