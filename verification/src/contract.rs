//! The counter and the pseudo-random word.
//!
//! [`PureRandom`] is the handle on the one persisted field, `nonce`. A host
//! rebuilds it from the stored word with [`PureRandom::restore`], applies an
//! operation, and persists [`PureRandom::nonce`] again when the operation
//! succeeded.

use crate::encoding::{be_value, le_bytes, lemma_le_bytes_concat, lemma_le_bytes_of_zero, pow256};
use crate::hash::{keccak, keccak256};
use crate::uint256::{max_u256, U256};
use vstd::prelude::*;

verus! {

/// Why an operation was refused.
#[derive(Clone, Copy, Debug, PartialEq, Eq)]
pub enum Error {
    /// The counter stands at `2^256 - 1` and cannot be incremented.
    Overflow,
}

/// The counter after one increment: one more, and unchanged at the top of
/// the 256-bit range, where the increment is refused.
pub open spec fn next_nonce(nonce: nat) -> nat {
    if nonce < max_u256() {
        nonce + 1
    } else {
        nonce
    }
}

/// The counter after `calls` increments in a row, starting from `start`.
pub open spec fn nonce_after(start: nat, calls: nat) -> nat
    decreases calls,
{
    if calls == 0 {
        start
    } else {
        next_nonce(nonce_after(start, (calls - 1) as nat))
    }
}

/// The word derived from a block timestamp: the timestamp is widened to 32
/// little-endian bytes, hashed, and the digest read as a big-endian number.
pub open spec fn random_word(timestamp: u64) -> nat {
    be_value(keccak256(le_bytes(timestamp as nat, 32)))
}

/// The contract state: a single 256-bit counter.
///
/// Its view is the value of the counter.
#[derive(Debug)]
pub struct PureRandom {
    nonce: U256,
}

impl View for PureRandom {
    type V = nat;

    closed spec fn view(&self) -> nat {
        self.nonce@
    }
}

impl PureRandom {
    /// The state of a freshly deployed contract: the counter is zero.
    pub fn new() -> (fresh: PureRandom)
        ensures
            fresh@ == 0,
    {
        PureRandom { nonce: U256::from_u64(0) }
    }

    /// The state whose counter is the persisted word `nonce`.
    pub fn restore(nonce: U256) -> (state: PureRandom)
        ensures
            state@ == nonce@,
    {
        PureRandom { nonce }
    }

    /// Adds one to the counter.
    ///
    /// At `2^256 - 1` the addition would overflow: the call fails with
    /// [`Error::Overflow`] and the counter keeps its value.
    pub fn increment(&mut self) -> (outcome: Result<(), Error>)
        ensures
            final(self)@ == next_nonce(old(self)@),
            old(self)@ <= final(self)@ <= old(self)@ + 1,
            outcome is Ok <==> old(self)@ < max_u256(),
            outcome is Err ==> outcome == Err::<(), Error>(Error::Overflow),
    {
        proof {
            self.nonce.lemma_in_range();
        }
        match self.nonce.checked_add(U256::from_u64(1)) {
            Some(next) => {
                self.nonce = next;
                Ok(())
            },
            None => Err(Error::Overflow),
        }
    }

    /// The current value of the counter.
    pub fn nonce(&self) -> (value: U256)
        ensures
            value@ == self@,
    {
        self.nonce
    }

    /// The pseudo-random word for the block timestamp `timestamp`.
    ///
    /// The word depends on the timestamp alone. The call takes the state
    /// mutably, as a transaction does, and leaves it as it was.
    pub fn generate(&mut self, timestamp: u64) -> (word: U256)
        ensures
            word@ == random_word(timestamp),
            *final(self) == *old(self),
    {
        let preimage: [u8; 32] = U256::from_u64(timestamp).to_le_bytes();
        let digest: [u8; 32] = keccak(&preimage);
        U256::from_be_bytes(digest)
    }

    /// The counter never exceeds `2^256 - 1`.
    pub proof fn lemma_in_range(self)
        ensures
            self@ <= max_u256(),
    {
        self.nonce.lemma_in_range();
    }
}

/// A run of increments counts the calls until the counter reaches the top
/// of its range, and stays there: it never decreases and never wraps.
pub proof fn lemma_nonce_after(start: nat, calls: nat)
    requires
        start <= max_u256(),
    ensures
        start <= nonce_after(start, calls) <= max_u256(),
        start + calls <= max_u256() ==> nonce_after(start, calls) == start + calls,
        start + calls > max_u256() ==> nonce_after(start, calls) == max_u256(),
    decreases calls,
{
    if calls > 0 {
        lemma_nonce_after(start, (calls - 1) as nat);
    }
}

/// After `calls` increments of a freshly deployed counter, none of which
/// overflowed, the counter equals `calls`.
pub proof fn lemma_fresh_counter_counts_calls(calls: nat)
    requires
        calls <= max_u256(),
    ensures
        nonce_after(0, calls) == calls,
{
    lemma_nonce_after(0, calls);
}

/// Reading is idempotent: any two reads of one state return the same value.
pub proof fn lemma_reads_agree(state: PureRandom, first: U256, second: U256)
    requires
        first@ == state@,
        second@ == state@,
    ensures
        first == second,
{
    first.lemma_view_injective(second);
}

/// The hashed preimage is the timestamp in eight little-endian bytes,
/// followed by twenty-four zero bytes.
pub proof fn lemma_preimage_is_zero_padded(timestamp: u64)
    ensures
        le_bytes(timestamp as nat, 32) == le_bytes(timestamp as nat, 8) + Seq::new(
            24,
            |i: int| 0u8,
        ),
{
    assert(timestamp < pow256(8)) by {
        reveal_with_fuel(pow256, 9);
    }
    lemma_le_bytes_concat(timestamp as nat, 8, 0, 24);
    lemma_le_bytes_of_zero(24);
}

/// Two words generated for the same timestamp are the same value.
pub proof fn lemma_same_timestamp_same_word(
    first_timestamp: u64,
    second_timestamp: u64,
    first: U256,
    second: U256,
)
    requires
        first_timestamp == second_timestamp,
        first@ == random_word(first_timestamp),
        second@ == random_word(second_timestamp),
    ensures
        first == second,
{
    first.lemma_view_injective(second);
}

} // verus!
