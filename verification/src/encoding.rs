//! Base-256 digit strings and the numbers they denote.

use vstd::prelude::*;

verus! {

/// `256` raised to the power `exponent`.
pub open spec fn pow256(exponent: nat) -> nat
    decreases exponent,
{
    if exponent == 0 {
        1
    } else {
        256 * pow256((exponent - 1) as nat)
    }
}

/// The `len` least significant base-256 digits of `value`, least significant
/// digit first. Digits beyond the width of `value` are zero.
pub open spec fn le_bytes(value: nat, len: nat) -> Seq<u8>
    decreases len,
{
    if len == 0 {
        Seq::empty()
    } else {
        seq![(value % 256) as u8] + le_bytes(value / 256, (len - 1) as nat)
    }
}

/// The number that `bytes` denotes when read as base-256 digits with the
/// most significant digit first.
pub open spec fn be_value(bytes: Seq<u8>) -> nat
    decreases bytes.len(),
{
    if bytes.len() == 0 {
        0
    } else {
        256 * be_value(bytes.drop_last()) + bytes.last() as nat
    }
}

/// The encoding of `low + 256^low_len * high` is the encoding of `low`
/// followed by the encoding of `high`, when `low` fits in `low_len` digits.
pub proof fn lemma_le_bytes_concat(low: nat, low_len: nat, high: nat, high_len: nat)
    requires
        low < pow256(low_len),
    ensures
        le_bytes(low + pow256(low_len) * high, low_len + high_len) == le_bytes(low, low_len)
            + le_bytes(high, high_len),
    decreases low_len,
{
    if low_len == 0 {
        assert(pow256(0) * high == high) by (nonlinear_arith)
            requires
                pow256(0) == 1,
        ;
        assert(le_bytes(low, 0) + le_bytes(high, high_len) =~= le_bytes(high, high_len));
    } else {
        let shorter: nat = (low_len - 1) as nat;
        let shifted: nat = pow256(shorter) * high;
        let whole: nat = low + pow256(low_len) * high;
        assert(pow256(low_len) * high == 256 * shifted) by (nonlinear_arith)
            requires
                pow256(low_len) == 256 * pow256(shorter),
                shifted == pow256(shorter) * high,
        ;
        assert(whole % 256 == low % 256);
        assert(whole / 256 == low / 256 + shifted);
        lemma_le_bytes_concat(low / 256, shorter, high, high_len);
        assert(le_bytes(whole, low_len + high_len) =~= le_bytes(low, low_len) + le_bytes(
            high,
            high_len,
        ));
    }
}

/// Every digit of zero is zero.
pub proof fn lemma_le_bytes_of_zero(len: nat)
    ensures
        le_bytes(0, len) == Seq::new(len, |i: int| 0u8),
    decreases len,
{
    if len > 0 {
        lemma_le_bytes_of_zero((len - 1) as nat);
    }
    assert(le_bytes(0, len) =~= Seq::new(len, |i: int| 0u8));
}

} // verus!
