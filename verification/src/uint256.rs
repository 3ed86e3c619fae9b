//! A 256-bit unsigned integer held as four 64-bit limbs.

use crate::encoding::{be_value, le_bytes, pow256};
use vstd::prelude::*;

verus! {

/// The largest value of a [`U256`]: `2^256 - 1`.
pub open spec fn max_u256() -> nat {
    0xffff_ffff_ffff_ffff_ffff_ffff_ffff_ffff_ffff_ffff_ffff_ffff_ffff_ffff_ffff_ffffnat
}

/// The number that four 64-bit limbs denote, least significant limb first.
pub open spec fn limbs_value(limbs: Seq<u64>) -> nat
    recommends
        limbs.len() == 4,
{
    limbs[0] as nat
        + 0x1_0000_0000_0000_0000nat * (limbs[1] as nat)
        + 0x1_0000_0000_0000_0000_0000_0000_0000_0000nat * (limbs[2] as nat)
        + 0x1_0000_0000_0000_0000_0000_0000_0000_0000_0000_0000_0000_0000nat * (limbs[3] as nat)
}

/// The number that the limbs from index `from` upwards denote, the limb at
/// `from` being the least significant.
spec fn limbs_value_from(limbs: Seq<u64>, from: int) -> nat
    recommends
        limbs.len() == 4,
        0 <= from <= 4,
{
    if from <= 0 {
        limbs_value(limbs)
    } else if from == 1 {
        limbs[1] as nat
            + 0x1_0000_0000_0000_0000nat * (limbs[2] as nat)
            + 0x1_0000_0000_0000_0000_0000_0000_0000_0000nat * (limbs[3] as nat)
    } else if from == 2 {
        limbs[2] as nat + 0x1_0000_0000_0000_0000nat * (limbs[3] as nat)
    } else if from == 3 {
        limbs[3] as nat
    } else {
        0
    }
}

/// An unsigned integer in the range `0 ..= 2^256 - 1`.
///
/// Its view is the number itself. Every limb pattern is a valid value, and
/// two values with the same view are the same value.
#[derive(Clone, Copy, Debug, PartialEq, Eq)]
pub struct U256 {
    limbs: [u64; 4],
}

impl View for U256 {
    type V = nat;

    closed spec fn view(&self) -> nat {
        limbs_value(self.limbs@)
    }
}

impl U256 {
    /// The value of a 64-bit integer, widened.
    pub fn from_u64(value: u64) -> (wide: U256)
        ensures
            wide@ == value,
    {
        U256 { limbs: [value, 0, 0, 0] }
    }

    /// The value that four limbs denote, least significant limb first.
    pub fn from_limbs(limbs: [u64; 4]) -> (value: U256)
        ensures
            value@ == limbs_value(limbs@),
    {
        U256 { limbs }
    }

    /// The four limbs of the value, least significant limb first.
    pub fn into_limbs(self) -> (limbs: [u64; 4])
        ensures
            limbs_value(limbs@) == self@,
    {
        self.limbs
    }

    /// The sum of two values where it fits in 256 bits, `None` where it
    /// does not.
    pub fn checked_add(self, rhs: U256) -> (sum: Option<U256>)
        ensures
            sum is Some <==> self@ + rhs@ <= max_u256(),
            sum matches Some(total) ==> total@ == self@ + rhs@,
    {
        let (limb0, carry0) = carrying_add(self.limbs[0], rhs.limbs[0], false);
        let (limb1, carry1) = carrying_add(self.limbs[1], rhs.limbs[1], carry0);
        let (limb2, carry2) = carrying_add(self.limbs[2], rhs.limbs[2], carry1);
        let (limb3, carry3) = carrying_add(self.limbs[3], rhs.limbs[3], carry2);
        if carry3 {
            None
        } else {
            Some(U256 { limbs: [limb0, limb1, limb2, limb3] })
        }
    }

    /// The 32 bytes of the value, least significant byte first.
    pub fn to_le_bytes(&self) -> (bytes: [u8; 32])
        ensures
            bytes@ == le_bytes(self@, 32),
    {
        let mut bytes: [u8; 32] = [0u8; 32];
        let mut i: usize = 0;
        while i < 4
            invariant
                i <= 4,
                le_bytes(self@, 32) == bytes@.take(8 * i as int) + le_bytes(
                    limbs_value_from(self.limbs@, i as int),
                    (32 - 8 * i) as nat,
                ),
            decreases 4 - i,
        {
            let mut rest: u64 = self.limbs[i];
            let ghost above: nat = limbs_value_from(self.limbs@, i + 1);
            let ghost mut scale: nat = 0x1_0000_0000_0000_0000;
            proof {
                reveal_with_fuel(pow256, 9);
                assert(scale == pow256(8));
                assert(rest as nat + scale * above == limbs_value_from(self.limbs@, i as int));
            }
            let mut j: usize = 0;
            while j < 8
                invariant
                    i < 4,
                    j <= 8,
                    scale == pow256((8 - j) as nat),
                    rest < scale,
                    le_bytes(self@, 32) == bytes@.take(8 * i + j) + le_bytes(
                        rest as nat + scale * above,
                        (32 - 8 * i - j) as nat,
                    ),
                decreases 8 - j,
            {
                let ghost before: Seq<u8> = bytes@;
                let ghost quotient: nat = rest as nat + scale * above;
                let ghost next_scale: nat = pow256((7 - j) as nat);
                proof {
                    assert(scale * above == 256 * (next_scale * above)) by (nonlinear_arith)
                        requires
                            scale == 256 * next_scale,
                    ;
                    assert(quotient % 256 == rest % 256);
                    assert(quotient / 256 == rest / 256 + next_scale * above);
                }
                bytes[8 * i + j] = (rest % 256) as u8;
                rest = rest / 256;
                proof {
                    scale = next_scale;
                    assert(bytes@.take(8 * i + j + 1) =~= before.take(8 * i + j) + seq![
                        (quotient % 256) as u8,
                    ]);
                    assert(le_bytes(self@, 32) =~= bytes@.take(8 * i + j + 1) + le_bytes(
                        quotient / 256,
                        (32 - 8 * i - j - 1) as nat,
                    ));
                }
                j += 1;
            }
            assert(rest as nat + scale * above == above) by (nonlinear_arith)
                requires
                    scale == 1,
                    rest == 0,
            ;
            i += 1;
        }
        assert(bytes@.take(32) =~= bytes@);
        bytes
    }

    /// The value that 32 bytes denote, most significant byte first.
    pub fn from_be_bytes(bytes: [u8; 32]) -> (value: U256)
        ensures
            value@ == be_value(bytes@),
    {
        let mut limbs: [u64; 4] = [0u64; 4];
        let mut i: usize = 0;
        while i < 4
            invariant
                i <= 4,
                be_value(bytes@.take(8 * i as int)) == limbs_value_from(limbs@, 4 - i),
            decreases 4 - i,
        {
            let ghost high: nat = be_value(bytes@.take(8 * i as int));
            let ghost mut shifted: nat = high;
            let mut limb: u64 = 0;
            let mut j: usize = 0;
            assert(shifted == high * pow256(0)) by (nonlinear_arith)
                requires
                    shifted == high,
                    pow256(0) == 1,
            ;
            while j < 8
                invariant
                    i < 4,
                    j <= 8,
                    shifted == high * pow256(j as nat),
                    limb < pow256(j as nat),
                    be_value(bytes@.take(8 * i + j)) == shifted + limb,
                decreases 8 - j,
            {
                proof {
                    reveal_with_fuel(pow256, 9);
                    assert(pow256(j as nat) <= pow256(7));
                    assert(bytes@.take(8 * i + j + 1).drop_last() =~= bytes@.take(8 * i + j));
                    assert(high * pow256((j + 1) as nat) == 256 * shifted) by (nonlinear_arith)
                        requires
                            shifted == high * pow256(j as nat),
                            pow256((j + 1) as nat) == 256 * pow256(j as nat),
                    ;
                    shifted = 256 * shifted;
                }
                limb = limb * 256 + bytes[8 * i + j] as u64;
                j += 1;
            }
            proof {
                reveal_with_fuel(pow256, 9);
                assert(shifted == 0x1_0000_0000_0000_0000nat * high) by (nonlinear_arith)
                    requires
                        shifted == high * pow256(8),
                        pow256(8) == 0x1_0000_0000_0000_0000nat,
                ;
            }
            limbs[3 - i] = limb;
            i += 1;
        }
        assert(bytes@.take(32) =~= bytes@);
        U256 { limbs }
    }

    /// Every value lies in the 256-bit range.
    pub proof fn lemma_in_range(self)
        ensures
            self@ <= max_u256(),
    {
    }

    /// The view is injective: two values that denote the same number are equal.
    pub proof fn lemma_view_injective(self, other: U256)
        requires
            self@ == other@,
        ensures
            self == other,
    {
        lemma_limbs_value_injective(self.limbs@, other.limbs@);
        assert(self.limbs =~= other.limbs);
    }
}

/// Adds two limbs and an incoming carry. Returns the low 64 bits of the sum
/// and the outgoing carry.
fn carrying_add(a: u64, b: u64, carry: bool) -> (out: (u64, bool))
    ensures
        out.0 + (if out.1 { 0x1_0000_0000_0000_0000int } else { 0 })
            == a + b + (if carry { 1int } else { 0 }),
{
    let wide: u128 = a as u128 + b as u128 + (if carry { 1 } else { 0 });
    if wide > u64::MAX as u128 {
        ((wide - 0x1_0000_0000_0000_0000) as u64, true)
    } else {
        (wide as u64, false)
    }
}

/// A number written as a 64-bit digit plus `2^64` times a rest determines
/// both the digit and the rest.
proof fn lemma_digit_split(digit: nat, rest: nat, other_digit: nat, other_rest: nat)
    requires
        digit < 0x1_0000_0000_0000_0000,
        other_digit < 0x1_0000_0000_0000_0000,
        digit + 0x1_0000_0000_0000_0000 * rest == other_digit + 0x1_0000_0000_0000_0000
            * other_rest,
    ensures
        digit == other_digit,
        rest == other_rest,
{
    if rest < other_rest {
        assert(0x1_0000_0000_0000_0000 * other_rest >= 0x1_0000_0000_0000_0000 * rest
            + 0x1_0000_0000_0000_0000);
    } else if other_rest < rest {
        assert(0x1_0000_0000_0000_0000 * rest >= 0x1_0000_0000_0000_0000 * other_rest
            + 0x1_0000_0000_0000_0000);
    }
}

/// Four limbs are determined by the number they denote.
pub proof fn lemma_limbs_value_injective(a: Seq<u64>, b: Seq<u64>)
    requires
        a.len() == 4,
        b.len() == 4,
        limbs_value(a) == limbs_value(b),
    ensures
        a == b,
{
    let a_high: nat = limbs_value_from(a, 1);
    let b_high: nat = limbs_value_from(b, 1);
    assert(a[0] == b[0] && a_high == b_high) by {
        lemma_digit_split(a[0] as nat, a_high, b[0] as nat, b_high);
    }
    let a_top: nat = limbs_value_from(a, 2);
    let b_top: nat = limbs_value_from(b, 2);
    assert(a[1] == b[1] && a_top == b_top) by {
        lemma_digit_split(a[1] as nat, a_top, b[1] as nat, b_top);
    }
    assert(a[2] == b[2] && a[3] == b[3]) by {
        lemma_digit_split(a[2] as nat, a[3] as nat, b[2] as nat, b[3] as nat);
    }
    assert(a =~= b);
}

} // verus!
