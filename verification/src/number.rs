use vstd::arithmetic::power2::{
    lemma2_to64, lemma2_to64_rest, lemma_pow2_adds, lemma_pow2_pos, lemma_pow2_unfold, pow2,
};
use vstd::prelude::*;

verus! {

/// An IEEE 754 double-precision number, held by its 64-bit pattern.
///
/// The library never computes with such a number: it carries it between the
/// wire and the caller, and makes one out of an integer that stands where a
/// number is expected.
/// Two numbers are equal where their bit patterns are: a NaN equals itself,
/// and the two zeros differ.
#[derive(Clone, Copy, Debug, PartialEq, Eq, Structural)]
pub struct Float64 {
    pub bits: u64,
}

impl View for Float64 {
    type V = Float64;

    open spec fn view(&self) -> Float64 {
        *self
    }
}

/// The weight of the hidden bit of a significand, 2^52.
pub const HIDDEN_BIT: u64 = 0x10_0000_0000_0000;

/// The sign bit of a double, 2^63.
pub const SIGN_BIT: u64 = 0x8000_0000_0000_0000;

/// The position of the highest set bit of `n`, counted from 0 (0 for `n == 0`).
pub open spec fn top_bit(n: nat) -> nat
    decreases n,
{
    if n <= 1 {
        0
    } else {
        1 + top_bit(n / 2)
    }
}

/// `n / unit` rounded to the nearest integer, a half going to the even side.
pub open spec fn round_half_even(n: nat, unit: nat) -> nat {
    let quotient = n / unit;
    let rest = n % unit;
    if 2 * rest < unit || (2 * rest == unit && quotient % 2 == 0) {
        quotient
    } else {
        quotient + 1
    }
}

/// The 53-bit significand of the double nearest to `n > 0`: `n` scaled by a
/// power of two into `[2^52, 2^53]`, rounded where bits are lost.
pub open spec fn significand_of(n: nat) -> nat {
    let top = top_bit(n);
    if top <= 52 {
        n * pow2((52 - top) as nat)
    } else {
        round_half_even(n, pow2((top - 52) as nat))
    }
}

/// The bit pattern of the double nearest to `n`, ties to even: exponent
/// field `1023 + top_bit(n)`, fraction field the significand without its
/// hidden bit. A significand rounded up to 2^53 carries into the exponent.
pub open spec fn nearest_bits(n: nat) -> nat {
    if n == 0 {
        0
    } else {
        ((1022 + top_bit(n)) * pow2(52) + significand_of(n)) as nat
    }
}

/// The bit pattern of the double nearest to the integer `n`.
pub open spec fn nearest_bits_signed(n: int) -> nat {
    if n >= 0 {
        nearest_bits(n as nat)
    } else {
        pow2(63) + nearest_bits((-n) as nat)
    }
}

/// `top_bit(n)` is the one `top` with `2^top <= n < 2^(top + 1)`.
pub proof fn lemma_top_bit(n: nat, top: nat)
    requires
        pow2(top) <= n < 2 * pow2(top),
    ensures
        top_bit(n) == top,
    decreases top,
{
    lemma2_to64();
    if top > 0 {
        lemma_pow2_unfold(top);
        lemma_top_bit(n / 2, (top - 1) as nat);
    }
}

/// The significand of a positive integer below 2^64 lies in `[2^52, 2^53]`.
pub proof fn lemma_significand_range(n: nat)
    requires
        0 < n < pow2(64),
    ensures
        top_bit(n) <= 63,
        pow2(52) <= significand_of(n) <= 2 * pow2(52),
        nearest_bits(n) < pow2(63),
{
    let top = top_bit(n);
    lemma_top_bit_bounds(n);
    lemma2_to64();
    lemma2_to64_rest();
    if top >= 64 {
        lemma_pow2_adds(64, (top - 64) as nat);
        lemma_pow2_pos((top - 64) as nat);
        assert(pow2(top) >= pow2(64)) by (nonlinear_arith)
            requires
                pow2(top) == pow2(64) * pow2((top - 64) as nat),
                pow2((top - 64) as nat) > 0,
        ;
    }
    let unit = pow2(top);
    if top <= 52 {
        let scale = pow2((52 - top) as nat);
        lemma_pow2_adds(top, (52 - top) as nat);
        lemma_pow2_pos((52 - top) as nat);
        assert(pow2(52) <= n * scale < 2 * pow2(52)) by (nonlinear_arith)
            requires
                unit * scale == pow2(52),
                unit <= n < 2 * unit,
                scale > 0,
        ;
    } else {
        let ulp = pow2((top - 52) as nat);
        lemma_pow2_adds(52, (top - 52) as nat);
        lemma_pow2_pos((top - 52) as nat);
        lemma_quotient_range(n, ulp, pow2(52));
    }
    assert((1022 + top) * pow2(52) + 2 * pow2(52) <= 1087 * pow2(52)) by (nonlinear_arith)
        requires
            top <= 63,
    ;
}

/// `2^top_bit(n) <= n < 2^(top_bit(n) + 1)` for `n > 0`.
pub proof fn lemma_top_bit_bounds(n: nat)
    requires
        n > 0,
    ensures
        pow2(top_bit(n)) <= n < 2 * pow2(top_bit(n)),
    decreases n,
{
    lemma2_to64();
    if n > 1 {
        lemma_top_bit_bounds(n / 2);
        lemma_pow2_unfold(top_bit(n));
    }
}

/// Dividing a number of `[low * unit, 2 * low * unit)` by `unit` gives one of
/// `[low, 2 * low)`.
proof fn lemma_quotient_range(n: nat, unit: nat, low: nat)
    requires
        unit > 0,
        low * unit <= n < 2 * (low * unit),
    ensures
        low <= n / unit < 2 * low,
        low <= round_half_even(n, unit) <= 2 * low,
        n % unit < unit,
{
    let quotient = n / unit;
    let rest = n % unit;
    assert(n == unit * quotient + rest && 0 <= rest < unit) by {
        vstd::arithmetic::div_mod::lemma_fundamental_div_mod(n as int, unit as int);
        vstd::arithmetic::div_mod::lemma_mod_bound(n as int, unit as int);
    }
    assert(low <= quotient < 2 * low) by (nonlinear_arith)
        requires
            n == unit * quotient + rest,
            0 <= rest < unit,
            low * unit <= n < 2 * (low * unit),
    ;
}

impl Float64 {
    /// The number with the given bit pattern.
    pub fn from_bits(bits: u64) -> (number: Float64)
        ensures
            number.bits == bits,
    {
        Float64 { bits }
    }

    /// The bit pattern of the number.
    pub fn to_bits(&self) -> (bits: u64)
        ensures
            bits == self.bits,
    {
        self.bits
    }

    /// The double nearest to `n`; an integer halfway between two doubles
    /// goes to the one whose significand is even.
    pub fn from_u64(n: u64) -> (number: Float64)
        ensures
            number.bits == nearest_bits(n as nat),
    {
        if n == 0 {
            return Float64 { bits: 0 };
        }
        proof {
            lemma2_to64();
            lemma2_to64_rest();
        }
        let mut top: u64 = 0;
        let mut unit: u64 = 1;
        while n / 2 >= unit
            invariant
                unit == pow2(top as nat),
                1 <= unit <= n,
                top <= 63,
            decreases n - unit,
        {
            proof {
                lemma2_to64_rest();
                lemma_pow2_unfold((top + 1) as nat);
            }
            unit = unit * 2;
            top = top + 1;
        }
        proof {
            lemma_top_bit(n as nat, top as nat);
            lemma_significand_range(n as nat);
        }
        let significand: u64 = if top <= 52 {
            let scale = HIDDEN_BIT / unit;
            proof {
                lemma_pow2_adds(top as nat, (52 - top) as nat);
                let exact = pow2((52 - top) as nat);
                assert((unit * exact) / (unit as int) == exact) by (nonlinear_arith)
                    requires
                        unit > 0,
                ;
            }
            n * scale
        } else {
            let ulp = unit / HIDDEN_BIT;
            proof {
                lemma_pow2_adds(52, (top - 52) as nat);
                let exact = pow2((top - 52) as nat);
                assert((HIDDEN_BIT * exact) / (HIDDEN_BIT as int) == exact) by (nonlinear_arith);
                assert(exact <= 0x800) by (nonlinear_arith)
                    requires
                        HIDDEN_BIT * exact == unit,
                        unit <= 0x8000_0000_0000_0000,
                ;
            }
            let quotient = n / ulp;
            let rest = n % ulp;
            if 2 * rest < ulp || (2 * rest == ulp && quotient % 2 == 0) {
                quotient
            } else {
                quotient + 1
            }
        };
        assert((1022 + top) * HIDDEN_BIT <= 1085 * HIDDEN_BIT) by (nonlinear_arith)
            requires
                top <= 63,
        ;
        Float64 { bits: (1022 + top) * HIDDEN_BIT + significand }
    }

    /// The double nearest to `n`, as `from_u64` gives it for the magnitude,
    /// with the sign bit set for a negative `n`.
    pub fn from_i64(n: i64) -> (number: Float64)
        ensures
            number.bits == nearest_bits_signed(n as int),
    {
        if n >= 0 {
            Float64::from_u64(n as u64)
        } else {
            let magnitude: u64 = (-(n + 1)) as u64 + 1;
            proof {
                lemma2_to64();
                lemma2_to64_rest();
                lemma_significand_range(magnitude as nat);
            }
            Float64 { bits: SIGN_BIT + Float64::from_u64(magnitude).bits }
        }
    }
}

} // verus!
