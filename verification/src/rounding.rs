use crate::number::{
    lemma_significand_range, lemma_top_bit_bounds, nearest_bits, round_half_even, significand_of,
    top_bit,
};
use vstd::arithmetic::div_mod::{
    lemma_fundamental_div_mod, lemma_fundamental_div_mod_converse, lemma_mod_bound,
};
use vstd::arithmetic::power2::{
    lemma2_to64, lemma2_to64_rest, lemma_pow2_adds, lemma_pow2_pos, lemma_pow2_strictly_increases,
    lemma_pow2_unfold, pow2,
};
use vstd::prelude::*;

verus! {

/// The exponent field of a bit pattern without a sign bit.
pub open spec fn exponent_field(bits: nat) -> nat {
    bits / pow2(52)
}

/// The fraction field of a bit pattern.
pub open spec fn fraction_field(bits: nat) -> nat {
    bits % pow2(52)
}

/// Whether a bit pattern is that of a finite double that is not negative.
pub open spec fn is_finite(bits: nat) -> bool {
    exponent_field(bits) < 2047
}

/// The value of a finite double that is not negative, counted in units of
/// 2^-1074, the smallest positive double: the fraction alone for a
/// subnormal, else the fraction with its hidden bit, scaled by the exponent.
pub open spec fn scaled_value(bits: nat) -> nat {
    if exponent_field(bits) == 0 {
        fraction_field(bits)
    } else {
        (pow2(52) + fraction_field(bits)) * pow2((exponent_field(bits) - 1) as nat)
    }
}

/// An integer in the same units.
pub open spec fn scaled_integer(n: nat) -> nat {
    n * pow2(1074)
}

/// How far two values are apart.
pub open spec fn distance(a: nat, b: nat) -> nat {
    if a >= b {
        (a - b) as nat
    } else {
        (b - a) as nat
    }
}

/// The fields and the value of a normal double, from its exponent and its
/// significand with the hidden bit.
proof fn lemma_normal(exponent: nat, significand: nat)
    requires
        exponent >= 1,
        pow2(52) <= significand < 2 * pow2(52),
    ensures
        exponent_field(((exponent - 1) * pow2(52) + significand) as nat) == exponent,
        fraction_field(((exponent - 1) * pow2(52) + significand) as nat) == significand - pow2(52),
        scaled_value(((exponent - 1) * pow2(52) + significand) as nat) == significand * pow2(
            (exponent - 1) as nat,
        ),
{
    let unit = pow2(52);
    lemma_pow2_pos(52);
    let bits = ((exponent - 1) * unit + significand) as nat;
    assert(bits == exponent * unit + (significand - unit)) by (nonlinear_arith)
        requires
            bits == (exponent - 1) * unit + significand,
    ;
    lemma_fundamental_div_mod_converse(
        bits as int,
        unit as int,
        exponent as int,
        significand - unit,
    );
}

/// The value of the double that `nearest_bits` gives: the significand,
/// scaled by the place of the integer's highest bit.
proof fn lemma_nearest_value(n: nat)
    requires
        0 < n < pow2(64),
    ensures
        scaled_value(nearest_bits(n)) == significand_of(n) * pow2(1022 + top_bit(n)),
        is_finite(nearest_bits(n)),
        nearest_bits(n) % 2 == significand_of(n) % 2,
{
    let top = top_bit(n);
    let unit = pow2(52);
    let significand = significand_of(n);
    lemma_significand_range(n);
    lemma_pow2_pos(52);
    lemma2_to64();
    lemma2_to64_rest();
    if significand < 2 * unit {
        lemma_normal(1023 + top, significand);
    } else {
        lemma_normal(1024 + top, unit);
        lemma_pow2_unfold(1023 + top);
        assert(nearest_bits(n) == (1023 + top) * unit + unit) by (nonlinear_arith)
            requires
                nearest_bits(n) == (1022 + top) * unit + significand,
                significand == 2 * unit,
        ;
        assert(unit * pow2(1023 + top) == significand * pow2(1022 + top)) by (nonlinear_arith)
            requires
                significand == 2 * unit,
                pow2(1023 + top) == 2 * pow2(1022 + top),
        ;
    }
    assert(((1022 + top) * unit + significand) % 2 == significand % 2) by (nonlinear_arith)
        requires
            unit == 0x10000000000000,
    ;
}

/// An integer below 2^53 is converted exactly: the double that
/// `nearest_bits` gives has the integer as its value.
pub proof fn small_integers_are_exact(n: nat)
    requires
        n < pow2(53),
    ensures
        is_finite(nearest_bits(n)),
        scaled_value(nearest_bits(n)) == scaled_integer(n),
{
    lemma2_to64();
    lemma2_to64_rest();
    if n == 0 {
        lemma_pow2_pos(52);
        lemma_fundamental_div_mod_converse(0, pow2(52) as int, 0, 0);
    } else {
        let top = top_bit(n);
        lemma_top_bit_bounds(n);
        if top >= 53 {
            lemma_pow2_adds(53, (top - 53) as nat);
            lemma_pow2_pos((top - 53) as nat);
            assert(pow2(top) >= pow2(53)) by (nonlinear_arith)
                requires
                    pow2(top) == pow2(53) * pow2((top - 53) as nat),
                    pow2((top - 53) as nat) > 0,
            ;
        }
        lemma_nearest_value(n);
        lemma_pow2_adds((52 - top) as nat, 1022 + top);
        let up = pow2((52 - top) as nat);
        let scale = pow2(1022 + top);
        assert(n * up * scale == n * pow2(1074)) by (nonlinear_arith)
            requires
                pow2(1074) == up * scale,
        ;
    }
}

/// No double lies between two neighbours of a binade: with `unit` the
/// spacing of the binade of exponent `1023 + top` and `quotient` a
/// significand of that binade, the value of any double is at most
/// `quotient * unit` or at least `(quotient + 1) * unit`.
#[verifier::rlimit(50)]
proof fn lemma_no_double_between(bits: nat, top: nat, quotient: nat)
    requires
        pow2(52) <= quotient,
    ensures
        scaled_value(bits) <= quotient * pow2(1022 + top) || scaled_value(bits) >= (quotient + 1)
            * pow2(1022 + top),
{
    let unit = pow2(52);
    let spacing = pow2(1022 + top);
    let field = exponent_field(bits);
    let fraction = fraction_field(bits);
    lemma_pow2_pos(52);
    lemma_pow2_pos(1022 + top);
    lemma_mod_bound(bits as int, unit as int);
    if field >= 1023 + top {
        let more = (field - 1023 - top) as nat;
        lemma_pow2_adds(more, 1022 + top);
        let count = (unit + fraction) * pow2(more);
        assert(scaled_value(bits) == count * spacing) by (nonlinear_arith)
            requires
                scaled_value(bits) == (unit + fraction) * pow2((field - 1) as nat),
                pow2((field - 1) as nat) == pow2(more) * spacing,
                count == (unit + fraction) * pow2(more),
        ;
        if count <= quotient {
            assert(count * spacing <= quotient * spacing) by (nonlinear_arith)
                requires
                    count <= quotient,
                    spacing > 0,
            ;
        } else {
            assert(count * spacing >= (quotient + 1) * spacing) by (nonlinear_arith)
                requires
                    count >= quotient + 1,
                    spacing > 0,
            ;
        }
    } else if field >= 1 {
        let low = pow2((field - 1) as nat);
        if field - 1 < 1021 + top {
            lemma_pow2_strictly_increases((field - 1) as nat, 1021 + top);
        }
        lemma_pow2_unfold(1022 + top);
        assert(scaled_value(bits) <= quotient * spacing) by (nonlinear_arith)
            requires
                scaled_value(bits) == (unit + fraction) * low,
                fraction < unit,
                low <= pow2(1021 + top),
                spacing == 2 * pow2(1021 + top),
                unit <= quotient,
        ;
    } else {
        assert(fraction <= quotient * spacing) by (nonlinear_arith)
            requires
                fraction < unit,
                unit <= quotient,
                spacing > 0,
        ;
    }
}

/// The double that `nearest_bits` gives for an integer is the nearest
/// there is: no finite double that is not negative lies closer to the
/// integer, and one that lies as close and is another number shows that
/// the integer is halfway between the two, of which `nearest_bits` gives
/// the one with the even significand.
#[verifier::rlimit(50)]
pub proof fn nearest_is_nearest(n: nat, other: nat)
    requires
        n < pow2(64),
        is_finite(other),
    ensures
        is_finite(nearest_bits(n)),
        distance(scaled_value(nearest_bits(n)), scaled_integer(n)) <= distance(
            scaled_value(other),
            scaled_integer(n),
        ),
        distance(scaled_value(nearest_bits(n)), scaled_integer(n)) == distance(
            scaled_value(other),
            scaled_integer(n),
        ) && scaled_value(other) != scaled_value(nearest_bits(n)) ==> nearest_bits(n) % 2 == 0,
{
    lemma2_to64();
    lemma2_to64_rest();
    let top = top_bit(n);
    if n == 0 {
        small_integers_are_exact(n);
    } else {
        lemma_top_bit_bounds(n);
        lemma_significand_range(n);
        if top <= 52 {
            if top < 52 {
                lemma_pow2_strictly_increases(top, 52);
            }
            small_integers_are_exact(n);
        } else {
            let ulp = pow2((top - 52) as nat);
            let quantum = pow2(1074);
            let spacing = pow2(1022 + top);
            let quotient = n / ulp;
            let rest = n % ulp;
            let chosen = round_half_even(n, ulp);
            let target = scaled_integer(n);
            let gap = rest * quantum;
            lemma_pow2_pos((top - 52) as nat);
            lemma_pow2_pos(1074);
            lemma_pow2_adds((top - 52) as nat, 1074);
            lemma_pow2_adds(52, (top - 52) as nat);
            lemma_fundamental_div_mod(n as int, ulp as int);
            lemma_mod_bound(n as int, ulp as int);
            lemma_nearest_value(n);
            assert(pow2(52) <= quotient) by (nonlinear_arith)
                requires
                    n == ulp * quotient + rest,
                    0 <= rest < ulp,
                    pow2(52) * ulp <= n,
            ;
            lemma_no_double_between(other, top, quotient);
            assert(target == quotient * spacing + gap) by (nonlinear_arith)
                requires
                    target == n * quantum,
                    n == ulp * quotient + rest,
                    spacing == ulp * quantum,
                    gap == rest * quantum,
            ;
            assert((quotient + 1) * spacing == quotient * spacing + spacing) by (nonlinear_arith);
            assert(0 <= gap < spacing && (2 * rest < ulp <==> 2 * gap < spacing) && (2 * rest == ulp
                <==> 2 * gap == spacing)) by (nonlinear_arith)
                requires
                    0 <= rest < ulp,
                    spacing == ulp * quantum,
                    gap == rest * quantum,
                    quantum > 0,
            ;
            assert(scaled_value(nearest_bits(n)) == chosen * spacing);
            assert(chosen == quotient || chosen == quotient + 1);
        }
    }
}

} // verus!
