//! Double-precision numbers by their IEEE-754 bit patterns.
//!
//! A pattern is a `u64`: one sign bit, eleven exponent bits, fifty-two
//! fraction bits. The functions here state, over integers, when two doubles
//! compare equal, which double a 64-bit integer converts to, and when that
//! double equals another.
use vstd::arithmetic::div_mod::{lemma_fundamental_div_mod, lemma_mod_multiples_basic};
use vstd::arithmetic::mul::lemma_mul_equality_converse;
use vstd::arithmetic::power2::{
    lemma2_to64, lemma2_to64_rest, lemma_pow2_adds, lemma_pow2_pos, lemma_pow2_strictly_increases,
    lemma_pow2_unfold, pow2,
};
use vstd::prelude::*;

verus! {

/// 2^52: the number of fraction patterns, and the weight of the hidden bit.
pub const FRACTION_RANGE: u64 = 0x10_0000_0000_0000;

/// 2^53: every integer below it in magnitude is a double.
pub const SIGNIFICAND_RANGE: u64 = 0x20_0000_0000_0000;

/// 2^63: the weight of the sign bit.
pub const SIGN_WEIGHT: u64 = 0x8000_0000_0000_0000;

/// The exponent field of infinities and NaNs.
pub const EXPONENT_SPECIAL: u64 = 0x7ff;

/// Whether the sign bit is set.
pub open spec fn negative(bits: u64) -> bool {
    bits >= SIGN_WEIGHT
}

/// The biased exponent, in `0..=0x7ff`.
pub open spec fn exponent_field(bits: u64) -> int {
    (bits as int / FRACTION_RANGE as int) % 0x800
}

/// The fraction, in `0..2^52`.
pub open spec fn fraction_field(bits: u64) -> int {
    bits as int % FRACTION_RANGE as int
}

/// Not a number: the exponent is all ones and the fraction is not zero.
pub open spec fn nan(bits: u64) -> bool {
    exponent_field(bits) == EXPONENT_SPECIAL && fraction_field(bits) != 0
}

/// Neither an infinity nor a NaN.
pub open spec fn finite(bits: u64) -> bool {
    exponent_field(bits) != EXPONENT_SPECIAL
}

/// Positive or negative zero.
pub open spec fn zero(bits: u64) -> bool {
    exponent_field(bits) == 0 && fraction_field(bits) == 0
}

/// IEEE-754 equality: a NaN equals nothing, not even itself; the two zeros
/// are equal; any other two doubles are equal when their patterns are.
pub open spec fn same_value(a: u64, b: u64) -> bool {
    !nan(a) && !nan(b) && (a == b || (zero(a) && zero(b)))
}

/// The integer significand of a finite double, hidden bit included.
pub open spec fn significand(bits: u64) -> int {
    if exponent_field(bits) == 0 {
        fraction_field(bits)
    } else {
        FRACTION_RANGE as int + fraction_field(bits)
    }
}

/// The power of two that scales the significand: a finite double has the
/// magnitude `significand * 2^scale`.
pub open spec fn scale(bits: u64) -> int {
    if exponent_field(bits) == 0 {
        -1074
    } else {
        exponent_field(bits) - 1075
    }
}

/// The absolute value of an integer.
pub open spec fn magnitude(n: int) -> nat {
    if n < 0 {
        (-n) as nat
    } else {
        n as nat
    }
}

/// Whether the double `bits` is finite and has exactly the integer value
/// `n`. Both zeros have the value 0.
pub open spec fn has_integer_value(bits: u64, n: int) -> bool {
    &&& finite(bits)
    &&& n != 0 ==> negative(bits) == (n < 0)
    &&& if scale(bits) >= 0 {
        significand(bits) * pow2(scale(bits) as nat) == magnitude(n)
    } else {
        significand(bits) == magnitude(n) * pow2((-scale(bits)) as nat)
    }
}

/// The step between the integers that are doubles, around the magnitude
/// `m`: 1 up to 2^53, and twice as much in each binade above.
pub open spec fn spacing(m: nat) -> nat
    decreases m,
{
    if m < SIGNIFICAND_RANGE {
        1
    } else {
        2 * spacing(m / 2)
    }
}

/// The multiple of `unit` nearest to `m`; of two equally near, the even
/// multiple.
pub open spec fn round_half_even(m: nat, unit: nat) -> nat {
    let q: nat = m / unit;
    let r: nat = m % unit;
    if 2 * r < unit || (2 * r == unit && q % 2 == 0) {
        q * unit
    } else {
        (q + 1) * unit
    }
}

/// The value of the double nearest to the integer `x`, ties to even: what
/// converting `x` to a double gives.
pub open spec fn nearest_double(x: int) -> int {
    let r: nat = round_half_even(magnitude(x), spacing(magnitude(x)));
    if x < 0 {
        -(r as int)
    } else {
        r as int
    }
}

/// Whether the integer `x`, converted to a double, equals the double `bits`.
pub open spec fn integer_equals(x: int, bits: u64) -> bool {
    has_integer_value(bits, nearest_double(x))
}

/// The pattern made of a sign, an exponent field and a fraction.
pub open spec fn pattern(sign: bool, exponent: int, fraction: int) -> int {
    (if sign {
        SIGN_WEIGHT as int
    } else {
        0
    }) + exponent * FRACTION_RANGE as int + fraction
}

/// A pattern made of three fields has those fields.
pub proof fn lemma_fields_of_pattern(bits: u64, sign: bool, exponent: int, fraction: int)
    requires
        0 <= exponent < 0x800,
        0 <= fraction < FRACTION_RANGE,
        bits == pattern(sign, exponent, fraction),
    ensures
        negative(bits) == sign,
        exponent_field(bits) == exponent,
        fraction_field(bits) == fraction,
{
}

/// Every pattern is made of its three fields.
pub proof fn lemma_pattern_of_fields(bits: u64)
    ensures
        bits == pattern(negative(bits), exponent_field(bits), fraction_field(bits)),
        0 <= exponent_field(bits) < 0x800,
        0 <= fraction_field(bits) < FRACTION_RANGE,
{
}

/// Scaled by 2^1074 the magnitude of every finite double is an integer; for
/// a double with the integer value `n` it is the magnitude of `n`, scaled as
/// much.
proof fn lemma_scaled_value(bits: u64, n: int)
    requires
        has_integer_value(bits, n),
    ensures
        significand(bits) * pow2((scale(bits) + 1074) as nat) == magnitude(n) * pow2(1074),
{
    let sig: int = significand(bits);
    let big: int = magnitude(n) as int;
    let whole: int = pow2(1074) as int;
    if scale(bits) >= 0 {
        let up: int = pow2(scale(bits) as nat) as int;
        lemma_pow2_adds(scale(bits) as nat, 1074);
        assert(sig * (up * whole) == (sig * up) * whole) by (nonlinear_arith);
    } else {
        let down: int = pow2((-scale(bits)) as nat) as int;
        let rest: int = pow2((scale(bits) + 1074) as nat) as int;
        lemma_pow2_adds((-scale(bits)) as nat, (scale(bits) + 1074) as nat);
        assert((big * down) * rest == big * (down * rest)) by (nonlinear_arith);
    }
}

/// Two doubles that compare equal have the same integer value, if any.
pub proof fn lemma_equal_doubles_share_integer_value(a: u64, b: u64, n: int)
    requires
        has_integer_value(a, n),
        same_value(a, b),
    ensures
        has_integer_value(b, n),
{
    if a != b {
        let big: int = magnitude(n) as int;
        let whole: int = pow2(1074) as int;
        lemma_pow2_pos(1074);
        assert(big == 0) by (nonlinear_arith)
            requires
                big * whole == 0,
                whole > 0,
                big >= 0,
        ;
        assert(0 * whole == 0) by (nonlinear_arith);
    }
}

/// Two doubles with the same integer value compare equal: apart from the two
/// zeros, an integer has one pattern only.
pub proof fn lemma_integer_value_is_unique(a: u64, b: u64, n: int)
    requires
        has_integer_value(a, n),
        has_integer_value(b, n),
    ensures
        same_value(a, b),
{
    lemma_pattern_of_fields(a);
    lemma_pattern_of_fields(b);
    lemma_scaled_value(a, n);
    lemma_scaled_value(b, n);
    if scale(a) >= scale(b) {
        lemma_significands_agree(a, b);
    } else {
        lemma_significands_agree(b, a);
    }
    if n == 0 {
        let whole: int = pow2(1074) as int;
        let sa: int = significand(a);
        let pa: int = pow2((scale(a) + 1074) as nat) as int;
        lemma_pow2_pos((scale(a) + 1074) as nat);
        assert(0 * whole == 0) by (nonlinear_arith);
        assert(sa == 0) by (nonlinear_arith)
            requires
                sa * pa == 0,
                pa > 0,
                sa >= 0,
        ;
    }
}

/// Two finite doubles of the same magnitude have the same exponent field and
/// the same fraction. The magnitudes are compared scaled by 2^1074.
proof fn lemma_significands_agree(a: u64, b: u64)
    requires
        finite(a),
        finite(b),
        scale(a) >= scale(b),
        significand(a) * pow2((scale(a) + 1074) as nat) == significand(b) * pow2(
            (scale(b) + 1074) as nat,
        ),
    ensures
        scale(a) == scale(b),
        significand(a) == significand(b),
        exponent_field(a) == exponent_field(b),
        fraction_field(a) == fraction_field(b),
{
    lemma_pattern_of_fields(a);
    lemma_pattern_of_fields(b);
    let sa: int = significand(a);
    let sb: int = significand(b);
    let gap: nat = (scale(a) - scale(b)) as nat;
    let base: int = pow2((scale(b) + 1074) as nat) as int;
    let step: int = pow2(gap) as int;
    lemma_pow2_adds(gap, (scale(b) + 1074) as nat);
    lemma_pow2_pos((scale(b) + 1074) as nat);
    assert(sa * (step * base) == base * (sa * step)) by (nonlinear_arith);
    assert(sb * base == base * sb) by (nonlinear_arith);
    lemma_mul_equality_converse(base, sa * step, sb);
    lemma2_to64();
    if gap > 0 {
        if gap > 1 {
            lemma_pow2_strictly_increases(1, gap);
        }
        assert(sa * step >= 0x20_0000_0000_0000) by (nonlinear_arith)
            requires
                sa >= 0x10_0000_0000_0000,
                step >= 2,
        ;
    } else {
        assert(sa * 1 == sa);
    }
}

/// The step between the integers that are doubles is never less than 1.
pub proof fn lemma_spacing_positive(m: nat)
    ensures
        spacing(m) >= 1,
    decreases m,
{
    if m >= SIGNIFICAND_RANGE {
        lemma_spacing_positive(m / 2);
    }
}

/// Every integer up to 2^53 in magnitude is a double: converting it changes
/// nothing.
pub proof fn lemma_small_integers_are_exact(x: int)
    requires
        magnitude(x) <= SIGNIFICAND_RANGE,
    ensures
        nearest_double(x) == x,
{
    let m: nat = magnitude(x);
    if m == SIGNIFICAND_RANGE {
        assert(spacing((m / 2) as nat) == 1);
        assert(spacing(m) == 2);
    } else {
        assert(spacing(m) == 1);
    }
}

/// Converting an integer gives a multiple of the step around it that is at
/// most half a step away, with the sign of the integer.
pub proof fn lemma_nearest_double_is_near(x: int)
    ensures
        magnitude(nearest_double(x)) % spacing(magnitude(x)) == 0,
        2 * magnitude(nearest_double(x) - x) <= spacing(magnitude(x)),
        x >= 0 ==> nearest_double(x) >= 0,
        x <= 0 ==> nearest_double(x) <= 0,
{
    let m: nat = magnitude(x);
    let unit: nat = spacing(m);
    lemma_spacing_positive(m);
    let q: nat = m / unit;
    let up: nat = q + 1;
    lemma_fundamental_div_mod(m as int, unit as int);
    lemma_mod_multiples_basic(q as int, unit as int);
    lemma_mod_multiples_basic(up as int, unit as int);
    assert(up * unit == q * unit + unit) by (nonlinear_arith)
        requires
            up == q + 1,
    ;
    assert(unit * q == q * unit) by (nonlinear_arith);
}

/// An integer equals a double exactly when the double it converts to
/// compares equal to that double.
pub proof fn lemma_integer_equals_by_conversion(x: int, converted: u64, bits: u64)
    requires
        has_integer_value(converted, nearest_double(x)),
    ensures
        integer_equals(x, bits) <==> same_value(converted, bits),
{
    if integer_equals(x, bits) {
        lemma_integer_value_is_unique(converted, bits, nearest_double(x));
    }
    if same_value(converted, bits) {
        lemma_equal_doubles_share_integer_value(converted, bits, nearest_double(x));
    }
}

/// Equality of two doubles, as the hardware compares them.
pub fn doubles_equal(a: u64, b: u64) -> (r: bool)
    ensures
        r == same_value(a, b),
{
    let a_exponent: u64 = (a / FRACTION_RANGE) % 0x800;
    let a_fraction: u64 = a % FRACTION_RANGE;
    let b_exponent: u64 = (b / FRACTION_RANGE) % 0x800;
    let b_fraction: u64 = b % FRACTION_RANGE;
    let a_nan = a_exponent == EXPONENT_SPECIAL && a_fraction != 0;
    let b_nan = b_exponent == EXPONENT_SPECIAL && b_fraction != 0;
    let a_zero = a_exponent == 0 && a_fraction == 0;
    let b_zero = b_exponent == 0 && b_fraction == 0;
    !a_nan && !b_nan && (a == b || (a_zero && b_zero))
}

/// The absolute value of `x`, which always fits in a `u64`.
fn unsigned_magnitude(x: i64) -> (m: u64)
    ensures
        m == magnitude(x as int),
        m <= SIGN_WEIGHT,
{
    if x >= 0 {
        x as u64
    } else {
        (-(x + 1)) as u64 + 1
    }
}

/// The step around `m`, found by halving `m` until it fits in fifty-three
/// bits, with the number of halvings.
fn spacing_of(m: u64) -> (r: (u64, u64))
    requires
        m <= SIGN_WEIGHT,
    ensures
        r.0 == spacing(m as nat),
        r.0 == pow2(r.1 as nat),
        r.1 <= 11,
        1 <= r.0 <= 0x800,
        m < SIGNIFICAND_RANGE * r.0,
        r.0 > 1 ==> FRACTION_RANGE * r.0 <= m,
{
    let mut unit: u64 = 1;
    let mut halvings: u64 = 0;
    let mut rest: u64 = m;
    proof {
        lemma2_to64();
    }
    while rest >= SIGNIFICAND_RANGE
        invariant
            m <= SIGN_WEIGHT,
            1 <= unit <= 0x800,
            halvings <= 11,
            unit == pow2(halvings as nat),
            unit * rest <= m < unit * (rest + 1),
            unit > 1 ==> rest >= FRACTION_RANGE,
            spacing(m as nat) == unit * spacing(rest as nat),
        decreases rest,
    {
        proof {
            let u: int = unit as int;
            let t: int = rest as int;
            assert(u <= 0x400) by (nonlinear_arith)
                requires
                    u * t <= 0x8000_0000_0000_0000,
                    t >= 0x20_0000_0000_0000,
                    u >= 1,
            ;
            assert((2 * u) * (t / 2) <= u * t && u * (t + 1) <= (2 * u) * (t / 2 + 1))
                by (nonlinear_arith)
                requires
                    u >= 1,
                    t >= 0,
            ;
            let half: int = spacing((rest / 2) as nat) as int;
            assert(u * (2 * half) == (2 * u) * half) by (nonlinear_arith);
            lemma_pow2_unfold((halvings + 1) as nat);
            lemma2_to64();
            if halvings > 10 {
                lemma_pow2_strictly_increases(10, halvings as nat);
            }
        }
        rest = rest / 2;
        unit = unit * 2;
        halvings = halvings + 1;
    }
    proof {
        let u: int = unit as int;
        let t: int = rest as int;
        assert(spacing(rest as nat) == 1 && unit * 1 == unit);
        assert(u * (t + 1) <= 0x20_0000_0000_0000 * u) by (nonlinear_arith)
            requires
                u >= 1,
                t + 1 <= 0x20_0000_0000_0000,
        ;
        assert(u > 1 ==> 0x10_0000_0000_0000 * u <= u * t) by (nonlinear_arith)
            requires
                u >= 1,
                u > 1 ==> t >= 0x10_0000_0000_0000,
        ;
    }
    (unit, halvings)
}

/// The double nearest to the integer `x`, ties to even: what converting
/// `x` to a double gives.
pub fn double_of_integer(x: i64) -> (bits: u64)
    ensures
        has_integer_value(bits, nearest_double(x as int)),
        negative(bits) == (x < 0),
{
    let m: u64 = unsigned_magnitude(x);
    if m == 0 {
        proof {
            lemma_fields_of_pattern(0, false, 0, 0);
            assert(spacing(0) == 1);
            assert(0 * pow2(1074) == 0) by (nonlinear_arith);
        }
        return 0;
    }
    let (unit, halvings) = spacing_of(m);
    let q: u64 = m / unit;
    let rem: u64 = m % unit;
    proof {
        let qi: int = q as int;
        let ui: int = unit as int;
        lemma_fundamental_div_mod(m as int, ui);
        assert(ui * qi == qi * ui && (qi + 1) * ui == qi * ui + ui) by (nonlinear_arith);
        assert(qi < 0x20_0000_0000_0000) by (nonlinear_arith)
            requires
                qi * ui <= m,
                m < 0x20_0000_0000_0000 * ui,
                ui >= 1,
        ;
        assert(ui > 1 ==> qi >= 0x10_0000_0000_0000) by (nonlinear_arith)
            requires
                m < (qi + 1) * ui,
                ui > 1 ==> 0x10_0000_0000_0000 * ui <= m,
                ui >= 1,
        ;
    }
    let quotient: u64 = if 2 * rem < unit || (2 * rem == unit && q % 2 == 0) {
        q
    } else {
        q + 1
    };
    assert(round_half_even(m as nat, unit as nat) == quotient * unit);
    let mut mantissa: u64 = quotient;
    let exponent: u64;
    if quotient == SIGNIFICAND_RANGE {
        mantissa = FRACTION_RANGE;
        exponent = 1076 + halvings;
        proof {
            let p: int = pow2(halvings as nat) as int;
            lemma_pow2_unfold((halvings + 1) as nat);
            assert(0x10_0000_0000_0000 * (2 * p) == 0x20_0000_0000_0000 * p) by (nonlinear_arith);
        }
    } else if quotient >= FRACTION_RANGE {
        exponent = 1075 + halvings;
    } else {
        let mut doublings: u64 = 0;
        proof {
            lemma2_to64();
            assert(quotient * 1 == quotient);
        }
        while mantissa < FRACTION_RANGE
            invariant
                1 <= quotient,
                1 <= mantissa < SIGNIFICAND_RANGE,
                doublings <= 52,
                mantissa == quotient * pow2(doublings as nat),
            decreases SIGNIFICAND_RANGE - mantissa,
        {
            proof {
                let p: int = pow2(doublings as nat) as int;
                let qi: int = quotient as int;
                lemma2_to64_rest();
                lemma_pow2_unfold((doublings + 1) as nat);
                if doublings >= 52 {
                    if doublings > 52 {
                        lemma_pow2_strictly_increases(52, doublings as nat);
                    }
                    assert(qi * p >= 0x10_0000_0000_0000) by (nonlinear_arith)
                        requires
                            qi >= 1,
                            p >= 0x10_0000_0000_0000,
                    ;
                }
                assert(qi * (2 * p) == 2 * (qi * p)) by (nonlinear_arith);
            }
            mantissa = mantissa * 2;
            doublings = doublings + 1;
        }
        exponent = 1075 - doublings;
        proof {
            lemma2_to64();
            assert(quotient * unit == quotient) by (nonlinear_arith)
                requires
                    unit == 1,
            ;
        }
    }
    let sign_part: u64 = if x < 0 {
        SIGN_WEIGHT
    } else {
        0
    };
    let bits: u64 = sign_part + exponent * FRACTION_RANGE + (mantissa - FRACTION_RANGE);
    proof {
        lemma_fields_of_pattern(bits, x < 0, exponent as int, mantissa - FRACTION_RANGE);
        lemma2_to64();
        assert(mantissa * 1 == mantissa);
    }
    bits
}

/// Equality of the integer `x` with the double `bits`: `x` is converted to
/// the nearest double, and the two doubles are compared as the hardware
/// compares them.
pub fn integer_equals_double(x: i64, bits: u64) -> (r: bool)
    ensures
        r == integer_equals(x as int, bits),
{
    let converted: u64 = double_of_integer(x);
    proof {
        lemma_integer_equals_by_conversion(x as int, converted, bits);
    }
    doubles_equal(converted, bits)
}

} // verus!
