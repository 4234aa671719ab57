//! Finite binary64 numbers by their bits, compared exactly.
//!
//! Every finite binary64 number is a whole multiple of two to the power of
//! -1074, so its exact value is an integer in that unit.

use vstd::prelude::*;

verus! {

/// Two to the power of 52, the weight of the lowest exponent bit.
pub const FRACTION: u64 = 0x10_0000_0000_0000;

/// Two to the power of 63, the weight of the sign bit.
pub const SIGN: u64 = 0x8000_0000_0000_0000;

/// How one number compares with another.
#[derive(Debug, Clone, Copy, PartialEq, Eq, Structural)]
pub enum NumberOrder {
    /// It is less.
    Less,
    /// It is the same.
    Equal,
    /// It is greater.
    Greater,
}

/// The bits without the sign.
pub open spec fn magnitude_bits(bits: u64) -> u64 {
    bits % SIGN
}

/// Whether the sign bit is set.
pub open spec fn sign_bit(bits: u64) -> bool {
    bits >= SIGN
}

/// The exponent field.
pub open spec fn exponent(bits: u64) -> u64 {
    magnitude_bits(bits) / FRACTION
}

/// Whether the bits are those of a finite number.
pub open spec fn finite(bits: u64) -> bool {
    exponent(bits) != 0x7ff
}

/// The significand, as an integer.
pub open spec fn significand(bits: u64) -> nat {
    if exponent(bits) == 0 {
        (bits % FRACTION) as nat
    } else {
        (bits % FRACTION + FRACTION) as nat
    }
}

/// How far the significand is shifted, in units.
pub open spec fn shift(bits: u64) -> nat {
    if exponent(bits) == 0 {
        0
    } else {
        (exponent(bits) - 1) as nat
    }
}

/// The absolute value, in units.
pub open spec fn magnitude(bits: u64) -> nat {
    significand(bits) * vstd::arithmetic::power2::pow2(shift(bits))
}

/// The value, in units.
pub open spec fn units(bits: u64) -> int {
    if sign_bit(bits) {
        -(magnitude(bits) as int)
    } else {
        magnitude(bits) as int
    }
}

/// The value of the integer `n`, in units.
pub open spec fn integer_units(n: int) -> int {
    n * vstd::arithmetic::power2::pow2(1074)
}

/// How `a` compares with `b`.
pub open spec fn order_of(a: int, b: int) -> NumberOrder {
    if a < b {
        NumberOrder::Less
    } else if a == b {
        NumberOrder::Equal
    } else {
        NumberOrder::Greater
    }
}

/// Tells whether the bits are those of a finite number.
pub fn is_finite(bits: u64) -> (r: bool)
    ensures
        r == finite(bits),
{
    (bits % SIGN) / FRACTION != 0x7ff
}

/// The powers of two in this unit are positive and add up.
proof fn lemma_units()
    ensures
        vstd::arithmetic::power2::pow2(1074) > 0,
        vstd::arithmetic::power2::pow2(52) == FRACTION,
        vstd::arithmetic::power2::pow2(53) == 2 * FRACTION,
        vstd::arithmetic::power2::pow2(63) == SIGN,
        vstd::arithmetic::power2::pow2(64) == 2 * SIGN,
        vstd::arithmetic::power2::pow2(11) == 2048,
        vstd::arithmetic::power2::pow2(12) == 4096,
{
    vstd::arithmetic::power2::lemma_pow2_pos(1074);
    vstd::arithmetic::power2::lemma2_to64();
    vstd::arithmetic::power2::lemma2_to64_rest();
}

/// Bounds of the significand.
proof fn lemma_significand(bits: u64)
    ensures
        significand(bits) < vstd::arithmetic::power2::pow2(53),
        exponent(bits) != 0 ==> significand(bits) >= vstd::arithmetic::power2::pow2(52),
        exponent(bits) < 2048,
{
    lemma_units();
    assert(bits % SIGN < SIGN);
    assert((bits % SIGN) / FRACTION < 2048) by (nonlinear_arith)
        requires
            bits % SIGN < SIGN,
            SIGN == 2048 * FRACTION,
            FRACTION == 0x10_0000_0000_0000,
    ;
}

/// More magnitude bits mean a greater magnitude.
proof fn lemma_magnitude_grows(a: u64, b: u64)
    requires
        magnitude_bits(a) < magnitude_bits(b),
    ensures
        magnitude(a) < magnitude(b),
{
    lemma_units();
    lemma_significand(a);
    lemma_significand(b);
    let x = magnitude_bits(a) as int;
    let y = magnitude_bits(b) as int;
    let f = FRACTION as int;
    assert(a % FRACTION == x % f && b % FRACTION == y % f) by (nonlinear_arith)
        requires
            x == a as int % SIGN as int,
            y == b as int % SIGN as int,
            f == FRACTION as int,
            SIGN as int == 2048 * f,
            f == 0x10_0000_0000_0000,
    ;
    vstd::arithmetic::div_mod::lemma_fundamental_div_mod(x, f);
    vstd::arithmetic::div_mod::lemma_fundamental_div_mod(y, f);
    let ea = x / f;
    let eb = y / f;
    assert(ea <= eb) by {
        vstd::arithmetic::div_mod::lemma_div_is_ordered(x, y, f);
    }
    let ka = shift(a);
    let kb = shift(b);
    vstd::arithmetic::power2::lemma_pow2_pos(ka);
    vstd::arithmetic::power2::lemma_pow2_pos(kb);
    let ma = significand(a) as int;
    let mb = significand(b) as int;
    if ea == eb {
        assert(ma < mb);
        assert(ma * vstd::arithmetic::power2::pow2(ka) < mb * vstd::arithmetic::power2::pow2(ka)) by (nonlinear_arith)
            requires
                ma < mb,
                vstd::arithmetic::power2::pow2(ka) > 0,
        ;
    } else if ka == kb {
        assert(ma < f <= mb);
        assert(ma * vstd::arithmetic::power2::pow2(ka) < mb * vstd::arithmetic::power2::pow2(ka)) by (nonlinear_arith)
            requires
                ma < mb,
                vstd::arithmetic::power2::pow2(ka) > 0,
        ;
    } else {
        assert(ka + 1 <= kb);
        if ka + 1 < kb {
            vstd::arithmetic::power2::lemma_pow2_strictly_increases((ka + 1) as nat, kb);
        }
        vstd::arithmetic::power2::lemma_pow2_adds(1, ka);
        assert(vstd::arithmetic::power2::pow2(1) == 2) by {
            vstd::arithmetic::power2::lemma2_to64();
        }
        assert(2 * vstd::arithmetic::power2::pow2(ka) <= vstd::arithmetic::power2::pow2(kb));
        assert(ma * vstd::arithmetic::power2::pow2(ka) < mb * vstd::arithmetic::power2::pow2(kb)) by (nonlinear_arith)
            requires
                0 <= ma < 2 * f,
                mb >= f,
                f > 0,
                2 * vstd::arithmetic::power2::pow2(ka) <= vstd::arithmetic::power2::pow2(kb),
                vstd::arithmetic::power2::pow2(ka) > 0,
        ;
    }
}

/// The units of two numbers are ordered as their signs and magnitude bits are.
proof fn lemma_zero_magnitude(bits: u64)
    ensures
        magnitude(bits) == 0 <==> magnitude_bits(bits) == 0,
{
    lemma_units();
    if magnitude_bits(bits) == 0 {
        assert(bits % FRACTION == 0) by (nonlinear_arith)
            requires
                bits as int % SIGN as int == 0,
                SIGN as int == 2048 * FRACTION as int,
                FRACTION == 0x10_0000_0000_0000,
        ;
        assert(significand(bits) == 0);
        assert(0nat * vstd::arithmetic::power2::pow2(shift(bits)) == 0) by (nonlinear_arith);
    } else {
        assert(magnitude_bits(0) == 0 && magnitude_bits(0) < magnitude_bits(bits));
        lemma_magnitude_grows(0, bits);
    }
}

/// Compares two finite numbers.
pub fn order_floats(left: u64, right: u64) -> (r: NumberOrder)
    ensures
        r == order_of(units(left), units(right)),
{
    let a: u64 = left % SIGN;
    let b: u64 = right % SIGN;
    proof {
        lemma_zero_magnitude(left);
        lemma_zero_magnitude(right);
        if a < b {
            lemma_magnitude_grows(left, right);
        } else if b < a {
            lemma_magnitude_grows(right, left);
        } else {
            assert(magnitude(left) == magnitude(right)) by {
                lemma_same_magnitude(left, right);
            }
        }
    }
    let left_negative = left >= SIGN;
    let right_negative = right >= SIGN;
    if a == 0 && b == 0 {
        NumberOrder::Equal
    } else if left_negative && !right_negative {
        NumberOrder::Less
    } else if !left_negative && right_negative {
        NumberOrder::Greater
    } else if a == b {
        NumberOrder::Equal
    } else if (a < b) != left_negative {
        NumberOrder::Less
    } else {
        NumberOrder::Greater
    }
}

/// Computes a power of two.
fn power(e: u64) -> (r: u64)
    requires
        e <= 52,
    ensures
        r == vstd::arithmetic::power2::pow2(e as nat),
{
    proof {
        lemma_units();
        vstd::arithmetic::power2::lemma2_to64();
    }
    let mut r: u64 = 1;
    let mut i: u64 = 0;
    while i < e
        invariant
            i <= e <= 52,
            r == vstd::arithmetic::power2::pow2(i as nat),
            r <= FRACTION,
            vstd::arithmetic::power2::pow2(52) == FRACTION,
        decreases e - i,
    {
        proof {
            vstd::arithmetic::power2::lemma_pow2_unfold((i + 1) as nat);
            if i + 1 < 52 {
                vstd::arithmetic::power2::lemma_pow2_strictly_increases((i + 1) as nat, 52);
            }
        }
        r = r * 2;
        i += 1;
    }
    r
}

/// The whole part of a magnitude, where it fits into a `u64`, and whether there
/// is a fraction left.
struct Whole {
    part: Option<u64>,
    fraction: bool,
}

/// `w` describes the magnitude of `bits`.
spec fn is_whole(bits: u64, w: Whole) -> bool {
    match w.part {
        Some(q) => {
            &&& integer_units(q as int) <= magnitude(bits) < integer_units(q + 1)
            &&& w.fraction == (magnitude(bits) != integer_units(q as int))
        },
        None => magnitude(bits) >= integer_units(0x1_0000_0000_0000_0000),
    }
}

/// Splits the magnitude of a number into its whole part and a fraction.
fn whole(bits: u64) -> (r: Whole)
    ensures
        is_whole(bits, r),
{
    let exponent: u64 = (bits % SIGN) / FRACTION;
    let fraction: u64 = bits % FRACTION;
    let significand: u64 = if exponent == 0 {
        fraction
    } else {
        fraction + FRACTION
    };
    let shift: u64 = if exponent == 0 {
        0
    } else {
        exponent - 1
    };
    proof {
        lemma_units();
        lemma_significand(bits);
    }
    let ghost m = significand as int;
    let ghost k = shift as nat;
    let ghost unit = vstd::arithmetic::power2::pow2(1074) as int;
    assert(magnitude(bits) == m * vstd::arithmetic::power2::pow2(k));
    if shift >= 1074 {
        let up: u64 = shift - 1074;
        proof {
            vstd::arithmetic::power2::lemma_pow2_adds(up as nat, 1074);
            let p = vstd::arithmetic::power2::pow2(up as nat) as int;
            assert(m * (p * unit) == (m * p) * unit) by (nonlinear_arith);
            assert(magnitude(bits) == (m * p) * unit);
        }
        if up > 11 {
            proof {
                let p = vstd::arithmetic::power2::pow2(up as nat) as int;
                if up > 12 {
                    vstd::arithmetic::power2::lemma_pow2_strictly_increases(12, up as nat);
                }
                assert(m * p >= 0x1_0000_0000_0000_0000) by (nonlinear_arith)
                    requires
                        m >= FRACTION,
                        p >= 4096,
                        FRACTION == 0x10_0000_0000_0000,
                ;
                assert((m * p) * unit >= 0x1_0000_0000_0000_0000 * unit) by (nonlinear_arith)
                    requires
                        m * p >= 0x1_0000_0000_0000_0000,
                        unit > 0,
                ;
            }
            Whole { part: None, fraction: false }
        } else {
            let scale: u64 = power(up);
            proof {
                vstd::arithmetic::power2::lemma_pow2_pos(up as nat);
                if up < 11 {
                    vstd::arithmetic::power2::lemma_pow2_strictly_increases(up as nat, 11);
                }
                assert(m * scale < 0x1_0000_0000_0000_0000) by (nonlinear_arith)
                    requires
                        0 <= m < 2 * FRACTION,
                        0 < scale <= 2048,
                        FRACTION == 0x10_0000_0000_0000,
                ;
            }
            let q: u64 = significand * scale;
            proof {
                assert((q + 1) * unit == q * unit + unit) by (nonlinear_arith);
            }
            Whole { part: Some(q), fraction: false }
        }
    } else {
        let down: u64 = 1074 - shift;
        proof {
            vstd::arithmetic::power2::lemma_pow2_adds(down as nat, k);
            vstd::arithmetic::power2::lemma_pow2_pos(k);
            vstd::arithmetic::power2::lemma_pow2_pos(down as nat);
        }
        let ghost p = vstd::arithmetic::power2::pow2(down as nat) as int;
        let ghost small = vstd::arithmetic::power2::pow2(k) as int;
        assert(unit == p * small);
        if down > 52 {
            proof {
                if down > 53 {
                    vstd::arithmetic::power2::lemma_pow2_strictly_increases(53, down as nat);
                }
                assert(m * small < p * small) by (nonlinear_arith)
                    requires
                        0 <= m < p,
                        small > 0,
                ;
                assert(m != 0 ==> m * small > 0) by (nonlinear_arith)
                    requires
                        m >= 0,
                        small > 0,
                ;
                assert(m == 0 ==> m * small == 0) by (nonlinear_arith);
                assert(0 * unit == 0 && (0 + 1) * unit == unit) by (nonlinear_arith);
            }
            Whole { part: Some(0), fraction: significand != 0 }
        } else {
            let scale: u64 = power(down);
            let q: u64 = significand / scale;
            let rest: u64 = significand % scale;
            proof {
                vstd::arithmetic::div_mod::lemma_fundamental_div_mod(m, p);
                assert(m * small == q * unit + rest * small) by (nonlinear_arith)
                    requires
                        m == p * q + rest,
                        unit == p * small,
                ;
                assert(rest * small < p * small) by (nonlinear_arith)
                    requires
                        rest < p,
                        small > 0,
                ;
                assert(rest != 0 ==> rest * small > 0) by (nonlinear_arith)
                    requires
                        rest >= 0,
                        small > 0,
                ;
                assert(rest == 0 ==> rest * small == 0) by (nonlinear_arith);
                assert((q + 1) * unit == q * unit + unit) by (nonlinear_arith);
            }
            Whole { part: Some(q), fraction: rest != 0 }
        }
    }
}

/// Integers are ordered as their units are.
proof fn lemma_integer_order(a: int, b: int)
    ensures
        a < b ==> integer_units(a + 1) <= integer_units(b),
        a < b ==> integer_units(a) < integer_units(b),
        integer_units(-a) == -integer_units(a),
{
    lemma_units();
    let unit = vstd::arithmetic::power2::pow2(1074) as int;
    if a < b {
        assert((a + 1) * unit <= b * unit) by (nonlinear_arith)
            requires
                a < b,
                unit > 0,
        ;
        assert(a * unit < b * unit) by (nonlinear_arith)
            requires
                a < b,
                unit > 0,
        ;
    }
    assert((-a) * unit == -(a * unit)) by (nonlinear_arith);
}

/// Compares a count with a magnitude.
fn order_count(left: u64, right: u64) -> (r: NumberOrder)
    ensures
        r == order_of(integer_units(left as int), magnitude(right) as int),
{
    let w = whole(right);
    match w.part {
        None => {
            proof {
                lemma_integer_order(left as int, 0x1_0000_0000_0000_0000);
            }
            NumberOrder::Less
        },
        Some(q) => {
            proof {
                lemma_integer_order(left as int, q as int);
                lemma_integer_order(q as int, left as int);
            }
            if left < q {
                NumberOrder::Less
            } else if left > q {
                NumberOrder::Greater
            } else if w.fraction {
                NumberOrder::Less
            } else {
                NumberOrder::Equal
            }
        },
    }
}

/// Turns an order round.
pub fn reversed(order: NumberOrder) -> (r: NumberOrder)
    ensures
        r == match order {
            NumberOrder::Less => NumberOrder::Greater,
            NumberOrder::Equal => NumberOrder::Equal,
            NumberOrder::Greater => NumberOrder::Less,
        },
{
    match order {
        NumberOrder::Less => NumberOrder::Greater,
        NumberOrder::Equal => NumberOrder::Equal,
        NumberOrder::Greater => NumberOrder::Less,
    }
}

/// The absolute value of an integer.
fn absolute(n: i64) -> (r: u64)
    ensures
        r == if n < 0 {
            -(n as int)
        } else {
            n as int
        },
{
    if n < 0 {
        (-(n + 1)) as u64 + 1
    } else {
        n as u64
    }
}

/// Tells whether a number is less than zero.
fn is_negative(bits: u64) -> (r: bool)
    ensures
        r == (units(bits) < 0),
{
    proof {
        lemma_zero_magnitude(bits);
    }
    bits > SIGN
}

/// Compares an unsigned integer with a finite number, exactly.
pub fn compare_u64_f64(left: u64, right: u64) -> (r: NumberOrder)
    ensures
        r == order_of(integer_units(left as int), units(right)),
{
    proof {
        lemma_units();
        lemma_zero_magnitude(right);
        lemma_integer_order(0, left as int);
        assert(integer_units(0) == 0) by (nonlinear_arith);
    }
    if is_negative(right) {
        return NumberOrder::Greater;
    }
    order_count(left, right)
}

/// Compares a signed integer with a finite number, exactly.
pub fn compare_i64_f64(left: i64, right: u64) -> (r: NumberOrder)
    ensures
        r == order_of(integer_units(left as int), units(right)),
{
    proof {
        lemma_units();
        lemma_zero_magnitude(right);
        lemma_integer_order(0, left as int);
        lemma_integer_order(left as int, 0);
        assert(integer_units(0) == 0) by (nonlinear_arith);
    }
    let negative = is_negative(right);
    if left >= 0 {
        if negative {
            NumberOrder::Greater
        } else {
            order_count(absolute(left), right)
        }
    } else if !negative {
        NumberOrder::Less
    } else {
        proof {
            lemma_integer_order(left as int, left as int);
        }
        reversed(order_count(absolute(left), right))
    }
}

/// Compares a signed with an unsigned integer.
pub fn compare_i64_u64(left: i64, right: u64) -> (r: NumberOrder)
    ensures
        r == order_of(left as int, right as int),
{
    if left < 0 {
        return NumberOrder::Less;
    }
    let left: u64 = absolute(left);
    if left < right {
        NumberOrder::Less
    } else if left == right {
        NumberOrder::Equal
    } else {
        NumberOrder::Greater
    }
}

/// Integers compare as their values in units do.
pub proof fn integers_compare_in_units(a: int, b: int)
    ensures
        order_of(integer_units(a), integer_units(b)) == order_of(a, b),
{
    lemma_integer_order(a, b);
    lemma_integer_order(b, a);
}

/// The magnitude depends on the magnitude bits alone.
proof fn lemma_same_magnitude(a: u64, b: u64)
    requires
        magnitude_bits(a) == magnitude_bits(b),
    ensures
        magnitude(a) == magnitude(b),
{
    lemma_units();
    assert(a % FRACTION == b % FRACTION) by (nonlinear_arith)
        requires
            a as int % SIGN as int == b as int % SIGN as int,
            SIGN as int == 2048 * FRACTION as int,
            FRACTION == 0x10_0000_0000_0000,
    ;
}

} // verus!
