//! The pointer sensitivity, held as the bit pattern of a binary64 number, and the scaling of
//! pointer deltas by it.

use crate::protocol::MAX_POINTER_DELTA;
use vstd::arithmetic::power2::*;
use vstd::prelude::*;

verus! {

/// The pattern of the smallest sensitivity, one tenth.
pub const SENSITIVITY_MIN_BITS: u64 = 0x3fb9_9999_9999_999a;

/// The pattern of the largest sensitivity, five.
pub const SENSITIVITY_MAX_BITS: u64 = 0x4014_0000_0000_0000;

/// The pattern of the default sensitivity, one.
pub const SENSITIVITY_ONE_BITS: u64 = 0x3ff0_0000_0000_0000;

/// The largest scaled delta: five times the largest delta of the protocol.
pub const MAX_SCALED_DELTA: i32 = 10240;

const HIDDEN_BIT: u64 = 0x10_0000_0000_0000;

const SIGN_BIT: u64 = 0x8000_0000_0000_0000;

/// Positive numbers are ordered as their patterns are; every negative number, infinity and
/// not-a-number lies outside these bounds.
pub open spec fn sensitivity_in_range(bits: u64) -> bool {
    SENSITIVITY_MIN_BITS <= bits <= SENSITIVITY_MAX_BITS
}

pub fn is_sensitivity_in_range(bits: u64) -> (valid: bool)
    ensures
        valid == sensitivity_in_range(bits),
{
    SENSITIVITY_MIN_BITS <= bits && bits <= SENSITIVITY_MAX_BITS
}

/// Whether the number is below zero (or is the negative zero).
pub open spec fn negative(bits: u64) -> bool {
    bits >= 0x8000_0000_0000_0000
}

/// The eleven exponent bits.
pub open spec fn exponent(bits: u64) -> int {
    (bits as int / 0x10_0000_0000_0000) % 2048
}

/// The fifty-two fraction bits.
pub open spec fn fraction(bits: u64) -> int {
    bits as int % 0x10_0000_0000_0000
}

/// The significand, with the leading bit that a normal number leaves unwritten.
pub open spec fn significand(bits: u64) -> int {
    if exponent(bits) == 0 {
        fraction(bits)
    } else {
        fraction(bits) + 0x10_0000_0000_0000
    }
}

/// A finite number is `significand * 2^-scale`.
pub open spec fn scale(bits: u64) -> int {
    1075 - if exponent(bits) == 0 {
        1
    } else {
        exponent(bits)
    }
}

/// The weight of the last of the fifty-three leading bits of `n`.
pub open spec fn last_place(n: nat) -> nat
    decreases n,
{
    if n < 0x20_0000_0000_0000 {
        1
    } else {
        2 * last_place(n / 2)
    }
}

/// `n` rounded to fifty-three significant bits, a tie to the even neighbour.
pub open spec fn round_to_53_bits(n: nat) -> nat {
    let unit = last_place(n);
    let below = n / unit;
    let rest = n % unit;
    if 2 * rest > unit || (2 * rest == unit && below % 2 == 1) {
        (below + 1) * unit
    } else {
        below * unit
    }
}

/// `n * 2^-places` rounded to an integer, a half away from zero.
pub open spec fn round_half_up(n: nat, places: nat) -> nat {
    if places == 0 {
        n
    } else {
        (n + pow2((places - 1) as nat)) / pow2(places)
    }
}

pub open spec fn at_most(value: int, limit: int) -> int {
    if value > limit {
        limit
    } else {
        value
    }
}

/// The magnitude of `round(value * sensitivity)`, the product rounded to binary64 first, limited
/// to the largest scaled delta. Not-a-number counts as zero.
pub open spec fn scaled_magnitude(value: nat, bits: u64) -> int {
    let product = value * significand(bits) as nat;
    if product == 0 {
        0
    } else if exponent(bits) == 2047 {
        if fraction(bits) == 0 {
            MAX_SCALED_DELTA as int
        } else {
            0
        }
    } else if scale(bits) <= 0 {
        MAX_SCALED_DELTA as int
    } else {
        at_most(
            round_half_up(round_to_53_bits(product), scale(bits) as nat) as int,
            MAX_SCALED_DELTA as int,
        )
    }
}

pub open spec fn magnitude(value: int) -> nat {
    (if value < 0 {
        -value
    } else {
        value
    }) as nat
}

/// A pointer delta multiplied by the sensitivity and rounded to an integer.
pub open spec fn scaled(value: int, bits: u64) -> int {
    if (value < 0) != negative(bits) {
        -scaled_magnitude(magnitude(value), bits)
    } else {
        scaled_magnitude(magnitude(value), bits)
    }
}

proof fn lemma_last_place(n: nat)
    ensures
        last_place(n) > 0,
        n < last_place(n) * 0x20_0000_0000_0000,
    decreases n,
{
    if n >= 0x20_0000_0000_0000 {
        lemma_last_place(n / 2);
    }
}

/// Rounding to fifty-three bits at most doubles a number.
proof fn lemma_rounded_bound(n: nat)
    ensures
        round_to_53_bits(n) <= 2 * n,
        n < 0x20_0000_0000_0000 ==> round_to_53_bits(n) == n,
{
    lemma_last_place(n);
    let unit = last_place(n);
    vstd::arithmetic::div_mod::lemma_fundamental_div_mod(n as int, unit as int);
    if n < 0x20_0000_0000_0000 {
        assert((n / unit) * unit == n && n % unit == 0) by (nonlinear_arith)
            requires
                unit == 1,
        ;
    } else {
        lemma_last_place_fits(n);
        assert((n / unit + 1) * unit == (n / unit) * unit + unit) by (nonlinear_arith);
        assert((n / unit) * unit <= n) by (nonlinear_arith)
            requires
                n == unit * (n / unit) + n % unit,
                n % unit >= 0,
        ;
    }
}

proof fn lemma_last_place_fits(n: nat)
    ensures
        n == 0 || last_place(n) <= n,
    decreases n,
{
    if n >= 0x20_0000_0000_0000 {
        lemma_last_place_fits(n / 2);
    }
}

fn find_last_place(n: u128) -> (unit: u128)
    requires
        n < 0x1_0000_0000_0000_0000_0000_0000,
    ensures
        unit == last_place(n as nat),
    decreases n,
{
    if n < 0x20_0000_0000_0000 {
        1
    } else {
        let half: u128 = find_last_place(n / 2);
        proof {
            lemma_last_place_fits((n / 2) as nat);
        }
        2 * half
    }
}

fn rounded(n: u128) -> (r: u128)
    requires
        n < 0x1_0000_0000_0000_0000_0000_0000,
    ensures
        r == round_to_53_bits(n as nat),
{
    let unit: u128 = find_last_place(n);
    proof {
        lemma_last_place(n as nat);
        lemma_rounded_bound(n as nat);
        lemma_last_place_fits(n as nat);
        vstd::arithmetic::div_mod::lemma_fundamental_div_mod(n as int, unit as int);
        vstd::arithmetic::div_mod::lemma_mod_bound(n as int, unit as int);
        assert((n as int / unit as int) * unit <= n) by (nonlinear_arith)
            requires
                n as int == unit * (n as int / unit as int) + n as int % unit as int,
                n as int % unit as int >= 0,
        ;
        assert((n as int / unit as int + 1) * unit == (n as int / unit as int) * unit + unit)
            by (nonlinear_arith);
    }
    let below: u128 = n / unit;
    let rest: u128 = n % unit;
    if 2 * rest > unit || (2 * rest == unit && below % 2 == 1) {
        (below + 1) * unit
    } else {
        below * unit
    }
}

fn power_of_two(places: u32) -> (power: u128)
    requires
        places <= 90,
    ensures
        power == pow2(places as nat),
        0 < power <= 0x400_0000_0000_0000_0000_0000,
{
    let mut power: u128 = 1;
    let mut i: u32 = 0;
    proof {
        lemma2_to64();
        lemma_pow2_adds(64, 26);
    }
    while i < places
        invariant
            i <= places <= 90,
            power == pow2(i as nat),
            0 < power <= pow2(90),
            pow2(90) == 0x400_0000_0000_0000_0000_0000,
        decreases places - i,
    {
        proof {
            lemma_pow2_unfold((i + 1) as nat);
            if i + 1 < 90 {
                lemma_pow2_strictly_increases((i + 1) as nat, 90);
            }
        }
        power = 2 * power;
        i = i + 1;
    }
    power
}

/// A number of at most eighty-five bits vanishes behind more than ninety places.
proof fn lemma_vanishes(n: nat, places: nat)
    requires
        n <= 0x20_0000_0000_0000_0000_0000,
        places > 90,
    ensures
        round_half_up(n, places) == 0,
{
    lemma2_to64();
    lemma_pow2_adds(64, 26);
    lemma_pow2_unfold(places);
    if places > 91 {
        lemma_pow2_strictly_increases(90, (places - 1) as nat);
    }
    assert(n + pow2((places - 1) as nat) < pow2(places));
    vstd::arithmetic::div_mod::lemma_basic_div(
        (n + pow2((places - 1) as nat)) as int,
        pow2(places) as int,
    );
}

fn scale_magnitude(value: u32, bits: u64) -> (result: i32)
    requires
        value <= 0x8000_0000,
    ensures
        result == scaled_magnitude(value as nat, bits),
        0 <= result <= MAX_SCALED_DELTA,
{
    let field: u64 = (bits / HIDDEN_BIT) % 2048;
    let low: u64 = bits % HIDDEN_BIT;
    let digits: u64 = if field == 0 {
        low
    } else {
        low + HIDDEN_BIT
    };
    assert(value * digits <= 0x8000_0000 * 0x20_0000_0000_0000) by (nonlinear_arith)
        requires
            value <= 0x8000_0000,
            digits <= 0x20_0000_0000_0000,
    ;
    let product: u128 = (value as u128) * (digits as u128);
    if product == 0 {
        return 0;
    }
    if field == 2047 {
        return if low == 0 {
            MAX_SCALED_DELTA
        } else {
            0
        };
    }
    if field >= 1075 {
        return MAX_SCALED_DELTA;
    }
    let places: u32 = 1075 - (if field == 0 {
        1u32
    } else {
        field as u32
    });
    let near: u128 = rounded(product);
    proof {
        lemma_rounded_bound(product as nat);
    }
    if places > 90 {
        proof {
            lemma_vanishes(near as nat, places as nat);
        }
        return 0;
    }
    let half: u128 = power_of_two(places - 1);
    let whole: u128 = power_of_two(places);
    let result: u128 = (near + half) / whole;
    if result > MAX_SCALED_DELTA as u128 {
        MAX_SCALED_DELTA
    } else {
        result as i32
    }
}

/// Multiplies a pointer delta by the sensitivity and rounds to the nearest integer.
pub fn scale_pointer(value: i32, sensitivity_bits: u64) -> (result: i32)
    ensures
        result == scaled(value as int, sensitivity_bits),
        -MAX_SCALED_DELTA <= result <= MAX_SCALED_DELTA,
{
    let positive: u32 = if value < 0 {
        (-(value as i64)) as u32
    } else {
        value as u32
    };
    let size: i32 = scale_magnitude(positive, sensitivity_bits);
    if (value < 0) != (sensitivity_bits >= SIGN_BIT) {
        -size
    } else {
        size
    }
}

/// The default sensitivity leaves every delta of the protocol as it is.
pub proof fn law_default_sensitivity_is_identity(value: int)
    requires
        -MAX_POINTER_DELTA <= value <= MAX_POINTER_DELTA,
    ensures
        scaled(value, SENSITIVITY_ONE_BITS) == value,
{
    let size = magnitude(value);
    let product = size * 0x10_0000_0000_0000;
    lemma2_to64();
    lemma2_to64_rest();
    assert(exponent(SENSITIVITY_ONE_BITS) == 1023);
    assert(fraction(SENSITIVITY_ONE_BITS) == 0);
    lemma_multiple_is_exact(size);
    assert((product + 0x8_0000_0000_0000) / 0x10_0000_0000_0000 == size as int);
}

/// A small multiple of 2^52 has fifty-three significant bits or fewer that matter.
proof fn lemma_multiple_is_exact(size: nat)
    requires
        size <= 2048,
    ensures
        round_to_53_bits(size * 0x10_0000_0000_0000) == size * 0x10_0000_0000_0000,
{
    let n = size * 0x10_0000_0000_0000;
    lemma_last_place(n);
    lemma2_to64();
    assert(n % 2048 == 0);
    lemma_last_place_divides(n, 11);
    let unit = last_place(n);
    vstd::arithmetic::div_mod::lemma_fundamental_div_mod(n as int, unit as int);
    assert((n / unit) * unit == n) by (nonlinear_arith)
        requires
            n == unit * (n / unit) + n % unit,
            n % unit == 0,
    ;
}

/// The last place divides a number whose low bits are zero.
proof fn lemma_last_place_divides(n: nat, steps: nat)
    requires
        n % pow2(steps) == 0,
        n < 0x20_0000_0000_0000 * pow2(steps),
    ensures
        n % last_place(n) == 0,
    decreases steps,
{
    lemma2_to64();
    if n < 0x20_0000_0000_0000 {
        assert(n % 1 == 0);
    } else {
        let half = pow2((steps - 1) as nat);
        lemma_pow2_unfold(steps);
        lemma_pow2_pos((steps - 1) as nat);
        let k = n / pow2(steps);
        vstd::arithmetic::div_mod::lemma_fundamental_div_mod(n as int, pow2(steps) as int);
        assert(n == 2 * (half * k)) by (nonlinear_arith)
            requires
                n == (2 * half) * k,
        ;
        assert(n / 2 == half * k);
        vstd::arithmetic::div_mod::lemma_mod_multiples_basic(k as int, half as int);
        assert(k * half == half * k) by (nonlinear_arith);
        lemma_last_place_divides(n / 2, (steps - 1) as nat);
        let unit = last_place(n / 2);
        lemma_last_place(n / 2);
        let m = (n / 2) / unit;
        vstd::arithmetic::div_mod::lemma_fundamental_div_mod((n / 2) as int, unit as int);
        assert(n == m * (2 * unit)) by (nonlinear_arith)
            requires
                n == 2 * (unit * m),
        ;
        vstd::arithmetic::div_mod::lemma_mod_multiples_basic(m as int, (2 * unit) as int);
    }
}

/// Scaling is symmetric about zero and never leaves the permitted range.
pub proof fn law_scaling_is_odd_and_bounded(value: int, bits: u64)
    ensures
        scaled(-value, bits) == -scaled(value, bits),
        -MAX_SCALED_DELTA <= scaled(value, bits) <= MAX_SCALED_DELTA,
{
    if value == 0 {
        assert(0nat * significand(bits) as nat == 0) by (nonlinear_arith);
    }
}

/// The patterns in range and how many places their numbers have.
proof fn lemma_places_in_range(bits: u64)
    requires
        sensitivity_in_range(bits),
    ensures
        50 <= scale(bits) <= 56,
        0x10_0000_0000_0000 <= significand(bits) < 0x20_0000_0000_0000,
        pow2(scale(bits) as nat) == 0x4_0000_0000_0000 * pow2((scale(bits) - 50) as nat),
        pow2(scale(bits) as nat) == 2 * pow2((scale(bits) - 1) as nat),
{
    lemma2_to64();
    lemma2_to64_rest();
    lemma_pow2_adds(50, (scale(bits) - 50) as nat);
    lemma_pow2_unfold(scale(bits) as nat);
}

/// The sensitivities in range are exactly the numbers from one tenth to five: ten times such a
/// number is at least one, and it is at most five. A negative number, an infinity and what is not
/// a number are out of range.
pub proof fn law_sensitivity_range(bits: u64)
    ensures
        sensitivity_in_range(bits) ==> {
            &&& !negative(bits)
            &&& 10 * significand(bits) >= pow2(scale(bits) as nat)
            &&& significand(bits) <= 5 * pow2(scale(bits) as nat)
        },
        !negative(bits) && scale(bits) >= 0 && 10 * significand(bits) >= pow2(scale(bits) as nat)
            && significand(bits) <= 5 * pow2(scale(bits) as nat) ==> sensitivity_in_range(bits),
{
    lemma2_to64();
    lemma2_to64_rest();
    let s = scale(bits);
    if sensitivity_in_range(bits) {
        lemma_places_in_range(bits);
    }
    if !negative(bits) && s >= 0 && 10 * significand(bits) >= pow2(s as nat) && significand(bits)
        <= 5 * pow2(s as nat) {
        if s > 57 {
            lemma_pow2_strictly_increases(57, s as nat);
        }
        assert(s <= 56);
        assert(exponent(bits) >= 1019);
        if s < 49 {
            lemma_pow2_strictly_increases(s as nat, 49);
        }
        assert(s >= 50);
        assert(bits as int == exponent(bits) * 0x10_0000_0000_0000 + fraction(bits));
    }
}

proof fn lemma_last_place_small(n: nat, steps: nat)
    requires
        n < 0x20_0000_0000_0000 * pow2(steps),
    ensures
        last_place(n) <= pow2(steps),
    decreases steps,
{
    lemma2_to64();
    if n >= 0x20_0000_0000_0000 {
        if steps == 0 {
            assert(pow2(0) == 1);
        } else {
            lemma_pow2_unfold(steps);
            lemma_last_place_small(n / 2, (steps - 1) as nat);
        }
    } else {
        lemma_pow2_pos(steps);
    }
}

/// Rounding to fifty-three bits moves a number by less than its last place.
proof fn lemma_rounding_is_close(n: nat)
    ensures
        -(last_place(n) as int) <= round_to_53_bits(n) - n <= last_place(n),
{
    lemma_last_place(n);
    let unit = last_place(n);
    vstd::arithmetic::div_mod::lemma_fundamental_div_mod(n as int, unit as int);
    vstd::arithmetic::div_mod::lemma_mod_bound(n as int, unit as int);
    assert((n / unit + 1) * unit == (n / unit) * unit + unit) by (nonlinear_arith);
    assert((n / unit) * unit == unit * (n / unit)) by (nonlinear_arith);
}

/// Dividing by a power of two and rounding moves a number by half a unit at most.
proof fn lemma_half_up_is_close(n: nat, places: nat)
    requires
        places > 0,
    ensures
        2 * (round_half_up(n, places) * pow2(places) - n) <= pow2(places),
        2 * (n - round_half_up(n, places) * pow2(places)) <= pow2(places),
{
    lemma_pow2_unfold(places);
    lemma_pow2_pos((places - 1) as nat);
    let half = pow2((places - 1) as nat);
    let whole = pow2(places);
    let q = round_half_up(n, places);
    vstd::arithmetic::div_mod::lemma_fundamental_div_mod((n + half) as int, whole as int);
    vstd::arithmetic::div_mod::lemma_mod_bound((n + half) as int, whole as int);
    assert(q * whole == whole * q) by (nonlinear_arith);
}

/// The scaled delta is the delta times the sensitivity, rounded to the nearest whole number: it is
/// off by no more than one half and the rounding of the product to a binary64 number. It goes the
/// way of the delta.
pub proof fn law_scaling_is_accurate(value: int, bits: u64)
    requires
        sensitivity_in_range(bits),
        -2048 <= value <= 2048,
    ensures
        ({
            let unit = pow2(scale(bits) as nat);
            let off = scaled(value, bits) * unit - value * significand(bits);
            &&& 2 * off <= unit + 4096
            &&& -2 * off <= unit + 4096
        }),
        value > 0 ==> scaled(value, bits) >= 0,
        value < 0 ==> scaled(value, bits) <= 0,
        value == 0 ==> scaled(value, bits) == 0,
{
    lemma_places_in_range(bits);
    law_sensitivity_range(bits);
    lemma2_to64();
    let size = magnitude(value);
    let digits = significand(bits) as nat;
    let s = scale(bits) as nat;
    let unit = pow2(s);
    let product = size * digits;
    assert(product < 0x20_0000_0000_0000 * 2048) by (nonlinear_arith)
        requires
            product == size * digits,
            size <= 2048,
            digits < 0x20_0000_0000_0000,
    ;
    assert(product <= 10240 * unit) by (nonlinear_arith)
        requires
            product == size * digits,
            size <= 2048,
            digits <= 5 * unit,
    ;
    lemma_last_place_small(product, 11);
    lemma_rounding_is_close(product);
    let near = round_to_53_bits(product);
    lemma_half_up_is_close(near, s);
    let q = round_half_up(near, s);
    if product == 0 {
        assert(size == 0) by (nonlinear_arith)
            requires
                size * digits == 0,
                digits > 0,
        ;
        assert(value == 0);
        assert(scaled_magnitude(0, bits) == 0);
        assert(value * significand(bits) == 0) by (nonlinear_arith)
            requires
                value == 0,
        ;
        assert(0 * unit == 0);
    } else {
        assert(unit >= 0x4_0000_0000_0000) by {
            lemma_pow2_pos((s - 50) as nat);
        }
        assert(q <= 10240) by (nonlinear_arith)
            requires
                2 * (q * unit - near) <= unit,
                near <= product + 2048,
                product <= 10240 * unit,
                unit >= 0x4_0000_0000_0000,
        ;
        assert(scaled_magnitude(size, bits) == q);
        if value < 0 {
            assert((-(q as int)) * unit == -(q * unit)) by (nonlinear_arith);
            assert(value * significand(bits) == -(product as int)) by (nonlinear_arith)
                requires
                    value == -(size as int),
                    product == size * significand(bits),
            ;
        } else {
            assert(value * significand(bits) == product) by (nonlinear_arith)
                requires
                    value == size,
                    product == size * significand(bits),
            ;
        }
    }
}

/// A product that lies in the middle between two whole numbers goes to the one further from zero.
pub proof fn law_halves_go_away_from_zero(value: nat, bits: u64, below: nat)
    requires
        sensitivity_in_range(bits),
        value <= 2048,
        value * significand(bits) < 0x20_0000_0000_0000,
        2 * (value * significand(bits)) == (2 * below + 1) * pow2(scale(bits) as nat),
        below < 10240,
    ensures
        scaled(value as int, bits) == below + 1,
        scaled(-(value as int), bits) == -(below + 1),
{
    lemma_places_in_range(bits);
    let s = scale(bits) as nat;
    let product = value * significand(bits) as nat;
    let half = pow2((s - 1) as nat);
    lemma_pow2_pos((s - 1) as nat);
    lemma_rounded_bound(product);
    assert(product == (2 * below + 1) * half) by (nonlinear_arith)
        requires
            2 * product == (2 * below + 1) * (2 * half),
    ;
    assert(product + half == (below + 1) * (2 * half)) by (nonlinear_arith)
        requires
            product == (2 * below + 1) * half,
    ;
    vstd::arithmetic::div_mod::lemma_div_multiples_vanish((below + 1) as int, (2 * half) as int);
    assert((below + 1) * (2 * half) == (2 * half) * (below + 1)) by (nonlinear_arith);
    assert(round_half_up(product, s) == below + 1);
    assert(product > 0) by (nonlinear_arith)
        requires
            product == (2 * below + 1) * half,
            half > 0,
    ;
    assert(value > 0) by {
        if value == 0 {
            assert(0 * significand(bits) == 0);
        }
    }
}

} // verus!
