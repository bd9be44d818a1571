//! Provider prices: a price in dollars, as the bits of a double, into whole
//! millionths of a dollar, with the roundings that double arithmetic makes.

use vstd::prelude::*;
use vstd::arithmetic::power2::{lemma_pow2_pos, lemma_pow2_unfold, pow2};
use vstd::arithmetic::div_mod::lemma_div_denominator;

verus! {

/// The largest integer that a receipt may carry: 2^53 - 1, up to which a
/// double holds every integer exactly.
pub const JCS_SAFE_MAX: u64 = 9007199254740991;

/// The exponent field of a double.
pub open spec fn exponent_field(bits: u64) -> int {
    (bits as int / 0x10_0000_0000_0000) % 0x800
}

/// The fraction field of a double.
pub open spec fn fraction_field(bits: u64) -> int {
    bits as int % 0x10_0000_0000_0000
}

/// Whether the double is a number, neither infinite nor a NaN.
pub open spec fn is_finite(bits: u64) -> bool {
    exponent_field(bits) != 0x7ff
}

/// Whether the double is below zero; minus zero is not.
pub open spec fn is_negative(bits: u64) -> bool {
    bits > 0x8000_0000_0000_0000
}

/// The integer significand of a finite double, whose absolute value is
/// `significand * 2^scale`.
pub open spec fn significand(bits: u64) -> int {
    if exponent_field(bits) == 0 {
        fraction_field(bits)
    } else {
        fraction_field(bits) + 0x10_0000_0000_0000
    }
}

/// The power of two that goes with [`significand`].
pub open spec fn scale(bits: u64) -> int {
    if exponent_field(bits) == 0 {
        -1074
    } else {
        exponent_field(bits) - 1075
    }
}

/// The nearest integer to `n / d`; of two equally near ones the even one.
pub open spec fn nearest_even(n: int, d: int) -> int {
    let q = n / d;
    let r = n % d;
    if 2 * r > d || (2 * r == d && q % 2 == 1) {
        q + 1
    } else {
        q
    }
}

/// How many low bits have to go before `n` fits the 53 bits of a double.
pub open spec fn excess_bits(n: int) -> nat
    decreases n,
{
    if n < 0x20_0000_0000_0000 {
        0
    } else {
        excess_bits(n / 2) + 1
    }
}

/// The nearest integer to `n / 2^shift`, halves going up.
pub open spec fn nearest_up(n: int, shift: nat) -> int
    recommends
        shift > 0,
{
    (n / pow2((shift - 1) as nat) as int + 1) / 2
}

/// A dollar price times one million as double arithmetic computes it: the
/// exact product, rounded to the 53 bits of a double, rounded to an integer.
pub open spec fn micros(bits: u64) -> int {
    let product = significand(bits) * 1000000;
    let excess = excess_bits(product);
    let rounded = nearest_even(product, pow2(excess) as int);
    let shift = scale(bits) + excess;
    if shift >= 0 {
        rounded * pow2(shift as nat)
    } else {
        nearest_up(rounded, (-shift) as nat)
    }
}

/// What a price comes to.
pub enum Price {
    /// Not a finite number, or below zero.
    Improper,
    /// More than [`JCS_SAFE_MAX`] millionths.
    Excessive,
    /// So many millionths of a dollar.
    Micros(u64),
}

/// What the bits of a double come to as a price in dollars.
pub open spec fn price_of(bits: u64) -> Price {
    if !is_finite(bits) || is_negative(bits) {
        Price::Improper
    } else if micros(bits) > JCS_SAFE_MAX {
        Price::Excessive
    } else {
        Price::Micros(micros(bits) as u64)
    }
}

/// Dividing by 2^a and halving is dividing by 2^(a+1).
proof fn lemma_halve(n: int, a: nat)
    requires
        n >= 0,
    ensures
        (n / pow2(a) as int) / 2 == n / pow2(a + 1) as int,
        pow2(a + 1) == 2 * pow2(a),
        pow2(a) > 0,
{
    lemma_pow2_pos(a);
    lemma_pow2_unfold(a + 1);
    lemma_div_denominator(n, pow2(a) as int, 2);
    assert(pow2(a) as int * 2 == pow2(a + 1) as int);
}

/// The bits that are too many, counted from a part that has already lost some.
proof fn lemma_excess_step(n: int, k: nat)
    requires
        n >= 0,
        n / pow2(k) as int >= 0x20_0000_0000_0000,
        excess_bits(n) == k + excess_bits(n / pow2(k) as int),
    ensures
        excess_bits(n) == k + 1 + excess_bits(n / pow2(k + 1) as int),
{
    lemma_halve(n, k);
}

/// What a price in dollars, given by the bits of a double, comes to.
pub fn price(bits: u64) -> (p: Price)
    ensures
        p == price_of(bits),
{
    let exponent: u64 = (bits / 0x10_0000_0000_0000) % 0x800;
    let fraction: u64 = bits % 0x10_0000_0000_0000;
    if exponent == 0x7ff || bits > 0x8000_0000_0000_0000 {
        return Price::Improper;
    }
    let significand: u64 = if exponent == 0 {
        fraction
    } else {
        fraction + 0x10_0000_0000_0000
    };
    let scale: i64 = if exponent == 0 {
        -1074
    } else {
        exponent as i64 - 1075
    };
    let product: u128 = significand as u128 * 1000000;
    let mut kept: u128 = product;
    let mut unit: u128 = 1;
    let mut excess: u64 = 0;
    proof {
        vstd::arithmetic::power2::lemma2_to64();
        assert(product as int / 1 == product);
    }
    while kept >= 0x20_0000_0000_0000
        invariant
            product < 0x20_0000_0000_0000 * 1000000,
            kept == product as int / pow2(excess as nat) as int,
            unit == pow2(excess as nat),
            unit * kept <= product,
            unit >= 1,
            excess_bits(product as int) == excess + excess_bits(kept as int),
            excess <= 20,
        decreases kept,
    {
        proof {
            lemma_excess_step(product as int, excess as nat);
            lemma_halve(product as int, excess as nat);
            assert(unit * 0x20_0000_0000_0000 <= unit * kept) by (nonlinear_arith)
                requires
                    kept >= 0x20_0000_0000_0000,
                    unit >= 0,
            ;
            assert((unit * 2) * (kept / 2) <= unit * kept) by (nonlinear_arith)
                requires
                    unit >= 0,
                    kept >= 0,
            ;
            vstd::arithmetic::power2::lemma2_to64();
        }
        kept = kept / 2;
        unit = unit * 2;
        excess = excess + 1;
    }
    let rest: u128 = product % unit;
    let rounded: u128 = if 2 * rest > unit || (2 * rest == unit && kept % 2 == 1) {
        kept + 1
    } else {
        kept
    };
    let shift: i64 = scale + excess as i64;
    proof {
        assert(rounded == nearest_even(product as int, pow2(excess_bits(product as int)) as int));
        assert(shift == self::scale(bits) + excess_bits(product as int));
        assert(product == self::significand(bits) * 1000000);
    }
    if shift >= 0 {
        let mut doubled: u128 = rounded;
        let mut left: i64 = shift;
        proof {
            lemma_pow2_pos(shift as nat);
        }
        while left > 0
            invariant
                0 <= left,
                doubled <= JCS_SAFE_MAX * 2 + 2,
                doubled * pow2(left as nat) == micros(bits),
                price_of(bits) == (if micros(bits) > JCS_SAFE_MAX {
                    Price::Excessive
                } else {
                    Price::Micros(micros(bits) as u64)
                }),
            decreases left,
        {
            proof {
                lemma_pow2_pos(left as nat);
                lemma_pow2_unfold(left as nat);
            }
            if doubled > JCS_SAFE_MAX as u128 {
                proof {
                    let step = pow2(left as nat) as int;
                    assert(doubled * step >= doubled) by (nonlinear_arith)
                        requires
                            step >= 1,
                            doubled >= 0,
                    ;
                }
                return Price::Excessive;
            }
            proof {
                let half = pow2((left - 1) as nat) as int;
                assert((doubled * 2) * half == doubled * (2 * half)) by (nonlinear_arith);
            }
            doubled = doubled * 2;
            left = left - 1;
        }
        proof {
            vstd::arithmetic::power2::lemma2_to64();
            assert(doubled * pow2(0) == doubled);
            assert(doubled == micros(bits));
        }
        if doubled > JCS_SAFE_MAX as u128 {
            Price::Excessive
        } else {
            Price::Micros(doubled as u64)
        }
    } else {
        let mut halved: u128 = rounded;
        let ghost mut done: nat = 0;
        let mut left: i64 = -shift - 1;
        proof {
            vstd::arithmetic::power2::lemma2_to64();
        }
        while left > 0
            invariant
                0 <= left,
                done + left == -shift - 1,
                halved == rounded as int / pow2(done) as int,
                halved <= 0x20_0000_0000_0000,
            decreases left,
        {
            proof {
                lemma_halve(rounded as int, done);
                done = done + 1;
            }
            halved = halved / 2;
            left = left - 1;
        }
        let result: u128 = (halved + 1) / 2;
        assert(done == ((-shift) as nat - 1) as nat);
        assert(result == micros(bits));
        if result > JCS_SAFE_MAX as u128 {
            Price::Excessive
        } else {
            Price::Micros(result as u64)
        }
    }
}

/// A price is rounded to the nearest whole number of millionths: what it
/// comes to is off by half a millionth at most, and by the last half bit of a
/// double, where the exact product needs more bits than a double has. The
/// distance is measured in units of the double's own scale.
pub proof fn law_prices_are_rounded_to_the_nearest(bits: u64)
    requires
        is_finite(bits),
        scale(bits) < 0,
        scale(bits) + excess_bits(significand(bits) * 1000000) < 0,
    ensures
        ({
            let unit = pow2((-scale(bits)) as nat) as int;
            let spared = pow2(excess_bits(significand(bits) * 1000000)) as int;
            let exact = significand(bits) * 1000000;
            let got = micros(bits) * unit;
            &&& 2 * (got - exact) <= unit + spared
            &&& 2 * (exact - got) <= unit + spared
        }),
{
    let product = significand(bits) * 1000000;
    let excess = excess_bits(product);
    let spared = pow2(excess) as int;
    let rounded = nearest_even(product, spared);
    let shift = (-(scale(bits) + excess)) as nat;
    let half = pow2((shift - 1) as nat) as int;
    let step = pow2(shift) as int;
    let unit = pow2((-scale(bits)) as nat) as int;
    lemma_pow2_pos(excess);
    lemma_pow2_pos((shift - 1) as nat);
    lemma_pow2_unfold(shift);
    lemma_pow2_adds(shift, excess);
    assert(shift + excess == (-scale(bits)) as nat);
    assert(unit == step * spared);
    lemma_nearest_even(product, spared);
    let result = (rounded / half + 1) / 2;
    assert(rounded >= 0);
    lemma_nearest_up(rounded, half);
    assert(micros(bits) == result);
    assert(step == 2 * half);
    assert(2 * (result * (step * spared) - product) <= step * spared + spared && 2 * (product - result * (step * spared))
        <= step * spared + spared) by (nonlinear_arith)
        requires
            -step <= 2 * (result * step - rounded) <= step,
            -spared <= 2 * (rounded * spared - product) <= spared,
            spared > 0,
            step > 0,
    ;
}

/// Powers of two multiply by adding.
proof fn lemma_pow2_adds(a: nat, b: nat)
    ensures
        pow2(a + b) == pow2(a) * pow2(b),
{
    vstd::arithmetic::power2::lemma_pow2_adds(a, b);
}

/// The nearest integer, of two the even one, is off by half at most.
proof fn lemma_nearest_even(n: int, d: int)
    requires
        d > 0,
        n >= 0,
    ensures
        -d <= 2 * (nearest_even(n, d) * d - n) <= d,
        nearest_even(n, d) >= 0,
{
    let q = n / d;
    let r = n % d;
    assert(n == q * d + r && 0 <= r < d && q >= 0) by (nonlinear_arith)
        requires
            d > 0,
            n >= 0,
            q == n / d,
            r == n % d,
    ;
    assert((q + 1) * d == q * d + d) by (nonlinear_arith);
}

/// The nearest integer, halves going up, is off by half at most.
proof fn lemma_nearest_up(n: int, half: int)
    requires
        half > 0,
        n >= 0,
    ensures
        -(2 * half) <= 2 * (((n / half + 1) / 2) * (2 * half) - n) <= 2 * half,
{
    let q = n / half;
    let r = n % half;
    let m = (q + 1) / 2;
    assert(n == q * half + r && 0 <= r < half) by (nonlinear_arith)
        requires
            half > 0,
            n >= 0,
            q == n / half,
            r == n % half,
    ;
    assert(2 * m == q || 2 * m == q + 1);
    if 2 * m == q {
        assert(m * (2 * half) == q * half) by (nonlinear_arith)
            requires
                2 * m == q,
        ;
    } else {
        assert(m * (2 * half) == q * half + half) by (nonlinear_arith)
            requires
                2 * m == q + 1,
        ;
    }
}

/// A whole number of millionths that a double can hold exactly, with nothing
/// to spare, is priced exactly; a price of zero is zero, and a price that is
/// below zero, infinite or no number is none.
pub proof fn law_exact_prices_stay_exact(bits: u64)
    ensures
        price_of(bits) is Improper <==> (exponent_field(bits) == 0x7ff || bits > 0x8000_0000_0000_0000),
        is_finite(bits) && excess_bits(significand(bits) * 1000000) == 0 && scale(bits) >= 0 ==> micros(bits)
            == significand(bits) * 1000000 * pow2(scale(bits) as nat),
        price_of(bits) matches Price::Micros(n) ==> n == micros(bits) && n <= 9007199254740991,
        price_of(bits) is Excessive ==> micros(bits) > 9007199254740991,
        bits == 0 ==> micros(bits) == 0,
{
    vstd::arithmetic::power2::lemma2_to64();
    let product = significand(bits) * 1000000;
    assert(product / 1 == product && product % 1 == 0);
    lemma_micros_are_not_negative(bits);
    if bits == 0 {
        assert(exponent_field(bits) == 0);
        assert(significand(bits) == 0);
        assert(excess_bits(0) == 0);
        assert(nearest_even(0, 1) == 0);
        let half = pow2(1073) as int;
        lemma_pow2_pos(1073);
        assert(0int / half == 0) by (nonlinear_arith)
            requires
                half > 0,
        ;
        assert(micros(bits) == nearest_up(0, 1074));
    }
}

/// What a price comes to is not below zero.
proof fn lemma_micros_are_not_negative(bits: u64)
    ensures
        micros(bits) >= 0,
{
    let product = significand(bits) * 1000000;
    let excess = excess_bits(product);
    let spared = pow2(excess) as int;
    lemma_pow2_pos(excess);
    assert(product >= 0);
    lemma_nearest_even(product, spared);
    let rounded = nearest_even(product, spared);
    let shift = scale(bits) + excess;
    if shift >= 0 {
        let step = pow2(shift as nat) as int;
        lemma_pow2_pos(shift as nat);
        assert(rounded * step >= 0) by (nonlinear_arith)
            requires
                rounded >= 0,
                step > 0,
        ;
    } else {
        let half = pow2((-shift - 1) as nat) as int;
        lemma_pow2_pos((-shift - 1) as nat);
        lemma_nearest_up(rounded, half);
        assert(rounded / half >= 0) by (nonlinear_arith)
            requires
                rounded >= 0,
                half > 0,
        ;
    }
}

} // verus!
