//! Double-precision numbers by their bit patterns.
use vstd::arithmetic::power2::*;
use vstd::prelude::*;

verus! {

/// The exponent field of a double-precision number.
pub open spec fn exponent_of(bits: u64) -> int {
    (bits as int / 0x10_0000_0000_0000) % 2048
}

/// The significand of a normal double-precision number.
pub open spec fn significand_of(bits: u64) -> int {
    0x10_0000_0000_0000 + bits as int % 0x10_0000_0000_0000
}

/// Whether a double-precision number is a whole number from 1 to 65535: it is its
/// significand by a power of two, from 2^-52 to 2^-37.
pub open spec fn is_small_whole(bits: u64, n: int) -> bool {
    &&& bits < 0x8000_0000_0000_0000
    &&& 1023 <= exponent_of(bits) <= 1038
    &&& significand_of(bits) == n * pow2(
        (1075 - exponent_of(bits)) as nat,
    )
}

proof fn lemma_powers()
    ensures
        pow2(0) == 1,
        pow2(37) == 0x20_0000_0000,
        pow2(52) == 0x10_0000_0000_0000,
{
    lemma2_to64();
    lemma_pow2_adds(32, 5);
    lemma_pow2_adds(32, 20);
    assert(0x1_0000_0000 * 32 == 0x20_0000_0000) by (nonlinear_arith);
    assert(0x1_0000_0000 * 0x10_0000 == 0x10_0000_0000_0000) by (nonlinear_arith);
}

/// The whole number from 1 to 65535 that a double-precision number is.
pub fn small_whole(bits: u64) -> (number: Option<u16>)
    ensures
        match number {
            Some(n) => n >= 1 && is_small_whole(bits, n as int),
            None => forall|n: int| 1 <= n <= 65535 ==> !#[trigger] is_small_whole(bits, n),
        },
{
    let exponent: u64 = (bits / 0x10_0000_0000_0000) % 2048;
    if bits >= 0x8000_0000_0000_0000 || exponent < 1023 || exponent > 1038 {
        return None;
    }
    let significand: u64 = 0x10_0000_0000_0000 + bits % 0x10_0000_0000_0000;
    let mut unit: u64 = 1;
    let mut k: u64 = 0;
    proof {
        lemma_powers();
    }
    while k < 1075 - exponent
        invariant
            1023 <= exponent <= 1038,
            k <= 1075 - exponent,
            unit == pow2(k as nat),
            unit <= 0x10_0000_0000_0000,
            k <= 52,
        decreases 1075 - exponent - k,
    {
        proof {
            lemma_pow2_unfold((k + 1) as nat);
            lemma_powers();
            if k < 51 {
                lemma_pow2_strictly_increases((k + 1) as nat, 52);
            }
        }
        unit = unit * 2;
        k += 1;
    }
    proof {
        lemma_powers();
        if exponent < 1038 {
            lemma_pow2_strictly_increases(
                37,
                (1075 - exponent) as nat,
            );
        }
    }
    assert(unit >= 0x20_0000_0000);
    if significand % unit != 0 {
        proof {
            assert forall|n: int| 1 <= n <= 65535 implies !#[trigger] is_small_whole(bits, n) by {
                if is_small_whole(bits, n) {
                    vstd::arithmetic::div_mod::lemma_mod_multiples_basic(n, unit as int);
                }
            }
        }
        return None;
    }
    let whole: u64 = significand / unit;
    proof {
        vstd::arithmetic::div_mod::lemma_fundamental_div_mod(significand as int, unit as int);
        assert(whole * unit == significand) by (nonlinear_arith)
            requires
                significand as int == unit as int * (significand as int / unit as int)
                    + significand as int % unit as int,
                significand % unit == 0,
                whole == significand / unit,
        ;
        assert(1 <= whole <= 65535) by (nonlinear_arith)
            requires
                whole * unit == significand,
                0x10_0000_0000_0000 <= significand,
                significand < 0x20_0000_0000_0000,
                0x20_0000_0000 <= unit <= 0x10_0000_0000_0000,
        ;
    }
    Some(whole as u16)
}

/// The significand of a number, as an integer.
pub open spec fn mantissa_of(bits: u64) -> int {
    if exponent_of(bits) == 0 {
        bits as int % 0x10_0000_0000_0000
    } else {
        significand_of(bits)
    }
}

/// The power of two that the significand is multiplied by.
pub open spec fn scale_of(bits: u64) -> int {
    if exponent_of(bits) == 0 {
        -1074
    } else {
        exponent_of(bits) - 1075
    }
}

/// Whether the sign of a number is set.
pub open spec fn is_negative(bits: u64) -> bool {
    bits >= 0x8000_0000_0000_0000
}

/// The size of a number, rounded down.
pub open spec fn size_floor(bits: u64) -> int {
    if scale_of(bits) >= 0 {
        mantissa_of(bits) * pow2(scale_of(bits) as nat)
    } else {
        mantissa_of(bits) / (pow2((-scale_of(bits)) as nat) as int)
    }
}

/// Whether a number has no fraction.
pub open spec fn has_no_fraction(bits: u64) -> bool {
    scale_of(bits) >= 0 || mantissa_of(bits) % (pow2((-scale_of(bits)) as nat) as int) == 0
}

/// The size of a number, rounded up.
pub open spec fn size_ceil(bits: u64) -> int {
    size_floor(bits) + if has_no_fraction(bits) {
        0int
    } else {
        1int
    }
}

/// A number, rounded down.
pub open spec fn floor_of(bits: u64) -> int {
    if is_negative(bits) {
        -size_ceil(bits)
    } else {
        size_floor(bits)
    }
}

/// A number, rounded up.
pub open spec fn ceil_of(bits: u64) -> int {
    if is_negative(bits) {
        -size_floor(bits)
    } else {
        size_ceil(bits)
    }
}

/// Whether a number is this integer.
pub open spec fn is_whole(bits: u64, n: int) -> bool {
    floor_of(bits) == n && ceil_of(bits) == n
}

/// Whether a number is above zero.
pub open spec fn is_positive(bits: u64) -> bool {
    0 < bits < 0x8000_0000_0000_0000
}

/// Whether a number is zero or above.
pub open spec fn is_not_below_zero(bits: u64) -> bool {
    bits <= 0x8000_0000_0000_0000
}

/// The integer of 64 bits that is nearest to an integer.
pub open spec fn clipped(n: int) -> int {
    if n > i64::MAX {
        i64::MAX as int
    } else if n < i64::MIN {
        i64::MIN as int
    } else {
        n
    }
}

/// A power of two.
fn power(k: u64) -> (unit: u64)
    requires
        k <= 62,
    ensures
        unit == pow2(k as nat),
{
    proof {
        lemma2_to64();
    }
    let mut unit: u64 = 1;
    let mut i: u64 = 0;
    while i < k
        invariant
            i <= k <= 62,
            unit == pow2(i as nat),
        decreases k - i,
    {
        proof {
            lemma_pow2_unfold((i + 1) as nat);
            lemma_bound((i + 1) as nat);
        }
        unit = unit * 2;
        i += 1;
    }
    unit
}

proof fn lemma_bound(k: nat)
    requires
        k <= 62,
    ensures
        pow2(k) <= 0x4000_0000_0000_0000,
        pow2(62) == 0x4000_0000_0000_0000,
{
    lemma2_to64();
    lemma_pow2_adds(31, 31);
    assert(0x8000_0000 * 0x8000_0000 == 0x4000_0000_0000_0000) by (nonlinear_arith);
    if k < 62 {
        lemma_pow2_strictly_increases(k, 62);
    }
}

/// The size of a number rounded down, at most 2^63, and whether it has no
/// fraction.
fn size(bits: u64) -> (outcome: (u64, bool))
    ensures
        outcome.0 == if size_floor(bits) > 0x8000_0000_0000_0000 {
            0x8000_0000_0000_0000
        } else {
            size_floor(bits)
        },
        outcome.1 == has_no_fraction(bits),
{
    let exponent: u64 = (bits / 0x10_0000_0000_0000) % 2048;
    let fraction: u64 = bits % 0x10_0000_0000_0000;
    let mantissa: u64 = if exponent == 0 {
        fraction
    } else {
        0x10_0000_0000_0000 + fraction
    };
    if exponent >= 1086 {
        proof {
            let k = (exponent - 1075) as nat;
            lemma2_to64();
            if k > 11 {
                lemma_pow2_strictly_increases(11, k);
            }
            let unit = pow2(k);
            assert(mantissa * unit >= 0x8000_0000_0000_0000) by (nonlinear_arith)
                requires
                    mantissa >= 0x10_0000_0000_0000,
                    unit >= 2048,
            ;
        }
        return (0x8000_0000_0000_0000, true);
    }
    if exponent >= 1075 {
        let unit: u64 = power(exponent - 1075);
        proof {
            lemma2_to64();
            if exponent < 1085 {
                lemma_pow2_strictly_increases((exponent - 1075) as nat, 10);
            }
            assert(mantissa * unit < 0x8000_0000_0000_0000) by (nonlinear_arith)
                requires
                    mantissa < 0x20_0000_0000_0000,
                    unit <= 1024,
            ;
        }
        return (mantissa * unit, true);
    }
    let k: u64 = if exponent == 0 {
        1074
    } else {
        1075 - exponent
    };
    if k >= 53 {
        proof {
            lemma2_to64();
            lemma_pow2_adds(32, 21);
            assert(0x1_0000_0000 * 0x20_0000 == 0x20_0000_0000_0000) by (nonlinear_arith);
            if k > 53 {
                lemma_pow2_strictly_increases(53, k as nat);
            }
            vstd::arithmetic::div_mod::lemma_small_mod(mantissa as nat, pow2(k as nat));
            vstd::arithmetic::div_mod::lemma_basic_div(mantissa as int, pow2(k as nat) as int);
        }
        return (0, mantissa == 0);
    }
    let unit: u64 = power(k);
    proof {
        lemma_pow2_pos(k as nat);
        vstd::arithmetic::div_mod::lemma_div_is_ordered_by_denominator(
            mantissa as int,
            1,
            unit as int,
        );
    }
    (mantissa / unit, mantissa % unit == 0)
}

/// A finite number rounded down, clipped to 64 bits.
pub fn floor_i64(bits: u64) -> (n: i64)
    ensures
        n == clipped(floor_of(bits)),
{
    let (floor, exact) = size(bits);
    if bits >= 0x8000_0000_0000_0000 {
        if floor >= 0x8000_0000_0000_0000 {
            return i64::MIN;
        }
        let low: i64 = -(floor as i64);
        if exact {
            low
        } else {
            low - 1
        }
    } else if floor >= 0x8000_0000_0000_0000 {
        i64::MAX
    } else {
        floor as i64
    }
}

/// A finite number rounded up, clipped to 64 bits.
pub fn ceil_i64(bits: u64) -> (n: i64)
    ensures
        n == clipped(ceil_of(bits)),
{
    let (floor, exact) = size(bits);
    if bits >= 0x8000_0000_0000_0000 {
        if floor >= 0x8000_0000_0000_0000 {
            return i64::MIN;
        }
        -(floor as i64)
    } else if floor >= 0x7fff_ffff_ffff_ffff {
        i64::MAX
    } else if exact {
        floor as i64
    } else {
        floor as i64 + 1
    }
}

/// How many of the last bits of an integer a significand has no room for.
pub open spec fn bits_over(n: nat) -> nat
    decreases n,
{
    if n < 0x20_0000_0000_0000 {
        0
    } else {
        1 + bits_over(n / 2)
    }
}

/// How many units an integer is, rounded to the nearest number of them, and to the
/// even one of two that are equally near.
pub open spec fn nearest_units(n: nat, unit: nat) -> nat {
    let rest = n % unit;
    if 2 * rest > unit || (2 * rest == unit && (n / unit) % 2 == 1) {
        n / unit + 1
    } else {
        n / unit
    }
}

/// An integer, rounded to one that a significand can hold.
pub open spec fn nearest_held(n: nat) -> nat {
    nearest_units(n, pow2(bits_over(n))) * pow2(bits_over(n))
}

/// The bit pattern of infinity.
pub const INFINITY: u64 = 0x7ff0_0000_0000_0000;

/// Whether a number is finite.
pub open spec fn is_finite(bits: u64) -> bool {
    exponent_of(bits) != 2047
}

/// Whether a bit pattern is that of no number.
pub open spec fn is_nan(bits: u64) -> bool {
    exponent_of(bits) == 2047 && bits as int % 0x10_0000_0000_0000 != 0
}

/// The size of the product of a number and a thousand, as a bit pattern:
/// the significand, rounded, stands above as many exponents as it has moved.
pub open spec fn thousand_size(bits: u64) -> int {
    let product = (mantissa_of(bits) * 1000) as nat;
    let over = bits_over(product);
    (scale_of(bits) + 1074 + over) * 0x10_0000_0000_0000 + nearest_units(product, pow2(over))
}

/// The bit pattern of a number by a thousand, as double-precision numbers are
/// multiplied: infinite where it is too large.
pub open spec fn thousandfold(bits: u64) -> u64 {
    let size = if thousand_size(bits) < INFINITY {
        thousand_size(bits)
    } else {
        INFINITY as int
    };
    (size + if is_negative(bits) {
        0x8000_0000_0000_0000int
    } else {
        0
    }) as u64
}

/// How many units an integer below 2^71 is, rounded, the unit, and which power of
/// two that is: as many of the last bits as a significand has no room for.
fn split(n: u128) -> (parts: (u128, u128, u64))
    requires
        n < 0x80_0000_0000_0000_0000,
    ensures
        parts.2 == bits_over(n as nat),
        parts.1 == pow2(bits_over(n as nat)),
        parts.0 == nearest_units(n as nat, pow2(bits_over(n as nat))),
        parts.2 <= 18,
        parts.1 <= 0x4_0000,
        parts.0 <= 0x20_0000_0000_0000,
        n - 0x4_0000 <= parts.0 * parts.1 <= n + 0x4_0000,
{
    let mut unit: u128 = 1;
    let mut rest: u128 = n;
    let mut over: u64 = 0;
    proof {
        lemma2_to64();
    }
    while rest >= 0x20_0000_0000_0000
        invariant
            n < 0x80_0000_0000_0000_0000,
            over <= 18,
            unit == pow2(over as nat),
            1 <= unit <= 0x4_0000,
            rest == n / unit,
            bits_over(n as nat) == over + bits_over(rest as nat),
        decreases rest,
    {
        proof {
            assert(unit < 0x4_0000) by (nonlinear_arith)
                requires
                    rest == n / unit,
                    rest >= 0x20_0000_0000_0000,
                    n < 0x80_0000_0000_0000_0000,
                    unit > 0,
            ;
            lemma2_to64();
            lemma_pow2_unfold((over + 1) as nat);
            if over < 17 {
                lemma_pow2_strictly_increases((over + 1) as nat, 18);
            }
            vstd::arithmetic::div_mod::lemma_div_denominator(n as int, unit as int, 2);
        }
        unit = unit * 2;
        rest = rest / 2;
        over += 1;
    }
    let left: u128 = n % unit;
    proof {
        vstd::arithmetic::div_mod::lemma_fundamental_div_mod(n as int, unit as int);
        let (whole, wide, low) = (rest as int, unit as int, left as int);
        assert(whole * wide == n - low) by (nonlinear_arith)
            requires
                n as int == wide * whole + low,
        ;
        assert((whole + 1) * wide == n - low + wide) by (nonlinear_arith)
            requires
                n as int == wide * whole + low,
        ;
    }
    if 2 * left > unit || (2 * left == unit && rest % 2 == 1) {
        (rest + 1, unit, over)
    } else {
        (rest, unit, over)
    }
}

/// A number by a thousand.
pub fn by_thousand(bits: u64) -> (product: u64)
    ensures
        product == thousandfold(bits),
{
    let exponent: u64 = (bits / 0x10_0000_0000_0000) % 2048;
    let fraction: u64 = bits % 0x10_0000_0000_0000;
    let mantissa: u64 = if exponent == 0 {
        fraction
    } else {
        0x10_0000_0000_0000 + fraction
    };
    let (units, _, over) = split(mantissa as u128 * 1000);
    // The scale of the number, from that of the smallest one on.
    let scale: u64 = if exponent == 0 {
        0
    } else {
        exponent - 1
    };
    let size: u64 = (scale + over) * 0x10_0000_0000_0000 + units as u64;
    assert(size == thousand_size(bits));
    let bounded: u64 = if size < INFINITY {
        size
    } else {
        INFINITY
    };
    if bits >= 0x8000_0000_0000_0000 {
        bounded + 0x8000_0000_0000_0000
    } else {
        bounded
    }
}

/// Where the product of a number and a thousand is finite, it is the exact
/// product, rounded to what a significand can hold.
pub proof fn products_are_rounded_once(bits: u64)
    requires
        is_finite(bits),
        is_finite(thousandfold(bits)),
    ensures
        ({
            let product = thousandfold(bits);
            let moved = scale_of(product) - scale_of(bits);
            &&& is_negative(product) == is_negative(bits)
            &&& moved >= 0
            &&& mantissa_of(product) * pow2(moved as nat) == nearest_held(
                (mantissa_of(bits) * 1000) as nat,
            )
        }),
{
    let n = (mantissa_of(bits) * 1000) as nat;
    let over = bits_over(n);
    let units = nearest_units(n, pow2(over));
    let product = thousandfold(bits);
    lemma_units(n);
    let base = scale_of(bits) + 1074 + over;
    let size = thousand_size(bits);
    lemma2_to64();
    assert(size < INFINITY);
    if over == 0 {
        assert(exponent_of(bits) == 0);
        assert(size == units);
        assert(product as int % 0x10_0000_0000_0000 == size % 0x10_0000_0000_0000);
    } else if units == 0x20_0000_0000_0000 {
        assert(exponent_of(product) == base + 2);
        assert(mantissa_of(product) == 0x10_0000_0000_0000);
        lemma_pow2_unfold(over + 1);
        let wide = pow2(over) as int;
        assert(0x10_0000_0000_0000 * (2 * wide) == 0x20_0000_0000_0000 * wide) by (nonlinear_arith);
    } else {
        assert(exponent_of(product) == base + 1);
        assert(mantissa_of(product) == units);
    }
}

/// The rounded units of an integer fill a significand where it has more bits.
proof fn lemma_units(n: nat)
    ensures
        ({
            let units = nearest_units(n, pow2(bits_over(n)));
            &&& bits_over(n) == 0 ==> units == n && n < 0x20_0000_0000_0000
            &&& bits_over(n) > 0 ==> 0x10_0000_0000_0000 <= units <= 0x20_0000_0000_0000
        }),
{
    lemma_quotient(n);
    lemma2_to64();
    if bits_over(n) == 0 {
        assert(n / 1 == n && n % 1 == 0);
    }
}

proof fn lemma_quotient(n: nat)
    ensures
        n < 0x20_0000_0000_0000 ==> bits_over(n) == 0,
        n >= 0x20_0000_0000_0000 ==> bits_over(n) > 0 && 0x10_0000_0000_0000 <= n / pow2(
            bits_over(n),
        ) < 0x20_0000_0000_0000,
    decreases n,
{
    lemma2_to64();
    if n >= 0x20_0000_0000_0000 {
        let half = n / 2;
        lemma_quotient(half);
        let k = bits_over(half);
        lemma_pow2_unfold(k + 1);
        lemma_pow2_pos(k);
        vstd::arithmetic::div_mod::lemma_div_denominator(n as int, 2, pow2(k) as int);
        if k == 0 {
            assert(half / 1 == half);
        }
    }
}

/// Whether a number less a margin is at most an integer, as double-precision
/// numbers are subtracted and compared.
pub open spec fn is_reached(bits: u64, margin: nat, now: nat) -> bool {
    !is_nan(bits) && (is_negative(bits) || size_ceil(bits) <= margin || nearest_held(
        (size_ceil(bits) - margin) as nat,
    ) <= nearest_held(now))
}

/// An integer is rounded by less than half of it.
proof fn lemma_held_low(n: nat)
    ensures
        2 * nearest_held(n) >= n,
{
    lemma_quotient(n);
    lemma2_to64();
    let unit = pow2(bits_over(n));
    lemma_pow2_pos(bits_over(n));
    vstd::arithmetic::div_mod::lemma_fundamental_div_mod(n as int, unit as int);
    let (whole, wide, low) = (n as int / unit as int, unit as int, n as int % unit as int);
    let units = nearest_units(n, unit) as int;
    assert(2 * (units * wide) >= n) by (nonlinear_arith)
        requires
            n as int == wide * whole + low,
            0 <= low < wide,
            units >= whole,
            whole >= 1 || (wide == 1 && low == 0),
    ;
}

/// The size of a number below 2^70, rounded up, as an integer; nothing for a
/// greater one.
fn size_up(bits: u64) -> (size: Option<u128>)
    ensures
        match size {
            Some(n) => n == size_ceil(bits) && n < 0x40_0000_0000_0000_0000,
            None => size_ceil(bits) >= 0x40_0000_0000_0000_0000,
        },
{
    let exponent: u64 = (bits / 0x10_0000_0000_0000) % 2048;
    let mantissa: u64 = 0x10_0000_0000_0000 + bits % 0x10_0000_0000_0000;
    if exponent >= 1093 {
        proof {
            let k = (exponent - 1075) as nat;
            lemma2_to64();
            if k > 18 {
                lemma_pow2_strictly_increases(18, k);
            }
            let unit = pow2(k);
            assert(mantissa * unit >= 0x40_0000_0000_0000_0000) by (nonlinear_arith)
                requires
                    mantissa >= 0x10_0000_0000_0000,
                    unit >= 0x4_0000,
            ;
        }
        return None;
    }
    if exponent >= 1075 {
        let unit: u64 = power(exponent - 1075);
        proof {
            lemma2_to64();
            if exponent < 1092 {
                lemma_pow2_strictly_increases((exponent - 1075) as nat, 17);
            }
            assert(mantissa * unit < 0x40_0000_0000_0000_0000) by (nonlinear_arith)
                requires
                    mantissa < 0x20_0000_0000_0000,
                    unit <= 0x2_0000,
            ;
        }
        return Some(mantissa as u128 * unit as u128);
    }
    let (floor, exact) = size(bits);
    proof {
        lemma_small_size(bits);
    }
    if exact {
        Some(floor as u128)
    } else {
        Some(floor as u128 + 1)
    }
}

/// A number of a scale below zero is below 2^53.
proof fn lemma_small_size(bits: u64)
    requires
        scale_of(bits) < 0,
    ensures
        size_floor(bits) < 0x20_0000_0000_0000,
{
    let unit = pow2((-scale_of(bits)) as nat);
    lemma_pow2_pos((-scale_of(bits)) as nat);
    vstd::arithmetic::div_mod::lemma_div_is_ordered_by_denominator(
        mantissa_of(bits),
        1,
        unit as int,
    );
}

/// Whether a number less a margin is at most an integer.
pub fn reached(bits: u64, margin: u64, now: u64) -> (yes: bool)
    ensures
        yes == is_reached(bits, margin as nat, now as nat),
{
    let exponent: u64 = (bits / 0x10_0000_0000_0000) % 2048;
    if exponent == 2047 && bits % 0x10_0000_0000_0000 != 0 {
        return false;
    }
    if bits >= 0x8000_0000_0000_0000 {
        return true;
    }
    let (held, unit, _) = split(now as u128);
    let limit: u128 = held * unit;
    match size_up(bits) {
        Some(size) => {
            if size <= margin as u128 {
                return true;
            }
            let (units, wide, _) = split(size - margin as u128);
            assert(units * wide <= 0x40_0000_0000_0004_0000);
            units * wide <= limit
        },
        None => {
            proof {
                lemma_held_low((size_ceil(bits) - margin) as nat);
            }
            false
        },
    }
}

} // verus!
