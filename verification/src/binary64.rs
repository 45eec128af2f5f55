//! IEEE 754 binary64 numbers, held as their 64-bit patterns.
//!
//! The library never computes with hardware floating point. It orders bit
//! patterns, and it finds the pattern nearest to an integer; sums, quotients
//! and renderings are left to the host (see [`crate::arith`]).

use vstd::prelude::*;

verus! {

/// The sign bit of a pattern.
pub const SIGN_BIT: u64 = 0x8000_0000_0000_0000;

/// The pattern of positive infinity; a greater magnitude is a NaN.
pub const INFINITY_BITS: u64 = 0x7ff0_0000_0000_0000;

/// Weight of the exponent field's lowest bit: two to the 52nd power.
pub const EXPONENT_UNIT: u64 = 0x0010_0000_0000_0000;

/// The pattern without its sign bit.
pub open spec fn magnitude(bits: u64) -> u64 {
    if bits >= SIGN_BIT {
        (bits - SIGN_BIT) as u64
    } else {
        bits
    }
}

/// Whether the pattern is a NaN.
pub open spec fn is_nan(bits: u64) -> bool {
    magnitude(bits) > INFINITY_BITS
}

/// An integer that orders the patterns that are no NaN as the numbers they
/// stand for: the magnitude, negated under a set sign bit. Both zeros map
/// to 0.
pub open spec fn sort_key(bits: u64) -> int {
    if bits >= SIGN_BIT {
        -(bits - SIGN_BIT)
    } else {
        bits as int
    }
}

/// -1, 0 or 1 as `x` is below, equal to or above `y`.
pub open spec fn three_way(x: int, y: int) -> int {
    if x < y {
        -1
    } else if x == y {
        0
    } else {
        1
    }
}

/// How two patterns compare as numbers, where neither is a NaN.
pub open spec fn float_sign(a: u64, b: u64) -> int {
    three_way(sort_key(a), sort_key(b))
}

/// Two to the power `e`.
pub open spec fn two_to(e: nat) -> nat
    decreases e,
{
    if e == 0 {
        1
    } else {
        2 * two_to((e - 1) as nat)
    }
}

/// Position of the highest set bit of `m`; 0 for 0.
pub open spec fn floor_log2(m: nat) -> nat
    decreases m,
{
    if m <= 1 {
        0
    } else {
        1 + floor_log2(m / 2)
    }
}

/// The pattern of the binary64 number nearest to the positive integer `m`,
/// ties going to the even significand.
///
/// With `e` the position of the highest set bit, an integer of at most 53
/// bits is exact: its significand is `m` scaled up to 53 bits. A longer one
/// keeps its top 53 bits and goes up by one where the dropped part is more
/// than half a unit of the last kept bit, or is half a unit and the kept part
/// is odd. Adding the significand, hidden bit included, to the exponent field
/// lets a carry out of the significand move into the exponent.
pub open spec fn nearest_bits(m: nat) -> nat {
    let e = floor_log2(m);
    if e <= 52 {
        (e + 1022) * two_to(52) + m * two_to((52 - e) as nat)
    } else {
        let unit = two_to((e - 52) as nat);
        let kept = m / unit;
        let rest = m % unit;
        let up: nat = if 2 * rest > unit || (2 * rest == unit && kept % 2 == 1) {
            1
        } else {
            0
        };
        (e + 1022) * two_to(52) + kept + up
    }
}

/// The pattern that an integer is promoted to: the nearest binary64 number.
pub open spec fn promote(i: i64) -> u64 {
    if i == 0 {
        0
    } else if i > 0 {
        nearest_bits(i as nat) as u64
    } else {
        (SIGN_BIT + nearest_bits((-i) as nat)) as u64
    }
}

/// Powers of two multiply as their exponents add.
pub proof fn lemma_two_to_adds(a: nat, b: nat)
    ensures
        two_to(a + b) == two_to(a) * two_to(b),
    decreases a,
{
    if a > 0 {
        let below = (a - 1) as nat;
        lemma_two_to_adds(below, b);
        assert(below + b == (a + b - 1) as nat);
        let x = two_to(below);
        let y = two_to(b);
        assert(two_to(below + b) == x * y);
        assert(two_to(a + b) == 2 * two_to((a + b - 1) as nat));
        assert(two_to(a) == 2 * x);
        assert(2 * (x * y) == (2 * x) * y) by (nonlinear_arith);
    } else {
        assert(a + b == b);
        assert(two_to(a) == 1);
        assert(1 * two_to(b) == two_to(b));
    }
}

/// Powers of two are positive and grow with their exponent.
pub proof fn lemma_two_to_grows(a: nat, b: nat)
    requires
        a <= b,
    ensures
        0 < two_to(a) <= two_to(b),
    decreases b,
{
    if a < b {
        lemma_two_to_grows(a, (b - 1) as nat);
    } else if b > 0 {
        lemma_two_to_grows((a - 1) as nat, (b - 1) as nat);
    }
}

/// An integer between two neighbouring powers of two has the lower one's
/// exponent as the position of its highest bit.
pub proof fn lemma_floor_log2_between(m: nat, e: nat)
    requires
        two_to(e) <= m < 2 * two_to(e),
    ensures
        floor_log2(m) == e,
    decreases e,
{
    if e > 0 {
        lemma_two_to_grows(0, (e - 1) as nat);
        lemma_floor_log2_between(m / 2, (e - 1) as nat);
    }
}

/// The powers of two that the binary64 layout is made of.
proof fn lemma_two_to_values()
    ensures
        two_to(11) == 0x800,
        two_to(52) == 0x0010_0000_0000_0000,
        two_to(63) == 0x8000_0000_0000_0000,
{
    reveal_with_fuel(two_to, 12);
    assert(two_to(8) == 0x100);
    assert(two_to(11) == 0x800);
    lemma_two_to_adds(11, 11);
    assert(two_to(22) == 0x40_0000);
    lemma_two_to_adds(22, 22);
    assert(two_to(44) == 0x1000_0000_0000);
    lemma_two_to_adds(44, 8);
    assert(two_to(52) == 0x0010_0000_0000_0000);
    lemma_two_to_adds(52, 11);
    assert(two_to(63) == 0x8000_0000_0000_0000);
}

/// Whether the pattern is a NaN.
pub fn is_nan_bits(bits: u64) -> (r: bool)
    ensures
        r == is_nan(bits),
{
    let m = if bits >= SIGN_BIT {
        bits - SIGN_BIT
    } else {
        bits
    };
    m > INFINITY_BITS
}

/// Compares two patterns, neither a NaN, as the numbers they stand for.
pub fn compare_bits(a: u64, b: u64) -> (r: i8)
    ensures
        r == float_sign(a, b),
{
    let ka: i128 = if a >= SIGN_BIT {
        -((a - SIGN_BIT) as i128)
    } else {
        a as i128
    };
    let kb: i128 = if b >= SIGN_BIT {
        -((b - SIGN_BIT) as i128)
    } else {
        b as i128
    };
    if ka < kb {
        -1
    } else if ka == kb {
        0
    } else {
        1
    }
}

/// The pattern nearest to a positive integer that is the magnitude of a
/// signed 64-bit integer.
fn nearest_to(m: u64) -> (r: u64)
    requires
        0 < m <= SIGN_BIT,
    ensures
        r == nearest_bits(m as nat),
        r < SIGN_BIT,
{
    proof {
        lemma_two_to_values();
    }
    let mut e: u64 = 0;
    let mut top: u64 = 1;
    while top <= m / 2
        invariant
            top == two_to(e as nat),
            top <= m,
            e <= 63,
            m <= SIGN_BIT,
        decreases 63 - e,
    {
        proof {
            lemma_two_to_values();
            if e >= 63 {
                lemma_two_to_grows(63, e as nat);
            }
        }
        top = top * 2;
        e = e + 1;
    }
    proof {
        lemma_floor_log2_between(m as nat, e as nat);
    }
    if e <= 52 {
        let mut scale: u64 = 1;
        let mut k: u64 = e;
        while k < 52
            invariant
                e <= k <= 52,
                scale == two_to((k - e) as nat),
                0 < scale <= EXPONENT_UNIT,
            decreases 52 - k,
        {
            proof {
                lemma_two_to_values();
                lemma_two_to_grows((k + 1 - e) as nat, 52);
            }
            scale = scale * 2;
            k = k + 1;
        }
        proof {
            lemma_two_to_adds(e as nat, (52 - e) as nat);
            assert(m * scale < 2 * EXPONENT_UNIT) by (nonlinear_arith)
                requires
                    m < 2 * top,
                    top * scale == EXPONENT_UNIT,
                    scale > 0,
            ;
        }
        (e + 1022) * EXPONENT_UNIT + m * scale
    } else {
        let mut unit: u64 = 1;
        let mut k: u64 = 52;
        while k < e
            invariant
                52 <= k <= e <= 63,
                unit == two_to((k - 52) as nat),
                0 < unit <= 0x800,
            decreases e - k,
        {
            proof {
                lemma_two_to_values();
                lemma_two_to_grows((k + 1 - 52) as nat, 11);
            }
            unit = unit * 2;
            k = k + 1;
        }
        proof {
            lemma_two_to_adds(52, (e - 52) as nat);
            lemma_two_to_grows(0, (e - 52) as nat);
        }
        let kept = m / unit;
        let rest = m % unit;
        proof {
            assert(kept < 2 * EXPONENT_UNIT) by (nonlinear_arith)
                requires
                    m < 2 * (EXPONENT_UNIT * unit),
                    unit > 0,
                    kept == m / unit,
            ;
        }
        let up: u64 = if 2 * rest > unit || (2 * rest == unit && kept % 2 == 1) {
            1
        } else {
            0
        };
        (e + 1022) * EXPONENT_UNIT + kept + up
    }
}

/// The pattern that an integer is promoted to: the nearest binary64 number,
/// ties going to the even significand.
pub fn promote_integer(i: i64) -> (r: u64)
    ensures
        r == promote(i),
        !is_nan(r),
{
    proof {
        lemma_two_to_values();
    }
    if i == 0 {
        0
    } else if i > 0 {
        let r = nearest_to(i as u64);
        proof {
            lemma_nearest_is_finite(i as nat);
        }
        r
    } else {
        let m: u64 = if i == i64::MIN {
            SIGN_BIT
        } else {
            (-i) as u64
        };
        let r = nearest_to(m);
        proof {
            lemma_nearest_is_finite(m as nat);
        }
        SIGN_BIT + r
    }
}

/// The pattern nearest to an integer of a signed 64-bit integer's magnitude
/// is a finite number.
pub proof fn lemma_nearest_is_finite(m: nat)
    requires
        0 < m <= SIGN_BIT,
    ensures
        nearest_bits(m) <= 0x43e0_0000_0000_0000,
{
    lemma_two_to_values();
    let e = floor_log2(m);
    lemma_floor_log2_bounds(m);
    if e > 63 {
        lemma_two_to_grows(64, e);
        lemma_two_to_adds(63, 1);
        assert(two_to(1) == 2) by {
            reveal_with_fuel(two_to, 2);
        }
    }
    assert(e <= 63);
    let exponent = (e + 1022) * two_to(52);
    if e <= 52 {
        let scale = two_to((52 - e) as nat);
        lemma_two_to_adds(e, (52 - e) as nat);
        lemma_two_to_grows(0, (52 - e) as nat);
        assert(m * scale < 2 * two_to(52)) by (nonlinear_arith)
            requires
                m < 2 * two_to(e),
                two_to(e) * scale == two_to(52),
                scale > 0,
        ;
        assert(nearest_bits(m) == exponent + m * scale);
    } else {
        let unit = two_to((e - 52) as nat);
        lemma_two_to_adds(52, (e - 52) as nat);
        lemma_two_to_grows(0, (e - 52) as nat);
        let kept = m / unit;
        assert(kept < 2 * two_to(52)) by (nonlinear_arith)
            requires
                m < 2 * (two_to(52) * unit),
                unit > 0,
                kept == m / unit,
        ;
        if e == 63 {
            assert(m == 0x8000_0000_0000_0000);
            assert(unit == 0x800);
            assert(0x8000_0000_0000_0000int / 0x800 == 0x0010_0000_0000_0000);
            assert(0x8000_0000_0000_0000int % 0x800 == 0);
            assert(kept == 0x0010_0000_0000_0000);
            assert(m % unit == 0);
        }
        assert(nearest_bits(m) <= exponent + kept + 1);
    }
}

/// A positive integer lies between the power of two at its highest bit and
/// the next one.
pub proof fn lemma_floor_log2_bounds(m: nat)
    requires
        m > 0,
    ensures
        two_to(floor_log2(m)) <= m < 2 * two_to(floor_log2(m)),
    decreases m,
{
    if m > 1 {
        lemma_floor_log2_bounds(m / 2);
    }
}

} // verus!
