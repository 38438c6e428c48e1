//! IEEE 754 binary64 numbers as bit patterns, and the integers they stand for.
//!
//! A bit pattern has a sign bit, eleven exponent bits and fifty-two fraction bits. A normal number
//! with exponent field `e` and fraction `f` is `(2^52 + f) * 2^(e - 1075)`.
use vstd::prelude::*;
use vstd::arithmetic::power2::{
    lemma2_to64, lemma2_to64_rest, lemma_pow2_strictly_increases, lemma_pow2_unfold, pow2,
};

verus! {

/// 2^52: the implicit leading bit of a normal significand.
pub const SIGNIFICAND_ONE: u128 = 0x10_0000_0000_0000;

/// 2^53: the least number that a significand cannot hold.
pub const SIGNIFICAND_END: u128 = 0x20_0000_0000_0000;

/// 2^63: the sign bit.
pub const SIGN_BIT: u128 = 0x8000_0000_0000_0000;

/// 2^65: what `binary64_whole` gives for every magnitude from 2^65 on, and for infinity.
pub const WHOLE_CAP: i128 = 0x2_0000_0000_0000_0000;

/// How far a significand is below 2^52.
pub open spec fn below_one(m: nat) -> nat {
    if m < SIGNIFICAND_ONE {
        (SIGNIFICAND_ONE - m) as nat
    } else {
        0
    }
}

/// Doubles a positive significand until it has its leading bit at 2^52, lowering the exponent
/// by one for each doubling.
pub open spec fn grow(m: nat, exponent: int) -> (nat, int)
    decreases below_one(m),
{
    if m == 0 || m >= SIGNIFICAND_ONE {
        (m, exponent)
    } else {
        grow(2 * m, exponent - 1)
    }
}

/// Halves a significand until it is below 2^53, raising the exponent by one for each halving.
/// `round` is the last bit that was dropped, `sticky` says whether any bit dropped before it was
/// set.
pub open spec fn shrink(m: nat, exponent: int, round: bool, sticky: bool) -> (nat, int, bool, bool)
    decreases m,
{
    if m < SIGNIFICAND_END {
        (m, exponent, round, sticky)
    } else {
        shrink(m / 2, exponent + 1, m % 2 == 1, sticky || round)
    }
}

/// The bit pattern of the binary64 float nearest to the integer, ties going to the even
/// significand. Meant for integers of magnitude below 2^64.
pub open spec fn binary64_of_int(n: int) -> u64 {
    if n == 0 {
        0
    } else {
        let m: nat = if n < 0 {
            (-n) as nat
        } else {
            n as nat
        };
        let sign: int = if n < 0 {
            SIGN_BIT as int
        } else {
            0
        };
        let g = grow(m, 1075);
        let s = shrink(g.0, g.1, false, false);
        let up: int = if s.2 && (s.3 || s.0 % 2 == 1) {
            1
        } else {
            0
        };
        (sign + s.1 * SIGNIFICAND_ONE + (s.0 - SIGNIFICAND_ONE) + up) as u64
    }
}

/// `m` doubled `k` times.
pub open spec fn doubled(m: nat, k: nat) -> nat
    decreases k,
{
    if k == 0 {
        m
    } else {
        doubled(2 * m, (k - 1) as nat)
    }
}

/// `m` halved `k` times, each time rounding down.
pub open spec fn halved(m: nat, k: nat) -> nat
    decreases k,
{
    if k == 0 {
        m
    } else {
        halved(m / 2, (k - 1) as nat)
    }
}

/// The integer part of the float with the given bit pattern, rounded towards zero. A NaN gives
/// 0; infinity and every magnitude from 2^65 on give 2^65 with the sign.
pub open spec fn binary64_whole(bits: u64) -> int {
    let exponent: int = (bits as int / SIGNIFICAND_ONE as int) % 2048;
    let fraction: int = bits as int % SIGNIFICAND_ONE as int;
    let significand: nat = (SIGNIFICAND_ONE + fraction) as nat;
    let magnitude: int = if exponent == 2047 {
        if fraction == 0 {
            WHOLE_CAP as int
        } else {
            0
        }
    } else if exponent < 1023 {
        0
    } else if exponent > 1087 {
        WHOLE_CAP as int
    } else if exponent >= 1075 {
        doubled(significand, (exponent - 1075) as nat) as int
    } else {
        halved(significand, (1075 - exponent) as nat) as int
    };
    if bits >= SIGN_BIT {
        -magnitude
    } else {
        magnitude
    }
}

/// The bit pattern of the binary64 float nearest to the integer.
pub fn binary64_from_int(n: i128) -> (r: u64)
    requires
        -0x1_0000_0000_0000_0000 < n < 0x1_0000_0000_0000_0000,
    ensures
        r == binary64_of_int(n as int),
{
    if n == 0 {
        return 0;
    }
    let start: u128 = if n < 0 {
        (-n) as u128
    } else {
        n as u128
    };
    let sign: u128 = if n < 0 {
        SIGN_BIT
    } else {
        0
    };
    let mut m: u128 = start;
    let mut exponent: u128 = 1075;
    let ghost mut steps: nat = 0;
    proof {
        lemma2_to64();
        lemma2_to64_rest();
    }
    while m < SIGNIFICAND_ONE
        invariant
            0 < m < 0x1_0000_0000_0000_0000,
            exponent == 1075 - steps,
            m >= pow2(steps),
            steps <= 52,
            grow(start as nat, 1075) == grow(m as nat, exponent as int),
        decreases below_one(m as nat),
    {
        proof {
            lemma2_to64();
        lemma2_to64_rest();
            lemma2_to64_rest();
            if steps >= 52 {
                if steps > 52 {
                    lemma_pow2_strictly_increases(52, steps);
                }
            }
            lemma_pow2_unfold(steps + 1);
            steps = steps + 1;
        }
        m = 2 * m;
        exponent = exponent - 1;
    }
    let ghost grown = m;
    let ghost grown_exponent = exponent;
    let mut round: bool = false;
    let mut sticky: bool = false;
    proof {
        steps = 0;
        lemma2_to64();
        lemma2_to64_rest();
    }
    while m >= SIGNIFICAND_END
        invariant
            SIGNIFICAND_ONE <= m,
            m < pow2((64 - steps) as nat),
            steps <= 11,
            exponent == grown_exponent + steps,
            1023 <= grown_exponent <= 1075,
            shrink(grown as nat, grown_exponent as int, false, false) == shrink(
                m as nat,
                exponent as int,
                round,
                sticky,
            ),
        decreases m,
    {
        proof {
            lemma2_to64();
        lemma2_to64_rest();
            lemma2_to64_rest();
            if steps >= 11 {
                if steps > 11 {
                    lemma_pow2_strictly_increases((64 - steps) as nat, 53);
                }
            }
            lemma_pow2_unfold((64 - steps) as nat);
            steps = steps + 1;
        }
        sticky = sticky || round;
        round = m % 2 == 1;
        m = m / 2;
        exponent = exponent + 1;
    }
    let up: u128 = if round && (sticky || m % 2 == 1) {
        1
    } else {
        0
    };
    let bits: u128 = sign + exponent * SIGNIFICAND_ONE + (m - SIGNIFICAND_ONE) + up;
    bits as u64
}

/// `m` doubled `k` times.
fn double_times(m: u128, k: u64) -> (r: u128)
    requires
        m < SIGNIFICAND_END,
        k <= 12,
    ensures
        r == doubled(m as nat, k as nat),
        r < 0x2_0000_0000_0000_0000,
{
    let mut r: u128 = m;
    let mut left: u64 = k;
    proof {
        lemma2_to64();
        lemma2_to64_rest();
        lemma_pow2_unfold(65);
        if 65 - k > 53 {
            lemma_pow2_strictly_increases(53, (65 - k) as nat);
        }
    }
    while left > 0
        invariant
            left <= 12,
            r < pow2((65 - left) as nat),
            doubled(m as nat, k as nat) == doubled(r as nat, left as nat),
        decreases left,
    {
        proof {
            lemma2_to64();
        lemma2_to64_rest();
            lemma2_to64_rest();
            lemma_pow2_unfold(65);
            lemma_pow2_unfold((66 - left) as nat);
            if 65 - left < 65 {
                lemma_pow2_strictly_increases((65 - left) as nat, 65);
            }
        }
        r = 2 * r;
        left = left - 1;
    }
    proof {
        lemma2_to64();
        lemma2_to64_rest();
        lemma_pow2_unfold(65);
    }
    r
}

/// `m` halved `k` times.
fn halve_times(m: u128, k: u64) -> (r: u128)
    ensures
        r == halved(m as nat, k as nat),
        r <= m,
{
    let mut r: u128 = m;
    let mut left: u64 = k;
    while left > 0
        invariant
            r <= m,
            halved(m as nat, k as nat) == halved(r as nat, left as nat),
        decreases left,
    {
        r = r / 2;
        left = left - 1;
    }
    r
}

/// The integer part of the float with the given bit pattern, rounded towards zero.
pub fn binary64_to_whole(bits: u64) -> (r: i128)
    ensures
        r == binary64_whole(bits),
        -WHOLE_CAP <= r <= WHOLE_CAP,
{
    let wide: u128 = bits as u128;
    let exponent: u64 = ((wide / SIGNIFICAND_ONE) % 2048) as u64;
    let fraction: u128 = wide % SIGNIFICAND_ONE;
    let significand: u128 = SIGNIFICAND_ONE + fraction;
    let magnitude: i128 = if exponent == 2047 {
        if fraction == 0 {
            WHOLE_CAP
        } else {
            0
        }
    } else if exponent < 1023 {
        0
    } else if exponent > 1087 {
        WHOLE_CAP
    } else if exponent >= 1075 {
        double_times(significand, exponent - 1075) as i128
    } else {
        halve_times(significand, 1075 - exponent) as i128
    };
    if wide >= SIGN_BIT {
        -magnitude
    } else {
        magnitude
    }
}

/// Halving once more halves the result.
proof fn lemma_halved_step(x: nat, k: nat)
    ensures
        halved(x, k + 1) == halved(x, k) / 2,
    decreases k,
{
    reveal_with_fuel(halved, 2);
    if k > 0 {
        lemma_halved_step(x / 2, (k - 1) as nat);
        assert(halved(x, k + 1) == halved(x / 2, k));
        assert(halved(x / 2, k) == halved(x / 2, (k - 1) as nat) / 2);
        assert(halved(x, k) == halved(x / 2, (k - 1) as nat));
    }
}

/// Growing a significand below 2^53 gives one with its leading bit at 2^52, after at most
/// `52 - k` doublings where the significand is at least `2^k`; halving it as often gives the
/// significand back.
proof fn lemma_grow(m: nat, exponent: int, k: nat)
    requires
        0 < m < SIGNIFICAND_END,
        m >= pow2(k),
        k <= 52,
    ensures
        SIGNIFICAND_ONE <= grow(m, exponent).0 < SIGNIFICAND_END,
        0 <= exponent - grow(m, exponent).1 <= 52 - k,
        halved(grow(m, exponent).0, (exponent - grow(m, exponent).1) as nat) == m,
    decreases below_one(m),
{
    lemma2_to64();
    lemma2_to64_rest();
    if m < SIGNIFICAND_ONE {
        if k >= 52 {
            assert(pow2(52) == 0x10_0000_0000_0000);
        }
        lemma_pow2_unfold(k + 1);
        lemma_grow(2 * m, exponent - 1, k + 1);
        let g = grow(2 * m, exponent - 1);
        let steps = (exponent - 1 - g.1) as nat;
        lemma_halved_step(g.0, steps);
    }
}

/// An integer of magnitude up to 2^53 is the integer part of its float.
pub proof fn lemma_whole_of_int(n: int)
    requires
        -0x20_0000_0000_0000 <= n <= 0x20_0000_0000_0000,
    ensures
        binary64_whole(binary64_of_int(n)) == n,
{
    lemma2_to64();
    if n != 0 {
        let m: nat = if n < 0 {
            (-n) as nat
        } else {
            n as nat
        };
        let sign: int = if n < 0 {
            SIGN_BIT as int
        } else {
            0
        };
        if m < SIGNIFICAND_END {
            lemma_grow(m, 1075, 0);
            let g = grow(m, 1075);
            let s = shrink(g.0, g.1, false, false);
            assert(s == (g.0, g.1, false, false));
            let bits = binary64_of_int(n);
            let fraction = g.0 - SIGNIFICAND_ONE;
            assert(bits as int == sign + g.1 * SIGNIFICAND_ONE + fraction);
            assert((bits as int / SIGNIFICAND_ONE as int) % 2048 == g.1);
            assert(bits as int % SIGNIFICAND_ONE as int == fraction);
            if g.1 == 1075 {
                assert(doubled(g.0, 0) == g.0);
            }
        } else {
            let g = grow(m, 1075);
            assert(g == (m, 1075int));
            reveal_with_fuel(shrink, 3);
            let s = shrink(g.0, g.1, false, false);
            assert(s == (SIGNIFICAND_ONE as nat, 1076int, false, false));
            let bits = binary64_of_int(n);
            assert(bits as int == sign + 1076 * SIGNIFICAND_ONE);
            assert((bits as int / SIGNIFICAND_ONE as int) % 2048 == 1076);
            assert(bits as int % SIGNIFICAND_ONE as int == 0);
            reveal_with_fuel(doubled, 3);
            assert(doubled(SIGNIFICAND_ONE as nat, 1) == SIGNIFICAND_END);
        }
    }
}

/// Whether the bit pattern is that of a NaN: all exponent bits set and a fraction other than 0.
pub open spec fn binary64_is_nan(bits: u64) -> bool {
    (bits as int / SIGNIFICAND_ONE as int) % 2048 == 2047 && bits as int % SIGNIFICAND_ONE as int
        != 0
}

/// Whether the bit pattern is that of a zero, of either sign.
pub open spec fn binary64_is_zero(bits: u64) -> bool {
    bits == 0 || bits == SIGN_BIT
}

/// Whether two floats given by their bit patterns are equal as numbers: neither is a NaN, and
/// they have the same bit pattern or are both zero.
pub open spec fn binary64_eq(a: u64, b: u64) -> bool {
    &&& !binary64_is_nan(a)
    &&& !binary64_is_nan(b)
    &&& (a == b || (binary64_is_zero(a) && binary64_is_zero(b)))
}

/// Whether the bit pattern is that of a NaN.
pub fn binary64_nan(bits: u64) -> (r: bool)
    ensures
        r == binary64_is_nan(bits),
{
    let wide: u128 = bits as u128;
    (wide / SIGNIFICAND_ONE) % 2048 == 2047 && wide % SIGNIFICAND_ONE != 0
}

/// Whether two floats given by their bit patterns are equal as numbers.
pub fn binary64_equal(a: u64, b: u64) -> (r: bool)
    ensures
        r == binary64_eq(a, b),
{
    if binary64_nan(a) || binary64_nan(b) {
        return false;
    }
    let a_zero = a as u128 == 0 || a as u128 == SIGN_BIT;
    let b_zero = b as u128 == 0 || b as u128 == SIGN_BIT;
    a == b || (a_zero && b_zero)
}

} // verus!
