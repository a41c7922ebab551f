//! Fixed-point scalar arithmetic.
//!
//! Every length and every angle in this crate is an `i64` holding the
//! intended value times [`SCALE`].  The helpers here perform the scaling
//! multiplications and divisions on 128-bit intermediates, truncating
//! toward zero, and compute integer square roots.

use vstd::prelude::*;
use vstd::arithmetic::div_mod::lemma_div_is_ordered;
use vstd::arithmetic::div_mod::lemma_div_multiples_vanish;
use vstd::arithmetic::div_mod::lemma_div_pos_is_pos;
use vstd::arithmetic::div_mod::lemma_fundamental_div_mod;
use vstd::arithmetic::div_mod::lemma_fundamental_div_mod_converse_mod;

verus! {

/// Fixed-point unit: one unit of length, or one degree of angle.
pub const SCALE: i64 = 65536;

/// Quotient of `p / d`, truncated toward zero, for `d > 0`.
///
/// Spec-level `/` is Euclidean; on a nonnegative dividend the two agree,
/// and a negative dividend is handled by negating twice.
pub open spec fn sdiv(p: int, d: int) -> int {
    if p >= 0 {
        p / d
    } else {
        -((-p) / d)
    }
}

/// `(a * num) / den`, truncated toward zero, on a 128-bit intermediate.
pub fn muldiv(a: i64, num: i64, den: i64) -> (r: i64)
    requires
        den > 0,
        -0x7fff_ffff_ffff_ffff * (den as int) <= a as int * num as int,
        a as int * num as int <= 0x7fff_ffff_ffff_ffff * (den as int),
    ensures
        r as int == sdiv(a as int * num as int, den as int),
{
    proof {
        assert(-0x4000_0000_0000_0000_0000_0000_0000_0000 <= a as int * num as int
            <= 0x4000_0000_0000_0000_0000_0000_0000_0000) by (nonlinear_arith)
            requires
                -0x8000_0000_0000_0000 <= a as int <= 0x7fff_ffff_ffff_ffff,
                -0x8000_0000_0000_0000 <= num as int <= 0x7fff_ffff_ffff_ffff,
        ;
    }
    let p: i128 = (a as i128) * (num as i128);
    if p >= 0 {
        proof {
            lemma_quot_in_i64(p as int, den as int);
        }
        ((p as u128) / (den as u128)) as i64
    } else {
        proof {
            lemma_quot_in_i64(-p as int, den as int);
        }
        -((((-p) as u128) / (den as u128)) as i64)
    }
}

/// A nonnegative dividend at most `i64::MAX * den` has a quotient within `i64`.
proof fn lemma_quot_in_i64(p: int, den: int)
    requires
        0 <= p,
        0 < den,
        p <= 0x7fff_ffff_ffff_ffff * den,
    ensures
        0 <= p / den <= 0x7fff_ffff_ffff_ffff,
{
    lemma_div_pos_is_pos(p, den);
    lemma_div_is_ordered(p, 0x7fff_ffff_ffff_ffff * den, den);
    lemma_div_multiples_vanish(0x7fff_ffff_ffff_ffff, den);
    assert(0x7fff_ffff_ffff_ffff * den == den * 0x7fff_ffff_ffff_ffff) by (nonlinear_arith);
}

/// A truncated quotient is bounded by any bound on the dividend over the
/// divisor: `|p| <= b * d` gives `|sdiv(p, d)| <= b`.
pub proof fn lemma_sdiv_bound(p: int, d: int, b: int)
    requires
        0 < d,
        0 <= b,
        -(b * d) <= p <= b * d,
    ensures
        -b <= sdiv(p, d) <= b,
{
    assert(b * d == d * b) by (nonlinear_arith);
    if p >= 0 {
        lemma_div_pos_is_pos(p, d);
        lemma_div_is_ordered(p, b * d, d);
        lemma_div_multiples_vanish(b, d);
    } else {
        lemma_div_pos_is_pos(-p, d);
        lemma_div_is_ordered(-p, b * d, d);
        lemma_div_multiples_vanish(b, d);
    }
}

/// A truncated quotient of a nonnegative dividend is nonnegative.
pub proof fn lemma_sdiv_nonneg(p: int, d: int)
    requires
        0 <= p,
        0 < d,
    ensures
        0 <= sdiv(p, d),
{
    lemma_div_pos_is_pos(p, d);
}

/// Euclidean remainder `a % m` for `m > 0`: the result lies in `[0, m)`.
pub fn emod(a: i64, m: i64) -> (r: i64)
    requires
        m > 0,
        a > i64::MIN,
    ensures
        r as int == (a as int) % (m as int),
{
    if a >= 0 {
        ((a as u64) % (m as u64)) as i64
    } else {
        let t: i64 = (((-a) as u64) % (m as u64)) as i64;
        proof {
            lemma_neg_mod(a as int, m as int);
        }
        if t == 0 {
            0
        } else {
            m - t
        }
    }
}

/// Relates the Euclidean remainders of `a` and `-a` for a positive modulus.
proof fn lemma_neg_mod(a: int, m: int)
    requires
        m > 0,
        a < 0,
    ensures
        (-a) % m == 0 ==> a % m == 0,
        (-a) % m != 0 ==> a % m == m - ((-a) % m),
{
    let q: int = (-a) / m;
    let r: int = (-a) % m;
    lemma_fundamental_div_mod(-a, m);
    assert(-a == m * q + r);
    if r == 0 {
        assert(a == (-q) * m + 0) by (nonlinear_arith)
            requires
                -a == m * q + r,
                r == 0,
        ;
        lemma_fundamental_div_mod_converse_mod(a, m, -q, 0);
    } else {
        assert(a == (-q - 1) * m + (m - r)) by (nonlinear_arith)
            requires
                -a == m * q + r,
        ;
        lemma_fundamental_div_mod_converse_mod(a, m, -q - 1, m - r);
    }
}

/// The integer square root, defined by counting up: the greatest `r`
/// with `r * r <= x`.
pub open spec fn sqrt_floor(x: nat) -> nat
    decreases x,
{
    if x == 0 {
        0
    } else {
        let s = sqrt_floor((x - 1) as nat);
        if (s + 1) * (s + 1) <= x {
            s + 1
        } else {
            s
        }
    }
}

/// `sqrt_floor(x)` squares to at most `x`, and is the greatest such number.
pub proof fn lemma_sqrt_floor_bounds(x: nat)
    ensures
        sqrt_floor(x) * sqrt_floor(x) <= x,
        x < (sqrt_floor(x) + 1) * (sqrt_floor(x) + 1),
    decreases x,
{
    if x > 0 {
        lemma_sqrt_floor_bounds((x - 1) as nat);
        let s = sqrt_floor((x - 1) as nat);
        if (s + 1) * (s + 1) <= x {
            assert(sqrt_floor(x) == s + 1);
            assert(x <= (s + 1) * (s + 1));
            assert(x < ((s + 1) + 1) * ((s + 1) + 1)) by (nonlinear_arith)
                requires
                    x <= (s + 1) * (s + 1),
                    s >= 0,
            ;
        } else {
            assert(sqrt_floor(x) == s);
        }
    } else {
        assert(x == 0);
        assert(sqrt_floor(x) == 0);
        assert(x < (0 + 1) * (0 + 1)) by (nonlinear_arith)
            requires
                x == 0,
        ;
    }
}

/// Any `r` with `r * r <= x < (r + 1) * (r + 1)` equals `sqrt_floor(x)`.
pub proof fn lemma_sqrt_floor_unique(x: nat, r: nat)
    requires
        r * r <= x,
        x < (r + 1) * (r + 1),
    ensures
        r == sqrt_floor(x),
{
    lemma_sqrt_floor_bounds(x);
    let s = sqrt_floor(x);
    assert(r == s) by (nonlinear_arith)
        requires
            r * r <= x < (r + 1) * (r + 1),
            s * s <= x < (s + 1) * (s + 1),
            r >= 0,
            s >= 0,
    ;
}

/// Integer square root: the greatest `r` with `r * r <= x`.
pub fn isqrt(x: u64) -> (r: u64)
    ensures
        r * r <= x,
        x < (r + 1) * (r + 1),
        r <= 0x1_0000_0000,
        r == sqrt_floor(x as nat),
{
    let mut lo: u64 = 0;
    let mut hi: u64 = 0x1_0000_0001;
    while lo + 1 < hi
        invariant
            lo < hi <= 0x1_0000_0001,
            lo * lo <= x,
            x < hi * hi,
        decreases hi - lo,
    {
        let mid: u64 = lo + (hi - lo) / 2;
        assert(mid as int * mid as int <= 0x1_0000_0001 * 0x1_0000_0001) by (nonlinear_arith)
            requires
                mid <= 0x1_0000_0001,
        ;
        let sq: u128 = (mid as u128) * (mid as u128);
        if sq <= x as u128 {
            lo = mid;
        } else {
            hi = mid;
        }
    }
    proof {
        lemma_sqrt_floor_unique(x as nat, lo as nat);
    }
    lo
}

} // verus!
