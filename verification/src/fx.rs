//! Saturating fixed-point arithmetic.
//!
//! A value `v: i64` stands for the real number `v / FX_ONE`.  Every stored
//! quantity is kept inside `[-FX_LIM, FX_LIM]`; the arithmetic operations
//! clamp their results back into that range, so no operation can overflow.

use vstd::prelude::*;
use vstd::arithmetic::mul::*;
use vstd::arithmetic::div_mod::*;

verus! {

/// Fixed-point representation of 1.0.
pub const FX_ONE: i64 = 65536;

/// Every fixed-point quantity is kept inside [-FX_LIM, FX_LIM] (2^40).
pub const FX_LIM: i64 = 1099511627776;

/// Absolute value.
pub open spec fn iabs(v: int) -> int {
    if v < 0 {
        -v
    } else {
        v
    }
}

/// The value lies in the representable fixed-point range.
pub open spec fn fx_in_range(v: int) -> bool {
    -(FX_LIM as int) <= v <= FX_LIM as int
}

/// `v` clamped into the representable fixed-point range.
pub open spec fn fx_clamped(v: int) -> int {
    if v > FX_LIM as int {
        FX_LIM as int
    } else if v < -(FX_LIM as int) {
        -(FX_LIM as int)
    } else {
        v
    }
}

/// Clamp a value into the representable fixed-point range.
pub fn fx_clamp(v: i64) -> (r: i64)
    ensures
        r == fx_clamped(v as int),
{
    if v > FX_LIM {
        FX_LIM
    } else if v < -FX_LIM {
        -FX_LIM
    } else {
        v
    }
}

/// Saturating fixed-point addition.
pub fn fx_add(a: i64, b: i64) -> (r: i64)
    requires
        fx_in_range(a as int),
        fx_in_range(b as int),
    ensures
        r == fx_clamped(a + b),
        fx_in_range(r as int),
{
    fx_clamp(a + b)
}

/// Saturating fixed-point subtraction.
pub fn fx_sub(a: i64, b: i64) -> (r: i64)
    requires
        fx_in_range(a as int),
        fx_in_range(b as int),
    ensures
        r == fx_clamped(a - b),
        fx_in_range(r as int),
{
    fx_clamp(a - b)
}

/// Value of the saturating fixed-point product, magnitude rounded down.
pub open spec fn fx_mul_spec(a: int, b: int) -> int {
    let m = iabs(a) * iabs(b) / (FX_ONE as int);
    let c = if m > FX_LIM as int {
        FX_LIM as int
    } else {
        m
    };
    if (a < 0) != (b < 0) {
        -c
    } else {
        c
    }
}

/// Saturating fixed-point multiplication, rounding the magnitude down.
pub fn fx_mul(a: i64, b: i64) -> (r: i64)
    requires
        fx_in_range(a as int),
        fx_in_range(b as int),
    ensures
        r == fx_mul_spec(a as int, b as int),
        fx_in_range(r as int),
{
    let ma: u64 = if a < 0 {
        (-a) as u64
    } else {
        a as u64
    };
    let mb: u64 = if b < 0 {
        (-b) as u64
    } else {
        b as u64
    };
    proof {
        lemma_mul_upper_bound(ma as int, FX_LIM as int, mb as int, FX_LIM as int);
        lemma_div_pos_is_pos(ma as int * mb as int, FX_ONE as int);
        lemma_div_is_ordered(ma as int * mb as int, FX_LIM as int * FX_LIM as int, FX_ONE as int);
        lemma_mul_nonnegative(ma as int, mb as int);
    }
    let p: u128 = (ma as u128) * (mb as u128);
    let q: u128 = p / (FX_ONE as u128);
    let c: i64 = if q > FX_LIM as u128 {
        FX_LIM
    } else {
        q as i64
    };
    if (a < 0) != (b < 0) {
        -c
    } else {
        c
    }
}

/// Value of the saturating fixed-point quotient, magnitude rounded down.
pub open spec fn fx_div_spec(a: int, b: int) -> int {
    let m = iabs(a) * (FX_ONE as int) / b;
    if m > FX_LIM as int {
        if a < 0 {
            -(FX_LIM as int)
        } else {
            FX_LIM as int
        }
    } else {
        if a < 0 {
            -m
        } else {
            m
        }
    }
}

/// Saturating fixed-point division by a positive divisor, rounding the
/// magnitude down.
pub fn fx_div(a: i64, b: i64) -> (r: i64)
    requires
        fx_in_range(a as int),
        0 < b <= FX_LIM,
    ensures
        r == fx_div_spec(a as int, b as int),
        fx_in_range(r as int),
{
    let ma: u64 = if a < 0 {
        (-a) as u64
    } else {
        a as u64
    };
    proof {
        lemma_div_pos_is_pos(ma as int * FX_ONE as int, b as int);
        lemma_mul_nonnegative(ma as int, FX_ONE as int);
    }
    let p: u128 = (ma as u128) * (FX_ONE as u128);
    let q: u128 = p / (b as u128);
    let m: i64 = if q > FX_LIM as u128 {
        FX_LIM
    } else {
        q as i64
    };
    if a < 0 {
        -m
    } else {
        m
    }
}

/// Euclidean remainder of `p` modulo a positive modulus `m`: the unique
/// `r` in `[0, m)` with `p == k * m + r` for an integer `k`.
pub fn emod(p: i64, m: i64) -> (r: i64)
    requires
        0 < m,
        i64::MIN < p,
    ensures
        0 <= r < m,
        r == (p as int) % (m as int),
{
    if p >= 0 {
        let r = ((p as u64) % (m as u64)) as i64;
        proof {
            lemma_fundamental_div_mod(p as int, m as int);
            lemma_fundamental_div_mod_converse_mod(
                p as int,
                m as int,
                (p as int) / (m as int),
                r as int,
            );
        }
        r
    } else {
        let np: u64 = (-p) as u64;
        let neg: u64 = np % (m as u64);
        proof {
            lemma_fundamental_div_mod(np as int, m as int);
        }
        let ghost k: int = (np as int) / (m as int);
        proof {
            assert(np as int == (m as int) * k + (neg as int));
            assert(p as int == (-k) * (m as int) + (-(neg as int))) by {
                lemma_mul_unary_negation(k, m as int);
                lemma_mul_is_commutative(m as int, k);
            }
        }
        if neg == 0 {
            proof {
                lemma_fundamental_div_mod_converse_mod(p as int, m as int, -k, 0);
            }
            0
        } else {
            let r = m - (neg as i64);
            proof {
                assert(p as int == (-k - 1) * (m as int) + (r as int)) by {
                    lemma_mul_is_distributive_add_other_way(m as int, -k, -1);
                    lemma_mul_is_commutative(m as int, -k);
                    lemma_mul_is_commutative(m as int, -k - 1);
                }
                lemma_fundamental_div_mod_converse_mod(p as int, m as int, -k - 1, r as int);
            }
            r
        }
    }
}

/// The integer square root, defined by halving the argument's digits.
pub open spec fn isqrt_spec(n: nat) -> nat
    decreases n,
{
    if n == 0 {
        0
    } else {
        let r = 2 * isqrt_spec(n / 4);
        if (r + 1) * (r + 1) <= n {
            r + 1
        } else {
            r
        }
    }
}

/// `isqrt_spec` is the greatest integer whose square is at most `n`.
pub proof fn lemma_isqrt_spec_bounds(n: nat)
    ensures
        isqrt_spec(n) * isqrt_spec(n) <= n,
        n < (isqrt_spec(n) + 1) * (isqrt_spec(n) + 1),
    decreases n,
{
    if n == 0 {
        assert(isqrt_spec(n) == 0);
        assert(isqrt_spec(n) * isqrt_spec(n) <= n);
        assert(n < (isqrt_spec(n) + 1) * (isqrt_spec(n) + 1)) by (nonlinear_arith)
            requires
                n == 0,
                isqrt_spec(n) == 0,
        ;
    } else {
        let s = isqrt_spec(n / 4);
        lemma_isqrt_spec_bounds(n / 4);
        lemma_fundamental_div_mod(n as int, 4);
        assert(4 * s * s <= n) by (nonlinear_arith)
            requires
                s * s <= n / 4,
                n / 4 * 4 <= n,
        ;
        assert(n < 4 * (s + 1) * (s + 1)) by (nonlinear_arith)
            requires
                (n as int) / 4 < (s + 1) * (s + 1),
                n < 4 * ((n as int) / 4) + 4,
        ;
        let r = 2 * s;
        assert(isqrt_spec(n) == if (r + 1) * (r + 1) <= n {
            (r + 1) as nat
        } else {
            r
        });
        if (r + 1) * (r + 1) <= n {
            assert(isqrt_spec(n) == r + 1);
            assert(n < (r + 2) * (r + 2)) by (nonlinear_arith)
                requires
                    r == 2 * s,
                    n < 4 * (s + 1) * (s + 1),
            ;
            assert((isqrt_spec(n) + 1) * (isqrt_spec(n) + 1) == (r + 2) * (r + 2));
            assert(isqrt_spec(n) * isqrt_spec(n) <= n);
            assert(n < (isqrt_spec(n) + 1) * (isqrt_spec(n) + 1));
        } else {
            assert(isqrt_spec(n) == r);
            assert(r * r <= n) by (nonlinear_arith)
                requires
                    r == 2 * s,
                    4 * s * s <= n,
            ;
            assert(isqrt_spec(n) * isqrt_spec(n) <= n);
            assert(n < (isqrt_spec(n) + 1) * (isqrt_spec(n) + 1));
        }
    }
}

/// Any value squeezed between the same squares equals `isqrt_spec`.
pub proof fn lemma_isqrt_unique(n: nat, r: nat)
    requires
        r * r <= n,
        n < (r + 1) * (r + 1),
    ensures
        r == isqrt_spec(n),
{
    let s = isqrt_spec(n);
    lemma_isqrt_spec_bounds(n);
    if r < s {
        assert(false) by (nonlinear_arith)
            requires
                r < s,
                s * s <= n,
                n < (r + 1) * (r + 1),
        ;
    }
    if s < r {
        assert(false) by (nonlinear_arith)
            requires
                s < r,
                r * r <= n,
                n < (s + 1) * (s + 1),
        ;
    }
}

/// Integer square root: the greatest `r` with `r * r <= n`.
pub fn isqrt(n: u64) -> (r: u64)
    requires
        n < 0x4000_0000_0000_0000,
    ensures
        r == isqrt_spec(n as nat),
        r * r <= n < (r + 1) * (r + 1),
{
    let mut lo: u64 = 0;
    let mut hi: u64 = 0x8000_0000;
    proof {
        assert((0x8000_0000u64 as int) * (0x8000_0000u64 as int) == 0x4000_0000_0000_0000)
            by (nonlinear_arith);
    }
    while hi - lo > 1
        invariant
            lo < hi <= 0x8000_0000,
            lo * lo <= n,
            n < hi * hi,
        decreases hi - lo,
    {
        let mid = lo + (hi - lo) / 2;
        proof {
            lemma_mul_upper_bound(mid as int, 0x8000_0000, mid as int, 0x8000_0000);
        }
        let sq: u128 = (mid as u128) * (mid as u128);
        if sq <= n as u128 {
            lo = mid;
        } else {
            hi = mid;
        }
    }
    proof {
        lemma_isqrt_unique(n as nat, lo as nat);
    }
    lo
}

/// Fixed-point square root of a non-negative value: if `v` stands for `x`,
/// the result stands for the square root of `x`, rounded down on the
/// fixed-point grid.
pub fn fx_sqrt(v: i64) -> (r: i64)
    requires
        0 <= v <= FX_LIM,
    ensures
        r == isqrt_spec((v * FX_ONE) as nat),
        0 <= r <= FX_LIM,
{
    proof {
        lemma_mul_upper_bound(v as int, FX_LIM as int, FX_ONE as int, FX_ONE as int);
        lemma_mul_nonnegative(v as int, FX_ONE as int);
    }
    let n: u64 = (v as u64) * (FX_ONE as u64);
    let r = isqrt(n);
    proof {
        assert(r * r <= n);
        if r > FX_LIM {
            assert((FX_LIM as int + 1) * (FX_LIM as int + 1) > n as int) by (nonlinear_arith)
                requires
                    n <= (FX_LIM as int) * (FX_ONE as int),
            ;
            assert(r as int * r as int >= (FX_LIM as int + 1) * (FX_LIM as int + 1))
                by (nonlinear_arith)
                requires
                    r as int >= FX_LIM as int + 1,
            ;
        }
    }
    r as i64
}

} // verus!
