//! Fixed-point helpers: powers of ten, integer square roots, basis points.
use vstd::prelude::*;

verus! {

/// One whole in basis points.
pub const BASIS_POINTS: u64 = 10000;

/// `10^n`.
pub open spec fn pow10(n: nat) -> nat
    decreases n,
{
    if n == 0 {
        1
    } else {
        10 * pow10((n - 1) as nat)
    }
}

pub proof fn lemma_pow10_positive(n: nat)
    ensures
        pow10(n) >= 1,
    decreases n,
{
    if n > 0 {
        lemma_pow10_positive((n - 1) as nat);
    }
}

pub proof fn lemma_pow10_monotonic(a: nat, b: nat)
    requires
        a <= b,
    ensures
        pow10(a) <= pow10(b),
    decreases b,
{
    if a < b {
        lemma_pow10_monotonic(a, (b - 1) as nat);
        lemma_pow10_positive((b - 1) as nat);
    }
}

/// `10^n` as a `u128`, or `None` where it exceeds `u128::MAX`.
pub fn checked_pow10(n: u32) -> (r: Option<u128>)
    ensures
        r matches Some(p) ==> p == pow10(n as nat),
        r is None <==> pow10(n as nat) > u128::MAX,
{
    let mut p: u128 = 1;
    let mut i: u32 = 0;
    while i < n
        invariant
            i <= n,
            p == pow10(i as nat),
        decreases n - i,
    {
        if p > u128::MAX / 10 {
            proof {
                lemma_pow10_monotonic((i + 1) as nat, n as nat);
            }
            return None;
        }
        p = p * 10;
        i = i + 1;
    }
    Some(p)
}

/// `x / 10^n`, exact for every `n`: a power that does not fit in a `u128`
/// exceeds `x`, so the quotient is then zero.
pub fn div_pow10(x: u128, n: u32) -> (r: u128)
    ensures
        r == (x as nat) / pow10(n as nat),
{
    proof {
        lemma_pow10_positive(n as nat);
    }
    match checked_pow10(n) {
        Some(p) => x / p,
        None => {
            proof {
                vstd::arithmetic::div_mod::lemma_basic_div(x as int, pow10(n as nat) as int);
            }
            0
        },
    }
}

/// The truncated square root `⌊√n⌋`.
pub open spec fn isqrt(n: nat) -> nat
    decreases n,
{
    if n == 0 {
        0
    } else {
        let r = isqrt((n - 1) as nat);
        if (r + 1) * (r + 1) <= n {
            r + 1
        } else {
            r
        }
    }
}

pub proof fn lemma_isqrt_bounds(n: nat)
    ensures
        isqrt(n) * isqrt(n) <= n,
        n < (isqrt(n) + 1) * (isqrt(n) + 1),
    decreases n,
{
    if n > 0 {
        lemma_isqrt_bounds((n - 1) as nat);
        let r = isqrt((n - 1) as nat);
        let s = isqrt(n);
        if (r + 1) * (r + 1) <= n {
            assert(s == r + 1);
            assert(n < (s + 1) * (s + 1)) by (nonlinear_arith)
                requires
                    s == r + 1,
                    n - 1 < (r + 1) * (r + 1),
                    r >= 0,
            ;
            assert(s * s <= n);
        } else {
            assert(s == r);
            assert(s * s <= n);
            assert(n < (s + 1) * (s + 1));
        }
    } else {
        let s = isqrt(n);
        assert(s == 0);
        assert(s * s <= n && n < (s + 1) * (s + 1)) by (nonlinear_arith)
            requires
                s == 0,
                n == 0,
        ;
    }
}

proof fn lemma_root_unique(n: int, a: int, b: int)
    requires
        0 <= a,
        0 <= b,
        a * a <= n < (a + 1) * (a + 1),
        b * b <= n < (b + 1) * (b + 1),
    ensures
        a == b,
{
    if a < b {
        assert((a + 1) * (a + 1) <= b * b) by (nonlinear_arith)
            requires
                0 <= a < b,
        ;
    } else if b < a {
        assert((b + 1) * (b + 1) <= a * a) by (nonlinear_arith)
            requires
                0 <= b < a,
        ;
    }
}

/// Any `r` with `r² ≤ n < (r+1)²` is `isqrt(n)`.
pub proof fn lemma_isqrt_unique(n: nat, r: nat)
    requires
        r * r <= n < (r + 1) * (r + 1),
    ensures
        r == isqrt(n),
{
    lemma_isqrt_bounds(n);
    lemma_root_unique(n as int, r as int, isqrt(n) as int);
}

/// Relies on num's `Roots::sqrt` for `u128`, documented as the truncated
/// principal square root: the result satisfies `r² ≤ x < (r+1)²`.
#[verifier::external_body]
fn num_sqrt(x: u128) -> (r: u128)
    ensures
        r * r <= x < (r + 1) * (r + 1),
{
    num::integer::Roots::sqrt(&x)
}

/// The truncated square root of `x`.
pub fn sqrt_floor(x: u128) -> (r: u64)
    ensures
        r == isqrt(x as nat),
{
    let r = num_sqrt(x);
    proof {
        lemma_isqrt_unique(x as nat, r as nat);
        if r >= 0x1_0000_0000_0000_0000 {
            assert(r * r >= 0x1_0000_0000_0000_0000 * 0x1_0000_0000_0000_0000) by (nonlinear_arith)
                requires
                    r >= 0x1_0000_0000_0000_0000,
            ;
        }
    }
    r as u64
}

} // verus!
