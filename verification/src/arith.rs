//! Small integer helpers shared by the header parser and the address
//! translator: division with remainder, ceiling division, and padding
//! to a multiple.

use vstd::prelude::*;

verus! {

/// The least `q` with `q * b >= a`, for positive `b`.
pub open spec fn spec_div_ceil(a: nat, b: nat) -> nat {
    if a % b == 0 {
        a / b
    } else {
        a / b + 1
    }
}

/// The least `r` such that `a + r` is a multiple of `b`, for positive `b`.
pub open spec fn spec_padding(a: nat, b: nat) -> nat {
    if a % b == 0 {
        0
    } else {
        (b - a % b) as nat
    }
}

/// `spec_div_ceil(a, b)` times `b` reaches `a`, and no smaller multiplier
/// `q` does.
pub proof fn lemma_div_ceil_is_least(a: nat, b: nat, q: nat)
    requires
        b > 0,
    ensures
        spec_div_ceil(a, b) * b >= a,
        q * b >= a ==> q >= spec_div_ceil(a, b),
{
    let d = a / b;
    let m = a % b;
    assert(a == d * b + m && 0 <= m < b) by (nonlinear_arith)
        requires
            d == a / b,
            m == a % b,
            b > 0,
    ;
    assert((d + 1) * b == d * b + b) by (nonlinear_arith);
    if q < spec_div_ceil(a, b) {
        if m == 0 {
            assert(q * b <= (d - 1) * b) by (nonlinear_arith)
                requires
                    q <= d - 1,
                    b > 0,
            ;
            assert((d - 1) * b == d * b - b) by (nonlinear_arith);
        } else {
            assert(q * b <= d * b) by (nonlinear_arith)
                requires
                    q <= d,
                    b > 0,
            ;
        }
    }
}

/// `spec_padding(a, b)` is below `b` and fills `a` up to a multiple of `b`;
/// no smaller amount `r` does.
pub proof fn lemma_padding_is_least(a: nat, b: nat, r: nat)
    requires
        b > 0,
    ensures
        spec_padding(a, b) < b,
        (a + spec_padding(a, b)) % b == 0,
        (a + r) % b == 0 ==> r >= spec_padding(a, b),
{
    let d = a / b;
    let m = a % b;
    assert(a == d * b + m && 0 <= m < b) by (nonlinear_arith)
        requires
            d == a / b,
            m == a % b,
            b > 0,
    ;
    if m != 0 {
        assert((a + (b - m)) % (b as int) == 0) by (nonlinear_arith)
            requires
                a == d * b + m,
                b > 0,
        {
            assert(a + (b - m) == (d + 1) * b);
        }
    }
    if r < spec_padding(a, b) {
        assert((a + r) % b == m + r) by (nonlinear_arith)
            requires
                a == d * b + m,
                0 <= m + r < b,
                b > 0,
        {
            assert(a + r == d * b + (m + r));
        }
    }
}

/// Divides `a` by `b` and yields quotient and remainder.
pub fn div_rem(a: u64, b: u64) -> (r: (u64, u64))
    requires
        b != 0,
    ensures
        r.0 == a / b,
        r.1 == a % b,
{
    (a / b, a % b)
}

/// Divides `a` by `b`, rounding up.
pub fn div_ceil(a: u64, b: u64) -> (r: u64)
    requires
        b != 0,
    ensures
        r == spec_div_ceil(a as nat, b as nat),
{
    let (d, m) = div_rem(a, b);
    if m == 0 {
        d
    } else {
        assert(d < u64::MAX) by (nonlinear_arith)
            requires
                d == a / b,
                a % b != 0,
                b != 0,
                a <= u64::MAX,
        {
            if b == 1 {
                assert(a % 1 == 0);
            } else {
                assert(a / b <= a / 2);
            }
        }
        d + 1
    }
}

/// The smallest number that, added to `a`, yields a multiple of `b`.
pub fn padding_to_multiple(a: u64, b: u64) -> (r: usize)
    requires
        b != 0,
        b - 1 <= usize::MAX,
    ensures
        r == spec_padding(a as nat, b as nat),
{
    let m: u64 = a % b;
    let r: u64 = if m == 0 {
        m
    } else {
        b - m
    };
    r as usize
}

/// Whether `a` is a multiple of `b`.
pub fn is_multiple_of(a: u64, b: u64) -> (r: bool)
    requires
        b != 0,
    ensures
        r == (a % b == 0),
{
    a % b == 0
}

} // verus!
