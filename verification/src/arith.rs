//! Integer arithmetic shared by the colour conversion and the clock code.

use vstd::prelude::*;

verus! {

/// Quotient of `n` by `d`, rounded toward zero.
pub open spec fn trunc_div(n: int, d: int) -> int {
    if n >= 0 {
        n / d
    } else {
        -((-n) / d)
    }
}

/// Whether `n` is a value of `i64`.
pub open spec fn fits_i64(n: int) -> bool {
    i64::MIN <= n <= i64::MAX
}

/// The quotient leaves a remainder smaller than the divisor, and on the side of
/// the dividend's sign: it never lies further from zero than the exact one.
pub proof fn law_quotient_rounds_toward_zero(n: int, d: int)
    requires
        d > 0,
    ensures
        n >= 0 ==> trunc_div(n, d) * d <= n < trunc_div(n, d) * d + d,
        n <= 0 ==> trunc_div(n, d) * d - d < n <= trunc_div(n, d) * d,
        trunc_div(-n, d) == -trunc_div(n, d),
{
    let m = if n >= 0 {
        n
    } else {
        -n
    };
    vstd::arithmetic::div_mod::lemma_fundamental_div_mod(m, d);
    vstd::arithmetic::div_mod::lemma_mod_bound(m, d);
    let q = m / d;
    assert(d * q == q * d && (-q) * d == -(q * d)) by (nonlinear_arith);
    if n == 0 {
        assert(q == 0) by (nonlinear_arith)
            requires
                q == 0int / d,
                d > 0,
        ;
    }
}

/// The range is that of a signed number of 64 bits.
pub proof fn law_i64_range(n: int)
    ensures
        fits_i64(n) <==> -9_223_372_036_854_775_808 <= n <= 9_223_372_036_854_775_807,
{
}

} // verus!
