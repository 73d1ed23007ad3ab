//! Facts of integer division shared by the modules.

use vstd::prelude::*;

verus! {

/// Adding a multiple of the divisor adds as much to the quotient and
/// nothing to the remainder.
pub proof fn lemma_add_multiple(x: int, d: int, k: int)
    requires
        d > 0,
    ensures
        (x + k * d) / d == x / d + k,
        (x + k * d) % d == x % d,
{
    let q: int = x / d;
    let r: int = x % d;
    vstd::arithmetic::div_mod::lemma_fundamental_div_mod(x, d);
    assert(0 <= r < d) by (nonlinear_arith)
        requires
            d > 0,
            r == x % d,
    ;
    assert(x + k * d == (q + k) * d + r) by (nonlinear_arith)
        requires
            x == d * q + r,
    ;
    vstd::arithmetic::div_mod::lemma_fundamental_div_mod_converse(x + k * d, d, q + k, r);
}

} // verus!
