use vstd::prelude::*;

use vstd::arithmetic::div_mod::{
    lemma_div_pos_is_pos, lemma_fundamental_div_mod, lemma_hoist_over_denominator,
    lemma_multiply_divide_lt,
};

verus! {

/// One whole unit in the ledger's native fixed-point scale: amounts and
/// unit prices both carry seven decimal places.
pub const SCALE: i128 = 10_000_000;

/// The settlement cost of `amount` units at unit price `price`, both in the
/// fixed-point scale: the fixed-point product, rounded down.
pub open spec fn cost_of(amount: i128, price: i128) -> int {
    (amount * price) / (SCALE as int)
}

/// `cost_of`, computed with widened arithmetic so that the intermediate
/// product never wraps; `None` exactly when the cost itself leaves the
/// `i128` range.
pub(crate) fn scaled_cost(amount: i128, price: i128) -> (res: Option<i128>)
    requires
        amount > 0,
        price > 0,
    ensures
        match res {
            Some(c) => c == cost_of(amount, price),
            None => cost_of(amount, price) > i128::MAX as int,
        },
{
    let ua: u128 = amount as u128;
    let up: u128 = price as u128;
    let s: u128 = SCALE as u128;
    let q: u128 = up / s;
    let r: u128 = up % s;
    let ah: u128 = ua / s;
    let al: u128 = ua % s;
    let ghost ai = ua as int;
    let ghost si = s as int;
    proof {
        lemma_fundamental_div_mod(ai, si);
        lemma_fundamental_div_mod(up as int, si);
        // The partial products stay inside u128.
        assert(ah as int * (r as int) <= ah as int * si) by (nonlinear_arith)
            requires
                0 <= ah as int,
                r as int <= si,
        ;
        assert(al as int * (r as int) <= (si - 1) * (si - 1)) by (nonlinear_arith)
            requires
                0 <= al as int <= si - 1,
                0 <= r as int <= si - 1,
        ;
        lemma_div_pos_is_pos(al as int * (r as int), si);
        lemma_multiply_divide_lt(al as int * (r as int), si, si);
        // t2 below equals (ua * r) / s: split ua at the scale boundary and
        // hoist the whole multiple of s out of the division.
        assert(ai * (r as int) == al as int * (r as int) + (ah as int * (r as int)) * si)
            by (nonlinear_arith)
            requires
                ai == si * (ah as int) + al as int,
        ;
        lemma_hoist_over_denominator(al as int * (r as int), ah as int * (r as int), s as nat);
        // And the cost splits the same way at the price's scale boundary.
        assert(ai * (up as int) == ai * (r as int) + (ai * (q as int)) * si) by (nonlinear_arith)
            requires
                up as int == si * (q as int) + r as int,
        ;
        lemma_hoist_over_denominator(ai * (r as int), ai * (q as int), s as nat);
        lemma_div_pos_is_pos(ai * (r as int), si);
        assert(ai * (r as int) >= 0) by (nonlinear_arith)
            requires
                ai >= 0,
                r as int >= 0,
        ;
    }
    let t2: u128 = ah * r + (al * r) / s;
    let imax: u128 = i128::MAX as u128;
    match ua.checked_mul(q) {
        None => Option::None,
        Some(p1) => {
            if p1 > imax {
                Option::None
            } else if t2 > imax - p1 {
                Option::None
            } else {
                let c: u128 = p1 + t2;
                Option::Some(c as i128)
            }
        }
    }
}

} // verus!
