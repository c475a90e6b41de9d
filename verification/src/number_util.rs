//! Wrapping an integer into a range.
use vstd::prelude::*;

verus! {

/// The remainder of `a` divided by a positive `b` that takes the sign of
/// `a`, as Rust's `%` does.
pub open spec fn truncated_rem(a: int, b: int) -> int {
    if a >= 0 {
        a % b
    } else {
        -((-a) % b)
    }
}

/// `basic` reduced modulo the width of the range, then offset by `min`.
/// Panics when the range is empty or reversed.
pub fn wrap_usize(basic: usize, min: usize, max: usize) -> (r: usize)
    requires
        max > min,
        basic % ((max - min) as usize) + min <= usize::MAX,
    ensures
        r == basic % ((max - min) as usize) + min,
        min <= r < max,
{
    let range = max - min;
    let q = basic / range;
    proof {
        vstd::arithmetic::div_mod::lemma_fundamental_div_mod(basic as int, range as int);
        assert(q * range == basic - basic % range) by (nonlinear_arith)
            requires
                q == basic / range,
                basic == range * (basic / range) + basic % range,
        ;
    }
    basic - q * range + min
}

/// `basic` wrapped into `min .. max`: its remainder modulo the width of the
/// range, taken without sign (flooring), offset by `min`. Panics when the
/// range is empty or reversed.
pub fn wrap_isize(basic: isize, min: isize, max: isize) -> (r: isize)
    requires
        max > min,
        max - min <= isize::MAX,
    ensures
        r == (basic as int) % (max - min) + min,
        min <= r < max,
{
    let range = max - min;
    let q = basic / range;
    proof {
        let a: int = if basic >= 0 {
            basic as int
        } else {
            -basic
        };
        vstd::arithmetic::div_mod::lemma_fundamental_div_mod(a, range as int);
        vstd::arithmetic::div_mod::lemma_fundamental_div_mod(basic as int, range as int);
        if basic >= 0 {
            assert(q * range == basic - truncated_rem(basic as int, range as int)) by (nonlinear_arith)
                requires
                    q == a / (range as int),
                    a == basic,
                    a == (range as int) * (a / (range as int)) + a % (range as int),
                    truncated_rem(basic as int, range as int) == a % (range as int),
            ;
        } else {
            assert(q * range == basic - truncated_rem(basic as int, range as int)) by (nonlinear_arith)
                requires
                    q == -(a / (range as int)),
                    a == -basic,
                    a == (range as int) * (a / (range as int)) + a % (range as int),
                    truncated_rem(basic as int, range as int) == -(a % (range as int)),
            ;
        }
        assert(0 <= a % (range as int) < range as int);
        let t = truncated_rem(basic as int, range as int);
        let r = range as int;
        assert(basic as int == r * (q as int) + t) by (nonlinear_arith)
            requires
                q * range == basic - t,
                r == range,
        ;
        vstd::arithmetic::div_mod::lemma_mod_multiples_vanish(q as int, t, r);
        if t < 0 {
            vstd::arithmetic::div_mod::lemma_mod_add_multiples_vanish(t, r);
            vstd::arithmetic::div_mod::lemma_small_mod((r + t) as nat, r as nat);
        } else {
            vstd::arithmetic::div_mod::lemma_small_mod(t as nat, r as nat);
        }
    }
    let rem = basic - q * range;
    let rem = if rem < 0 {
        rem + range
    } else {
        rem
    };
    rem + min
}

} // verus!
