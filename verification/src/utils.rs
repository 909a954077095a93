//! Small arithmetic helpers shared by the other modules.

use vstd::prelude::*;

verus! {

/// True when `align` is a positive power of two: it has exactly one bit set.
pub open spec fn is_pow2(align: u32) -> bool {
    align > 0 && align & ((align - 1) as u32) == 0
}

/// The least multiple of `align` that is not below `num`.
pub open spec fn align_up_spec(num: int, align: int) -> int {
    if num % align == 0 {
        num
    } else {
        num - num % align + align
    }
}

/// `align_up_spec` yields a multiple of `align`, and the least one that is
/// not below `num`.
pub proof fn lemma_align_up_is_least_multiple(num: int, align: int, other: int)
    requires
        num >= 0,
        align > 0,
    ensures
        align_up_spec(num, align) % align == 0,
        num <= align_up_spec(num, align) < num + align,
        other % align == 0 && other >= num ==> other >= align_up_spec(num, align),
{
    vstd::arithmetic::div_mod::lemma_fundamental_div_mod(num, align);
    let q = num / align;
    let r = num % align;
    assert(align * q == q * align) by (nonlinear_arith);
    if r != 0 {
        assert((q + 1) * align == q * align + align) by (nonlinear_arith);
        vstd::arithmetic::div_mod::lemma_mod_multiples_basic(q + 1, align);
    }
    if other % align == 0 && other >= num {
        vstd::arithmetic::div_mod::lemma_fundamental_div_mod(other, align);
        let p = other / align;
        assert(align * p == p * align) by (nonlinear_arith);
        if r != 0 {
            assert(p >= q + 1) by (nonlinear_arith)
                requires
                    p * align >= q * align + r,
                    r > 0,
                    align > 0,
            ;
            assert(p * align >= (q + 1) * align) by (nonlinear_arith)
                requires
                    p >= q + 1,
                    align > 0,
            ;
        }
    }
}

/// Rounds `num` up to the next multiple of `align`, a power of two.
pub fn align_up(num: u32, align: u32) -> (res: u32)
    requires
        is_pow2(align),
        num + align - 1 <= u32::MAX,
    ensures
        res == align_up_spec(num as int, align as int),
{
    let rem: u32 = num % align;
    proof {
        vstd::arithmetic::div_mod::lemma_mod_decreases(num as nat, align as nat);
    }
    if rem == 0 {
        num
    } else {
        num - rem + align
    }
}

} // verus!
