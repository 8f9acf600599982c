//! Page-alignment arithmetic, performed by the `memory_addr` crate and
//! specified here.

use vstd::prelude::*;
use vstd::arithmetic::div_mod::{
    lemma_div_is_ordered, lemma_fundamental_div_mod, lemma_fundamental_div_mod_converse,
};

verus! {

/// Size of one page of the address-space model.
pub const PAGE_SIZE_4K: usize = 4096;

/// The greatest page-aligned value not above `addr`.
pub open spec fn spec_align_down_4k(addr: usize) -> int {
    (addr as int / 4096) * 4096
}

/// The least page-aligned value not below `addr`.
pub open spec fn spec_align_up_4k(addr: usize) -> int {
    ((addr as int + 4095) / 4096) * 4096
}

/// Relies on `memory_addr::align_down_4k`: the greatest 4096-aligned address
/// not above `addr`.
pub assume_specification [ memory_addr::align_down_4k ](addr: usize) -> (r: usize)
    ensures
        r as int == spec_align_down_4k(addr),
;

/// Relies on `memory_addr::align_up_4k`: the least 4096-aligned address not
/// below `addr`; the sum it forms must not wrap.
pub assume_specification [ memory_addr::align_up_4k ](addr: usize) -> (r: usize)
    requires
        addr + 4095 <= usize::MAX,
    ensures
        r as int == spec_align_up_4k(addr),
;

/// Rounding down stays within one page below, and is page-aligned.
pub proof fn lemma_align_down_4k(addr: usize)
    ensures
        0 <= spec_align_down_4k(addr) <= addr,
        addr - spec_align_down_4k(addr) < 4096,
        spec_align_down_4k(addr) % 4096 == 0,
{
    let a = addr as int;
    lemma_fundamental_div_mod(a, 4096);
    lemma_fundamental_div_mod_converse(a, 4096, a / 4096, a % 4096);
    assert((a / 4096) * 4096 % 4096 == 0) by (nonlinear_arith);
    assert(a / 4096 >= 0) by (nonlinear_arith)
        requires
            a >= 0,
    ;
}

/// Rounding up stays within one page above, and is page-aligned.
pub proof fn lemma_align_up_4k(addr: usize)
    ensures
        addr <= spec_align_up_4k(addr) < addr + 4096,
        spec_align_up_4k(addr) % 4096 == 0,
{
    let a = addr as int + 4095;
    lemma_fundamental_div_mod(a, 4096);
    assert((a / 4096) * 4096 % 4096 == 0) by (nonlinear_arith);
}

/// Division by the page size preserves order.
pub proof fn lemma_page_div_ordered(x: int, y: int)
    requires
        0 <= x <= y,
    ensures
        x / 4096 <= y / 4096,
{
    lemma_div_is_ordered(x, y, 4096);
}

/// Page indices of an aligned range: an address inside it lands between
/// the end points' page indices, and the page count adds up.
pub proof fn lemma_aligned_range_pages(s_al: int, e_al: int, a: int)
    requires
        0 <= s_al <= a < e_al,
        s_al % 4096 == 0,
        e_al % 4096 == 0,
    ensures
        s_al / 4096 <= a / 4096 < e_al / 4096,
        s_al / 4096 + (e_al - s_al) / 4096 == e_al / 4096,
{
    let x = s_al / 4096;
    let y = e_al / 4096;
    lemma_fundamental_div_mod(s_al, 4096);
    lemma_fundamental_div_mod(e_al, 4096);
    lemma_div_is_ordered(s_al, a, 4096);
    lemma_div_is_ordered(a, e_al - 1, 4096);
    lemma_fundamental_div_mod_converse(e_al - 1, 4096, y - 1, 4095);
    lemma_fundamental_div_mod_converse(e_al - s_al, 4096, y - x, 0);
}

} // verus!
