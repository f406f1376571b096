use vstd::prelude::*;
use vstd::arithmetic::div_mod::{lemma_fundamental_div_mod, lemma_mod_multiples_basic};

verus! {

/// Granularity of GPU page tables and of buffer-object mappings.
pub const PAGE_SIZE: u64 = 0x4000;

/// Granularity of the allocators for shared and firmware memory, larger
/// than the page-table granularity.
pub const BUFFER_PAGE_SIZE: u64 = 0x8000;

/// Every address this library hands out lies below this bound.
pub const ADDR_LIMIT: u64 = 0x1_0000_0000_0000;

/// Window of the allocator for memory shared between client and GPU.
pub const SHARED_START: u64 = 0x60_0000_0000;
pub const SHARED_END: u64 = 0x60_ffff_ffff;

/// Window of the allocator for memory shared with the firmware.
pub const PRIVATE_START: u64 = 0x61_0000_0000;
pub const PRIVATE_END: u64 = 0x61_ffff_ffff;

/// Window of the allocator for small internal scratch allocations.
pub const EXTRA_START: u64 = 0x6f_ffff_8000;
pub const EXTRA_END: u64 = 0x70_0000_0000;

/// Window reserved for command and pipeline buffers.
pub const PIPELINE_START: u64 = 0x11_0000_0000;
pub const PIPELINE_END: u64 = 0x12_0000_0000;

/// Default window for general-purpose buffer objects.
pub const GENERAL_START: u64 = 0x20_0000_0000;
pub const GENERAL_END: u64 = 0x60_0000_0000;

/// Protection: readable and writable by both the CPU and the GPU.
pub const PROT_GPU_SHARED_RW: u32 = 1;
/// Protection: readable and writable by the GPU and its firmware.
pub const PROT_GPU_FW_SHARED_RW: u32 = 2;

/// `x` rounded up to the next multiple of `a`.
pub open spec fn align_up(x: int, a: int) -> int {
    if x % a == 0 {
        x
    } else {
        x - x % a + a
    }
}

pub proof fn lemma_align_up(x: int, a: int)
    requires
        x >= 0,
        a > 0,
    ensures
        align_up(x, a) % a == 0,
        x <= align_up(x, a) < x + a,
        x % a <= x,
{
    lemma_fundamental_div_mod(x, a);
    assert(x / a >= 0) by (nonlinear_arith)
        requires
            x >= 0,
            a > 0,
    ;
    assert(a * (x / a) >= 0) by (nonlinear_arith)
        requires
            x / a >= 0,
            a > 0,
    ;
    if x % a != 0 {
        lemma_mod_multiples_basic(x / a + 1, a);
        assert((x / a + 1) * a == a * (x / a) + a) by (nonlinear_arith);
    }
}

/// Rounds `x` up to a multiple of `a`.
pub fn round_up(x: u64, a: u64) -> (r: u64)
    requires
        a > 0,
        x as int + a as int <= u64::MAX,
    ensures
        r as int == align_up(x as int, a as int),
        r % a == 0,
        x <= r,
        r < x + a,
{
    proof {
        lemma_align_up(x as int, a as int);
    }
    let m: u64 = x % a;
    if m == 0 {
        x
    } else {
        x - m + a
    }
}

} // verus!

verus! {

/// First fake offset handed out for memory-mapping buffer objects.
pub const MMAP_OFFSET_START: u64 = 0x1_0000_0000;
/// Fake mmap offsets stay below this bound.
pub const MMAP_OFFSET_END: u64 = 0x1_0000_0000_0000;

} // verus!
