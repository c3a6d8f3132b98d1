//! Whether the AVX2 compositor may run: the CPU feature bits it needs, as
//! CPUID and XGETBV report them.

use vstd::prelude::*;

verus! {

/// CPUID leaf 1 reports OSXSAVE (ECX bit 27) and AVX (ECX bit 28): only
/// then may XCR0 be read.
pub open spec fn avx_os_bits_spec(leaf1_ecx: u32) -> bool {
    leaf1_ecx & 0x0800_0000 != 0 && leaf1_ecx & 0x1000_0000 != 0
}

/// AVX2 is usable: OSXSAVE and AVX are reported, the OS saves the YMM
/// state (XCR0 bits 1 and 2), and CPUID leaf 7 reports AVX2 (EBX bit 5).
pub open spec fn avx2_available_spec(leaf1_ecx: u32, xcr0: u64, leaf7_ebx: u32) -> bool {
    avx_os_bits_spec(leaf1_ecx) && xcr0 & 0x6 == 0x6 && leaf7_ebx & 0x20 != 0
}

/// Whether CPUID leaf 1 allows reading XCR0 and reports AVX.
pub fn avx_os_bits(leaf1_ecx: u32) -> (res: bool)
    ensures
        res == avx_os_bits_spec(leaf1_ecx),
{
    leaf1_ecx & 0x0800_0000 != 0 && leaf1_ecx & 0x1000_0000 != 0
}

/// Whether AVX2 is usable given the three feature words.
pub fn avx2_available(leaf1_ecx: u32, xcr0: u64, leaf7_ebx: u32) -> (res: bool)
    ensures
        res == avx2_available_spec(leaf1_ecx, xcr0, leaf7_ebx),
{
    if !avx_os_bits(leaf1_ecx) {
        return false;
    }
    if xcr0 & 0x6 != 0x6 {
        return false;
    }
    leaf7_ebx & 0x20 != 0
}

} // verus!
