//! Execution status words, exception codes and the results of address translation.
use vstd::prelude::*;

verus! {

/// Exception codes of the Cause register.
pub const EXC_INT: u32 = 0;

pub const EXC_MOD: u32 = 1;

pub const EXC_TLBL: u32 = 2;

pub const EXC_TLBS: u32 = 3;

pub const EXC_ADEL: u32 = 4;

pub const EXC_ADES: u32 = 5;

pub const EXC_IBE: u32 = 6;

pub const EXC_DBE: u32 = 7;

pub const EXC_SYS: u32 = 8;

pub const EXC_BP: u32 = 9;

pub const EXC_RI: u32 = 10;

pub const EXC_CPU: u32 = 11;

pub const EXC_OV: u32 = 12;

pub const EXC_TR: u32 = 13;

pub const EXC_VCEI: u32 = 14;

pub const EXC_FPE: u32 = 15;

pub const EXC_WATCH: u32 = 23;

pub const EXC_VCED: u32 = 31;

/// Bit position of the exception code in a status word and in Cause.
pub const CAUSE_EXCCODE_SHIFT: u32 = 2;

/// What one instruction came to. With `EXEC_IS_EXCEPTION` set, bits 6..2 hold the
/// exception code and bits 28 and 29 mark the two kinds of TLB refill. Otherwise the
/// word is one of the tags below.
pub type ExecStatus = u32;

/// Ran to its end.
pub const EXEC_COMPLETE: ExecStatus = 0x0000_0000;

/// The bus was busy: the same instruction is to run again.
pub const EXEC_RETRY: ExecStatus = 0x0000_0100;

/// The compiled fast path did not apply: decode and dispatch as usual.
pub const EXEC_FALLBACK: ExecStatus = 0x0000_0200;

/// A breakpoint was hit.
pub const EXEC_BREAKPOINT: ExecStatus = 0x0000_0800;

pub const EXEC_IS_EXCEPTION: ExecStatus = 0x0800_0000;

pub const EXEC_IS_TLB_REFILL: ExecStatus = 0x1000_0000;

pub const EXEC_IS_XTLB_REFILL: ExecStatus = 0x2000_0000;

/// Data bus error.
pub const EXEC_BUS_ERR: ExecStatus = 0x0800_001C;

/// Virtual coherency error on data.
pub const EXEC_BUS_VCE: ExecStatus = 0x0800_007C;

/// The status word of exception `code`.
pub open spec fn exception_status(code: u32) -> ExecStatus {
    EXEC_IS_EXCEPTION | (code << CAUSE_EXCCODE_SHIFT)
}

/// The status word of a 32-bit TLB refill with exception `code`.
pub open spec fn tlb_miss_status(code: u32) -> ExecStatus {
    EXEC_IS_EXCEPTION | EXEC_IS_TLB_REFILL | (code << CAUSE_EXCCODE_SHIFT)
}

/// The status word of a 64-bit TLB refill with exception `code`.
pub open spec fn xtlb_miss_status(code: u32) -> ExecStatus {
    EXEC_IS_EXCEPTION | EXEC_IS_TLB_REFILL | EXEC_IS_XTLB_REFILL | (code << CAUSE_EXCCODE_SHIFT)
}

pub fn exec_exception_const(code: u32) -> (s: ExecStatus)
    ensures
        s == exception_status(code),
{
    EXEC_IS_EXCEPTION | (code << CAUSE_EXCCODE_SHIFT)
}

/// Status word of an exception.
pub fn exec_exception(code: u32) -> (s: ExecStatus)
    ensures
        s == exception_status(code),
{
    exec_exception_const(code)
}

/// Status word of a TLB refill through the 32-bit vector.
pub fn exec_tlb_miss(code: u32) -> (s: ExecStatus)
    ensures
        s == tlb_miss_status(code),
{
    EXEC_IS_EXCEPTION | EXEC_IS_TLB_REFILL | (code << CAUSE_EXCCODE_SHIFT)
}

/// Status word of a TLB refill through the 64-bit vector.
pub fn exec_xtlb_miss(code: u32) -> (s: ExecStatus)
    ensures
        s == xtlb_miss_status(code),
{
    EXEC_IS_EXCEPTION | EXEC_IS_TLB_REFILL | EXEC_IS_XTLB_REFILL | (code << CAUSE_EXCCODE_SHIFT)
}

/// The exception code that a status word carries.
pub open spec fn status_code(s: ExecStatus) -> u32 {
    (s >> CAUSE_EXCCODE_SHIFT) & 0x1F
}

proof fn lemma_status_words(c: u32)
    requires
        c < 32,
    ensures
        ((0x0800_0000u32 | (c << 2u32)) >> 2u32) & 0x1F == c,
        (0x0800_0000u32 | (c << 2u32)) & 0x0800_0000 != 0,
        (0x0800_0000u32 | (c << 2u32)) & 0x1000_0000 == 0,
        (0x0800_0000u32 | (c << 2u32)) & 0x2000_0000 == 0,
        ((0x0800_0000u32 | 0x1000_0000u32 | (c << 2u32)) >> 2u32) & 0x1F == c,
        (0x0800_0000u32 | 0x1000_0000u32 | (c << 2u32)) & 0x0800_0000 != 0,
        (0x0800_0000u32 | 0x1000_0000u32 | (c << 2u32)) & 0x1000_0000 != 0,
        (0x0800_0000u32 | 0x1000_0000u32 | (c << 2u32)) & 0x2000_0000 == 0,
        ((0x0800_0000u32 | 0x1000_0000u32 | 0x2000_0000u32 | (c << 2u32)) >> 2u32) & 0x1F == c,
        (0x0800_0000u32 | 0x1000_0000u32 | 0x2000_0000u32 | (c << 2u32)) & 0x0800_0000 != 0,
        (0x0800_0000u32 | 0x1000_0000u32 | 0x2000_0000u32 | (c << 2u32)) & 0x1000_0000 != 0,
        (0x0800_0000u32 | 0x1000_0000u32 | 0x2000_0000u32 | (c << 2u32)) & 0x2000_0000 != 0,
        0x0000_0000u32 & 0x0800_0000 == 0,
        0x0000_0100u32 & 0x0800_0000 == 0,
        0x0000_0200u32 & 0x0800_0000 == 0,
        0x0000_0800u32 & 0x0800_0000 == 0,
        (0x0800_0000u32 | (7u32 << 2u32)) == 0x0800_001C,
        (0x0800_0000u32 | (31u32 << 2u32)) == 0x0800_007C,
{
    crate::bits::lemma_bits_of_word(c);
}

/// Law: a status word gives back the exception code it was built from, and its flag
/// bits tell plain exceptions, 32-bit refills and 64-bit refills apart.
pub proof fn law_status_words_carry_their_code(code: u32)
    requires
        code < 32,
    ensures
        status_code(exception_status(code)) == code,
        status_code(tlb_miss_status(code)) == code,
        status_code(xtlb_miss_status(code)) == code,
        exception_status(code) & EXEC_IS_EXCEPTION != 0,
        exception_status(code) & EXEC_IS_TLB_REFILL == 0,
        tlb_miss_status(code) & EXEC_IS_EXCEPTION != 0,
        tlb_miss_status(code) & EXEC_IS_TLB_REFILL != 0,
        tlb_miss_status(code) & EXEC_IS_XTLB_REFILL == 0,
        xtlb_miss_status(code) & EXEC_IS_EXCEPTION != 0,
        xtlb_miss_status(code) & EXEC_IS_TLB_REFILL != 0,
        xtlb_miss_status(code) & EXEC_IS_XTLB_REFILL != 0,
{
    lemma_status_words(code);
}

/// Law: the tags of ordinary outcomes are not exceptions, and the two bus errors are
/// the status words of their exception codes.
pub proof fn law_tags_and_bus_errors()
    ensures
        EXEC_COMPLETE & EXEC_IS_EXCEPTION == 0,
        EXEC_RETRY & EXEC_IS_EXCEPTION == 0,
        EXEC_FALLBACK & EXEC_IS_EXCEPTION == 0,
        EXEC_BREAKPOINT & EXEC_IS_EXCEPTION == 0,
        EXEC_BUS_ERR == exception_status(EXC_DBE),
        EXEC_BUS_VCE == exception_status(EXC_VCED),
{
    lemma_status_words(0);
}

/// Alignment mask of an access of `SIZE` bytes: the address bits that must be clear.
pub fn align_mask_for<const SIZE: usize>() -> (m: u64)
    requires
        SIZE >= 1,
    ensures
        m == SIZE - 1,
{
    (SIZE as u64) - 1
}

/// The low `size` bytes of a word, all ones.
pub open spec fn full_mask(size: usize) -> u64 {
    if size == 8 {
        !0u64
    } else {
        !0u64 >> ((64 - size * 8) as u64)
    }
}

/// Data mask of an access of `SIZE` bytes.
pub fn full_mask_for<const SIZE: usize>() -> (m: u64)
    requires
        1 <= SIZE <= 8,
    ensures
        m == full_mask(SIZE),
{
    full_mask_for_usize(SIZE)
}

/// Data mask of an access of `size` bytes.
pub fn full_mask_for_usize(size: usize) -> (m: u64)
    requires
        1 <= size <= 8,
    ensures
        m == full_mask(size),
{
    if size == 8 {
        !0u64
    } else {
        !0u64 >> ((64 - size * 8) as u64)
    }
}

proof fn lemma_full_masks()
    ensures
        !0u64 >> 56u64 == 0xFFu64,
        !0u64 >> 48u64 == 0xFFFFu64,
        !0u64 >> 32u64 == 0xFFFF_FFFFu64,
        !0u64 == 0xFFFF_FFFF_FFFF_FFFFu64,
{
    crate::bits::lemma_constant_bits();
}

/// Law: the data masks of the four access sizes.
pub proof fn law_full_masks()
    ensures
        full_mask(1) == 0xFF,
        full_mask(2) == 0xFFFF,
        full_mask(4) == 0xFFFF_FFFF,
        full_mask(8) == 0xFFFF_FFFF_FFFF_FFFF,
{
    lemma_full_masks();
}

/// Cache behaviour of a page.
#[derive(Debug, Clone, Copy, PartialEq, Eq, Structural)]
pub enum CacheAttr {
    Uncached,
    Cacheable,
    CacheableCoherent,
}

/// Values of the C field of EntryLo.
pub const TR_UNCACHED: u32 = 2;

pub const TR_CACHEABLE: u32 = 3;

pub const TR_CACHEABLE_COH: u32 = 5;

impl CacheAttr {
    /// The C field value of this attribute.
    pub open spec fn spec_c_field(self) -> u32 {
        match self {
            CacheAttr::Uncached => TR_UNCACHED,
            CacheAttr::Cacheable => TR_CACHEABLE,
            CacheAttr::CacheableCoherent => TR_CACHEABLE_COH,
        }
    }

    #[verifier::when_used_as_spec(spec_c_field)]
    pub fn c_field(self) -> (c: u32)
        ensures
            c == self.spec_c_field(),
    {
        match self {
            CacheAttr::Uncached => TR_UNCACHED,
            CacheAttr::Cacheable => TR_CACHEABLE,
            CacheAttr::CacheableCoherent => TR_CACHEABLE_COH,
        }
    }
}

/// Result of an address translation. On success `phys` is the physical address and
/// `status` the C field; on failure `status` is an exception word.
#[derive(Debug, Clone, Copy, PartialEq, Eq, Structural)]
pub struct TranslateResult {
    pub phys: u32,
    pub status: u32,
}

impl TranslateResult {
    pub open spec fn spec_ok(phys: u64, c_field: u32) -> Self {
        TranslateResult { phys: phys as u32, status: c_field }
    }

    pub open spec fn spec_exc(s: ExecStatus) -> Self {
        TranslateResult { phys: 0, status: s }
    }

    pub open spec fn spec_is_exception(self) -> bool {
        self.status & EXEC_IS_EXCEPTION != 0
    }

    pub open spec fn spec_is_cached(self) -> bool {
        self.status & 0x7 != TR_UNCACHED
    }

    /// A translation to the low 32 bits of `phys` with the given C field.
    #[verifier::when_used_as_spec(spec_ok)]
    pub fn ok(phys: u64, c_field: u32) -> (r: Self)
        ensures
            r == Self::spec_ok(phys, c_field),
    {
        TranslateResult { phys: phys as u32, status: c_field }
    }

    #[verifier::when_used_as_spec(spec_exc)]
    pub fn exc(s: ExecStatus) -> (r: Self)
        ensures
            r == Self::spec_exc(s),
    {
        TranslateResult { phys: 0, status: s }
    }

    #[verifier::when_used_as_spec(spec_is_exception)]
    pub fn is_exception(self) -> (b: bool)
        ensures
            b == self.spec_is_exception(),
    {
        self.status & EXEC_IS_EXCEPTION != 0
    }

    /// True for the cached attributes, false for the uncached one.
    #[verifier::when_used_as_spec(spec_is_cached)]
    pub fn is_cached(self) -> (b: bool)
        ensures
            b == self.spec_is_cached(),
    {
        self.status & 0x7 != TR_UNCACHED
    }
}

/// Sizes of the processor's TLB.
#[derive(Debug, Clone, Copy, PartialEq, Eq, Structural)]
pub struct MipsCpuConfig {
    pub tlb_entries: usize,
}

impl MipsCpuConfig {
    /// The SGI Indy's R4400 with its 48-entry TLB.
    pub fn indy() -> (c: Self)
        ensures
            c.tlb_entries == 48,
    {
        MipsCpuConfig { tlb_entries: 48 }
    }
}

} // verus!
