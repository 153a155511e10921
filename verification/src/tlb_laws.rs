//! What the TLB instructions do, in pages and frames.
use vstd::prelude::*;

use crate::bus::{BusDevice, MipsCache, Tlb, TlbEntry, TlbResult};
use crate::cpu_core::{AccessType, MipsCore};
use crate::cpu_laws::{lemma_memory_family, lemma_not_integer};
use crate::fpu::Step;
use crate::instr::InstrHandler;
use crate::loadstore::alone;
use crate::machine::Machine;
use crate::soft_tlb::{first_match, matches_address, SoftTlb};
use crate::status::{CacheAttr, EXEC_COMPLETE};
use crate::words::{function, goes_on, lemma_encoded, lemma_fields, opcode, reg_s};

verus! {

/// `raw` is the instruction of the TLB group with function `f`.
pub open spec fn is_tlb_word(raw: u32, f: int) -> bool {
    opcode(raw) == 16 && reg_s(raw) == 16 && function(raw) == f
}

/// `n` bytes are a pair of pages: from 4 KB to 16 MB each.
pub open spec fn is_pair(n: int) -> bool {
    ||| n == 0x2000
    ||| n == 0x8000
    ||| n == 0x2_0000
    ||| n == 0x8_0000
    ||| n == 0x20_0000
    ||| n == 0x80_0000
    ||| n == 0x200_0000
}

/// Bytes in the pair of pages of an entry.
pub open spec fn pair(mask: u64) -> int {
    mask + 0x2000
}

/// EntryHi `hi` names the pair of `n` bytes in which `va` lies. Of wide addresses the
/// region and 40 bits count, of others 32 bits.
pub open spec fn names(hi: u64, n: int, wide: bool, va: u64) -> bool {
    if wide {
        &&& va as int / 0x4000_0000_0000_0000 == hi as int / 0x4000_0000_0000_0000
        &&& va as int % 0x100_0000_0000 / n == hi as int % 0x100_0000_0000 / n
    } else {
        va as int % 0x1_0000_0000 / n == hi as int % 0x1_0000_0000 / n
    }
}

/// Entry `e` is for `va` in address space `asid`: it is global, or of that space.
pub open spec fn is_for(e: TlbEntry, wide: bool, va: u64, asid: u8) -> bool {
    &&& names(e.entry_hi, pair(e.page_mask), wide, va)
    &&& e.entry_hi as int / 0x1000 % 2 == 1 || e.entry_hi as int % 0x100 == asid
}

/// What the half `lo` of an entry says of `va`, which lies in its page of `n` bytes.
pub open spec fn gives(r: TlbResult, lo: u64, n: int, va: u64) -> bool {
    if lo as int / 2 % 2 == 0 {
        r == TlbResult::Invalid
    } else {
        match r {
            TlbResult::Hit { phys_addr, cache_attr, dirty } => {
                &&& phys_addr == lo as int / 64 % 0x100_0000 * 0x1000 / n * n + va as int % n
                &&& dirty == (lo as int / 4 % 2 == 1)
                &&& cache_attr == if lo as int / 8 % 8 == 3 {
                    CacheAttr::Cacheable
                } else if lo as int / 8 % 8 == 5 {
                    CacheAttr::CacheableCoherent
                } else {
                    CacheAttr::Uncached
                }
            },
            _ => false,
        }
    }
}

proof fn lemma_same_pair(v: u64, h: u64)
    by (bit_vector)
    ensures
        v & 0xFFFF_E000 & !0x1FFFu64 == h & 0xFFFF_E000 & !0x1FFFu64 <==> v % 0x1_0000_0000 / 0x2000 == h
            % 0x1_0000_0000 / 0x2000,
        v & 0xFFFF_E000 & !0x7FFFu64 == h & 0xFFFF_E000 & !0x7FFFu64 <==> v % 0x1_0000_0000 / 0x8000 == h
            % 0x1_0000_0000 / 0x8000,
        v & 0xFFFF_E000 & !0x1_FFFFu64 == h & 0xFFFF_E000 & !0x1_FFFFu64 <==> v % 0x1_0000_0000 / 0x2_0000 == h
            % 0x1_0000_0000 / 0x2_0000,
        v & 0xFFFF_E000 & !0x7_FFFFu64 == h & 0xFFFF_E000 & !0x7_FFFFu64 <==> v % 0x1_0000_0000 / 0x8_0000 == h
            % 0x1_0000_0000 / 0x8_0000,
        v & 0xFFFF_E000 & !0x1F_FFFFu64 == h & 0xFFFF_E000 & !0x1F_FFFFu64 <==> v % 0x1_0000_0000 / 0x20_0000 == h
            % 0x1_0000_0000 / 0x20_0000,
        v & 0xFFFF_E000 & !0x7F_FFFFu64 == h & 0xFFFF_E000 & !0x7F_FFFFu64 <==> v % 0x1_0000_0000 / 0x80_0000 == h
            % 0x1_0000_0000 / 0x80_0000,
        v & 0xFFFF_E000 & !0x1FF_FFFFu64 == h & 0xFFFF_E000 & !0x1FF_FFFFu64 <==> v % 0x1_0000_0000 / 0x200_0000 == h
            % 0x1_0000_0000 / 0x200_0000,
        v & 0xC000_00FF_FFFF_E000 & !0x1FFFu64 == h & 0xC000_00FF_FFFF_E000 & !0x1FFFu64 <==> v
            / 0x4000_0000_0000_0000 == h / 0x4000_0000_0000_0000 && v % 0x100_0000_0000 / 0x2000 == h
            % 0x100_0000_0000 / 0x2000,
        v & 0xC000_00FF_FFFF_E000 & !0x7FFFu64 == h & 0xC000_00FF_FFFF_E000 & !0x7FFFu64 <==> v
            / 0x4000_0000_0000_0000 == h / 0x4000_0000_0000_0000 && v % 0x100_0000_0000 / 0x8000 == h
            % 0x100_0000_0000 / 0x8000,
        v & 0xC000_00FF_FFFF_E000 & !0x1_FFFFu64 == h & 0xC000_00FF_FFFF_E000 & !0x1_FFFFu64 <==> v
            / 0x4000_0000_0000_0000 == h / 0x4000_0000_0000_0000 && v % 0x100_0000_0000 / 0x2_0000 == h
            % 0x100_0000_0000 / 0x2_0000,
        v & 0xC000_00FF_FFFF_E000 & !0x7_FFFFu64 == h & 0xC000_00FF_FFFF_E000 & !0x7_FFFFu64 <==> v
            / 0x4000_0000_0000_0000 == h / 0x4000_0000_0000_0000 && v % 0x100_0000_0000 / 0x8_0000 == h
            % 0x100_0000_0000 / 0x8_0000,
        v & 0xC000_00FF_FFFF_E000 & !0x1F_FFFFu64 == h & 0xC000_00FF_FFFF_E000 & !0x1F_FFFFu64 <==> v
            / 0x4000_0000_0000_0000 == h / 0x4000_0000_0000_0000 && v % 0x100_0000_0000 / 0x20_0000 == h
            % 0x100_0000_0000 / 0x20_0000,
        v & 0xC000_00FF_FFFF_E000 & !0x7F_FFFFu64 == h & 0xC000_00FF_FFFF_E000 & !0x7F_FFFFu64 <==> v
            / 0x4000_0000_0000_0000 == h / 0x4000_0000_0000_0000 && v % 0x100_0000_0000 / 0x80_0000 == h
            % 0x100_0000_0000 / 0x80_0000,
        v & 0xC000_00FF_FFFF_E000 & !0x1FF_FFFFu64 == h & 0xC000_00FF_FFFF_E000 & !0x1FF_FFFFu64 <==> v
            / 0x4000_0000_0000_0000 == h / 0x4000_0000_0000_0000 && v % 0x100_0000_0000 / 0x200_0000 == h
            % 0x100_0000_0000 / 0x200_0000,
{
}

proof fn lemma_masks()
    ensures
        0u64 | 0x1FFF == 0x1FFF && 0x1FFFu64 >> 1 == 0xFFF,
        0x6000u64 | 0x1FFF == 0x7FFF && 0x7FFFu64 >> 1 == 0x3FFF,
        0x1_E000u64 | 0x1FFF == 0x1_FFFF && 0x1_FFFFu64 >> 1 == 0xFFFF,
        0x7_E000u64 | 0x1FFF == 0x7_FFFF && 0x7_FFFFu64 >> 1 == 0x3_FFFF,
        0x1F_E000u64 | 0x1FFF == 0x1F_FFFF && 0x1F_FFFFu64 >> 1 == 0xF_FFFF,
        0x7F_E000u64 | 0x1FFF == 0x7F_FFFF && 0x7F_FFFFu64 >> 1 == 0x3F_FFFF,
        0x1FF_E000u64 | 0x1FFF == 0x1FF_FFFF && 0x1FF_FFFFu64 >> 1 == 0xFF_FFFF,
{
    crate::bits::lemma_constant_bits();
}

proof fn lemma_low_bits(v: u64)
    ensures
        v & 1 == v % 2,
        v & 2 != 0 <==> (v / 2) % 2 == 1u64,
        v & 4 != 0 <==> (v / 4) % 2 == 1u64,
        v & 0xFF == v % 0x100,
        v & 0x1000 != 0 <==> (v / 0x1000) % 2 == 1u64,
        (v >> 3) & 7 == v / 8 % 8,
        (v >> 12) & 1 == v / 0x1000 % 2,
        ((v & !1u64) | 0) / 2 == v / 2,
        ((v & !1u64) | 1) / 2 == v / 2,
        ((v & !1u64) | 0) % 2 == 0u64,
        ((v & !1u64) | 1) % 2 == 1u64,
{
    crate::bits::lemma_bits_of_double(v);
}

/// The place of an address in its pair, and its frame.
proof fn lemma_frames(v: u64, f: u64)
    by (bit_vector)
    requires
        f <= 0xFF_FFFF,
    ensures
        v & 0x1FFF & !0xFFFu64 != 0 <==> (v / 0x1000) % 2 == 1u64,
        v & 0x7FFF & !0x3FFFu64 != 0 <==> (v / 0x4000) % 2 == 1u64,
        v & 0x1_FFFF & !0xFFFFu64 != 0 <==> (v / 0x1_0000) % 2 == 1u64,
        v & 0x7_FFFF & !0x3_FFFFu64 != 0 <==> (v / 0x4_0000) % 2 == 1u64,
        v & 0x1F_FFFF & !0xF_FFFFu64 != 0 <==> (v / 0x10_0000) % 2 == 1u64,
        v & 0x7F_FFFF & !0x3F_FFFFu64 != 0 <==> (v / 0x40_0000) % 2 == 1u64,
        v & 0x1FF_FFFF & !0xFF_FFFFu64 != 0 <==> (v / 0x100_0000) % 2 == 1u64,
        (((f << 12) & !0xFFFu64) | (v & 0xFFF)) % 0x1000 == v % 0x1000,
        (((f << 12) & !0xFFFu64) | (v & 0xFFF)) / 0x1000 == f / 1,
        (((f << 12) & !0x3FFFu64) | (v & 0x3FFF)) % 0x4000 == v % 0x4000,
        (((f << 12) & !0x3FFFu64) | (v & 0x3FFF)) / 0x4000 == f / 4,
        (((f << 12) & !0xFFFFu64) | (v & 0xFFFF)) % 0x1_0000 == v % 0x1_0000,
        (((f << 12) & !0xFFFFu64) | (v & 0xFFFF)) / 0x1_0000 == f / 16,
        (((f << 12) & !0x3_FFFFu64) | (v & 0x3_FFFF)) % 0x4_0000 == v % 0x4_0000,
        (((f << 12) & !0x3_FFFFu64) | (v & 0x3_FFFF)) / 0x4_0000 == f / 64,
        (((f << 12) & !0xF_FFFFu64) | (v & 0xF_FFFF)) % 0x10_0000 == v % 0x10_0000,
        (((f << 12) & !0xF_FFFFu64) | (v & 0xF_FFFF)) / 0x10_0000 == f / 256,
        (((f << 12) & !0x3F_FFFFu64) | (v & 0x3F_FFFF)) % 0x40_0000 == v % 0x40_0000,
        (((f << 12) & !0x3F_FFFFu64) | (v & 0x3F_FFFF)) / 0x40_0000 == f / 1024,
        (((f << 12) & !0xFF_FFFFu64) | (v & 0xFF_FFFF)) % 0x100_0000 == v % 0x100_0000,
        (((f << 12) & !0xFF_FFFFu64) | (v & 0xFF_FFFF)) / 0x100_0000 == f / 4096,
{
}

proof fn lemma_frame_field(lo: u64)
    ensures
        (lo >> 6) & 0xFF_FFFF == lo / 64 % 0x100_0000,
        (lo >> 6) & 0xFF_FFFF <= 0xFF_FFFF,
{
    crate::bits::lemma_bits_of_double(lo);
}

/// Law: an entry answers for the addresses in the pair of pages that it names, in its own
/// address space or in all, and for no others.
pub proof fn law_entries_name_a_pair(e: TlbEntry, wide: bool, va: u64, asid: u8)
    requires
        is_pair(pair(e.page_mask)),
    ensures
        matches_address(e, wide, va, asid) == is_for(e, wide, va, asid),
{
    lemma_masks();
    lemma_same_pair(va, e.entry_hi);
    lemma_low_bits(e.entry_hi);
}

/// The parts of a number add up to it.
proof fn lemma_parts(x: int, v: int, f: int, n: int)
    requires
        is_pair(2 * n),
        x >= 0,
        f >= 0,
        x % n == v % n,
        x / n == f / (n / 0x1000),
    ensures
        x == f * 0x1000 / n * n + v % n,
{
    let q = n / 0x1000;
    vstd::arithmetic::div_mod::lemma_fundamental_div_mod(x, n);
    assert(n == 0x1000 * q);
    vstd::arithmetic::div_mod::lemma_div_denominator(f * 0x1000, 0x1000, q);
    vstd::arithmetic::div_mod::lemma_div_by_multiple(f, 0x1000);
    assert(n * (x / n) == (x / n) * n) by (nonlinear_arith);
}

proof fn lemma_gives(e: TlbEntry, va: u64, n: u64, lo: u64)
    requires
        pair(e.page_mask) == 2 * n,
        is_pair(2 * n),
        va as int / n as int % 2 == 0 ==> lo == e.entry_lo0,
        va as int / n as int % 2 == 1 ==> lo == e.entry_lo1,
    ensures
        gives(crate::soft_tlb::translated(e, va), lo, n as int, va),
{
    lemma_masks();
    lemma_low_bits(lo);
    lemma_frame_field(lo);
    let f = (lo >> 6) & 0xFF_FFFF;
    lemma_frames(va, f);
    assert(crate::soft_tlb::pair_mask(e) == 2 * n - 1);
    assert(crate::soft_tlb::pair_mask(e) >> 1 == n - 1);
    let page = (n - 1) as u64;
    assert((va & crate::soft_tlb::pair_mask(e) & !page != 0) == (va as int / n as int % 2 == 1));
    let x = ((f << 12) & !page) | (va & page);
    assert(x as int % n as int == va as int % n as int);
    assert(x as int / n as int == f as int / (n as int / 0x1000));
    lemma_parts(x as int, va as int, f as int, n as int);
}

/// Law: an entry gives the frame of its first half for the even page of its pair, and that
/// of its second half for the odd one.
pub proof fn law_entries_give_frames(e: TlbEntry, va: u64)
    requires
        is_pair(pair(e.page_mask)),
    ensures
        ({
            let n = pair(e.page_mask) / 2;
            let r = crate::soft_tlb::translated(e, va);
            if va as int / n % 2 == 0 {
                gives(r, e.entry_lo0, n, va)
            } else {
                gives(r, e.entry_lo1, n, va)
            }
        }),
{
    let n = pair(e.page_mask) / 2;
    let lo = if va as int / n % 2 == 0 {
        e.entry_lo0
    } else {
        e.entry_lo1
    };
    lemma_gives(e, va, n as u64, lo);
}

/// Law: the TLB answers by the first entry that is for the address; without one, it has
/// no answer.
pub proof fn law_first_entry_answers(s: Seq<TlbEntry>, wide: bool, va: u64, asid: u8, k: int)
    requires
        forall|j: int| 0 <= j < s.len() ==> is_pair(pair((#[trigger] s[j]).page_mask)),
        0 <= k <= s.len() <= 64,
        forall|j: int| 0 <= j < k ==> !is_for(#[trigger] s[j], wide, va, asid),
        k < s.len() ==> is_for(s[k], wide, va, asid),
    ensures
        k == s.len() ==> SoftTlb::probed(s, va, asid, wide) == 0x8000_0000,
        k < s.len() ==> SoftTlb::probed(s, va, asid, wide) == k,
        forall|at: AccessType|
            k == s.len() ==> #[trigger] SoftTlb::lookup(s, wide, va, asid, at) == TlbResult::Miss,
        forall|at: AccessType|
            k < s.len() ==> {
                let n = pair(s[k].page_mask) / 2;
                gives(
                    #[trigger] SoftTlb::lookup(s, wide, va, asid, at),
                    if va as int / n % 2 == 0 {
                        s[k].entry_lo0
                    } else {
                        s[k].entry_lo1
                    },
                    n,
                    va,
                )
            },
{
    lemma_first(s, wide, va, asid, k, 0);
    if k < s.len() {
        law_entries_give_frames(s[k], va);
    }
}

proof fn lemma_first(s: Seq<TlbEntry>, wide: bool, va: u64, asid: u8, k: int, from: int)
    requires
        forall|j: int| 0 <= j < s.len() ==> is_pair(pair((#[trigger] s[j]).page_mask)),
        0 <= from <= k <= s.len(),
        forall|j: int| 0 <= j < k ==> !is_for(#[trigger] s[j], wide, va, asid),
        k < s.len() ==> is_for(s[k], wide, va, asid),
    ensures
        first_match(s, wide, va, asid, from as nat) == if k < s.len() {
            Some(k as nat)
        } else {
            None::<nat>
        },
    decreases k - from,
{
    if from < s.len() {
        law_entries_name_a_pair(s[from], wide, va, asid);
        if from < k {
            lemma_first(s, wide, va, asid, k, from + 1);
        }
    }
}

pub(crate) proof fn lemma_system<T: Tlb, C: MipsCache, B: BusDevice>(m: Machine<T, C, B>, raw: u32)
    requires
        opcode(raw) == 16,
    ensures
        ({
            let (s, n) = m.cop0(alone(raw));
            m.execute(alone(raw)) == (Step::Done(s), n)
        }),
{
    reveal(Machine::execute);
    lemma_fields(raw);
    lemma_encoded(raw, InstrHandler::Cop0);
    lemma_memory_family(m, alone(raw));
    lemma_not_integer(m, alone(raw));
}

proof fn lemma_high(h: u64)
    ensures
        ((h & 0xC000_00FF_FFFF_E0FF & !0x1000u64) | 0) & !0x1000u64 == h & 0xC000_00FF_FFFF_E0FF,
        ((h & 0xC000_00FF_FFFF_E0FF & !0x1000u64) | 0x1000) & !0x1000u64 == h
            & 0xC000_00FF_FFFF_E0FF,
        (((h & 0xC000_00FF_FFFF_E0FF & !0x1000u64) | 0) >> 12) & 1 == 0,
        (((h & 0xC000_00FF_FFFF_E0FF & !0x1000u64) | 0x1000) >> 12) & 1 == 1,
        ((h & 0xC000_00FF_FFFF_E0FF & !0x1000u64) | 0) / 0x4000_0000_0000_0000 == h
            / 0x4000_0000_0000_0000,
        ((h & 0xC000_00FF_FFFF_E0FF & !0x1000u64) | 0x1000) / 0x4000_0000_0000_0000 == h
            / 0x4000_0000_0000_0000,
        ((h & 0xC000_00FF_FFFF_E0FF & !0x1000u64) | 0) % 0x100_0000_0000 / 0x2000 == h
            % 0x100_0000_0000 / 0x2000,
        ((h & 0xC000_00FF_FFFF_E0FF & !0x1000u64) | 0x1000) % 0x100_0000_0000 / 0x2000 == h
            % 0x100_0000_0000 / 0x2000,
        ((h & 0xC000_00FF_FFFF_E0FF & !0x1000u64) | 0) % 0x1_0000_0000 / 0x2000 == h
            % 0x1_0000_0000 / 0x2000,
        ((h & 0xC000_00FF_FFFF_E0FF & !0x1000u64) | 0x1000) % 0x1_0000_0000 / 0x2000 == h
            % 0x1_0000_0000 / 0x2000,
        ((h & 0xC000_00FF_FFFF_E0FF & !0x1000u64) | 0) % 0x100 == h % 0x100,
        ((h & 0xC000_00FF_FFFF_E0FF & !0x1000u64) | 0x1000) % 0x100 == h % 0x100,
{
    crate::bits::lemma_bits_of_double(h);
}

/// Law: an entry that `tlbwi` wrote, `tlbr` reads back: PageMask, both halves but for
/// their lowest bits, and the page and the address space of EntryHi. The lowest bits come
/// back set if both were.
pub proof fn law_entries_read_back<C: MipsCache, B: BusDevice>(
    m: Machine<SoftTlb, C, B>,
    write: u32,
    read: u32,
)
    requires
        is_tlb_word(write, 2),
        is_tlb_word(read, 1),
        0 < m.tlb.len() <= 64,
    ensures
        ({
            let c = m.core;
            let (s, n) = m.execute(alone(write));
            let (t, k) = n.execute(alone(read));
            let g = if c.cp0_entrylo0 % 2 == 1 && c.cp0_entrylo1 % 2 == 1 {
                1int
            } else {
                0
            };
            &&& s == Step::Done(EXEC_COMPLETE) && t == Step::Done(EXEC_COMPLETE)
            &&& goes_on(c, n.core) && goes_on(n.core, k.core)
            &&& k.core.cp0_pagemask == c.cp0_pagemask
            &&& k.core.cp0_entrylo0 == c.cp0_entrylo0 as int / 2 * 2 + g
            &&& k.core.cp0_entrylo1 == c.cp0_entrylo1 as int / 2 * 2 + g
            &&& k.core.cp0_entryhi == c.cp0_entryhi & 0xC000_00FF_FFFF_E0FF
            &&& k.core.cp0_index == c.cp0_index
            &&& k.core.gpr == c.gpr && k.core.cp0_status == c.cp0_status
            &&& k.tlb == n.tlb && n.tlb.len() == m.tlb.len()
            &&& forall|j: int|
                0 <= j < m.tlb.len() && j != c.cp0_index as int % m.tlb.len() as int
                    ==> #[trigger] n.tlb[j] == m.tlb[j]
        }),
{
    let c = m.core;
    lemma_fields(write);
    lemma_fields(read);
    lemma_system(m, write);
    let n = m.execute(alone(write)).1;
    lemma_system(n, read);
    lemma_low_bits(c.cp0_entrylo0);
    lemma_low_bits(c.cp0_entrylo1);
    lemma_high(c.cp0_entryhi);
}

/// Law: once `tlbwi` has written an entry, the TLB translates the addresses in the pair of
/// pages that EntryHi names, unless an entry before it does: by the frame in EntryLo0 for
/// the even page of the pair, and by that in EntryLo1 for the odd page.
pub proof fn law_written_entries_translate<C: MipsCache, B: BusDevice>(
    m: Machine<SoftTlb, C, B>,
    write: u32,
    wide: bool,
    va: u64,
    asid: u8,
    at: AccessType,
)
    requires
        is_tlb_word(write, 2),
        0 < m.tlb.len() <= 64,
        is_pair(pair(m.core.cp0_pagemask)),
        names(m.core.cp0_entryhi, pair(m.core.cp0_pagemask), wide, va),
        asid == m.core.cp0_entryhi as int % 0x100 || (m.core.cp0_entrylo0 % 2 == 1
            && m.core.cp0_entrylo1 % 2 == 1),
        forall|j: int| 0 <= j < m.tlb.len() ==> is_pair(pair((#[trigger] m.tlb[j]).page_mask)),
        forall|j: int|
            0 <= j < m.core.cp0_index as int % m.tlb.len() as int ==> !is_for(
                #[trigger] m.tlb[j],
                wide,
                va,
                asid,
            ),
    ensures
        ({
            let n = m.execute(alone(write)).1;
            let page = pair(m.core.cp0_pagemask) / 2;
            gives(
                SoftTlb::lookup(n.tlb, wide, va, asid, at),
                if va as int / page % 2 == 0 {
                    m.core.cp0_entrylo0
                } else {
                    m.core.cp0_entrylo1
                },
                page,
                va,
            )
        }),
{
    let c = m.core;
    lemma_fields(write);
    lemma_system(m, write);
    let n = m.execute(alone(write)).1;
    lemma_low_bits(c.cp0_entrylo0);
    lemma_low_bits(c.cp0_entrylo1);
    lemma_high(c.cp0_entryhi);
    let k = c.cp0_index as int % m.tlb.len() as int;
    let e = n.tlb[k];
    let h = c.cp0_entryhi;
    lemma_low_bits(e.entry_hi);
    let p = pair(c.cp0_pagemask);
    let i = e.entry_hi as int;
    lemma_coarser(i % 0x100_0000_0000, h as int % 0x100_0000_0000, p);
    lemma_coarser(i % 0x1_0000_0000, h as int % 0x1_0000_0000, p);
    assert(names(e.entry_hi, p, wide, va));
    assert(is_for(e, wide, va, asid));
    law_first_entry_answers(n.tlb, wide, va, asid, k);
}

/// Numbers in the same small pair are in the same larger one.
proof fn lemma_coarser(a: int, b: int, p: int)
    requires
        0 <= a,
        0 <= b,
        is_pair(p),
        a / 0x2000 == b / 0x2000,
    ensures
        a / p == b / p,
{
    let q = p / 0x2000;
    vstd::arithmetic::div_mod::lemma_div_denominator(a, 0x2000, q);
    vstd::arithmetic::div_mod::lemma_div_denominator(b, 0x2000, q);
    assert(0x2000 * q == p);
}

/// Law: `tlbwr` moves Random down by one, or from Wired back to the last entry, and writes
/// there what `tlbwi` would write with Index as Random then is.
pub proof fn law_random_entries_are_written<C: MipsCache, B: BusDevice>(
    m: Machine<SoftTlb, C, B>,
    raw: u32,
    write: u32,
)
    requires
        is_tlb_word(raw, 6),
        is_tlb_word(write, 2),
        0 < m.tlb.len() <= 64,
    ensures
        ({
            let c = m.core;
            let (s, n) = m.execute(alone(raw));
            let r = n.core.cp0_random;
            let k = m.with_core(MipsCore { cp0_index: r, ..c }).execute(alone(write)).1;
            &&& s == Step::Done(EXEC_COMPLETE) && goes_on(c, n.core)
            &&& c.cp0_random > c.cp0_wired ==> r == c.cp0_random - 1
            &&& c.cp0_random <= c.cp0_wired && c.tlb_entries > 0 ==> r == c.tlb_entries - 1
            &&& n.tlb == k.tlb
            &&& n.core.cp0_index == c.cp0_index && n.core.gpr == c.gpr
        }),
{
    lemma_fields(raw);
    lemma_fields(write);
    lemma_system(m, raw);
    let r = m.execute(alone(raw)).1.core.cp0_random;
    lemma_system(m.with_core(MipsCore { cp0_index: r, ..m.core }), write);
}

/// Law: `tlbp` puts the number of the first entry for the pair of pages in EntryHi into
/// Index, or a number with the highest bit set where there is none.
pub proof fn law_entries_are_found<C: MipsCache, B: BusDevice>(
    m: Machine<SoftTlb, C, B>,
    raw: u32,
    k: int,
)
    requires
        is_tlb_word(raw, 8),
        forall|j: int| 0 <= j < m.tlb.len() ==> is_pair(pair((#[trigger] m.tlb[j]).page_mask)),
        0 <= k <= m.tlb.len() <= 64,
        ({
            let h = m.core.cp0_entryhi as int;
            let va = (h - h % 0x100) as u64;
            let asid = (h % 0x100) as u8;
            let wide = m.core.is_64bit() && (h < 0x8000_0000_0000_0000 || 0xC000_0000_0000_0000 <= h
                < 0xFFFF_FFFF_0000_0000);
            &&& forall|j: int| 0 <= j < k ==> !is_for(#[trigger] m.tlb[j], wide, va, asid)
            &&& k < m.tlb.len() ==> is_for(m.tlb[k], wide, va, asid)
        }),
    ensures
        ({
            let (s, n) = m.execute(alone(raw));
            &&& s == Step::Done(EXEC_COMPLETE) && goes_on(m.core, n.core)
            &&& n.core.cp0_index == if k < m.tlb.len() {
                k
            } else {
                0x8000_0000
            }
            &&& n.tlb == m.tlb && n.core.gpr == m.core.gpr
            &&& n.core.cp0_entryhi == m.core.cp0_entryhi
        }),
{
    lemma_fields(raw);
    lemma_system(m, raw);
    let e = m.core.cp0_entryhi;
    let h = e as int;
    let va = (h - h % 0x100) as u64;
    lemma_low_bits(e);
    lemma_without_space(e);
    assert(e & !0xFFu64 == va);
    lemma_without_space(va);
    let wide = m.core.is_64bit() && (h < 0x8000_0000_0000_0000 || 0xC000_0000_0000_0000 <= h
        < 0xFFFF_FFFF_0000_0000);
    assert(m.core.xtlb_address(va) == wide);
    law_first_entry_answers(m.tlb, wide, va, (h % 0x100) as u8, k);
}

proof fn lemma_without_space(h: u64)
    ensures
        h & !0xFFu64 == h - h % 0x100,
        h >> 62 == 0 || h >> 62 == 1 <==> h < 0x8000_0000_0000_0000,
        h >> 62 == 3 <==> h >= 0xC000_0000_0000_0000,
        h >> 32 == 0xFFFF_FFFF <==> h >= 0xFFFF_FFFF_0000_0000,
{
    crate::bits::lemma_bits_of_double(h);
}

} // verus!
