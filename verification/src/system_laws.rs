//! What the system instructions, exceptions and interrupts do, in numbers.
use vstd::prelude::*;

use crate::alu_laws::{extended, lemma_numbers};
use crate::bus::{BusDevice, MipsCache, Tlb, TlbResult};
use crate::cpu_core::{AccessType, MipsCore, PrivilegeMode};
use crate::fpu::{is_cop1, Step};
use crate::loadstore::alone;
use crate::machine::{Machine, Route};
use crate::status::{TranslateResult, EXEC_COMPLETE};
use crate::tlb_laws::{is_tlb_word, lemma_system};
use crate::words::{goes_on, lemma_fields, low, opcode, raises, reg_d, reg_s, reg_t, sets};

verus! {

/// Bit `k` of `x`.
pub open spec fn bit32(x: u32, k: int) -> bool {
    (x >> (k as u32)) & 1 == 1
}

proof fn lemma_flags(s: u32)
    ensures
        s & 1 != 0 <==> (s >> 0u32) & 1 == 1u32,
        s & 2 != 0 <==> (s >> 1u32) & 1 == 1u32,
        s & 4 != 0 <==> (s >> 2u32) & 1 == 1u32,
        s & (2u32 | 4u32) != 0 <==> (s >> 1u32) & 1 == 1u32 || (s >> 2u32) & 1 == 1u32,
        s & 0x20 != 0 <==> (s >> 5u32) & 1 == 1u32,
        s & 0x40 != 0 <==> (s >> 6u32) & 1 == 1u32,
        s & 0x80 != 0 <==> (s >> 7u32) & 1 == 1u32,
        s & 0x40_0000 != 0 <==> (s >> 22u32) & 1 == 1u32,
        s & 0x1000_0000 != 0 <==> (s >> 28u32) & 1 == 1u32,
        s & 0x2000_0000 != 0 <==> (s >> 29u32) & 1 == 1u32,
        (s >> 3u32) & 3 == s / 8 % 4,
        (s & 0x7C) / 4 == s / 4 % 32,
        (s & 0x7C) >> 2u32 == s / 4 % 32,
{
    crate::bits::lemma_bits_of_word(s);
}

proof fn lemma_bit_changes(s: u32, x: u32, k: u32)
    requires
        k < 32,
    ensures
        k == 1 ==> ((s | 2) >> k) & 1 == 1,
        k != 1 ==> ((s | 2) >> k) & 1 == (s >> k) & 1,
        k == 1 ==> ((s & !2u32) >> k) & 1 == 0,
        k != 1 ==> ((s & !2u32) >> k) & 1 == (s >> k) & 1,
        k == 2 ==> ((s & !4u32) >> k) & 1 == 0,
        k != 2 ==> ((s & !4u32) >> k) & 1 == (s >> k) & 1,
        k == 15 ==> ((s & !0x8000u32) >> k) & 1 == 0,
        k != 15 ==> ((s & !0x8000u32) >> k) & 1 == (s >> k) & 1,
        k == 8 || k == 9 ==> (((s & !0x300u32) | (x & 0x300)) >> k) & 1 == (x >> k) & 1,
        k != 8 && k != 9 ==> (((s & !0x300u32) | (x & 0x300)) >> k) & 1 == (s >> k) & 1,
        k >= 10 && k < 16 ==> (((s & !0xFC00u32) | (x & 0xFC00)) >> k) & 1 == (x >> k) & 1,
        k < 10 || k >= 16 ==> (((s & !0xFC00u32) | (x & 0xFC00)) >> k) & 1 == (s >> k) & 1,
        k >= 8 && k < 16 && (s >> k) & 1 == 1 && (x >> k) & 1 == 1 ==> (s & 0xFF00) & (x & 0xFF00)
            != 0,
{
    crate::bits::lemma_single_bits(s, x, k);
}

proof fn lemma_some_line(s: u32, x: u32)
    ensures
        (s & 0xFF00) & (x & 0xFF00) != 0 ==> (s >> 8u32) & 1 == 1 && (x >> 8u32) & 1 == 1 || (s
            >> 9u32) & 1 == 1 && (x >> 9u32) & 1 == 1 || (s >> 10u32) & 1 == 1 && (x >> 10u32) & 1
            == 1 || (s >> 11u32) & 1 == 1 && (x >> 11u32) & 1 == 1 || (s >> 12u32) & 1 == 1 && (x
            >> 12u32) & 1 == 1 || (s >> 13u32) & 1 == 1 && (x >> 13u32) & 1 == 1 || (s >> 14u32) & 1
            == 1 && (x >> 14u32) & 1 == 1 || (s >> 15u32) & 1 == 1 && (x >> 15u32) & 1 == 1,
{
    crate::bits::lemma_bits_of_words(s, x);
}

/// No translation is remembered.
pub open spec fn remembers_nothing(c: MipsCore) -> bool {
    !c.nanotlb_fetch.valid && !c.nanotlb_read.valid && !c.nanotlb_write.valid
}

/// Law: the processor is in kernel mode at exception level and at error level, and else in
/// the mode of bits 4 and 3 of Status: 0 for the kernel, 1 for a supervisor, others for
/// users. Bits 7, 6 and 5 give the three 64-bit addresses.
pub proof fn law_modes(c: MipsCore)
    ensures
        ({
            let mode = c.cp0_status as int / 8 % 4;
            let raised = bit32(c.cp0_status, 1) || bit32(c.cp0_status, 2);
            &&& c.privilege() == if raised || mode == 0 {
                PrivilegeMode::Kernel
            } else if mode == 1 {
                PrivilegeMode::Supervisor
            } else {
                PrivilegeMode::User
            }
            &&& c.is_64bit() == if raised || mode == 0 {
                bit32(c.cp0_status, 7)
            } else if mode == 1 {
                bit32(c.cp0_status, 6)
            } else {
                bit32(c.cp0_status, 5)
            }
        }),
{
    lemma_flags(c.cp0_status);
}

/// Where exceptions go: the boot vectors or the others, and there to the vector for
/// refills of the TLB, with 32-bit or 64-bit addresses, or to the general one.
pub open spec fn vector(c: MipsCore, status: u32) -> int {
    (if bit32(c.cp0_status, 22) {
        0xFFFF_FFFF_BFC0_0200int
    } else {
        0xFFFF_FFFF_8000_0000
    }) + (if bit32(c.cp0_status, 1) || !bit32(status, 28) {
        0x180int
    } else if bit32(status, 29) {
        0x80
    } else {
        0
    })
}

/// Law: an exception takes the processor to its vector and sets bit 1 of Status, and no
/// other bit of it.
pub proof fn law_exceptions_go_to_their_vectors(c: MipsCore, status: u32, k: u32)
    requires
        k < 32,
    ensures
        ({
            let e = c.after_exception(status);
            &&& e.pc == vector(c, status)
            &&& bit32(e.cp0_status, 1)
            &&& k != 1 ==> bit32(e.cp0_status, k as int) == bit32(c.cp0_status, k as int)
            &&& e.cp0_errorepc == c.cp0_errorepc && e.cp0_badvaddr == c.cp0_badvaddr
            &&& remembers_nothing(e)
        }),
{
    lemma_flags(c.cp0_status);
    lemma_flags(status);
    lemma_bit_changes(c.cp0_status, 0, k);
    lemma_bit_changes(c.cp0_status, 0, 1);
}

/// Law: `eret` goes to ErrorEPC and leaves error level, or, outside it, to EPC and leaves
/// exception level. It breaks the link of a linked load.
pub proof fn law_exceptions_return<T: Tlb, C: MipsCache, B: BusDevice>(
    m: Machine<T, C, B>,
    raw: u32,
    k: u32,
)
    requires
        is_tlb_word(raw, 24),
        k < 32,
    ensures
        ({
            let c = m.core;
            let (s, n) = m.execute(alone(raw));
            let left = if bit32(c.cp0_status, 2) {
                2int
            } else {
                1
            };
            &&& s == Step::Done(EXEC_COMPLETE)
            &&& n.core.pc == if bit32(c.cp0_status, 2) {
                c.cp0_errorepc
            } else {
                c.cp0_epc
            }
            &&& bit32(n.core.cp0_status, k as int) == (k != left && bit32(c.cp0_status, k as int))
            &&& n.cache == C::with_llbit(m.cache, false)
            &&& n.core.gpr == c.gpr && n.core.fpr == c.fpr && n.core.cp0_epc == c.cp0_epc
            &&& n.core.cp0_cause == c.cp0_cause
            &&& remembers_nothing(n.core)
        }),
{
    lemma_fields(raw);
    lemma_system(m, raw);
    lemma_flags(m.core.cp0_status);
    lemma_bit_changes(m.core.cp0_status, 0, k);
}

/// Law: an interrupt is taken before the next instruction if interrupts are enabled, the
/// processor is neither at exception level nor at error level, and one of the eight lines
/// is up that Status lets through. The lines 2 to 7 are the devices', 0 and 1 software's.
pub proof fn law_interrupts<T: Tlb, C: MipsCache, B: BusDevice>(m: Machine<T, C, B>, k: u32)
    requires
        8 <= k < 16,
        m.core.interrupts < 0x8000_0000_0000_0000,
    ensures
        ({
            let c = m.core;
            let up = |i: int|
                if i < 10 {
                    bit32(c.cp0_cause, i)
                } else {
                    bit32(c.interrupts as u32, i)
                };
            let (s, n) = m.poll(false);
            let taken = bit32(c.cp0_status, 0) && !bit32(c.cp0_status, 1) && !bit32(
                c.cp0_status,
                2,
            );
            &&& taken && up(k as int) && bit32(c.cp0_status, k as int) ==> s is Some
            &&& s is Some ==> taken && exists|i: int|
                8 <= i < 16 && up(i) && #[trigger] bit32(c.cp0_status, i)
            &&& s is Some ==> s == Some(0x800_0000u32) && n.core.cp0_cause as int / 4 % 32 == 0
                && n.core.cp0_epc == c.resume_pc()
            &&& s is None ==> n.core == c || n.core == (MipsCore {
                cp0_cause: n.core.cp0_cause,
                ..c
            })
            &&& m.poll(true).0 is None
        }),
{
    let c = m.core;
    let x = c.interrupts as u32;
    let lines = c.with_lines().cp0_cause;
    lemma_flags(c.cp0_status);
    lemma_bit_changes(c.cp0_cause, x, k);
    lemma_bit_changes(lines, c.cp0_status, k);
    lemma_some_line(lines, c.cp0_status);
    lemma_bit_changes(c.cp0_cause, x, 8);
    lemma_bit_changes(c.cp0_cause, x, 9);
    lemma_bit_changes(c.cp0_cause, x, 10);
    lemma_bit_changes(c.cp0_cause, x, 11);
    lemma_bit_changes(c.cp0_cause, x, 12);
    lemma_bit_changes(c.cp0_cause, x, 13);
    lemma_bit_changes(c.cp0_cause, x, 14);
    lemma_bit_changes(c.cp0_cause, x, 15);
    lemma_reset_bit(c.interrupts, c.cp0_cause, k);
    lemma_interrupt_word(lines);
    let up = |i: int|
        if i < 10 {
            bit32(c.cp0_cause, i)
        } else {
            bit32(c.interrupts as u32, i)
        };
    if m.poll(false).0 is Some {
        let i = if bit32(lines, 8) && bit32(c.cp0_status, 8) {
            8int
        } else if bit32(lines, 9) && bit32(c.cp0_status, 9) {
            9
        } else if bit32(lines, 10) && bit32(c.cp0_status, 10) {
            10
        } else if bit32(lines, 11) && bit32(c.cp0_status, 11) {
            11
        } else if bit32(lines, 12) && bit32(c.cp0_status, 12) {
            12
        } else if bit32(lines, 13) && bit32(c.cp0_status, 13) {
            13
        } else if bit32(lines, 14) && bit32(c.cp0_status, 14) {
            14
        } else {
            15
        };
        assert(8 <= i < 16 && up(i) && bit32(c.cp0_status, i));
    }
}

proof fn lemma_reset_bit(x: u64, c: u32, k: u32)
    by (bit_vector)
    requires
        k < 16,
    ensures
        x < 0x8000_0000_0000_0000 ==> x & 0x8000_0000_0000_0000 == 0,
        x | (c as u64) == 0 ==> (c >> k) & 1 == 0 && ((x as u32) >> k) & 1 == 0,
{
}

proof fn lemma_interrupt_word(x: u32)
    ensures
        0x800_0000u32 | (0u32 << 2) == 0x800_0000,
        ((x & !0x7Cu32) | (0x800_0000u32 & 0x7C) | 0x8000_0000) / 4 % 32 == 0u32,
        (((x & !0x7Cu32) | (0x800_0000u32 & 0x7C)) & !0x8000_0000u32) / 4 % 32 == 0u32,
{
    crate::bits::lemma_bits_of_word(x);
}

/// The register of the system coprocessor with number `r`.
pub open spec fn register(c: MipsCore, r: int) -> int {
    if r == 0 {
        c.cp0_index as int
    } else if r == 1 {
        c.cp0_random as int
    } else if r == 2 {
        c.cp0_entrylo0 as int
    } else if r == 3 {
        c.cp0_entrylo1 as int
    } else if r == 4 {
        c.cp0_context as int
    } else if r == 5 {
        c.cp0_pagemask as int
    } else if r == 6 {
        c.cp0_wired as int
    } else if r == 8 {
        c.cp0_badvaddr as int
    } else if r == 9 {
        c.cp0_count as int
    } else if r == 10 {
        c.cp0_entryhi as int
    } else if r == 11 {
        c.cp0_compare as int
    } else if r == 12 {
        c.cp0_status as int
    } else if r == 13 {
        c.cp0_cause as int
    } else if r == 14 {
        c.cp0_epc as int
    } else if r == 15 {
        c.cp0_prid as int
    } else if r == 16 {
        c.cp0_config as int
    } else if r == 17 {
        c.cp0_lladdr as int
    } else if r == 18 {
        c.cp0_watchlo as int
    } else if r == 19 {
        c.cp0_watchhi as int
    } else if r == 20 {
        c.cp0_xcontext as int
    } else if r == 26 {
        c.cp0_ecc as int
    } else if r == 27 {
        c.cp0_cacheerr as int
    } else if r == 28 {
        c.cp0_taglo as int
    } else if r == 29 {
        c.cp0_taghi as int
    } else if r == 30 {
        c.cp0_errorepc as int
    } else {
        0
    }
}

/// The register with number `r` has 64 bits.
pub open spec fn is_wide(r: int) -> bool {
    r == 2 || r == 3 || r == 4 || r == 5 || r == 10 || r == 14 || r == 20 || r == 30
}

/// The register with number `r` keeps what is written to it.
pub open spec fn is_plain(r: int) -> bool {
    0 <= r <= 30 && r != 1 && r != 7 && r != 8 && r != 13 && r != 15 && !(21 <= r <= 25)
}

/// Law: `mfc0` and `dmfc0` read the registers of the system coprocessor; the first takes
/// the lower half, its sign extended.
pub proof fn law_system_registers_are_read<T: Tlb, C: MipsCache, B: BusDevice>(
    m: Machine<T, C, B>,
    raw: u32,
)
    requires
        opcode(raw) == 16,
    ensures
        reg_s(raw) == 0 ==> sets(
            m,
            raw,
            reg_t(raw),
            extended(register(m.core, reg_d(raw)) % 0x1_0000_0000),
        ),
        reg_s(raw) == 1 ==> sets(m, raw, reg_t(raw), register(m.core, reg_d(raw))),
{
    lemma_fields(raw);
    lemma_system(m, raw);
    let v = m.core.cp0(alone(raw).rd);
    assert(v == register(m.core, reg_d(raw)));
    lemma_numbers(v, v as u32, 0, 0);
}

/// Law: `mtc0` and `dmtc0` write them; the first takes the lower half of its operand, its
/// sign extended. A register of 32 bits takes the lower half. Random, BadVAddr and PRId
/// stay; of Cause only the two bits of software interrupts can be written. Writing Wired
/// sets Random to the last entry of the TLB, and writing Compare clears the interrupt of
/// the timer. Writing EntryHi or Status forgets what is remembered of translations.
pub proof fn law_system_registers_are_written<T: Tlb, C: MipsCache, B: BusDevice>(
    m: Machine<T, C, B>,
    raw: u32,
    k: u32,
    i: int,
)
    requires
        opcode(raw) == 16,
        reg_s(raw) == 4 || reg_s(raw) == 5,
        k < 32,
        0 <= i < 32,
    ensures
        ({
            let c = m.core;
            let (s, n) = m.execute(alone(raw));
            let r = reg_d(raw);
            let a = c.gpr@[reg_t(raw)];
            let v = if reg_s(raw) == 4 {
                extended(low(a))
            } else {
                a as int
            };
            &&& s == Step::Done(EXEC_COMPLETE) && goes_on(c, n.core)
            &&& n.core.gpr == c.gpr && n.core.fpr == c.fpr && n.tlb == m.tlb && n.cache == m.cache
            &&& is_plain(r) ==> register(n.core, r) == if is_wide(r) {
                v
            } else {
                v % 0x1_0000_0000
            }
            &&& r == 13 ==> bit32(n.core.cp0_cause, k as int) == if k == 8 || k == 9 {
                bit32(low(a) as u32, k as int)
            } else {
                bit32(c.cp0_cause, k as int)
            }
            &&& r == 6 ==> n.core.cp0_random == if c.tlb_entries == 0 {
                0
            } else {
                c.tlb_entries - 1
            }
            &&& r == 11 ==> bit32(n.core.cp0_cause, k as int) == (k != 15 && bit32(
                c.cp0_cause,
                k as int,
            ))
            &&& i != r && !(r == 6 && i == 1) && !(r == 11 && i == 13) ==> register(n.core, i)
                == register(c, i)
            &&& !is_plain(r) && r != 13 ==> register(n.core, r) == register(c, r)
            &&& r == 10 || r == 12 ==> remembers_nothing(n.core)
        }),
{
    let c = m.core;
    lemma_fields(raw);
    lemma_system(m, raw);
    let a = c.gpr@[reg_t(raw)];
    lemma_numbers(a, a as u32, 0, 0);
    let v = if reg_s(raw) == 4 {
        a as u32 as i32 as i64 as u64
    } else {
        a
    };
    lemma_numbers(v, 0, 0, 0);
    assert(v as u32 == low(a));
    lemma_bit_changes(c.cp0_cause, v as u32, k);
}

/// Law: translations that fail are noted for the handlers: BadVAddr is the address, EntryHi
/// the pair of pages in its address space, and the page number is in Context, bits 4 to
/// 22, and in XContext, bits 4 to 30, with the region in bits 31 and 32. What else is in
/// these three stays.
pub proof fn law_faults_are_noted(c: MipsCore, wide: bool, va: u64)
    ensures
        ({
            let n = c.tlb_fault(wide, va);
            let a = va as int;
            &&& n.cp0_badvaddr == va
            &&& n.cp0_entryhi as int % 0x100 == c.cp0_entryhi as int % 0x100
            &&& n.cp0_entryhi as int / 0x100 % 0x20 == 0
            &&& wide ==> n.cp0_entryhi as int / 0x2000 % 0x800_0000 == a / 0x2000 % 0x800_0000
                && n.cp0_entryhi as int / 0x4000_0000_0000_0000 == a / 0x4000_0000_0000_0000
            &&& !wide ==> n.cp0_entryhi as int / 0x2000 == a / 0x2000 % 0x8_0000
            &&& n.cp0_context as int % 0x10 == 0
            &&& n.cp0_context as int / 0x10 % 0x8_0000 == a / 0x2000 % 0x8_0000
            &&& n.cp0_context as int / 0x80_0000 == c.cp0_context as int / 0x80_0000
            &&& n.cp0_xcontext as int % 0x10 == 0
            &&& n.cp0_xcontext as int / 0x10 % 0x800_0000 == a / 0x2000 % 0x800_0000
            &&& n.cp0_xcontext as int / 0x8000_0000 % 4 == a / 0x4000_0000_0000_0000
            &&& n.cp0_xcontext as int / 0x2_0000_0000 == c.cp0_xcontext as int / 0x2_0000_0000
        }),
{
    lemma_fault_entry(va, c.cp0_entryhi);
    lemma_fault_context(va, c.cp0_context, c.cp0_xcontext);
}

proof fn lemma_fault_entry(va: u64, h: u64)
    ensures
        ((va & 0xC000_00FF_FFFF_E000) | (h & 0xFF)) % 0x100 == h % 0x100,
        ((va & 0xC000_00FF_FFFF_E000) | (h & 0xFF)) / 0x100 % 0x20 == 0u64,
        ((va & 0xC000_00FF_FFFF_E000) | (h & 0xFF)) / 0x2000 % 0x800_0000 == va / 0x2000
            % 0x800_0000,
        ((va & 0xC000_00FF_FFFF_E000) | (h & 0xFF)) / 0x4000_0000_0000_0000 == va
            / 0x4000_0000_0000_0000,
        ((va & 0x0000_0000_FFFF_E000) | (h & 0xFF)) % 0x100 == h % 0x100,
        ((va & 0x0000_0000_FFFF_E000) | (h & 0xFF)) / 0x100 % 0x20 == 0u64,
        ((va & 0x0000_0000_FFFF_E000) | (h & 0xFF)) / 0x2000 == va / 0x2000 % 0x8_0000,
{
    crate::bits::lemma_bits_of_doubles(va, h);
}

proof fn lemma_fault_context(va: u64, x: u64, y: u64)
    by (bit_vector)
    ensures
        ((x & 0xFFFFFFFF_FF800000) | (((va & 0x0000_0000_FFFF_E000) >> 13) << 4)) % 0x10 == 0u64,
        ((x & 0xFFFFFFFF_FF800000) | (((va & 0x0000_0000_FFFF_E000) >> 13) << 4)) / 0x10 % 0x8_0000
            == va / 0x2000 % 0x8_0000,
        ((x & 0xFFFFFFFF_FF800000) | (((va & 0x0000_0000_FFFF_E000) >> 13) << 4)) / 0x80_0000 == x
            / 0x80_0000,
        ((y & 0xFFFF_FFFE_0000_0000) | (((va >> 62) & 0x3) << 31) | (((va & 0x0000_00FF_FFFF_E000)
            >> 13) << 4)) % 0x10 == 0u64,
        ((y & 0xFFFF_FFFE_0000_0000) | (((va >> 62) & 0x3) << 31) | (((va & 0x0000_00FF_FFFF_E000)
            >> 13) << 4)) / 0x10 % 0x800_0000 == va / 0x2000 % 0x800_0000,
        ((y & 0xFFFF_FFFE_0000_0000) | (((va >> 62) & 0x3) << 31) | (((va & 0x0000_00FF_FFFF_E000)
            >> 13) << 4)) / 0x8000_0000 % 4 == va / 0x4000_0000_0000_0000,
        ((y & 0xFFFF_FFFE_0000_0000) | (((va >> 62) & 0x3) << 31) | (((va & 0x0000_00FF_FFFF_E000)
            >> 13) << 4)) / 0x2_0000_0000 == y / 0x2_0000_0000,
{
}

proof fn lemma_narrow_segments(low: u32)
    ensures
        low >> 29 == low / 0x2000_0000,
        (low >> 29) & 7 == low / 0x2000_0000,
        low & 0x1FFF_FFFF == low % 0x2000_0000,
{
    crate::bits::lemma_bits_of_word(low);
}

proof fn lemma_wide_segments(va: u64)
    ensures
        va >> 62 == va / 0x4000_0000_0000_0000,
        va >> 40 == va / 0x100_0000_0000,
        va >> 32 == va / 0x1_0000_0000,
        (va >> 59) & 7 == va / 0x800_0000_0000_0000 % 8,
        va & 0x07FF_FFFF_FFFF_FFFF == va % 0x800_0000_0000_0000,
        (va as u32) == va % 0x1_0000_0000,
{
    crate::bits::lemma_bits_of_double(va);
}

proof fn lemma_segments(va: u64, low: u32)
    ensures
        low >> 29 == low as int / 0x2000_0000,
        (low >> 29) & 7 == low as int / 0x2000_0000,
        low & 0x1FFF_FFFF == low as int % 0x2000_0000,
        va >> 62 == va as int / 0x4000_0000_0000_0000,
        va >> 40 == va as int / 0x100_0000_0000,
        va >> 32 == va as int / 0x1_0000_0000,
        (va >> 59) & 7 == va as int / 0x800_0000_0000_0000 % 8,
        va & 0x07FF_FFFF_FFFF_FFFF == va as int % 0x800_0000_0000_0000,
        (va as u32) == va as int % 0x1_0000_0000,
{
    lemma_narrow_segments(low);
    lemma_wide_segments(va);
}

/// What a mapped access comes to when the TLB replies `r`.
pub open spec fn mapped(r: TlbResult, wide: bool, at: AccessType, t: TranslateResult) -> bool {
    let writes = at == AccessType::Write;
    match r {
        TlbResult::Hit { phys_addr, cache_attr, dirty } => if writes && !dirty {
            t.status == 0x800_0004
        } else {
            t.phys == phys_addr as int % 0x1_0000_0000 && t.status == cache_attr.spec_c_field()
        },
        TlbResult::Miss => t.status == 0x1800_0008 + (if writes {
            4int
        } else {
            0
        }) + (if wide {
            0x2000_0000int
        } else {
            0
        }),
        TlbResult::Invalid => t.status == 0x800_0008 + (if writes {
            4int
        } else {
            0
        }),
        TlbResult::Modified => t.status == 0x800_0004,
    }
}

proof fn lemma_fault_words()
    ensures
        0x800_0000u32 | (1u32 << 2) == 0x800_0004,
        0x800_0000u32 | (2u32 << 2) == 0x800_0008,
        0x800_0000u32 | (3u32 << 2) == 0x800_000C,
        0x800_0000u32 | (4u32 << 2) == 0x800_0010,
        0x800_0000u32 | (5u32 << 2) == 0x800_0014,
        0x800_0000u32 | 0x1000_0000u32 | (2u32 << 2) == 0x1800_0008,
        0x800_0000u32 | 0x1000_0000u32 | (3u32 << 2) == 0x1800_000C,
        0x800_0000u32 | 0x1000_0000u32 | 0x2000_0000u32 | (2u32 << 2) == 0x3800_0008,
        0x800_0000u32 | 0x1000_0000u32 | 0x2000_0000u32 | (3u32 << 2) == 0x3800_000C,
{
    crate::bits::lemma_constant_bits();
}

/// Translation goes by the TLB, for a 64-bit address if `wide`. If it fails, that is noted.
pub open spec fn goes_by_tlb<T: Tlb, C: MipsCache, B: BusDevice>(
    m: Machine<T, C, B>,
    va: u64,
    at: AccessType,
    wide: bool,
) -> bool {
    let (t, n) = m.translate(false, va, at);
    let asid = (m.core.cp0_entryhi as int % 0x100) as u8;
    let r = T::lookup(m.tlb, wide, va, asid, at);
    let fails = match r {
        TlbResult::Hit { phys_addr, cache_attr, dirty } => at == AccessType::Write && !dirty,
        _ => true,
    };
    &&& mapped(r, wide, at, t)
    &&& n == if fails {
        m.with_core(m.core.tlb_fault(wide, va))
    } else {
        m
    }
}

/// Translation gives `phys`, with the caches' attribute `field`.
pub open spec fn goes_straight<T: Tlb, C: MipsCache, B: BusDevice>(
    m: Machine<T, C, B>,
    va: u64,
    at: AccessType,
    phys: int,
    field: u32,
) -> bool {
    m.translate(false, va, at) == (
        TranslateResult { phys: (phys % 0x1_0000_0000) as u32, status: field },
        m,
    )
}

/// The access is an address error, and the address is noted.
pub open spec fn is_denied<T: Tlb, C: MipsCache, B: BusDevice>(
    m: Machine<T, C, B>,
    va: u64,
    at: AccessType,
) -> bool {
    let (t, n) = m.translate(false, va, at);
    &&& t.status == if at == AccessType::Write {
        0x800_0014u32
    } else {
        0x800_0010
    }
    &&& n == m.with_core(m.core.bad_address(va)) && n.core.cp0_badvaddr == va
}

proof fn lemma_routes<T: Tlb, C: MipsCache, B: BusDevice>(
    m: Machine<T, C, B>,
    va: u64,
    at: AccessType,
)
    ensures
        match m.core.route(false, va) {
            Route::Unmapped { phys, c_field } => goes_straight(m, va, at, phys as int, c_field),
            Route::Mapped { xtlb } => goes_by_tlb(m, va, at, xtlb),
            Route::Denied => is_denied(m, va, at),
        },
{
    reveal(Machine::translate);
    lemma_fault_words();
    lemma_entry_space(m.core.cp0_entryhi);
    if let Route::Unmapped { phys, c_field } = m.core.route(false, va) {
        lemma_segments(phys, 0);
    } else if let Route::Mapped { xtlb } = m.core.route(false, va) {
        if let TlbResult::Hit { phys_addr, .. } = T::lookup(m.tlb, xtlb, va, m.asid(), at) {
            lemma_segments(phys_addr, 0);
        }
    }
}

proof fn lemma_entry_space(h: u64)
    ensures
        (h & 0xFF) as u8 == h as int % 0x100,
{
    crate::bits::lemma_bits_of_double(h);
}

/// Law: 32-bit addresses, of which the upper half is ignored. The lower 2 GB are mapped,
/// for users too, but straight and uncached at error level; then come 512 MB each of
/// cached and uncached memory for the kernel, straight, a mapped part for supervisors, and
/// one for the kernel.
pub proof fn law_narrow_addresses<T: Tlb, C: MipsCache, B: BusDevice>(
    m: Machine<T, C, B>,
    va: u64,
    at: AccessType,
)
    requires
        !m.core.is_64bit(),
    ensures
        ({
            let a = low(va);
            let p = m.core.privilege();
            if a < 0x8000_0000 {
                if bit32(m.core.cp0_status, 2) {
                    goes_straight(m, va, at, a, 2)
                } else {
                    goes_by_tlb(m, va, at, false)
                }
            } else if a < 0xC000_0000 && p != PrivilegeMode::Kernel {
                is_denied(m, va, at)
            } else if a < 0xA000_0000 {
                goes_straight(m, va, at, a - 0x8000_0000, 3)
            } else if a < 0xC000_0000 {
                goes_straight(m, va, at, a - 0xA000_0000, 2)
            } else if p == PrivilegeMode::User || (a >= 0xE000_0000 && p != PrivilegeMode::Kernel) {
                is_denied(m, va, at)
            } else {
                goes_by_tlb(m, va, at, false)
            }
        }),
{
    lemma_routes(m, va, at);
    lemma_segments(va, va as u32);
    lemma_flags(m.core.cp0_status);
}

/// Law: 64-bit addresses. The first quarter is for users, 1 TB of it mapped, but straight
/// and uncached at error level; the second is mapped, for supervisors; the third holds the
/// kernel's windows onto memory, of which the second bit field says whether they are
/// cached; the last is the kernel's, mapped but for its last 4 GB, which hold the two
/// straight parts of the 32-bit addresses.
pub proof fn law_wide_addresses<T: Tlb, C: MipsCache, B: BusDevice>(
    m: Machine<T, C, B>,
    va: u64,
    at: AccessType,
)
    requires
        m.core.is_64bit(),
    ensures
        ({
            let a = va as int;
            let p = m.core.privilege();
            let window = a / 0x800_0000_0000_0000 % 8;
            if a < 0x4000_0000_0000_0000 {
                if a >= 0x100_0000_0000 {
                    is_denied(m, va, at)
                } else if bit32(m.core.cp0_status, 2) {
                    goes_straight(m, va, at, a, 2)
                } else {
                    goes_by_tlb(m, va, at, true)
                }
            } else if a < 0x8000_0000_0000_0000 {
                if p == PrivilegeMode::User {
                    is_denied(m, va, at)
                } else {
                    goes_by_tlb(m, va, at, true)
                }
            } else if p != PrivilegeMode::Kernel {
                is_denied(m, va, at)
            } else if a < 0xC000_0000_0000_0000 {
                if window < 2 {
                    is_denied(m, va, at)
                } else {
                    goes_straight(
                        m,
                        va,
                        at,
                        a % 0x800_0000_0000_0000,
                        if window == 3 || window == 5 {
                            window as u32
                        } else {
                            2
                        },
                    )
                }
            } else if a < 0xFFFF_FFFF_0000_0000 {
                goes_by_tlb(m, va, at, true)
            } else if 0xFFFF_FFFF_8000_0000 <= a < 0xFFFF_FFFF_A000_0000 {
                goes_straight(m, va, at, a - 0xFFFF_FFFF_8000_0000, 3)
            } else if 0xFFFF_FFFF_A000_0000 <= a < 0xFFFF_FFFF_C000_0000 {
                goes_straight(m, va, at, a - 0xFFFF_FFFF_A000_0000, 2)
            } else {
                goes_by_tlb(m, va, at, false)
            }
        }),
{
    lemma_routes(m, va, at);
    lemma_segments(va, va as u32);
    lemma_flags(m.core.cp0_status);
}

/// Law: `tlbwi` and `tlbwr` forget what is remembered of translations.
pub proof fn law_new_entries_take_effect<T: Tlb, C: MipsCache, B: BusDevice>(
    m: Machine<T, C, B>,
    raw: u32,
)
    requires
        is_tlb_word(raw, 2) || is_tlb_word(raw, 6),
    ensures
        remembers_nothing(m.execute(alone(raw)).1.core),
{
    lemma_fields(raw);
    lemma_system(m, raw);
}

proof fn lemma_reset_bits(s: u32, k: u32)
    by (bit_vector)
    requires
        k < 32,
    ensures
        k == 2 || k == 20 || k == 22 ==> ((s | 0x40_0000u32 | 4u32 | 0x10_0000u32) >> k) & 1 == 1,
        k != 2 && k != 20 && k != 22 ==> ((s | 0x40_0000u32 | 4u32 | 0x10_0000u32) >> k) & 1 == (s
            >> k) & 1,
        k == 2 || k == 22 ==> ((0x40_0000u32 | 4u32) >> k) & 1 == 1,
        k != 2 && k != 22 ==> ((0x40_0000u32 | 4u32) >> k) & 1 == 0,
{
}

/// Law: a reset takes the processor to its first instruction, at error level and with the
/// boot vectors, Wired at 0 and Random at the last entry of the TLB. A soft one notes where
/// it struck and that it did, in ErrorEPC and bit 20 of Status, and keeps the other bits; a
/// hard one clears them.
pub proof fn law_resets(c: MipsCore, soft: bool, k: u32)
    requires
        k < 32,
    ensures
        ({
            let n = c.after_reset(soft);
            &&& n.pc == 0xFFFF_FFFF_BFC0_0000
            &&& n.cp0_wired == 0 && n.interrupts == 0
            &&& c.tlb_entries > 0 ==> n.cp0_random == c.tlb_entries - 1
            &&& n.gpr == c.gpr && n.fpr == c.fpr
            &&& remembers_nothing(n)
            &&& soft ==> n.cp0_errorepc == if c.in_delay_slot {
                crate::words::after(c.pc, -4)
            } else {
                c.pc as int
            }
            &&& bit32(n.cp0_status, k as int) == (k == 2 || k == 22 || (soft && (k == 20 || bit32(
                c.cp0_status,
                k as int,
            ))))
        }),
{
    lemma_reset_bits(c.cp0_status, k);
}

proof fn lemma_unusable_cause(x: u32, ce: u32)
    by (bit_vector)
    requires
        ce == 1u32,
    ensures
        0x800_0000u32 | (11u32 << 2) == 0x800_002C,
        ((((x & !0x3000_0000u32) | ((ce & 3) << 28)) & !0x7Cu32) | (0x800_002Cu32 & 0x7C)) / 4 % 32
            == 11u32,
        ((((x & !0x3000_0000u32) | ((ce & 3) << 28)) & !0x7Cu32) | (0x800_002Cu32 & 0x7C))
            / 0x1000_0000 % 4 == 1u32,
        ((((x & !0x3000_0000u32) | ((ce & 3) << 28)) & !0x7Cu32) | (0x800_002Cu32 & 0x7C)
            | 0x8000_0000u32) / 4 % 32 == 11u32,
        ((((x & !0x3000_0000u32) | ((ce & 3) << 28)) & !0x7Cu32) | (0x800_002Cu32 & 0x7C)
            | 0x8000_0000u32) / 0x1000_0000 % 4 == 1u32,
        (((((x & !0x3000_0000u32) | ((ce & 3) << 28)) & !0x7Cu32) | (0x800_002Cu32 & 0x7C))
            & !0x8000_0000u32) / 4 % 32 == 11u32,
        (((((x & !0x3000_0000u32) | ((ce & 3) << 28)) & !0x7Cu32) | (0x800_002Cu32 & 0x7C))
            & !0x8000_0000u32) / 0x1000_0000 % 4 == 1u32,
{
}

/// Law: where bit 29 of Status is clear, each floating-point word raises exception 11, and
/// bits 28 and 29 of Cause say that it was for coprocessor 1.
pub proof fn law_floats_may_be_off<T: Tlb, C: MipsCache, B: BusDevice>(m: Machine<T, C, B>, raw: u32)
    requires
        !bit32(m.core.cp0_status, 29),
        is_cop1(alone(raw).handler),
    ensures
        raises(m, raw, 11),
        m.execute(alone(raw)).1.core.cp0_cause as int / 0x1000_0000 % 4 == 1,
        m.execute(alone(raw)).1.core.fpr == m.core.fpr,
{
    lemma_flags(m.core.cp0_status);
    crate::cpu_laws::law_float_instructions_need_their_coprocessor(m, alone(raw));
    lemma_unusable_cause(m.core.cp0_cause, 1);
}

} // verus!
