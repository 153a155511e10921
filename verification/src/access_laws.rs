//! What loads and stores do to bytes of memory.
use vstd::prelude::*;

use crate::alu_laws::lemma_numbers;
use crate::bus::{BusDevice, MipsCache, Tlb};
use crate::bytes::{big_endian, number_of_bytes};
use crate::cpu_core::{AccessType, PrivilegeMode};
use crate::cpu_laws::{lemma_memory_family, lemma_not_integer};
use crate::float_laws::{
    double, floats, lemma_ends, lemma_float, lemma_registers, lemma_sets_double, lemma_sets_single,
    sets_double, sets_single, single,
};
use crate::fpu::{is_cop1, Step};
use crate::instr::{encodes, encoding, DecodedInstr, InstrHandler};
use crate::loadstore::alone;
use crate::machine::{Machine, Route};
use crate::memory::fetched_word;
use crate::ram::DirectCache;
use crate::status::{TranslateResult, EXEC_COMPLETE};
use crate::unaligned_laws::byte_at;
use crate::words::{
    after, amount, function, goes_on, lemma_encoded, lemma_fields, offset, opcode, raises, reg_d,
    reg_s, reg_t,
};

verus! {

/// The number that bytes make, the highest first.
pub open spec fn value(s: Seq<u8>) -> int
    decreases s.len(),
{
    if s.len() == 0 {
        0
    } else {
        value(s.drop_last()) * 0x100 + s.last()
    }
}

/// The number of values that `n` bytes can take.
pub open spec fn span(n: int) -> int {
    if n == 1 {
        0x100
    } else if n == 2 {
        0x1_0000
    } else if n == 4 {
        0x1_0000_0000
    } else {
        0x1_0000_0000_0000_0000
    }
}

/// The number `v` of `n` bytes, taken as signed, in 64 bits.
pub open spec fn sign_extended(v: int, n: int) -> int {
    if v < span(n) / 2 {
        v
    } else {
        v + 0x1_0000_0000_0000_0000 - span(n)
    }
}

/// Bytes that an aligned load with this opcode reads.
pub open spec fn load_bytes(op: int) -> int {
    if op == 32 || op == 36 {
        1
    } else if op == 33 || op == 37 {
        2
    } else if op == 35 || op == 39 {
        4
    } else {
        8
    }
}

/// Bytes that an aligned store with this opcode writes.
pub open spec fn store_bytes(op: int) -> int {
    if op == 40 {
        1
    } else if op == 41 {
        2
    } else if op == 43 {
        4
    } else {
        8
    }
}

/// The address that a load or store is for.
pub open spec fn address<T: Tlb, C: MipsCache, B: BusDevice>(m: Machine<T, C, B>, raw: u32) -> int {
    after(m.core.gpr@[reg_s(raw)], offset(raw))
}

/// `va` is in the kernel's window onto memory, and the bytes there are.
pub open spec fn in_memory<T: Tlb, B: BusDevice>(
    m: Machine<T, DirectCache, B>,
    va: int,
    n: int,
) -> bool {
    let p = va - 0xFFFF_FFFF_8000_0000;
    &&& 0xFFFF_FFFF_8000_0000 <= va
    &&& va + n <= 0xFFFF_FFFF_A000_0000
    &&& m.cache.ram.base <= p
    &&& p + n <= m.cache.ram.base + m.cache.ram.bytes.len()
}

/// The `n` bytes of memory at `va`, in the kernel's window.
pub open spec fn bytes_at<T: Tlb, B: BusDevice>(
    m: Machine<T, DirectCache, B>,
    va: int,
    n: int,
) -> Seq<u8> {
    let at = va - 0xFFFF_FFFF_8000_0000 - m.cache.ram.base;
    m.cache.ram.bytes.subrange(at, at + n)
}

/// Accesses are the kernel's, no breakpoint stops them, and what is remembered of earlier
/// translations is true of `va`.
pub open spec fn undisturbed<T: Tlb, C: MipsCache, B: BusDevice>(
    m: Machine<T, C, B>,
    at: AccessType,
    va: int,
) -> bool {
    let e = m.core.nano(at);
    &&& m.core.privilege() == PrivilegeMode::Kernel
    &&& m.skip_breakpoints
    &&& e.valid && e.va_page == va / 0x1000 * 0x1000 ==> e.phys_page == va % 0x2000_0000 / 0x1000
        * 0x1000 && e.c_field == 3
}

proof fn lemma_join(a: u64, b: u64)
    requires
        a < 0x100_0000_0000_0000,
        b < 0x100,
    ensures
        (a << 8) | b == a * 0x100 + b,
{
    crate::bits::lemma_bits_of_doubles(a, b);
}

pub(crate) proof fn lemma_value(s: Seq<u8>)
    requires
        s.len() <= 8,
    ensures
        number_of_bytes(s) == value(s),
        s.len() == 0 ==> value(s) == 0,
        s.len() == 1 ==> 0 <= value(s) < 0x100,
        s.len() == 2 ==> 0 <= value(s) < 0x1_0000,
        s.len() == 3 ==> 0 <= value(s) < 0x100_0000,
        s.len() == 4 ==> 0 <= value(s) < 0x1_0000_0000,
        s.len() == 5 ==> 0 <= value(s) < 0x100_0000_0000,
        s.len() == 6 ==> 0 <= value(s) < 0x1_0000_0000_0000,
        s.len() == 7 ==> 0 <= value(s) < 0x100_0000_0000_0000,
        s.len() == 8 ==> 0 <= value(s) < 0x1_0000_0000_0000_0000,
    decreases s.len(),
{
    if s.len() > 0 {
        lemma_value(s.drop_last());
        lemma_join(number_of_bytes(s.drop_last()), s.last() as u64);
    }
}

pub(crate) proof fn lemma_window(va: u64)
    ensures
        va >= 0xFFFF_FFFF_8000_0000 && va < 0xFFFF_FFFF_A000_0000 ==> va >> 62 == 3 && va >> 32
            == 0xFFFF_FFFF && (va as u32) >> 29 == 4 && ((va as u32) >> 29) & 7 == 4,
        va & !0xFFFu64 <= va && (va & !0xFFFu64) % 0x1000 == 0u64 && va - (va & !0xFFFu64)
            < 0x1000,
        va & 0xFFF == va % 0x1000,
        ((va as u32) & 0x1FFF_FFFF) as u64 == va % 0x2000_0000,
        va & 1 == va % 2,
        va & 3 == va % 4,
        va & 7 == va % 8,
        va & 0 == 0u64,
{
    crate::bits::lemma_bits_of_double(va);
}

proof fn lemma_page(page: u64, low: u64)
    requires
        page % 0x1000 == 0u64,
        low < 0x1000,
        page < 0x2000_0000,
    ensures
        page | low == page + low,
{
    crate::bits::lemma_bits_of_doubles(page, low);
}

pub(crate) proof fn lemma_cached()
    ensures
        3u32 & 7 != 2,
        3u32 & 7 == 3,
        3u32 & 0x0800_0000 == 0,
        0u32 & 0x0800_0000 == 0,
{
    crate::bits::lemma_constant_bits();
}

/// The kernel's window is mapped straight to memory, through the caches.
pub(crate) proof fn lemma_routed<T: Tlb, C: MipsCache, B: BusDevice>(
    m: Machine<T, C, B>,
    debug: bool,
    va: u64,
    at: AccessType,
)
    requires
        0xFFFF_FFFF_8000_0000 <= va < 0xFFFF_FFFF_A000_0000,
        debug || m.core.privilege() == PrivilegeMode::Kernel,
    ensures
        m.translate(debug, va, at) == (
            TranslateResult { phys: (va - 0xFFFF_FFFF_8000_0000) as u32, status: 3 },
            m,
        ),
{
    reveal(Machine::translate);
    lemma_window(va);
    let low = va as u32;
    assert(m.core.route(debug, va) == (Route::Unmapped {
        phys: (low & 0x1FFFFFFF) as u64,
        c_field: 3,
    }));
    assert(va as int % 0x2000_0000 == va - 0xFFFF_FFFF_8000_0000);
}

pub(crate) proof fn lemma_reached<T: Tlb, C: MipsCache, B: BusDevice>(
    m: Machine<T, C, B>,
    va: u64,
    at: AccessType,
)
    requires
        0xFFFF_FFFF_8000_0000 <= va < 0xFFFF_FFFF_A000_0000,
        undisturbed(m, at, va as int),
    ensures
        ({
            let (r, n) = m.nano_translate(at, va);
            &&& r == TranslateResult { phys: (va - 0xFFFF_FFFF_8000_0000) as u32, status: 3 }
            &&& n == m.with_core(n.core)
            &&& n.core.gpr == m.core.gpr && n.core.pc == m.core.pc
            &&& n.core.hi == m.core.hi && n.core.lo == m.core.lo
            &&& n.core.fpr == m.core.fpr && n.core.fpu_fcsr == m.core.fpu_fcsr
            &&& n.core.cp0_status == m.core.cp0_status && n.core.cp0_cause == m.core.cp0_cause
            &&& n.core.cp0_epc == m.core.cp0_epc
            &&& n.core.in_delay_slot == m.core.in_delay_slot
            &&& n.core.delay_slot_target == m.core.delay_slot_target
            &&& n.core.cp0_taglo == m.core.cp0_taglo
            &&& undisturbed(n, at, va as int)
        }),
{
    reveal(Machine::nano_translate);
    lemma_window(va);
    lemma_cached();
    let e = m.core.nano(at);
    let page = va & !0xFFFu64;
    assert(page == va as int / 0x1000 * 0x1000);
    if e.valid && e.va_page == page {
        lemma_page(e.phys_page, va & 0xFFF);
        assert(va as int % 0x2000_0000 == va - 0xFFFF_FFFF_8000_0000);
    } else {
        lemma_routed(m, false, va, at);
        let phys = (va - 0xFFFF_FFFF_8000_0000) as u64;
        lemma_window(phys);
        assert(va as int % 0x2000_0000 == phys);
        assert(phys & !0xFFFu64 == phys as int / 0x1000 * 0x1000);
        assert(3u32 & 0x7 == 3) by {
            lemma_cached();
        }
    }
}

/// What a read finds.
proof fn lemma_read<T: Tlb, B: BusDevice>(m: Machine<T, DirectCache, B>, va: u64, n: usize)
    requires
        n == 1 || n == 2 || n == 4 || n == 8,
        va as int % n as int == 0,
        in_memory(m, va as int, n as int),
        undisturbed(m, AccessType::Read, va as int),
    ensures
        ({
            let (r, k) = m.read_data(false, n, va);
            &&& r == Ok::<u64, u32>(value(bytes_at(m, va as int, n as int)) as u64)
            &&& same_but_for_memory(m, k)
            &&& k.cache == m.cache
            &&& undisturbed(k, AccessType::Read, va as int)
        }),
{
    reveal(Machine::read_data);
    lemma_window(va);
    lemma_cached();
    lemma_reached(m, va, AccessType::Read);
    lemma_value(bytes_at(m, va as int, n as int));
}

/// An access changes nothing but memory, as far as programs can see.
pub open spec fn same_but_for_memory<T: Tlb, C: MipsCache, B: BusDevice>(
    m: Machine<T, C, B>,
    n: Machine<T, C, B>,
) -> bool {
    &&& n.core.gpr == m.core.gpr && n.core.pc == m.core.pc
    &&& n.core.hi == m.core.hi && n.core.lo == m.core.lo
    &&& n.core.fpr == m.core.fpr && n.core.fpu_fcsr == m.core.fpu_fcsr
    &&& n.core.cp0_status == m.core.cp0_status && n.core.cp0_cause == m.core.cp0_cause
    &&& n.core.cp0_epc == m.core.cp0_epc
    &&& n.core.in_delay_slot == m.core.in_delay_slot
    &&& n.core.delay_slot_target == m.core.delay_slot_target
    &&& n.tlb == m.tlb && n.sysad == m.sysad
}

/// What a write leaves.
proof fn lemma_write<T: Tlb, B: BusDevice>(
    m: Machine<T, DirectCache, B>,
    va: u64,
    n: usize,
    v: u64,
)
    requires
        n == 1 || n == 2 || n == 4 || n == 8,
        va as int % n as int == 0,
        in_memory(m, va as int, n as int),
        undisturbed(m, AccessType::Write, va as int),
    ensures
        ({
            let (s, k) = m.write_data(false, n, va, v);
            &&& s == EXEC_COMPLETE
            &&& same_but_for_memory(m, k)
            &&& k.cache == (crate::ram::DirectState {
                ram: m.cache.ram.with((va - 0xFFFF_FFFF_8000_0000) as u32, n, v),
                ..m.cache
            })
        }),
{
    reveal(Machine::write_data);
    lemma_window(va);
    lemma_cached();
    lemma_reached(m, va, AccessType::Write);
}

/// An access to an address that is no multiple of its size.
proof fn lemma_misaligned<T: Tlb, C: MipsCache, B: BusDevice>(
    m: Machine<T, C, B>,
    va: u64,
    n: usize,
    v: u64,
)
    requires
        n == 1 || n == 2 || n == 4 || n == 8,
        va as int % n as int != 0,
        m.skip_breakpoints,
    ensures
        m.read_data(false, n, va) == (
            Err::<u64, u32>(0x800_0010),
            m.with_core(m.core.bad_address(va)),
        ),
        m.write_data(false, n, va, v) == (0x800_0014u32, m.with_core(m.core.bad_address(va))),
{
    reveal(Machine::read_data);
    reveal(Machine::write_data);
    lemma_window(va);
    lemma_error_words(0);
}

proof fn lemma_error_words(x: u32)
    ensures
        0x800_0000u32 | (4u32 << 2) == 0x800_0010,
        0x800_0000u32 | (5u32 << 2) == 0x800_0014,
        0x800_0010u32 & 0x800_0000 != 0,
        0x800_0014u32 & 0x800_0000 != 0,
        ((x & !0x7Cu32) | (0x800_0010u32 & 0x7C)) / 4 % 32 == 4u32,
        ((x & !0x7Cu32) | (0x800_0014u32 & 0x7C)) / 4 % 32 == 5u32,
        ((x & !0x7Cu32) | (0x800_0010u32 & 0x7C) | 0x8000_0000) / 4 % 32 == 4u32,
        ((x & !0x7Cu32) | (0x800_0014u32 & 0x7C) | 0x8000_0000) / 4 % 32 == 5u32,
        (((x & !0x7Cu32) | (0x800_0010u32 & 0x7C)) & !0x8000_0000u32) / 4 % 32 == 4u32,
        (((x & !0x7Cu32) | (0x800_0014u32 & 0x7C)) & !0x8000_0000u32) / 4 % 32 == 5u32,
{
    crate::bits::lemma_bits_of_word(x);
}

/// The operation of an aligned load or store, by its opcode.
spec fn access(op: int) -> InstrHandler {
    if op == 32 {
        InstrHandler::Lb
    } else if op == 33 {
        InstrHandler::Lh
    } else if op == 35 {
        InstrHandler::Lw
    } else if op == 36 {
        InstrHandler::Lbu
    } else if op == 37 {
        InstrHandler::Lhu
    } else if op == 39 {
        InstrHandler::Lwu
    } else if op == 55 {
        InstrHandler::Ld
    } else if op == 40 {
        InstrHandler::Sb
    } else if op == 41 {
        InstrHandler::Sh
    } else if op == 43 {
        InstrHandler::Sw
    } else {
        InstrHandler::Sd
    }
}

pub open spec fn is_load(op: int) -> bool {
    op == 32 || op == 33 || op == 35 || op == 36 || op == 37 || op == 39 || op == 55
}

pub open spec fn is_store(op: int) -> bool {
    op == 40 || op == 41 || op == 43 || op == 63
}

proof fn lemma_access<T: Tlb, C: MipsCache, B: BusDevice>(m: Machine<T, C, B>, raw: u32)
    requires
        is_load(opcode(raw)) || is_store(opcode(raw)),
    ensures
        alone(raw).handler == access(opcode(raw)),
        m.core.effective(alone(raw)) == address(m, raw),
        ({
            let (s, n) = m.load_store(alone(raw));
            m.execute(alone(raw)) == (Step::Done(s), n)
        }),
{
    reveal(Machine::execute);
    lemma_fields(raw);
    lemma_encoded(raw, access(opcode(raw)));
    lemma_memory_family(m, alone(raw));
    lemma_not_integer(m, alone(raw));
    assert(alone(raw).imm == crate::instr::imm_signed(raw));
    lemma_numbers(0, 0, crate::instr::imm_signed(raw) as i32, 0);
}

proof fn lemma_extension(v: u64)
    ensures
        v < 0x80 ==> (v as i8 as i64 as u64) == v,
        v >= 0x80 && v < 0x100 ==> (v as i8 as i64 as u64) == v + 0xFFFF_FFFF_FFFF_FF00,
        v < 0x8000 ==> (v as i16 as i64 as u64) == v,
        v >= 0x8000 && v < 0x1_0000 ==> (v as i16 as i64 as u64) == v + 0xFFFF_FFFF_FFFF_0000,
        v < 0x8000_0000 ==> (v as i32 as i64 as u64) == v,
        v >= 0x8000_0000 && v < 0x1_0000_0000 ==> (v as i32 as i64 as u64) == v
            + 0xFFFF_FFFF_0000_0000,
{
    crate::bits::lemma_bits_of_double(v);
}

/// Law: a load reads as many bytes as its opcode says, the highest first, from the sum of
/// its base register and its offset, and extends them to the register: `lb`, `lh` and `lw`
/// by their sign, `lbu`, `lhu` and `lwu` by zeros. An address that is no multiple of the
/// size is an address error.
pub proof fn law_loads<T: Tlb, B: BusDevice>(m: Machine<T, DirectCache, B>, raw: u32)
    requires
        is_load(opcode(raw)),
        m.skip_breakpoints,
    ensures
        ({
            let va = address(m, raw);
            let n = load_bytes(opcode(raw));
            let v = value(bytes_at(m, va, n));
            &&& va % n != 0 ==> raises(m, raw, 4) && m.execute(alone(raw)).1.core.cp0_badvaddr == va
            &&& va % n == 0 && in_memory(m, va, n) && undisturbed(m, AccessType::Read, va)
                ==> crate::words::sets(
                m,
                raw,
                reg_t(raw),
                if opcode(raw) <= 35 {
                    sign_extended(v, n)
                } else {
                    v
                },
            )
        }),
{
    lemma_fields(raw);
    lemma_access(m, raw);
    let va = address(m, raw) as u64;
    let n = load_bytes(opcode(raw)) as usize;
    if va as int % n as int != 0 {
        lemma_misaligned(m, va, n, 0);
        lemma_error_words(m.core.cp0_cause);
    } else if in_memory(m, va as int, n as int) && undisturbed(m, AccessType::Read, va as int) {
        lemma_read(m, va, n);
        let s = bytes_at(m, va as int, n as int);
        lemma_value(s);
        lemma_extension(value(s) as u64);
    }
}

/// The digit of `v` in base 256 that is `i` places from the highest of `n`.
pub open spec fn digit(v: u64, n: int, i: int) -> int {
    let k = n - 1 - i;
    if k == 0 {
        v as int % 0x100
    } else if k == 1 {
        v as int / 0x100 % 0x100
    } else if k == 2 {
        v as int / 0x1_0000 % 0x100
    } else if k == 3 {
        v as int / 0x100_0000 % 0x100
    } else if k == 4 {
        v as int / 0x1_0000_0000 % 0x100
    } else if k == 5 {
        v as int / 0x100_0000_0000 % 0x100
    } else if k == 6 {
        v as int / 0x1_0000_0000_0000 % 0x100
    } else {
        v as int / 0x100_0000_0000_0000 % 0x100
    }
}

proof fn lemma_shifted_bytes(v: u64)
    ensures
        ((v >> 0u64) & 0xff) as u8 == v % 0x100,
        ((v >> 8u64) & 0xff) as u8 == v / 0x100 % 0x100,
        ((v >> 16u64) & 0xff) as u8 == v / 0x1_0000 % 0x100,
        ((v >> 24u64) & 0xff) as u8 == v / 0x100_0000 % 0x100,
        ((v >> 32u64) & 0xff) as u8 == v / 0x1_0000_0000 % 0x100,
        ((v >> 40u64) & 0xff) as u8 == v / 0x100_0000_0000 % 0x100,
        ((v >> 48u64) & 0xff) as u8 == v / 0x1_0000_0000_0000 % 0x100,
        ((v >> 56u64) & 0xff) as u8 == v / 0x100_0000_0000_0000 % 0x100,
{
    crate::bits::lemma_bits_of_double(v);
}

proof fn lemma_digits(v: u64, n: int, i: int)
    requires
        0 <= i < n <= 8,
    ensures
        big_endian(v, n as nat)[i] == digit(v, n, i),
{
    lemma_shifted_bytes(v);
}

/// `n` is `m` with the bytes of `v` at `va`, the highest first, and no other byte changed.
pub open spec fn stored<T: Tlb, B: BusDevice>(
    m: Machine<T, DirectCache, B>,
    k: Machine<T, DirectCache, B>,
    va: int,
    n: int,
    v: u64,
) -> bool {
    let at = va - 0xFFFF_FFFF_8000_0000 - m.cache.ram.base;
    let s = m.cache.ram.bytes;
    let t = k.cache.ram.bytes;
    &&& k.cache.ram.base == m.cache.ram.base && t.len() == s.len()
    &&& forall|i: int| 0 <= i < n ==> #[trigger] t[at + i] == digit(v, n, i)
    &&& forall|i: int| 0 <= i < s.len() && (i < at || i >= at + n) ==> #[trigger] t[i] == s[i]
}

/// Law: a store writes as many of the lower bytes of its register as its opcode says, the
/// highest first, to the sum of its base register and its offset, and changes nothing
/// else. An address that is no multiple of the size is an address error.
pub proof fn law_stores<T: Tlb, B: BusDevice>(m: Machine<T, DirectCache, B>, raw: u32)
    requires
        is_store(opcode(raw)),
        m.skip_breakpoints,
    ensures
        ({
            let va = address(m, raw);
            let n = store_bytes(opcode(raw));
            let (s, k) = m.execute(alone(raw));
            &&& va % n != 0 ==> raises(m, raw, 5) && k.core.cp0_badvaddr == va
            &&& va % n == 0 && in_memory(m, va, n) && undisturbed(m, AccessType::Write, va) ==> {
                &&& s == Step::Done(EXEC_COMPLETE)
                &&& stored(m, k, va, n, m.core.gpr@[reg_t(raw)])
                &&& goes_on(m.core, k.core)
                &&& k.core.gpr == m.core.gpr && k.core.hi == m.core.hi && k.core.lo == m.core.lo
                &&& k.core.fpr == m.core.fpr && k.core.cp0_status == m.core.cp0_status
                &&& k.tlb == m.tlb && k.sysad == m.sysad
            }
        }),
{
    lemma_fields(raw);
    lemma_access(m, raw);
    let va = address(m, raw) as u64;
    let n = store_bytes(opcode(raw)) as usize;
    let v = m.core.gpr@[reg_t(raw)];
    if va as int % n as int != 0 {
        lemma_misaligned(m, va, n, v);
        lemma_error_words(m.core.cp0_cause);
    } else if in_memory(m, va as int, n as int) && undisturbed(m, AccessType::Write, va as int) {
        lemma_write(m, va, n, v);
        lemma_cached();
        let k = m.execute(alone(raw)).1;
        let t = k.cache.ram.bytes;
        let at = va - 0xFFFF_FFFF_8000_0000 - m.cache.ram.base;
        assert forall|i: int| 0 <= i < n implies #[trigger] t[at + i] == digit(v, n as int, i) by {
            lemma_digits(v, n as int, i);
        }
    }
}

/// Law: a load of the same size from the same address gives back what a store left there,
/// as far as the size reaches.
pub proof fn law_stores_load_back<T: Tlb, B: BusDevice>(
    m: Machine<T, DirectCache, B>,
    k: Machine<T, DirectCache, B>,
    va: int,
    n: int,
    v: u64,
)
    requires
        n == 1 || n == 2 || n == 4 || n == 8,
        in_memory(m, va, n),
        stored(m, k, va, n, v),
    ensures
        value(bytes_at(k, va, n)) == v as int % span(n),
{
    let s = bytes_at(k, va, n);
    let at = va - 0xFFFF_FFFF_8000_0000 - m.cache.ram.base;
    let t = k.cache.ram.bytes;
    assert forall|i: int| 0 <= i < n implies #[trigger] s[i] == digit(v, n, i) by {
        assert(s[i] == t[at + i]);
    }
    let b = big_endian(v, n as nat);
    assert forall|i: int| 0 <= i < n implies #[trigger] b[i] == s[i] by {
        lemma_digits(v, n, i);
    }
    assert(b =~= s);
    crate::bytes::law_bytes_make_their_number(v, n as nat);
    lemma_value(s);
    lemma_low_parts(v);
}

proof fn lemma_low_parts(v: u64)
    ensures
        v & 0xFF == v % 0x100,
        v & 0xFFFF == v % 0x1_0000,
        v & 0xFFFF_FFFF == v % 0x1_0000_0000,
{
    crate::bits::lemma_bits_of_double(v);
}

/// The word that a debugger's fetch at `va` finds, and the number that its read finds.
pub(crate) proof fn lemma_looked_at<T: Tlb, B: BusDevice>(
    m: Machine<T, DirectCache, B>,
    va: u64,
    n: usize,
)
    requires
        n == 1 || n == 2 || n == 4 || n == 8,
        in_memory(m, va as int, n as int),
    ensures
        n == 4 ==> ({
            let (r, k) = m.fetch(true, va);
            fetched_word(r) == Ok::<u32, u32>(value(bytes_at(m, va as int, 4)) as u32) && k == m
        }),
        va as int % n as int == 0 ==> m.debug_read(va, n).0 == Ok::<u64, u32>(
            value(bytes_at(m, va as int, n as int)) as u64,
        ) && m.debug_read(va, n).1.cache == m.cache,
{
    reveal(Machine::fetch);
    reveal(Machine::read_data);
    lemma_window(va);
    lemma_cached();
    lemma_routed(m, true, va, AccessType::Fetch);
    lemma_routed(m, true, va, AccessType::Debug);
    lemma_value(bytes_at(m, va as int, n as int));
}

/// A floating-point register at the end of an access.
proof fn lemma_float_end<T: Tlb, C: MipsCache, B: BusDevice>(
    m: Machine<T, C, B>,
    k: Machine<T, C, B>,
    wide: bool,
    r: u8,
    v: u64,
)
    requires
        r < 32,
        same_but_for_memory(m, k),
    ensures
        ({
            let n = k.core.with_float(wide, r, v).completed();
            &&& wide ==> sets_double(m.core, n, r as int, v as int)
            &&& !wide && v < 0x1_0000_0000 ==> sets_single(m.core, n, r as int, v as int)
            &&& goes_on(m.core, n)
        }),
{
    let c = k.core;
    lemma_sets_double(c, r, v);
    lemma_sets_single(c, r, v as u32);
    lemma_ends(c, c.with_fpr_l(r, v), r as int, v as int);
    lemma_ends(c, c.with_fpr_w(r, v as u32), r as int, v as u32 as int);
    let n = c.with_float(wide, r, v).completed();
    assert forall|i: int| 0 <= i < 32 implies single(m.core, i) == #[trigger] single(c, i) by {}
    if wide {
        assert(sets_double(c, n, r as int, v as int));
    } else if v < 0x1_0000_0000 {
        assert(sets_single(c, n, r as int, v as int));
        assert forall|i: int| 0 <= i < 32 && i != r implies #[trigger] single(n, i) == single(
            m.core,
            i,
        ) by {
            assert(single(c, i) == single(m.core, i));
        }
    }
}

/// `raw` loads or stores a floating-point register: by an offset, or by an index.
pub open spec fn is_float_access(raw: u32) -> bool {
    let op = opcode(raw);
    let f = function(raw);
    ||| op == 49 || op == 53 || op == 57 || op == 61
    ||| op == 19 && (f == 0 || f == 1 || f == 8 || f == 9)
}

/// It is for a double.
pub open spec fn is_double_access(raw: u32) -> bool {
    opcode(raw) == 53 || opcode(raw) == 61 || (opcode(raw) == 19 && function(raw) % 2 == 1)
}

/// It is a store.
pub open spec fn is_float_store(raw: u32) -> bool {
    opcode(raw) == 57 || opcode(raw) == 61 || (opcode(raw) == 19 && function(raw) >= 8)
}

/// Its address.
pub open spec fn float_address<T: Tlb, C: MipsCache, B: BusDevice>(
    m: Machine<T, C, B>,
    raw: u32,
) -> int {
    if opcode(raw) == 19 {
        after(m.core.gpr@[reg_s(raw)], m.core.gpr@[reg_t(raw)] as int)
    } else {
        address(m, raw)
    }
}

/// Its register.
pub open spec fn float_register(raw: u32) -> int {
    if opcode(raw) != 19 {
        reg_t(raw)
    } else if function(raw) < 8 {
        amount(raw)
    } else {
        reg_d(raw)
    }
}

proof fn lemma_float_memory<T: Tlb, C: MipsCache, B: BusDevice>(
    m: Machine<T, C, B>,
    raw: u32,
    h: InstrHandler,
)
    requires
        floats(m),
        encodes(raw, encoding(h)),
        is_cop1(h),
        m.float_memory(DecodedInstr { handler: h, ..alone(raw) }) is Some,
    ensures
        alone(raw).handler == h,
        ({
            let (s, n) = m.float_memory(alone(raw))->0;
            m.execute(alone(raw)) == (Step::Done(s), n)
        }),
{
    lemma_float(m, raw, h);
    let d = alone(raw);
    assert(crate::fpu::float_op(h) is None && crate::fpu::to_integer(h) is None);
    assert(m.core.float_request(d) is None);
    assert(m.core.float_moved(d) is None);
}

proof fn lemma_float_access<T: Tlb, C: MipsCache, B: BusDevice>(m: Machine<T, C, B>, raw: u32)
    requires
        floats(m),
        is_float_access(raw),
    ensures
        ({
            let va = float_address(m, raw) as u64;
            let r = float_register(raw) as u8;
            let wide = is_double_access(raw);
            let (s, n) = if is_float_store(raw) {
                m.float_store(wide, va, r)
            } else {
                m.float_load(wide, va, r)
            };
            m.execute(alone(raw)) == (Step::Done(s), n)
        }),
{
    lemma_fields(raw);
    let d = alone(raw);
    let va = float_address(m, raw) as u64;
    let op = opcode(raw);
    let f = function(raw);
    if op != 19 {
        if op == 49 {
            lemma_float_memory(m, raw, InstrHandler::Lwc1);
        } else if op == 53 {
            lemma_float_memory(m, raw, InstrHandler::Ldc1);
        } else if op == 57 {
            lemma_float_memory(m, raw, InstrHandler::Swc1);
        } else {
            lemma_float_memory(m, raw, InstrHandler::Sdc1);
        }
        assert(d.imm == crate::instr::imm_signed(raw));
        lemma_numbers(0, 0, crate::instr::imm_signed(raw) as i32, 0);
        assert(m.core.effective(d) == va);
    } else {
        assert(m.core.gpr_at(d.rs).wrapping_add(m.core.gpr_at(d.rt)) == va);
        if f == 0 {
            lemma_float_memory(m, raw, InstrHandler::Lwxc1);
        } else if f == 1 {
            lemma_float_memory(m, raw, InstrHandler::Ldxc1);
        } else if f == 8 {
            lemma_float_memory(m, raw, InstrHandler::Swxc1);
        } else {
            lemma_float_memory(m, raw, InstrHandler::Sdxc1);
        }
    }
}

/// Law: the floating-point loads bring four or eight bytes of memory, the highest first,
/// to a single or a double; their address is the sum of a register and an offset, or of
/// two registers.
pub proof fn law_float_loads<T: Tlb, B: BusDevice>(m: Machine<T, DirectCache, B>, raw: u32)
    requires
        floats(m),
        is_float_access(raw),
        !is_float_store(raw),
        ({
            let va = float_address(m, raw);
            let n = if is_double_access(raw) {
                8int
            } else {
                4
            };
            va % n == 0 && in_memory(m, va, n) && undisturbed(m, AccessType::Read, va)
        }),
    ensures
        ({
            let va = float_address(m, raw);
            let r = float_register(raw);
            let (s, k) = m.execute(alone(raw));
            &&& s == Step::Done(EXEC_COMPLETE) && goes_on(m.core, k.core)
            &&& k.cache == m.cache
            &&& is_double_access(raw) ==> sets_double(m.core, k.core, r, value(bytes_at(m, va, 8)))
            &&& !is_double_access(raw) ==> sets_single(m.core, k.core, r, value(bytes_at(m, va, 4)))
        }),
{
    lemma_float_access(m, raw);
    let va = float_address(m, raw) as u64;
    let wide = is_double_access(raw);
    let n: usize = if wide {
        8
    } else {
        4
    };
    lemma_read(m, va, n);
    lemma_value(bytes_at(m, va as int, n as int));
    let k = m.read_data(false, n, va).1;
    lemma_float_end(
        m,
        k,
        wide,
        float_register(raw) as u8,
        value(bytes_at(m, va as int, n as int)) as u64,
    );
}

/// Law: the floating-point stores bring a single or a double to memory.
pub proof fn law_float_stores<T: Tlb, B: BusDevice>(m: Machine<T, DirectCache, B>, raw: u32)
    requires
        floats(m),
        is_float_access(raw),
        is_float_store(raw),
        ({
            let va = float_address(m, raw);
            let n = if is_double_access(raw) {
                8int
            } else {
                4
            };
            va % n == 0 && in_memory(m, va, n) && undisturbed(m, AccessType::Write, va)
        }),
    ensures
        ({
            let va = float_address(m, raw);
            let r = float_register(raw);
            let (s, k) = m.execute(alone(raw));
            &&& s == Step::Done(EXEC_COMPLETE) && goes_on(m.core, k.core)
            &&& k.core.fpr == m.core.fpr && k.core.gpr == m.core.gpr
            &&& is_double_access(raw) ==> stored(m, k, va, 8, double(m.core, r) as u64)
            &&& !is_double_access(raw) ==> stored(m, k, va, 4, single(m.core, r) as u64)
        }),
{
    lemma_float_access(m, raw);
    let va = float_address(m, raw) as u64;
    let wide = is_double_access(raw);
    let n: usize = if wide {
        8
    } else {
        4
    };
    let r = float_register(raw) as u8;
    lemma_registers(m.core, r);
    let v = m.core.float_operand(wide, r);
    lemma_write(m, va, n, v);
    lemma_cached();
    let k = m.execute(alone(raw)).1;
    let t = k.cache.ram.bytes;
    let at = va - 0xFFFF_FFFF_8000_0000 - m.cache.ram.base;
    assert forall|i: int| 0 <= i < n implies #[trigger] t[at + i] == digit(v, n as int, i) by {
        lemma_digits(v, n as int, i);
    }
}

proof fn lemma_memory_word<T: Tlb, C: MipsCache, B: BusDevice>(
    m: Machine<T, C, B>,
    raw: u32,
    h: InstrHandler,
)
    requires
        encodes(raw, encoding(h)),
        crate::cpu_laws::is_memory_instruction(h),
        opcode(raw) >= 26,
        crate::instr::imm_form(h) == crate::instr::ImmForm::Signed,
    ensures
        alone(raw).handler == h,
        m.core.effective(alone(raw)) == address(m, raw),
        m.memory(alone(raw)) is Some,
        ({
            let (s, n) = m.memory(alone(raw))->0;
            m.execute(alone(raw)) == (Step::Done(s), n)
        }),
{
    reveal(Machine::execute);
    lemma_fields(raw);
    lemma_encoded(raw, h);
    lemma_memory_family(m, alone(raw));
    lemma_not_integer(m, alone(raw));
    assert(alone(raw).imm == crate::instr::imm_signed(raw));
    lemma_numbers(0, 0, crate::instr::imm_signed(raw) as i32, 0);
}

/// Law: the linked loads `ll` and `lld` load as `lw` and `ld` do, and note the block of 16
/// bytes that they read.
pub proof fn law_linked_loads<T: Tlb, B: BusDevice>(m: Machine<T, DirectCache, B>, raw: u32)
    requires
        opcode(raw) == 48 || opcode(raw) == 52,
        ({
            let va = address(m, raw);
            let n = if opcode(raw) == 52 {
                8int
            } else {
                4
            };
            va % n == 0 && in_memory(m, va, n) && undisturbed(m, AccessType::Read, va)
        }),
    ensures
        ({
            let va = address(m, raw);
            let (s, k) = m.execute(alone(raw));
            let block = (va - 0xFFFF_FFFF_8000_0000) / 16;
            &&& s == Step::Done(EXEC_COMPLETE) && goes_on(m.core, k.core)
            &&& reg_t(raw) != 0 ==> k.core.gpr@[reg_t(raw)] == if opcode(raw) == 52 {
                value(bytes_at(m, va, 8))
            } else {
                sign_extended(value(bytes_at(m, va, 4)), 4)
            }
            &&& forall|i: int|
                0 <= i < 32 && i != reg_t(raw) ==> #[trigger] k.core.gpr@[i] == m.core.gpr@[i]
            &&& k.cache.ram == m.cache.ram
            &&& k.cache.llbit && k.cache.lladdr == block && k.core.cp0_lladdr == block
        }),
{
    lemma_fields(raw);
    if opcode(raw) == 48 {
        lemma_memory_word(m, raw, InstrHandler::Ll);
    } else {
        lemma_memory_word(m, raw, InstrHandler::Lld);
    }
    let d = alone(raw);
    let va = address(m, raw) as u64;
    let n: usize = if opcode(raw) == 52 {
        8
    } else {
        4
    };
    lemma_read(m, va, n);
    let s = bytes_at(m, va as int, n as int);
    lemma_value(s);
    lemma_extension(value(s) as u64);
    let (r, k) = m.read_data(false, n, va);
    let v = if n == 4 {
        (value(s) as u64) as i32 as i64 as u64
    } else {
        value(s) as u64
    };
    let k1 = k.with_core(k.core.with_gpr(d.rt, v));
    lemma_reached(k1, va, AccessType::Read);
    lemma_cached();
    lemma_block((va - 0xFFFF_FFFF_8000_0000) as u32);
}

proof fn lemma_block(p: u32)
    ensures
        p >> 4 == p / 16,
        (p as u64) & !0xFu64 == (p / 16 * 16) as u64,
        ((p / 16) as u64) << 4 == (p / 16 * 16) as u64,
{
    crate::bits::lemma_bits_of_word(p);
}

proof fn lemma_block_address(a: u32)
    ensures
        (a as u64) << 4 == a * 16,
{
    crate::bits::lemma_bits_of_word(a);
}

/// Law: the conditional stores `sc` and `scd` store as `sw` and `sd` do, and set their
/// register to 1, if the link is intact and is to the block of their address; they set it
/// to 0, and store nothing, if not. Either way the link is gone.
pub proof fn law_conditional_stores<T: Tlb, B: BusDevice>(m: Machine<T, DirectCache, B>, raw: u32)
    requires
        opcode(raw) == 56 || opcode(raw) == 60,
        reg_t(raw) != 0,
        ({
            let va = address(m, raw);
            let n = if opcode(raw) == 60 {
                8int
            } else {
                4
            };
            va % n == 0 && in_memory(m, va, n) && undisturbed(m, AccessType::Write, va)
        }),
    ensures
        ({
            let va = address(m, raw);
            let n = if opcode(raw) == 60 {
                8int
            } else {
                4
            };
            let (s, k) = m.execute(alone(raw));
            let block = (va - 0xFFFF_FFFF_8000_0000) / 16;
            let done = m.cache.llbit && m.cache.lladdr == block;
            &&& s == Step::Done(EXEC_COMPLETE) && goes_on(m.core, k.core)
            &&& k.core.gpr@[reg_t(raw)] == if done {
                1u64
            } else {
                0
            }
            &&& forall|i: int|
                0 <= i < 32 && i != reg_t(raw) ==> #[trigger] k.core.gpr@[i] == m.core.gpr@[i]
            &&& done ==> stored(m, k, va, n, m.core.gpr@[reg_t(raw)])
            &&& !done ==> k.cache.ram == m.cache.ram
            &&& !k.cache.llbit
        }),
{
    lemma_fields(raw);
    if opcode(raw) == 56 {
        lemma_memory_word(m, raw, InstrHandler::Sc);
    } else {
        lemma_memory_word(m, raw, InstrHandler::Scd);
    }
    let va = address(m, raw) as u64;
    let n: usize = if opcode(raw) == 60 {
        8
    } else {
        4
    };
    lemma_reached(m, va, AccessType::Write);
    lemma_cached();
    let p = (va - 0xFFFF_FFFF_8000_0000) as u32;
    lemma_block(p);
    lemma_block_address(m.cache.lladdr);
    let (tr, m1) = m.nano_translate(AccessType::Write, va);
    let v = m.core.gpr@[reg_t(raw)];
    if m.cache.llbit && m.cache.lladdr == p / 16 {
        lemma_write(m1, va, n, v);
        let k = m.execute(alone(raw)).1;
        let t = k.cache.ram.bytes;
        let at = va - 0xFFFF_FFFF_8000_0000 - m.cache.ram.base;
        assert forall|i: int| 0 <= i < n implies #[trigger] t[at + i] == digit(v, n as int, i) by {
            lemma_digits(v, n as int, i);
        }
    }
}

/// Law: the unaligned loads `lwl`, `lwr`, `ldl` and `ldr` merge the aligned word or
/// doubleword around their address with their register.
pub proof fn law_unaligned_loads<T: Tlb, B: BusDevice>(m: Machine<T, DirectCache, B>, raw: u32)
    requires
        opcode(raw) == 26 || opcode(raw) == 27 || opcode(raw) == 34 || opcode(raw) == 38,
        ({
            let va = address(m, raw);
            let n = if opcode(raw) < 32 {
                8int
            } else {
                4
            };
            in_memory(m, va / n * n, n) && undisturbed(m, AccessType::Read, va / n * n)
        }),
    ensures
        ({
            let va = address(m, raw);
            let op = opcode(raw);
            let n = if op < 32 {
                8int
            } else {
                4
            };
            let mem = value(bytes_at(m, va / n * n, n)) as u64;
            let reg = m.core.gpr@[reg_t(raw)];
            let off = va % n;
            &&& op == 26 ==> crate::words::sets(
                m,
                raw,
                reg_t(raw),
                crate::loadstore::merged_ldl(reg, mem, off as u64) as int,
            )
            &&& op == 27 ==> crate::words::sets(
                m,
                raw,
                reg_t(raw),
                crate::loadstore::merged_ldr(reg, mem, off as u64) as int,
            )
            &&& op == 34 ==> crate::words::sets(
                m,
                raw,
                reg_t(raw),
                crate::alu_laws::extended(
                    crate::loadstore::merged_lwl(reg as u32, mem as u32, off as u32) as int,
                ),
            )
            &&& op == 38 ==> crate::words::sets(
                m,
                raw,
                reg_t(raw),
                crate::alu_laws::extended(
                    crate::loadstore::merged_lwr(reg as u32, mem as u32, off as u32) as int,
                ),
            )
        }),
{
    lemma_fields(raw);
    let op = opcode(raw);
    if op == 26 {
        lemma_memory_word(m, raw, InstrHandler::Ldl);
    } else if op == 27 {
        lemma_memory_word(m, raw, InstrHandler::Ldr);
    } else if op == 34 {
        lemma_memory_word(m, raw, InstrHandler::Lwl);
    } else {
        lemma_memory_word(m, raw, InstrHandler::Lwr);
    }
    let va = address(m, raw) as u64;
    let n: usize = if op < 32 {
        8
    } else {
        4
    };
    let unit = (va as int / n as int * n as int) as u64;
    lemma_window(va);
    lemma_units(va);
    lemma_read(m, unit, n);
    let s = bytes_at(m, unit as int, n as int);
    lemma_value(s);
    let mem = value(s) as u64;
    let reg = m.core.gpr@[reg_t(raw)];
    let off = va as int % n as int;
    lemma_numbers(
        0,
        crate::loadstore::merged_lwl(reg as u32, mem as u32, off as u32),
        0,
        0,
    );
    lemma_numbers(
        0,
        crate::loadstore::merged_lwr(reg as u32, mem as u32, off as u32),
        0,
        0,
    );
}

proof fn lemma_units(va: u64)
    ensures
        va & !3u64 == va - va % 4,
        va & !7u64 == va - va % 8,
{
    crate::bits::lemma_bits_of_double(va);
}

proof fn lemma_masked_byte(o: u64, v: u64, x: u64, s: u64)
    by (bit_vector)
    requires
        s <= 56,
    ensures
        (x >> s) & 0xFF == 0xFF ==> (((o & !x) | (v & x)) >> s) & 0xFF == (v >> s) & 0xFF,
        (x >> s) & 0xFF == 0 ==> (((o & !x) | (v & x)) >> s) & 0xFF == (o >> s) & 0xFF,
{
}

/// What a masked write leaves in each byte of its doubleword.
proof fn lemma_masked<T: Tlb, B: BusDevice>(
    m: Machine<T, DirectCache, B>,
    va: u64,
    v: u64,
    mask: u64,
)
    requires
        va as int % 8 == 0,
        in_memory(m, va as int, 8),
        undisturbed(m, AccessType::Write, va as int),
    ensures
        ({
            let (s, k) = m.write_masked(false, va, v, mask);
            let at = va - 0xFFFF_FFFF_8000_0000 - m.cache.ram.base;
            let o = m.cache.ram.bytes;
            let t = k.cache.ram.bytes;
            &&& s == EXEC_COMPLETE
            &&& same_but_for_memory(m, k)
            &&& k.cache.ram.base == m.cache.ram.base && t.len() == o.len()
            &&& forall|i: int| 0 <= i < o.len() && (i < at || i >= at + 8) ==> #[trigger] t[i] == o[i]
            &&& forall|i: int|
                0 <= i < 8 ==> {
                    &&& byte_at(mask, i) == 0xFF ==> #[trigger] t[at + i] == byte_at(v, i)
                    &&& byte_at(mask, i) == 0 ==> t[at + i] == o[at + i]
                }
        }),
{
    reveal(Machine::write_masked);
    lemma_window(va);
    lemma_cached();
    lemma_reached(m, va, AccessType::Write);
    let p = (va - 0xFFFF_FFFF_8000_0000) as u32;
    let at = va - 0xFFFF_FFFF_8000_0000 - m.cache.ram.base;
    let o = m.cache.ram.bytes;
    let was = o.subrange(at, at + 8);
    let old = m.cache.ram.number(p, 8);
    crate::bytes::law_number_has_its_bytes(was);
    let new = (old & !mask) | (v & mask);
    let k = m.write_masked(false, va, v, mask).1;
    let t = k.cache.ram.bytes;
    assert forall|i: int| 0 <= i < 8 implies {
        &&& byte_at(mask, i) == 0xFF ==> #[trigger] t[at + i] == byte_at(v, i)
        &&& byte_at(mask, i) == 0 ==> t[at + i] == o[at + i]
    } by {
        let s = ((7 - i) * 8) as u64;
        assert(s == (8 * (8nat - 1 - i)) as u64);
        lemma_masked_byte(old, v, mask, s);
        lemma_byte(v >> s);
        lemma_byte(old >> s);
        assert(was[i] == o[at + i]);
        assert(big_endian(old, 8)[i] == was[i]);
        assert(t[at + i] == big_endian(new, 8)[i]);
    }
}

pub(crate) proof fn lemma_byte(x: u64)
    ensures
        ((x & 0xFF) as u8) as u64 == x & 0xFF,
{
    crate::bits::lemma_bits_of_double(x);
}

/// `raw` is an unaligned store: `swl`, `sdl`, `sdr` or `swr`.
pub open spec fn is_unaligned_store(op: int) -> bool {
    op == 42 || op == 44 || op == 45 || op == 46
}

/// The bytes of the doubleword at `va` that an unaligned store writes, by their places in
/// it, and the place in the register of the byte that goes there: the left stores write
/// the first bytes of the register, up to the end of the word or doubleword, and the right
/// ones the last bytes, from its start.
pub open spec fn stores_byte(op: int, va: int, i: int) -> Option<int> {
    let b = va % 8;
    let start = b - b % 4;
    if op == 42 && b <= i <= start + 3 {
        Some(4 + i - b)
    } else if op == 46 && start <= i <= b {
        Some(7 - (b - i))
    } else if op == 44 && b <= i <= 7 {
        Some(i - b)
    } else if op == 45 && 0 <= i <= b {
        Some(7 - (b - i))
    } else {
        None
    }
}

proof fn lemma_unaligned_word<T: Tlb, C: MipsCache, B: BusDevice>(
    m: Machine<T, C, B>,
    raw: u32,
    h: InstrHandler,
)
    requires
        encodes(raw, encoding(h)),
        h == InstrHandler::Swl || h == InstrHandler::Swr || h == InstrHandler::Sdl || h
            == InstrHandler::Sdr,
        is_unaligned_store(opcode(raw)),
    ensures
        ({
            let va = address(m, raw) as u64;
            let (v, mask) = crate::loadstore::part_store(h, m.core.gpr@[reg_t(raw)], va)->0;
            let (s, k) = m.write_masked(false, (va - va % 8) as u64, v, mask);
            let (e, n) = k.finish(s);
            m.execute(alone(raw)) == (Step::Done(e), n)
        }),
{
    lemma_fields(raw);
    lemma_memory_word(m, raw, h);
    lemma_units(address(m, raw) as u64);
}

/// Law: an unaligned store writes the bytes of its register that belong to the word or
/// doubleword of its address, and no other byte of memory.
pub proof fn law_unaligned_stores<T: Tlb, B: BusDevice>(
    m: Machine<T, DirectCache, B>,
    raw: u32,
    i: int,
)
    requires
        is_unaligned_store(opcode(raw)),
        0 <= i < m.cache.ram.bytes.len(),
        ({
            let va = address(m, raw);
            in_memory(m, va - va % 8, 8) && undisturbed(m, AccessType::Write, va - va % 8)
        }),
    ensures
        ({
            let va = address(m, raw);
            let at = va - va % 8 - 0xFFFF_FFFF_8000_0000 - m.cache.ram.base;
            let (s, k) = m.execute(alone(raw));
            let t = k.cache.ram.bytes;
            &&& s == Step::Done(EXEC_COMPLETE) && goes_on(m.core, k.core)
            &&& k.core.gpr == m.core.gpr && k.core.fpr == m.core.fpr
            &&& t.len() == m.cache.ram.bytes.len() && k.cache.ram.base == m.cache.ram.base
            &&& t[i] == if at <= i < at + 8 {
                match stores_byte(opcode(raw), va, i - at) {
                    Some(j) => digit(m.core.gpr@[reg_t(raw)], 8, j),
                    None => m.cache.ram.bytes[i] as int,
                }
            } else {
                m.cache.ram.bytes[i] as int
            }
        }),
{
    lemma_fields(raw);
    let op = opcode(raw);
    let va = address(m, raw) as u64;
    let unit = (va - va % 8) as u64;
    let reg = m.core.gpr@[reg_t(raw)];
    let at = unit - 0xFFFF_FFFF_8000_0000 - m.cache.ram.base;
    let h = if op == 42 {
        InstrHandler::Swl
    } else if op == 44 {
        InstrHandler::Sdl
    } else if op == 45 {
        InstrHandler::Sdr
    } else {
        InstrHandler::Swr
    };
    lemma_unaligned_word(m, raw, h);
    let (v, mask) = crate::loadstore::part_store(h, reg, va)->0;
    lemma_masked(m, unit, v, mask);
    lemma_cached();
    if at <= i < at + 8 {
        let j = i - at;
        let t = m.execute(alone(raw)).1.cache.ram.bytes;
        assert(t[i] == t[at + j]);
        assert(m.cache.ram.bytes[i] == m.cache.ram.bytes[at + j]);
        if op == 42 || op == 46 {
            crate::unaligned_laws::law_unaligned_word_stores(reg, va, j);
        } else {
            crate::unaligned_laws::law_unaligned_double_stores(reg, va, j);
        }
        if let Some(p) = stores_byte(op, va as int, j) {
            lemma_digits(reg, 8, p);
            lemma_byte(reg >> (((7 - p) * 8) as u64));
            if op == 42 || op == 46 {
                lemma_word_digit(reg, p);
            }
        }
    }
}

/// The lower bytes of a register, as those of its lower half.
proof fn lemma_word_digit(reg: u64, p: int)
    requires
        4 <= p < 8,
    ensures
        crate::unaligned_laws::word_byte(reg as u32, p - 4) == byte_at(reg, p),
{
    lemma_lower_bytes(reg);
}

pub(crate) proof fn lemma_lower_bytes(x: u64)
    ensures
        (((x as u32) >> 24u32) & 0xFF) as u64 == (x >> 24u64) & 0xFF,
        (((x as u32) >> 16u32) & 0xFF) as u64 == (x >> 16u64) & 0xFF,
        (((x as u32) >> 8u32) & 0xFF) as u64 == (x >> 8u64) & 0xFF,
        (((x as u32) >> 0u32) & 0xFF) as u64 == (x >> 0u64) & 0xFF,
{
    crate::bits::lemma_bits_of_double(x);
}

/// Law: a step executes the word that is in memory at the program counter, where no
/// interrupt comes first, and no breakpoint.
pub proof fn law_steps_execute_memory<T: Tlb, B: BusDevice>(m: Machine<T, DirectCache, B>)
    requires
        m.core.interrupts == 0,
        m.core.cp0_cause == 0,
        in_memory(m, m.core.pc as int, 4),
        undisturbed(m, AccessType::Fetch, m.core.pc as int),
    ensures
        ({
            let word = value(bytes_at(m, m.core.pc as int, 4)) as u32;
            let (b, n) = m.begun();
            &&& b == crate::exec::Begun::Ready(alone(word))
            &&& same_but_for_memory(m, n) && n.cache == m.cache
            &&& m.step() == (n.execute(alone(word)).0, n.execute(alone(word)).1.step_ended())
        }),
{
    let va = m.core.pc;
    crate::exec::law_a_step_is_its_parts(m);
    reveal(Machine::fetch);
    let core = crate::cpu_core::MipsCore { cycles: m.core.cycles.wrapping_add(1), ..m.core };
    let k = Machine { core, tools: m.tools.profiled(core), ..m };
    lemma_reached(k, va, AccessType::Fetch);
    lemma_cached();
    lemma_no_lines();
    let s = bytes_at(m, va as int, 4);
    lemma_value(s);
    assert(k.poll(k.skip_interrupts) == (None::<u32>, k));
    let (f, n) = k.fetch(false, va);
    assert(f.status == EXEC_COMPLETE);
    assert(crate::exec::ready(f.instr) == alone(value(s) as u32));
}

proof fn lemma_no_lines()
    ensures
        0u64 | (0u32 as u64) == 0,
{
    crate::bits::lemma_constant_bits();
}

} // verus!
