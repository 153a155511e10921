//! Bytes of memory, as a remote debugger and the devices' windows show them, and what the
//! caches are asked to do with them.
use vstd::prelude::*;

use crate::access_laws::{
    address, bytes_at, in_memory, lemma_byte, lemma_cached, lemma_looked_at, lemma_lower_bytes,
    lemma_reached, lemma_routed, lemma_value, undisturbed, value,
};
use crate::alu_laws::lemma_numbers;
use crate::bus::{BusDevice, MipsCache, Tlb};
use crate::bytes::{big_endian, law_number_has_its_bytes, with_bytes};
use crate::cpu_core::AccessType;
use crate::cpu_laws::{lemma_memory_family, lemma_not_integer};
use crate::fpu::Step;
use crate::gdb::{in_word, word_of, word_part, word_with};
use crate::instr::InstrHandler;
use crate::loadstore::alone;
use crate::machine::Machine;
use crate::ram::DirectCache;
use crate::status::EXEC_COMPLETE;
use crate::ultra64::{Ultra64State, RAMROM_BASE, RAMROM_SIZE, RAMROM_TOTAL};
use crate::words::{goes_on, lemma_encoded, lemma_fields, opcode, reg_t};

verus! {

/// All words that hold one of the `n` bytes at `addr` are in memory.
pub open spec fn words_in_memory<T: Tlb, B: BusDevice>(
    m: Machine<T, DirectCache, B>,
    addr: int,
    n: int,
) -> bool {
    in_memory(m, addr - addr % 4, (addr % 4 + n + 3) / 4 * 4)
}

/// Law: a remote debugger reads memory as it is, byte by byte, wherever the bytes begin
/// and end.
pub proof fn law_debuggers_read_memory<T: Tlb, B: BusDevice>(
    m: Machine<T, DirectCache, B>,
    bytes: Seq<u8>,
    addr: u64,
    n: nat,
)
    requires
        words_in_memory(m, addr as int, n as int),
    ensures
        m.gdb_read(bytes, addr, n).0 == bytes + bytes_at(m, addr as int, n as int),
        m.gdb_read(bytes, addr, n).1.cache == m.cache,
    decreases n,
{
    if n == 0 {
        assert(bytes + bytes_at(m, addr as int, 0) =~= bytes);
    } else {
        let off = addr as int % 4;
        let at = (addr - addr % 4) as u64;
        let k = in_word(addr, n);
        lemma_looked_at(m, at, 4);
        let (r, m1) = m.debug_read(at, 4);
        let s = bytes_at(m, at as int, 4);
        lemma_value(s);
        law_number_has_its_bytes(s);
        let part = word_part(r, off, k);
        assert(part =~= s.subrange(off, off + k));
        let next = addr.wrapping_add(k as u64);
        assert(next == addr + k);
        if n - k > 0 {
            law_debuggers_read_memory(m1, bytes + part, next, (n - k) as nat);
        } else {
            assert(m1.gdb_read(bytes + part, next, 0) == (bytes + part, m1));
            assert(bytes_at(m1, next as int, 0) =~= Seq::<u8>::empty());
        }
        assert(bytes + bytes_at(m, addr as int, n as int) =~= (bytes + part) + bytes_at(
            m1,
            next as int,
            n - k,
        ));
    }
}

proof fn lemma_word_bytes(a: u32, b: u32, c: u32, d: u32)
    by (bit_vector)
    requires
        a <= 0xFF,
        b <= 0xFF,
        c <= 0xFF,
        d <= 0xFF,
    ensures
        ((((a << 24) | (b << 16) | (c << 8) | d) as u64) >> 24u64) & 0xff == a as u64,
        ((((a << 24) | (b << 16) | (c << 8) | d) as u64) >> 16u64) & 0xff == b as u64,
        ((((a << 24) | (b << 16) | (c << 8) | d) as u64) >> 8u64) & 0xff == c as u64,
        ((((a << 24) | (b << 16) | (c << 8) | d) as u64) >> 0u64) & 0xff == d as u64,
{
}

proof fn lemma_word_of(b: Seq<u8>)
    requires
        b.len() == 4,
    ensures
        big_endian(word_of(b) as u64, 4) == b,
{
    lemma_word_bytes(b[0] as u32, b[1] as u32, b[2] as u32, b[3] as u32);
    let s = big_endian(word_of(b) as u64, 4);
    assert(s[0] == b[0]);
    assert(s[1] == b[1]);
    assert(s[2] == b[2]);
    assert(s[3] == b[3]);
    assert(s =~= b);
}

proof fn lemma_put<T: Tlb, B: BusDevice>(m: Machine<T, DirectCache, B>, va: u64, v: u64)
    requires
        va as int % 4 == 0,
        in_memory(m, va as int, 4),
    ensures
        ({
            let n = m.debug_write(va, v, 4).1;
            let at = va - 0xFFFF_FFFF_8000_0000 - m.cache.ram.base;
            &&& n.cache.ram.base == m.cache.ram.base
            &&& n.cache.ram.bytes == with_bytes(m.cache.ram.bytes, at, big_endian(v, 4))
        }),
{
    reveal(Machine::write_data);
    crate::access_laws::lemma_window(va);
    lemma_cached();
    lemma_routed(m, true, va, AccessType::Debug);
}

/// Law: a remote debugger writes just the bytes that it means to.
pub proof fn law_debuggers_write_memory<T: Tlb, B: BusDevice>(
    m: Machine<T, DirectCache, B>,
    addr: u64,
    d: Seq<u8>,
)
    requires
        words_in_memory(m, addr as int, d.len() as int),
    ensures
        ({
            let n = m.gdb_write(addr, d);
            let at = addr - 0xFFFF_FFFF_8000_0000 - m.cache.ram.base;
            &&& n.cache.ram.base == m.cache.ram.base
            &&& n.cache.ram.bytes == with_bytes(m.cache.ram.bytes, at, d)
        }),
    decreases d.len(),
{
    let old = m.cache.ram.bytes;
    let place = addr - 0xFFFF_FFFF_8000_0000 - m.cache.ram.base;
    if d.len() == 0 {
        assert(with_bytes(old, place, d) =~= old);
    } else {
        let off = addr as int % 4;
        let at = (addr - addr % 4) as u64;
        let k = in_word(addr, d.len()) as int;
        let first = at - 0xFFFF_FFFF_8000_0000 - m.cache.ram.base;
        lemma_looked_at(m, at, 4);
        let s = bytes_at(m, at as int, 4);
        lemma_value(s);
        law_number_has_its_bytes(s);
        let (r, m0) = m.debug_read(at, 4);
        let w = value(s) as u32;
        let b = if k == 4 {
            d.take(4)
        } else {
            word_with(w, off, d.take(k))
        };
        lemma_word_of(b);
        let m1 = if k == 4 {
            m.debug_write(at, word_of(b) as u64, 4).1
        } else {
            m0.debug_write(at, word_of(b) as u64, 4).1
        };
        lemma_put(m, at, word_of(b) as u64);
        lemma_put(m0, at, word_of(b) as u64);
        let one = with_bytes(old, place, d.take(k));
        assert(m1.cache.ram.bytes =~= one) by {
            assert forall|i: int| 0 <= i < old.len() implies m1.cache.ram.bytes[i] == one[i] by {
                if first <= i < first + 4 {
                    assert(s[i - first] == old[i]);
                }
            }
        }
        let next = addr.wrapping_add(k as u64);
        if d.len() > k {
            law_debuggers_write_memory(m1, next, d.skip(k));
        } else {
            assert(d.skip(k) =~= Seq::<u8>::empty());
            assert(m1.gdb_write(next, d.skip(k)) == m1);
        }
        let n = m.gdb_write(addr, d);
        assert(n.cache.ram.bytes =~= with_bytes(old, place, d));
    }
}

/// The window of the board shows `n` bytes of its memory at `addr`, from place `at` on.
pub open spec fn shows(s: Ultra64State, addr: u32, n: int, at: int) -> bool {
    &&& RAMROM_BASE <= addr
    &&& addr + n <= RAMROM_BASE + RAMROM_SIZE
    &&& at == s.board.regs.dram_page * RAMROM_SIZE + (addr - RAMROM_BASE)
    &&& at + n <= s.ramrom.len()
    &&& at - addr % 4 + 4 <= s.ramrom.len()
    &&& s.ramrom.len() == RAMROM_TOTAL
}

proof fn lemma_window_word(s: Ultra64State, addr: u32, at: int)
    requires
        shows(s, addr, 4, at),
        at + 4 <= RAMROM_TOTAL,
    ensures
        s.read32(addr).0 == value(s.ramrom.subrange(at, at + 4)),
        s.read32(addr).1 == s,
{
    lemma_value(s.ramrom.subrange(at, at + 4));
}

/// Law: the window shows the bytes of the board's memory as they are, in the page that was
/// selected: one, two, four or eight of them, the highest first.
pub proof fn law_windows_show_memory(s: Ultra64State, addr: u32, n: usize, at: int)
    requires
        n == 1 || n == 2 || n == 4 || n == 8,
        addr % 4 == 0 || n < 4,
        addr as int % n as int == 0 || n == 8,
        shows(s, addr, n as int, at),
    ensures
        s.read(n, addr).0 == value(s.ramrom.subrange(at, at + n)),
        s.read(n, addr).1 == s,
{
    let off = addr as int % 4;
    let word = (addr - addr % 4) as u32;
    let first = at - off;
    let b = s.ramrom.subrange(first, first + 4);
    let w = value(b) as u64;
    lemma_value(b);
    law_number_has_its_bytes(b);
    lemma_window_word(s, word, first);
    lemma_lower_bytes(w);
    lemma_word_parts(w as u32);
    lemma_byte(w >> 24u64);
    lemma_byte(w >> 16u64);
    lemma_byte(w >> 8u64);
    lemma_byte(w >> 0u64);
    assert(off == 0 || off == 1 || off == 2 || off == 3);
    let part = s.ramrom.subrange(at, at + n);
    lemma_value(part);
    if n == 1 {
        assert(part.drop_last() =~= Seq::<u8>::empty());
        assert(value(part.drop_last()) == 0);
        assert(part[0] == b[off]);
        assert(value(part) == b[off]);
        assert(big_endian(w, 4)[off] == b[off]);
    } else if n == 2 {
        let one = part.drop_last();
        assert(one.drop_last() =~= Seq::<u8>::empty());
        assert(value(one.drop_last()) == 0);
        assert(one[0] == b[off] && part[1] == b[off + 1]);
        assert(value(one) == b[off]);
        assert(value(part) == b[off] * 0x100 + b[off + 1]);
        assert(big_endian(w, 4)[off] == b[off]);
        assert(big_endian(w, 4)[off + 1] == b[off + 1]);
    } else if n == 8 {
        let next = (addr + 4) as u32;
        lemma_window_word(s, next, at + 4);
        let c = s.ramrom.subrange(at + 4, at + 8);
        lemma_value(c);
        lemma_joined_values(b, c);
        assert(part =~= b + c);
        lemma_halves_joined(value(b) as u32, value(c) as u32);
    }
}

proof fn lemma_joined_values(b: Seq<u8>, c: Seq<u8>)
    requires
        b.len() == 4,
        c.len() == 4,
    ensures
        value(b + c) == value(b) * 0x1_0000_0000 + value(c),
{
    reveal_with_fuel(value, 6);
    let s = b + c;
    assert(s.drop_last() =~= b + c.drop_last());
    assert((b + c.drop_last()).drop_last() =~= b + c.drop_last().drop_last());
    assert((b + c.drop_last().drop_last()).drop_last() =~= b
        + c.drop_last().drop_last().drop_last());
    assert((b + c.drop_last().drop_last().drop_last()).drop_last() =~= b);
}

proof fn lemma_word_parts(w: u32)
    by (bit_vector)
    ensures
        (w >> 16u32) & 0xFFFF == ((w >> 24u32) & 0xFF) * 0x100 + ((w >> 16u32) & 0xFF),
        (w >> 0u32) & 0xFFFF == ((w >> 8u32) & 0xFF) * 0x100 + ((w >> 0u32) & 0xFF),
{
}

proof fn lemma_halves_joined(a: u32, b: u32)
    by (bit_vector)
    ensures
        ((a as u64) << 32) | (b as u64) == a * 0x1_0000_0000 + b,
{
}

proof fn lemma_cache_kind(op: u32)
    by (bit_vector)
    ensures
        (op & 0x1C) / 4 == op / 4 % 8,
        (op & 0x1C) % 4 == 0u32,
{
}

/// Law: `cache` does the operation of its second field, whose upper three bits are its
/// kind: from 3 on they are for what is at the physical address of their address, 2 takes
/// TagLo, and 1 brings a tag to TagLo.
pub proof fn law_cache_words<T: Tlb, C: MipsCache, B: BusDevice>(m: Machine<T, C, B>, raw: u32)
    requires
        opcode(raw) == 47,
        undisturbed(m, AccessType::Read, address(m, raw)),
        0xFFFF_FFFF_8000_0000 <= address(m, raw) < 0xFFFF_FFFF_A000_0000,
    ensures
        ({
            let va = address(m, raw) as u64;
            let kind = reg_t(raw) / 4;
            let (s, n) = m.execute(alone(raw));
            let (tag, cache) = C::op_result(
                m.cache,
                reg_t(raw) as u32,
                va,
                if kind >= 3 {
                    (va - 0xFFFF_FFFF_8000_0000) as u64
                } else if kind == 2 {
                    m.core.cp0_taglo as u64
                } else {
                    va
                },
            );
            &&& s == Step::Done(EXEC_COMPLETE) && goes_on(m.core, n.core)
            &&& n.cache == cache
            &&& n.core.cp0_taglo == if kind == 1 {
                tag
            } else {
                m.core.cp0_taglo
            }
            &&& n.core.gpr == m.core.gpr && n.core.fpr == m.core.fpr
        }),
{
    let va = address(m, raw) as u64;
    lemma_cache_word(m, raw);
    lemma_fields(raw);
    lemma_cache_kind(reg_t(raw) as u32);
    lemma_reached(m, va, AccessType::Read);
    lemma_cached();
    assert(m.cop0_usable());
}

proof fn lemma_cache_word<T: Tlb, C: MipsCache, B: BusDevice>(m: Machine<T, C, B>, raw: u32)
    requires
        opcode(raw) == 47,
    ensures
        ({
            let (s, n) = m.cache_instruction(alone(raw));
            m.execute(alone(raw)) == (Step::Done(s), n)
        }),
        m.core.effective(alone(raw)) == address(m, raw),
{
    reveal(Machine::execute);
    lemma_fields(raw);
    lemma_encoded(raw, InstrHandler::Cache);
    lemma_memory_family(m, alone(raw));
    lemma_not_integer(m, alone(raw));
    assert(alone(raw).imm == crate::instr::imm_signed(raw));
    lemma_numbers(0, 0, crate::instr::imm_signed(raw) as i32, 0);
}

} // verus!
