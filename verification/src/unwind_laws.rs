//! The unwinder finds what prologues have saved.
use vstd::prelude::*;

use crate::access_laws::{
    address, bytes_at, in_memory, law_stores, law_stores_load_back, lemma_looked_at, store_bytes,
    undisturbed, value,
};
use crate::bus::{BusDevice, MipsCache, Tlb};
use crate::cpu_core::AccessType;
use crate::loadstore::alone;
use crate::machine::Machine;
use crate::ram::DirectCache;
use crate::unwind::Prologue;
use crate::words::{after, lemma_fields, offset, opcode, reg_s, reg_t};

verus! {

/// `raw` stores the return address to the stack: `sw` or `sd` of register 31, from 29.
pub open spec fn saves_return(raw: u32) -> bool {
    (opcode(raw) == 43 || opcode(raw) == 63) && reg_s(raw) == 29 && reg_t(raw) == 31
}

/// `raw` lowers the stack pointer: `addiu` or `daddiu` of a negative number to register 29.
pub open spec fn lowers_stack(raw: u32) -> bool {
    (opcode(raw) == 9 || opcode(raw) == 25) && reg_s(raw) == 29 && reg_t(raw) == 29 && offset(raw)
        < 0
}

/// The instruction word in memory at `va`.
pub open spec fn word_at<T: Tlb, B: BusDevice>(m: Machine<T, DirectCache, B>, va: int) -> u32 {
    value(bytes_at(m, va, 4)) as u32
}

/// The code from `start` up to `pc` is in memory, and not longer than a search goes.
pub open spec fn has_code<T: Tlb, B: BusDevice>(
    m: Machine<T, DirectCache, B>,
    start: u64,
    pc: u64,
) -> bool {
    start <= pc <= start + 1024 && forall|a: int|
        start <= a < pc ==> #[trigger] in_memory(m, a, 4)
}

/// What is found from `at` on, where the return address is saved by the word at `save`
/// alone, and the stack pointer lowered by the word at `lower` alone.
proof fn lemma_search<T: Tlb, B: BusDevice>(
    m: Machine<T, DirectCache, B>,
    p: Prologue,
    start: u64,
    at: int,
    pc: u64,
    save: int,
    lower: int,
)
    requires
        has_code(m, start, pc),
        start <= at,
        at < pc + 4,
        forall|a: int|
            at <= a < pc && (a - at) % 4 == 0 && a > save ==> !saves_return(
                #[trigger] word_at(m, a),
            ),
        forall|a: int|
            at <= a < pc && (a - at) % 4 == 0 && a != lower ==> !lowers_stack(
                #[trigger] word_at(m, a),
            ),
        save >= at ==> (save - at) % 4 == 0 && save < pc && saves_return(word_at(m, save)),
        lower >= at ==> (lower - at) % 4 == 0 && lower < pc && lowers_stack(word_at(m, lower)),
    ensures
        ({
            let (q, n) = m.prologue_from(p, start, at, pc);
            &&& n == m
            &&& q.saved_ra == if save >= at {
                let w = word_at(m, save);
                Some(
                    (
                        offset(w) as i64,
                        if opcode(w) == 63 {
                            8usize
                        } else {
                            4
                        },
                    ),
                )
            } else {
                p.saved_ra
            }
            &&& q.frame_size == if lower >= at {
                after(p.frame_size, -offset(word_at(m, lower)))
            } else {
                p.frame_size as int
            }
        }),
    decreases pc + 4 - at,
{
    if at < pc {
        assert(in_memory(m, at, 4));
        lemma_looked_at(m, at as u64, 4);
        let w = word_at(m, at);
        lemma_seen(p, w);
        assert(at == save || at != save);
        assert(w == word_at(m, at));
        assert forall|a: int|
            at + 4 <= a < pc && (a - (at + 4)) % 4 == 0 && a > save implies !saves_return(
            #[trigger] word_at(m, a),
        ) by {
            assert((a - at) % 4 == 0);
        }
        assert forall|a: int|
            at + 4 <= a < pc && (a - (at + 4)) % 4 == 0 && a != lower implies !lowers_stack(
            #[trigger] word_at(m, a),
        ) by {
            assert((a - at) % 4 == 0);
        }
        lemma_search(m, p.seen(w), start, at + 4, pc, save, lower);
    }
}

proof fn lemma_low_half(w: u32)
    ensures
        w % 0x1_0000 < 0x8000 ==> ((w & 0xFFFF) as i16) == w % 0x1_0000,
        w % 0x1_0000 >= 0x8000 ==> ((w & 0xFFFF) as i16) == w % 0x1_0000 - 0x1_0000,
{
    crate::bits::lemma_bits_of_word(w);
}

/// What one word adds to what was seen.
proof fn lemma_seen(p: Prologue, w: u32)
    ensures
        saves_return(w) ==> p.seen(w) == (Prologue {
            saved_ra: Some(
                (
                    offset(w) as i64,
                    if opcode(w) == 63 {
                        8usize
                    } else {
                        4
                    },
                ),
            ),
            ..p
        }),
        lowers_stack(w) ==> p.seen(w).saved_ra == p.saved_ra && p.seen(w).frame_size == after(
            p.frame_size,
            -offset(w),
        ),
        !saves_return(w) && !lowers_stack(w) ==> p.seen(w) == p,
{
    lemma_fields(w);
    lemma_low_half(w);
}

/// Law: the unwinder finds the return address. Where the last store of register 31 to the
/// stack that the current function has executed is the word `w`, `sw` or `sd`, and the
/// bytes that it wrote are still there, the function returns to what the register held:
/// to all of it where `sd` stored it, and to its lower half where `sw` did.
pub proof fn law_return_addresses_are_found<T: Tlb, B: BusDevice>(
    before: Machine<T, DirectCache, B>,
    m: Machine<T, DirectCache, B>,
    start: u64,
    save: int,
)
    requires
        m.tools.symbols.nearest(m.core.pc) matches Some((a, _)) && a == start,
        has_code(m, start, m.core.pc),
        start <= save < m.core.pc,
        (save - start) % 4 == 0,
        saves_return(word_at(m, save)),
        forall|a: int|
            save < a < m.core.pc && (a - start) % 4 == 0 ==> !saves_return(#[trigger] word_at(m, a)),
        ({
            let w = word_at(m, save);
            let va = address(before, w);
            let n = store_bytes(opcode(w));
            let k = before.execute(alone(w)).1;
            &&& before.skip_breakpoints
            &&& va % n == 0 && in_memory(before, va, n)
            &&& undisturbed(before, AccessType::Write, va)
            &&& m.core.gpr@[29] == before.core.gpr@[29]
            &&& in_memory(m, va, n) && bytes_at(m, va, n) == bytes_at(k, va, n)
        }),
    ensures
        m.return_address().0 == if opcode(word_at(m, save)) == 63 {
            before.core.gpr@[31] as int
        } else {
            before.core.gpr@[31] as int % 0x1_0000_0000
        },
{
    let w = word_at(m, save);
    let va = address(before, w);
    let n = store_bytes(opcode(w));
    let k = before.execute(alone(w)).1;
    law_stores(before, w);
    law_stores_load_back(before, k, va, n, before.core.gpr@[31]);
    lemma_last_save(m, Prologue::none(), start, start as int, m.core.pc, save);
    lemma_place(m.core.gpr@[29], w);
    lemma_looked_at(m, va as u64, n as usize);
}

proof fn lemma_place(sp: u64, w: u32)
    ensures
        sp.wrapping_add(offset(w) as i64 as u64) == after(sp, offset(w)),
{
    crate::alu_laws::lemma_numbers(0, 0, 0, offset(w) as i64);
}

/// The last store of the return address is the one that is found.
proof fn lemma_last_save<T: Tlb, B: BusDevice>(
    m: Machine<T, DirectCache, B>,
    p: Prologue,
    start: u64,
    at: int,
    pc: u64,
    save: int,
)
    requires
        has_code(m, start, pc),
        start <= at < pc + 4,
        (at - start) % 4 == 0,
        (save - start) % 4 == 0,
        save < pc,
        save >= start && saves_return(word_at(m, save)),
        forall|a: int|
            save < a < pc && (a - start) % 4 == 0 ==> !saves_return(#[trigger] word_at(m, a)),
        save < at ==> p.saved_ra == Some(
            (
                offset(word_at(m, save)) as i64,
                if opcode(word_at(m, save)) == 63 {
                    8usize
                } else {
                    4
                },
            ),
        ),
    ensures
        m.prologue_from(p, start, at, pc).1 == m,
        m.prologue_from(p, start, at, pc).0.saved_ra == Some(
            (
                offset(word_at(m, save)) as i64,
                if opcode(word_at(m, save)) == 63 {
                    8usize
                } else {
                    4
                },
            ),
        ),
    decreases pc + 4 - at,
{
    if at < pc {
        assert(in_memory(m, at, 4));
        lemma_looked_at(m, at as u64, 4);
        lemma_seen(p, word_at(m, at));
        lemma_last_save(m, p.seen(word_at(m, at)), start, at + 4, pc, save);
    }
}

/// Law: the unwinder finds the caller's frame. Where the current function has lowered the
/// stack pointer once, from `sp` to what it is, and has then stored its return address as
/// above, the caller continues at the return address with the stack pointer `sp`.
pub proof fn law_frames_are_found<T: Tlb, B: BusDevice>(
    before: Machine<T, DirectCache, B>,
    m: Machine<T, DirectCache, B>,
    start: u64,
    pc: u64,
    lower: int,
    save: int,
    sp: u64,
)
    requires
        m.tools.symbols.nearest(pc) matches Some((a, _)) && a == start,
        has_code(m, start, pc),
        start <= lower < pc,
        start <= save < pc,
        (lower - start) % 4 == 0,
        (save - start) % 4 == 0,
        saves_return(word_at(m, save)),
        lowers_stack(word_at(m, lower)),
        forall|a: int|
            start <= a < pc && (a - start) % 4 == 0 && a > save ==> !saves_return(
                #[trigger] word_at(m, a),
            ),
        forall|a: int|
            start <= a < pc && (a - start) % 4 == 0 && a != lower ==> !lowers_stack(
                #[trigger] word_at(m, a),
            ),
        after(sp, offset(word_at(m, lower))) == before.core.gpr@[29],
        ({
            let w = word_at(m, save);
            let va = address(before, w);
            let n = store_bytes(opcode(w));
            let k = before.execute(alone(w)).1;
            &&& before.skip_breakpoints
            &&& va % n == 0 && in_memory(before, va, n)
            &&& undisturbed(before, AccessType::Write, va)
            &&& in_memory(m, va, n) && bytes_at(m, va, n) == bytes_at(k, va, n)
        }),
    ensures
        ({
            let ra = before.core.gpr@[31] as int;
            let back = if opcode(word_at(m, save)) == 63 {
                ra
            } else {
                ra % 0x1_0000_0000
            };
            match m.caller(pc, before.core.gpr@[29]).0 {
                Some((a, s)) => back != 0 && a == back && s == sp,
                None => back == 0,
            }
        }),
{
    let w = word_at(m, save);
    let va = address(before, w);
    let n = store_bytes(opcode(w));
    let k = before.execute(alone(w)).1;
    law_stores(before, w);
    law_stores_load_back(before, k, va, n, before.core.gpr@[31]);
    lemma_search(m, Prologue::none(), start, start as int, pc, save, lower);
    lemma_place(before.core.gpr@[29], w);
    lemma_looked_at(m, va as u64, n as usize);
}

/// Law: where the function has saved nothing, its return address is in the register.
pub proof fn law_leaves_return_by_the_register<T: Tlb, B: BusDevice>(
    m: Machine<T, DirectCache, B>,
    start: u64,
)
    requires
        m.tools.symbols.nearest(m.core.pc) matches Some((a, _)) && a == start,
        has_code(m, start, m.core.pc),
        forall|a: int|
            start <= a < m.core.pc && (a - start) % 4 == 0 ==> !saves_return(
                #[trigger] word_at(m, a),
            ),
        forall|a: int|
            start <= a < m.core.pc && (a - start) % 4 == 0 ==> !lowers_stack(
                #[trigger] word_at(m, a),
            ),
    ensures
        m.return_address().0 == m.core.gpr@[31],
        m.core.gpr@[31] != 0 && m.core.gpr@[31] != m.core.pc ==> m.caller(
            m.core.pc,
            m.core.gpr@[29],
        ).0 == Some((m.core.gpr@[31], m.core.gpr@[29])),
{
    lemma_search(m, Prologue::none(), start, start as int, m.core.pc, start - 1, start - 1);
}

} // verus!
