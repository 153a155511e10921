//! Instruction words as numbers: the fields, and what executing a word leaves behind.
use vstd::prelude::*;

use crate::alu::{alu_dest, alu_result, Computed};
use crate::bus::{BusDevice, MipsCache, Tlb};
use crate::cpu_core::MipsCore;
use crate::fpu::Step;
use crate::instr::{
    encodes, encoding, field_funct, field_op, field_rd, field_rs, field_rt, field_sa, imm_branch,
    imm_jump, imm_signed, imm_unsigned, imm_upper, is_operation, law_every_word_has_an_operation,
    law_immediate_values, law_one_operation_per_word, operation, signed16, InstrHandler,
};
use crate::loadstore::alone;
use crate::machine::Machine;
use crate::status::EXEC_COMPLETE;

verus! {

/// The six highest bits of a word.
pub open spec fn opcode(raw: u32) -> int {
    raw as int / 0x400_0000
}

/// The first source register.
pub open spec fn reg_s(raw: u32) -> int {
    raw as int / 0x20_0000 % 32
}

/// The second register.
pub open spec fn reg_t(raw: u32) -> int {
    raw as int / 0x1_0000 % 32
}

/// The third register.
pub open spec fn reg_d(raw: u32) -> int {
    raw as int / 0x800 % 32
}

/// The fourth field of five bits: a distance, or a register.
pub open spec fn amount(raw: u32) -> int {
    raw as int / 0x40 % 32
}

/// The six lowest bits.
pub open spec fn function(raw: u32) -> int {
    raw as int % 64
}

/// The sixteen lowest bits, as a signed number.
pub open spec fn offset(raw: u32) -> int {
    signed16(raw as int % 0x1_0000)
}

/// The sixteen lowest bits, as a number.
pub open spec fn half(raw: u32) -> int {
    raw as int % 0x1_0000
}

/// `v` as a signed number of 64 bits.
pub open spec fn signed(v: u64) -> int {
    if v < 0x8000_0000_0000_0000 {
        v as int
    } else {
        v - 0x1_0000_0000_0000_0000
    }
}

/// The lower half of `v`.
pub open spec fn low(v: u64) -> int {
    v as int % 0x1_0000_0000
}

/// The lower half of `v` as a signed number.
pub open spec fn signed_low(v: u64) -> int {
    if low(v) < 0x8000_0000 {
        low(v)
    } else {
        low(v) - 0x1_0000_0000
    }
}

/// The address `k` bytes after `pc`.
pub open spec fn after(pc: u64, k: int) -> int {
    (pc + k) % 0x1_0000_0000_0000_0000
}

/// The processor goes from `c` to `n` past an instruction that is no jump: to the target
/// of a jump in whose delay slot it was, else to the next one.
pub open spec fn goes_on(c: MipsCore, n: MipsCore) -> bool {
    &&& !n.in_delay_slot
    &&& n.pc == if c.in_delay_slot {
        c.delay_slot_target as int
    } else {
        after(c.pc, 4)
    }
}

/// All that an instruction between registers has no business with stays as it was.
pub open spec fn same_elsewhere<T: Tlb, C: MipsCache, B: BusDevice>(
    m: Machine<T, C, B>,
    n: Machine<T, C, B>,
) -> bool {
    &&& n.cache == m.cache && n.sysad == m.sysad && n.tlb == m.tlb
    &&& n.core.fpr == m.core.fpr && n.core.cp0_status == m.core.cp0_status
    &&& n.core.cp0_cause == m.core.cp0_cause && n.core.cp0_epc == m.core.cp0_epc
}

/// Executing `raw` puts `v` into register `r`, if that is not the zero register, and does
/// nothing else.
pub open spec fn sets<T: Tlb, C: MipsCache, B: BusDevice>(
    m: Machine<T, C, B>,
    raw: u32,
    r: int,
    v: int,
) -> bool {
    let (s, n) = m.execute(alone(raw));
    &&& s == Step::Done(EXEC_COMPLETE)
    &&& r != 0 ==> n.core.gpr@[r] == v
    &&& forall|i: int|
        0 <= i < 32 && (i != r || r == 0) ==> #[trigger] n.core.gpr@[i] == m.core.gpr@[i]
    &&& n.core.hi == m.core.hi && n.core.lo == m.core.lo
    &&& same_elsewhere(m, n)
    &&& goes_on(m.core, n.core)
}

/// Executing `raw` raises exception `code`, and sets no register.
pub open spec fn raises<T: Tlb, C: MipsCache, B: BusDevice>(
    m: Machine<T, C, B>,
    raw: u32,
    code: int,
) -> bool {
    let (s, n) = m.execute(alone(raw));
    &&& s matches Step::Done(w) && w == 0x800_0000 + 4 * code
    &&& n.core.gpr@ == m.core.gpr@
    &&& n.core.hi == m.core.hi && n.core.lo == m.core.lo
    &&& n.core.cp0_cause as int / 4 % 32 == code
}

proof fn lemma_bits(raw: u32)
    ensures
        (raw >> 26) & 0x3F == raw / 0x400_0000,
        (raw >> 21) & 0x1F == raw / 0x20_0000 % 32,
        (raw >> 16) & 0x1F == raw / 0x1_0000 % 32,
        (raw >> 11) & 0x1F == raw / 0x800 % 32,
        (raw >> 6) & 0x1F == raw / 0x40 % 32,
        raw & 0x3F == raw % 64,
        1u8 & 2u8 == 0,
        raw < 32 ==> raw & 0x1F == raw,
        (raw & 0x1F) << 2 == 4 * (raw % 32),
        (0x800_0000u32 | ((raw & 0x1F) << 2)) == 0x800_0000 + 4 * (raw % 32),
        (0x800_0000u32 | ((raw & 0x1F) << 2)) & 0x7C == 4 * (raw % 32),
{
    crate::bits::lemma_bits_of_word(raw);
}

/// The fields, and the operation, of a word that encodes `h`.
pub(crate) proof fn lemma_fields(raw: u32)
    ensures
        field_op(raw) == opcode(raw),
        field_rs(raw) == reg_s(raw),
        field_rt(raw) == reg_t(raw),
        field_rd(raw) == reg_d(raw),
        field_sa(raw) == amount(raw),
        field_funct(raw) == function(raw),
        ({
            let d = alone(raw);
            &&& d.raw == raw
            &&& d.rs == reg_s(raw) && d.rt == reg_t(raw) && d.rd == reg_d(raw)
            &&& d.sa == amount(raw) && d.funct == function(raw)
            &&& d.handler == operation(raw)
        }),
        imm_signed(raw) as i32 == offset(raw),
        imm_branch(raw) as i32 == 4 * offset(raw),
        imm_unsigned(raw) == half(raw),
        imm_upper(raw) == half(raw) * 0x1_0000,
        imm_jump(raw) == (raw as int % 0x400_0000) * 4,
{
    lemma_bits(raw);
    law_immediate_values(raw);
}

pub(crate) proof fn lemma_encoded(raw: u32, h: InstrHandler)
    requires
        encodes(raw, encoding(h)),
    ensures
        alone(raw).handler == h,
{
    lemma_bits(raw);
    law_every_word_has_an_operation(raw);
    assert(is_operation(raw, h));
    law_one_operation_per_word(raw, h, operation(raw));
}

pub(crate) proof fn lemma_sets<T: Tlb, C: MipsCache, B: BusDevice>(
    m: Machine<T, C, B>,
    raw: u32,
    h: InstrHandler,
    v: u64,
)
    requires
        encodes(raw, encoding(h)),
        alu_result(
            alone(raw),
            m.core.gpr@[reg_s(raw)],
            m.core.gpr@[reg_t(raw)],
        ) == Some(Computed::Value(v)),
    ensures
        sets(m, raw, alu_dest(alone(raw)) as int, v as int),
{
    reveal(Machine::execute);
    lemma_fields(raw);
    lemma_encoded(raw, h);
}

pub(crate) proof fn lemma_keeps<T: Tlb, C: MipsCache, B: BusDevice>(
    m: Machine<T, C, B>,
    raw: u32,
    h: InstrHandler,
)
    requires
        encodes(raw, encoding(h)),
        alu_result(
            alone(raw),
            m.core.gpr@[reg_s(raw)],
            m.core.gpr@[reg_t(raw)],
        ) == Some(Computed::Keep),
    ensures
        sets(m, raw, 0, 0),
{
    reveal(Machine::execute);
    lemma_fields(raw);
    lemma_encoded(raw, h);
}

pub(crate) proof fn lemma_raises<T: Tlb, C: MipsCache, B: BusDevice>(
    m: Machine<T, C, B>,
    raw: u32,
    code: u32,
)
    requires
        code < 32,
        m.execute(alone(raw)) == (Step::Done(m.trap(code).0), m.trap(code).1),
    ensures
        raises(m, raw, code as int),
{
    lemma_bits(code);
    let s = crate::status::exception_status(code);
    lemma_cause(m.core.cp0_cause, s);
    assert(m.execute(alone(raw)).0 == Step::Done(s));
}

proof fn lemma_cause(cause: u32, s: u32)
    ensures
        ((cause & !0x7Cu32) | (s & 0x7C)) / 4 % 32 == (s & 0x7C) / 4,
        ((cause & !0x7Cu32) | (s & 0x7C) | 0x8000_0000) / 4 % 32 == (s & 0x7C) / 4,
        (((cause & !0x7Cu32) | (s & 0x7C)) & !0x8000_0000u32) / 4 % 32 == (s & 0x7C) / 4,
{
    crate::bits::lemma_bits_of_words(cause, s);
}

} // verus!
