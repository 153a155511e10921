//! Fused instructions are no more than the instructions that they join.
use vstd::prelude::*;

use crate::alu::{alu_dest, alu_result, branch_of, trap_condition, word, Computed};
use crate::bus::{BusDevice, MipsCache, Tlb};
use crate::cpu_core::MipsCore;
use crate::fpu::Step;
use crate::instr::{
    decoded, field_rd, field_rs, field_rt, fusable_load_store, imm_signed, imm_unsigned, imm_upper,
    is_operation, law_decoded_fields,
    law_every_word_has_an_operation, law_one_operation_per_word, operation, DecodedInstr, InstrHandler, FLAG_IMM_IS_NEXT,
    FLAG_NOT_DECODED,
};
use crate::loadstore::{alone, fused_address};
use crate::machine::Machine;
use crate::status::EXEC_COMPLETE;

verus! {

/// The instruction with encoding `raw`, decoded with the word `next` after it in view.
pub open spec fn joined_with(raw: u32, next: u32) -> DecodedInstr {
    decoded(
        DecodedInstr {
            handler: InstrHandler::Reserved,
            imm: next,
            raw,
            flags: FLAG_NOT_DECODED | FLAG_IMM_IS_NEXT,
            op: 0,
            rs: 0,
            rt: 0,
            rd: 0,
            sa: 0,
            funct: 0,
        },
    )
}

/// Address computations that are joined with the access that uses them.
pub open spec fn is_fused_access(h: InstrHandler) -> bool {
    h == InstrHandler::AdduLs || h == InstrHandler::SubuLs || h == InstrHandler::AddiuLs
}

proof fn lemma_flags()
    ensures
        (FLAG_NOT_DECODED | FLAG_IMM_IS_NEXT) & FLAG_IMM_IS_NEXT != 0,
        FLAG_NOT_DECODED & FLAG_IMM_IS_NEXT == 0,
{
    assert((1u8 | 2u8) & 2u8 != 0 && 1u8 & 2u8 == 0) by (bit_vector);
}

/// The register and the address of the computation `raw` in state `m`.
spec fn computed<T: Tlb, C: MipsCache, B: BusDevice>(m: Machine<T, C, B>, raw: u32) -> (u8, u64) {
    let a = m.core.gpr_at(field_rs(raw) as u8);
    let b = m.core.gpr_at(field_rt(raw) as u8);
    match operation(raw) {
        InstrHandler::Addu => (
            field_rd(raw) as u8,
            word((a as u32).wrapping_add(b as u32)),
        ),
        InstrHandler::Subu => (
            field_rd(raw) as u8,
            word((a as u32).wrapping_sub(b as u32)),
        ),
        _ => (field_rt(raw) as u8, word((a as u32).wrapping_add(imm_signed(raw)))),
    }
}

proof fn lemma_computation_alone<T: Tlb, C: MipsCache, B: BusDevice>(m: Machine<T, C, B>, raw: u32)
    requires
        operation(raw) == InstrHandler::Addu || operation(raw) == InstrHandler::Subu || operation(
            raw,
        ) == InstrHandler::Addiu,
    ensures
        ({
            let (r, addr) = computed(m, raw);
            m.execute(alone(raw)) == (
                Step::Done(EXEC_COMPLETE),
                m.with_core(m.core.with_gpr(r, addr).completed()),
            )
        }),
{
    reveal(Machine::execute);
    lemma_flags();
    let e = alone(raw);
    let (r, addr) = computed(m, raw);
    assert(e.handler == operation(raw));
    assert(alu_result(e, m.core.gpr_at(e.rs), m.core.gpr_at(e.rt)) == Some(Computed::Value(addr)));
    assert(alu_dest(e) == r);
}

proof fn lemma_access_alone<T: Tlb, C: MipsCache, B: BusDevice>(
    m: Machine<T, C, B>,
    next: u32,
    r: u32,
)
    requires
        fusable_load_store(next, r),
    ensures
        m.execute(alone(next)) == (
            Step::Done(m.load_store(alone(next)).0),
            m.load_store(alone(next)).1,
        ),
{
    reveal(Machine::execute);
    lemma_flags();
    let f = alone(next);
    assert(f.handler == operation(next));
    assert(alu_result(f, m.core.gpr_at(f.rs), m.core.gpr_at(f.rt)) is None);
    assert(trap_condition(f, m.core.gpr_at(f.rs), m.core.gpr_at(f.rt)) is None);
    assert(m.integer(f) is None);
    assert(m.memory(f) == Some(m.load_store(f)));
}

proof fn lemma_joined<T: Tlb, C: MipsCache, B: BusDevice>(
    m: Machine<T, C, B>,
    raw: u32,
    next: u32,
)
    requires
        is_fused_access(joined_with(raw, next).handler),
    ensures
        ({
            let (r, addr) = computed(m, raw);
            let (s, n) = m.fused(joined_with(raw, next), r, addr);
            m.execute(joined_with(raw, next)) == (Step::Done(s), n)
        }),
        joined_with(raw, next).imm == next,
{
    reveal(Machine::execute);
    lemma_flags();
    law_every_word_has_an_operation(raw);
    let d = joined_with(raw, next);
    let a = m.core.gpr_at(d.rs);
    let b = m.core.gpr_at(d.rt);
    assert(alu_result(d, a, b) is None);
    assert(trap_condition(d, a, b) is None);
    assert(m.integer(d) is None);
    assert(fused_address(d, a, b) == Some(computed(m, raw)));
    assert(m.memory(d) == Some(m.fused(d, computed(m, raw).0, computed(m, raw).1)));
}

/// Law: an address computation that is joined with a load or store does what the two do
/// one after the other. In a delay slot only the computation is done.
pub proof fn law_fused_accesses_are_two_instructions<T: Tlb, C: MipsCache, B: BusDevice>(
    m: Machine<T, C, B>,
    raw: u32,
    next: u32,
)
    requires
        is_fused_access(joined_with(raw, next).handler),
    ensures
        m.execute(alone(raw)).0 == Step::Done(EXEC_COMPLETE),
        !m.core.in_delay_slot ==> m.execute(joined_with(raw, next)) == m.execute(
            alone(raw),
        ).1.execute(alone(next)),
        m.core.in_delay_slot ==> m.execute(joined_with(raw, next)) == m.execute(alone(raw)),
{
    lemma_flags();
    law_every_word_has_an_operation(raw);
    lemma_joined(m, raw, next);
    lemma_computation_alone(m, raw);
    let r = if operation(raw) == InstrHandler::Addiu {
        field_rt(raw)
    } else {
        field_rd(raw)
    };
    lemma_access_alone(m.execute(alone(raw)).1, next, r);
}

/// Jumps and branches that are joined with the NOP in their delay slot.
pub open spec fn is_fused_jump(h: InstrHandler) -> bool {
    h == InstrHandler::JrNop || h == InstrHandler::JNop || h == InstrHandler::JalNop || h
        == InstrHandler::BeqNop || h == InstrHandler::BneNop
}

/// Constants that two instructions load.
pub open spec fn is_fused_constant(h: InstrHandler) -> bool {
    h == InstrHandler::LuiImm32 || h == InstrHandler::LuiSimm32
}

proof fn lemma_nop<T: Tlb, C: MipsCache, B: BusDevice>(m: Machine<T, C, B>)
    ensures
        m.core.wf() ==> m.execute(alone(0)) == (
            Step::Done(EXEC_COMPLETE),
            m.with_core(m.core.completed()),
        ),
{
    reveal(Machine::execute);
    lemma_flags();
    lemma_zero_word();
    let e = alone(0);
    law_one_operation_per_word(0, operation(0), InstrHandler::Sll);
    assert(e.handler == InstrHandler::Sll);
    assert(alu_dest(e) == 0);
}

proof fn lemma_zero_word()
    ensures
        is_operation(0, InstrHandler::Sll),
        field_rd(0) == 0,
{
    assert((0u32 >> 26) & 0x3F == 0 && 0u32 & 0x3F == 0 && (0u32 >> 11) & 0x1F == 0 && (0u32 >> 21)
        & 0x1F == 0 && (0u32 >> 16) & 0x1F == 0 && (0u32 >> 6) & 0x1F == 0) by (bit_vector);
}

/// The state after a jump or branch that is not joined with anything.
spec fn jumped_alone(c: MipsCore, e: DecodedInstr) -> MipsCore {
    match branch_of(e.handler, c.gpr_at(e.rs), c.gpr_at(e.rt)) {
        Some(b) => c.after_branch(b, c.branch_target(e)),
        None => c.jump(e)->0,
    }
}

proof fn lemma_jump_alone<T: Tlb, C: MipsCache, B: BusDevice>(m: Machine<T, C, B>, e: DecodedInstr)
    requires
        e.handler == InstrHandler::Jr || e.handler == InstrHandler::J || e.handler
            == InstrHandler::Jal || e.handler == InstrHandler::Beq || e.handler
            == InstrHandler::Bne,
    ensures
        m.execute(e) == (Step::Done(EXEC_COMPLETE), m.with_core(jumped_alone(m.core, e))),
{
    reveal(Machine::execute);
    assert(alu_result(e, m.core.gpr_at(e.rs), m.core.gpr_at(e.rt)) is None);
    assert(trap_condition(e, m.core.gpr_at(e.rs), m.core.gpr_at(e.rt)) is None);
}

proof fn lemma_jump_joined<T: Tlb, C: MipsCache, B: BusDevice>(m: Machine<T, C, B>, d: DecodedInstr)
    requires
        is_fused_jump(d.handler) || is_fused_constant(d.handler),
    ensures
        m.execute(d) == (Step::Done(EXEC_COMPLETE), m.with_core(m.core.jump(d)->0)),
{
    reveal(Machine::execute);
    assert(alu_result(d, m.core.gpr_at(d.rs), m.core.gpr_at(d.rt)) is None);
    assert(trap_condition(d, m.core.gpr_at(d.rs), m.core.gpr_at(d.rt)) is None);
}

/// Law: a jump or branch that is joined with the NOP in its delay slot does what the two
/// do one after the other. Only the notes on the delay slot, which is over, may differ,
/// and whether a jump has arrived where a branch was not taken. In a delay slot only the
/// jump is done.
pub proof fn law_fused_jumps_are_two_instructions<T: Tlb, C: MipsCache, B: BusDevice>(
    m: Machine<T, C, B>,
    raw: u32,
    next: u32,
)
    requires
        is_fused_jump(joined_with(raw, next).handler),
        m.core.wf(),
    ensures
        m.execute(alone(raw)).0 == Step::Done(EXEC_COMPLETE),
        m.core.in_delay_slot ==> m.execute(joined_with(raw, next)) == m.execute(alone(raw)),
        !m.core.in_delay_slot ==> {
            let one = m.execute(joined_with(raw, next));
            let two = m.execute(alone(raw)).1.execute(alone(next));
            &&& one.0 == two.0
            &&& one.1 == two.1.with_core(
                MipsCore {
                    jit_trigger: one.1.core.jit_trigger,
                    delay_slot_target: one.1.core.delay_slot_target,
                    ..two.1.core
                },
            )
        },
{
    lemma_flags();
    law_every_word_has_an_operation(raw);
    let d = joined_with(raw, next);
    let e = alone(raw);
    assert(next == 0);
    assert(e.handler == operation(raw));
    assert(d.imm == e.imm);
    lemma_jump_alone(m, e);
    lemma_jump_joined(m, d);
    lemma_nop(m.execute(e).1);
}

proof fn lemma_constant_alone<T: Tlb, C: MipsCache, B: BusDevice>(
    m: Machine<T, C, B>,
    e: DecodedInstr,
    v: u64,
)
    requires
        alu_result(e, m.core.gpr_at(e.rs), m.core.gpr_at(e.rt)) == Some(Computed::Value(v)),
    ensures
        m.execute(e) == (
            Step::Done(EXEC_COMPLETE),
            m.with_core(m.core.with_gpr(alu_dest(e), v).completed()),
        ),
{
    reveal(Machine::execute);
}

proof fn lemma_casts(x: u32, y: i32)
    ensures
        x < 0x8000_0000 ==> x as i32 == x,
        x >= 0x8000_0000 ==> x as i32 == x - 0x1_0000_0000,
        y >= 0 ==> y as u32 == y,
        y < 0 ==> y as u32 == y + 0x1_0000_0000,
{
    crate::bits::lemma_signed_words(x, y);
}

proof fn lemma_constant_halves(raw: u32, next: u32, upper: u64)
    requires
        upper == imm_upper(raw) as i32 as i64 as u64,
    ensures
        upper | (imm_unsigned(next) as u64) == (imm_upper(raw) | imm_unsigned(
            next,
        )) as i32 as i64 as u64,
        upper as u32 == imm_upper(raw),
{
    let a = raw & 0xFFFF;
    let b = next & 0xFFFF;
    assert(raw & 0xFFFF <= 0xFFFF && next & 0xFFFF <= 0xFFFF) by (bit_vector);
    assert(((a << 16) as i32 as i64 as u64) | (b as u64) == ((a << 16) | b) as i32 as i64 as u64)
        by (bit_vector)
        requires
            a <= 0xFFFF,
            b <= 0xFFFF,
    ;
    assert(((a << 16) as i32 as i64 as u64) as u32 == a << 16) by (bit_vector);
}

proof fn lemma_signed_sum(a: u32, b: i32)
    ensures
        vstd::wrapping::i32_specs::wrapping_add(a as i32, b) as u32 == a.wrapping_add(b as u32),
{
    lemma_casts(a, b);
    lemma_casts(a, vstd::wrapping::i32_specs::wrapping_add(a as i32, b));
}

/// Law: a constant that is loaded by two instructions at once is the one that they load
/// one after the other. In a delay slot only the first of them is done.
pub proof fn law_fused_constants_are_two_instructions<T: Tlb, C: MipsCache, B: BusDevice>(
    m: Machine<T, C, B>,
    raw: u32,
    next: u32,
)
    requires
        is_fused_constant(joined_with(raw, next).handler),
    ensures
        m.execute(alone(raw)).0 == Step::Done(EXEC_COMPLETE),
        !m.core.in_delay_slot ==> m.execute(joined_with(raw, next)) == m.execute(
            alone(raw),
        ).1.execute(alone(next)),
        m.core.in_delay_slot ==> m.execute(joined_with(raw, next)) == m.execute(alone(raw)),
{
    lemma_flags();
    law_every_word_has_an_operation(raw);
    law_every_word_has_an_operation(next);
    law_decoded_fields(DecodedInstr { raw, ..joined_with(raw, next) });
    let d = joined_with(raw, next);
    let e = alone(raw);
    let f = alone(next);
    let r = d.rt;
    let upper = imm_upper(raw) as i32 as i64 as u64;
    assert(e.handler == InstrHandler::Lui && e.rt == r && e.imm == imm_upper(raw));
    assert(f.rs == r && f.rt == r);
    lemma_jump_joined(m, d);
    lemma_constant_alone(m, e, upper);
    lemma_constant_halves(raw, next, upper);
    let m1 = m.execute(e).1;
    let a = m1.core.gpr_at(r);
    if d.handler == InstrHandler::LuiImm32 {
        assert(f.handler == InstrHandler::Ori && f.imm == imm_unsigned(next));
        lemma_constant_alone(m1, f, a | f.imm as u64);
    } else {
        assert(f.handler == InstrHandler::Addiu && f.imm == imm_signed(next));
        lemma_constant_alone(m1, f, word((a as u32).wrapping_add(f.imm)));
        lemma_signed_sum(imm_upper(raw), (next & 0xFFFF) as i16 as i32);
    }
    if r != 0 {
        assert(a == upper);
        assert(m.core.with_gpr(r, upper).with_gpr(r, d.spec_immu64()).gpr =~= m.core.with_gpr(
            r,
            d.spec_immu64(),
        ).gpr);
    }
}

} // verus!
