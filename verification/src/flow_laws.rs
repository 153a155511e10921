//! What the words of the traps, branches and jumps do, in numbers.
use vstd::prelude::*;

use crate::alu::{alu_result, branch_of, hi_lo_result, trap_condition, Branch};
use crate::alu_laws::{in_64_bits, lemma_numbers};
use crate::bus::{BusDevice, MipsCache, Tlb};
use crate::cpu_core::MipsCore;
use crate::fpu::Step;
use crate::instr::{encodes, encoding, InstrHandler};
use crate::loadstore::alone;
use crate::machine::Machine;
use crate::status::{EXC_BP, EXC_SYS, EXC_TR, EXEC_COMPLETE};
use crate::words::{
    after, function, lemma_encoded, lemma_fields, lemma_raises, offset, opcode, raises, reg_d,
    reg_s, reg_t, same_elsewhere, sets, signed,
};

verus! {

proof fn lemma_trap<T: Tlb, C: MipsCache, B: BusDevice>(
    m: Machine<T, C, B>,
    raw: u32,
    h: InstrHandler,
    t: bool,
)
    requires
        encodes(raw, encoding(h)),
        alu_result(alone(raw), m.core.gpr@[reg_s(raw)], m.core.gpr@[reg_t(raw)]) is None,
        trap_condition(alone(raw), m.core.gpr@[reg_s(raw)], m.core.gpr@[reg_t(raw)]) == Some(t),
    ensures
        t ==> raises(m, raw, 13),
        !t ==> sets(m, raw, 0, 0),
{
    reveal(Machine::execute);
    lemma_fields(raw);
    lemma_encoded(raw, h);
    if t {
        lemma_raises(m, raw, EXC_TR);
    }
}

/// A trap on condition `t`: the exception is raised where it holds, else nothing is done.
pub open spec fn traps_if<T: Tlb, C: MipsCache, B: BusDevice>(
    m: Machine<T, C, B>,
    raw: u32,
    t: bool,
) -> bool {
    if t {
        raises(m, raw, 13)
    } else {
        sets(m, raw, 0, 0)
    }
}

/// Law: the traps compare two registers: for not less, less, equal and different, the
/// first two as signed or as unsigned numbers.
pub proof fn law_traps<T: Tlb, C: MipsCache, B: BusDevice>(m: Machine<T, C, B>, raw: u32)
    requires
        opcode(raw) == 0,
    ensures
        ({
            let a = m.core.gpr@[reg_s(raw)];
            let b = m.core.gpr@[reg_t(raw)];
            let f = function(raw);
            &&& f == 48 ==> traps_if(m, raw, signed(a) >= signed(b))
            &&& f == 49 ==> traps_if(m, raw, a >= b)
            &&& f == 50 ==> traps_if(m, raw, signed(a) < signed(b))
            &&& f == 51 ==> traps_if(m, raw, a < b)
            &&& f == 52 ==> traps_if(m, raw, a == b)
            &&& f == 54 ==> traps_if(m, raw, a != b)
        }),
{
    let a = m.core.gpr@[reg_s(raw)];
    let b = m.core.gpr@[reg_t(raw)];
    let f = function(raw);
    lemma_fields(raw);
    lemma_numbers(a, 0, 0, 0);
    lemma_numbers(b, 0, 0, 0);
    if f == 48 {
        lemma_encoded(raw, InstrHandler::Tge);
        lemma_trap(m, raw, InstrHandler::Tge, signed(a) >= signed(b));
    } else if f == 49 {
        lemma_encoded(raw, InstrHandler::Tgeu);
        lemma_trap(m, raw, InstrHandler::Tgeu, a >= b);
    } else if f == 50 {
        lemma_encoded(raw, InstrHandler::Tlt);
        lemma_trap(m, raw, InstrHandler::Tlt, signed(a) < signed(b));
    } else if f == 51 {
        lemma_encoded(raw, InstrHandler::Tltu);
        lemma_trap(m, raw, InstrHandler::Tltu, a < b);
    } else if f == 52 {
        lemma_encoded(raw, InstrHandler::Teq);
        lemma_trap(m, raw, InstrHandler::Teq, a == b);
    } else if f == 54 {
        lemma_encoded(raw, InstrHandler::Tne);
        lemma_trap(m, raw, InstrHandler::Tne, a != b);
    }
}

/// Law: so do those with an immediate, which is a signed number.
pub proof fn law_immediate_traps<T: Tlb, C: MipsCache, B: BusDevice>(m: Machine<T, C, B>, raw: u32)
    requires
        opcode(raw) == 1,
    ensures
        ({
            let a = m.core.gpr@[reg_s(raw)];
            let t = reg_t(raw);
            &&& t == 8 ==> traps_if(m, raw, signed(a) >= offset(raw))
            &&& t == 9 ==> traps_if(m, raw, a >= in_64_bits(offset(raw)))
            &&& t == 10 ==> traps_if(m, raw, signed(a) < offset(raw))
            &&& t == 11 ==> traps_if(m, raw, a < in_64_bits(offset(raw)))
            &&& t == 12 ==> traps_if(m, raw, signed(a) == offset(raw))
            &&& t == 14 ==> traps_if(m, raw, signed(a) != offset(raw))
        }),
{
    let a = m.core.gpr@[reg_s(raw)];
    let t = reg_t(raw);
    lemma_fields(raw);
    lemma_numbers(a, 0, alone(raw).imm as i32, 0);
    if t == 8 {
        lemma_encoded(raw, InstrHandler::Tgei);
        lemma_trap(m, raw, InstrHandler::Tgei, signed(a) >= offset(raw));
    } else if t == 9 {
        lemma_encoded(raw, InstrHandler::Tgeiu);
        lemma_trap(m, raw, InstrHandler::Tgeiu, a >= in_64_bits(offset(raw)));
    } else if t == 10 {
        lemma_encoded(raw, InstrHandler::Tlti);
        lemma_trap(m, raw, InstrHandler::Tlti, signed(a) < offset(raw));
    } else if t == 11 {
        lemma_encoded(raw, InstrHandler::Tltiu);
        lemma_trap(m, raw, InstrHandler::Tltiu, a < in_64_bits(offset(raw)));
    } else if t == 12 {
        lemma_encoded(raw, InstrHandler::Teqi);
        lemma_trap(m, raw, InstrHandler::Teqi, signed(a) == offset(raw));
    } else if t == 14 {
        lemma_encoded(raw, InstrHandler::Tnei);
        lemma_trap(m, raw, InstrHandler::Tnei, signed(a) != offset(raw));
    }
}

/// The processor goes from `c` to the delay slot, and from there on to `target`.
pub open spec fn jumps(c: MipsCore, n: MipsCore, target: int) -> bool {
    n.in_delay_slot && n.pc == after(c.pc, 4) && n.delay_slot_target == target
}

/// Executing `raw` is a branch on condition `t`. It goes on to its target or to what
/// follows its delay slot; if it is likely and not taken, it passes the delay slot over.
/// If it links, register 31 takes the address after the delay slot.
pub open spec fn branches<T: Tlb, C: MipsCache, B: BusDevice>(
    m: Machine<T, C, B>,
    raw: u32,
    t: bool,
    likely: bool,
    link: bool,
) -> bool {
    let (s, n) = m.execute(alone(raw));
    let pc = m.core.pc;
    &&& s == Step::Done(EXEC_COMPLETE)
    &&& t ==> jumps(m.core, n.core, after(pc, 4 + 4 * offset(raw)))
    &&& !t && !likely ==> jumps(m.core, n.core, after(pc, 8))
    &&& !t && likely ==> n.core.pc == after(pc, 8) && n.core.in_delay_slot == m.core.in_delay_slot
    &&& link ==> n.core.gpr@[31] == after(pc, 8)
    &&& forall|i: int|
        0 <= i < 32 && (i != 31 || !link) ==> #[trigger] n.core.gpr@[i] == m.core.gpr@[i]
    &&& n.core.hi == m.core.hi && n.core.lo == m.core.lo
    &&& same_elsewhere(m, n)
}

pub(crate) proof fn lemma_target(c: MipsCore, raw: u32)
    ensures
        c.pc.wrapping_add(4).wrapping_add(
            crate::instr::imm_branch(raw) as i32 as i64 as u64,
        ) == after(c.pc, 4 + 4 * offset(raw)),
{
    lemma_fields(raw);
    let x = crate::instr::imm_branch(raw) as i32;
    lemma_numbers(0, 0, x, 0);
}

proof fn lemma_branch<T: Tlb, C: MipsCache, B: BusDevice>(
    m: Machine<T, C, B>,
    raw: u32,
    h: InstrHandler,
    t: bool,
    likely: bool,
    link: bool,
)
    requires
        encodes(raw, encoding(h)),
        crate::instr::imm_form(h) == crate::instr::ImmForm::Branch,
        alu_result(alone(raw), m.core.gpr@[reg_s(raw)], m.core.gpr@[reg_t(raw)]) is None,
        hi_lo_result(
            h,
            m.core.gpr@[reg_s(raw)],
            m.core.gpr@[reg_t(raw)],
            m.core.hi,
            m.core.lo,
        ) is None,
        trap_condition(alone(raw), m.core.gpr@[reg_s(raw)], m.core.gpr@[reg_t(raw)]) is None,
        branch_of(h, m.core.gpr@[reg_s(raw)], m.core.gpr@[reg_t(raw)]) == Some(
            (Branch { taken: t, likely, link }),
        ),
    ensures
        branches(m, raw, t, likely, link),
{
    reveal(Machine::execute);
    lemma_fields(raw);
    lemma_encoded(raw, h);
    lemma_target(m.core, raw);
    assert(alone(raw).imm == crate::instr::imm_branch(raw));
}

/// Law: the branches compare two registers, for equal and different, or one with zero.
/// Each has a likely form.
pub proof fn law_branches<T: Tlb, C: MipsCache, B: BusDevice>(m: Machine<T, C, B>, raw: u32)
    ensures
        ({
            let a = m.core.gpr@[reg_s(raw)];
            let b = m.core.gpr@[reg_t(raw)];
            let k = opcode(raw);
            &&& k == 4 ==> branches(m, raw, a == b, false, false)
            &&& k == 5 ==> branches(m, raw, a != b, false, false)
            &&& k == 6 ==> branches(m, raw, signed(a) <= 0, false, false)
            &&& k == 7 ==> branches(m, raw, signed(a) > 0, false, false)
            &&& k == 20 ==> branches(m, raw, a == b, true, false)
            &&& k == 21 ==> branches(m, raw, a != b, true, false)
            &&& k == 22 ==> branches(m, raw, signed(a) <= 0, true, false)
            &&& k == 23 ==> branches(m, raw, signed(a) > 0, true, false)
        }),
{
    let a = m.core.gpr@[reg_s(raw)];
    let b = m.core.gpr@[reg_t(raw)];
    let k = opcode(raw);
    lemma_fields(raw);
    lemma_numbers(a, 0, 0, 0);
    if k == 4 {
        lemma_encoded(raw, InstrHandler::Beq);
        lemma_branch(m, raw, InstrHandler::Beq, a == b, false, false);
    } else if k == 5 {
        lemma_encoded(raw, InstrHandler::Bne);
        lemma_branch(m, raw, InstrHandler::Bne, a != b, false, false);
    } else if k == 6 {
        lemma_encoded(raw, InstrHandler::Blez);
        lemma_branch(m, raw, InstrHandler::Blez, signed(a) <= 0, false, false);
    } else if k == 7 {
        lemma_encoded(raw, InstrHandler::Bgtz);
        lemma_branch(m, raw, InstrHandler::Bgtz, signed(a) > 0, false, false);
    } else if k == 20 {
        lemma_encoded(raw, InstrHandler::Beql);
        lemma_branch(m, raw, InstrHandler::Beql, a == b, true, false);
    } else if k == 21 {
        lemma_encoded(raw, InstrHandler::Bnel);
        lemma_branch(m, raw, InstrHandler::Bnel, a != b, true, false);
    } else if k == 22 {
        lemma_encoded(raw, InstrHandler::Blezl);
        lemma_branch(m, raw, InstrHandler::Blezl, signed(a) <= 0, true, false);
    } else if k == 23 {
        lemma_encoded(raw, InstrHandler::Bgtzl);
        lemma_branch(m, raw, InstrHandler::Bgtzl, signed(a) > 0, true, false);
    }
}

/// Law: the branches on the sign of a register come in eight forms: for negative and for
/// not negative, likely or not, with a link or without.
pub proof fn law_sign_branches<T: Tlb, C: MipsCache, B: BusDevice>(m: Machine<T, C, B>, raw: u32)
    requires
        opcode(raw) == 1,
        reg_t(raw) < 4 || 16 <= reg_t(raw) < 20,
    ensures
        ({
            let negative = signed(m.core.gpr@[reg_s(raw)]) < 0;
            let t = reg_t(raw);
            branches(m, raw, negative == (t % 2 == 0), t % 4 >= 2, t >= 16)
        }),
{
    let a = m.core.gpr@[reg_s(raw)];
    let negative = signed(a) < 0;
    let t = reg_t(raw);
    lemma_fields(raw);
    lemma_numbers(a, 0, 0, 0);
    let h = if t == 0 {
        InstrHandler::Bltz
    } else if t == 1 {
        InstrHandler::Bgez
    } else if t == 2 {
        InstrHandler::Bltzl
    } else if t == 3 {
        InstrHandler::Bgezl
    } else if t == 16 {
        InstrHandler::Bltzal
    } else if t == 17 {
        InstrHandler::Bgezal
    } else if t == 18 {
        InstrHandler::Bltzall
    } else {
        InstrHandler::Bgezall
    };
    lemma_encoded(raw, h);
    lemma_branch(m, raw, h, negative == (t % 2 == 0), t % 4 >= 2, t >= 16);
}

/// Executing `raw` jumps to `target`, and puts the address after the delay slot into
/// register `r`, if that is not the zero register.
pub open spec fn jumps_to<T: Tlb, C: MipsCache, B: BusDevice>(
    m: Machine<T, C, B>,
    raw: u32,
    target: int,
    r: int,
) -> bool {
    let (s, n) = m.execute(alone(raw));
    &&& s == Step::Done(EXEC_COMPLETE)
    &&& jumps(m.core, n.core, target)
    &&& r != 0 ==> n.core.gpr@[r] == after(m.core.pc, 8)
    &&& forall|i: int|
        0 <= i < 32 && (i != r || r == 0) ==> #[trigger] n.core.gpr@[i] == m.core.gpr@[i]
    &&& n.core.hi == m.core.hi && n.core.lo == m.core.lo
    &&& same_elsewhere(m, n)
}

proof fn lemma_region(v: u64, t: u64)
    requires
        t < 0x1000_0000,
    ensures
        (v & 0xFFFF_FFFF_F000_0000) | t == v - v % 0x1000_0000 + t,
{
    crate::bits::lemma_bits_of_doubles(v, t);
}

/// Law: `j` and `jal` jump within the 256 MB of the delay slot, `jr` and `jalr` to what a
/// register holds; `jal` and `jalr` link.
pub proof fn law_jumps<T: Tlb, C: MipsCache, B: BusDevice>(m: Machine<T, C, B>, raw: u32)
    ensures
        ({
            let next = after(m.core.pc, 4);
            let near = next - next % 0x1000_0000 + 4 * (raw as int % 0x400_0000);
            let a = m.core.gpr@[reg_s(raw)] as int;
            &&& opcode(raw) == 2 ==> jumps_to(m, raw, near, 0)
            &&& opcode(raw) == 3 ==> jumps_to(m, raw, near, 31)
            &&& opcode(raw) == 0 && function(raw) == 8 ==> jumps_to(m, raw, a, 0)
            &&& opcode(raw) == 0 && function(raw) == 9 ==> jumps_to(m, raw, a, reg_d(raw))
        }),
{
    reveal(Machine::execute);
    lemma_fields(raw);
    lemma_region(m.core.pc.wrapping_add(4), crate::instr::imm_jump(raw) as u64);
    if opcode(raw) == 2 {
        lemma_encoded(raw, InstrHandler::J);
    } else if opcode(raw) == 3 {
        lemma_encoded(raw, InstrHandler::Jal);
    } else if opcode(raw) == 0 && function(raw) == 8 {
        lemma_encoded(raw, InstrHandler::Jr);
    } else if opcode(raw) == 0 && function(raw) == 9 {
        lemma_encoded(raw, InstrHandler::Jalr);
    }
}

/// Law: `syscall` and `break` raise their exceptions, and `sync` does nothing.
pub proof fn law_calls_for_the_system<T: Tlb, C: MipsCache, B: BusDevice>(
    m: Machine<T, C, B>,
    raw: u32,
)
    requires
        opcode(raw) == 0,
    ensures
        function(raw) == 12 ==> raises(m, raw, 8),
        function(raw) == 13 ==> raises(m, raw, 9),
        function(raw) == 15 ==> sets(m, raw, 0, 0),
{
    reveal(Machine::execute);
    lemma_fields(raw);
    if function(raw) == 12 {
        lemma_encoded(raw, InstrHandler::Syscall);
        lemma_raises(m, raw, EXC_SYS);
    } else if function(raw) == 13 {
        lemma_encoded(raw, InstrHandler::Break);
        lemma_raises(m, raw, EXC_BP);
    } else if function(raw) == 15 {
        lemma_encoded(raw, InstrHandler::Sync);
    }
}

} // verus!
