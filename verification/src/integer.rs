//! The integer instructions: arithmetic, traps, branches, jumps, and the fused pairs of
//! them.
use vstd::prelude::*;

use crate::alu::{
    alu_dest, alu_dest_of, alu_result, branch_of, compute, decide_branch, hi_lo_result,
    multiply_divide, trap_condition, trap_taken, Branch, Computed,
};
use crate::bus::{BusDevice, MipsCache, Tlb};
use crate::cpu_core::MipsCore;
use crate::instr::{fields_bounded, DecodedInstr, InstrHandler};
use crate::machine::{Machine, MipsExecutor};
use crate::status::{
    exception_status, exec_exception, ExecStatus, EXC_BP, EXC_OV, EXC_RI, EXC_SYS, EXC_TR,
    EXEC_COMPLETE,
};

verus! {

/// Bits 20..18 of an instruction word: a floating-point condition code.
pub open spec fn cc_field(raw: u32) -> u32 {
    (raw >> 18) & 0x7
}

/// Bit 16 of a conditional move: moves if the code is set, or if it is clear.
pub open spec fn tf_field(raw: u32) -> bool {
    (raw >> 16) & 0x1 != 0
}

pub(crate) proof fn lemma_cc_field(raw: u32)
    ensures
        (raw >> 18) & 0x7 < 8,
{
    crate::bits::lemma_bits_of_word(raw);
}

impl MipsCore {
    /// Target of a branch: relative to the delay slot.
    pub open spec fn branch_target(&self, d: DecodedInstr) -> u64 {
        self.pc.wrapping_add(4).wrapping_add(d.spec_immu64())
    }

    /// Target of a jump: in the 256 MB region of the delay slot.
    pub open spec fn jump_target(&self, d: DecodedInstr) -> u64 {
        (self.pc.wrapping_add(4) & 0xFFFFFFFF_F0000000) | d.imm as u64
    }

    /// The return address of a call.
    pub open spec fn linked(self, r: u8) -> MipsCore {
        self.with_gpr(r, self.pc.wrapping_add(8))
    }

    /// The state after a branch.
    pub open spec fn after_branch(self, b: Branch, target: u64) -> MipsCore {
        let c = if b.link {
            self.linked(31)
        } else {
            self
        };
        if b.taken {
            c.branching(target)
        } else if b.likely {
            c.skipping()
        } else {
            c.not_taken()
        }
    }

    /// The state after a jump whose delay slot is known to hold a NOP. The two are done
    /// at once, but not in the delay slot of another jump, where only one instruction has
    /// its place.
    pub open spec fn after_nop_jump(self, target: u64) -> MipsCore {
        if self.in_delay_slot {
            self.branching(target)
        } else {
            self.jumped(target)
        }
    }

    /// The state after a branch whose delay slot is known to hold a NOP.
    pub open spec fn after_nop_branch(self, taken: bool, target: u64) -> MipsCore {
        if taken {
            self.after_nop_jump(target)
        } else if self.in_delay_slot {
            self.not_taken()
        } else {
            self.skipping()
        }
    }

    /// The state after a constant was loaded into register `r` by two instructions at
    /// once, or, in a delay slot, after the first of them.
    pub open spec fn after_constant(self, r: u8, upper: u64, whole: u64) -> MipsCore {
        if self.in_delay_slot {
            self.with_gpr(r, upper).completed()
        } else {
            self.with_gpr(r, whole).skipping()
        }
    }

    /// The state after the jump `d`; nothing where `d` is none.
    pub open spec fn jump(self, d: DecodedInstr) -> Option<MipsCore> {
        let a = self.gpr_at(d.rs);
        let b = self.gpr_at(d.rt);
        match d.handler {
            InstrHandler::Jr => Some(self.branching(a)),
            InstrHandler::Jalr => Some(self.linked(d.rd).branching(a)),
            InstrHandler::J => Some(self.branching(self.jump_target(d))),
            InstrHandler::Jal => Some(self.linked(31).branching(self.jump_target(d))),
            InstrHandler::JrNop => Some(self.after_nop_jump(a)),
            InstrHandler::JNop => Some(self.after_nop_jump(self.jump_target(d))),
            InstrHandler::JalNop => Some(self.linked(31).after_nop_jump(self.jump_target(d))),
            InstrHandler::BeqNop => Some(self.after_nop_branch(a == b, self.branch_target(d))),
            InstrHandler::BneNop => Some(self.after_nop_branch(a != b, self.branch_target(d))),
            InstrHandler::LuiImm32 | InstrHandler::LuiSimm32 => Some(
                self.after_constant(d.rt, lui_value(d.raw), d.spec_immu64()),
            ),
            _ => None,
        }
    }

    /// The registers after the move `d`; nothing where `d` is none.
    pub open spec fn moved(self, d: DecodedInstr) -> Option<MipsCore> {
        let a = self.gpr_at(d.rs);
        match d.handler {
            InstrHandler::Mfhi => Some(self.with_gpr(d.rd, self.hi)),
            InstrHandler::Mflo => Some(self.with_gpr(d.rd, self.lo)),
            InstrHandler::Mthi => Some(MipsCore { hi: a, ..self }),
            InstrHandler::Mtlo => Some(MipsCore { lo: a, ..self }),
            InstrHandler::Movci => Some(
                if self.fpu_cc(cc_field(d.raw)) == tf_field(d.raw) {
                    self.with_gpr(d.rd, a)
                } else {
                    self
                },
            ),
            _ => None,
        }
    }
}

/// The value that `lui` alone loads.
pub open spec fn lui_value(raw: u32) -> u64 {
    ((raw & 0xFFFF) << 16) as i32 as i64 as u64
}

impl<T: Tlb, C: MipsCache, B: BusDevice> Machine<T, C, B> {
    /// The end of an instruction that leaves the processor in state `core`.
    pub open spec fn ended(self, core: MipsCore) -> (ExecStatus, Self) {
        (EXEC_COMPLETE, self.with_core(core))
    }

    pub open spec fn trap(self, code: u32) -> (ExecStatus, Self) {
        self.raise(exception_status(code))
    }

    pub open spec fn arithmetic(self, r: u8, c: Computed) -> (ExecStatus, Self) {
        match c {
            Computed::Value(v) => self.with_core(self.core.with_gpr(r, v)).done(),
            Computed::Keep => self.done(),
            Computed::Overflow => self.trap(EXC_OV),
        }
    }

    /// An integer instruction; nothing where `d` is none, or is fused with a memory
    /// access.
    pub open spec fn integer(self, d: DecodedInstr) -> Option<(ExecStatus, Self)> {
        let c = self.core;
        let a = c.gpr_at(d.rs);
        let b = c.gpr_at(d.rt);
        if let Some(r) = alu_result(d, a, b) {
            Some(self.arithmetic(alu_dest(d), r))
        } else if let Some((hi, lo)) = hi_lo_result(d.handler, a, b, c.hi, c.lo) {
            Some(self.with_core(MipsCore { hi, lo, ..c }).done())
        } else if let Some(t) = trap_condition(d, a, b) {
            Some(
                if t {
                    self.trap(EXC_TR)
                } else {
                    self.done()
                },
            )
        } else if let Some(br) = branch_of(d.handler, a, b) {
            Some(self.ended(c.after_branch(br, c.branch_target(d))))
        } else {
            self.jump_or_move(d)
        }
    }

    /// A jump, a move, or an instruction without operands; nothing where `d` is none.
    pub open spec fn jump_or_move(self, d: DecodedInstr) -> Option<(ExecStatus, Self)> {
        if let Some(c) = self.core.jump(d) {
            Some(self.ended(c))
        } else if let Some(c) = self.core.moved(d) {
            Some(self.with_core(c).done())
        } else {
            match d.handler {
                InstrHandler::Syscall => Some(self.trap(EXC_SYS)),
                InstrHandler::Break => Some(self.trap(EXC_BP)),
                InstrHandler::Reserved => Some(self.trap(EXC_RI)),
                InstrHandler::Sync | InstrHandler::Pref => Some(self.done()),
                _ => None,
            }
        }
    }

    /// What an executor's reply and state must be for the outcome `o`: the status and
    /// state of `o`, or no status and the state as it was.
    pub open spec fn agrees(self, o: Option<(ExecStatus, Self)>, s: Option<ExecStatus>, m: Self) -> bool {
        match o {
            Some((status, after)) => s == Some(status) && m == after,
            None => s is None && m == self,
        }
    }
}

impl MipsCore {
    pub(crate) fn branch_target_of(&self, d: &DecodedInstr) -> (t: u64)
        ensures
            t == self.branch_target(*d),
    {
        self.pc.wrapping_add(4).wrapping_add(d.immu64())
    }

    fn jump_target_of(&self, d: &DecodedInstr) -> (t: u64)
        ensures
            t == self.jump_target(*d),
    {
        (self.pc.wrapping_add(4) & 0xFFFFFFFF_F0000000) | d.immi64()
    }

    fn link(&mut self, r: u8)
        requires
            r < 32,
        ensures
            *final(self) == old(self).linked(r),
    {
        let ra: u64 = self.pc.wrapping_add(8);
        self.write_gpr(r, ra);
    }

    pub(crate) fn take_branch(&mut self, b: Branch, target: u64)
        ensures
            *final(self) == old(self).after_branch(b, target),
    {
        if b.link {
            self.link(31);
        }
        if b.taken {
            self.branch_delay(target);
        } else if b.likely {
            self.branch_likely_skip();
        } else {
            self.branch_not_taken();
        }
    }

    fn nop_jump(&mut self, target: u64)
        ensures
            *final(self) == old(self).after_nop_jump(target),
    {
        if self.in_delay_slot {
            self.branch_delay(target);
        } else {
            self.jump_now(target);
        }
    }

    fn nop_branch(&mut self, taken: bool, target: u64)
        ensures
            *final(self) == old(self).after_nop_branch(taken, target),
    {
        if taken {
            self.nop_jump(target);
        } else if self.in_delay_slot {
            self.branch_not_taken();
        } else {
            self.branch_likely_skip();
        }
    }

    fn load_constant(&mut self, r: u8, upper: u64, whole: u64)
        requires
            r < 32,
        ensures
            *final(self) == old(self).after_constant(r, upper, whole),
    {
        if self.in_delay_slot {
            self.write_gpr(r, upper);
            self.complete();
        } else {
            self.write_gpr(r, whole);
            self.branch_likely_skip();
        }
    }

    /// Does the jump `d`, if it is one.
    fn exec_jump(&mut self, d: &DecodedInstr) -> (b: bool)
        requires
            fields_bounded(*d),
        ensures
            b == old(self).jump(*d) is Some,
            b ==> *final(self) == old(self).jump(*d)->0,
            !b ==> *final(self) == *old(self),
    {
        let a: u64 = self.read_gpr(d.rs);
        let b: u64 = self.read_gpr(d.rt);
        let target: u64 = self.jump_target_of(d);
        let branch: u64 = self.branch_target_of(d);
        match d.handler {
            InstrHandler::Jr => self.branch_delay(a),
            InstrHandler::Jalr => {
                self.link(d.rd);
                self.branch_delay(a);
            },
            InstrHandler::J => self.branch_delay(target),
            InstrHandler::Jal => {
                self.link(31);
                self.branch_delay(target);
            },
            InstrHandler::JrNop => self.nop_jump(a),
            InstrHandler::JNop => self.nop_jump(target),
            InstrHandler::JalNop => {
                self.link(31);
                self.nop_jump(target);
            },
            InstrHandler::BeqNop => self.nop_branch(a == b, branch),
            InstrHandler::BneNop => self.nop_branch(a != b, branch),
            InstrHandler::LuiImm32 | InstrHandler::LuiSimm32 => {
                let upper: u64 = ((d.raw & 0xFFFF) << 16) as i32 as i64 as u64;
                self.load_constant(d.rt, upper, d.immu64());
            },
            _ => {
                return false;
            },
        }
        true
    }

    /// Does the move `d`, if it is one.
    fn exec_move(&mut self, d: &DecodedInstr) -> (b: bool)
        requires
            fields_bounded(*d),
        ensures
            b == old(self).moved(*d) is Some,
            b ==> *final(self) == old(self).moved(*d)->0,
            !b ==> *final(self) == *old(self),
    {
        let a: u64 = self.read_gpr(d.rs);
        match d.handler {
            InstrHandler::Mfhi => {
                let v: u64 = self.hi;
                self.write_gpr(d.rd, v);
            },
            InstrHandler::Mflo => {
                let v: u64 = self.lo;
                self.write_gpr(d.rd, v);
            },
            InstrHandler::Mthi => {
                self.hi = a;
            },
            InstrHandler::Mtlo => {
                self.lo = a;
            },
            InstrHandler::Movci => {
                proof {
                    lemma_cc_field(d.raw);
                }
                let tf: bool = (d.raw >> 16) & 0x1 != 0;
                if self.get_fpu_cc((d.raw >> 18) & 0x7) == tf {
                    self.write_gpr(d.rd, a);
                }
            },
            _ => {
                return false;
            },
        }
        true
    }
}

impl<T: Tlb, C: MipsCache, B: BusDevice> MipsExecutor<T, C, B> {
    /// Ends an instruction with an exception of its own.
    pub(crate) fn exec_trap(&mut self, code: u32) -> (s: ExecStatus)
        requires
            old(self).wf(),
        ensures
            final(self).wf(),
            (s, final(self)@) == old(self)@.trap(code),
    {
        self.handle_exception(exec_exception(code))
    }

    fn exec_arithmetic(&mut self, r: u8, c: Computed) -> (s: ExecStatus)
        requires
            old(self).wf(),
            r < 32,
        ensures
            final(self).wf(),
            (s, final(self)@) == old(self)@.arithmetic(r, c),
    {
        match c {
            Computed::Value(v) => {
                self.core.write_gpr(r, v);
                self.handle_exec_complete()
            },
            Computed::Keep => self.handle_exec_complete(),
            Computed::Overflow => self.exec_trap(EXC_OV),
        }
    }

    /// Executes an integer instruction, if `d` is one.
    pub(crate) fn exec_integer(&mut self, d: &DecodedInstr) -> (s: Option<ExecStatus>)
        requires
            old(self).wf(),
            fields_bounded(*d),
        ensures
            final(self).wf(),
            old(self)@.agrees(old(self)@.integer(*d), s, final(self)@),
    {
        let a: u64 = self.core.read_gpr(d.rs);
        let b: u64 = self.core.read_gpr(d.rt);
        if let Some(c) = compute(d, a, b) {
            return Some(self.exec_arithmetic(alu_dest_of(d), c));
        }
        if let Some((hi, lo)) = multiply_divide(d.handler, a, b, self.core.hi, self.core.lo) {
            self.core.hi = hi;
            self.core.lo = lo;
            return Some(self.handle_exec_complete());
        }
        if let Some(t) = trap_taken(d, a, b) {
            return Some(
                if t {
                    self.exec_trap(EXC_TR)
                } else {
                    self.handle_exec_complete()
                },
            );
        }
        if let Some(br) = decide_branch(d.handler, a, b) {
            let target: u64 = self.core.branch_target_of(d);
            self.core.take_branch(br, target);
            return Some(EXEC_COMPLETE);
        }
        self.exec_jump_or_move(d)
    }

    fn exec_jump_or_move(&mut self, d: &DecodedInstr) -> (s: Option<ExecStatus>)
        requires
            old(self).wf(),
            fields_bounded(*d),
        ensures
            final(self).wf(),
            old(self)@.agrees(old(self)@.jump_or_move(*d), s, final(self)@),
    {
        if self.core.exec_jump(d) {
            return Some(EXEC_COMPLETE);
        }
        if self.core.exec_move(d) {
            return Some(self.handle_exec_complete());
        }
        match d.handler {
            InstrHandler::Syscall => Some(self.exec_trap(EXC_SYS)),
            InstrHandler::Break => Some(self.exec_trap(EXC_BP)),
            InstrHandler::Reserved => Some(self.exec_trap(EXC_RI)),
            InstrHandler::Sync | InstrHandler::Pref => Some(self.handle_exec_complete()),
            _ => None,
        }
    }
}

} // verus!
