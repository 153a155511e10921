//! Execution of instructions, one at a time.
use vstd::prelude::*;

use crate::breakpoints::BpType;
use crate::bus::{BusDevice, FetchInstrResult, MipsCache, Tlb};
use crate::cpu_core::{MipsCore, CAUSE_IP_MASK, EXT_INT_MASK, SOFT_RESET_BIT, STATUS_IM_MASK};
use crate::fpu::{is_cop1, Step};
use crate::instr::{
    decode_into, decoded, fields_bounded, law_decoded_fields, DecodedInstr, FLAG_NOT_DECODED,
};
use crate::jit::CODE_PAGE_SIZE;
use crate::machine::{Machine, MipsExecutor};
use crate::status::{
    ExecStatus, EXC_INT, EXC_RI, EXEC_BREAKPOINT, EXEC_COMPLETE, EXEC_IS_EXCEPTION,
};

verus! {

/// A fetched instruction in decoded form.
pub open spec fn ready(ins: DecodedInstr) -> DecodedInstr {
    if ins.flags != 0 {
        decoded(ins)
    } else {
        ins
    }
}

impl MipsCore {
    /// The state with the devices' interrupt lines in Cause.
    pub open spec fn with_lines(self) -> MipsCore {
        MipsCore {
            cp0_cause: (self.cp0_cause & !EXT_INT_MASK) | (self.interrupts as u32 & EXT_INT_MASK),
            ..self
        }
    }

    /// An interrupt is to be taken: one is pending that Status lets through.
    pub open spec fn interrupted(&self) -> bool {
        self.takes_interrupts() && (self.cp0_cause & CAUSE_IP_MASK) & (self.cp0_status
            & STATUS_IM_MASK) != 0
    }

    /// The state after a soft reset.
    pub open spec fn soft_reset(self) -> MipsCore {
        MipsCore { in_delay_slot: false, delay_slot_target: 0, ..self.after_reset(true) }
    }
}

impl<T: Tlb, C: MipsCache, B: BusDevice> Machine<T, C, B> {
    /// Execution of `d`.
    #[verifier::opaque]
    pub open spec fn execute(self, d: DecodedInstr) -> (Step, Self) {
        if let Some((s, m)) = self.integer(d) {
            (Step::Done(s), m)
        } else if let Some((s, m)) = self.memory(d) {
            (Step::Done(s), m)
        } else if is_cop1(d.handler) {
            self.float(d)
        } else if let Some((s, m)) = self.system(d) {
            (Step::Done(s), m)
        } else {
            let (s, m) = self.trap(EXC_RI);
            (Step::Done(s), m)
        }
    }

    /// Execution of the instruction word `instr`, at an address that counts as physical.
    pub open spec fn execute_word(self, instr: u32) -> (Step, Self) {
        let ins = decoded(DecodedInstr { raw: instr, flags: FLAG_NOT_DECODED, ..self.ins });
        let core = self.core.on_page(self.core.pc as u32 / CODE_PAGE_SIZE);
        Machine { ins, core, ..self }.execute(ins)
    }

    /// Resets and interrupts come before the next instruction; the status is there if one
    /// did.
    pub open spec fn poll(self, skip_interrupts: bool) -> (Option<ExecStatus>, Self) {
        let c = self.core;
        if c.interrupts | c.cp0_cause as u64 == 0 {
            (None, self)
        } else if c.interrupts & SOFT_RESET_BIT != 0 {
            (Some(EXEC_COMPLETE), self.with_core(c.soft_reset()))
        } else {
            let m = self.with_core(c.with_lines());
            if m.core.interrupted() && !skip_interrupts {
                let (s, m) = m.trap(EXC_INT);
                (Some(s), m)
            } else {
                (None, m)
            }
        }
    }

    /// A fetch that brought no instruction ends with its exception, if it is one.
    pub open spec fn fetch_failed(self, status: ExecStatus) -> (ExecStatus, Self) {
        if status & EXEC_IS_EXCEPTION != 0 {
            self.raise(status)
        } else {
            (status, self)
        }
    }

    /// One instruction, with the debugger's tools at work.
    pub open spec fn step(self) -> (Step, Self) {
        let core = MipsCore { cycles: self.core.cycles.wrapping_add(1), ..self.core };
        let (s, m) = Machine {
            core,
            tools: self.tools.profiled(core),
            ..self
        }.step_watched();
        (s, Machine { skip_breakpoints: false, skip_interrupts: false, ..m })
    }

    /// The step proper, up to breakpoints.
    #[verifier::opaque]
    pub open spec fn step_watched(self) -> (Step, Self) {
        let pc = self.core.pc;
        let (hit, m) = self.break_at(BpType::Pc, pc);
        if hit {
            (Step::Done(EXEC_BREAKPOINT), m)
        } else {
            let (s, m) = m.poll(m.skip_interrupts);
            match s {
                Some(s) => (Step::Done(s), m),
                None => {
                    let (f, m) = m.fetch(false, pc);
                    if f.status == EXEC_COMPLETE {
                        let d = ready(f.instr);
                        m.with_tools(
                            m.tools.fetched(f.instr.flags == 0).noted(pc, d.raw, m.core),
                        ).execute(d)
                    } else {
                        let (s, m) = m.fetch_failed(f.status);
                        (Step::Done(s), m)
                    }
                },
            }
        }
    }

    /// A step up to its instruction, with the debugger's tools at work.
    pub open spec fn begun(self) -> (Begun, Self) {
        let core = MipsCore { cycles: self.core.cycles.wrapping_add(1), ..self.core };
        let m = Machine { core, tools: self.tools.profiled(core), ..self };
        let pc = core.pc;
        let (hit, m) = m.break_at(BpType::Pc, pc);
        if hit {
            (Begun::Ended(EXEC_BREAKPOINT), m)
        } else {
            let (s, m) = m.poll(m.skip_interrupts);
            match s {
                Some(s) => (Begun::Ended(s), m),
                None => {
                    let (f, m) = m.fetch(false, pc);
                    if f.status == EXEC_COMPLETE {
                        let d = ready(f.instr);
                        (
                            Begun::Ready(d),
                            m.with_tools(
                                m.tools.fetched(f.instr.flags == 0).noted(pc, d.raw, m.core),
                            ),
                        )
                    } else {
                        let (s, m) = m.fetch_failed(f.status);
                        (Begun::Ended(s), m)
                    }
                },
            }
        }
    }

    /// The machine at the end of a step: what was to be passed over, was.
    pub open spec fn step_ended(self) -> Self {
        Machine { skip_breakpoints: false, skip_interrupts: false, ..self }
    }

    /// One instruction, without the debugger's tools.
    #[verifier::opaque]
    pub open spec fn step_lite(self) -> (Step, Self) {
        let pc = self.core.pc;
        let (s, m) = self.poll(false);
        match s {
            Some(s) => (Step::Done(s), m),
            None => {
                let (f, m) = m.fetch(false, pc);
                if f.status == EXEC_COMPLETE {
                    m.execute(ready(f.instr))
                } else {
                    let (s, m) = m.fetch_failed(f.status);
                    (Step::Done(s), m)
                }
            },
        }
    }
}

/// How far a step came before its instruction.
#[derive(Debug, Clone, Copy, PartialEq, Eq, Structural)]
pub enum Begun {
    /// It is over, with this status.
    Ended(ExecStatus),
    /// This is the instruction.
    Ready(DecodedInstr),
}

/// Law: a step is its beginning, the execution of the instruction, if there is one, and
/// its end.
pub proof fn law_a_step_is_its_parts<T: Tlb, C: MipsCache, B: BusDevice>(m: Machine<T, C, B>)
    ensures
        m.step() == match m.begun() {
            (Begun::Ended(s), n) => (Step::Done(s), n.step_ended()),
            (Begun::Ready(d), n) => (n.execute(d).0, n.execute(d).1.step_ended()),
        },
{
    reveal(Machine::step_watched);
}

pub(crate) fn ready_instr(ins: DecodedInstr) -> (d: DecodedInstr)
    requires
        ins.flags == 0 ==> fields_bounded(ins),
    ensures
        d == ready(ins),
        fields_bounded(d),
{
    if ins.flags == 0 {
        return ins;
    }
    let mut d: DecodedInstr = ins;
    decode_into(&mut d);
    proof {
        law_decoded_fields(ins);
    }
    d
}

impl<T: Tlb, C: MipsCache, B: BusDevice> MipsExecutor<T, C, B> {
    /// Executes the decoded instruction `d`.
    pub fn exec_decoded(&mut self, d: &DecodedInstr) -> (s: Step)
        requires
            old(self).wf(),
            fields_bounded(*d),
        ensures
            final(self).wf(),
            (s, final(self)@) == old(self)@.execute(*d),
            s matches Step::Float(_, e) ==> fields_bounded(e),
    {
        proof {
            reveal(Machine::execute);
        }
        if let Some(s) = self.exec_integer(d) {
            return Step::Done(s);
        }
        if let Some(s) = self.exec_memory(d) {
            return Step::Done(s);
        }
        if let Some(s) = self.exec_float(d) {
            return s;
        }
        if let Some(s) = self.exec_system(d) {
            return Step::Done(s);
        }
        Step::Done(self.exec_trap(EXC_RI))
    }

    /// Decodes and executes the instruction word `instr`.
    pub fn exec(&mut self, instr: u32) -> (s: Step)
        requires
            old(self).wf(),
        ensures
            final(self).wf(),
            (s, final(self)@) == old(self)@.execute_word(instr),
            s matches Step::Float(_, e) ==> fields_bounded(e),
    {
        let page: u32 = #[verifier::truncate] (self.core.pc as u32) / CODE_PAGE_SIZE;
        self.core.track_page(page);
        self.ins.raw = instr;
        self.ins.flags = FLAG_NOT_DECODED;
        proof {
            law_decoded_fields(self.ins);
        }
        decode_into(&mut self.ins);
        let d: DecodedInstr = self.ins;
        self.exec_decoded(&d)
    }

    /// Takes a pending reset or interrupt.
    fn poll_interrupts(&mut self, skip_interrupts: bool) -> (s: Option<ExecStatus>)
        requires
            old(self).wf(),
        ensures
            final(self).wf(),
            (s, final(self)@) == old(self)@.poll(skip_interrupts),
    {
        let pending: u64 = self.core.interrupts;
        if pending | self.core.cp0_cause as u64 == 0 {
            return None;
        }
        if pending & SOFT_RESET_BIT != 0 {
            self.core.reset(true);
            self.core.in_delay_slot = false;
            self.core.delay_slot_target = 0;
            return Some(EXEC_COMPLETE);
        }
        self.core.cp0_cause = (self.core.cp0_cause & !EXT_INT_MASK) | (pending as u32
            & EXT_INT_MASK);
        if self.core.interrupts_enabled() && !skip_interrupts {
            let ip: u32 = self.core.cp0_cause & CAUSE_IP_MASK;
            let im: u32 = self.core.cp0_status & STATUS_IM_MASK;
            if ip & im != 0 {
                return Some(self.exec_trap(EXC_INT));
            }
        }
        None
    }

    pub(crate) fn fetch_failure(&mut self, status: ExecStatus) -> (s: ExecStatus)
        requires
            old(self).wf(),
        ensures
            final(self).wf(),
            (s, final(self)@) == old(self)@.fetch_failed(status),
    {
        if status & EXEC_IS_EXCEPTION != 0 {
            self.handle_exception(status)
        } else {
            status
        }
    }

    /// Executes the next instruction, unless a breakpoint, a reset or an interrupt comes
    /// first.
    pub fn step(&mut self) -> (s: Step)
        requires
            old(self).wf(),
        ensures
            final(self).wf(),
            (s, final(self)@) == old(self)@.step(),
            s matches Step::Float(_, e) ==> fields_bounded(e),
    {
        proof {
            law_a_step_is_its_parts(self@);
        }
        let s: Step = match self.begin_step() {
            Begun::Ended(s) => Step::Done(s),
            Begun::Ready(d) => self.exec_decoded(&d),
        };
        self.end_step();
        s
    }

    /// Begins a step: up to the instruction, which is then to be executed, unless a
    /// breakpoint, a reset or an interrupt comes first.
    pub fn begin_step(&mut self) -> (b: Begun)
        requires
            old(self).wf(),
        ensures
            final(self).wf(),
            (b, final(self)@) == old(self)@.begun(),
            b matches Begun::Ready(d) ==> fields_bounded(d),
    {
        self.core.cycles = self.core.cycles.wrapping_add(1);
        self.tools.profile(&self.core);
        let pc: u64 = self.core.pc;
        if self.check_breakpoint(BpType::Pc, pc) {
            return Begun::Ended(EXEC_BREAKPOINT);
        }
        if let Some(s) = self.poll_interrupts(self.skip_interrupts) {
            return Begun::Ended(s);
        }
        let f: FetchInstrResult = self.fetch_instr(pc);
        if f.status != EXEC_COMPLETE {
            return Begun::Ended(self.fetch_failure(f.status));
        }
        self.tools.count_fetch(f.instr.flags == 0);
        let d: DecodedInstr = ready_instr(f.instr);
        self.tools.note(pc, d.raw, &self.core);
        Begun::Ready(d)
    }

    /// Ends a step, however its instruction was executed.
    pub fn end_step(&mut self)
        requires
            old(self).wf(),
        ensures
            final(self).wf(),
            final(self)@ == old(self)@.step_ended(),
    {
        self.skip_breakpoints = false;
        self.skip_interrupts = false;
    }

    /// Executes the next instruction without a look at breakpoints, the profiler, the
    /// history or the cycle count. Resets and interrupts are still taken.
    pub fn step_lite(&mut self) -> (s: Step)
        requires
            old(self).wf(),
        ensures
            final(self).wf(),
            (s, final(self)@) == old(self)@.step_lite(),
            s matches Step::Float(_, e) ==> fields_bounded(e),
    {
        proof {
            reveal(Machine::step_lite);
        }
        let pc: u64 = self.core.pc;
        if let Some(s) = self.poll_interrupts(false) {
            return Step::Done(s);
        }
        let f: FetchInstrResult = self.fetch_instr(pc);
        if f.status != EXEC_COMPLETE {
            return Step::Done(self.fetch_failure(f.status));
        }
        let d: DecodedInstr = ready_instr(f.instr);
        self.exec_decoded(&d)
    }
}

} // verus!
