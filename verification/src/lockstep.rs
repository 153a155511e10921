//! Execution in lockstep: an instruction is run by another engine as well, and the two
//! results are compared. The other engine's result is given as a state of the core.
use vstd::prelude::*;

use crate::bus::{BusDevice, BusRead32, FetchInstrResult, MipsCache, Tlb, BUS_OK};
use crate::cpu_core::{AccessType, MipsCore};
use crate::exec::{ready, ready_instr};
use crate::fpu::Step;
use crate::instr::{
    fields_bounded, lockstep_class, lockstep_classify, DecodedInstr, LockstepClass,
};
use crate::machine::{is_access_size, Machine, MipsExecutor};
use crate::status::{full_mask, full_mask_for_usize, ExecStatus, TranslateResult, EXEC_COMPLETE};
use crate::tools::Tools;

verus! {

/// Instructions of a page of code.
pub const ENTRIES_PER_PAGE: u64 = 1024;

/// What a compared instruction can read or write.
#[derive(Debug, Clone, Copy)]
pub struct LockstepSnapshot {
    pub gpr: [u64; 32],
    pub hi: u64,
    pub lo: u64,
    pub pc: u64,
    pub status: u32,
    pub cause: u32,
    pub epc: u64,
    pub fpr: [u64; 32],
    pub fcsr: u32,
    pub fccr: u32,
    pub fexr: u32,
    pub fenr: u32,
    pub in_delay_slot: bool,
}

impl LockstepSnapshot {
    pub open spec fn of(c: MipsCore) -> LockstepSnapshot {
        LockstepSnapshot {
            gpr: c.gpr,
            hi: c.hi,
            lo: c.lo,
            pc: c.pc,
            status: c.cp0_status,
            cause: c.cp0_cause,
            epc: c.cp0_epc,
            fpr: c.fpr,
            fcsr: c.fpu_fcsr,
            fccr: c.fpu_fccr,
            fexr: c.fpu_fexr,
            fenr: c.fpu_fenr,
            in_delay_slot: c.in_delay_slot,
        }
    }

    pub fn capture(core: &MipsCore) -> (s: Self)
        ensures
            s == Self::of(*core),
    {
        LockstepSnapshot {
            gpr: core.gpr,
            hi: core.hi,
            lo: core.lo,
            pc: core.pc,
            status: core.cp0_status,
            cause: core.cp0_cause,
            epc: core.cp0_epc,
            fpr: core.fpr,
            fcsr: core.fpu_fcsr,
            fccr: core.fpu_fccr,
            fexr: core.fpu_fexr,
            fenr: core.fpu_fenr,
            in_delay_slot: core.in_delay_slot,
        }
    }

    /// The state `c` with the snapshot's registers.
    pub open spec fn restored(&self, c: MipsCore, delay_slot_target: u64) -> MipsCore {
        MipsCore {
            gpr: self.gpr,
            hi: self.hi,
            lo: self.lo,
            pc: self.pc,
            cp0_status: self.status,
            cp0_cause: self.cause,
            cp0_epc: self.epc,
            fpr: self.fpr,
            fpu_fcsr: self.fcsr,
            fpu_fccr: self.fccr,
            fpu_fexr: self.fexr,
            fpu_fenr: self.fenr,
            in_delay_slot: self.in_delay_slot,
            delay_slot_target,
            ..c
        }
    }

    pub fn restore_into(&self, core: &mut MipsCore, delay_slot_target: u64)
        ensures
            *final(core) == self.restored(*old(core), delay_slot_target),
    {
        core.gpr = self.gpr;
        core.hi = self.hi;
        core.lo = self.lo;
        core.pc = self.pc;
        core.cp0_status = self.status;
        core.cp0_cause = self.cause;
        core.cp0_epc = self.epc;
        core.fpr = self.fpr;
        core.fpu_fcsr = self.fcsr;
        core.fpu_fccr = self.fccr;
        core.fpu_fexr = self.fexr;
        core.fpu_fenr = self.fenr;
        core.in_delay_slot = self.in_delay_slot;
        core.delay_slot_target = delay_slot_target;
    }

    /// The two differ in what an instruction without floating point can change, in the
    /// floating-point registers if they count, or in the delay slot if it counts.
    pub open spec fn differs(&self, o: &Self, fpr: bool, delay_slot: bool) -> bool {
        ||| self.gpr@ != o.gpr@
        ||| self.hi != o.hi || self.lo != o.lo || self.pc != o.pc
        ||| self.status != o.status || self.cause != o.cause || self.epc != o.epc
        ||| fpr && (self.fpr@ != o.fpr@ || self.fcsr != o.fcsr || self.fccr != o.fccr || self.fexr
            != o.fexr || self.fenr != o.fenr)
        ||| delay_slot && self.in_delay_slot != o.in_delay_slot
    }

    pub fn mismatches(&self, other: &Self, compare_fpr: bool, compare_delay_slot: bool) -> (b: bool)
        ensures
            b == self.differs(other, compare_fpr, compare_delay_slot),
    {
        !same_registers(&self.gpr, &other.gpr) || self.hi != other.hi || self.lo != other.lo
            || self.pc != other.pc || self.status != other.status || self.cause != other.cause
            || self.epc != other.epc || (compare_fpr && (!same_registers(&self.fpr, &other.fpr)
            || self.fcsr != other.fcsr || self.fccr != other.fccr || self.fexr != other.fexr
            || self.fenr != other.fenr)) || (compare_delay_slot && self.in_delay_slot
            != other.in_delay_slot)
    }
}

fn same_registers(a: &[u64; 32], b: &[u64; 32]) -> (r: bool)
    ensures
        r == (a@ == b@),
{
    let mut i: usize = 0;
    while i < 32
        invariant
            i <= 32,
            forall|j: int| 0 <= j < i ==> a@[j] == b@[j],
        decreases 32 - i,
    {
        if a[i] != b[i] {
            assert(a@[i as int] != b@[i as int]);
            return false;
        }
        i = i + 1;
    }
    assert(a@ =~= b@);
    true
}

/// Law: a state does not differ from itself, and a snapshot of it, put back anywhere with
/// its delay-slot target, makes a state that does not differ from it.
pub proof fn law_restored_snapshot_matches(c: MipsCore, elsewhere: MipsCore, fpr: bool, slot: bool)
    ensures
        ({
            let s = LockstepSnapshot::of(c);
            &&& !s.differs(&s, fpr, slot)
            &&& !LockstepSnapshot::of(s.restored(elsewhere, c.delay_slot_target)).differs(
                &s,
                fpr,
                slot,
            )
            &&& s.restored(c, c.delay_slot_target) == c
        }),
{
}

/// Law: the comparison of a load or store leaves the registers of the interpreter's run
/// behind, whatever the other engine made of them; if it made nothing, that run is all
/// that is left.
pub proof fn law_comparison_keeps_the_interpreters_run<T: Tlb, C: MipsCache, B: BusDevice>(
    m: Machine<T, C, B>,
    before: MipsCore,
    jit: MipsCore,
    ran: bool,
)
    ensures
        ({
            let run = LockstepRun::of(m.core);
            let put_back = LockstepSnapshot::of(before).restored(
                m.core,
                before.delay_slot_target,
            );
            let n = m.with_core(jit).load_store_compared(run, ran).1;
            &&& LockstepSnapshot::of(n.core) == LockstepSnapshot::of(m.core)
            &&& n.core.delay_slot_target == m.core.delay_slot_target
            &&& m.with_core(put_back).load_store_compared(run, false) == (Verdict::Unchecked, m)
        }),
{
}

/// Which classes of instructions are compared.
#[derive(Debug, Clone, Copy, PartialEq, Eq, Structural)]
pub struct LockstepEnabled {
    pub alu: bool,
    pub branch: bool,
    pub load_store: bool,
    pub fpu: bool,
}

impl Default for LockstepEnabled {
    fn default() -> (e: Self)
        ensures
            e == (LockstepEnabled { alu: true, branch: true, load_store: true, fpu: true }),
    {
        LockstepEnabled { alu: true, branch: true, load_store: true, fpu: true }
    }
}

impl LockstepEnabled {
    pub open spec fn allows(&self, c: LockstepClass) -> bool {
        match c {
            LockstepClass::Alu => self.alu,
            LockstepClass::Branch => self.branch,
            LockstepClass::LoadStore => self.load_store,
            LockstepClass::Fpu => self.fpu,
            LockstepClass::Other => false,
        }
    }
}

/// What a comparison came to.
#[derive(Debug, Clone, Copy, PartialEq, Eq, Structural)]
pub enum Verdict {
    /// The engines agree.
    Agreed,
    /// They do not.
    Diverged,
    /// The other engine had nothing to say.
    Unchecked,
    /// The instruction waits for a floating-point result.
    Pending,
}

pub open spec fn verdict_of(jit: MipsCore, interp: MipsCore, fpr: bool, slot: bool) -> Verdict {
    if LockstepSnapshot::of(jit).differs(&LockstepSnapshot::of(interp), fpr, slot) {
        Verdict::Diverged
    } else {
        Verdict::Agreed
    }
}

/// Compares the other engine's state with the interpreter's.
pub fn lockstep_judge(jit: &MipsCore, interp: &MipsCore, fpr: bool, slot: bool) -> (v: Verdict)
    ensures
        v == verdict_of(*jit, *interp, fpr, slot),
{
    let a = LockstepSnapshot::capture(jit);
    let b = LockstepSnapshot::capture(interp);
    if a.mismatches(&b, fpr, slot) {
        Verdict::Diverged
    } else {
        Verdict::Agreed
    }
}

/// What a memory access of the other engine comes to.
#[derive(Debug, Clone, Copy, PartialEq, Eq, Structural)]
pub enum LockstepAccess {
    /// It is completed; a read gives this value.
    Value(u64),
    /// It ends with this status.
    Fault(ExecStatus),
    /// It is not the access that the interpreter made.
    Diverged,
}

/// The interpreter's run of an instruction that the other engine is still to run.
#[derive(Debug, Clone, Copy)]
pub struct LockstepRun {
    pub interp: LockstepSnapshot,
    pub delay_slot_target: u64,
}

impl LockstepRun {
    pub open spec fn of(c: MipsCore) -> LockstepRun {
        LockstepRun {
            interp: LockstepSnapshot::of(c),
            delay_slot_target: c.delay_slot_target,
        }
    }
}

/// Functions that the other engine compiles for comparison before they are dropped.
pub const LOCKSTEP_CACHE_FLUSH_THRESHOLD: usize = 4096;

/// Whether the `compiled` functions made for comparison are to be dropped.
pub fn lockstep_flush_if_grown(compiled: usize) -> (b: bool)
    ensures
        b == (compiled >= LOCKSTEP_CACHE_FLUSH_THRESHOLD),
{
    compiled >= LOCKSTEP_CACHE_FLUSH_THRESHOLD
}

impl<T: Tlb, C: MipsCache, B: BusDevice> Machine<T, C, B> {
    /// The verdict on the registers that the other engine has left here, if it ran, and
    /// the machine with those of the interpreter's run.
    pub open spec fn load_store_compared(self, run: LockstepRun, ran: bool) -> (Verdict, Self) {
        (
            if !ran {
                Verdict::Unchecked
            } else if LockstepSnapshot::of(self.core).differs(&run.interp, false, false) {
                Verdict::Diverged
            } else {
                Verdict::Agreed
            },
            self.with_core(run.interp.restored(self.core, run.delay_slot_target)),
        )
    }

    /// A branch together with its delay slot, where it leaves one to be run. The slot is
    /// run without a look at interrupts, and a fetch of it that fails is left undelivered.
    pub open spec fn branch_pair(self, d: DecodedInstr) -> (Step, Self) {
        let (s, m) = self.execute(d);
        match s {
            Step::Done(_) => if m.core.in_delay_slot {
                let (f, n) = m.fetch(false, m.core.pc);
                if f.status == EXEC_COMPLETE {
                    n.execute(ready(f.instr))
                } else {
                    (Step::Done(f.status), n)
                }
            } else {
                (s, m)
            },
            Step::Float(_, _) => (s, m),
        }
    }

    /// The delay slot of the branch at the program counter, whose page of code lies at
    /// `page`, if the pair can be compared: it is on the page, readable, and arithmetic.
    pub open spec fn lockstep_slot(self, page: u32) -> (Option<u32>, Self) {
        let word = (self.core.pc & 0xFFF) >> 2;
        if word + 1 >= ENTRIES_PER_PAGE {
            (None, self)
        } else {
            let (b, sysad) = B::read_result(self.sysad, 4, (page + 4 * (word + 1)) as u32);
            (
                if b.status == BUS_OK && lockstep_class(b.data as u32) == LockstepClass::Alu {
                    Some(b.data as u32)
                } else {
                    None
                },
                Machine { sysad, ..self },
            )
        }
    }

    /// The read of the other engine, checked against the access that the interpreter
    /// made; a real one where it made none.
    pub open spec fn lockstep_read(self, size: usize, va: u64) -> (LockstepAccess, Self) {
        match self.tools.lockstep_mem {
            None => {
                let (r, m) = self.read_data(false, size, va);
                (
                    match r {
                        Ok(v) => LockstepAccess::Value(v),
                        Err(s) => LockstepAccess::Fault(s),
                    },
                    m.with_tools(Tools { lockstep_mem: None, ..m.tools }),
                )
            },
            Some(c) => {
                let (tr, m) = self.nano_translate(AccessType::Read, va);
                (
                    if tr.spec_is_exception() {
                        LockstepAccess::Fault(tr.status)
                    } else if va != c.addr || tr.phys as u64 != c.phys {
                        LockstepAccess::Diverged
                    } else {
                        LockstepAccess::Value(c.value & full_mask(size))
                    },
                    m,
                )
            },
        }
    }

    /// The write of the other engine, checked likewise.
    pub open spec fn lockstep_write(self, size: usize, va: u64, val: u64) -> (LockstepAccess, Self) {
        match self.tools.lockstep_mem {
            None => {
                let (s, m) = self.write_data(false, size, va, val);
                (
                    if s == EXEC_COMPLETE {
                        LockstepAccess::Value(val)
                    } else {
                        LockstepAccess::Fault(s)
                    },
                    m.with_tools(Tools { lockstep_mem: None, ..m.tools }),
                )
            },
            Some(c) => {
                let (tr, m) = self.nano_translate(AccessType::Write, va);
                (
                    if tr.spec_is_exception() {
                        LockstepAccess::Fault(tr.status)
                    } else if va != c.addr || tr.phys as u64 != c.phys || val & full_mask(size)
                        != c.value & full_mask(size) {
                        LockstepAccess::Diverged
                    } else {
                        LockstepAccess::Value(val)
                    },
                    m,
                )
            },
        }
    }
}

impl<T: Tlb, C: MipsCache, B: BusDevice> MipsExecutor<T, C, B> {
    /// The class in which `d` is to be compared; nothing where it is not to be. An
    /// instruction in a delay slot cannot be compared by itself.
    pub fn lockstep_check(&self, enabled: &LockstepEnabled, d: &DecodedInstr) -> (r: Option<
        LockstepClass,
    >)
        ensures
            r == if enabled.allows(lockstep_class(d.raw)) && !self.core.in_delay_slot {
                Some(lockstep_class(d.raw))
            } else {
                None
            },
    {
        let class: LockstepClass = lockstep_classify(d.raw);
        let allowed: bool = match class {
            LockstepClass::Alu => enabled.alu,
            LockstepClass::Branch => enabled.branch,
            LockstepClass::LoadStore => enabled.load_store,
            LockstepClass::Fpu => enabled.fpu,
            LockstepClass::Other => false,
        };
        if allowed && !self.core.in_delay_slot {
            Some(class)
        } else {
            None
        }
    }

    /// Executes the arithmetic instruction `d` and compares with what the other engine
    /// made of the state before it.
    pub fn lockstep_check_alu(&mut self, d: &DecodedInstr, jit: Option<MipsCore>) -> (r: Option<
        (Step, Verdict),
    >)
        requires
            old(self).wf(),
            fields_bounded(*d),
        ensures
            final(self).wf(),
            r is Some == (!old(self)@.core.in_delay_slot && jit is Some),
            r is None ==> final(self)@ == old(self)@,
            r matches Some((s, v)) ==> {
                &&& (s, final(self)@) == old(self)@.execute(*d)
                &&& v == match s {
                    Step::Done(_) => verdict_of(jit->0, final(self)@.core, false, false),
                    Step::Float(_, _) => Verdict::Pending,
                }
            },
    {
        if self.core.in_delay_slot {
            return None;
        }
        match jit {
            Some(j) => {
                let s: Step = self.exec_decoded(d);
                let v: Verdict = match s {
                    Step::Done(_) => lockstep_judge(&j, &self.core, false, false),
                    Step::Float(_, _) => Verdict::Pending,
                };
                Some((s, v))
            },
            None => None,
        }
    }

    /// The same for a floating-point instruction. If the other engine did not move, it
    /// left the instruction to the interpreter, and there is nothing to compare.
    pub fn lockstep_check_fpu(&mut self, d: &DecodedInstr, jit: Option<MipsCore>) -> (r: Option<
        (Step, Verdict),
    >)
        requires
            old(self).wf(),
            fields_bounded(*d),
        ensures
            final(self).wf(),
            r is Some == (!old(self)@.core.in_delay_slot && jit is Some),
            r is None ==> final(self)@ == old(self)@,
            r matches Some((s, v)) ==> {
                &&& (s, final(self)@) == old(self)@.execute(*d)
                &&& v == if jit->0.pc == old(self)@.core.pc {
                    Verdict::Unchecked
                } else {
                    match s {
                        Step::Done(_) => verdict_of(jit->0, final(self)@.core, true, false),
                        Step::Float(_, _) => Verdict::Pending,
                    }
                }
            },
    {
        if self.core.in_delay_slot {
            return None;
        }
        match jit {
            Some(j) => {
                let pc: u64 = self.core.pc;
                let s: Step = self.exec_decoded(d);
                if j.pc == pc {
                    return Some((s, Verdict::Unchecked));
                }
                let v: Verdict = match s {
                    Step::Done(_) => lockstep_judge(&j, &self.core, true, false),
                    Step::Float(_, _) => Verdict::Pending,
                };
                Some((s, v))
            },
            None => None,
        }
    }

    /// The delay slot of the branch at the program counter, whose page of code lies at
    /// `page`, if the pair can be compared: it is on the page, and arithmetic.
    pub fn lockstep_slot(&mut self, page: u32) -> (r: Option<u32>)
        requires
            old(self).wf(),
            page <= 0xFFFF_F000,
        ensures
            final(self).wf(),
            (r, final(self)@) == old(self)@.lockstep_slot(page),
    {
        let word: u64 = (self.core.pc & 0xFFF) >> 2;
        proof {
            lemma_word(self.core.pc);
        }
        if word + 1 >= ENTRIES_PER_PAGE {
            return None;
        }
        let at: u32 = page + 4 * (word as u32 + 1);
        let b: BusRead32 = self.sysad.read32(at);
        if b.status != BUS_OK {
            return None;
        }
        if lockstep_classify(b.data) == LockstepClass::Alu {
            Some(b.data)
        } else {
            None
        }
    }

    fn exec_branch_pair(&mut self, d: &DecodedInstr) -> (s: Step)
        requires
            old(self).wf(),
            fields_bounded(*d),
        ensures
            final(self).wf(),
            (s, final(self)@) == old(self)@.branch_pair(*d),
    {
        let s: Step = self.exec_decoded(d);
        match s {
            Step::Done(_) => {
                if self.core.in_delay_slot {
                    let pc: u64 = self.core.pc;
                    let f: FetchInstrResult = self.fetch_instr(pc);
                    if f.status != EXEC_COMPLETE {
                        return Step::Done(f.status);
                    }
                    let slot: DecodedInstr = ready_instr(f.instr);
                    return self.exec_decoded(&slot);
                }
                s
            },
            Step::Float(_, _) => s,
        }
    }

    /// Executes the branch `d`, whose page of code lies at `page`, and its delay slot, and
    /// compares with what the other engine made of the state before them. Nothing is
    /// executed where the pair cannot be compared: in a delay slot, where
    /// `lockstep_slot` gives none, or where the other engine has no code for it.
    pub fn lockstep_check_branch(
        &mut self,
        page: u32,
        d: &DecodedInstr,
        jit: Option<MipsCore>,
    ) -> (r: Option<(Step, Verdict)>)
        requires
            old(self).wf(),
            fields_bounded(*d),
            page <= 0xFFFF_F000,
        ensures
            final(self).wf(),
            ({
                let (slot, m) = old(self)@.lockstep_slot(page);
                if old(self)@.core.in_delay_slot {
                    r is None && final(self)@ == old(self)@
                } else if slot is None || jit is None {
                    r is None && final(self)@ == m
                } else {
                    let (s, n) = m.branch_pair(*d);
                    &&& final(self)@ == n
                    &&& r == Some(
                        (
                            s,
                            match s {
                                Step::Done(_) => verdict_of(jit->0, n.core, false, true),
                                Step::Float(_, _) => Verdict::Pending,
                            },
                        ),
                    )
                }
            }),
    {
        if self.core.in_delay_slot {
            return None;
        }
        if self.lockstep_slot(page).is_none() {
            return None;
        }
        match jit {
            Some(j) => {
                let s: Step = self.exec_branch_pair(d);
                let v: Verdict = match s {
                    Step::Done(_) => lockstep_judge(&j, &self.core, false, true),
                    Step::Float(_, _) => Verdict::Pending,
                };
                Some((s, v))
            },
            None => None,
        }
    }

    /// Executes the load or store `d` first, since its access cannot be made twice. If it
    /// was completed, the registers are put back for the other engine, which then runs
    /// with `lockstep_jit_read` and `lockstep_jit_write` for its accesses, and the
    /// comparison ends with `lockstep_finish_load_store`.
    pub fn lockstep_check_load_store(&mut self, d: &DecodedInstr) -> (r: Option<
        (Step, Option<LockstepRun>),
    >)
        requires
            old(self).wf(),
            fields_bounded(*d),
        ensures
            final(self).wf(),
            ({
                let c = old(self)@.core;
                let (s, m) = old(self)@.execute(*d);
                if c.in_delay_slot {
                    r is None && final(self)@ == old(self)@
                } else if s == Step::Done(EXEC_COMPLETE) {
                    &&& r == Some((s, Some(LockstepRun::of(m.core))))
                    &&& final(self)@ == m.with_core(
                        LockstepSnapshot::of(c).restored(m.core, c.delay_slot_target),
                    )
                } else {
                    r == Some((s, None::<LockstepRun>)) && final(self)@ == m
                }
            }),
    {
        if self.core.in_delay_slot {
            return None;
        }
        let before = LockstepSnapshot::capture(&self.core);
        let target: u64 = self.core.delay_slot_target;
        let s: Step = self.exec_decoded(d);
        let completed: bool = match s {
            Step::Done(status) => status == EXEC_COMPLETE,
            Step::Float(_, _) => false,
        };
        if !completed {
            return Some((s, None));
        }
        let run = LockstepRun {
            interp: LockstepSnapshot::capture(&self.core),
            delay_slot_target: self.core.delay_slot_target,
        };
        before.restore_into(&mut self.core, target);
        Some((s, Some(run)))
    }

    /// Ends the comparison of a load or store, once the other engine has run (`ran`) or
    /// has turned out to have no code for it. The interpreter's run is the one that
    /// stands.
    pub fn lockstep_finish_load_store(&mut self, run: &LockstepRun, ran: bool) -> (v: Verdict)
        requires
            old(self).wf(),
        ensures
            final(self).wf(),
            (v, final(self)@) == old(self)@.load_store_compared(*run, ran),
    {
        let jit = LockstepSnapshot::capture(&self.core);
        run.interp.restore_into(&mut self.core, run.delay_slot_target);
        if !ran {
            Verdict::Unchecked
        } else if jit.mismatches(&run.interp, false, false) {
            Verdict::Diverged
        } else {
            Verdict::Agreed
        }
    }

    /// A read of the other engine.
    pub fn lockstep_jit_read(&mut self, size: usize, va: u64) -> (r: LockstepAccess)
        requires
            old(self).wf(),
            is_access_size(size),
        ensures
            final(self).wf(),
            (r, final(self)@) == old(self)@.lockstep_read(size, va),
    {
        match self.tools.lockstep_mem {
            None => {
                let r: LockstepAccess = match self.read_data(size, va) {
                    Ok(v) => LockstepAccess::Value(v),
                    Err(s) => LockstepAccess::Fault(s),
                };
                self.tools.lockstep_mem = None;
                r
            },
            Some(c) => {
                let tr: TranslateResult = self.nanotlb_translate(AccessType::Read, va);
                if tr.is_exception() {
                    LockstepAccess::Fault(tr.status)
                } else if va != c.addr || tr.phys as u64 != c.phys {
                    LockstepAccess::Diverged
                } else {
                    LockstepAccess::Value(c.value & full_mask_for_usize(size))
                }
            },
        }
    }

    /// A write of the other engine.
    pub fn lockstep_jit_write(&mut self, size: usize, va: u64, val: u64) -> (r: LockstepAccess)
        requires
            old(self).wf(),
            is_access_size(size),
        ensures
            final(self).wf(),
            (r, final(self)@) == old(self)@.lockstep_write(size, va, val),
    {
        match self.tools.lockstep_mem {
            None => {
                let s: ExecStatus = self.write_data(size, va, val);
                self.tools.lockstep_mem = None;
                if s == EXEC_COMPLETE {
                    LockstepAccess::Value(val)
                } else {
                    LockstepAccess::Fault(s)
                }
            },
            Some(c) => {
                let tr: TranslateResult = self.nanotlb_translate(AccessType::Write, va);
                let mask: u64 = full_mask_for_usize(size);
                if tr.is_exception() {
                    LockstepAccess::Fault(tr.status)
                } else if va != c.addr || tr.phys as u64 != c.phys || val & mask != c.value
                    & mask {
                    LockstepAccess::Diverged
                } else {
                    LockstepAccess::Value(val)
                }
            },
        }
    }
}

proof fn lemma_word(pc: u64)
    ensures
        (pc & 0xFFF) >> 2 < 1024,
{
    crate::bits::lemma_bits_of_double(pc);
}

} // verus!
