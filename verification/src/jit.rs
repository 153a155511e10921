//! When compiled code is run in place of the interpreter, and when it is asked for.
use vstd::prelude::*;

use crate::bus::{BusDevice, FetchInstrResult, MipsCache, Tlb};
use crate::cpu_core::{MipsCore, STATUS_FR};
use crate::exec::{ready, ready_instr};
use crate::fpu::Step;
use crate::instr::{fields_bounded, DecodedInstr};
use crate::machine::{is_access_size, truncated, Machine, MipsExecutor};
use crate::status::{ExecStatus, EXEC_COMPLETE};

verus! {

/// What is known of compiled code for one instruction.
#[derive(Debug, Clone, Copy, PartialEq, Eq, Structural)]
pub struct CodeEntry {
    /// Code was published here at some time.
    pub published: bool,
    /// The code is there and still good.
    pub valid: bool,
    /// The instruction has been reached often enough to be compiled.
    pub hot: bool,
    /// Its compilation is already under way.
    pub scheduled: bool,
}

/// A request for code that starts at word `offset` of the present page.
#[derive(Debug, Clone, Copy, PartialEq, Eq, Structural)]
pub struct CompileRequest {
    pub offset: u16,
    /// For the mode in which all floating-point registers have 64 bits.
    pub compiled_for_fr1: bool,
}

/// What to do with the instruction at the program counter.
#[derive(Debug, Clone, Copy, PartialEq, Eq, Structural)]
pub enum JitAction {
    Interpret,
    /// Run the code that is there.
    Run,
    /// Compile now, and run the result if there is one.
    Compile(CompileRequest),
    /// Ask for code, and interpret meanwhile.
    Queue(CompileRequest),
}

/// What an attempt to compile at once came to.
#[derive(Debug, Clone, Copy, PartialEq, Eq, Structural)]
pub enum CompileOutcome {
    /// Compiled code took up too much room: nothing was tried.
    ArenaFull,
    /// There was no memory left for the code.
    OutOfMemory,
    /// The attempt is over, and there is good code now, or still none.
    Over { valid: bool },
}

/// How far an instruction got whose code may be compiled.
#[derive(Debug, Clone, Copy, PartialEq, Eq, Structural)]
pub enum Dispatch {
    /// It was interpreted.
    Interpreted(Step),
    /// It was interpreted, and code is to be asked for.
    Queued(CompileRequest, Step),
    /// The code that is there is to be run.
    Run,
    /// Code is to be compiled now; `exec_compiled` takes the outcome.
    Compile(CompileRequest),
    /// All compiled code is to be dropped, and the instruction dispatched again.
    Flush,
}

impl Dispatch {
    /// An instruction that waits for a floating-point result is a decoded one.
    pub open spec fn can_be_completed(&self) -> bool {
        match *self {
            Dispatch::Interpreted(Step::Float(_, d)) => fields_bounded(d),
            Dispatch::Queued(_, Step::Float(_, d)) => fields_bounded(d),
            _ => true,
        }
    }
}

/// Whether compiled code takes up more room than it may; `used` is how much, if the
/// compiler is at hand.
pub fn arena_is_full(used: Option<usize>, threshold: usize) -> (b: bool)
    ensures
        b == (used matches Some(n) && n > threshold),
{
    match used {
        Some(n) => n > threshold,
        None => false,
    }
}

/// Bytes of a page of code.
pub const CODE_PAGE_SIZE: u32 = 4096;

/// Number of the instruction on its page.
pub open spec fn entry_offset(pc: u64) -> u64 {
    (pc & 0xFFF) >> 2
}

impl MipsCore {
    pub open spec fn compile_request(&self) -> CompileRequest {
        CompileRequest {
            offset: entry_offset(self.pc) as u16,
            compiled_for_fr1: self.cp0_status & STATUS_FR != 0,
        }
    }

    /// The decision, and whether the trigger is used up by it. Code is looked for where a
    /// jump has arrived or where there has been code before. Cold instructions are left
    /// alone, but not if compilation is immediate.
    pub open spec fn jit_decision(&self, dispatch: bool, immediate: bool, e: CodeEntry) -> (
        JitAction,
        bool,
    ) {
        if !dispatch || !(self.jit_trigger || e.published) {
            (JitAction::Interpret, false)
        } else if e.valid {
            (JitAction::Run, false)
        } else if immediate {
            (JitAction::Compile(self.compile_request()), true)
        } else if !e.hot {
            (JitAction::Interpret, false)
        } else if e.scheduled {
            (JitAction::Interpret, true)
        } else {
            (JitAction::Queue(self.compile_request()), true)
        }
    }

    /// Decides between compiled code and the interpreter.
    pub fn jit_gate(&mut self, dispatch: bool, immediate: bool, e: CodeEntry) -> (a: JitAction)
        ensures
            a == old(self).jit_decision(dispatch, immediate, e).0,
            *final(self) == if old(self).jit_decision(dispatch, immediate, e).1 {
                MipsCore { jit_trigger: false, ..*old(self) }
            } else {
                *old(self)
            },
    {
        if !dispatch || !(self.jit_trigger || e.published) {
            return JitAction::Interpret;
        }
        if e.valid {
            return JitAction::Run;
        }
        if !immediate && !e.hot {
            return JitAction::Interpret;
        }
        self.jit_trigger = false;
        let request = CompileRequest {
            offset: ((self.pc & 0xFFF) >> 2) as u16,
            compiled_for_fr1: self.cp0_status & STATUS_FR != 0,
        };
        if immediate {
            JitAction::Compile(request)
        } else if !e.scheduled {
            JitAction::Queue(request)
        } else {
            JitAction::Interpret
        }
    }

    /// What follows on an attempt to compile: whether to run the code, to interpret, or
    /// (`None`) to drop all code and start over. The page then counts as a new one, where
    /// code is looked for.
    pub open spec fn after_compile(self, c: CompileOutcome) -> (Option<bool>, MipsCore) {
        match c {
            CompileOutcome::ArenaFull | CompileOutcome::OutOfMemory => (
                None,
                MipsCore { jit_trigger: true, ..self },
            ),
            CompileOutcome::Over { valid } => (Some(valid), self),
        }
    }

    /// The state with code on physical page `page`: arriving on another page than before
    /// is worth compiling.
    pub open spec fn on_page(self, page: u32) -> MipsCore {
        MipsCore {
            code_page: Some(page),
            jit_trigger: self.jit_trigger || self.code_page != Some(page),
            ..self
        }
    }

    /// Notes that code is on physical page `page`, and tells whether it was not before.
    pub fn track_page(&mut self, page: u32) -> (moved: bool)
        ensures
            moved == (old(self).code_page != Some(page)),
            *final(self) == old(self).on_page(page),
    {
        let moved: bool = match self.code_page {
            Some(p) => p != page,
            None => true,
        };
        if moved {
            self.jit_trigger = true;
        }
        self.code_page = Some(page);
        moved
    }
}

impl<T: Tlb, C: MipsCache, B: BusDevice> Machine<T, C, B> {
    /// One instruction for compiled code that leaves it to the interpreter: no look at
    /// interrupts, breakpoints or counters, which that code has taken already.
    pub open spec fn dispatch_one(self) -> (Step, Self) {
        let (f, m) = self.fetch(false, self.core.pc);
        if f.status == EXEC_COMPLETE {
            m.execute(ready(f.instr))
        } else {
            let (s, m) = m.fetch_failed(f.status);
            (Step::Done(s), m)
        }
    }
}

impl<T: Tlb, C: MipsCache, B: BusDevice> Machine<T, C, B> {
    /// What becomes of the instruction `d`, once it is decided who executes it.
    pub open spec fn dispatched(
        self,
        d: DecodedInstr,
        dispatch: bool,
        immediate: bool,
        e: CodeEntry,
    ) -> (Dispatch, Self) {
        let (action, used_up) = self.core.jit_decision(dispatch, immediate, e);
        let m = if used_up {
            self.with_core(MipsCore { jit_trigger: false, ..self.core })
        } else {
            self
        };
        match action {
            JitAction::Run => (Dispatch::Run, m),
            JitAction::Compile(request) => (Dispatch::Compile(request), m),
            JitAction::Queue(request) => {
                let (s, n) = m.execute(d);
                (Dispatch::Queued(request, s), n)
            },
            JitAction::Interpret => {
                let (s, n) = m.execute(d);
                (Dispatch::Interpreted(s), n)
            },
        }
    }

    /// The instruction `d` after an attempt to compile it.
    pub open spec fn compiled(self, d: DecodedInstr, c: CompileOutcome) -> (Dispatch, Self) {
        let (run, core) = self.core.after_compile(c);
        let m = self.with_core(core);
        match run {
            None => (Dispatch::Flush, m),
            Some(true) => (Dispatch::Run, m),
            Some(false) => {
                let (s, n) = m.execute(d);
                (Dispatch::Interpreted(s), n)
            },
        }
    }
}

impl<T: Tlb, C: MipsCache, B: BusDevice> MipsExecutor<T, C, B> {
    /// Executes `d`, unless compiled code is to be run, or made, in its place.
    pub fn exec_dispatched(
        &mut self,
        d: &DecodedInstr,
        dispatch: bool,
        immediate: bool,
        e: CodeEntry,
    ) -> (r: Dispatch)
        requires
            old(self).wf(),
            fields_bounded(*d),
        ensures
            final(self).wf(),
            (r, final(self)@) == old(self)@.dispatched(*d, dispatch, immediate, e),
            r.can_be_completed(),
    {
        match self.core.jit_gate(dispatch, immediate, e) {
            JitAction::Run => Dispatch::Run,
            JitAction::Compile(request) => Dispatch::Compile(request),
            JitAction::Queue(request) => Dispatch::Queued(request, self.exec_decoded(d)),
            JitAction::Interpret => Dispatch::Interpreted(self.exec_decoded(d)),
        }
    }

    /// Goes on with `d` after an attempt to compile it.
    pub fn exec_compiled(&mut self, d: &DecodedInstr, c: CompileOutcome) -> (r: Dispatch)
        requires
            old(self).wf(),
            fields_bounded(*d),
        ensures
            final(self).wf(),
            (r, final(self)@) == old(self)@.compiled(*d, c),
            r.can_be_completed(),
    {
        match c {
            CompileOutcome::ArenaFull | CompileOutcome::OutOfMemory => {
                self.core.jit_trigger = true;
                Dispatch::Flush
            },
            CompileOutcome::Over { valid } => if valid {
                Dispatch::Run
            } else {
                Dispatch::Interpreted(self.exec_decoded(d))
            },
        }
    }

    /// Fetches and executes one instruction, and nothing else.
    pub fn interp_dispatch_one(&mut self) -> (s: Step)
        requires
            old(self).wf(),
        ensures
            final(self).wf(),
            (s, final(self)@) == old(self)@.dispatch_one(),
    {
        let pc: u64 = self.core.pc;
        let f: FetchInstrResult = self.fetch_instr(pc);
        if f.status != EXEC_COMPLETE {
            return Step::Done(self.fetch_failure(f.status));
        }
        let d: DecodedInstr = ready_instr(f.instr);
        self.exec_decoded(&d)
    }
}

impl<T: Tlb, C: MipsCache, B: BusDevice> MipsExecutor<T, C, B> {
    /// A read for compiled code: the status, and the value where it is good.
    pub fn jit_read(&mut self, size: usize, va: u64) -> (r: (ExecStatus, u64))
        requires
            old(self).wf(),
            is_access_size(size),
        ensures
            final(self).wf(),
            final(self)@ == old(self)@.read_data(false, size, va).1,
            r == match old(self)@.read_data(false, size, va).0 {
                Ok(v) => (EXEC_COMPLETE, v),
                Err(s) => (s, 0u64),
            },
    {
        match self.read_data(size, va) {
            Ok(v) => (EXEC_COMPLETE, v),
            Err(s) => (s, 0),
        }
    }

    /// A write for compiled code, of the low bytes of `val`.
    pub fn jit_write(&mut self, size: usize, va: u64, val: u64) -> (s: ExecStatus)
        requires
            old(self).wf(),
            is_access_size(size),
        ensures
            final(self).wf(),
            (s, final(self)@) == old(self)@.write_data(false, size, va, truncated(val, size)),
    {
        let low: u64 = if size == 1 {
            #[verifier::truncate] (val as u8) as u64
        } else if size == 2 {
            #[verifier::truncate] (val as u16) as u64
        } else if size == 4 {
            #[verifier::truncate] (val as u32) as u64
        } else {
            val
        };
        self.write_data(size, va, low)
    }
}

/// Law: while the dispatch of compiled code is off, each instruction is interpreted, as if
/// there were no compiler.
pub proof fn law_without_dispatch_all_is_interpreted<T: Tlb, C: MipsCache, B: BusDevice>(
    m: Machine<T, C, B>,
    d: DecodedInstr,
    immediate: bool,
    e: CodeEntry,
)
    ensures
        m.dispatched(d, false, immediate, e) == (
            Dispatch::Interpreted(m.execute(d).0),
            m.execute(d).1,
        ),
{
}

/// Law: when all compiled code has been dropped for want of room, the instruction that
/// was to be compiled is offered for compilation again.
pub proof fn law_dropped_code_is_compiled_again<T: Tlb, C: MipsCache, B: BusDevice>(
    m: Machine<T, C, B>,
    d: DecodedInstr,
    c: CompileOutcome,
    e: CodeEntry,
)
    requires
        m.compiled(d, c).0 == Dispatch::Flush,
        !e.valid,
    ensures
        m.compiled(d, c).1.dispatched(d, true, true, e).0 == Dispatch::Compile(
            m.core.compile_request(),
        ),
{
}

} // verus!
