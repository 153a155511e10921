//! Running under the debugger: one instruction after the other, until something stops
//! the run.
use vstd::prelude::*;
use vstd::string::StringExecFns;

use crate::bus::{BusDevice, MipsCache, Tlb};
use crate::breakpoints::{Breakpoint, BpType, BreakpointTable};
use crate::cpu_core::MipsCore;
use crate::frame::{
    law_completion_leaves_the_debugger_alone, law_debugger_accesses_leave_no_trace,
    law_steps_leave_the_debugger_alone,
};
use crate::fpu::{FloatReply, FloatRequest, Step};
use crate::instr::{fields_bounded, DecodedInstr};
use crate::machine::{Machine, MipsExecutor};
use crate::memory::fetched_word;
use crate::snapshot::lemma_unwriting_back;
use crate::status::{
    status_code, CAUSE_EXCCODE_SHIFT, ExecStatus, EXEC_BREAKPOINT, EXEC_IS_EXCEPTION, EXEC_IS_TLB_REFILL, EXEC_RETRY,
};
use crate::symbols::{format_pc_symbol, pc_symbol, SymbolTable};
use crate::text::{dec, hex_fixed, put, put_dec, put_hex_fixed};
use crate::traceback::TracebackEntry;
use crate::undo::{CpuSnapshot, MemoryWrite};

verus! {

/// Instructions after which others get a chance to stop the run.
pub const YIELD_STEPS: u32 = 500000;

/// Progress of a run under the debugger.
#[derive(Clone, Copy, Debug, PartialEq, Eq, Structural)]
pub struct DebugRun {
    /// Instructions still to execute; no limit where there is none.
    pub count: Option<usize>,
    /// No instruction has been executed yet.
    pub first: bool,
    /// No interrupts are taken.
    pub no_interrupts: bool,
    pub since_yield: u32,
}

/// Why a run stops after an instruction.
#[derive(Clone, Copy, Debug, PartialEq, Eq, Structural)]
pub enum Stop {
    /// The bus was busy.
    Retry,
    Exception(u32),
    TlbMiss(u32),
    Breakpoint(Option<usize>),
}

/// What comes next in a run.
#[derive(Clone, Copy, Debug, PartialEq, Eq, Structural)]
pub enum Turn {
    /// It was asked to stop.
    Interrupted,
    /// All instructions have been executed.
    Counted,
    /// An instruction ended.
    Stepped(ExecStatus),
    /// An instruction waits for a floating-point result.
    Float(FloatRequest, DecodedInstr),
}

/// How a run goes on after an instruction.
#[derive(Clone, Copy, Debug, PartialEq, Eq, Structural)]
pub enum After {
    Stop(Stop),
    /// Others get a chance first.
    Yield,
    Continue,
}

impl DebugRun {
    pub open spec fn start(count: Option<usize>, no_interrupts: bool) -> DebugRun {
        DebugRun { count, first: true, no_interrupts, since_yield: 0 }
    }

    /// One instruction less to execute.
    pub open spec fn counted(self) -> DebugRun {
        DebugRun {
            count: match self.count {
                Some(n) => Some((n - 1) as usize),
                None => None,
            },
            ..self
        }
    }

    pub fn new(count: Option<usize>, no_interrupts: bool) -> (r: DebugRun)
        ensures
            r == DebugRun::start(count, no_interrupts),
    {
        DebugRun { count, first: true, no_interrupts, since_yield: 0 }
    }
}

/// Whether, and why, an instruction that ended with `status` stops a run. Exceptions
/// stop it where their bit in `mask` is set.
pub open spec fn stops(status: ExecStatus, mask: u32, hit: Option<usize>) -> Option<Stop> {
    let code = status_code(status);
    if status == EXEC_RETRY {
        Some(Stop::Retry)
    } else if status & EXEC_IS_EXCEPTION != 0 {
        if mask & (1u32 << code) == 0 {
            None
        } else if status & EXEC_IS_TLB_REFILL == 0 {
            Some(Stop::Exception(code))
        } else {
            Some(Stop::TlbMiss(code))
        }
    } else if status == EXEC_BREAKPOINT {
        Some(Stop::Breakpoint(hit))
    } else {
        None
    }
}

/// What is said of a stop at `pc`. Of the breakpoint that ends a run to an address
/// nothing is said.
pub open spec fn stop_text(pc: u64, stop: Stop) -> Option<Seq<char>> {
    let at = "PC="@ + hex_fixed(pc as nat, 16) + ": "@;
    match stop {
        Stop::Retry => Some(at + "Retry (Bus Busy)"@),
        Stop::Exception(code) => Some(at + "Exception code="@ + dec(code as nat)),
        Stop::TlbMiss(code) => Some(at + "TLB Miss code="@ + dec(code as nat)),
        Stop::Breakpoint(Some(id)) => if id == 0 {
            None
        } else {
            Some(at + "Breakpoint "@ + dec(id as nat) + " hit"@)
        },
        Stop::Breakpoint(None) => Some(at + "Breakpoint hit"@),
    }
}

fn stop_of(status: ExecStatus, mask: u32, hit: Option<usize>) -> (r: Option<Stop>)
    ensures
        r == stops(status, mask, hit),
{
    if status == EXEC_RETRY {
        return Some(Stop::Retry);
    }
    if status & EXEC_IS_EXCEPTION != 0 {
        let code: u32 = (status >> CAUSE_EXCCODE_SHIFT) & 0x1F;
        assert((status >> 2) & 0x1F < 32) by (bit_vector);
        if mask & (1u32 << code) == 0 {
            return None;
        }
        return if status & EXEC_IS_TLB_REFILL == 0 {
            Some(Stop::Exception(code))
        } else {
            Some(Stop::TlbMiss(code))
        };
    }
    if status == EXEC_BREAKPOINT {
        return Some(Stop::Breakpoint(hit));
    }
    None
}

impl Stop {
    /// What is said of a stop at `pc`.
    pub fn message(&self, pc: u64) -> (r: Option<String>)
        ensures
            match stop_text(pc, *self) {
                Some(t) => r is Some && r->0@ == t,
                None => r is None,
            },
    {
        let mut s: String = "PC=".to_string();
        put_hex_fixed(&mut s, pc, 16);
        put(&mut s, ": ");
        match self {
            Stop::Retry => {
                put(&mut s, "Retry (Bus Busy)");
            },
            Stop::Exception(code) => {
                put(&mut s, "Exception code=");
                put_dec(&mut s, *code as u64);
            },
            Stop::TlbMiss(code) => {
                put(&mut s, "TLB Miss code=");
                put_dec(&mut s, *code as u64);
            },
            Stop::Breakpoint(Some(id)) => {
                if *id == 0 {
                    return None;
                }
                put(&mut s, "Breakpoint ");
                put_dec(&mut s, *id as u64);
                put(&mut s, " hit");
            },
            Stop::Breakpoint(None) => {
                put(&mut s, "Breakpoint hit");
            },
        }
        Some(s)
    }
}

/// An instruction in a listing. `dis` is its disassembly.
pub open spec fn instr_line(pc: u64, instr: u32, symbols: SymbolTable, dis: Seq<char>) -> Seq<char> {
    hex_fixed(pc as nat, 16) + pc_symbol(pc, symbols) + ": "@ + hex_fixed(instr as nat, 8) + " "@
        + dis
}

/// Appends the line of an instruction in a listing.
pub fn put_instr_line(s: &mut String, pc: u64, instr: u32, symbols: &SymbolTable, dis: &str)
    ensures
        final(s)@ == old(s)@ + instr_line(pc, instr, *symbols, dis@),
{
    put_hex_fixed(s, pc, 16);
    let sym: String = format_pc_symbol(pc, symbols);
    put(s, sym.as_str());
    put(s, ": ");
    put_hex_fixed(s, instr as u64, 8);
    put(s, " ");
    put(s, dis);
    assert(s@ =~= old(s)@ + instr_line(pc, instr, *symbols, dis@));
}

impl BreakpointTable {
    /// The first breakpoint, which is kept for runs to an address, is one of its sort.
    pub open spec fn keeps_temp(&self) -> bool {
        self.breakpoints@.len() > 0 && self.breakpoints@[0].enabled ==> self.breakpoints@[0].kind
            == BpType::Pc
    }

    /// Whether the first breakpoint can be used for runs to an address.
    pub fn is_temp_kept(&self) -> (b: bool)
        ensures
            b == self.keeps_temp(),
    {
        !(self.breakpoints.len() > 0 && self.breakpoints[0].enabled) || self.breakpoints[0].kind
            == BpType::Pc
    }

    /// `t` is this table with the first breakpoint off.
    pub open spec fn is_cleared_to(&self, t: BreakpointTable) -> bool {
        &&& t.next_bp_id == self.next_bp_id
        &&& t.breakpoints@ == if self.breakpoints@.len() > 0 {
            self.breakpoints@.update(0, (Breakpoint { enabled: false, ..self.breakpoints@[0] }))
        } else {
            self.breakpoints@
        }
    }
}

impl<T: Tlb, C: MipsCache, B: BusDevice> Machine<T, C, B> {
    /// The machine with switches set for the next step.
    pub open spec fn skipping(self, breakpoints: bool, interrupts: bool) -> Self {
        Machine {
            skip_breakpoints: self.skip_breakpoints || breakpoints,
            skip_interrupts: self.skip_interrupts || interrupts,
            ..self
        }
    }

    /// A step of a run: a breakpoint at its very start is passed over, so that the run
    /// gets under way, unless it is the one that ends the run.
    pub open spec fn debug_step(self, first: bool, no_interrupts: bool) -> (Step, Self) {
        let (s, m) = self.skipping(false, no_interrupts).step();
        if s == Step::Done(EXEC_BREAKPOINT) && m.last_bp_hit != Some(0usize) && first {
            m.skipping(true, no_interrupts).step()
        } else {
            (s, m)
        }
    }

    /// The last executed instruction.
    pub open spec fn last_executed(&self) -> Option<TracebackEntry> {
        if self.tools.trace.len() > 0 {
            Some(self.tools.trace.last())
        } else {
            None
        }
    }
}

pub(crate) proof fn lemma_debug_step_keeps<T: Tlb, C: MipsCache, B: BusDevice>(
    m: Machine<T, C, B>,
    first: bool,
    no_interrupts: bool,
)
    ensures
        m.keeps(m.debug_step(first, no_interrupts).1),
{
    law_steps_leave_the_debugger_alone(m.skipping(false, no_interrupts));
    let n = m.skipping(false, no_interrupts).step().1;
    law_steps_leave_the_debugger_alone(n.skipping(true, no_interrupts));
}

/// What a run shows of an executed instruction.
pub struct Shown {
    /// To the user.
    pub console: Option<String>,
    /// To the log.
    pub log: Option<String>,
    /// To the trace file.
    pub file: Option<String>,
}

/// A text that is given or not.
pub open spec fn text_of(s: Option<String>) -> Option<Seq<char>> {
    match s {
        Some(t) => Some(t@),
        None => None,
    }
}

pub open spec fn text_if(b: bool, s: Seq<char>) -> Option<Seq<char>> {
    if b {
        Some(s)
    } else {
        None
    }
}

impl<T: Tlb, C: MipsCache, B: BusDevice> MipsExecutor<T, C, B> {
    fn debug_step(&mut self, first: bool, no_interrupts: bool) -> (s: Step)
        requires
            old(self).wf(),
        ensures
            final(self).wf(),
            (s, final(self)@) == old(self)@.debug_step(first, no_interrupts),
            s matches Step::Float(_, d) ==> fields_bounded(d),
    {
        if no_interrupts {
            self.skip_interrupts = true;
        }
        assert(self@ == old(self)@.skipping(false, no_interrupts));
        let s: Step = self.step();
        let again: bool = match s {
            Step::Done(status) => status == EXEC_BREAKPOINT && first && match self.last_bp_hit {
                Some(id) => id != 0,
                None => true,
            },
            Step::Float(_, _) => false,
        };
        if again {
            let ghost m = self@;
            self.skip_breakpoints = true;
            if no_interrupts {
                self.skip_interrupts = true;
            }
            assert(self@ == m.skipping(true, no_interrupts));
            return self.step();
        }
        s
    }

    /// One step of the run, with the state before it, and its writes, in the undo buffer
    /// if that is on.
    fn debug_step_recorded(&mut self, first: bool, no_interrupts: bool) -> (s: Step)
        requires
            old(self).wf(),
        ensures
            final(self).wf(),
            s matches Step::Float(_, d) ==> fields_bounded(d),
            old(self)@.is_debug_step(s, final(self)@, first, no_interrupts),
    {
        if !self.tools.undo_buffer.is_enabled() {
            return self.debug_step(first, no_interrupts);
        }
        let snap: CpuSnapshot = self.create_snapshot();
        let ghost gs = snap;
        self.tools.mark(snap);
        let ghost m0 = self@;
        assert(m0 == old(self)@.marked(gs));
        let s: Step = self.debug_step(first, no_interrupts);
        proof {
            lemma_debug_step_keeps(m0, first, no_interrupts);
        }
        let ghost m1 = self@;
        let Ghost(w) = self.tools.commit();
        assert(self@ == m1.committed(w));
        s
    }

    /// Executes the next instruction of `run`, unless it was asked to stop or has come to
    /// its end.
    pub fn debug_turn(&mut self, run: &mut DebugRun, running: bool) -> (t: Turn)
        requires
            old(self).wf(),
        ensures
            final(self).wf(),
            t matches Turn::Float(_, d) ==> fields_bounded(d),
            !running ==> t == Turn::Interrupted,
            running && old(run).count == Some(0usize) ==> t == Turn::Counted,
            !running || old(run).count == Some(0usize) ==> *final(run) == *old(run)
                && final(self)@ == old(self)@,
            running && old(run).count != Some(0usize) ==> {
                &&& *final(run) == old(run).counted()
                &&& old(self)@.is_debug_step(
                    match t {
                        Turn::Float(r, d) => Step::Float(r, d),
                        Turn::Stepped(status) => Step::Done(status),
                        _ => Step::Done(0),
                    },
                    final(self)@,
                    old(run).first,
                    old(run).no_interrupts,
                )
                &&& t is Float || t is Stepped
            },
    {
        if !running {
            return Turn::Interrupted;
        }
        if let Some(n) = run.count {
            if n == 0 {
                return Turn::Counted;
            }
            run.count = Some(n - 1);
        }
        match self.debug_step_recorded(run.first, run.no_interrupts) {
            Step::Done(status) => Turn::Stepped(status),
            Step::Float(r, d) => Turn::Float(r, d),
        }
    }

    /// The instruction ended with `status`: how `run` goes on. A stop at an exception is
    /// as `mask` says.
    pub fn debug_after(&self, run: &mut DebugRun, status: ExecStatus, mask: u32) -> (a: After)
        requires
            old(run).since_yield < YIELD_STEPS,
        ensures
            final(run).since_yield < YIELD_STEPS,
            final(run).count == old(run).count,
            final(run).no_interrupts == old(run).no_interrupts,
            !final(run).first,
            match stops(status, mask, self@.last_bp_hit) {
                Some(stop) => a == After::Stop(stop) && final(run).since_yield == old(
                    run,
                ).since_yield,
                None => if old(run).since_yield + 1 == YIELD_STEPS {
                    a == After::Yield && final(run).since_yield == 0
                } else {
                    a == After::Continue && final(run).since_yield == old(run).since_yield + 1
                },
            },
    {
        run.first = false;
        if let Some(stop) = stop_of(status, mask, self.last_bp_hit) {
            return After::Stop(stop);
        }
        run.since_yield = run.since_yield + 1;
        if run.since_yield >= YIELD_STEPS {
            run.since_yield = 0;
            return After::Yield;
        }
        After::Continue
    }

    /// The last executed instruction.
    pub fn last_executed(&self) -> (r: Option<TracebackEntry>)
        requires
            self.wf(),
        ensures
            r == self@.last_executed(),
    {
        let v: Vec<TracebackEntry> = self.tools.traceback.get_last(1);
        if v.len() == 0 {
            None
        } else {
            Some(v[0])
        }
    }

    /// What is shown after an instruction, whose disassembly is `dis`: to the user if
    /// instructions are traced, to the log if they are counted, to a file if there is
    /// one.
    pub fn debug_show(&self, run: &DebugRun, insn_trace: bool, to_file: bool, dis: &str) -> (r:
        Shown)
        requires
            self.wf(),
        ensures
            match self@.last_executed() {
                Some(e) => {
                    let line = instr_line(e.pc, e.instr, self@.tools.symbols, dis@);
                    &&& text_of(r.console) == text_if(insn_trace, line)
                    &&& text_of(r.log) == text_if(run.count is Some, "Exec: "@ + line)
                    &&& text_of(r.file) == text_if(to_file, line)
                },
                None => {
                    &&& text_of(r.console) == text_if(
                        insn_trace,
                        "PC: "@ + hex_fixed(self@.core.pc as nat, 16) + " (Fetch failed)"@,
                    )
                    &&& r.log is None && r.file is None
                },
            },
    {
        let mut shown = Shown { console: None, log: None, file: None };
        match self.last_executed() {
            Some(e) => {
                if insn_trace {
                    let mut s: String = String::new();
                    put_instr_line(&mut s, e.pc, e.instr, &self.tools.symbols, dis);
                    assert(s@ =~= instr_line(e.pc, e.instr, self@.tools.symbols, dis@));
                    shown.console = Some(s);
                }
                if run.count.is_some() {
                    let mut s: String = "Exec: ".to_string();
                    put_instr_line(&mut s, e.pc, e.instr, &self.tools.symbols, dis);
                    shown.log = Some(s);
                }
                if to_file {
                    let mut s: String = String::new();
                    put_instr_line(&mut s, e.pc, e.instr, &self.tools.symbols, dis);
                    assert(s@ =~= instr_line(e.pc, e.instr, self@.tools.symbols, dis@));
                    shown.file = Some(s);
                }
            },
            None => {
                if insn_trace {
                    let mut s: String = "PC: ".to_string();
                    put_hex_fixed(&mut s, self.core.pc, 16);
                    put(&mut s, " (Fetch failed)");
                    shown.console = Some(s);
                }
            },
        }
        shown
    }

    /// Ends a run: interrupts are taken again, and the breakpoint that was to end it is
    /// off. The next instruction, where it can be fetched, is handed out.
    pub fn debug_finish(&mut self) -> (r: Option<u32>)
        requires
            old(self).wf(),
            old(self).bps.wf(),
            old(self).bps.keeps_temp(),
        ensures
            final(self).wf(),
            final(self).bps.wf(),
            old(self).bps.is_cleared_to(final(self).bps),
            ({
                let m = Machine { skip_interrupts: false, ..old(self)@ };
                let (f, n) = m.fetch(true, m.core.pc);
                &&& r == match fetched_word(f) {
                    Ok(w) => Some(w),
                    Err(_) => None,
                }
                &&& final(self)@ == (Machine { bps: final(self).bps, ..n })
            }),
    {
        self.skip_interrupts = false;
        let pc: u64 = self.core.pc;
        proof {
            law_debugger_accesses_leave_no_trace(self@, pc, 4, 0);
        }
        let r: Option<u32> = match self.debug_fetch_instr(pc) {
            Ok(w) => Some(w),
            Err(_) => None,
        };
        self.bps.clear_temp_breakpoint();
        proof {
            if old(self).bps.breakpoints@.len() > 0 && !old(self).bps.breakpoints@[0].enabled {
                assert(old(self).bps.breakpoints@.update(
                    0,
                    (Breakpoint { enabled: false, ..old(self).bps.breakpoints@[0] }),
                ) =~= old(self).bps.breakpoints@);
            }
        }
        r
    }

    /// The next instruction as text; `dis` is its disassembly.
    pub fn next_text(&self, instr: Option<u32>, dis: &str) -> (s: String)
        ensures
            s@ == match instr {
                Some(w) => "Next: "@ + instr_line(self@.core.pc, w, self@.tools.symbols, dis@),
                None => "Next: "@ + hex_fixed(self@.core.pc as nat, 16) + " (Fetch failed)"@,
            },
    {
        let mut s: String = "Next: ".to_string();
        match instr {
            Some(w) => put_instr_line(&mut s, self.core.pc, w, &self.tools.symbols, dis),
            None => {
                put_hex_fixed(&mut s, self.core.pc, 16);
                put(&mut s, " (Fetch failed)");
            },
        }
        s
    }
}

impl<T: Tlb, C: MipsCache, B: BusDevice> Machine<T, C, B> {
    /// A step of a run from this machine to `m`. While the undo buffer is on, the state
    /// before the step and the writes that it makes are recorded.
    pub open spec fn is_debug_step(
        self,
        s: Step,
        m: Self,
        first: bool,
        no_interrupts: bool,
    ) -> bool {
        if self.tools.undo.enabled {
            exists|snap: CpuSnapshot, w: Vec<MemoryWrite>|
                {
                    &&& self.is_snapshot(snap)
                    &&& s == self.marked(snap).debug_step(first, no_interrupts).0
                    &&& w@ == self.marked(snap).debug_step(first, no_interrupts).1.tools.pending
                    &&& m == #[trigger] self.marked(snap).debug_step(
                        first,
                        no_interrupts,
                    ).1.committed(w)
                }
        } else {
            (s, m) == self.debug_step(first, no_interrupts)
        }
    }
}

impl<T: Tlb, C: MipsCache, B: BusDevice> Machine<T, C, B> {
    /// The machine after an instruction that was recorded as `snap`, with the writes `w`.
    pub open spec fn recorded(
        self,
        snap: CpuSnapshot,
        w: Vec<MemoryWrite>,
        first: bool,
        no_interrupts: bool,
    ) -> Self {
        self.marked(snap).debug_step(first, no_interrupts).1.committed(w)
    }

    /// `after` is this machine, or this machine after the floating-point result for which
    /// it waited came in.
    pub open spec fn completes_as(self, after: Self) -> bool {
        ||| after == self
        ||| exists|d: DecodedInstr, reply: FloatReply|
            after == (#[trigger] self.float_done(d, reply)).1
    }
}

impl MipsCore {
    /// This state as undoing brings it back from the state `later`: what a snapshot does
    /// not record stays as it is there, and the link address `lladdr` is the cache's.
    pub open spec fn found_by(self, later: MipsCore, lladdr: u32) -> MipsCore {
        (MipsCore {
            cp0_lladdr: lladdr,
            interrupts: later.interrupts,
            cycles: later.cycles,
            jit_trigger: later.jit_trigger,
            tlb_entries: later.tlb_entries,
            count_hz: later.count_hz,
            compare_delta_slow: later.compare_delta_slow,
            compare_delta_fast: later.compare_delta_fast,
            ..self
        }).without_nanotlb()
    }
}

/// Law: undoing an instruction of a run brings the processor back to where the
/// instruction found it, whatever the instruction did. Only what a snapshot does not
/// record differs: the link address, which is read from the cache, counters, and pending
/// interrupts.
pub proof fn law_undo_reverts_a_step<T: Tlb, C: MipsCache, B: BusDevice>(
    m: Machine<T, C, B>,
    snap: CpuSnapshot,
    w: Vec<MemoryWrite>,
    first: bool,
    no_interrupts: bool,
    after: Machine<T, C, B>,
)
    requires
        m.tools.undo.enabled,
        m.tools.undo.capacity > 0,
        m.tools.undo.entries.len() <= m.tools.undo.capacity,
        m.is_snapshot(snap),
        m.recorded(snap, w, first, no_interrupts).completes_as(after),
    ensures
        after.undoable(1),
        after.undone(1).core == m.core.found_by(after.core, C::lladdr(m.cache)),
{
    lemma_debug_step_keeps(m.marked(snap), first, no_interrupts);
    let n = m.recorded(snap, w, first, no_interrupts);
    if after != n {
        let (d, reply) = choose|d: DecodedInstr, reply: FloatReply|
            after == (#[trigger] n.float_done(d, reply)).1;
        law_completion_leaves_the_debugger_alone(n, d, reply);
    }
    let e = after.tools.undo.entries;
    assert(e.last() == (CpuSnapshot { memory_writes: w, ..snap }));
    lemma_unwriting_back(after, e, 1);
}

} // verus!
