//! Executing many instructions in a row.
use vstd::prelude::*;

use crate::bus::{BusDevice, MipsCache, Tlb};
use crate::fpu::Step;
use crate::instr::fields_bounded;
use crate::machine::{Machine, MipsExecutor};
use crate::status::EXEC_BREAKPOINT;
use crate::text::{dec, hex_fixed, put, put_dec, put_hex_fixed};
use crate::tools::Tools;

verus! {

/// How far a run of instructions came.
#[derive(Clone, Copy, Debug, PartialEq, Eq, Structural)]
pub struct Progress {
    /// Instructions that were begun.
    pub executed: u64,
    /// The step at which the run stopped before its end.
    pub last: Option<Step>,
}

impl<T: Tlb, C: MipsCache, B: BusDevice> Machine<T, C, B> {
    /// Up to `n` instructions. The run stops early where an instruction waits for a
    /// floating-point result, and, if so asked, at a breakpoint.
    pub open spec fn run(self, n: nat, to_breakpoint: bool) -> (nat, Option<Step>, Self)
        decreases n,
    {
        if n == 0 {
            (0, None, self)
        } else {
            let (s, m) = self.step();
            if s is Float || (to_breakpoint && s == Step::Done(EXEC_BREAKPOINT)) {
                (1, Some(s), m)
            } else {
                let (k, last, end) = m.run((n - 1) as nat, to_breakpoint);
                (k + 1, last, end)
            }
        }
    }
}

impl<T: Tlb, C: MipsCache, B: BusDevice> MipsExecutor<T, C, B> {
    /// Executes up to `n` instructions, to the next one that waits for a floating-point
    /// result and, if so asked, to the next breakpoint.
    pub fn run(&mut self, n: u64, to_breakpoint: bool) -> (r: Progress)
        requires
            old(self).wf(),
        ensures
            final(self).wf(),
            (r.executed as nat, r.last, final(self)@) == old(self)@.run(n as nat, to_breakpoint),
            r.executed <= n,
            r.last is None ==> r.executed == n,
            r.last matches Some(Step::Float(_, d)) ==> fields_bounded(d),
    {
        let mut i: u64 = 0;
        while i < n
            invariant
                i <= n,
                self.wf(),
                ({
                    let (k, last, m) = self@.run((n - i) as nat, to_breakpoint);
                    (i + k, last, m)
                }) == ({
                    let (k, last, m) = old(self)@.run(n as nat, to_breakpoint);
                    (k as int, last, m)
                }),
            decreases n - i,
        {
            let s: Step = self.step();
            i = i + 1;
            let stop: bool = match s {
                Step::Float(_, _) => true,
                Step::Done(status) => to_breakpoint && status == EXEC_BREAKPOINT,
            };
            if stop {
                return Progress { executed: i, last: Some(s) };
            }
        }
        Progress { executed: n, last: None }
    }

    /// Executes `n` instructions. Exceptions are a part of that, and breakpoints do not
    /// end it; an instruction that waits for a floating-point result does, until the
    /// result is in.
    pub fn step_n_inline(&mut self, n: u64) -> (r: Progress)
        requires
            old(self).wf(),
        ensures
            final(self).wf(),
            (r.executed as nat, r.last, final(self)@) == old(self)@.run(n as nat, false),
            r.executed <= n,
            r.last is None ==> r.executed == n,
            r.last matches Some(Step::Float(_, d)) ==> fields_bounded(d),
    {
        self.run(n, false)
    }

    /// Executes one step, notes its status, and counts the instructions that it retired:
    /// at least one.
    pub fn step_one_inline_counting_instructions(&mut self) -> (r: (Step, usize))
        requires
            old(self).wf(),
        ensures
            final(self).wf(),
            r.0 == old(self)@.step().0,
            r.0 matches Step::Float(_, d) ==> fields_bounded(d),
            ({
                let m = old(self)@.step().1;
                final(self)@ == match r.0 {
                    Step::Done(status) => m.with_tools(
                        Tools { last_step_status: status, ..m.tools },
                    ),
                    Step::Float(_, _) => m,
                }
            }),
            r.1 == retired(old(self)@.core.cycles, final(self)@.core.cycles),
    {
        let before: u64 = self.core.cycles;
        let s: Step = self.step();
        if let Step::Done(status) = s {
            self.tools.last_step_status = status;
        }
        let n: usize = #[verifier::truncate] (self.core.cycles.wrapping_sub(before) as usize);
        (
            s,
            if n < 1 {
                1
            } else {
                n
            },
        )
    }

    /// What is said of a breakpoint at which free running stopped.
    pub fn breakpoint_message(&self) -> (s: String)
        ensures
            s@ == match self@.last_bp_hit {
                Some(id) => "\nBreakpoint "@ + dec(id as nat) + " hit at PC: "@ + hex_fixed(
                    self@.core.pc as nat,
                    16,
                ),
                None => "\nBreakpoint hit at PC: "@ + hex_fixed(self@.core.pc as nat, 16),
            },
    {
        let mut s: String = String::new();
        match self.last_bp_hit {
            Some(id) => {
                put(&mut s, "\nBreakpoint ");
                put_dec(&mut s, id as u64);
                put(&mut s, " hit at PC: ");
            },
            None => put(&mut s, "\nBreakpoint hit at PC: "),
        }
        put_hex_fixed(&mut s, self.core.pc, 16);
        assert(s@ =~= match self@.last_bp_hit {
            Some(id) => "\nBreakpoint "@ + dec(id as nat) + " hit at PC: "@ + hex_fixed(
                self@.core.pc as nat,
                16,
            ),
            None => "\nBreakpoint hit at PC: "@ + hex_fixed(self@.core.pc as nat, 16),
        });
        s
    }
}

/// Instructions that were retired between two readings of the cycle counter.
pub open spec fn retired(before: u64, after: u64) -> usize {
    let n = after.wrapping_sub(before) as usize;
    if n < 1 {
        1
    } else {
        n
    }
}

} // verus!
