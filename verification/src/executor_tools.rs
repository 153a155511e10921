//! Breakpoints and traces of an executor.
use vstd::prelude::*;

use crate::breakpoints::{position, without, BpType, Breakpoint};
use crate::bus::{BusDevice, MipsCache, Tlb};
use crate::machine::{Machine, MipsExecutor};
use crate::tools::Tools;
use crate::trace::TraceLog;

verus! {

impl<T: Tlb, C: MipsCache, B: BusDevice> MipsExecutor<T, C, B> {
    /// Sets the breakpoint that ends a run at `addr`.
    pub fn set_temp_breakpoint(&mut self, addr: u64)
        requires
            old(self).wf(),
            old(self).bps.wf(),
            old(self).bps.keeps_temp(),
        ensures
            final(self).wf(),
            final(self).bps.wf(),
            final(self).bps.keeps_temp(),
            old(self).bps.is_temp_set(final(self).bps, Some(addr)),
            final(self)@ == (Machine { bps: final(self).bps, ..old(self)@ }),
    {
        self.bps.aim(Some(addr));
    }

    /// Switches the breakpoint off that ends a run.
    pub fn clear_temp_breakpoint(&mut self)
        requires
            old(self).wf(),
            old(self).bps.wf(),
            old(self).bps.keeps_temp(),
        ensures
            final(self).wf(),
            final(self).bps.wf(),
            final(self).bps.keeps_temp(),
            old(self).bps.is_cleared_to(final(self).bps),
            final(self)@ == (Machine { bps: final(self).bps, ..old(self)@ }),
    {
        self.bps.clear_temp_breakpoint();
        proof {
            if old(self).bps.breakpoints@.len() > 0 && !old(self).bps.breakpoints@[0].enabled {
                assert(old(self).bps.breakpoints@.update(
                    0,
                    (Breakpoint { enabled: false, ..old(self).bps.breakpoints@[0] }),
                ) =~= old(self).bps.breakpoints@);
            }
        }
    }

    /// Adds an enabled breakpoint, in place of one with the same identifier.
    pub fn add_breakpoint(&mut self, id: usize, addr: u64, kind: BpType)
        requires
            old(self).wf(),
            old(self).bps.wf(),
            old(self).bps.breakpoints@.len() < usize::MAX,
        ensures
            final(self).wf(),
            final(self).bps.wf(),
            final(self).bps.next_bp_id == old(self).bps.next_bp_id,
            final(self).bps.breakpoints@ == without(old(self).bps.breakpoints@, id).push(
                (Breakpoint { id, addr, kind, enabled: true, condition: None }),
            ),
            final(self)@ == (Machine { bps: final(self).bps, ..old(self)@ }),
    {
        self.bps.add_breakpoint(id, addr, kind);
    }

    /// Removes the breakpoint with identifier `id`; false where there is none.
    pub fn remove_breakpoint(&mut self, id: usize) -> (r: bool)
        requires
            old(self).wf(),
            old(self).bps.wf(),
        ensures
            final(self).wf(),
            final(self).bps.wf(),
            r == (position(old(self).bps.breakpoints@, id) is Some),
            final(self).bps.next_bp_id == old(self).bps.next_bp_id,
            final(self).bps.breakpoints@ == without(old(self).bps.breakpoints@, id),
            final(self)@ == (Machine { bps: final(self).bps, ..old(self)@ }),
    {
        self.bps.remove_breakpoint(id)
    }

    /// Switches the breakpoint with identifier `id`; false where there is none.
    pub fn set_breakpoint_enabled(&mut self, id: usize, enabled: bool) -> (r: bool)
        requires
            old(self).wf(),
            old(self).bps.wf(),
        ensures
            final(self).wf(),
            final(self).bps.wf(),
            r == (position(old(self).bps.breakpoints@, id) is Some),
            final(self).bps.next_bp_id == old(self).bps.next_bp_id,
            final(self).bps.breakpoints@ == match position(old(self).bps.breakpoints@, id) {
                Some(i) => old(self).bps.breakpoints@.update(
                    i,
                    (Breakpoint { enabled, ..old(self).bps.breakpoints@[i] }),
                ),
                None => old(self).bps.breakpoints@,
            },
            final(self)@ == (Machine { bps: final(self).bps, ..old(self)@ }),
    {
        self.bps.set_breakpoint_enabled(id, enabled)
    }

    /// Starts a new trace of the execution.
    pub fn trace_start(&mut self)
        requires
            old(self).wf(),
        ensures
            final(self).wf(),
            final(self)@ == old(self)@.with_tools(
                Tools { recording_trace: Some(TraceLog::empty()), ..old(self)@.tools },
            ),
    {
        self.tools.trace_start();
    }

    /// Stops the trace: what is left to be written, and the number of its records.
    pub fn trace_stop(&mut self) -> (r: (Vec<u8>, u64))
        requires
            old(self).wf(),
        ensures
            final(self).wf(),
            final(self)@ == old(self)@.with_tools(
                Tools { recording_trace: None, ..old(self)@.tools },
            ),
            (TraceLog { out: r.0@, count: r.1 }) == match old(self)@.tools.recording_trace {
                Some(log) => log,
                None => TraceLog::empty(),
            },
    {
        self.tools.trace_stop()
    }

    /// Whether the execution is being traced.
    pub fn trace_active(&self) -> (b: bool)
        ensures
            b == self@.tools.recording_trace is Some,
    {
        self.tools.trace_active()
    }
}

} // verus!
