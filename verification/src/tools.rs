//! The debugger's tools: histories, counters and recordings that the executor keeps
//! beside the state of the machine.
use vstd::prelude::*;

use crate::cpu_core::MipsCore;
use crate::idle::{IdleHistory, IdleProfiler};
use crate::status::{ExecStatus, EXEC_COMPLETE};
use crate::symbols::SymbolTable;
use crate::trace::{TraceLog, TraceRecord, TraceWriter};
use crate::traceback::{traced, TracebackBuffer, TracebackEntry};
use crate::undo::{MemoryWrite, UndoBuffer, UndoLog, UNDO_BUFFER_SIZE};

verus! {

/// A read of a device register: physical address, size in bytes, value.
pub type HwRead = (u64, u8, u64);

/// A memory access: where it was, and what it read or wrote.
#[derive(Debug, Clone, Copy, PartialEq, Eq, Structural)]
pub struct LockstepMem {
    pub addr: u64,
    pub phys: u64,
    pub value: u64,
}

pub struct DebugTools {
    pub undo_buffer: UndoBuffer,
    /// Writes of the current instruction, for the undo buffer.
    pub pending_memory_writes: Vec<MemoryWrite>,
    pub traceback: TracebackBuffer,
    /// The trace that is being recorded.
    pub trace_writer: Option<TraceWriter>,
    pub idle_profiler: IdleProfiler,
    pub idle_profile_on: bool,
    pub idle_profile_reset: bool,
    pub symbols: SymbolTable,
    /// Instructions that were fetched in decoded form.
    pub decoded_count: u64,
    pub uncached_fetch_count: u64,
    /// Values to give back for time-driven registers in place of the real ones.
    pub hw_read_fixup_replay: Option<Vec<HwRead>>,
    /// Values read from time-driven registers while recording.
    pub hw_read_fixup_recorded: Vec<HwRead>,
    pub hw_read_fixup_recording: bool,
    pub last_step_status: ExecStatus,
    /// Memory accesses are noted for comparison with another engine.
    pub lockstep_on: bool,
    /// The last memory access, if it was completed.
    pub lockstep_mem: Option<LockstepMem>,
}

/// Mathematical state of the tools.
#[verifier::ext_equal]
pub struct Tools {
    pub undo: UndoLog,
    pub pending: Seq<MemoryWrite>,
    pub trace: Seq<TracebackEntry>,
    pub recording_trace: Option<TraceLog>,
    pub idle: IdleHistory,
    pub idle_on: bool,
    pub idle_reset: bool,
    pub symbols: SymbolTable,
    pub decoded_count: u64,
    pub uncached_fetch_count: u64,
    pub replay: Option<Vec<HwRead>>,
    pub recorded: Seq<HwRead>,
    pub recording: bool,
    pub last_step_status: ExecStatus,
    pub lockstep_on: bool,
    pub lockstep_mem: Option<LockstepMem>,
}

impl View for DebugTools {
    type V = Tools;

    open spec fn view(&self) -> Tools {
        Tools {
            undo: self.undo_buffer@,
            pending: self.pending_memory_writes@,
            trace: self.traceback.history(),
            recording_trace: match self.trace_writer {
                Some(w) => Some(w@),
                None => None,
            },
            idle: self.idle_profiler@,
            idle_on: self.idle_profile_on,
            idle_reset: self.idle_profile_reset,
            symbols: self.symbols,
            decoded_count: self.decoded_count,
            uncached_fetch_count: self.uncached_fetch_count,
            replay: self.hw_read_fixup_replay,
            recorded: self.hw_read_fixup_recorded@,
            recording: self.hw_read_fixup_recording,
            last_step_status: self.last_step_status,
            lockstep_on: self.lockstep_on,
            lockstep_mem: self.lockstep_mem,
        }
    }
}

impl Tools {
    /// A memory access is noted, if a comparison needs it.
    pub open spec fn captured(self, va: u64, phys: u64, v: Option<u64>) -> Self {
        if self.lockstep_on {
            Tools {
                lockstep_mem: match v {
                    Some(value) => Some(LockstepMem { addr: va, phys, value }),
                    None => None,
                },
                ..self
            }
        } else {
            self
        }
    }

    /// The idle profiler sees the instruction at the program counter.
    pub open spec fn profiled(self, core: MipsCore) -> Self {
        if self.idle_on {
            let idle = if self.idle_reset {
                self.idle.cleared()
            } else {
                self.idle
            };
            Tools {
                idle: idle.sampled(core.pc, core.takes_interrupts()),
                idle_reset: false,
                ..self
            }
        } else {
            self
        }
    }

    /// The instruction `raw` at `pc`, about to be executed in state `core`, is noted.
    pub open spec fn noted(self, pc: u64, raw: u32, core: MipsCore) -> Self {
        Tools {
            trace: traced(self.trace, TracebackEntry { pc, instr: raw }),
            recording_trace: match self.recording_trace {
                Some(log) => Some(log.pushed(TraceRecord::of(pc, raw, core))),
                None => None,
            },
            ..self
        }
    }

    /// An instruction was fetched in decoded form, or not.
    pub open spec fn fetched(self, was_decoded: bool) -> Self {
        if was_decoded {
            Tools { decoded_count: self.decoded_count.wrapping_add(1), ..self }
        } else {
            self
        }
    }

    /// The tools of a new executor: nothing is recorded, and nothing is being recorded.
    pub open spec fn is_fresh(&self) -> bool {
        &&& !self.undo.enabled && self.undo.entries.len() == 0
        &&& self.undo.capacity == UNDO_BUFFER_SIZE
        &&& self.pending.len() == 0
        &&& self.trace.len() == 0
        &&& self.recording_trace is None
        &&& self.idle == (IdleHistory { stride: 0, counter: 0, total: 0, hist: Map::empty() })
        &&& !self.idle_on && !self.idle_reset
        &&& self.symbols.symbols@.len() == 0
        &&& self.decoded_count == 0 && self.uncached_fetch_count == 0
        &&& self.replay is None && self.recorded.len() == 0 && !self.recording
        &&& self.last_step_status == EXEC_COMPLETE
        &&& !self.lockstep_on && self.lockstep_mem is None
    }
}

impl DebugTools {
    pub open spec fn wf(&self) -> bool {
        self.undo_buffer.wf() && self.traceback.wf()
    }

    pub fn new() -> (t: Self)
        ensures
            t.wf(),
            t@.is_fresh(),
    {
        DebugTools {
            undo_buffer: UndoBuffer::new(),
            pending_memory_writes: Vec::new(),
            traceback: TracebackBuffer::new(),
            trace_writer: None,
            idle_profiler: IdleProfiler::new(),
            idle_profile_on: false,
            idle_profile_reset: false,
            symbols: SymbolTable::new(),
            decoded_count: 0,
            uncached_fetch_count: 0,
            hw_read_fixup_replay: None,
            hw_read_fixup_recorded: Vec::new(),
            hw_read_fixup_recording: false,
            last_step_status: EXEC_COMPLETE,
            lockstep_on: false,
            lockstep_mem: None,
        }
    }

    /// Notes a memory access, if a comparison needs it.
    pub(crate) fn capture(&mut self, va: u64, phys: u64, v: Option<u64>)
        requires
            old(self).wf(),
        ensures
            final(self).wf(),
            final(self)@ == old(self)@.captured(va, phys, v),
    {
        if self.lockstep_on {
            self.lockstep_mem = match v {
                Some(value) => Some(LockstepMem { addr: va, phys, value }),
                None => None,
            };
        }
    }

    pub(crate) fn profile(&mut self, core: &MipsCore)
        requires
            old(self).wf(),
        ensures
            final(self).wf(),
            final(self)@ == old(self)@.profiled(*core),
    {
        if self.idle_profile_on {
            if self.idle_profile_reset {
                self.idle_profiler.reset();
                self.idle_profile_reset = false;
            }
            self.idle_profiler.sample(core.pc, core.interrupts_enabled());
        }
    }

    pub(crate) fn note(&mut self, pc: u64, raw: u32, core: &MipsCore)
        requires
            old(self).wf(),
        ensures
            final(self).wf(),
            final(self)@ == old(self)@.noted(pc, raw, *core),
    {
        self.traceback.push(pc, raw);
        if let Some(w) = &mut self.trace_writer {
            let record: TraceRecord = TraceRecord::capture(pc, raw, core);
            w.push(&record);
        }
    }

    pub(crate) fn count_fetch(&mut self, was_decoded: bool)
        requires
            old(self).wf(),
        ensures
            final(self).wf(),
            final(self)@ == old(self)@.fetched(was_decoded),
    {
        if was_decoded {
            self.decoded_count = self.decoded_count.wrapping_add(1);
        }
    }

    /// Starts a new trace. One that was being recorded is dropped.
    pub fn trace_start(&mut self)
        requires
            old(self).wf(),
        ensures
            final(self).wf(),
            final(self)@ == (Tools { recording_trace: Some(TraceLog::empty()), ..old(self)@ }),
    {
        self.trace_writer = Some(TraceWriter::create());
    }

    /// Stops the trace: what is left to be written, and the number of its records.
    pub fn trace_stop(&mut self) -> (r: (Vec<u8>, u64))
        requires
            old(self).wf(),
        ensures
            final(self).wf(),
            final(self)@ == (Tools { recording_trace: None, ..old(self)@ }),
            (TraceLog { out: r.0@, count: r.1 }) == match old(self)@.recording_trace {
                Some(log) => log,
                None => TraceLog::empty(),
            },
    {
        match self.trace_writer.take() {
            Some(w) => {
                let mut w: TraceWriter = w;
                let n: u64 = w.count();
                (w.flush(), n)
            },
            None => (Vec::new(), 0),
        }
    }

    /// Whether a trace is being recorded.
    pub fn trace_active(&self) -> (b: bool)
        ensures
            b == self@.recording_trace is Some,
    {
        self.trace_writer.is_some()
    }
}

} // verus!
