//! Construction of an executor, power-on, and the signals that devices send.
use vstd::prelude::*;

use crate::breakpoints::BreakpointTable;
use crate::bus::{BusDevice, MipsCache, Tlb};
use crate::cpu_core::{is_zeroed, MipsCore, SOFT_RESET_BIT};
use crate::instr::DecodedInstr;
use crate::machine::{empty_instr, Machine, MipsExecutor};
use crate::status::MipsCpuConfig;
use crate::tools::{DebugTools, Tools};
use crate::traceback::TracebackBuffer;

verus! {

// Fields of the Config register.
pub const CONFIG_K0: u32 = 0;

pub const CONFIG_DB: u32 = 4;

pub const CONFIG_IB: u32 = 5;

pub const CONFIG_DC: u32 = 6;

pub const CONFIG_IC: u32 = 9;

pub const CONFIG_BE: u32 = 15;

pub const CONFIG_SC: u32 = 17;

pub const CONFIG_SB: u32 = 22;

/// Sizes and line sizes of the caches, in bytes. A secondary cache of size 0 is absent.
#[derive(Debug, Clone, Copy, PartialEq, Eq, Structural)]
pub struct CacheGeometry {
    pub ic_size: u64,
    pub ic_line: u64,
    pub dc_size: u64,
    pub dc_line: u64,
    pub l2_size: u64,
    pub l2_line: u64,
}

/// Code of a primary cache size: 4 KB is 0, and each doubling adds one.
pub open spec fn size_code(size: u64) -> u32 {
    let n = vstd::std_specs::bits::u64_trailing_zeros(size);
    if n > 12 {
        (n - 12) as u32
    } else {
        0
    }
}

/// Code of a primary cache line: 16 or 32 bytes.
pub open spec fn line_code(line: u64) -> u32 {
    if line >= 32 {
        1
    } else {
        0
    }
}

/// Code of a secondary cache line: 16, 32, 64 or 128 bytes.
pub open spec fn block_code(line: u64) -> u32 {
    match line {
        16 => 0,
        32 => 1,
        64 => 2,
        _ => 3,
    }
}

impl CacheGeometry {
    /// The Config register: kseg0 cacheable, the machine big-endian, and the geometry of
    /// the caches.
    pub open spec fn config(&self) -> u32 {
        (3u32 << CONFIG_K0) | (line_code(self.dc_line) << CONFIG_DB) | (line_code(self.ic_line)
            << CONFIG_IB) | (size_code(self.dc_size) << CONFIG_DC) | (size_code(self.ic_size)
            << CONFIG_IC) | (1u32 << CONFIG_BE) | ((if self.l2_size > 0 {
            0u32
        } else {
            1u32
        }) << CONFIG_SC) | (block_code(self.l2_line) << CONFIG_SB)
    }

    pub fn config_register(&self) -> (c: u32)
        ensures
            c == self.config(),
    {
        let absent: u32 = if self.l2_size > 0 {
            0
        } else {
            1
        };
        (3u32 << CONFIG_K0) | (line_code_of(self.dc_line) << CONFIG_DB) | (line_code_of(
            self.ic_line,
        ) << CONFIG_IB) | (size_code_of(self.dc_size) << CONFIG_DC) | (size_code_of(self.ic_size)
            << CONFIG_IC) | (1u32 << CONFIG_BE) | (absent << CONFIG_SC) | (block_code_of(
            self.l2_line,
        ) << CONFIG_SB)
    }
}

fn size_code_of(size: u64) -> (c: u32)
    ensures
        c == size_code(size),
{
    let n: u32 = size.trailing_zeros();
    if n > 12 {
        n - 12
    } else {
        0
    }
}

fn line_code_of(line: u64) -> (c: u32)
    ensures
        c == line_code(line),
{
    if line >= 32 {
        1
    } else {
        0
    }
}

fn block_code_of(line: u64) -> (c: u32)
    ensures
        c == block_code(line),
{
    match line {
        16 => 0,
        32 => 1,
        64 => 2,
        _ => 3,
    }
}

/// A message from a device or the system.
#[derive(Debug, Clone, Copy, PartialEq, Eq, Structural)]
pub enum Signal {
    Reset(bool),
    /// An interrupt line, and whether it is active.
    Interrupt(u32, bool),
}

impl MipsCore {
    /// The state after a signal. Every reset is a soft one.
    pub open spec fn signalled(self, s: Signal) -> MipsCore {
        MipsCore {
            interrupts: match s {
                Signal::Reset(_) => self.interrupts | SOFT_RESET_BIT,
                Signal::Interrupt(line, true) => self.interrupts | (1u64 << ((line + 8) as u32)),
                Signal::Interrupt(line, false) => self.interrupts & !(1u64 << ((line + 8) as u32)),
            },
            ..self
        }
    }

    pub fn signal(&mut self, s: Signal)
        requires
            s matches Signal::Interrupt(line, _) ==> line < 56,
        ensures
            *final(self) == old(self).signalled(s),
    {
        match s {
            Signal::Reset(_) => {
                self.interrupts = self.interrupts | SOFT_RESET_BIT;
            },
            Signal::Interrupt(line, active) => {
                let mask: u64 = 1u64 << (line + 8);
                if active {
                    self.interrupts = self.interrupts | mask;
                } else {
                    self.interrupts = self.interrupts & !mask;
                }
            },
        }
    }
}

impl<T: Tlb, C: MipsCache, B: BusDevice> Machine<T, C, B> {
    /// The machine after power-on. Breakpoints and recordings are the debugger's, and
    /// stay; the histories are of another run, and go.
    pub open spec fn powered_on(self) -> Self {
        Machine {
            core: MipsCore { in_delay_slot: false, delay_slot_target: 0, ..self.core.after_reset(
                false,
            ) },
            tlb: T::powered_on(self.tlb),
            cache: C::powered_on(self.cache),
            tools: self.tools.powered_on(),
            ..self
        }
    }
}

impl Tools {
    pub open spec fn powered_on(self) -> Self {
        Tools {
            undo: crate::undo::UndoLog { entries: Seq::empty(), ..self.undo },
            pending: Seq::empty(),
            trace: Seq::empty(),
            ..self
        }
    }
}

impl DebugTools {
    fn power_on(&mut self)
        requires
            old(self).wf(),
        ensures
            final(self).wf(),
            final(self)@ == old(self)@.powered_on(),
    {
        self.undo_buffer.clear();
        self.traceback = TracebackBuffer::new();
        self.pending_memory_writes = Vec::new();
    }
}

impl<T: Tlb, C: MipsCache, B: BusDevice> MipsExecutor<T, C, B> {
    /// An executor on a bus, a TLB and a cache of the given geometry.
    pub fn new(sysad: B, tlb: T, cache: C, geometry: &CacheGeometry, cfg: &MipsCpuConfig) -> (e:
        Self)
        requires
            sysad.inv(),
            tlb.inv(),
            cache.inv(),
        ensures
            e.wf(),
            e.sysad == sysad && e.tlb == tlb && e.cache == cache,
            e.core == (MipsCore {
                cp0_config: geometry.config(),
                tlb_entries: cfg.tlb_entries as u32,
                ..MipsCore::initial()
            }),
            e.core.wf() && is_zeroed(e.core.gpr@) && is_zeroed(e.core.fpr@),
            e.bps.wf(),
            e.bps.is_initial(),
            e.last_bp_hit is None,
            !e.skip_breakpoints && !e.skip_interrupts,
            e.ins == empty_instr(),
            e@.tools.is_fresh(),
    {
        let mut core: MipsCore = MipsCore::new();
        core.cp0_config = geometry.config_register();
        core.tlb_entries = cfg.tlb_entries as u32;
        MipsExecutor {
            core,
            sysad,
            tlb,
            cache,
            bps: BreakpointTable::new(),
            last_bp_hit: None,
            skip_breakpoints: false,
            skip_interrupts: false,
            ins: DecodedInstr::default(),
            tools: DebugTools::new(),
        }
    }

    /// Power-on: a hard reset of everything but the debugger.
    pub fn power_on(&mut self)
        requires
            old(self).wf(),
        ensures
            final(self).wf(),
            final(self)@ == old(self)@.powered_on(),
    {
        self.core.reset(false);
        self.tlb.power_on();
        self.cache.power_on();
        self.core.in_delay_slot = false;
        self.core.delay_slot_target = 0;
        self.tools.power_on();
    }
}

} // verus!
