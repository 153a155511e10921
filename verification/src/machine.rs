//! The executor and its mathematical state. The functions on that state say what
//! translations, memory accesses and the ends of instructions do to it.
use vstd::prelude::*;

use crate::breakpoints::{BpType, BreakpointTable};
use crate::bus::{
    BusDevice, BusRead64, FetchInstrResult, MipsCache, Tlb, TlbResult, BUS_BUSY, BUS_OK,
};
use crate::cpu_core::{AccessType, MipsCore, NanoTlbEntry, PrivilegeMode, STATUS_ERL};
use crate::instr::{decoded, DecodedInstr, FLAG_NOT_DECODED};
use crate::jit::CODE_PAGE_SIZE;
use crate::status::{
    exception_status, tlb_miss_status, xtlb_miss_status, ExecStatus, TranslateResult, EXC_ADEL,
    EXC_ADES, EXC_MOD, EXC_TLBL, EXC_TLBS, EXC_VCEI, EXEC_BREAKPOINT, EXEC_COMPLETE,
    EXEC_IS_EXCEPTION, TR_CACHEABLE, TR_UNCACHED,
};
use crate::tools::{DebugTools, HwRead, Tools};
use crate::undo::MemoryWrite;

verus! {

/// Main memory, in its two ranges.
pub const LOMEM_BASE: u32 = 0x0800_0000;

pub const LOMEM_END: u32 = 0x1800_0000;

pub const HIMEM_BASE: u32 = 0x2000_0000;

pub const HIMEM_END: u32 = 0x3000_0000;

/// A register whose value is driven by the host's time, so that it reads differently
/// from run to run: the memory controller's counter and DMA status, the clock chip,
/// the interval timers.
pub open spec fn is_time_driven(phys: u64) -> bool {
    ||| phys == 0x1fa01000 || phys == 0x1fa01004
    ||| phys == 0x1fa02048 || phys == 0x1fa0204c
    ||| 0x1fbe0000 <= phys <= 0x1fbe003c && phys % 4 == 0
    ||| 0x1fbd98b0 <= phys <= 0x1fbd98bf
}

/// The processor with all that it is attached to, and the debugger's tools on it.
pub struct MipsExecutor<T: Tlb, C: MipsCache, B: BusDevice> {
    pub core: MipsCore,
    pub sysad: B,
    pub tlb: T,
    pub cache: C,
    pub bps: BreakpointTable,
    pub last_bp_hit: Option<usize>,
    /// The next step ignores breakpoints.
    pub skip_breakpoints: bool,
    /// The next step ignores pending interrupts.
    pub skip_interrupts: bool,
    /// The instruction of an uncached fetch.
    pub ins: DecodedInstr,
    pub tools: DebugTools,
}

/// Mathematical state of an executor.
pub struct Machine<T: Tlb, C: MipsCache, B: BusDevice> {
    pub core: MipsCore,
    pub sysad: B::St,
    pub tlb: T::St,
    pub cache: C::St,
    pub bps: BreakpointTable,
    pub last_bp_hit: Option<usize>,
    pub skip_breakpoints: bool,
    pub skip_interrupts: bool,
    pub ins: DecodedInstr,
    pub tools: Tools,
}

impl<T: Tlb, C: MipsCache, B: BusDevice> View for MipsExecutor<T, C, B> {
    type V = Machine<T, C, B>;

    open spec fn view(&self) -> Machine<T, C, B> {
        Machine {
            core: self.core,
            sysad: self.sysad.state(),
            tlb: self.tlb.state(),
            cache: self.cache.state(),
            bps: self.bps,
            last_bp_hit: self.last_bp_hit,
            skip_breakpoints: self.skip_breakpoints,
            skip_interrupts: self.skip_interrupts,
            ins: self.ins,
            tools: self.tools@,
        }
    }
}

impl<T: Tlb, C: MipsCache, B: BusDevice> MipsExecutor<T, C, B> {
    /// Holds between instructions.
    pub open spec fn wf(&self) -> bool {
        &&& self.sysad.inv()
        &&& self.tlb.inv()
        &&& self.cache.inv()
        &&& self.bps.conditions_wf()
        &&& self.tools.wf()
    }
}

/// Sizes of memory accesses.
pub open spec fn is_access_size(size: usize) -> bool {
    size == 1 || size == 2 || size == 4 || size == 8
}

/// How an address is translated.
pub enum Route {
    /// Straight to a physical address.
    Unmapped { phys: u64, c_field: u32 },
    /// Through the TLB, as a 64-bit address or not.
    Mapped { xtlb: bool },
    /// Not at all: an address error.
    Denied,
}

/// Route of a 32-bit address. The upper half of `va` is ignored.
///
/// The lower half of the space is user space, unmapped at error level. Above it lie
/// two unmapped kernel segments, cached and uncached, the supervisor segment and the
/// mapped kernel segment.
pub open spec fn route32(va: u64, p: PrivilegeMode, erl: bool) -> Route {
    let low = va as u32;
    let segment = low >> 29;
    if segment <= 3 {
        if erl {
            Route::Unmapped { phys: low as u64, c_field: TR_UNCACHED }
        } else {
            Route::Mapped { xtlb: false }
        }
    } else if segment == 4 {
        if p == PrivilegeMode::Kernel {
            Route::Unmapped { phys: (low & 0x1FFFFFFF) as u64, c_field: TR_CACHEABLE }
        } else {
            Route::Denied
        }
    } else if segment == 5 {
        if p == PrivilegeMode::Kernel {
            Route::Unmapped { phys: (low & 0x1FFFFFFF) as u64, c_field: TR_UNCACHED }
        } else {
            Route::Denied
        }
    } else if segment == 6 {
        if p == PrivilegeMode::User {
            Route::Denied
        } else {
            Route::Mapped { xtlb: false }
        }
    } else {
        if p == PrivilegeMode::Kernel {
            Route::Mapped { xtlb: false }
        } else {
            Route::Denied
        }
    }
}

/// C field of the unmapped window of 64-bit space that bits 61..59 select.
pub open spec fn window_c_field(w: u64) -> u32 {
    if w == 3 || w == 5 {
        w as u32
    } else {
        TR_UNCACHED
    }
}

/// Route of a 64-bit address.
///
/// The top two bits select user space (of 40 bits, unmapped at error level), the
/// supervisor segment, the unmapped windows onto physical memory, and the kernel
/// segment, whose last 4 GB repeat the upper half of the 32-bit space.
pub open spec fn route64(va: u64, p: PrivilegeMode, erl: bool) -> Route {
    let region = va >> 62;
    let low = va as u32;
    if region == 0 {
        if (va >> 40) != 0 {
            Route::Denied
        } else if erl {
            Route::Unmapped { phys: va, c_field: TR_UNCACHED }
        } else {
            Route::Mapped { xtlb: true }
        }
    } else if region == 1 {
        if p == PrivilegeMode::User {
            Route::Denied
        } else {
            Route::Mapped { xtlb: true }
        }
    } else if region == 2 {
        let w = (va >> 59) & 0x7;
        if w >= 2 && p == PrivilegeMode::Kernel {
            Route::Unmapped { phys: va & 0x07FF_FFFF_FFFF_FFFF, c_field: window_c_field(w) }
        } else {
            Route::Denied
        }
    } else {
        if p != PrivilegeMode::Kernel {
            Route::Denied
        } else if (va >> 32) != 0xFFFFFFFF {
            Route::Mapped { xtlb: true }
        } else if (low >> 29) & 0x7 == 4 {
            Route::Unmapped { phys: (low & 0x1FFFFFFF) as u64, c_field: TR_CACHEABLE }
        } else if (low >> 29) & 0x7 == 5 {
            Route::Unmapped { phys: (low & 0x1FFFFFFF) as u64, c_field: TR_UNCACHED }
        } else {
            Route::Mapped { xtlb: false }
        }
    }
}

impl MipsCore {
    /// Route of `va` in the current mode. The debugger looks with kernel privilege.
    pub open spec fn route(&self, debug: bool, va: u64) -> Route {
        let p = if debug {
            PrivilegeMode::Kernel
        } else {
            self.privilege()
        };
        let erl = self.cp0_status & STATUS_ERL != 0;
        if self.is_64bit() {
            route64(va, p, erl)
        } else {
            route32(va, p, erl)
        }
    }

    /// The state with the address of a failed access noted.
    pub open spec fn bad_address(self, va: u64) -> MipsCore {
        MipsCore { cp0_badvaddr: va, ..self }
    }

    /// The state with a failed TLB lookup of `va` noted, as the refill handlers want it:
    /// the page number in EntryHi beside the address space, and in Context and XContext
    /// as an index into the page table.
    pub open spec fn tlb_fault(self, xtlb: bool, va: u64) -> MipsCore {
        let vpn_mask: u64 = if xtlb {
            0xC000_00FF_FFFF_E000
        } else {
            0x0000_0000_FFFF_E000
        };
        MipsCore {
            cp0_badvaddr: va,
            cp0_entryhi: (va & vpn_mask) | (self.cp0_entryhi & 0xFF),
            cp0_context: (self.cp0_context & 0xFFFFFFFF_FF800000) | (((va & 0x0000_0000_FFFF_E000)
                >> 13) << 4),
            cp0_xcontext: (self.cp0_xcontext & 0xFFFF_FFFE_0000_0000) | (((va >> 62) & 0x3) << 31)
                | (((va & 0x0000_00FF_FFFF_E000) >> 13) << 4),
            ..self
        }
    }

    /// The remembered translation for one kind of access.
    pub open spec fn nano(&self, at: AccessType) -> NanoTlbEntry {
        match at {
            AccessType::Fetch => self.nanotlb_fetch,
            AccessType::Read => self.nanotlb_read,
            AccessType::Write => self.nanotlb_write,
            AccessType::Debug => NanoTlbEntry::spec_empty(),
        }
    }

    pub open spec fn with_nano(self, at: AccessType, e: NanoTlbEntry) -> MipsCore {
        match at {
            AccessType::Fetch => MipsCore { nanotlb_fetch: e, ..self },
            AccessType::Read => MipsCore { nanotlb_read: e, ..self },
            AccessType::Write => MipsCore { nanotlb_write: e, ..self },
            AccessType::Debug => self,
        }
    }

    // How instructions end.
    /// The instruction is done: on to the target of a pending jump, else to the next
    /// instruction.
    pub open spec fn completed(self) -> MipsCore {
        if self.in_delay_slot {
            MipsCore {
                pc: self.delay_slot_target,
                in_delay_slot: false,
                jit_trigger: true,
                ..self
            }
        } else {
            MipsCore { pc: self.pc.wrapping_add(4), ..self }
        }
    }

    /// A jump to `target` after the delay slot.
    pub open spec fn branching(self, target: u64) -> MipsCore {
        MipsCore {
            delay_slot_target: target,
            in_delay_slot: true,
            pc: self.pc.wrapping_add(4),
            ..self
        }
    }

    /// The next instruction is passed over.
    pub open spec fn skipping(self) -> MipsCore {
        MipsCore { pc: self.pc.wrapping_add(8), ..self }
    }

    /// A branch that is not taken: the delay slot runs, and then what follows it.
    pub open spec fn not_taken(self) -> MipsCore {
        self.branching(self.pc.wrapping_add(8))
    }

    /// A jump to `target` without a delay slot.
    pub open spec fn jumped(self, target: u64) -> MipsCore {
        MipsCore { pc: target, jit_trigger: true, ..self }
    }

    /// The state after an exception: delivered, translations forgotten, no delay slot.
    pub open spec fn after_exception(self, status: ExecStatus) -> MipsCore {
        MipsCore { in_delay_slot: false, ..self.excepted(status).without_nanotlb() }
    }
}

/// The address error of a write, or of any other access.
pub open spec fn address_error(at: AccessType) -> ExecStatus {
    exception_status(
        if at == AccessType::Write {
            EXC_ADES
        } else {
            EXC_ADEL
        },
    )
}

/// Exception code of a write that finds no TLB entry, or of any other access.
pub open spec fn tlb_code(at: AccessType) -> u32 {
    if at == AccessType::Write {
        EXC_TLBS
    } else {
        EXC_TLBL
    }
}

/// What an access comes to when the TLB replies `r`: a translation, or an exception.
pub open spec fn tlb_outcome(r: TlbResult, xtlb: bool, at: AccessType) -> TranslateResult {
    match r {
        TlbResult::Hit { phys_addr, cache_attr, dirty } => {
            if at == AccessType::Write && !dirty {
                TranslateResult::spec_exc(exception_status(EXC_MOD))
            } else {
                TranslateResult::spec_ok(phys_addr, cache_attr.spec_c_field())
            }
        },
        TlbResult::Miss => TranslateResult::spec_exc(
            if xtlb {
                xtlb_miss_status(tlb_code(at))
            } else {
                tlb_miss_status(tlb_code(at))
            },
        ),
        TlbResult::Invalid => TranslateResult::spec_exc(exception_status(tlb_code(at))),
        TlbResult::Modified => TranslateResult::spec_exc(exception_status(EXC_MOD)),
    }
}

/// The TLB reply is no translation for this access.
pub open spec fn tlb_refuses(r: TlbResult, at: AccessType) -> bool {
    match r {
        TlbResult::Hit { phys_addr, cache_attr, dirty } => at == AccessType::Write && !dirty,
        _ => true,
    }
}

/// The first recorded value of a register read with this address and size.
pub open spec fn replayed(s: Seq<HwRead>, phys: u64, size: usize) -> Option<u64>
    decreases s.len(),
{
    if s.len() == 0 {
        None
    } else {
        match replayed(s.drop_last(), phys, size) {
            Some(v) => Some(v),
            None => if s.last().0 == phys && s.last().1 as int == size {
                Some(s.last().2)
            } else {
                None
            },
        }
    }
}

impl<T: Tlb, C: MipsCache, B: BusDevice> Machine<T, C, B> {
    pub open spec fn with_core(self, core: MipsCore) -> Self {
        Machine { core, ..self }
    }

    pub open spec fn with_tools(self, tools: Tools) -> Self {
        Machine { tools, ..self }
    }

    /// The access at `addr` is stopped by a breakpoint, which is noted.
    pub open spec fn break_at(self, kind: BpType, addr: u64) -> (bool, Self) {
        if self.skip_breakpoints {
            (false, self)
        } else {
            match self.bps.hit(kind, addr, self.core) {
                Some(id) => (true, Machine { last_bp_hit: Some(id), ..self }),
                None => (false, self),
            }
        }
    }

    /// Address space identifier.
    pub open spec fn asid(&self) -> u8 {
        (self.core.cp0_entryhi & 0xFF) as u8
    }

    /// Translation of `va`. Failures are noted in the coprocessor registers, unless the
    /// debugger asks.
    #[verifier::opaque]
    pub open spec fn translate(self, debug: bool, va: u64, at: AccessType) -> (
        TranslateResult,
        Self,
    ) {
        match self.core.route(debug, va) {
            Route::Unmapped { phys, c_field } => (TranslateResult::spec_ok(phys, c_field), self),
            Route::Denied => (
                TranslateResult::spec_exc(address_error(at)),
                if debug {
                    self
                } else {
                    self.with_core(self.core.bad_address(va))
                },
            ),
            Route::Mapped { xtlb } => {
                let r = T::lookup(self.tlb, xtlb, va, self.asid(), at);
                (
                    tlb_outcome(r, xtlb, at),
                    if debug || !tlb_refuses(r, at) {
                        self
                    } else {
                        self.with_core(self.core.tlb_fault(xtlb, va))
                    },
                )
            },
        }
    }

    /// Translation of `va` by way of the remembered one, which a new translation
    /// replaces. A new translation of code tells on which page it is.
    #[verifier::opaque]
    pub open spec fn nano_translate(self, at: AccessType, va: u64) -> (TranslateResult, Self) {
        let e = self.core.nano(at);
        let page = va & !0xFFF;
        if e.valid && e.va_page == page {
            (TranslateResult::spec_ok(e.phys_page | (va & 0xFFF), e.c_field), self)
        } else {
            let (r, m) = self.translate(false, va, at);
            if r.spec_is_exception() {
                (r, m)
            } else {
                let n = NanoTlbEntry {
                    valid: true,
                    va_page: page,
                    phys_page: (r.phys as u64) & !0xFFF,
                    c_field: r.status & 0x7,
                };
                let core = m.core.with_nano(at, n);
                (
                    r,
                    m.with_core(
                        if at == AccessType::Fetch {
                            core.on_page(r.phys / CODE_PAGE_SIZE)
                        } else {
                            core
                        },
                    ),
                )
            }
        }
    }

    pub open spec fn access_translate(self, debug: bool, at: AccessType, va: u64) -> (
        TranslateResult,
        Self,
    ) {
        if debug {
            self.translate(
                true,
                va,
                if at == AccessType::Fetch {
                    AccessType::Fetch
                } else {
                    AccessType::Debug
                },
            )
        } else {
            self.nano_translate(at, va)
        }
    }

    /// The machine with `va` noted as the address of a failed access, unless the debugger
    /// made it.
    pub open spec fn note_bad(self, debug: bool, va: u64) -> Self {
        if debug {
            self
        } else {
            self.with_core(self.core.bad_address(va))
        }
    }

    /// `break_at`, but for the debugger's own accesses.
    pub open spec fn break_unless(self, debug: bool, kind: BpType, addr: u64) -> (bool, Self) {
        if debug {
            (false, self)
        } else {
            self.break_at(kind, addr)
        }
    }

    /// Fetch of the instruction at `va`. It is decoded for the next fetch as well, where
    /// its place can hold it in that form, unless the debugger asks.
    #[verifier::opaque]
    pub open spec fn fetch(self, debug: bool, va: u64) -> (FetchInstrResult, Self) {
        let (hit, m) = self.break_unless(debug, BpType::VirtFetch, va);
        if hit {
            (stopped_fetch(EXEC_BREAKPOINT), m)
        } else {
            let (tr, m) = m.access_translate(debug, AccessType::Fetch, va);
            if tr.spec_is_exception() {
                (stopped_fetch(tr.status), m)
            } else {
                let (hit, m) = m.break_unless(debug, BpType::PhysFetch, tr.phys as u64);
                if hit {
                    (stopped_fetch(EXEC_BREAKPOINT), m)
                } else if tr.spec_is_cached() {
                    m.fetch_cached(debug, va, tr.phys as u64)
                } else {
                    m.fetch_uncached(debug, tr.phys)
                }
            }
        }
    }

    pub open spec fn fetch_cached(self, debug: bool, va: u64, phys: u64) -> (
        FetchInstrResult,
        Self,
    ) {
        let (r, cache) = C::fetch_result(self.cache, va, phys);
        let m = Machine { cache, ..self };
        (
            r,
            if r.status == exception_status(EXC_VCEI) {
                m.note_bad(debug, va)
            } else if !debug && r.status == EXEC_COMPLETE && r.instr.flags != 0 {
                Machine {
                    cache: C::decoded_result(cache, va, phys, decoded(r.instr)),
                    ..m
                }
            } else {
                m
            },
        )
    }

    /// A fetch from the bus. The instruction is kept where the last such one stands,
    /// decoded unless the debugger asks.
    pub open spec fn fetch_uncached(self, debug: bool, phys: u32) -> (FetchInstrResult, Self) {
        let (r, sysad) = B::read_result(self.sysad, 4, phys);
        let m = Machine {
            sysad,
            tools: Tools {
                uncached_fetch_count: self.tools.uncached_fetch_count.wrapping_add(1),
                ..self.tools
            },
            ..self
        };
        if r.status == BUS_OK {
            let ins = DecodedInstr { flags: FLAG_NOT_DECODED, raw: r.data as u32, ..m.ins };
            let kept = if debug {
                ins
            } else {
                decoded(ins)
            };
            (FetchInstrResult { status: EXEC_COMPLETE, instr: ins }, Machine { ins: kept, ..m })
        } else {
            (stopped_fetch(r.status), m)
        }
    }

    /// A memory access is noted, if a comparison needs it.
    pub open spec fn captured(self, va: u64, phys: u64, v: Option<u64>) -> Self {
        self.with_tools(self.tools.captured(va, phys, v))
    }

    /// Read of `size` bytes at `va`.
    #[verifier::opaque]
    pub open spec fn read_data(self, debug: bool, size: usize, va: u64) -> (
        Result<u64, ExecStatus>,
        Self,
    ) {
        let (hit, m) = self.break_unless(debug, BpType::VirtRead, va);
        if hit {
            (Err(EXEC_BREAKPOINT), m)
        } else if va & ((size - 1) as u64) != 0 {
            (Err(exception_status(EXC_ADEL)), m.note_bad(debug, va))
        } else {
            let (tr, m) = m.access_translate(debug, AccessType::Read, va);
            if tr.spec_is_exception() {
                (Err(tr.status), m)
            } else {
                let (hit, m) = m.break_unless(debug, BpType::PhysRead, tr.phys as u64);
                if hit {
                    (Err(EXEC_BREAKPOINT), m)
                } else {
                    let (r, m) = if tr.spec_is_cached() {
                        m.read_cached(debug, size, va, tr.phys as u64)
                    } else {
                        m.read_uncached(debug, size, va, tr.phys)
                    };
                    (
                        r,
                        m.captured(
                            va,
                            tr.phys as u64,
                            match r {
                                Ok(v) => Some(v),
                                Err(_) => None,
                            },
                        ),
                    )
                }
            }
        }
    }

    pub open spec fn read_cached(self, debug: bool, size: usize, va: u64, phys: u64) -> (
        Result<u64, ExecStatus>,
        Self,
    ) {
        let (r, cache) = C::read_result(self.cache, size, va, phys);
        let m = Machine { cache, ..self };
        if r.status == BUS_OK {
            (Ok(r.data), m)
        } else {
            (Err(r.status), m.note_bad(debug, va))
        }
    }

    pub open spec fn read_uncached(self, debug: bool, size: usize, va: u64, phys: u32) -> (
        Result<u64, ExecStatus>,
        Self,
    ) {
        let again = match self.tools.replay {
            Some(s) => replayed(s@, phys as u64, size),
            None => None,
        };
        match again {
            Some(v) => (Ok(v), self),
            None => {
                let (r, sysad) = B::read_result(self.sysad, size, phys);
                let m = Machine { sysad, ..self };
                if r.status == BUS_OK {
                    (
                        Ok(r.data),
                        if m.tools.recording && is_time_driven(phys as u64) {
                            m.with_tools(
                                Tools {
                                    recorded: m.tools.recorded.push(
                                        (phys as u64, size as u8, r.data),
                                    ),
                                    ..m.tools
                                },
                            )
                        } else {
                            m
                        },
                    )
                } else if r.status == BUS_BUSY {
                    (Err(r.status), m)
                } else {
                    (Err(r.status), m.note_bad(debug, va))
                }
            },
        }
    }

    /// What is at the physical address `phys`, behind the caches or on the bus.
    pub open spec fn peek(self, cached: bool, size: usize, va: u64, phys: u32) -> (
        BusRead64,
        Self,
    ) {
        if cached {
            let (r, cache) = C::read_result(self.cache, size, va, phys as u64);
            (r, Machine { cache, ..self })
        } else {
            let (r, sysad) = B::read_result(self.sysad, size, phys);
            (r, Machine { sysad, ..self })
        }
    }

    /// The machine with `val` at the physical address `phys`, if a write there is good.
    pub open spec fn poke(self, cached: bool, size: usize, va: u64, phys: u32, val: u64) -> Self {
        if cached {
            Machine { cache: C::write_result(self.cache, size, va, phys as u64, val).1, ..self }
        } else {
            Machine {
                sysad: B::write_result(self.sysad, size, phys, truncated(val, size)).1,
                ..self
            }
        }
    }

    /// A write to main memory is noted for the undo buffer, with what it overwrites.
    /// Where nothing can be read, nothing is noted.
    pub open spec fn track_write(
        self,
        debug: bool,
        cached: bool,
        size: usize,
        va: u64,
        phys: u32,
    ) -> Self {
        if !debug && self.tools.undo.enabled && in_main_memory(phys) {
            let (r, m) = self.peek(cached, size, va, phys);
            if r.status == BUS_OK {
                let w = MemoryWrite {
                    virt_addr: va,
                    phys_addr: phys as u64,
                    old_value: r.data,
                    size,
                    cached,
                };
                m.with_tools(Tools { pending: m.tools.pending.push(w), ..m.tools })
            } else {
                m
            }
        } else {
            self
        }
    }

    /// Write of `size` bytes at `va`.
    #[verifier::opaque]
    pub open spec fn write_data(self, debug: bool, size: usize, va: u64, val: u64) -> (
        ExecStatus,
        Self,
    ) {
        let (hit, m) = self.break_unless(debug, BpType::VirtWrite, va);
        if hit {
            (EXEC_BREAKPOINT, m)
        } else if va & ((size - 1) as u64) != 0 {
            (exception_status(EXC_ADES), m.note_bad(debug, va))
        } else {
            let (tr, m) = m.access_translate(debug, AccessType::Write, va);
            if tr.spec_is_exception() {
                (tr.status, m)
            } else {
                let m = m.track_write(debug, tr.spec_is_cached(), size, va, tr.phys);
                let (hit, m) = m.break_unless(debug, BpType::PhysWrite, tr.phys as u64);
                if hit {
                    (EXEC_BREAKPOINT, m)
                } else {
                    let (s, m) = if tr.spec_is_cached() {
                        let (s, cache) = C::write_result(m.cache, size, va, tr.phys as u64, val);
                        m.after_cached_write(debug, va, s, cache)
                    } else {
                        let (s, sysad) = B::write_result(
                            m.sysad,
                            size,
                            tr.phys,
                            truncated(val, size),
                        );
                        (s, Machine { sysad, ..m })
                    };
                    (
                        s,
                        m.captured(
                            va,
                            tr.phys as u64,
                            if s == BUS_OK {
                                Some(val)
                            } else {
                                None
                            },
                        ),
                    )
                }
            }
        }
    }

    pub open spec fn after_cached_write(
        self,
        debug: bool,
        va: u64,
        s: ExecStatus,
        cache: C::St,
    ) -> (ExecStatus, Self) {
        let m = Machine { cache, ..self };
        if s == BUS_OK || s == BUS_BUSY {
            (s, m)
        } else {
            (s, m.note_bad(debug, va))
        }
    }

    /// Write of the bits of the doubleword at `va` that `mask` selects.
    #[verifier::opaque]
    pub open spec fn write_masked(self, debug: bool, va: u64, val: u64, mask: u64) -> (
        ExecStatus,
        Self,
    ) {
        let (hit, m) = self.break_unless(debug, BpType::VirtWrite, va);
        if hit {
            (EXEC_BREAKPOINT, m)
        } else {
            let (tr, m) = m.access_translate(debug, AccessType::Write, va);
            if tr.spec_is_exception() {
                (tr.status, m)
            } else {
                let m = m.track_write(debug, tr.spec_is_cached(), 8, va, tr.phys);
                let (hit, m) = m.break_unless(debug, BpType::PhysWrite, tr.phys as u64);
                if hit {
                    (EXEC_BREAKPOINT, m)
                } else if tr.spec_is_cached() {
                    let (s, cache) = C::masked_result(m.cache, va, tr.phys as u64, val, mask);
                    m.after_cached_write(debug, va, s, cache)
                } else {
                    let (s, sysad) = B::masked_result(m.sysad, tr.phys, val, mask);
                    (s, Machine { sysad, ..m })
                }
            }
        }
    }

    // How instructions end.
    pub open spec fn done(self) -> (ExecStatus, Self) {
        (EXEC_COMPLETE, self.with_core(self.core.completed()))
    }

    /// Delivers exception `status`; the load-linked bit is lost.
    pub open spec fn raise(self, status: ExecStatus) -> (ExecStatus, Self) {
        (
            status,
            Machine {
                cache: C::with_llbit(self.cache, false),
                core: self.core.after_exception(status),
                ..self
            },
        )
    }

    /// The end of an instruction whose memory access came to `status`: exceptions are
    /// delivered, and a busy bus or a breakpoint leaves the instruction to be run again.
    pub open spec fn finish(self, status: ExecStatus) -> (ExecStatus, Self) {
        if status & EXEC_IS_EXCEPTION != 0 {
            self.raise(status)
        } else if status == EXEC_COMPLETE {
            self.done()
        } else {
            (status, self)
        }
    }
}

pub open spec fn in_main_memory(phys: u32) -> bool {
    LOMEM_BASE <= phys < LOMEM_END || HIMEM_BASE <= phys < HIMEM_END
}

/// The low `size` bytes of `v`.
pub open spec fn truncated(v: u64, size: usize) -> u64 {
    if size == 1 {
        v as u8 as u64
    } else if size == 2 {
        v as u16 as u64
    } else if size == 4 {
        v as u32 as u64
    } else {
        v
    }
}

/// A fetch that gave no instruction.
pub open spec fn stopped_fetch(status: ExecStatus) -> FetchInstrResult {
    FetchInstrResult { status, instr: empty_instr() }
}

pub open spec fn empty_instr() -> DecodedInstr {
    DecodedInstr {
        handler: crate::instr::InstrHandler::Reserved,
        imm: 0,
        raw: 0,
        flags: FLAG_NOT_DECODED,
        op: 0,
        rs: 0,
        rt: 0,
        rd: 0,
        sa: 0,
        funct: 0,
    }
}

} // verus!
