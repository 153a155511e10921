//! Address translation and memory access.
use vstd::prelude::*;

use crate::breakpoints::BpType;
use crate::bus::{
    BusDevice, BusRead64, FetchInstrResult, MipsCache, Tlb, TlbResult, BUS_BUSY, BUS_OK,
};
use crate::cpu_core::{AccessType, MipsCore, NanoTlbEntry, PrivilegeMode, STATUS_ERL};
use crate::instr::{
    decode_into, decoded, fields_bounded, law_decoded_fields, DecodedInstr, FLAG_NOT_DECODED,
};
use crate::jit::CODE_PAGE_SIZE;
use crate::machine::{
    address_error, is_access_size, is_time_driven, replayed, route32, route64, tlb_outcome,
    tlb_refuses, truncated, Machine, MipsExecutor, Route, HIMEM_BASE, HIMEM_END, LOMEM_BASE,
    LOMEM_END,
};
use crate::status::{
    exception_status, exec_exception, exec_tlb_miss, exec_xtlb_miss, ExecStatus, TranslateResult,
    EXC_ADEL, EXC_ADES, EXC_MOD, EXC_TLBL, EXC_TLBS, EXC_VCEI, EXEC_BREAKPOINT, EXEC_COMPLETE,
    EXEC_IS_EXCEPTION, TR_CACHEABLE, TR_UNCACHED,
};
use crate::tools::HwRead;
use crate::undo::MemoryWrite;

verus! {

proof fn lemma_regions(va: u64, low: u32)
    ensures
        va >> 62 <= 3,
        low >> 29 <= 7,
        (va >> 59) & 0x7 <= 7,
{
    crate::bits::lemma_bits_of_both(va, low);
}

/// Route of a 32-bit address at privilege `p`.
pub fn translate_32bit(va: u64, p: PrivilegeMode, erl: bool) -> (r: Route)
    ensures
        r == route32(va, p, erl),
{
    let low: u32 = va as u32;
    let segment: u32 = low >> 29;
    proof {
        lemma_regions(va, low);
    }
    match segment {
        0 | 1 | 2 | 3 => if erl {
            Route::Unmapped { phys: low as u64, c_field: TR_UNCACHED }
        } else {
            Route::Mapped { xtlb: false }
        },
        4 => if p == PrivilegeMode::Kernel {
            Route::Unmapped { phys: (low & 0x1FFFFFFF) as u64, c_field: TR_CACHEABLE }
        } else {
            Route::Denied
        },
        5 => if p == PrivilegeMode::Kernel {
            Route::Unmapped { phys: (low & 0x1FFFFFFF) as u64, c_field: TR_UNCACHED }
        } else {
            Route::Denied
        },
        6 => if p == PrivilegeMode::Kernel || p == PrivilegeMode::Supervisor {
            Route::Mapped { xtlb: false }
        } else {
            Route::Denied
        },
        _ => if p == PrivilegeMode::Kernel {
            Route::Mapped { xtlb: false }
        } else {
            Route::Denied
        },
    }
}

/// Route of a 64-bit address at privilege `p`.
pub fn translate_64bit(va: u64, p: PrivilegeMode, erl: bool) -> (r: Route)
    ensures
        r == route64(va, p, erl),
{
    let region: u64 = va >> 62;
    let low: u32 = va as u32;
    proof {
        lemma_regions(va, low);
    }
    match region {
        0 => if (va >> 40) != 0 {
            Route::Denied
        } else if erl {
            Route::Unmapped { phys: va, c_field: TR_UNCACHED }
        } else {
            Route::Mapped { xtlb: true }
        },
        1 => if p == PrivilegeMode::Kernel || p == PrivilegeMode::Supervisor {
            Route::Mapped { xtlb: true }
        } else {
            Route::Denied
        },
        2 => {
            let w: u64 = (va >> 59) & 0x7;
            if w >= 2 && w <= 7 && p == PrivilegeMode::Kernel {
                let c_field: u32 = if w == 3 || w == 5 {
                    w as u32
                } else {
                    TR_UNCACHED
                };
                Route::Unmapped { phys: va & 0x07FF_FFFF_FFFF_FFFF, c_field }
            } else {
                Route::Denied
            }
        },
        _ => if p == PrivilegeMode::Kernel {
            if (va >> 32) == 0xFFFFFFFF {
                let segment: u32 = (low >> 29) & 0x7;
                if segment == 4 {
                    Route::Unmapped { phys: (low & 0x1FFFFFFF) as u64, c_field: TR_CACHEABLE }
                } else if segment == 5 {
                    Route::Unmapped { phys: (low & 0x1FFFFFFF) as u64, c_field: TR_UNCACHED }
                } else {
                    Route::Mapped { xtlb: false }
                }
            } else {
                Route::Mapped { xtlb: true }
            }
        } else {
            Route::Denied
        },
    }
}

impl MipsCore {
    fn route_of(&self, debug: bool, va: u64) -> (r: Route)
        ensures
            r == self.route(debug, va),
    {
        let p: PrivilegeMode = if debug {
            PrivilegeMode::Kernel
        } else {
            self.get_privilege_mode()
        };
        let erl: bool = self.cp0_status & STATUS_ERL != 0;
        if self.is_64bit_mode() {
            translate_64bit(va, p, erl)
        } else {
            translate_32bit(va, p, erl)
        }
    }

    /// Whether a miss at `va` goes to the 64-bit refill vector.
    pub fn is_xtlb_address(&self, va: u64) -> (b: bool)
        ensures
            b == self.xtlb_address(va),
    {
        if !self.is_64bit_mode() {
            return false;
        }
        match va >> 62 {
            0 | 1 => true,
            3 => (va >> 32) != 0xFFFFFFFF,
            _ => false,
        }
    }

    /// A 64-bit address: in 64-bit mode, user and supervisor space and the kernel
    /// segment outside its 32-bit part.
    pub open spec fn xtlb_address(&self, va: u64) -> bool {
        self.is_64bit() && (va >> 62 == 0 || va >> 62 == 1 || (va >> 62 == 3 && (va >> 32)
            != 0xFFFFFFFF))
    }

    /// Notes a failed TLB lookup of `va`.
    fn update_tlb_exception_registers(&mut self, xtlb: bool, va: u64)
        ensures
            *final(self) == old(self).tlb_fault(xtlb, va),
    {
        let asid: u64 = self.cp0_entryhi & 0xFF;
        let vpn_mask: u64 = if xtlb {
            0xC000_00FF_FFFF_E000
        } else {
            0x0000_0000_FFFF_E000
        };
        self.cp0_badvaddr = va;
        self.cp0_entryhi = (va & vpn_mask) | asid;
        self.cp0_context = (self.cp0_context & 0xFFFFFFFF_FF800000) | (((va & 0x0000_0000_FFFF_E000)
            >> 13) << 4);
        self.cp0_xcontext = (self.cp0_xcontext & 0xFFFF_FFFE_0000_0000) | (((va >> 62) & 0x3) << 31)
            | (((va & 0x0000_00FF_FFFF_E000) >> 13) << 4);
    }

    fn nano_of(&self, at: AccessType) -> (e: NanoTlbEntry)
        ensures
            e == self.nano(at),
    {
        match at {
            AccessType::Fetch => self.nanotlb_fetch,
            AccessType::Read => self.nanotlb_read,
            AccessType::Write => self.nanotlb_write,
            AccessType::Debug => NanoTlbEntry::empty(),
        }
    }

    fn set_nano(&mut self, at: AccessType, e: NanoTlbEntry)
        ensures
            *final(self) == old(self).with_nano(at, e),
    {
        match at {
            AccessType::Fetch => {
                self.nanotlb_fetch = e;
            },
            AccessType::Read => {
                self.nanotlb_read = e;
            },
            AccessType::Write => {
                self.nanotlb_write = e;
            },
            AccessType::Debug => {},
        }
    }
}

fn address_error_of(at: AccessType) -> (s: ExecStatus)
    ensures
        s == address_error(at),
{
    exec_exception(
        if at == AccessType::Write {
            EXC_ADES
        } else {
            EXC_ADEL
        },
    )
}

/// Whether `phys` is a register that the host's time drives.
pub fn is_hw_read_fixup_addr(phys: u64) -> (b: bool)
    ensures
        b == is_time_driven(phys),
{
    phys == 0x1fa01000 || phys == 0x1fa01004 || phys == 0x1fa02048 || phys == 0x1fa0204c || (phys
        >= 0x1fbe0000 && phys <= 0x1fbe003c && phys % 4 == 0) || (phys >= 0x1fbd98b0 && phys
        <= 0x1fbd98bf)
}

fn find_replay(v: &Vec<HwRead>, phys: u64, size: usize) -> (r: Option<u64>)
    ensures
        r == replayed(v@, phys, size),
{
    let mut i: usize = 0;
    while i < v.len()
        invariant
            i <= v@.len(),
            replayed(v@.subrange(0, i as int), phys, size) is None,
        decreases v@.len() - i,
    {
        assert(v@.subrange(0, i + 1).drop_last() =~= v@.subrange(0, i as int));
        assert(v@.subrange(0, i + 1).last() == v@[i as int]);
        if v[i].0 == phys && v[i].1 as usize == size {
            proof {
                lemma_replayed_prefix(v@, i + 1, phys, size);
            }
            return Some(v[i].2);
        }
        i = i + 1;
    }
    assert(v@.subrange(0, i as int) =~= v@);
    None
}

proof fn lemma_replayed_prefix(s: Seq<HwRead>, n: int, phys: u64, size: usize)
    requires
        0 <= n <= s.len(),
        replayed(s.subrange(0, n), phys, size) is Some,
    ensures
        replayed(s, phys, size) == replayed(s.subrange(0, n), phys, size),
    decreases s.len() - n,
{
    if n < s.len() {
        assert(s.subrange(0, n + 1).drop_last() =~= s.subrange(0, n));
        lemma_replayed_prefix(s, n + 1, phys, size);
    } else {
        assert(s.subrange(0, n) =~= s);
    }
}

fn decode(instr: DecodedInstr) -> (d: DecodedInstr)
    ensures
        d == decoded(instr),
        fields_bounded(d),
        d.flags == 0,
{
    proof {
        law_decoded_fields(instr);
    }
    let mut d: DecodedInstr = instr;
    decode_into(&mut d);
    d
}

impl<T: Tlb, C: MipsCache, B: BusDevice> MipsExecutor<T, C, B> {
    /// Whether an access hits a breakpoint. The one that is hit is noted.
    pub fn check_breakpoint(&mut self, kind: BpType, addr: u64) -> (b: bool)
        requires
            old(self).wf(),
        ensures
            final(self).wf(),
            (b, final(self)@) == old(self)@.break_at(kind, addr),
    {
        if self.skip_breakpoints {
            return false;
        }
        match self.bps.check(kind, addr, &self.core) {
            Some(id) => {
                self.last_bp_hit = Some(id);
                true
            },
            None => false,
        }
    }

    fn check_unless(&mut self, debug: bool, kind: BpType, addr: u64) -> (b: bool)
        requires
            old(self).wf(),
        ensures
            final(self).wf(),
            (b, final(self)@) == old(self)@.break_unless(debug, kind, addr),
    {
        if debug {
            false
        } else {
            self.check_breakpoint(kind, addr)
        }
    }

    /// Translates `va`. With `debug`, at kernel privilege and without a trace.
    pub fn translate_impl(&mut self, debug: bool, va: u64, at: AccessType) -> (r: TranslateResult)
        requires
            old(self).wf(),
        ensures
            final(self).wf(),
            (r, final(self)@) == old(self)@.translate(debug, va, at),
    {
        proof {
            reveal(Machine::translate);
        }
        match self.core.route_of(debug, va) {
            Route::Unmapped { phys, c_field } => TranslateResult::ok(phys, c_field),
            Route::Denied => {
                if !debug {
                    self.core.cp0_badvaddr = va;
                }
                TranslateResult::exc(address_error_of(at))
            },
            Route::Mapped { xtlb } => self.tlb_translate_impl(debug, xtlb, va, at),
        }
    }

    /// Translates `va` through the TLB.
    fn tlb_translate_impl(&mut self, debug: bool, xtlb: bool, va: u64, at: AccessType) -> (r:
        TranslateResult)
        requires
            old(self).wf(),
        ensures
            final(self).wf(),
            ({
                let t = T::lookup(old(self)@.tlb, xtlb, va, old(self)@.asid(), at);
                &&& r == tlb_outcome(t, xtlb, at)
                &&& final(self)@ == if debug || !tlb_refuses(t, at) {
                    old(self)@
                } else {
                    old(self)@.with_core(old(self)@.core.tlb_fault(xtlb, va))
                }
            }),
    {
        let asid: u8 = (self.core.cp0_entryhi & 0xFF) as u8;
        let result: TlbResult = self.tlb.translate(xtlb, va, asid, at);
        let code: u32 = if at == AccessType::Write {
            EXC_TLBS
        } else {
            EXC_TLBL
        };
        match result {
            TlbResult::Hit { phys_addr, cache_attr, dirty } => {
                if at == AccessType::Write && !dirty {
                    if !debug {
                        self.core.update_tlb_exception_registers(xtlb, va);
                    }
                    TranslateResult::exc(exec_exception(EXC_MOD))
                } else {
                    TranslateResult::ok(phys_addr, cache_attr.c_field())
                }
            },
            TlbResult::Miss => {
                if !debug {
                    self.core.update_tlb_exception_registers(xtlb, va);
                }
                TranslateResult::exc(
                    if xtlb {
                        exec_xtlb_miss(code)
                    } else {
                        exec_tlb_miss(code)
                    },
                )
            },
            TlbResult::Invalid => {
                if !debug {
                    self.core.update_tlb_exception_registers(xtlb, va);
                }
                TranslateResult::exc(exec_exception(code))
            },
            TlbResult::Modified => {
                if !debug {
                    self.core.update_tlb_exception_registers(xtlb, va);
                }
                TranslateResult::exc(exec_exception(EXC_MOD))
            },
        }
    }

    /// Translates `va` by way of the remembered translation of its kind of access.
    pub fn nanotlb_translate(&mut self, at: AccessType, va: u64) -> (r: TranslateResult)
        requires
            old(self).wf(),
        ensures
            final(self).wf(),
            (r, final(self)@) == old(self)@.nano_translate(at, va),
    {
        proof {
            reveal(Machine::nano_translate);
        }
        let page: u64 = va & !0xFFF;
        let e: NanoTlbEntry = self.core.nano_of(at);
        if e.valid && e.va_page == page {
            return TranslateResult::ok(e.phys_page | (va & 0xFFF), e.c_field);
        }
        let r: TranslateResult = self.translate_impl(false, va, at);
        if !r.is_exception() {
            let n = NanoTlbEntry {
                valid: true,
                va_page: page,
                phys_page: (r.phys as u64) & !0xFFF,
                c_field: r.status & 0x7,
            };
            self.core.set_nano(at, n);
            if at == AccessType::Fetch {
                self.core.track_page(r.phys / CODE_PAGE_SIZE);
            }
        }
        r
    }

    fn access_translate(&mut self, debug: bool, at: AccessType, va: u64) -> (r: TranslateResult)
        requires
            old(self).wf(),
        ensures
            final(self).wf(),
            (r, final(self)@) == old(self)@.access_translate(debug, at, va),
    {
        if debug {
            if at == AccessType::Fetch {
                self.translate_impl(true, va, AccessType::Fetch)
            } else {
                self.translate_impl(true, va, AccessType::Debug)
            }
        } else {
            self.nanotlb_translate(at, va)
        }
    }

    /// Translates `va` for the debugger.
    pub fn debug_translate(&mut self, va: u64) -> (r: TranslateResult)
        requires
            old(self).wf(),
        ensures
            final(self).wf(),
            (r, final(self)@) == old(self)@.translate(true, va, AccessType::Debug),
    {
        self.translate_impl(true, va, AccessType::Debug)
    }

    fn note_bad(&mut self, debug: bool, va: u64)
        requires
            old(self).wf(),
        ensures
            final(self).wf(),
            final(self)@ == old(self)@.note_bad(debug, va),
    {
        if !debug {
            self.core.cp0_badvaddr = va;
        }
    }

    /// Fetches the instruction at `va`.
    pub fn fetch_instr(&mut self, va: u64) -> (r: FetchInstrResult)
        requires
            old(self).wf(),
        ensures
            final(self).wf(),
            (r, final(self)@) == old(self)@.fetch(false, va),
            r.status == EXEC_COMPLETE && r.instr.flags == 0 ==> fields_bounded(r.instr),
    {
        self.fetch_instr_impl(false, va)
    }

    /// The instruction word at `va`, for the debugger.
    pub fn debug_fetch_instr(&mut self, va: u64) -> (r: Result<u32, ExecStatus>)
        requires
            old(self).wf(),
        ensures
            final(self).wf(),
            final(self)@ == old(self)@.fetch(true, va).1,
            r == fetched_word(old(self)@.fetch(true, va).0),
    {
        let r: FetchInstrResult = self.fetch_instr_impl(true, va);
        if r.status == EXEC_COMPLETE {
            Ok(r.instr.raw)
        } else {
            Err(r.status)
        }
    }

    fn fetch_instr_impl(&mut self, debug: bool, va: u64) -> (r: FetchInstrResult)
        requires
            old(self).wf(),
        ensures
            final(self).wf(),
            (r, final(self)@) == old(self)@.fetch(debug, va),
            r.status == EXEC_COMPLETE && r.instr.flags == 0 ==> fields_bounded(r.instr),
    {
        proof {
            reveal(Machine::fetch);
        }
        if self.check_unless(debug, BpType::VirtFetch, va) {
            return FetchInstrResult { status: EXEC_BREAKPOINT, instr: DecodedInstr::default() };
        }
        let tr: TranslateResult = self.access_translate(debug, AccessType::Fetch, va);
        if tr.is_exception() {
            return FetchInstrResult { status: tr.status, instr: DecodedInstr::default() };
        }
        let phys: u32 = tr.phys;
        if self.check_unless(debug, BpType::PhysFetch, phys as u64) {
            return FetchInstrResult { status: EXEC_BREAKPOINT, instr: DecodedInstr::default() };
        }
        if tr.is_cached() {
            proof {
                C::decoded_fields(self.cache.state(), va, phys as u64);
            }
            let r: FetchInstrResult = self.cache.fetch(va, phys as u64);
            if r.status == exec_exception(EXC_VCEI) {
                self.note_bad(debug, va);
            } else if !debug && r.status == EXEC_COMPLETE && r.instr.flags != 0 {
                let d: DecodedInstr = decode(r.instr);
                self.cache.take_decoded(va, phys as u64, d);
            }
            r
        } else {
            self.tools.uncached_fetch_count = self.tools.uncached_fetch_count.wrapping_add(1);
            let r = self.sysad.read32(phys);
            if r.status == BUS_OK {
                self.ins.flags = FLAG_NOT_DECODED;
                self.ins.raw = r.data;
                let instr: DecodedInstr = self.ins;
                if !debug {
                    self.ins = decode(instr);
                }
                FetchInstrResult { status: EXEC_COMPLETE, instr }
            } else {
                FetchInstrResult { status: r.status, instr: DecodedInstr::default() }
            }
        }
    }

    /// Reads `size` bytes at `va`.
    pub fn read_data(&mut self, size: usize, va: u64) -> (r: Result<u64, ExecStatus>)
        requires
            old(self).wf(),
            is_access_size(size),
        ensures
            final(self).wf(),
            (r, final(self)@) == old(self)@.read_data(false, size, va),
    {
        self.read_data_impl(false, size, va)
    }

    /// Reads `size` bytes at `va` for the debugger: at kernel privilege, past
    /// breakpoints, and without a trace in the coprocessor registers. Other sizes than
    /// 1, 2, 4 and 8 are address errors.
    pub fn debug_read(&mut self, va: u64, size: usize) -> (r: Result<u64, ExecStatus>)
        requires
            old(self).wf(),
        ensures
            final(self).wf(),
            (r, final(self)@) == old(self)@.debug_read(va, size),
    {
        if size == 1 || size == 2 || size == 4 || size == 8 {
            self.read_data_impl(true, size, va)
        } else {
            Err(exec_exception(EXC_ADEL))
        }
    }

    fn read_data_impl(&mut self, debug: bool, size: usize, va: u64) -> (r: Result<u64, ExecStatus>)
        requires
            old(self).wf(),
            is_access_size(size),
        ensures
            final(self).wf(),
            (r, final(self)@) == old(self)@.read_data(debug, size, va),
    {
        proof {
            reveal(Machine::read_data);
        }
        if self.check_unless(debug, BpType::VirtRead, va) {
            return Err(EXEC_BREAKPOINT);
        }
        if (va & ((size - 1) as u64)) != 0 {
            self.note_bad(debug, va);
            return Err(exec_exception(EXC_ADEL));
        }
        let tr: TranslateResult = self.access_translate(debug, AccessType::Read, va);
        if tr.is_exception() {
            return Err(tr.status);
        }
        let phys: u32 = tr.phys;
        if self.check_unless(debug, BpType::PhysRead, phys as u64) {
            return Err(EXEC_BREAKPOINT);
        }
        let r: Result<u64, ExecStatus> = if tr.is_cached() {
            self.read_cached(debug, size, va, phys as u64)
        } else {
            self.read_uncached(debug, size, va, phys)
        };
        self.tools.capture(
            va,
            phys as u64,
            match r {
                Ok(v) => Some(v),
                Err(_) => None,
            },
        );
        r
    }

    fn read_cached(&mut self, debug: bool, size: usize, va: u64, phys: u64) -> (r: Result<
        u64,
        ExecStatus,
    >)
        requires
            old(self).wf(),
            is_access_size(size),
        ensures
            final(self).wf(),
            (r, final(self)@) == old(self)@.read_cached(debug, size, va, phys),
    {
        let r: BusRead64 = self.cache.read(size, va, phys);
        if r.is_ok() {
            Ok(r.data)
        } else {
            self.note_bad(debug, va);
            Err(r.status)
        }
    }

    fn read_uncached(&mut self, debug: bool, size: usize, va: u64, phys: u32) -> (r: Result<
        u64,
        ExecStatus,
    >)
        requires
            old(self).wf(),
            is_access_size(size),
        ensures
            final(self).wf(),
            (r, final(self)@) == old(self)@.read_uncached(debug, size, va, phys),
    {
        let again: Option<u64> = match &self.tools.hw_read_fixup_replay {
            Some(v) => find_replay(v, phys as u64, size),
            None => None,
        };
        if let Some(v) = again {
            return Ok(v);
        }
        let r: BusRead64 = self.bus_read(size, phys);
        if r.is_ok() {
            if self.tools.hw_read_fixup_recording && is_hw_read_fixup_addr(phys as u64) {
                self.tools.hw_read_fixup_recorded.push((phys as u64, size as u8, r.data));
            }
            Ok(r.data)
        } else {
            if r.status != BUS_BUSY {
                self.note_bad(debug, va);
            }
            Err(r.status)
        }
    }

    fn bus_read(&mut self, size: usize, phys: u32) -> (r: BusRead64)
        requires
            old(self).wf(),
            is_access_size(size),
        ensures
            final(self).wf(),
            r == B::read_result(old(self)@.sysad, size, phys).0,
            final(self)@ == (Machine {
                sysad: B::read_result(old(self)@.sysad, size, phys).1,
                ..old(self)@
            }),
    {
        if size == 1 {
            self.sysad.read8(phys).widen()
        } else if size == 2 {
            self.sysad.read16(phys).widen()
        } else if size == 4 {
            self.sysad.read32(phys).widen()
        } else {
            self.sysad.read64(phys)
        }
    }

    fn bus_write(&mut self, size: usize, phys: u32, val: u64) -> (s: u32)
        requires
            old(self).wf(),
            is_access_size(size),
        ensures
            final(self).wf(),
            s == B::write_result(old(self)@.sysad, size, phys, truncated(val, size)).0,
            final(self)@ == (Machine {
                sysad: B::write_result(old(self)@.sysad, size, phys, truncated(val, size)).1,
                ..old(self)@
            }),
    {
        if size == 1 {
            self.sysad.write8(phys, val as u8)
        } else if size == 2 {
            self.sysad.write16(phys, val as u16)
        } else if size == 4 {
            self.sysad.write32(phys, val as u32)
        } else {
            self.sysad.write64(phys, val)
        }
    }

    /// Writes the low `size` bytes of `val` at `va`.
    pub fn write_data(&mut self, size: usize, va: u64, val: u64) -> (s: ExecStatus)
        requires
            old(self).wf(),
            is_access_size(size),
        ensures
            final(self).wf(),
            (s, final(self)@) == old(self)@.write_data(false, size, va, val),
    {
        self.write_data_impl(false, size, va, val)
    }

    /// Writes for the debugger: at kernel privilege, past breakpoints, without a trace
    /// in the coprocessor registers or the undo buffer. Other sizes than 1, 2, 4 and 8
    /// are address errors.
    pub fn debug_write(&mut self, va: u64, val: u64, size: usize, _mask: u64) -> (s: ExecStatus)
        requires
            old(self).wf(),
        ensures
            final(self).wf(),
            (s, final(self)@) == old(self)@.debug_write(va, val, size),
    {
        if size == 1 || size == 2 || size == 4 || size == 8 {
            self.write_data_impl(true, size, va, val)
        } else {
            exec_exception(EXC_ADES)
        }
    }

    fn peek(&mut self, cached: bool, size: usize, va: u64, phys: u32) -> (r: BusRead64)
        requires
            old(self).wf(),
            is_access_size(size),
        ensures
            final(self).wf(),
            (r, final(self)@) == old(self)@.peek(cached, size, va, phys),
    {
        if cached {
            self.cache.read(size, va, phys as u64)
        } else {
            self.bus_read(size, phys)
        }
    }

    pub(crate) fn poke(&mut self, cached: bool, size: usize, va: u64, phys: u32, val: u64)
        requires
            old(self).wf(),
            is_access_size(size),
        ensures
            final(self).wf(),
            final(self)@ == old(self)@.poke(cached, size, va, phys, val),
    {
        if cached {
            self.cache.write(size, va, phys as u64, val);
        } else {
            self.bus_write(size, phys, val);
        }
    }

    /// Notes a write for the undo buffer.
    fn track_memory_write(&mut self, debug: bool, cached: bool, size: usize, va: u64, phys: u32)
        requires
            old(self).wf(),
            is_access_size(size),
        ensures
            final(self).wf(),
            final(self)@ == old(self)@.track_write(debug, cached, size, va, phys),
    {
        if debug || !self.tools.undo_buffer.is_enabled() {
            return;
        }
        let main: bool = (phys >= LOMEM_BASE && phys < LOMEM_END) || (phys >= HIMEM_BASE && phys
            < HIMEM_END);
        if main {
            let r: BusRead64 = self.peek(cached, size, va, phys);
            if r.is_ok() {
                self.tools.pending_memory_writes.push(
                    MemoryWrite {
                        virt_addr: va,
                        phys_addr: phys as u64,
                        old_value: r.data,
                        size,
                        cached,
                    },
                );
            }
        }
    }

    fn write_data_impl(&mut self, debug: bool, size: usize, va: u64, val: u64) -> (s: ExecStatus)
        requires
            old(self).wf(),
            is_access_size(size),
        ensures
            final(self).wf(),
            (s, final(self)@) == old(self)@.write_data(debug, size, va, val),
    {
        proof {
            reveal(Machine::write_data);
        }
        if self.check_unless(debug, BpType::VirtWrite, va) {
            return EXEC_BREAKPOINT;
        }
        if (va & ((size - 1) as u64)) != 0 {
            self.note_bad(debug, va);
            return exec_exception(EXC_ADES);
        }
        let tr: TranslateResult = self.access_translate(debug, AccessType::Write, va);
        if tr.is_exception() {
            return tr.status;
        }
        let phys: u32 = tr.phys;
        self.track_memory_write(debug, tr.is_cached(), size, va, phys);
        if self.check_unless(debug, BpType::PhysWrite, phys as u64) {
            return EXEC_BREAKPOINT;
        }
        let s: ExecStatus = if tr.is_cached() {
            let s: u32 = self.cache.write(size, va, phys as u64, val);
            if s != BUS_OK && s != BUS_BUSY {
                self.note_bad(debug, va);
            }
            s
        } else {
            self.bus_write(size, phys, val)
        };
        self.tools.capture(
            va,
            phys as u64,
            if s == BUS_OK {
                Some(val)
            } else {
                None
            },
        );
        s
    }

    /// Writes the bits of the doubleword at `va` that `mask` selects.
    pub fn write_data64_masked(&mut self, va: u64, val: u64, mask: u64) -> (s: ExecStatus)
        requires
            old(self).wf(),
        ensures
            final(self).wf(),
            (s, final(self)@) == old(self)@.write_masked(false, va, val, mask),
    {
        proof {
            reveal(Machine::write_masked);
        }
        if self.check_unless(false, BpType::VirtWrite, va) {
            return EXEC_BREAKPOINT;
        }
        let tr: TranslateResult = self.access_translate(false, AccessType::Write, va);
        if tr.is_exception() {
            return tr.status;
        }
        let phys: u32 = tr.phys;
        self.track_memory_write(false, tr.is_cached(), 8, va, phys);
        if self.check_unless(false, BpType::PhysWrite, phys as u64) {
            return EXEC_BREAKPOINT;
        }
        if tr.is_cached() {
            let s: u32 = self.cache.write64_masked(va, phys as u64, val, mask);
            if s != BUS_OK && s != BUS_BUSY {
                self.note_bad(false, va);
            }
            s
        } else {
            self.sysad.write64_masked(phys, val, mask)
        }
    }

    // How instructions end.
    /// Ends an instruction: on to a pending jump's target, else to the next one.
    pub fn handle_exec_complete(&mut self) -> (s: ExecStatus)
        requires
            old(self).wf(),
        ensures
            final(self).wf(),
            (s, final(self)@) == old(self)@.done(),
    {
        self.core.complete();
        EXEC_COMPLETE
    }

    /// Delivers an exception.
    pub fn handle_exception(&mut self, status: ExecStatus) -> (s: ExecStatus)
        requires
            old(self).wf(),
        ensures
            final(self).wf(),
            (s, final(self)@) == old(self)@.raise(status),
    {
        self.cache.set_llbit(false);
        self.core.deliver_exception(status);
        self.core.nanotlb_invalidate();
        self.core.in_delay_slot = false;
        status
    }

    /// Ends an instruction whose memory access came to `status`.
    pub fn finish_status(&mut self, status: ExecStatus) -> (s: ExecStatus)
        requires
            old(self).wf(),
        ensures
            final(self).wf(),
            (s, final(self)@) == old(self)@.finish(status),
    {
        if status & EXEC_IS_EXCEPTION != 0 {
            self.handle_exception(status)
        } else if status == EXEC_COMPLETE {
            self.handle_exec_complete()
        } else {
            status
        }
    }
}

/// The instruction word that a fetch brought, or why it brought none.
pub open spec fn fetched_word(r: FetchInstrResult) -> Result<u32, ExecStatus> {
    if r.status == EXEC_COMPLETE {
        Ok(r.instr.raw)
    } else {
        Err(r.status)
    }
}

impl<T: Tlb, C: MipsCache, B: BusDevice> Machine<T, C, B> {
    pub open spec fn debug_read(self, va: u64, size: usize) -> (Result<u64, ExecStatus>, Self) {
        if is_access_size(size) {
            self.read_data(true, size, va)
        } else {
            (Err(exception_status(EXC_ADEL)), self)
        }
    }

    pub open spec fn debug_write(self, va: u64, val: u64, size: usize) -> (ExecStatus, Self) {
        if is_access_size(size) {
            self.write_data(true, size, va, val)
        } else {
            (exception_status(EXC_ADES), self)
        }
    }
}

impl MipsCore {
    /// Ends an instruction.
    pub fn complete(&mut self)
        ensures
            *final(self) == old(self).completed(),
    {
        if self.in_delay_slot {
            self.pc = self.delay_slot_target;
            self.in_delay_slot = false;
            self.jit_trigger = true;
        } else {
            self.pc = self.pc.wrapping_add(4);
        }
    }

    /// Ends a jump: its delay slot comes next, and then `target`.
    pub fn branch_delay(&mut self, target: u64)
        ensures
            *final(self) == old(self).branching(target),
    {
        self.delay_slot_target = target;
        self.in_delay_slot = true;
        self.pc = self.pc.wrapping_add(4);
    }

    /// Ends a likely branch that is not taken, or a fused pair.
    pub fn branch_likely_skip(&mut self)
        ensures
            *final(self) == old(self).skipping(),
    {
        self.pc = self.pc.wrapping_add(8);
    }

    /// Ends a branch that is not taken.
    pub fn branch_not_taken(&mut self)
        ensures
            *final(self) == old(self).not_taken(),
    {
        self.branch_delay(self.pc.wrapping_add(8));
    }

    /// Ends a jump that has no delay slot.
    pub fn jump_now(&mut self, target: u64)
        ensures
            *final(self) == old(self).jumped(target),
    {
        self.pc = target;
        self.jit_trigger = true;
    }
}

} // verus!
