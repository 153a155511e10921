//! The system instructions: coprocessor 0, the TLB, the caches, and the return from an
//! exception.
use vstd::prelude::*;

use crate::bus::{BusDevice, MipsCache, Tlb, TlbEntry};
use crate::cpu_core::{
    AccessType, MipsCore, PrivilegeMode, CAUSE_CE_MASK, CAUSE_CE_SHIFT, STATUS_CU0, STATUS_ERL,
    STATUS_EXL,
};
use crate::instr::{fields_bounded, DecodedInstr, InstrHandler};
use crate::isa::{
    C_CDX, C_ILT, C_IST, FUNCT_ERET, FUNCT_TLBP, FUNCT_TLBR, FUNCT_TLBWI, FUNCT_TLBWR, FUNCT_WAIT,
    RS_DMFC0, RS_DMTC0, RS_MFC0, RS_MTC0, RS_TLB,
};
use crate::machine::{Machine, MipsExecutor};
use crate::status::{
    exception_status, exec_exception, ExecStatus, TranslateResult, EXC_CPU, EXC_RI, EXEC_COMPLETE,
};

verus! {

/// Bits of EntryHi that a TLB entry keeps.
pub const ENTRYHI_MASK: u64 = 0xC000_00FF_FFFF_E0FF;

/// Place of the global bit in a TLB entry.
pub const ENTRYHI_G: u64 = 0x1000;

impl MipsCore {
    /// The state with coprocessor `ce` noted as the one that was not usable.
    pub open spec fn unusable(self, ce: u32) -> MipsCore {
        MipsCore {
            cp0_cause: (self.cp0_cause & !CAUSE_CE_MASK) | ((ce & 3) << CAUSE_CE_SHIFT),
            ..self
        }
    }

    /// The TLB entry that the coprocessor registers describe. It is global if both of
    /// its halves are.
    pub open spec fn tlb_entry(&self) -> TlbEntry {
        let g = if self.cp0_entrylo0 & 1 != 0 && self.cp0_entrylo1 & 1 != 0 {
            ENTRYHI_G
        } else {
            0
        };
        TlbEntry {
            page_mask: self.cp0_pagemask,
            entry_hi: (self.cp0_entryhi & ENTRYHI_MASK & !ENTRYHI_G) | g,
            entry_lo0: self.cp0_entrylo0,
            entry_lo1: self.cp0_entrylo1,
        }
    }

    /// The state with TLB entry `e` in the coprocessor registers; its global bit moves to
    /// both halves.
    pub open spec fn with_tlb_entry(self, e: TlbEntry) -> MipsCore {
        let g = (e.entry_hi >> 12) & 1;
        MipsCore {
            cp0_entryhi: e.entry_hi & !ENTRYHI_G,
            cp0_entrylo0: (e.entry_lo0 & !1) | g,
            cp0_entrylo1: (e.entry_lo1 & !1) | g,
            cp0_pagemask: e.page_mask,
            ..self
        }
    }

    /// The state after the return from an error or an exception.
    pub open spec fn returned(self) -> MipsCore {
        if self.cp0_status & STATUS_ERL != 0 {
            MipsCore {
                cp0_status: self.cp0_status & !STATUS_ERL,
                ..self.without_nanotlb().jumped(self.cp0_errorepc)
            }
        } else {
            MipsCore {
                cp0_status: self.cp0_status & !STATUS_EXL,
                ..self.without_nanotlb().jumped(self.cp0_epc)
            }
        }
    }

    fn tlb_entry_of(&self) -> (e: TlbEntry)
        ensures
            e == self.tlb_entry(),
    {
        let g: u64 = if self.cp0_entrylo0 & 1 != 0 && self.cp0_entrylo1 & 1 != 0 {
            ENTRYHI_G
        } else {
            0
        };
        TlbEntry {
            page_mask: self.cp0_pagemask,
            entry_hi: (self.cp0_entryhi & ENTRYHI_MASK & !ENTRYHI_G) | g,
            entry_lo0: self.cp0_entrylo0,
            entry_lo1: self.cp0_entrylo1,
        }
    }

    fn load_tlb_entry(&mut self, e: TlbEntry)
        ensures
            *final(self) == old(self).with_tlb_entry(e),
    {
        let g: u64 = (e.entry_hi >> 12) & 1;
        self.cp0_entryhi = e.entry_hi & !ENTRYHI_G;
        self.cp0_entrylo0 = (e.entry_lo0 & !1) | g;
        self.cp0_entrylo1 = (e.entry_lo1 & !1) | g;
        self.cp0_pagemask = e.page_mask;
    }

    fn return_from_exception(&mut self)
        ensures
            *final(self) == old(self).returned(),
    {
        let target: u64 = if self.cp0_status & STATUS_ERL != 0 {
            self.cp0_status = self.cp0_status & !STATUS_ERL;
            self.cp0_errorepc
        } else {
            self.cp0_status = self.cp0_status & !STATUS_EXL;
            self.cp0_epc
        };
        self.nanotlb_invalidate();
        self.jump_now(target);
    }
}

impl<T: Tlb, C: MipsCache, B: BusDevice> Machine<T, C, B> {
    pub open spec fn coprocessor_unusable(self, ce: u32) -> (ExecStatus, Self) {
        self.with_core(self.core.unusable(ce)).raise(exception_status(EXC_CPU))
    }

    /// TLB entry that register value `r` selects.
    pub open spec fn tlb_index(&self, r: u32) -> usize {
        (r as usize) % T::entries(self.tlb)
    }

    /// The coprocessor registers' entry is written to place `r` of the TLB.
    pub open spec fn tlb_write(self, r: u32) -> Self {
        Machine {
            tlb: T::written(self.tlb, self.tlb_index(r), self.core.tlb_entry()),
            core: self.core.without_nanotlb(),
            ..self
        }
    }

    /// Index of the TLB entry that EntryHi matches.
    pub open spec fn tlb_probe(&self) -> u32 {
        let va = self.core.cp0_entryhi & !0xFF;
        T::probed(self.tlb, va, self.asid(), self.core.xtlb_address(va))
    }

    /// An instruction of the TLB group.
    pub open spec fn tlb_instruction(self, funct: u8) -> (ExecStatus, Self) {
        let c = self.core;
        match funct {
            FUNCT_TLBR => self.with_core(
                c.with_tlb_entry(T::entry(self.tlb, self.tlb_index(c.cp0_index))),
            ).done(),
            FUNCT_TLBWI => self.tlb_write(c.cp0_index).done(),
            FUNCT_TLBWR => self.with_core(
                MipsCore { cp0_random: c.next_random(), ..c },
            ).tlb_write(c.next_random()).done(),
            FUNCT_TLBP => self.with_core(MipsCore { cp0_index: self.tlb_probe(), ..c }).done(),
            FUNCT_ERET => (
                EXEC_COMPLETE,
                Machine {
                    cache: C::with_llbit(self.cache, false),
                    core: c.returned(),
                    ..self
                },
            ),
            FUNCT_WAIT => self.done(),
            _ => self.trap(EXC_RI),
        }
    }

    /// An instruction of coprocessor 0.
    pub open spec fn cop0(self, d: DecodedInstr) -> (ExecStatus, Self) {
        let c = self.core;
        let v = c.gpr_at(d.rt);
        match d.rs {
            RS_MFC0 => self.with_core(
                c.with_gpr(d.rt, c.cp0(d.rd) as u32 as i32 as i64 as u64),
            ).done(),
            RS_DMFC0 => self.with_core(c.with_gpr(d.rt, c.cp0(d.rd))).done(),
            RS_MTC0 => self.with_core(c.with_cp0(d.rd, v as u32 as i32 as i64 as u64)).done(),
            RS_DMTC0 => self.with_core(c.with_cp0(d.rd, v)).done(),
            RS_TLB => self.tlb_instruction(d.funct),
            _ => self.trap(EXC_RI),
        }
    }

    /// Coprocessor 0 may be used: in kernel mode, or where Status allows it.
    pub open spec fn cop0_usable(&self) -> bool {
        self.core.privilege() == PrivilegeMode::Kernel || self.core.cp0_status & STATUS_CU0 != 0
    }

    /// The `cache` instruction. The operations that act on a hit look their address up.
    pub open spec fn cache_instruction(self, d: DecodedInstr) -> (ExecStatus, Self) {
        let va = self.core.effective(d);
        let op = d.rt as u32;
        if !self.cop0_usable() {
            self.coprocessor_unusable(0)
        } else if op & 0x1C >= C_CDX {
            let (tr, m) = self.nano_translate(AccessType::Read, va);
            if tr.spec_is_exception() {
                m.raise(tr.status)
            } else {
                m.cache_operation(op, va, tr.phys as u64).done()
            }
        } else if op & 0x1C == C_IST {
            self.cache_operation(op, va, self.core.cp0_taglo as u64).done()
        } else {
            self.cache_operation(op, va, va).done()
        }
    }

    /// The cache does `op`; a tag that it loads goes to TagLo.
    pub open spec fn cache_operation(self, op: u32, va: u64, phys: u64) -> Self {
        let (r, cache) = C::op_result(self.cache, op, va, phys);
        Machine {
            cache,
            core: if op & 0x1C == C_ILT {
                MipsCore { cp0_taglo: r, cp0_taghi: 0, ..self.core }
            } else {
                self.core
            },
            ..self
        }
    }

    /// A system instruction; nothing where `d` is none.
    pub open spec fn system(self, d: DecodedInstr) -> Option<(ExecStatus, Self)> {
        match d.handler {
            InstrHandler::Cop0 => Some(self.cop0(d)),
            InstrHandler::Cache => Some(self.cache_instruction(d)),
            _ => None,
        }
    }
}

impl<T: Tlb, C: MipsCache, B: BusDevice> MipsExecutor<T, C, B> {
    /// Raises the exception for a coprocessor that may not be used.
    pub(crate) fn cpu_unusable(&mut self, ce: u32) -> (s: ExecStatus)
        requires
            old(self).wf(),
        ensures
            final(self).wf(),
            (s, final(self)@) == old(self)@.coprocessor_unusable(ce),
    {
        self.core.cp0_cause = (self.core.cp0_cause & !CAUSE_CE_MASK) | ((ce & 3) << CAUSE_CE_SHIFT);
        self.handle_exception(exec_exception(EXC_CPU))
    }

    fn index_of(&self, r: u32) -> (i: usize)
        requires
            self.wf(),
        ensures
            i == self@.tlb_index(r),
            i < T::entries(self.tlb.state()),
    {
        let n: usize = self.tlb.num_entries();
        (r as usize) % n
    }

    /// Reads the TLB entry that Index selects.
    fn exec_tlbr(&mut self)
        requires
            old(self).wf(),
        ensures
            final(self).wf(),
            final(self)@ == old(self)@.with_core(
                old(self)@.core.with_tlb_entry(
                    T::entry(old(self)@.tlb, old(self)@.tlb_index(old(self)@.core.cp0_index)),
                ),
            ),
    {
        let i: usize = self.index_of(self.core.cp0_index);
        let e: TlbEntry = self.tlb.read(i);
        self.core.load_tlb_entry(e);
    }

    fn exec_tlb_write(&mut self, r: u32)
        requires
            old(self).wf(),
        ensures
            final(self).wf(),
            final(self)@ == old(self)@.tlb_write(r),
    {
        let i: usize = self.index_of(r);
        let e: TlbEntry = self.core.tlb_entry_of();
        self.tlb.write(i, e);
        self.core.nanotlb_invalidate();
    }

    /// Looks for the TLB entry that EntryHi matches.
    fn exec_tlbp(&mut self)
        requires
            old(self).wf(),
        ensures
            final(self).wf(),
            final(self)@ == old(self)@.with_core(
                MipsCore { cp0_index: old(self)@.tlb_probe(), ..old(self)@.core },
            ),
    {
        let va: u64 = self.core.cp0_entryhi & !0xFF;
        let asid: u8 = (self.core.cp0_entryhi & 0xFF) as u8;
        let xtlb: bool = self.core.is_xtlb_address(va);
        self.core.cp0_index = self.tlb.probe(va, asid, xtlb);
    }

    fn exec_eret(&mut self) -> (s: ExecStatus)
        requires
            old(self).wf(),
        ensures
            final(self).wf(),
            (s, final(self)@) == old(self)@.tlb_instruction(FUNCT_ERET),
    {
        self.core.return_from_exception();
        self.cache.set_llbit(false);
        EXEC_COMPLETE
    }

    fn exec_tlb(&mut self, funct: u8) -> (s: ExecStatus)
        requires
            old(self).wf(),
        ensures
            final(self).wf(),
            (s, final(self)@) == old(self)@.tlb_instruction(funct),
    {
        match funct {
            FUNCT_TLBR => {
                self.exec_tlbr();
                self.handle_exec_complete()
            },
            FUNCT_TLBWI => {
                self.exec_tlb_write(self.core.cp0_index);
                self.handle_exec_complete()
            },
            FUNCT_TLBWR => {
                self.core.update_random();
                self.exec_tlb_write(self.core.cp0_random);
                self.handle_exec_complete()
            },
            FUNCT_TLBP => {
                self.exec_tlbp();
                self.handle_exec_complete()
            },
            FUNCT_ERET => self.exec_eret(),
            FUNCT_WAIT => self.handle_exec_complete(),
            _ => self.exec_trap(EXC_RI),
        }
    }

    fn exec_cop0(&mut self, d: &DecodedInstr) -> (s: ExecStatus)
        requires
            old(self).wf(),
            fields_bounded(*d),
        ensures
            final(self).wf(),
            (s, final(self)@) == old(self)@.cop0(*d),
    {
        match d.rs {
            RS_MFC0 => {
                let v: u64 = self.core.read_cp0(d.rd);
                self.core.write_gpr(d.rt, v as u32 as i32 as i64 as u64);
                self.handle_exec_complete()
            },
            RS_DMFC0 => {
                let v: u64 = self.core.read_cp0(d.rd);
                self.core.write_gpr(d.rt, v);
                self.handle_exec_complete()
            },
            RS_MTC0 => {
                let v: u64 = self.core.read_gpr(d.rt);
                self.core.write_cp0(d.rd, v as u32 as i32 as i64 as u64);
                self.handle_exec_complete()
            },
            RS_DMTC0 => {
                let v: u64 = self.core.read_gpr(d.rt);
                self.core.write_cp0(d.rd, v);
                self.handle_exec_complete()
            },
            RS_TLB => self.exec_tlb(d.funct),
            _ => self.exec_trap(EXC_RI),
        }
    }

    fn exec_cache_operation(&mut self, op: u32, va: u64, phys: u64)
        requires
            old(self).wf(),
        ensures
            final(self).wf(),
            final(self)@ == old(self)@.cache_operation(op, va, phys),
    {
        let r: u32 = self.cache.cache_op(op, va, phys);
        if op & 0x1C == C_ILT {
            self.core.cp0_taglo = r;
            self.core.cp0_taghi = 0;
        }
    }

    fn exec_cache(&mut self, d: &DecodedInstr) -> (s: ExecStatus)
        requires
            old(self).wf(),
            fields_bounded(*d),
        ensures
            final(self).wf(),
            (s, final(self)@) == old(self)@.cache_instruction(*d),
    {
        let usable: bool = self.core.get_privilege_mode() == PrivilegeMode::Kernel
            || self.core.cp0_status & STATUS_CU0 != 0;
        if !usable {
            return self.cpu_unusable(0);
        }
        let va: u64 = self.core.read_gpr(d.rs).wrapping_add(d.immu64());
        let op: u32 = d.rt as u32;
        let phys: u64 = if op & 0x1C >= C_CDX {
            let tr: TranslateResult = self.nanotlb_translate(AccessType::Read, va);
            if tr.is_exception() {
                return self.handle_exception(tr.status);
            }
            tr.phys as u64
        } else if op & 0x1C == C_IST {
            self.core.cp0_taglo as u64
        } else {
            va
        };
        self.exec_cache_operation(op, va, phys);
        self.handle_exec_complete()
    }

    /// Executes a system instruction, if `d` is one.
    pub(crate) fn exec_system(&mut self, d: &DecodedInstr) -> (s: Option<ExecStatus>)
        requires
            old(self).wf(),
            fields_bounded(*d),
        ensures
            final(self).wf(),
            old(self)@.agrees(old(self)@.system(*d), s, final(self)@),
    {
        match d.handler {
            InstrHandler::Cop0 => Some(self.exec_cop0(d)),
            InstrHandler::Cache => Some(self.exec_cache(d)),
            _ => None,
        }
    }
}

} // verus!
