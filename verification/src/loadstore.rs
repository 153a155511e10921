//! Loads and stores: aligned, unaligned, linked, and those fused with the computation of
//! their address.
use vstd::prelude::*;

use crate::alu::word;
use crate::bus::{BusDevice, MipsCache, Tlb};
use crate::cpu_core::{AccessType, MipsCore};
use crate::instr::{
    decode_into, decoded, fields_bounded, law_decoded_fields, DecodedInstr, InstrHandler,
    FLAG_NOT_DECODED,
};
use crate::machine::{Machine, MipsExecutor};
use crate::status::{ExecStatus, TranslateResult, EXC_RI, EXEC_COMPLETE};

verus! {

/// Bytes that an aligned load reads; nothing where `h` is none.
pub open spec fn load_size(h: InstrHandler) -> Option<usize> {
    match h {
        InstrHandler::Lb | InstrHandler::Lbu => Some(1),
        InstrHandler::Lh | InstrHandler::Lhu => Some(2),
        InstrHandler::Lw | InstrHandler::Lwu => Some(4),
        InstrHandler::Ld => Some(8),
        _ => None,
    }
}

/// What a load leaves in its register when memory gives `v`: sign-extended or as it is.
pub open spec fn loaded(h: InstrHandler, v: u64) -> u64 {
    match h {
        InstrHandler::Lb => v as i8 as i64 as u64,
        InstrHandler::Lh => v as i16 as i64 as u64,
        InstrHandler::Lw => v as i32 as i64 as u64,
        _ => v,
    }
}

/// Bytes that an aligned store writes; nothing where `h` is none.
pub open spec fn store_size(h: InstrHandler) -> Option<usize> {
    match h {
        InstrHandler::Sb => Some(1),
        InstrHandler::Sh => Some(2),
        InstrHandler::Sw => Some(4),
        InstrHandler::Sd => Some(8),
        _ => None,
    }
}

/// Bytes of the aligned unit that an unaligned load reads; nothing where `h` is none.
pub open spec fn part_load_size(h: InstrHandler) -> Option<usize> {
    match h {
        InstrHandler::Lwl | InstrHandler::Lwr => Some(4),
        InstrHandler::Ldl | InstrHandler::Ldr => Some(8),
        _ => None,
    }
}

/// Word `mem` from its byte `off` on, moved to the left end of `reg`.
pub open spec fn merged_lwl(reg: u32, mem: u32, off: u32) -> u32 {
    (mem << (off * 8) as u32) | (reg & !(0xFFFF_FFFFu32 << (off * 8) as u32))
}

/// Word `mem` up to its byte `off`, moved to the right end of `reg`.
pub open spec fn merged_lwr(reg: u32, mem: u32, off: u32) -> u32 {
    (mem >> ((3 - off) * 8) as u32) | (reg & !(0xFFFF_FFFFu32 >> ((3 - off) * 8) as u32))
}

pub open spec fn merged_ldl(reg: u64, mem: u64, off: u64) -> u64 {
    (mem << (off * 8) as u64) | (reg & !(0xFFFF_FFFF_FFFF_FFFFu64 << (off * 8) as u64))
}

pub open spec fn merged_ldr(reg: u64, mem: u64, off: u64) -> u64 {
    (mem >> ((7 - off) * 8) as u64) | (reg & !(0xFFFF_FFFF_FFFF_FFFFu64 >> ((7 - off) * 8) as u64))
}

/// What an unaligned load at `va` leaves in its register.
pub open spec fn merged(h: InstrHandler, reg: u64, mem: u64, va: u64) -> u64 {
    match h {
        InstrHandler::Lwl => word(merged_lwl(reg as u32, mem as u32, (va & 3) as u32)),
        InstrHandler::Lwr => word(merged_lwr(reg as u32, mem as u32, (va & 3) as u32)),
        InstrHandler::Ldl => merged_ldl(reg, mem, va & 7),
        _ => merged_ldr(reg, mem, va & 7),
    }
}

/// Distance of the word at `va` from the right end of its doubleword, in bits.
pub open spec fn word_shift(va: u64) -> u64 {
    if va & 4 == 0 {
        32
    } else {
        0
    }
}

/// Value and mask that an unaligned store at `va` writes to the doubleword there;
/// nothing where `h` is none.
pub open spec fn part_store(h: InstrHandler, reg: u64, va: u64) -> Option<(u64, u64)> {
    let w = (va & 3) as u32;
    let b = va & 7;
    match h {
        InstrHandler::Swl => Some(
            (
                (((reg as u32) >> (w * 8) as u32) as u64) << word_shift(va),
                ((0xFFFF_FFFFu32 >> (w * 8) as u32) as u64) << word_shift(va),
            ),
        ),
        InstrHandler::Swr => Some(
            (
                (((reg as u32) << ((3 - w) * 8) as u32) as u64) << word_shift(va),
                ((0xFFFF_FFFFu32 << ((3 - w) * 8) as u32) as u64) << word_shift(va),
            ),
        ),
        InstrHandler::Sdl => Some(
            (reg >> (b * 8) as u64, 0xFFFF_FFFF_FFFF_FFFFu64 >> (b * 8) as u64),
        ),
        InstrHandler::Sdr => Some(
            (reg << ((7 - b) * 8) as u64, 0xFFFF_FFFF_FFFF_FFFFu64 << ((7 - b) * 8) as u64),
        ),
        _ => None,
    }
}

impl MipsCore {
    /// The address of a load or store: base register plus offset.
    pub open spec fn effective(&self, d: DecodedInstr) -> u64 {
        self.gpr_at(d.rs).wrapping_add(d.spec_immu64())
    }

    fn effective_of(&self, d: &DecodedInstr) -> (va: u64)
        requires
            d.rs < 32,
        ensures
            va == self.effective(*d),
    {
        self.read_gpr(d.rs).wrapping_add(d.immu64())
    }
}

/// The instruction with encoding `raw` by itself.
pub open spec fn alone(raw: u32) -> DecodedInstr {
    decoded(
        DecodedInstr {
            handler: InstrHandler::Reserved,
            imm: 0,
            raw,
            flags: FLAG_NOT_DECODED,
            op: 0,
            rs: 0,
            rt: 0,
            rd: 0,
            sa: 0,
            funct: 0,
        },
    )
}

/// The address that a fused instruction computes, and its register; nothing where `d` is
/// none.
pub open spec fn fused_address(d: DecodedInstr, a: u64, b: u64) -> Option<(u8, u64)> {
    match d.handler {
        InstrHandler::AdduLs => Some((d.rd, word((a as u32).wrapping_add(b as u32)))),
        InstrHandler::SubuLs => Some((d.rd, word((a as u32).wrapping_sub(b as u32)))),
        InstrHandler::AddiuLs => Some(
            (d.rt, word((a as u32).wrapping_add((d.raw & 0xFFFF) as i16 as i32 as u32))),
        ),
        _ => None,
    }
}

impl<T: Tlb, C: MipsCache, B: BusDevice> Machine<T, C, B> {
    /// An aligned load or store. Another instruction is a reserved one.
    pub open spec fn load_store(self, d: DecodedInstr) -> (ExecStatus, Self) {
        let va = self.core.effective(d);
        if let Some(size) = load_size(d.handler) {
            let (r, m) = self.read_data(false, size, va);
            match r {
                Ok(v) => m.with_core(m.core.with_gpr(d.rt, loaded(d.handler, v))).done(),
                Err(s) => m.finish(s),
            }
        } else if let Some(size) = store_size(d.handler) {
            let (s, m) = self.write_data(false, size, va, self.core.gpr_at(d.rt));
            m.finish(s)
        } else {
            self.trap(EXC_RI)
        }
    }

    /// An unaligned load.
    pub open spec fn part_load(self, d: DecodedInstr, size: usize) -> (ExecStatus, Self) {
        let va = self.core.effective(d);
        let unit = if size == 4 {
            va & !3
        } else {
            va & !7
        };
        let (r, m) = self.read_data(false, size, unit);
        match r {
            Ok(v) => m.with_core(
                m.core.with_gpr(d.rt, merged(d.handler, m.core.gpr_at(d.rt), v, va)),
            ).done(),
            Err(s) => m.finish(s),
        }
    }

    /// A load that links its address, of `size` bytes.
    pub open spec fn load_linked(self, d: DecodedInstr, size: usize) -> (ExecStatus, Self) {
        let va = self.core.effective(d);
        let (r, m) = self.read_data(false, size, va);
        match r {
            Ok(v) => {
                let v = if size == 4 {
                    v as i32 as i64 as u64
                } else {
                    v
                };
                let m = m.with_core(m.core.with_gpr(d.rt, v));
                let (tr, m) = m.nano_translate(AccessType::Read, va);
                if tr.spec_is_exception() {
                    m.done()
                } else {
                    m.link(tr.phys >> 4).done()
                }
            },
            Err(s) => m.finish(s),
        }
    }

    /// The link is set to block `block`.
    pub open spec fn link(self, block: u32) -> Self {
        Machine {
            cache: C::with_llbit(C::with_lladdr(self.cache, block), true),
            core: MipsCore { cp0_lladdr: block, ..self.core },
            ..self
        }
    }

    pub open spec fn unlink(self) -> Self {
        Machine { cache: C::with_llbit(self.cache, false), ..self }
    }

    /// A conditional store that stores nothing.
    pub open spec fn store_refused(self, d: DecodedInstr) -> Self {
        self.with_core(self.core.with_gpr(d.rt, 0))
    }

    /// A store whose condition holds. Once done, it is told in the register.
    pub open spec fn store_linked(self, d: DecodedInstr, size: usize, va: u64) -> (
        ExecStatus,
        Self,
    ) {
        let (s, m) = self.write_data(false, size, va, self.core.gpr_at(d.rt));
        if s == EXEC_COMPLETE {
            m.with_core(m.core.with_gpr(d.rt, 1)).unlink().finish(s)
        } else {
            m.finish(s)
        }
    }

    /// A store of `size` bytes on condition that the link is intact and to this address.
    /// The register tells whether it was done.
    pub open spec fn store_conditional(self, d: DecodedInstr, size: usize) -> (ExecStatus, Self) {
        let va = self.core.effective(d);
        if !C::llbit(self.cache) {
            self.store_refused(d).done()
        } else {
            let (tr, m) = self.nano_translate(AccessType::Write, va);
            if tr.spec_is_exception() {
                m.unlink().finish(tr.status)
            } else if (tr.phys as u64) & !0xF == (C::lladdr(m.cache) as u64) << 4 {
                m.store_linked(d, size, va)
            } else {
                m.store_refused(d).unlink().done()
            }
        }
    }

    /// An address computation and the access that uses it. In a delay slot only the
    /// computation is done.
    pub open spec fn fused(self, d: DecodedInstr, r: u8, addr: u64) -> (ExecStatus, Self) {
        let m = self.with_core(self.core.with_gpr(r, addr));
        if self.core.in_delay_slot {
            m.done()
        } else {
            m.with_core(m.core.completed()).load_store(alone(d.imm))
        }
    }

    /// A memory instruction; nothing where `d` is none.
    pub open spec fn memory(self, d: DecodedInstr) -> Option<(ExecStatus, Self)> {
        let a = self.core.gpr_at(d.rs);
        let b = self.core.gpr_at(d.rt);
        if load_size(d.handler) is Some || store_size(d.handler) is Some {
            Some(self.load_store(d))
        } else if let Some(size) = part_load_size(d.handler) {
            Some(self.part_load(d, size))
        } else if let Some((v, mask)) = part_store(d.handler, b, self.core.effective(d)) {
            let (s, m) = self.write_masked(false, self.core.effective(d) & !7, v, mask);
            Some(m.finish(s))
        } else if let Some((r, addr)) = fused_address(d, a, b) {
            Some(self.fused(d, r, addr))
        } else {
            match d.handler {
                InstrHandler::Ll => Some(self.load_linked(d, 4)),
                InstrHandler::Lld => Some(self.load_linked(d, 8)),
                InstrHandler::Sc => Some(self.store_conditional(d, 4)),
                InstrHandler::Scd => Some(self.store_conditional(d, 8)),
                _ => None,
            }
        }
    }
}

proof fn lemma_offsets(va: u64)
    ensures
        va & 3 <= 3,
        va & 7 <= 7,
{
    crate::bits::lemma_bits_of_double(va);
}

fn load_size_of(h: InstrHandler) -> (r: Option<usize>)
    ensures
        r == load_size(h),
{
    match h {
        InstrHandler::Lb | InstrHandler::Lbu => Some(1),
        InstrHandler::Lh | InstrHandler::Lhu => Some(2),
        InstrHandler::Lw | InstrHandler::Lwu => Some(4),
        InstrHandler::Ld => Some(8),
        _ => None,
    }
}

fn extend(h: InstrHandler, v: u64) -> (r: u64)
    ensures
        r == loaded(h, v),
{
    match h {
        InstrHandler::Lb => v as i8 as i64 as u64,
        InstrHandler::Lh => v as i16 as i64 as u64,
        InstrHandler::Lw => v as i32 as i64 as u64,
        _ => v,
    }
}

fn store_size_of(h: InstrHandler) -> (r: Option<usize>)
    ensures
        r == store_size(h),
{
    match h {
        InstrHandler::Sb => Some(1),
        InstrHandler::Sh => Some(2),
        InstrHandler::Sw => Some(4),
        InstrHandler::Sd => Some(8),
        _ => None,
    }
}

fn part_load_size_of(h: InstrHandler) -> (r: Option<usize>)
    ensures
        r == part_load_size(h),
{
    match h {
        InstrHandler::Lwl | InstrHandler::Lwr => Some(4),
        InstrHandler::Ldl | InstrHandler::Ldr => Some(8),
        _ => None,
    }
}

/// Joins what an unaligned load at `va` read with what its register held.
fn merge(h: InstrHandler, reg: u64, mem: u64, va: u64) -> (r: u64)
    ensures
        r == merged(h, reg, mem, va),
{
    proof {
        lemma_offsets(va);
    }
    let w: u32 = (va & 3) as u32;
    let b: u64 = va & 7;
    match h {
        InstrHandler::Lwl => {
            let r: u32 = ((mem as u32) << (w * 8)) | (reg as u32 & !(0xFFFF_FFFFu32 << (w * 8)));
            r as i32 as i64 as u64
        },
        InstrHandler::Lwr => {
            let k: u32 = (3 - w) * 8;
            let r: u32 = ((mem as u32) >> k) | (reg as u32 & !(0xFFFF_FFFFu32 >> k));
            r as i32 as i64 as u64
        },
        InstrHandler::Ldl => (mem << (b * 8)) | (reg & !(0xFFFF_FFFF_FFFF_FFFFu64 << (b * 8))),
        _ => {
            let k: u64 = (7 - b) * 8;
            (mem >> k) | (reg & !(0xFFFF_FFFF_FFFF_FFFFu64 >> k))
        },
    }
}

/// What an unaligned store at `va` writes to the doubleword there: value and mask.
fn part_store_of(h: InstrHandler, reg: u64, va: u64) -> (r: Option<(u64, u64)>)
    ensures
        r == part_store(h, reg, va),
{
    proof {
        lemma_offsets(va);
    }
    let w: u32 = (va & 3) as u32;
    let b: u64 = va & 7;
    let up: u64 = if va & 4 == 0 {
        32
    } else {
        0
    };
    match h {
        InstrHandler::Swl => {
            let k: u32 = w * 8;
            Some(((((reg as u32) >> k) as u64) << up, ((0xFFFF_FFFFu32 >> k) as u64) << up))
        },
        InstrHandler::Swr => {
            let k: u32 = (3 - w) * 8;
            Some(((((reg as u32) << k) as u64) << up, ((0xFFFF_FFFFu32 << k) as u64) << up))
        },
        InstrHandler::Sdl => Some((reg >> (b * 8), 0xFFFF_FFFF_FFFF_FFFFu64 >> (b * 8))),
        InstrHandler::Sdr => {
            let k: u64 = (7 - b) * 8;
            Some((reg << k, 0xFFFF_FFFF_FFFF_FFFFu64 << k))
        },
        _ => None,
    }
}

fn fused_address_of(d: &DecodedInstr, a: u64, b: u64) -> (r: Option<(u8, u64)>)
    ensures
        r == fused_address(*d, a, b),
{
    match d.handler {
        InstrHandler::AdduLs => Some(
            (d.rd, (a as u32).wrapping_add(b as u32) as i32 as i64 as u64),
        ),
        InstrHandler::SubuLs => Some(
            (d.rd, (a as u32).wrapping_sub(b as u32) as i32 as i64 as u64),
        ),
        InstrHandler::AddiuLs => {
            let imm: u32 = (d.raw & 0xFFFF) as i16 as i32 as u32;
            Some((d.rt, (a as u32).wrapping_add(imm) as i32 as i64 as u64))
        },
        _ => None,
    }
}

impl<T: Tlb, C: MipsCache, B: BusDevice> MipsExecutor<T, C, B> {
    /// Executes an aligned load or store.
    pub(crate) fn exec_load_store(&mut self, d: &DecodedInstr) -> (s: ExecStatus)
        requires
            old(self).wf(),
            fields_bounded(*d),
        ensures
            final(self).wf(),
            (s, final(self)@) == old(self)@.load_store(*d),
    {
        let va: u64 = self.core.effective_of(d);
        if let Some(size) = load_size_of(d.handler) {
            return match self.read_data(size, va) {
                Ok(v) => {
                    self.core.write_gpr(d.rt, extend(d.handler, v));
                    self.handle_exec_complete()
                },
                Err(s) => self.finish_status(s),
            };
        }
        if let Some(size) = store_size_of(d.handler) {
            let v: u64 = self.core.read_gpr(d.rt);
            let s: ExecStatus = self.write_data(size, va, v);
            return self.finish_status(s);
        }
        self.exec_trap(EXC_RI)
    }

    fn exec_part_load(&mut self, d: &DecodedInstr, size: usize) -> (s: ExecStatus)
        requires
            old(self).wf(),
            fields_bounded(*d),
            size == 4 || size == 8,
        ensures
            final(self).wf(),
            (s, final(self)@) == old(self)@.part_load(*d, size),
    {
        let va: u64 = self.core.effective_of(d);
        let unit: u64 = if size == 4 {
            va & !3
        } else {
            va & !7
        };
        match self.read_data(size, unit) {
            Ok(v) => {
                let reg: u64 = self.core.read_gpr(d.rt);
                self.core.write_gpr(d.rt, merge(d.handler, reg, v, va));
                self.handle_exec_complete()
            },
            Err(s) => self.finish_status(s),
        }
    }

    fn set_link(&mut self, block: u32)
        requires
            old(self).wf(),
        ensures
            final(self).wf(),
            final(self)@ == old(self)@.link(block),
    {
        self.cache.set_lladdr(block);
        self.core.cp0_lladdr = block;
        self.cache.set_llbit(true);
    }

    fn exec_load_linked(&mut self, d: &DecodedInstr, size: usize) -> (s: ExecStatus)
        requires
            old(self).wf(),
            fields_bounded(*d),
            size == 4 || size == 8,
        ensures
            final(self).wf(),
            (s, final(self)@) == old(self)@.load_linked(*d, size),
    {
        let va: u64 = self.core.effective_of(d);
        match self.read_data(size, va) {
            Ok(v) => {
                let v: u64 = if size == 4 {
                    v as i32 as i64 as u64
                } else {
                    v
                };
                self.core.write_gpr(d.rt, v);
                let tr: TranslateResult = self.nanotlb_translate(AccessType::Read, va);
                if !tr.is_exception() {
                    self.set_link(tr.phys >> 4);
                }
                self.handle_exec_complete()
            },
            Err(s) => self.finish_status(s),
        }
    }

    fn exec_store_linked(&mut self, d: &DecodedInstr, size: usize, va: u64) -> (s: ExecStatus)
        requires
            old(self).wf(),
            fields_bounded(*d),
            size == 4 || size == 8,
        ensures
            final(self).wf(),
            (s, final(self)@) == old(self)@.store_linked(*d, size, va),
    {
        let v: u64 = self.core.read_gpr(d.rt);
        let s: ExecStatus = self.write_data(size, va, v);
        if s == EXEC_COMPLETE {
            self.core.write_gpr(d.rt, 1);
            self.cache.set_llbit(false);
        }
        self.finish_status(s)
    }

    fn exec_store_conditional(&mut self, d: &DecodedInstr, size: usize) -> (s: ExecStatus)
        requires
            old(self).wf(),
            fields_bounded(*d),
            size == 4 || size == 8,
        ensures
            final(self).wf(),
            (s, final(self)@) == old(self)@.store_conditional(*d, size),
    {
        let va: u64 = self.core.effective_of(d);
        if !self.cache.get_llbit() {
            self.core.write_gpr(d.rt, 0);
            return self.handle_exec_complete();
        }
        let tr: TranslateResult = self.nanotlb_translate(AccessType::Write, va);
        if tr.is_exception() {
            self.cache.set_llbit(false);
            return self.finish_status(tr.status);
        }
        if (tr.phys as u64) & !0xF == (self.cache.get_lladdr() as u64) << 4 {
            self.exec_store_linked(d, size, va)
        } else {
            self.core.write_gpr(d.rt, 0);
            self.cache.set_llbit(false);
            self.handle_exec_complete()
        }
    }

    fn exec_fused(&mut self, d: &DecodedInstr, r: u8, addr: u64) -> (s: ExecStatus)
        requires
            old(self).wf(),
            fields_bounded(*d),
            r < 32,
        ensures
            final(self).wf(),
            (s, final(self)@) == old(self)@.fused(*d, r, addr),
    {
        self.core.write_gpr(r, addr);
        if self.core.in_delay_slot {
            return self.handle_exec_complete();
        }
        self.core.complete();
        let mut access: DecodedInstr = DecodedInstr::default();
        access.raw = d.imm;
        proof {
            law_decoded_fields(access);
        }
        decode_into(&mut access);
        self.exec_load_store(&access)
    }

    /// Executes a memory instruction, if `d` is one.
    pub(crate) fn exec_memory(&mut self, d: &DecodedInstr) -> (s: Option<ExecStatus>)
        requires
            old(self).wf(),
            fields_bounded(*d),
        ensures
            final(self).wf(),
            old(self)@.agrees(old(self)@.memory(*d), s, final(self)@),
    {
        if load_size_of(d.handler).is_some() || store_size_of(d.handler).is_some() {
            return Some(self.exec_load_store(d));
        }
        if let Some(size) = part_load_size_of(d.handler) {
            return Some(self.exec_part_load(d, size));
        }
        let a: u64 = self.core.read_gpr(d.rs);
        let b: u64 = self.core.read_gpr(d.rt);
        let va: u64 = self.core.effective_of(d);
        if let Some((v, mask)) = part_store_of(d.handler, b, va) {
            let s: ExecStatus = self.write_data64_masked(va & !7, v, mask);
            return Some(self.finish_status(s));
        }
        if let Some((r, addr)) = fused_address_of(d, a, b) {
            return Some(self.exec_fused(d, r, addr));
        }
        match d.handler {
            InstrHandler::Ll => Some(self.exec_load_linked(d, 4)),
            InstrHandler::Lld => Some(self.exec_load_linked(d, 8)),
            InstrHandler::Sc => Some(self.exec_store_conditional(d, 4)),
            InstrHandler::Scd => Some(self.exec_store_conditional(d, 8)),
            _ => None,
        }
    }
}

} // verus!
