//! What execution leaves alone: the debugger's settings and the zero register.
use vstd::prelude::*;

use crate::breakpoints::BpType;
use crate::bus::{BusDevice, MipsCache, Tlb, BUS_OK};
use crate::cpu_core::{AccessType, MipsCore};
use crate::fpu::FloatReply;
use crate::exec::ready;
use crate::instr::{fields_bounded, law_decoded_fields, DecodedInstr};
use crate::loadstore::{
    alone, fused_address, load_size, loaded, merged, part_load_size, part_store, store_size,
};
use crate::machine::Machine;
use crate::status::{ExecStatus, EXC_RI, EXEC_COMPLETE};

verus! {

impl<T: Tlb, C: MipsCache, B: BusDevice> Machine<T, C, B> {
    /// `m` differs from this machine in nothing that is the debugger's to set:
    /// breakpoints, symbols, the undo history and the switches of its tools. The zero
    /// register is still zero if it was.
    pub open spec fn keeps(self, m: Self) -> bool {
        &&& m.bps == self.bps
        &&& m.tools.undo == self.tools.undo
        &&& m.tools.symbols == self.tools.symbols
        &&& m.tools.idle_on == self.tools.idle_on
        &&& m.tools.replay == self.tools.replay
        &&& m.tools.recording == self.tools.recording
        &&& m.tools.lockstep_on == self.tools.lockstep_on
        &&& m.tools.last_step_status == self.tools.last_step_status
        &&& m.tools.recording_trace is Some == self.tools.recording_trace is Some
        &&& self.core.wf() ==> m.core.wf()
    }
}

/// `keeps`, as a relation by itself.
#[verifier::opaque]
spec fn kept<T: Tlb, C: MipsCache, B: BusDevice>(m: Machine<T, C, B>, n: Machine<T, C, B>) -> bool {
    m.keeps(n)
}

proof fn lemma_then<T: Tlb, C: MipsCache, B: BusDevice>(
    a: Machine<T, C, B>,
    b: Machine<T, C, B>,
    c: Machine<T, C, B>,
)
    requires
        kept(a, b),
        kept(b, c),
    ensures
        kept(a, c),
{
    reveal(kept);
}

proof fn lemma_break<T: Tlb, C: MipsCache, B: BusDevice>(
    m: Machine<T, C, B>,
    debug: bool,
    kind: BpType,
    addr: u64,
)
    ensures
        kept(m, m.break_at(kind, addr).1),
        kept(m, m.break_unless(debug, kind, addr).1),
{
    reveal(kept);
}

proof fn lemma_nano<T: Tlb, C: MipsCache, B: BusDevice>(
    m: Machine<T, C, B>,
    debug: bool,
    at: AccessType,
    va: u64,
)
    ensures
        kept(m, m.translate(debug, va, at).1),
        kept(m, m.nano_translate(at, va).1),
{
    reveal(kept);
    reveal(Machine::translate);
    reveal(Machine::nano_translate);
}

proof fn lemma_access<T: Tlb, C: MipsCache, B: BusDevice>(
    m: Machine<T, C, B>,
    debug: bool,
    at: AccessType,
    va: u64,
)
    ensures
        kept(m, m.nano_translate(at, va).1),
        kept(m, m.access_translate(debug, at, va).1),
{
    lemma_nano(m, true, AccessType::Fetch, va);
    lemma_nano(m, true, AccessType::Debug, va);
    lemma_nano(m, false, at, va);
}

/// The ends of an access.
proof fn lemma_places<T: Tlb, C: MipsCache, B: BusDevice>(
    m: Machine<T, C, B>,
    debug: bool,
    size: usize,
    va: u64,
    phys: u32,
)
    ensures
        kept(m, m.note_bad(debug, va)),
        kept(m, m.read_cached(debug, size, va, phys as u64).1),
        kept(m, m.read_uncached(debug, size, va, phys).1),
        kept(m, m.fetch_cached(debug, va, phys as u64).1),
        kept(m, m.fetch_uncached(debug, phys).1),
{
    reveal(kept);
}

proof fn lemma_noted<T: Tlb, C: MipsCache, B: BusDevice>(
    m: Machine<T, C, B>,
    debug: bool,
    cached: bool,
    size: usize,
    va: u64,
    phys: u32,
    v: Option<u64>,
)
    ensures
        kept(m, m.captured(va, phys as u64, v)),
        kept(m, m.track_write(debug, cached, size, va, phys)),
{
    reveal(kept);
}

proof fn lemma_written<T: Tlb, C: MipsCache, B: BusDevice>(
    m: Machine<T, C, B>,
    debug: bool,
    va: u64,
    s: ExecStatus,
    cache: C::St,
    sysad: B::St,
)
    ensures
        kept(m, m.after_cached_write(debug, va, s, cache).1),
        kept(m, Machine { sysad, ..m }),
{
    reveal(kept);
}

proof fn lemma_fetch<T: Tlb, C: MipsCache, B: BusDevice>(
    m: Machine<T, C, B>,
    debug: bool,
    va: u64,
)
    ensures
        kept(m, m.fetch(debug, va).1),
        ({
            let f = m.fetch(debug, va).0;
            f.status == EXEC_COMPLETE && f.instr.flags == 0 ==> fields_bounded(f.instr)
        }),
{
    reveal(Machine::fetch);
    let m1 = m.break_unless(debug, BpType::VirtFetch, va).1;
    lemma_break(m, debug, BpType::VirtFetch, va);
    let (tr, m2) = m1.access_translate(debug, AccessType::Fetch, va);
    lemma_access(m1, debug, AccessType::Fetch, va);
    lemma_then(m, m1, m2);
    let m3 = m2.break_unless(debug, BpType::PhysFetch, tr.phys as u64).1;
    lemma_break(m2, debug, BpType::PhysFetch, tr.phys as u64);
    lemma_then(m, m2, m3);
    lemma_places(m3, debug, 4, va, tr.phys);
    lemma_then(m, m3, m3.fetch_cached(debug, va, tr.phys as u64).1);
    lemma_then(m, m3, m3.fetch_uncached(debug, tr.phys).1);
    C::decoded_fields(m3.cache, va, tr.phys as u64);
}

proof fn lemma_read<T: Tlb, C: MipsCache, B: BusDevice>(
    m: Machine<T, C, B>,
    debug: bool,
    size: usize,
    va: u64,
)
    ensures
        kept(m, m.read_data(debug, size, va).1),
{
    reveal(Machine::read_data);
    let m1 = m.break_unless(debug, BpType::VirtRead, va).1;
    lemma_break(m, debug, BpType::VirtRead, va);
    let (tr, m2) = m1.access_translate(debug, AccessType::Read, va);
    lemma_places(m1, debug, size, va, tr.phys);
    lemma_then(m, m1, m1.note_bad(debug, va));
    lemma_access(m1, debug, AccessType::Read, va);
    lemma_then(m, m1, m2);
    let m3 = m2.break_unless(debug, BpType::PhysRead, tr.phys as u64).1;
    lemma_break(m2, debug, BpType::PhysRead, tr.phys as u64);
    lemma_then(m, m2, m3);
    lemma_places(m3, debug, size, va, tr.phys);
    let (r, m4) = if tr.spec_is_cached() {
        m3.read_cached(debug, size, va, tr.phys as u64)
    } else {
        m3.read_uncached(debug, size, va, tr.phys)
    };
    lemma_then(m, m3, m4);
    let v = match r {
        Ok(v) => Some(v),
        Err(_) => None,
    };
    lemma_noted(m4, debug, false, size, va, tr.phys, v);
    lemma_then(m, m4, m4.captured(va, tr.phys as u64, v));
}

proof fn lemma_write<T: Tlb, C: MipsCache, B: BusDevice>(
    m: Machine<T, C, B>,
    debug: bool,
    size: usize,
    va: u64,
    val: u64,
)
    ensures
        kept(m, m.write_data(debug, size, va, val).1),
{
    reveal(Machine::write_data);
    let m1 = m.break_unless(debug, BpType::VirtWrite, va).1;
    lemma_break(m, debug, BpType::VirtWrite, va);
    let (tr, m2) = m1.access_translate(debug, AccessType::Write, va);
    lemma_places(m1, debug, size, va, tr.phys);
    lemma_then(m, m1, m1.note_bad(debug, va));
    lemma_access(m1, debug, AccessType::Write, va);
    lemma_then(m, m1, m2);
    let cached = tr.spec_is_cached();
    let m3 = m2.track_write(debug, cached, size, va, tr.phys);
    lemma_noted(m2, debug, cached, size, va, tr.phys, None);
    lemma_then(m, m2, m3);
    let m4 = m3.break_unless(debug, BpType::PhysWrite, tr.phys as u64).1;
    lemma_break(m3, debug, BpType::PhysWrite, tr.phys as u64);
    lemma_then(m, m3, m4);
    let (s, cache) = C::write_result(m4.cache, size, va, tr.phys as u64, val);
    let (t, sysad) = B::write_result(
        m4.sysad,
        size,
        tr.phys,
        crate::machine::truncated(val, size),
    );
    lemma_written(m4, debug, va, s, cache, sysad);
    let (u, m5) = if cached {
        m4.after_cached_write(debug, va, s, cache)
    } else {
        (t, Machine { sysad, ..m4 })
    };
    lemma_then(m, m4, m5);
    let v = if u == BUS_OK {
        Some(val)
    } else {
        None
    };
    lemma_noted(m5, debug, cached, size, va, tr.phys, v);
    lemma_then(m, m5, m5.captured(va, tr.phys as u64, v));
}

proof fn lemma_masked<T: Tlb, C: MipsCache, B: BusDevice>(
    m: Machine<T, C, B>,
    debug: bool,
    va: u64,
    val: u64,
    mask: u64,
)
    ensures
        kept(m, m.write_masked(debug, va, val, mask).1),
{
    reveal(Machine::write_masked);
    let m1 = m.break_unless(debug, BpType::VirtWrite, va).1;
    lemma_break(m, debug, BpType::VirtWrite, va);
    let (tr, m2) = m1.access_translate(debug, AccessType::Write, va);
    lemma_access(m1, debug, AccessType::Write, va);
    lemma_then(m, m1, m2);
    let cached = tr.spec_is_cached();
    let m3 = m2.track_write(debug, cached, 8, va, tr.phys);
    lemma_noted(m2, debug, cached, 8, va, tr.phys, None);
    lemma_then(m, m2, m3);
    let m4 = m3.break_unless(debug, BpType::PhysWrite, tr.phys as u64).1;
    lemma_break(m3, debug, BpType::PhysWrite, tr.phys as u64);
    lemma_then(m, m3, m4);
    let (s, cache) = C::masked_result(m4.cache, va, tr.phys as u64, val, mask);
    let sysad = B::masked_result(m4.sysad, tr.phys, val, mask).1;
    lemma_written(m4, debug, va, s, cache, sysad);
    lemma_then(m, m4, m4.after_cached_write(debug, va, s, cache).1);
    lemma_then(m, m4, Machine { sysad, ..m4 });
}

proof fn lemma_ends<T: Tlb, C: MipsCache, B: BusDevice>(m: Machine<T, C, B>, status: ExecStatus)
    ensures
        kept(m, m.done().1),
        kept(m, m.raise(status).1),
        kept(m, m.finish(status).1),
{
    reveal(kept);
}

/// A register is set, and nothing else.
proof fn lemma_register<T: Tlb, C: MipsCache, B: BusDevice>(m: Machine<T, C, B>, r: u8, v: u64)
    requires
        r < 32,
    ensures
        kept(m, m.with_core(m.core.with_gpr(r, v))),
        kept(m, m.with_core(m.core.with_gpr(r, v)).done().1),
        kept(m, m.with_core(m.core.with_gpr(r, v).completed())),
{
    reveal(kept);
}

proof fn lemma_integer<T: Tlb, C: MipsCache, B: BusDevice>(m: Machine<T, C, B>, d: DecodedInstr)
    requires
        fields_bounded(d),
    ensures
        m.integer(d) matches Some(r) ==> kept(m, r.1),
{
    reveal(kept);
}

proof fn lemma_load_store<T: Tlb, C: MipsCache, B: BusDevice>(m: Machine<T, C, B>, d: DecodedInstr)
    requires
        fields_bounded(d),
    ensures
        kept(m, m.load_store(d).1),
{
    let va = m.core.effective(d);
    if let Some(size) = load_size(d.handler) {
        lemma_read(m, false, size, va);
        let (r, n) = m.read_data(false, size, va);
        match r {
            Ok(v) => {
                let w = loaded(d.handler, v);
                lemma_register(n, d.rt, w);
                lemma_then(m, n, n.with_core(n.core.with_gpr(d.rt, w)).done().1);
            },
            Err(s) => {
                lemma_ends(n, s);
                lemma_then(m, n, n.finish(s).1);
            },
        }
    } else if let Some(size) = store_size(d.handler) {
        let v = m.core.gpr_at(d.rt);
        lemma_write(m, false, size, va, v);
        let (s, n) = m.write_data(false, size, va, v);
        lemma_ends(n, s);
        lemma_then(m, n, n.finish(s).1);
    } else {
        lemma_trap(m);
    }
}

proof fn lemma_trap<T: Tlb, C: MipsCache, B: BusDevice>(m: Machine<T, C, B>)
    ensures
        kept(m, m.trap(EXC_RI).1),
{
    reveal(kept);
}

proof fn lemma_part_load<T: Tlb, C: MipsCache, B: BusDevice>(
    m: Machine<T, C, B>,
    d: DecodedInstr,
    size: usize,
)
    requires
        fields_bounded(d),
    ensures
        kept(m, m.part_load(d, size).1),
{
    let va = m.core.effective(d);
    let unit = if size == 4 {
        va & !3
    } else {
        va & !7
    };
    lemma_read(m, false, size, unit);
    let (r, n) = m.read_data(false, size, unit);
    match r {
        Ok(v) => {
            let w = merged(d.handler, n.core.gpr_at(d.rt), v, va);
            lemma_register(n, d.rt, w);
            lemma_then(m, n, n.with_core(n.core.with_gpr(d.rt, w)).done().1);
        },
        Err(s) => {
            lemma_ends(n, s);
            lemma_then(m, n, n.finish(s).1);
        },
    }
}

proof fn lemma_link<T: Tlb, C: MipsCache, B: BusDevice>(
    m: Machine<T, C, B>,
    d: DecodedInstr,
    block: u32,
    status: ExecStatus,
)
    requires
        fields_bounded(d),
    ensures
        kept(m, m.link(block).done().1),
        kept(m, m.unlink().finish(status).1),
        kept(m, m.store_refused(d).done().1),
        kept(m, m.store_refused(d).unlink().done().1),
        kept(m, m.with_core(m.core.with_gpr(d.rt, 1)).unlink().finish(status).1),
{
    reveal(kept);
}

proof fn lemma_load_linked<T: Tlb, C: MipsCache, B: BusDevice>(
    m: Machine<T, C, B>,
    d: DecodedInstr,
    size: usize,
)
    requires
        fields_bounded(d),
    ensures
        kept(m, m.load_linked(d, size).1),
{
    let va = m.core.effective(d);
    lemma_read(m, false, size, va);
    let (r, m1) = m.read_data(false, size, va);
    match r {
        Ok(v) => {
            let w = if size == 4 {
                v as i32 as i64 as u64
            } else {
                v
            };
            let m2 = m1.with_core(m1.core.with_gpr(d.rt, w));
            lemma_register(m1, d.rt, w);
            lemma_then(m, m1, m2);
            let (tr, m3) = m2.nano_translate(AccessType::Read, va);
            lemma_nano(m2, false, AccessType::Read, va);
            lemma_then(m, m2, m3);
            lemma_ends(m3, 0);
            lemma_then(m, m3, m3.done().1);
            lemma_link(m3, d, tr.phys >> 4, 0);
            lemma_then(m, m3, m3.link(tr.phys >> 4).done().1);
        },
        Err(s) => {
            lemma_ends(m1, s);
            lemma_then(m, m1, m1.finish(s).1);
        },
    }
}

proof fn lemma_store_conditional<T: Tlb, C: MipsCache, B: BusDevice>(
    m: Machine<T, C, B>,
    d: DecodedInstr,
    size: usize,
)
    requires
        fields_bounded(d),
    ensures
        kept(m, m.store_conditional(d, size).1),
{
    let va = m.core.effective(d);
    lemma_link(m, d, 0, 0);
    let (tr, m1) = m.nano_translate(AccessType::Write, va);
    lemma_nano(m, false, AccessType::Write, va);
    lemma_link(m1, d, 0, tr.status);
    lemma_then(m, m1, m1.unlink().finish(tr.status).1);
    lemma_then(m, m1, m1.store_refused(d).unlink().done().1);
    let v = m1.core.gpr_at(d.rt);
    lemma_write(m1, false, size, va, v);
    let (s, m2) = m1.write_data(false, size, va, v);
    lemma_then(m, m1, m2);
    lemma_link(m2, d, 0, s);
    lemma_ends(m2, s);
    lemma_then(m, m2, m2.finish(s).1);
    lemma_then(m, m2, m2.with_core(m2.core.with_gpr(d.rt, 1)).unlink().finish(s).1);
}

proof fn lemma_memory<T: Tlb, C: MipsCache, B: BusDevice>(m: Machine<T, C, B>, d: DecodedInstr)
    requires
        fields_bounded(d),
    ensures
        m.memory(d) matches Some(r) ==> kept(m, r.1),
{
    let va = m.core.effective(d);
    let a = m.core.gpr_at(d.rs);
    let b = m.core.gpr_at(d.rt);
    if load_size(d.handler) is Some || store_size(d.handler) is Some {
        lemma_load_store(m, d);
    } else if let Some(size) = part_load_size(d.handler) {
        lemma_part_load(m, d, size);
    } else if let Some((v, mask)) = part_store(d.handler, b, va) {
        lemma_masked(m, false, va & !7, v, mask);
        let (s, n) = m.write_masked(false, va & !7, v, mask);
        lemma_ends(n, s);
        lemma_then(m, n, n.finish(s).1);
    } else if let Some((r, addr)) = fused_address(d, a, b) {
        lemma_register(m, r, addr);
        let n = m.with_core(m.core.with_gpr(r, addr).completed());
        lemma_alone(d.imm);
        lemma_load_store(n, alone(d.imm));
        lemma_then(m, n, n.load_store(alone(d.imm)).1);
    } else {
        lemma_load_linked(m, d, 4);
        lemma_load_linked(m, d, 8);
        lemma_store_conditional(m, d, 4);
        lemma_store_conditional(m, d, 8);
    }
}

proof fn lemma_alone(raw: u32)
    ensures
        fields_bounded(alone(raw)),
{
    law_decoded_fields(
        DecodedInstr {
            handler: crate::instr::InstrHandler::Reserved,
            imm: 0,
            raw,
            flags: crate::instr::FLAG_NOT_DECODED,
            op: 0,
            rs: 0,
            rt: 0,
            rd: 0,
            sa: 0,
            funct: 0,
        },
    );
}

proof fn lemma_cache_ends<T: Tlb, C: MipsCache, B: BusDevice>(
    m: Machine<T, C, B>,
    op: u32,
    va: u64,
    phys: u64,
)
    ensures
        kept(m, m.cache_operation(op, va, phys).done().1),
{
    reveal(kept);
}

proof fn lemma_unusable<T: Tlb, C: MipsCache, B: BusDevice>(m: Machine<T, C, B>, ce: u32)
    ensures
        kept(m, m.coprocessor_unusable(ce).1),
{
    reveal(kept);
}

proof fn lemma_cop0<T: Tlb, C: MipsCache, B: BusDevice>(m: Machine<T, C, B>, d: DecodedInstr)
    requires
        fields_bounded(d),
    ensures
        kept(m, m.cop0(d).1),
{
    reveal(kept);
}

proof fn lemma_system<T: Tlb, C: MipsCache, B: BusDevice>(m: Machine<T, C, B>, d: DecodedInstr)
    requires
        fields_bounded(d),
    ensures
        m.system(d) matches Some(r) ==> kept(m, r.1),
{
    let va = m.core.effective(d);
    let op = d.rt as u32;
    lemma_cop0(m, d);
    lemma_unusable(m, 0);
    lemma_cache_ends(m, op, va, va);
    lemma_cache_ends(m, op, va, m.core.cp0_taglo as u64);
    let (tr, n) = m.nano_translate(AccessType::Read, va);
    lemma_nano(m, false, AccessType::Read, va);
    lemma_ends(n, tr.status);
    lemma_then(m, n, n.raise(tr.status).1);
    lemma_cache_ends(n, op, va, tr.phys as u64);
    lemma_then(m, n, n.cache_operation(op, va, tr.phys as u64).done().1);
}

proof fn lemma_float_loaded<T: Tlb, C: MipsCache, B: BusDevice>(
    m: Machine<T, C, B>,
    double: bool,
    r: u8,
    v: u64,
)
    ensures
        kept(m, m.with_core(m.core.with_float(double, r, v)).done().1),
{
    reveal(kept);
}

proof fn lemma_float_access<T: Tlb, C: MipsCache, B: BusDevice>(
    m: Machine<T, C, B>,
    double: bool,
    va: u64,
    r: u8,
)
    ensures
        kept(m, m.float_load(double, va, r).1),
        kept(m, m.float_store(double, va, r).1),
{
    let size: usize = if double {
        8
    } else {
        4
    };
    lemma_read(m, false, size, va);
    let (v, n) = m.read_data(false, size, va);
    match v {
        Ok(v) => {
            lemma_float_loaded(n, double, r, v);
            lemma_then(m, n, n.with_core(n.core.with_float(double, r, v)).done().1);
        },
        Err(s) => {
            lemma_ends(n, s);
            lemma_then(m, n, n.finish(s).1);
        },
    }
    let v = m.core.float_operand(double, r);
    lemma_write(m, false, size, va, v);
    let (s, n) = m.write_data(false, size, va, v);
    lemma_ends(n, s);
    lemma_then(m, n, n.finish(s).1);
}

proof fn lemma_float_memory<T: Tlb, C: MipsCache, B: BusDevice>(
    m: Machine<T, C, B>,
    d: DecodedInstr,
)
    ensures
        m.float_memory(d) matches Some(r) ==> kept(m, r.1),
{
    let va = m.core.effective(d);
    let vx = m.core.gpr_at(d.rs).wrapping_add(m.core.gpr_at(d.rt));
    lemma_float_access(m, false, va, d.rt);
    lemma_float_access(m, true, va, d.rt);
    lemma_float_access(m, false, vx, d.sa);
    lemma_float_access(m, true, vx, d.sa);
    lemma_float_access(m, false, vx, d.rd);
    lemma_float_access(m, true, vx, d.rd);
}

proof fn lemma_float_moved<T: Tlb, C: MipsCache, B: BusDevice>(m: Machine<T, C, B>, d: DecodedInstr)
    requires
        fields_bounded(d),
    ensures
        m.core.float_moved(d) matches Some(c) ==> kept(m, m.with_core(c).done().1),
{
    reveal(kept);
}

proof fn lemma_float_compare<T: Tlb, C: MipsCache, B: BusDevice>(
    m: Machine<T, C, B>,
    d: DecodedInstr,
)
    ensures
        kept(m, m.float_compare(d).1),
        kept(m, m.float_control(d).1),
        kept(
            m,
            m.ended(m.core.after_branch(m.core.float_branch(d), m.core.branch_target(d))).1,
        ),
{
    reveal(kept);
}

proof fn lemma_float<T: Tlb, C: MipsCache, B: BusDevice>(m: Machine<T, C, B>, d: DecodedInstr)
    requires
        fields_bounded(d),
    ensures
        kept(m, m.float(d).1),
{
    lemma_float_memory(m, d);
    lemma_float_compare(m, d);
    lemma_float_moved(m, d);
    lemma_unusable(m, 1);
    lemma_same(m);
}

proof fn lemma_same<T: Tlb, C: MipsCache, B: BusDevice>(m: Machine<T, C, B>)
    ensures
        kept(m, m),
{
    reveal(kept);
}

proof fn lemma_execute<T: Tlb, C: MipsCache, B: BusDevice>(m: Machine<T, C, B>, d: DecodedInstr)
    requires
        fields_bounded(d),
    ensures
        kept(m, m.execute(d).1),
{
    reveal(Machine::execute);
    lemma_integer(m, d);
    lemma_memory(m, d);
    lemma_system(m, d);
    lemma_float(m, d);
    lemma_trap(m);
}

/// Law: executing an instruction touches none of the debugger's settings, and the zero
/// register stays zero.
pub proof fn law_execution_leaves_the_debugger_alone<T: Tlb, C: MipsCache, B: BusDevice>(
    m: Machine<T, C, B>,
    d: DecodedInstr,
)
    requires
        fields_bounded(d),
    ensures
        m.keeps(m.execute(d).1),
{
    lemma_execute(m, d);
    reveal(kept);
}

/// Law: so does completing a floating-point instruction.
pub proof fn law_completion_leaves_the_debugger_alone<T: Tlb, C: MipsCache, B: BusDevice>(
    m: Machine<T, C, B>,
    d: DecodedInstr,
    reply: FloatReply,
)
    ensures
        m.keeps(m.float_done(d, reply).1),
{
}

proof fn lemma_poll<T: Tlb, C: MipsCache, B: BusDevice>(m: Machine<T, C, B>, skip: bool)
    ensures
        kept(m, m.poll(skip).1),
{
    reveal(kept);
}

/// What a step notes before it executes `raw`, or instead.
proof fn lemma_step_notes<T: Tlb, C: MipsCache, B: BusDevice>(
    m: Machine<T, C, B>,
    decoded: bool,
    pc: u64,
    raw: u32,
    status: ExecStatus,
)
    ensures
        kept(m, m.with_tools(m.tools.fetched(decoded).noted(pc, raw, m.core))),
        kept(m, m.fetch_failed(status).1),
        kept(m, Machine { skip_breakpoints: false, skip_interrupts: false, ..m }),
        ({
            let core = MipsCore { cycles: m.core.cycles.wrapping_add(1), ..m.core };
            kept(m, Machine { core, tools: m.tools.profiled(core), ..m })
        }),
{
    reveal(kept);
}

/// The fetch and the execution that make up a step, once nothing has come before them.
proof fn lemma_step_body<T: Tlb, C: MipsCache, B: BusDevice>(m: Machine<T, C, B>, pc: u64)
    ensures
        ({
            let (f, n) = m.fetch(false, pc);
            let d = ready(f.instr);
            let w = n.with_tools(n.tools.fetched(f.instr.flags == 0).noted(pc, d.raw, n.core));
            &&& f.status == EXEC_COMPLETE ==> kept(m, w.execute(d).1) && kept(m, n.execute(d).1)
            &&& kept(m, n.fetch_failed(f.status).1)
        }),
{
    lemma_fetch(m, false, pc);
    let (f, n) = m.fetch(false, pc);
    let d = ready(f.instr);
    let w = n.with_tools(n.tools.fetched(f.instr.flags == 0).noted(pc, d.raw, n.core));
    lemma_step_notes(n, f.instr.flags == 0, pc, d.raw, f.status);
    lemma_then(m, n, w);
    lemma_then(m, n, n.fetch_failed(f.status).1);
    if f.status == EXEC_COMPLETE {
        law_decoded_fields(f.instr);
        lemma_execute(w, d);
        lemma_then(m, w, w.execute(d).1);
        lemma_execute(n, d);
        lemma_then(m, n, n.execute(d).1);
    }
}

proof fn lemma_step_watched<T: Tlb, C: MipsCache, B: BusDevice>(m: Machine<T, C, B>)
    ensures
        kept(m, m.step_watched().1),
{
    reveal(Machine::step_watched);
    let pc = m.core.pc;
    let m1 = m.break_at(BpType::Pc, pc).1;
    lemma_break(m, false, BpType::Pc, pc);
    let m2 = m1.poll(m1.skip_interrupts).1;
    lemma_poll(m1, m1.skip_interrupts);
    lemma_then(m, m1, m2);
    lemma_step_body(m2, pc);
    let n = m.step_watched().1;
    if n != m1 && n != m2 {
        lemma_then(m, m2, n);
    }
}

proof fn lemma_step_lite<T: Tlb, C: MipsCache, B: BusDevice>(m: Machine<T, C, B>)
    ensures
        kept(m, m.step_lite().1),
{
    reveal(Machine::step_lite);
    let m1 = m.poll(false).1;
    lemma_poll(m, false);
    lemma_step_body(m1, m.core.pc);
    let n = m.step_lite().1;
    if n != m1 {
        lemma_then(m, m1, n);
    }
}

/// Law: a step touches none of the debugger's settings, and the zero register stays zero.
pub proof fn law_steps_leave_the_debugger_alone<T: Tlb, C: MipsCache, B: BusDevice>(
    m: Machine<T, C, B>,
)
    ensures
        m.keeps(m.step().1),
        m.keeps(m.step_lite().1),
{
    let core = MipsCore { cycles: m.core.cycles.wrapping_add(1), ..m.core };
    let m0 = Machine { core, tools: m.tools.profiled(core), ..m };
    lemma_step_notes(m, false, 0, 0, 0);
    let m1 = m0.step_watched().1;
    lemma_step_watched(m0);
    lemma_then(m, m0, m1);
    lemma_step_notes(m1, false, 0, 0, 0);
    lemma_then(m, m1, m.step().1);
    lemma_step_lite(m);
    reveal(kept);
}

proof fn lemma_debug_read<T: Tlb, C: MipsCache, B: BusDevice>(
    m: Machine<T, C, B>,
    va: u64,
    size: usize,
)
    ensures
        m.read_data(true, size, va).1.core == m.core,
{
    reveal(Machine::read_data);
    reveal(Machine::translate);
}

proof fn lemma_debug_write<T: Tlb, C: MipsCache, B: BusDevice>(
    m: Machine<T, C, B>,
    va: u64,
    size: usize,
    val: u64,
)
    ensures
        m.write_data(true, size, va, val).1.core == m.core,
{
    reveal(Machine::write_data);
    reveal(Machine::translate);
}

proof fn lemma_debug_fetch<T: Tlb, C: MipsCache, B: BusDevice>(m: Machine<T, C, B>, va: u64)
    ensures
        m.fetch(true, va).1.core == m.core,
{
    reveal(Machine::fetch);
    reveal(Machine::translate);
}

/// Law: the debugger's own accesses change no register of the processor.
pub proof fn law_debugger_accesses_leave_no_trace<T: Tlb, C: MipsCache, B: BusDevice>(
    m: Machine<T, C, B>,
    va: u64,
    size: usize,
    val: u64,
)
    ensures
        m.debug_read(va, size).1.core == m.core,
        m.debug_write(va, val, size).1.core == m.core,
        m.fetch(true, va).1.core == m.core,
        m.keeps(m.debug_read(va, size).1),
        m.keeps(m.debug_write(va, val, size).1),
        m.keeps(m.fetch(true, va).1),
{
    lemma_debug_read(m, va, size);
    lemma_debug_write(m, va, size, val);
    lemma_debug_fetch(m, va);
    lemma_read(m, true, size, va);
    lemma_write(m, true, size, va, val);
    lemma_fetch(m, true, va);
    lemma_same(m);
    reveal(kept);
}

} // verus!
