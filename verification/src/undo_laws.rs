//! Undoing instructions brings memory back.
use vstd::prelude::*;

use crate::breakpoints::BpType;
use crate::bus::{Tlb, BUS_OK};
use crate::bytes::{law_number_has_its_bytes, lemma_number_bound};
use crate::cpu_core::{AccessType, MipsCore};
use crate::debug_loop::{law_undo_reverts_a_step, lemma_debug_step_keeps};
use crate::exec::ready;
use crate::fpu::FloatReply;
use crate::frame::law_completion_leaves_the_debugger_alone;
use crate::instr::DecodedInstr;
use crate::loadstore::{
    alone, fused_address, load_size, part_load_size, part_store, store_size,
};
use crate::machine::{in_main_memory, is_access_size, Machine};
use crate::ram::{law_writing_back_undoes_a_write, DirectCache, Ram, RamState};
use crate::snapshot::lemma_unwriting_back;
use crate::undo::{CpuSnapshot, MemoryWrite};

verus! {

/// All of `r` is main memory.
pub open spec fn is_main(r: RamState) -> bool {
    forall|a: u32| #[trigger] r.holds(a, 1) ==> in_main_memory(a)
}

/// The memories of `m`, behind the caches and on the bus, are main memory.
pub open spec fn has_main_memory<T: Tlb>(m: Machine<T, DirectCache, Ram>) -> bool {
    is_main(m.cache.ram) && is_main(m.sysad)
}

pub open spec fn same_memory<T: Tlb>(
    m: Machine<T, DirectCache, Ram>,
    n: Machine<T, DirectCache, Ram>,
) -> bool {
    n.cache.ram == m.cache.ram && n.sysad == m.sysad
}

/// `n` differs from `m` neither in memory nor in what is noted of writes.
spec fn quiet<T: Tlb>(
    m: Machine<T, DirectCache, Ram>,
    n: Machine<T, DirectCache, Ram>,
) -> bool {
    &&& same_memory(m, n)
    &&& n.tools.pending == m.tools.pending
    &&& n.tools.undo.enabled == m.tools.undo.enabled
}

/// What was noted between `m` and `n` takes the memory of `n` back to that of `m`.
#[verifier::opaque]
spec fn noted<T: Tlb>(
    m: Machine<T, DirectCache, Ram>,
    n: Machine<T, DirectCache, Ram>,
) -> bool {
    let k = m.tools.pending.len() as int;
    &&& k <= n.tools.pending.len()
    &&& n.tools.pending.take(k) == m.tools.pending
    &&& n.tools.undo.enabled == m.tools.undo.enabled
    &&& same_memory(m, n.unwritten(n.tools.pending.skip(k)))
}

proof fn lemma_quiet_is_noted<T: Tlb>(
    m: Machine<T, DirectCache, Ram>,
    n: Machine<T, DirectCache, Ram>,
)
    requires
        quiet(m, n),
    ensures
        noted(m, n),
{
    reveal(noted);
    let p = m.tools.pending;
    assert(p.take(p.len() as int) =~= p);
    assert(p.skip(p.len() as int) =~= Seq::empty());
}

proof fn lemma_unwritten_memory<T: Tlb>(
    m: Machine<T, DirectCache, Ram>,
    n: Machine<T, DirectCache, Ram>,
    w: Seq<MemoryWrite>,
)
    requires
        same_memory(m, n),
    ensures
        same_memory(m.unwritten(w), n.unwritten(w)),
    decreases w.len(),
{
    if w.len() > 0 {
        lemma_unwritten_memory(
            m.unwritten_one(w.last()),
            n.unwritten_one(w.last()),
            w.drop_last(),
        );
    }
}

proof fn lemma_unwritten_in_two<T: Tlb>(
    m: Machine<T, DirectCache, Ram>,
    a: Seq<MemoryWrite>,
    b: Seq<MemoryWrite>,
)
    ensures
        m.unwritten(a + b) == m.unwritten(b).unwritten(a),
    decreases b.len(),
{
    if b.len() == 0 {
        assert(a + b =~= a);
    } else {
        assert((a + b).last() == b.last());
        assert((a + b).drop_last() =~= a + b.drop_last());
        lemma_unwritten_in_two(m.unwritten_one(b.last()), a, b.drop_last());
    }
}

proof fn lemma_noted_twice<T: Tlb>(
    a: Machine<T, DirectCache, Ram>,
    b: Machine<T, DirectCache, Ram>,
    c: Machine<T, DirectCache, Ram>,
)
    requires
        noted(a, b),
        noted(b, c),
    ensures
        noted(a, c),
{
    reveal(noted);
    let i = a.tools.pending.len() as int;
    let j = b.tools.pending.len() as int;
    let p = c.tools.pending;
    let first = b.tools.pending.skip(i);
    assert(p.take(j).take(i) =~= p.take(i));
    assert(p.skip(i) =~= first + p.skip(j)) by {
        assert(p.take(j).skip(i) =~= p.skip(i).take(j - i));
    }
    lemma_unwritten_in_two(c, first, p.skip(j));
    lemma_unwritten_memory(b, c.unwritten(p.skip(j)), first);
}

/// Taking writes back leaves memory where it is.
proof fn lemma_unwritten_place<T: Tlb>(m: Machine<T, DirectCache, Ram>, w: Seq<MemoryWrite>)
    ensures
        has_main_memory(m) == has_main_memory(m.unwritten(w)),
    decreases w.len(),
{
    if w.len() > 0 {
        let n = m.unwritten_one(w.last());
        assert forall|a: u32|
            #![trigger n.cache.ram.holds(a, 1)]
            #![trigger m.cache.ram.holds(a, 1)]
            n.cache.ram.holds(a, 1) == m.cache.ram.holds(a, 1) by {}
        assert forall|a: u32|
            #![trigger n.sysad.holds(a, 1)]
            #![trigger m.sysad.holds(a, 1)]
            n.sysad.holds(a, 1) == m.sysad.holds(a, 1) by {}
        lemma_unwritten_place(n, w.drop_last());
    }
}

proof fn lemma_noted_place<T: Tlb>(
    m: Machine<T, DirectCache, Ram>,
    n: Machine<T, DirectCache, Ram>,
)
    requires
        noted(m, n),
        has_main_memory(m),
    ensures
        has_main_memory(n),
        n.tools.undo.enabled == m.tools.undo.enabled,
{
    reveal(noted);
    lemma_unwritten_place(n, n.tools.pending.skip(m.tools.pending.len() as int));
}

proof fn lemma_translate<T: Tlb>(m: Machine<T, DirectCache, Ram>, at: AccessType, va: u64)
    ensures
        quiet(m, m.nano_translate(at, va).1),
        m.nano_translate(at, va).1.cache == m.cache,
{
    reveal(Machine::nano_translate);
    reveal(Machine::translate);
}

proof fn lemma_read<T: Tlb>(m: Machine<T, DirectCache, Ram>, size: usize, va: u64)
    ensures
        quiet(m, m.read_data(false, size, va).1),
{
    reveal(Machine::read_data);
    let m1 = m.break_at(BpType::VirtRead, va).1;
    lemma_translate(m1, AccessType::Read, va);
}

/// What is there, written again, changes nothing.
proof fn lemma_same_again(r: RamState, phys: u32, size: usize)
    requires
        is_access_size(size),
        r.holds(phys, size),
    ensures
        r.with(phys, size, r.number(phys, size)) == r,
        crate::machine::truncated(r.number(phys, size), size) == r.number(phys, size),
{
    let at = r.at(phys);
    let was = r.bytes.subrange(at, at + size);
    law_number_has_its_bytes(was);
    lemma_number_bound(was);
    let t = r.with(phys, size, r.number(phys, size));
    assert forall|i: int| 0 <= i < r.bytes.len() implies t.bytes[i] == r.bytes[i] by {
        if at <= i < at + size {
            assert(was[i - at] == r.bytes[i]);
        }
    }
    assert(t.bytes =~= r.bytes);
}

/// A write to the place that was noted before it, or no write.
proof fn lemma_tracked<T: Tlb>(
    m: Machine<T, DirectCache, Ram>,
    cached: bool,
    size: usize,
    va: u64,
    phys: u32,
    val: u64,
    n: Machine<T, DirectCache, Ram>,
)
    requires
        has_main_memory(m),
        m.tools.undo.enabled,
        is_access_size(size),
        ({
            let t = m.track_write(false, cached, size, va, phys);
            &&& n.tools.pending == t.tools.pending
            &&& n.tools.undo.enabled
            &&& same_memory(t, n) || same_memory(t.poke(cached, size, va, phys, val), n)
        }),
    ensures
        noted(m, n),
{
    reveal(noted);
    let t = m.track_write(false, cached, size, va, phys);
    let r = if cached {
        m.cache.ram
    } else {
        m.sysad
    };
    let k = m.tools.pending.len() as int;
    if r.holds(phys, size) {
        assert(r.holds(phys, 1));
        assert(in_main_memory(phys));
        let w = MemoryWrite {
            virt_addr: va,
            phys_addr: phys as u64,
            old_value: r.number(phys, size),
            size,
            cached,
        };
        assert(r.read(phys, size).status == BUS_OK);
        assert(n.tools.pending == m.tools.pending.push(w));
        assert(n.tools.pending.take(k) =~= m.tools.pending);
        assert(n.tools.pending.skip(k) =~= seq![w]);
        lemma_same_again(r, phys, size);
        law_writing_back_undoes_a_write(r, phys, size, val);
        law_writing_back_undoes_a_write(
            r,
            phys,
            size,
            crate::machine::truncated(val, size),
        );
        assert(seq![w].last() == w);
        assert(seq![w].drop_last() =~= Seq::empty());
        reveal_with_fuel(Machine::unwritten, 2);
        assert(same_memory(m, n.unwritten(seq![w])));
    } else {
        assert(n.tools.pending == m.tools.pending);
        assert(quiet(m, n));
        lemma_quiet_is_noted(m, n);
    }
}

proof fn lemma_write<T: Tlb>(m: Machine<T, DirectCache, Ram>, size: usize, va: u64, val: u64)
    requires
        has_main_memory(m),
        m.tools.undo.enabled,
        is_access_size(size),
    ensures
        noted(m, m.write_data(false, size, va, val).1),
{
    reveal(Machine::write_data);
    let (hit, m1) = m.break_at(BpType::VirtWrite, va);
    lemma_translate(m1, AccessType::Write, va);
    let (tr, m2) = m1.nano_translate(AccessType::Write, va);
    let n = m.write_data(false, size, va, val).1;
    if hit || va & ((size - 1) as u64) != 0 || tr.spec_is_exception() {
        assert(quiet(m, n));
        lemma_quiet_is_noted(m, n);
    } else {
        let cached = tr.spec_is_cached();
        let m3 = m2.track_write(false, cached, size, va, tr.phys);
        let (hit, m4) = m3.break_at(BpType::PhysWrite, tr.phys as u64);
        if hit {
            assert(n == m4);
        } else {
            assert(same_memory(m4.poke(cached, size, va, tr.phys, val), n));
        }
        lemma_quiet_is_noted(m, m2);
        lemma_tracked(m2, cached, size, va, tr.phys, val, n);
        lemma_noted_twice(m, m2, n);
    }
}

proof fn lemma_masked<T: Tlb>(m: Machine<T, DirectCache, Ram>, va: u64, val: u64, mask: u64)
    requires
        has_main_memory(m),
        m.tools.undo.enabled,
    ensures
        noted(m, m.write_masked(false, va, val, mask).1),
{
    reveal(Machine::write_masked);
    let (hit, m1) = m.break_at(BpType::VirtWrite, va);
    lemma_translate(m1, AccessType::Write, va);
    let (tr, m2) = m1.nano_translate(AccessType::Write, va);
    let n = m.write_masked(false, va, val, mask).1;
    if hit || tr.spec_is_exception() {
        assert(quiet(m, n));
        lemma_quiet_is_noted(m, n);
    } else {
        let cached = tr.spec_is_cached();
        let m3 = m2.track_write(false, cached, 8, va, tr.phys);
        let (hit, m4) = m3.break_at(BpType::PhysWrite, tr.phys as u64);
        let r = if cached {
            m.cache.ram
        } else {
            m.sysad
        };
        let v = (r.number(tr.phys, 8) & !mask) | (val & mask);
        if hit {
            assert(n == m4);
        } else {
            assert(same_memory(m4.poke(cached, 8, va, tr.phys, v), n));
        }
        lemma_quiet_is_noted(m, m2);
        lemma_tracked(m2, cached, 8, va, tr.phys, v, n);
        lemma_noted_twice(m, m2, n);
    }
}

/// An instruction's end after its accesses.
proof fn lemma_noted_end<T: Tlb>(
    a: Machine<T, DirectCache, Ram>,
    b: Machine<T, DirectCache, Ram>,
    c: Machine<T, DirectCache, Ram>,
)
    requires
        noted(a, b),
        quiet(b, c),
    ensures
        noted(a, c),
{
    lemma_quiet_is_noted(b, c);
    lemma_noted_twice(a, b, c);
}

proof fn lemma_load_store<T: Tlb>(m: Machine<T, DirectCache, Ram>, d: DecodedInstr)
    requires
        has_main_memory(m),
        m.tools.undo.enabled,
    ensures
        noted(m, m.load_store(d).1),
{
    let va = m.core.effective(d);
    let n = m.load_store(d).1;
    if let Some(size) = load_size(d.handler) {
        lemma_read(m, size, va);
        assert(quiet(m, n));
        lemma_quiet_is_noted(m, n);
    } else if let Some(size) = store_size(d.handler) {
        lemma_write(m, size, va, m.core.gpr_at(d.rt));
        lemma_noted_end(m, m.write_data(false, size, va, m.core.gpr_at(d.rt)).1, n);
    } else {
        lemma_quiet_is_noted(m, n);
    }
}

proof fn lemma_linked<T: Tlb>(m: Machine<T, DirectCache, Ram>, d: DecodedInstr, size: usize)
    requires
        has_main_memory(m),
        m.tools.undo.enabled,
        is_access_size(size),
    ensures
        noted(m, m.load_linked(d, size).1),
        noted(m, m.store_conditional(d, size).1),
{
    let va = m.core.effective(d);
    lemma_read(m, size, va);
    let (r, m1) = m.read_data(false, size, va);
    if let Ok(v) = r {
        let w = if size == 4 {
            v as i32 as i64 as u64
        } else {
            v
        };
        let m2 = m1.with_core(m1.core.with_gpr(d.rt, w));
        lemma_translate(m2, AccessType::Read, va);
    }
    assert(quiet(m, m.load_linked(d, size).1));
    lemma_quiet_is_noted(m, m.load_linked(d, size).1);
    lemma_translate(m, AccessType::Write, va);
    let m3 = m.nano_translate(AccessType::Write, va).1;
    let n = m.store_conditional(d, size).1;
    if quiet(m, n) {
        lemma_quiet_is_noted(m, n);
    } else {
        let v = m3.core.gpr_at(d.rt);
        lemma_write(m3, size, va, v);
        lemma_quiet_is_noted(m, m3);
        lemma_noted_end(m3, m3.write_data(false, size, va, v).1, n);
        lemma_noted_twice(m, m3, n);
    }
}

proof fn lemma_memory<T: Tlb>(m: Machine<T, DirectCache, Ram>, d: DecodedInstr)
    requires
        has_main_memory(m),
        m.tools.undo.enabled,
    ensures
        m.memory(d) matches Some(r) ==> noted(m, r.1),
{
    let va = m.core.effective(d);
    let a = m.core.gpr_at(d.rs);
    let b = m.core.gpr_at(d.rt);
    if load_size(d.handler) is Some || store_size(d.handler) is Some {
        lemma_load_store(m, d);
    } else if let Some(size) = part_load_size(d.handler) {
        lemma_read(m, size, va & !3);
        lemma_read(m, size, va & !7);
        assert(quiet(m, m.part_load(d, size).1));
        lemma_quiet_is_noted(m, m.part_load(d, size).1);
    } else if let Some((v, mask)) = part_store(d.handler, b, va) {
        lemma_masked(m, va & !7, v, mask);
        let (s, n) = m.write_masked(false, va & !7, v, mask);
        lemma_noted_end(m, n, n.finish(s).1);
    } else if let Some((r, addr)) = fused_address(d, a, b) {
        let m1 = m.with_core(m.core.with_gpr(r, addr));
        let m2 = m1.with_core(m1.core.completed());
        lemma_quiet_is_noted(m, m2);
        lemma_load_store(m2, alone(d.imm));
        lemma_noted_twice(m, m2, m2.load_store(alone(d.imm)).1);
        lemma_quiet_is_noted(m, m1.done().1);
    } else {
        lemma_linked(m, d, 4);
        lemma_linked(m, d, 8);
    }
}

proof fn lemma_float_access<T: Tlb>(
    m: Machine<T, DirectCache, Ram>,
    double: bool,
    va: u64,
    r: u8,
)
    requires
        has_main_memory(m),
        m.tools.undo.enabled,
    ensures
        noted(m, m.float_load(double, va, r).1),
        noted(m, m.float_store(double, va, r).1),
{
    let size: usize = if double {
        8
    } else {
        4
    };
    lemma_read(m, size, va);
    lemma_quiet_is_noted(m, m.float_load(double, va, r).1);
    let v = m.core.float_operand(double, r);
    lemma_write(m, size, va, v);
    lemma_noted_end(m, m.write_data(false, size, va, v).1, m.float_store(double, va, r).1);
}

proof fn lemma_float_memory<T: Tlb>(m: Machine<T, DirectCache, Ram>, d: DecodedInstr)
    requires
        has_main_memory(m),
        m.tools.undo.enabled,
    ensures
        m.float_memory(d) matches Some(r) ==> noted(m, r.1),
{
    let va = m.core.effective(d);
    let vx = m.core.gpr_at(d.rs).wrapping_add(m.core.gpr_at(d.rt));
    lemma_float_access(m, false, va, d.rt);
    lemma_float_access(m, true, va, d.rt);
    lemma_float_access(m, false, vx, d.sa);
    lemma_float_access(m, true, vx, d.sa);
    lemma_float_access(m, false, vx, d.rd);
    lemma_float_access(m, true, vx, d.rd);
}

proof fn lemma_float_quiet<T: Tlb>(
    m: Machine<T, DirectCache, Ram>,
    d: DecodedInstr,
    c: MipsCore,
    reply: FloatReply,
)
    ensures
        quiet(m, m.float_compare(d).1),
        quiet(m, m.float_control(d).1),
        quiet(m, m.coprocessor_unusable(1).1),
        quiet(m, m.with_core(c).done().1),
        quiet(m, m.ended(c).1),
        quiet(m, m.float_done(d, reply).1),
{
}

proof fn lemma_float<T: Tlb>(m: Machine<T, DirectCache, Ram>, d: DecodedInstr, reply: FloatReply)
    requires
        has_main_memory(m),
        m.tools.undo.enabled,
    ensures
        noted(m, m.float(d).1),
{
    lemma_float_memory(m, d);
    let c = m.core.after_branch(m.core.float_branch(d), m.core.branch_target(d));
    lemma_float_quiet(m, d, c, reply);
    if let Some(c) = m.core.float_moved(d) {
        lemma_float_quiet(m, d, c, reply);
    }
    let n = m.float(d).1;
    if quiet(m, n) {
        lemma_quiet_is_noted(m, n);
    }
}

proof fn lemma_integer<T: Tlb>(m: Machine<T, DirectCache, Ram>, d: DecodedInstr)
    ensures
        m.integer(d) matches Some(r) ==> quiet(m, r.1),
{
}

proof fn lemma_system<T: Tlb>(m: Machine<T, DirectCache, Ram>, d: DecodedInstr)
    ensures
        m.system(d) matches Some(r) ==> quiet(m, r.1),
{
    lemma_translate(m, AccessType::Read, m.core.effective(d));
}

proof fn lemma_execute<T: Tlb>(m: Machine<T, DirectCache, Ram>, d: DecodedInstr)
    requires
        has_main_memory(m),
        m.tools.undo.enabled,
    ensures
        noted(m, m.execute(d).1),
{
    reveal(Machine::execute);
    lemma_integer(m, d);
    lemma_system(m, d);
    lemma_memory(m, d);
    lemma_float(m, d, arbitrary());
    let n = m.execute(d).1;
    if let Some(r) = m.integer(d) {
        lemma_quiet_is_noted(m, r.1);
    } else if let Some(r) = m.memory(d) {
    } else if crate::fpu::is_cop1(d.handler) {
    } else if let Some(r) = m.system(d) {
        lemma_quiet_is_noted(m, r.1);
    } else {
        assert(quiet(m, n));
        lemma_quiet_is_noted(m, n);
    }
}

proof fn lemma_fetch<T: Tlb>(m: Machine<T, DirectCache, Ram>, va: u64)
    ensures
        quiet(m, m.fetch(false, va).1),
{
    reveal(Machine::fetch);
    let m1 = m.break_at(BpType::VirtFetch, va).1;
    lemma_translate(m1, AccessType::Fetch, va);
}

proof fn lemma_step<T: Tlb>(m: Machine<T, DirectCache, Ram>)
    requires
        has_main_memory(m),
        m.tools.undo.enabled,
    ensures
        noted(m, m.step().1),
{
    reveal(Machine::step_watched);
    let core = MipsCore { cycles: m.core.cycles.wrapping_add(1), ..m.core };
    let m0 = Machine { core, tools: m.tools.profiled(core), ..m };
    assert(quiet(m, m0));
    let pc = m0.core.pc;
    let m1 = m0.break_at(BpType::Pc, pc).1;
    let m2 = m1.poll(m1.skip_interrupts).1;
    assert(quiet(m, m2));
    lemma_fetch(m2, pc);
    let (f, m3) = m2.fetch(false, pc);
    let d = ready(f.instr);
    let m4 = m3.with_tools(
        m3.tools.fetched(f.instr.flags == 0).noted(pc, d.raw, m3.core),
    );
    assert(quiet(m, m4));
    lemma_quiet_is_noted(m, m4);
    lemma_execute(m4, d);
    let n = m0.step_watched().1;
    if quiet(m, n) {
        lemma_quiet_is_noted(m, n);
    } else {
        lemma_noted_twice(m, m4, m4.execute(d).1);
    }
    assert(noted(m, n));
    lemma_noted_end(m, n, m.step().1);
}

proof fn lemma_debug_step<T: Tlb>(
    m: Machine<T, DirectCache, Ram>,
    first: bool,
    no_interrupts: bool,
)
    requires
        has_main_memory(m),
        m.tools.undo.enabled,
    ensures
        noted(m, m.debug_step(first, no_interrupts).1),
{
    let a = m.skipping(false, no_interrupts);
    lemma_quiet_is_noted(m, a);
    lemma_step(a);
    let b = a.step().1;
    lemma_noted_twice(m, a, b);
    lemma_noted_place(m, b);
    let c = b.skipping(true, no_interrupts);
    lemma_quiet_is_noted(b, c);
    lemma_step(c);
    lemma_noted_twice(m, b, c);
    lemma_noted_twice(m, c, c.step().1);
}

impl<T: Tlb> Machine<T, DirectCache, Ram> {
    /// `after` is this machine after an instruction that was recorded as `snap`, with the
    /// writes `w` that it noted.
    #[verifier::opaque]
    pub open spec fn records(
        self,
        snap: CpuSnapshot,
        w: Vec<MemoryWrite>,
        first: bool,
        no_interrupts: bool,
        after: Self,
    ) -> bool {
        &&& self.is_snapshot(snap)
        &&& w@ == self.marked(snap).debug_step(first, no_interrupts).1.tools.pending
        &&& self.recorded(snap, w, first, no_interrupts).completes_as(after)
    }

    /// The undo buffer is on, and holds no more than it can.
    pub open spec fn is_recording(&self) -> bool {
        &&& self.tools.undo.enabled
        &&& self.tools.undo.capacity > 0
        &&& self.tools.undo.entries.len() <= self.tools.undo.capacity
    }
}

/// What a recorded instruction leaves in the undo buffer takes memory back.
proof fn lemma_recorded<T: Tlb>(
    m: Machine<T, DirectCache, Ram>,
    snap: CpuSnapshot,
    w: Vec<MemoryWrite>,
    first: bool,
    no_interrupts: bool,
    after: Machine<T, DirectCache, Ram>,
)
    requires
        m.is_recording(),
        has_main_memory(m),
        m.records(snap, w, first, no_interrupts, after),
    ensures
        after.is_recording(),
        after.tools.undo.capacity == m.tools.undo.capacity,
        has_main_memory(after),
        same_memory(m, after.unwritten(w@)),
        after.tools.undo.entries.len() > 0,
        m.is_snapshot(snap),
        after.tools.undo.entries.last() == with_writes(snap, w),
        m.tools.undo.entries.len() < m.tools.undo.capacity
            ==> after.tools.undo.entries.drop_last() == m.tools.undo.entries,
{
    reveal(Machine::records);
    reveal(noted);
    let a = m.marked(snap);
    lemma_debug_step(a, first, no_interrupts);
    let b = a.debug_step(first, no_interrupts).1;
    assert(b.tools.pending.skip(0) =~= w@);
    lemma_debug_step_keeps(a, first, no_interrupts);
    let n = m.recorded(snap, w, first, no_interrupts);
    if after != n {
        let (d, reply) = choose|d: DecodedInstr, reply: FloatReply|
            after == (#[trigger] n.float_done(d, reply)).1;
        lemma_float_quiet(n, d, n.core, reply);
        law_completion_leaves_the_debugger_alone(n, d, reply);
    }
    assert(same_memory(b, after));
    lemma_unwritten_memory(b, after, w@);
    lemma_noted_place(a, b);
    assert(n.tools.undo.entries.drop_last() =~= a.tools.undo.entries.drop_last());
    if m.tools.undo.entries.len() < m.tools.undo.capacity {
        assert(a.tools.undo.entries.drop_last() =~= m.tools.undo.entries);
    }
}

/// Law: undoing an instruction of a run gives back all memory, whatever the instruction
/// did, and with it the processor as the instruction found it: see
/// `law_undo_reverts_a_step`. The memory, cached or not, is main memory.
pub proof fn law_undo_restores_memory<T: Tlb>(
    m: Machine<T, DirectCache, Ram>,
    snap: CpuSnapshot,
    w: Vec<MemoryWrite>,
    first: bool,
    no_interrupts: bool,
    after: Machine<T, DirectCache, Ram>,
)
    requires
        m.is_recording(),
        has_main_memory(m),
        m.records(snap, w, first, no_interrupts, after),
    ensures
        after.undoable(1),
        after.undone(1).cache == m.cache,
        after.undone(1).sysad == m.sysad,
        after.undone(1).core == m.core.found_by(after.core, m.cache.lladdr),
        m.tools.undo.entries.len() < m.tools.undo.capacity ==> after.undone(1).tools.undo
            == m.tools.undo,
{
    lemma_recorded(m, snap, w, first, no_interrupts, after);
    reveal(Machine::records);
    law_undo_reverts_a_step(m, snap, w, first, no_interrupts, after);
    let e = after.tools.undo.entries;
    reveal_with_fuel(Machine::unwritten_back, 2);
    lemma_unwriting_back(after, e, 1);
    assert(after.undone(1).cache =~= m.cache);
    assert(e.take(e.len() - 1) =~= e.drop_last());
}

/// One after the other, the machines `ms` are a recorded run: each but the first is the
/// one before it after a recorded instruction.
pub open spec fn is_recorded_run<T: Tlb>(ms: Seq<Machine<T, DirectCache, Ram>>) -> bool {
    forall|i: int| #![trigger ms[i]]
        0 <= i < ms.len() - 1 ==> exists|
            snap: CpuSnapshot,
            w: Vec<MemoryWrite>,
            first: bool,
            no_interrupts: bool,
        | #[trigger] ms[i].records(snap, w, first, no_interrupts, ms[i + 1])
}

proof fn lemma_run<T: Tlb>(
    ms: Seq<Machine<T, DirectCache, Ram>>,
    n: int,
    x: Machine<T, DirectCache, Ram>,
)
    requires
        is_recorded_run(ms),
        0 <= n < ms.len(),
        ms[0].is_recording(),
        has_main_memory(ms[0]),
        ms[0].tools.undo.entries.len() + n <= ms[0].tools.undo.capacity,
    ensures
        ms[n].is_recording(),
        has_main_memory(ms[n]),
        ms[n].tools.undo.capacity == ms[0].tools.undo.capacity,
        ms[n].tools.undo.entries.len() == ms[0].tools.undo.entries.len() + n,
        ms[n].tools.undo.entries.take(ms[0].tools.undo.entries.len() as int)
            == ms[0].tools.undo.entries,
        same_memory(ms[n], x) ==> same_memory(
            ms[0],
            x.unwritten_back(ms[n].tools.undo.entries, n as nat),
        ),
        n > 0 ==> exists|w: Vec<MemoryWrite>, snap: CpuSnapshot|
            {
                &&& #[trigger] ms[0].is_snapshot(snap)
                &&& ms[n].tools.undo.entries[ms[0].tools.undo.entries.len() as int] == (
                #[trigger] with_writes(snap, w))
            },
    decreases n,
{
    let k = ms[0].tools.undo.entries.len() as int;
    if n == 0 {
        assert(ms[0].tools.undo.entries.take(k) =~= ms[0].tools.undo.entries);
    } else {
        let p = ms[n - 1];
        lemma_run(ms, n - 1, x);
        let (snap, w, first, no_interrupts) = choose|
            snap: CpuSnapshot,
            w: Vec<MemoryWrite>,
            first: bool,
            no_interrupts: bool,
        | #[trigger] p.records(snap, w, first, no_interrupts, ms[n - 1 + 1]);
        lemma_recorded(p, snap, w, first, no_interrupts, ms[n]);
        let e = ms[n].tools.undo.entries;
        assert(e.take(k) =~= e.drop_last().take(k));
        if same_memory(ms[n], x) {
            lemma_unwritten_memory(ms[n], x, w@);
            lemma_run(ms, n - 1, x.unwritten(w@));
        }
        if n == 1 {
            assert(e[k] == with_writes(snap, w));
        } else {
            assert(e[k] == e.drop_last()[k]);
        }
    }
}

/// The snapshot `s` with the writes `w`.
pub open spec fn with_writes(s: CpuSnapshot, w: Vec<MemoryWrite>) -> CpuSnapshot {
    CpuSnapshot { memory_writes: w, ..s }
}

/// What undoing comes to, once the writes have been taken back to the memory of `m`.
proof fn lemma_undone<T: Tlb>(
    m: Machine<T, DirectCache, Ram>,
    z: Machine<T, DirectCache, Ram>,
    n: nat,
    snap: CpuSnapshot,
    w: Vec<MemoryWrite>,
)
    requires
        0 < n <= z.tools.undo.entries.len(),
        m.is_snapshot(snap),
        z.tools.undo.entries[z.tools.undo.entries.len() - n] == with_writes(snap, w),
        same_memory(m, z.unwritten_back(z.tools.undo.entries, n)),
    ensures
        z.undone(n).cache == m.cache,
        z.undone(n).sysad == m.sysad,
        z.undone(n).core == m.core.found_by(z.core, m.cache.lladdr),
        z.undone(n).tools.undo.entries == z.tools.undo.entries.take(
            z.tools.undo.entries.len() - n,
        ),
{
    let e = z.tools.undo.entries;
    lemma_unwriting_back(z, e, n);
    assert(z.core.restored(with_writes(snap, w)) == m.core.found_by(z.core, m.cache.lladdr));
    assert(z.undone(n).cache =~= m.cache);
}

/// Law: undoing the last `n` instructions of a recorded run gives back all memory, the
/// processor as the first of them found it, and the undo buffer as it was before them.
/// The memory is main memory, and the undo buffer has room for the run.
pub proof fn law_undo_reverts_a_run<T: Tlb>(ms: Seq<Machine<T, DirectCache, Ram>>, n: nat)
    requires
        ms.len() == n + 1,
        n > 0,
        is_recorded_run(ms),
        ms[0].is_recording(),
        has_main_memory(ms[0]),
        ms[0].tools.undo.entries.len() + n <= ms[0].tools.undo.capacity,
    ensures
        ms[n as int].undoable(n),
        ({
            let m = ms[0];
            let u = ms[n as int].undone(n);
            &&& u.cache == m.cache
            &&& u.sysad == m.sysad
            &&& u.core == m.core.found_by(ms[n as int].core, m.cache.lladdr)
            &&& u.tools.undo.entries == m.tools.undo.entries
        }),
{
    let m = ms[0];
    let z = ms[n as int];
    lemma_run(ms, n as int, z);
    let k = m.tools.undo.entries.len() as int;
    let (w, snap) = choose|w: Vec<MemoryWrite>, snap: CpuSnapshot|
        {
            &&& #[trigger] m.is_snapshot(snap)
            &&& z.tools.undo.entries[k] == (#[trigger] with_writes(snap, w))
        };
    lemma_undone(m, z, n, snap, w);
}

} // verus!
