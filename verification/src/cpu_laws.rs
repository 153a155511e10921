//! What the processor promises to the programs that run on it.
use vstd::prelude::*;

use crate::alu::{alu_result, branch_of, hi_lo_result, trap_condition};
use crate::bus::{BusDevice, MipsCache, Tlb};
use crate::cpu_core::{
    AccessType, MipsCore, PrivilegeMode, CAUSE_BD, CAUSE_EXCCODE_MASK, STATUS_ERL, STATUS_EXL,
};
use crate::fpu::{is_cop1, Step};
use crate::instr::{DecodedInstr, InstrHandler};
use crate::loadstore::{fused_address, load_size, part_load_size, part_store, store_size};
use crate::machine::{route32, route64, Machine};
use crate::status::{ExecStatus, EXC_RI, EXEC_COMPLETE, EXEC_IS_EXCEPTION};

verus! {

/// Law: in 32-bit addressing, user programs reach the lower half of the space alone,
/// supervisor programs the supervisor segment as well, and only the kernel the rest.
pub proof fn law_segments_keep_privileges_32(va: u64, erl: bool)
    ensures
        ({
            let segment = (va as u32) >> 29;
            &&& (route32(va, PrivilegeMode::User, erl) is Denied) == (segment >= 4)
            &&& (route32(va, PrivilegeMode::Supervisor, erl) is Denied) == (segment >= 4 && segment
                != 6)
            &&& !(route32(va, PrivilegeMode::Kernel, erl) is Denied)
        }),
{
}

/// Law: in 64-bit addressing, user programs reach the 40 bits of user space alone,
/// supervisor programs the supervisor segment as well, and only the kernel the rest. A
/// less privileged program never reaches physical memory unmapped, but for user space at
/// error level.
pub proof fn law_segments_keep_privileges_64(va: u64, erl: bool)
    ensures
        (route64(va, PrivilegeMode::User, erl) is Denied) == (va >> 62 != 0 || va >> 40 != 0),
        (route64(va, PrivilegeMode::Supervisor, erl) is Denied) == (va >> 62 >= 2 || (va >> 62 == 0
            && va >> 40 != 0)),
        route64(va, PrivilegeMode::User, erl) is Unmapped ==> erl,
        route64(va, PrivilegeMode::Supervisor, erl) is Unmapped ==> erl,
{
}

/// Law: a less privileged program finds no address that a more privileged one does not.
pub proof fn law_privilege_only_adds(va: u64, erl: bool)
    ensures
        !(route32(va, PrivilegeMode::User, erl) is Denied) ==> route32(
            va,
            PrivilegeMode::Supervisor,
            erl,
        ) == route32(va, PrivilegeMode::User, erl),
        !(route32(va, PrivilegeMode::Supervisor, erl) is Denied) ==> route32(
            va,
            PrivilegeMode::Kernel,
            erl,
        ) == route32(va, PrivilegeMode::Supervisor, erl),
        !(route64(va, PrivilegeMode::User, erl) is Denied) ==> route64(
            va,
            PrivilegeMode::Supervisor,
            erl,
        ) == route64(va, PrivilegeMode::User, erl),
        !(route64(va, PrivilegeMode::Supervisor, erl) is Denied) ==> route64(
            va,
            PrivilegeMode::Kernel,
            erl,
        ) == route64(va, PrivilegeMode::Supervisor, erl),
{
}

proof fn lemma_status_bits(s: u32, c: u32, code: u32)
    ensures
        (s | 2) & 2 != 0,
        s & 2 != 0 ==> s & (2u32 | 4u32) != 0,
        (s & 0x7) & 0x7 == s & 0x7,
        ((s | 2) & !2) & 2 == 0,
        s & 2 == 0 ==> (s | 2) & !2 == s,
        (s | 2) & 4 == s & 4,
        (c | 0x8000_0000u32) & 0x8000_0000u32 != 0,
        (c & !0x8000_0000u32) & 0x8000_0000u32 == 0,
        ((c & !0x7Cu32) | (code & 0x7C)) & 0x7C == code & 0x7C,
        (((c & !0x7Cu32) | (code & 0x7C)) | 0x8000_0000u32) & 0x7C == code & 0x7C,
        (((c & !0x7Cu32) | (code & 0x7C)) & !0x8000_0000u32) & 0x7C == code & 0x7C,
{
    crate::bits::lemma_single_bits(s, c, code);
}

/// Law: an exception outside exception level raises the processor to it, notes its code
/// and where it happened, and takes effect before the instruction: execution is to
/// resume at that instruction, or at the branch before it where it sits in a delay slot,
/// which Cause.BD tells.
pub proof fn law_exceptions_note_where_they_happen(c: MipsCore, status: ExecStatus)
    ensures
        ({
            let e = c.after_exception(status);
            &&& e.cp0_status & STATUS_EXL != 0
            &&& e.privilege() == PrivilegeMode::Kernel
            &&& e.cp0_cause & CAUSE_EXCCODE_MASK == status & CAUSE_EXCCODE_MASK
            &&& !e.in_delay_slot
            &&& e.gpr == c.gpr && e.hi == c.hi && e.lo == c.lo && e.fpr == c.fpr
            &&& c.cp0_status & STATUS_EXL == 0 ==> {
                &&& e.cp0_epc == if c.in_delay_slot {
                    c.pc.wrapping_sub(4)
                } else {
                    c.pc
                }
                &&& (e.cp0_cause & CAUSE_BD != 0) == c.in_delay_slot
            }
            &&& c.cp0_status & STATUS_EXL != 0 ==> e.cp0_epc == c.cp0_epc
        }),
{
    lemma_status_bits(c.cp0_status, c.cp0_cause, status);
    lemma_status_bits(
        c.cp0_status,
        (c.cp0_cause & !CAUSE_EXCCODE_MASK) | (status & CAUSE_EXCCODE_MASK),
        status,
    );
    lemma_status_bits(c.cp0_status | STATUS_EXL, 0, 0);
}

/// Law: the return from an exception brings the processor back to where the exception
/// took it from, at the privilege and with the registers that it had.
pub proof fn law_return_undoes_an_exception(c: MipsCore, status: ExecStatus)
    requires
        c.cp0_status & STATUS_EXL == 0,
        c.cp0_status & STATUS_ERL == 0,
    ensures
        ({
            let r = c.after_exception(status).returned();
            &&& r.pc == if c.in_delay_slot {
                c.pc.wrapping_sub(4)
            } else {
                c.pc
            }
            &&& r.cp0_status == c.cp0_status
            &&& r.privilege() == c.privilege()
            &&& r.gpr == c.gpr && r.hi == c.hi && r.lo == c.lo && r.fpr == c.fpr
            &&& !r.in_delay_slot
        }),
{
    lemma_status_bits(c.cp0_status, c.cp0_cause, status);
}

proof fn lemma_page_parts(va: u64, phys: u32)
    ensures
        ((phys as u64 & !0xFFFu64) | (va & 0xFFF)) as u32 == (phys & !0xFFFu32) | ((va
            & 0xFFF) as u32),
        phys & 0xFFF == (va & 0xFFF) as u32 ==> ((phys as u64 & !0xFFFu64) | (va & 0xFFF)) as u32
            == phys,
{
    crate::bits::lemma_bits_of_both(va, phys);
}

/// Law: a translation that succeeded is remembered. Asking for the same address again
/// gives the same place, if the translation left the offset in the page alone, and
/// changes nothing.
pub proof fn law_translations_are_remembered<T: Tlb, C: MipsCache, B: BusDevice>(
    m: Machine<T, C, B>,
    at: AccessType,
    va: u64,
)
    requires
        at != AccessType::Debug,
        !m.nano_translate(at, va).0.spec_is_exception(),
        m.nano_translate(at, va).0.phys & 0xFFF == (va & 0xFFF) as u32,
    ensures
        ({
            let (r, n) = m.nano_translate(at, va);
            &&& n.nano_translate(at, va).1 == n
            &&& n.nano_translate(at, va).0.phys == r.phys
            &&& n.nano_translate(at, va).0.status & 0x7 == r.status & 0x7
        }),
{
    reveal(Machine::nano_translate);
    let (r, n) = m.nano_translate(at, va);
    lemma_page_parts(va, r.phys);
    lemma_status_bits(r.status, 0, 0);
}

/// Law: forgetting translations forgets all of them, so that the next access of each
/// kind asks the TLB.
pub proof fn law_forgotten_translations_are_asked_again<T: Tlb, C: MipsCache, B: BusDevice>(
    m: Machine<T, C, B>,
    at: AccessType,
    va: u64,
)
    ensures
        ({
            let n = m.with_core(m.core.without_nanotlb());
            n.nano_translate(at, va).0 == n.translate(false, va, at).0
        }),
{
    reveal(Machine::nano_translate);
}

/// Law: a conditional store without a link stores nothing and says so. One that is
/// refused for its address breaks the link, and one that is done does too.
pub proof fn law_conditional_stores_need_their_link<T: Tlb, C: MipsCache, B: BusDevice>(
    m: Machine<T, C, B>,
    d: DecodedInstr,
    size: usize,
)
    requires
        d.rt < 32,
    ensures
        !C::llbit(m.cache) ==> {
            let (s, n) = m.store_conditional(d, size);
            &&& s == EXEC_COMPLETE
            &&& d.rt != 0 ==> n.core.gpr_at(d.rt) == 0
            &&& n.cache == m.cache && n.sysad == m.sysad && n.tlb == m.tlb
        },
        C::llbit(m.cache) ==> {
            let (tr, t) = m.nano_translate(AccessType::Write, m.core.effective(d));
            let (s, n) = m.store_conditional(d, size);
            let refused = !tr.spec_is_exception() && (tr.phys as u64) & !0xF != (C::lladdr(
                t.cache,
            ) as u64) << 4;
            refused ==> {
                &&& s == EXEC_COMPLETE
                &&& d.rt != 0 ==> n.core.gpr_at(d.rt) == 0
                &&& !C::llbit(n.cache)
                &&& n.sysad == t.sysad
            }
        },
{
    let t = m.nano_translate(AccessType::Write, m.core.effective(d)).1;
    C::link_registers(t.cache, false, 0);
}

/// Law: a conditional store that is done breaks the link and says so.
pub proof fn law_done_conditional_stores_break_the_link<T: Tlb, C: MipsCache, B: BusDevice>(
    m: Machine<T, C, B>,
    d: DecodedInstr,
    size: usize,
    va: u64,
)
    requires
        d.rt < 32,
        m.write_data(false, size, va, m.core.gpr_at(d.rt)).0 == EXEC_COMPLETE,
    ensures
        ({
            let (s, n) = m.store_linked(d, size, va);
            &&& s == EXEC_COMPLETE
            &&& !C::llbit(n.cache)
            &&& d.rt != 0 ==> n.core.gpr_at(d.rt) == 1
        }),
{
    let n = m.write_data(false, size, va, m.core.gpr_at(d.rt)).1;
    C::link_registers(n.cache, false, 0);
    assert(EXEC_COMPLETE & EXEC_IS_EXCEPTION == 0) by {
        crate::status::law_tags_and_bus_errors();
    }
}

/// Law: a load that links leaves the link set to its address.
pub proof fn law_linked_loads_set_the_link<T: Tlb, C: MipsCache, B: BusDevice>(
    m: Machine<T, C, B>,
    block: u32,
)
    ensures
        C::llbit(m.link(block).cache),
        C::lladdr(m.link(block).cache) == block,
        m.link(block).core.cp0_lladdr == block,
{
    C::link_registers(C::with_lladdr(m.cache, block), true, block);
    C::link_registers(m.cache, true, block);
}

/// Instructions that access memory, but for those of the floating-point coprocessor.
pub open spec fn is_memory_instruction(h: InstrHandler) -> bool {
    ||| load_size(h) is Some
    ||| store_size(h) is Some
    ||| part_load_size(h) is Some
    ||| part_store(h, 0, 0) is Some
    ||| h == InstrHandler::AdduLs || h == InstrHandler::SubuLs || h == InstrHandler::AddiuLs
    ||| h == InstrHandler::Ll || h == InstrHandler::Lld || h == InstrHandler::Sc || h
        == InstrHandler::Scd
}

/// Instructions of the system control coprocessor.
pub open spec fn is_system_instruction(h: InstrHandler) -> bool {
    h == InstrHandler::Cop0 || h == InstrHandler::Cache
}

pub(crate) proof fn lemma_not_integer<T: Tlb, C: MipsCache, B: BusDevice>(
    m: Machine<T, C, B>,
    d: DecodedInstr,
)
    requires
        is_memory_instruction(d.handler) || is_cop1(d.handler) || is_system_instruction(d.handler),
    ensures
        m.integer(d) is None,
{
    let c = m.core;
    let a = c.gpr_at(d.rs);
    let b = c.gpr_at(d.rt);
    assert(alu_result(d, a, b) is None);
    assert(hi_lo_result(d.handler, a, b, c.hi, c.lo) is None);
    assert(trap_condition(d, a, b) is None);
    assert(branch_of(d.handler, a, b) is None);
    assert(c.jump(d) is None);
    assert(c.moved(d) is None);
    assert(m.jump_or_move(d) is None);
}

pub(crate) proof fn lemma_memory_family<T: Tlb, C: MipsCache, B: BusDevice>(
    m: Machine<T, C, B>,
    d: DecodedInstr,
)
    ensures
        m.memory(d) is Some == is_memory_instruction(d.handler),
{
    let a = m.core.gpr_at(d.rs);
    let b = m.core.gpr_at(d.rt);
    assert(part_store(d.handler, b, m.core.effective(d)) is Some == part_store(
        d.handler,
        0,
        0,
    ) is Some);
    assert(fused_address(d, a, b) is Some == (d.handler == InstrHandler::AdduLs || d.handler
        == InstrHandler::SubuLs || d.handler == InstrHandler::AddiuLs));
}

/// Law: each instruction belongs to one family at most: integer, memory, floating-point
/// or system. One that belongs to none is refused as a reserved instruction.
pub proof fn law_each_instruction_has_one_family<T: Tlb, C: MipsCache, B: BusDevice>(
    m: Machine<T, C, B>,
    d: DecodedInstr,
)
    ensures
        m.integer(d) is Some ==> m.memory(d) is None && !is_cop1(d.handler) && m.system(d) is None,
        m.memory(d) is Some ==> !is_cop1(d.handler) && m.system(d) is None,
        is_cop1(d.handler) ==> m.system(d) is None,
        m.integer(d) is None && m.memory(d) is None && !is_cop1(d.handler) && m.system(d) is None
            ==> m.execute(d) == (Step::Done(m.trap(EXC_RI).0), m.trap(EXC_RI).1),
{
    reveal(Machine::execute);
    lemma_memory_family(m, d);
    if is_memory_instruction(d.handler) || is_cop1(d.handler) || is_system_instruction(
        d.handler,
    ) {
        lemma_not_integer(m, d);
    }
}

/// Law: programs without the privilege cannot operate the caches: the instruction ends in
/// an exception that names coprocessor 0, and does nothing else.
pub proof fn law_cache_instructions_need_privilege<T: Tlb, C: MipsCache, B: BusDevice>(
    m: Machine<T, C, B>,
    d: DecodedInstr,
)
    requires
        !m.cop0_usable(),
        d.handler == InstrHandler::Cache,
    ensures
        m.execute(d) == (
            Step::Done(m.coprocessor_unusable(0).0),
            m.coprocessor_unusable(0).1,
        ),
        m.execute(d).1.cache == C::with_llbit(m.cache, false),
{
    reveal(Machine::execute);
    lemma_memory_family(m, d);
    lemma_not_integer(m, d);
}

/// Law: without the floating-point coprocessor each of its instructions ends in an
/// exception that names coprocessor 1, and does nothing else.
pub proof fn law_float_instructions_need_their_coprocessor<T: Tlb, C: MipsCache, B: BusDevice>(
    m: Machine<T, C, B>,
    d: DecodedInstr,
)
    requires
        !m.core.cop1_usable(),
        is_cop1(d.handler),
    ensures
        m.execute(d) == (
            Step::Done(m.coprocessor_unusable(1).0),
            m.coprocessor_unusable(1).1,
        ),
        m.execute(d).1.core.fpr == m.core.fpr,
        m.execute(d).1.core.fpu_fcsr == m.core.fpu_fcsr,
{
    reveal(Machine::execute);
    lemma_memory_family(m, d);
    lemma_not_integer(m, d);
}

} // verus!
