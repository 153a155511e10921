//! What is saved of the processor brings its state back.
use vstd::prelude::*;

use crate::bus::{BusDevice, MipsCache, Tlb};
use crate::cpu_core::MipsCore;
use crate::machine::Machine;
use crate::parse::{digit_value, digits_value, unsigned_part, without_0x};
use crate::saved_state::{loaded_list, number_in, saved32, saved64, saved_list};
use crate::text::{digit, hex_fixed};
use crate::toml_tree::{field_of, Tree};

verus! {

spec fn pow16(w: nat) -> nat
    decreases w,
{
    if w == 0 {
        1
    } else {
        16 * pow16((w - 1) as nat)
    }
}

proof fn lemma_hex_reads_back(v: nat, w: nat)
    requires
        v < pow16(w),
    ensures
        digits_value(hex_fixed(v, w), 16) == Some(v),
        hex_fixed(v, w).len() == w,
        forall|i: int|
            0 <= i < w ==> (#[trigger] hex_fixed(v, w)[i]) != 'x' && hex_fixed(v, w)[i] != '+',
    decreases w,
{
    if w > 0 {
        let s = hex_fixed(v, w);
        let d = (v % 16) as u64;
        lemma_hex_reads_back(v / 16, (w - 1) as nat);
        assert(s.drop_last() =~= hex_fixed(v / 16, (w - 1) as nat));
        assert(s.last() == digit(d));
        assert(digit_value(digit(d), 16) == Some(d as nat));
        assert(forall|i: int| 0 <= i < w - 1 ==> s[i] == hex_fixed(v / 16, (w - 1) as nat)[i]);
    }
}

proof fn lemma_number_reads_back(v: nat, w: nat, max: nat)
    requires
        v < pow16(w),
        w >= 2,
        v <= max,
    ensures
        number_in(Tree::Text("0x"@ + hex_fixed(v, w)), max) == Some(v),
{
    let h = hex_fixed(v, w);
    let s = "0x"@ + h;
    lemma_hex_reads_back(v, w);
    reveal_strlit("0x");
    assert(s[0] == '0' && s[1] == 'x');
    assert(s.skip(2) =~= h);
    assert(h[1] != 'x' && h[0] != '+');
    assert(without_0x(h) == h);
    assert(without_0x(s) == h);
    assert(unsigned_part(h) == h);
}

pub(crate) proof fn lemma_register_reads_back()
    ensures
        forall|v: u64| number_in(#[trigger] saved64(v), u64::MAX as nat) == Some(v as nat),
        forall|v: u32| number_in(#[trigger] saved32(v), u32::MAX as nat) == Some(v as nat),
{
    reveal_with_fuel(pow16, 17);
    assert(pow16(8) == 0x1_0000_0000);
    assert(pow16(16) == 0x1_0000_0000_0000_0000);
    assert forall|v: u64| number_in(#[trigger] saved64(v), u64::MAX as nat) == Some(v as nat) by {
        lemma_number_reads_back(v as nat, 16, u64::MAX as nat);
    }
    assert forall|v: u32| number_in(#[trigger] saved32(v), u32::MAX as nat) == Some(v as nat) by {
        lemma_number_reads_back(v as nat, 8, u32::MAX as nat);
    }
}

proof fn lemma_list_reads_back(s: Seq<u64>, was: Seq<u64>)
    requires
        s.len() == was.len(),
    ensures
        loaded_list(Some(saved_list(s)), was) == s,
{
    lemma_register_reads_back();
    assert(loaded_list(Some(saved_list(s)), was) =~= s);
}

/// What tells the names in a saved state apart: the length, and three of the letters.
spec fn mark(s: Seq<char>) -> (nat, char, char, char) {
    (s.len(), s[s.len() as int / 2], s[s.len() - 2], s.last())
}

/// Names of the system control registers.
proof fn lemma_cp0_keys()
    ensures
        mark("cp0_index"@) == (9nat, 'i', 'e', 'x'),
        mark("cp0_random"@) == (10nat, 'a', 'o', 'm'),
        mark("cp0_wired"@) == (9nat, 'w', 'e', 'd'),
        mark("cp0_count"@) == (9nat, 'c', 'n', 't'),
        mark("cp0_compare"@) == (11nat, 'o', 'r', 'e'),
        mark("count_hz"@) == (8nat, 't', 'h', 'z'),
        mark("compare_delta_slow"@) == (18nat, 'e', 'o', 'w'),
        mark("compare_delta_fast"@) == (18nat, 'e', 's', 't'),
        mark("cp0_status"@) == (10nat, 't', 'u', 's'),
        mark("cp0_cause"@) == (9nat, 'c', 's', 'e'),
        mark("cp0_prid"@) == (8nat, 'p', 'i', 'd'),
        mark("cp0_config"@) == (10nat, 'o', 'i', 'g'),
        mark("cp0_lladdr"@) == (10nat, 'l', 'd', 'r'),
        mark("cp0_watchlo"@) == (11nat, 'a', 'l', 'o'),
        mark("cp0_watchhi"@) == (11nat, 'a', 'h', 'i'),
        mark("cp0_ecc"@) == (7nat, '_', 'c', 'c'),
        mark("cp0_cacheerr"@) == (12nat, 'c', 'r', 'r'),
        mark("cp0_taglo"@) == (9nat, 't', 'l', 'o'),
        mark("cp0_taghi"@) == (9nat, 't', 'h', 'i'),
        mark("cp0_badvaddr"@) == (12nat, 'd', 'd', 'r'),
        mark("cp0_epc"@) == (7nat, '_', 'p', 'c'),
        mark("cp0_errorepc"@) == (12nat, 'r', 'p', 'c'),
        mark("cp0_entrylo0"@) == (12nat, 't', 'o', '0'),
        mark("cp0_entrylo1"@) == (12nat, 't', 'o', '1'),
        mark("cp0_context"@) == (11nat, 'o', 'x', 't'),
        mark("cp0_pagemask"@) == (12nat, 'g', 's', 'k'),
        mark("cp0_entryhi"@) == (11nat, 'n', 'h', 'i'),
        mark("cp0_xcontext"@) == (12nat, 'o', 'x', 't'),
{
    reveal_strlit("cp0_index");
    reveal_strlit("cp0_random");
    reveal_strlit("cp0_wired");
    reveal_strlit("cp0_count");
    reveal_strlit("cp0_compare");
    reveal_strlit("count_hz");
    reveal_strlit("compare_delta_slow");
    reveal_strlit("compare_delta_fast");
    reveal_strlit("cp0_status");
    reveal_strlit("cp0_cause");
    reveal_strlit("cp0_prid");
    reveal_strlit("cp0_config");
    reveal_strlit("cp0_lladdr");
    reveal_strlit("cp0_watchlo");
    reveal_strlit("cp0_watchhi");
    reveal_strlit("cp0_ecc");
    reveal_strlit("cp0_cacheerr");
    reveal_strlit("cp0_taglo");
    reveal_strlit("cp0_taghi");
    reveal_strlit("cp0_badvaddr");
    reveal_strlit("cp0_epc");
    reveal_strlit("cp0_errorepc");
    reveal_strlit("cp0_entrylo0");
    reveal_strlit("cp0_entrylo1");
    reveal_strlit("cp0_context");
    reveal_strlit("cp0_pagemask");
    reveal_strlit("cp0_entryhi");
    reveal_strlit("cp0_xcontext");
}

/// Names of the floating-point registers.
proof fn lemma_fpu_keys()
    ensures
        mark("fpr"@) == (3nat, 'p', 'p', 'r'),
        mark("fpu_fir"@) == (7nat, '_', 'i', 'r'),
        mark("fpu_fccr"@) == (8nat, 'f', 'c', 'r'),
        mark("fpu_fexr"@) == (8nat, 'f', 'x', 'r'),
        mark("fpu_fenr"@) == (8nat, 'f', 'n', 'r'),
        mark("fpu_fcsr"@) == (8nat, 'f', 's', 'r'),
{
    reveal_strlit("fpr");
    reveal_strlit("fpu_fir");
    reveal_strlit("fpu_fccr");
    reveal_strlit("fpu_fexr");
    reveal_strlit("fpu_fenr");
    reveal_strlit("fpu_fcsr");
}

/// Names of the parts of a saved state.
proof fn lemma_state_keys()
    ensures
        mark("gpr"@) == (3nat, 'p', 'p', 'r'),
        mark("pc"@) == (2nat, 'c', 'p', 'c'),
        mark("hi"@) == (2nat, 'i', 'h', 'i'),
        mark("lo"@) == (2nat, 'o', 'l', 'o'),
        mark("cp0"@) == (3nat, 'p', 'p', '0'),
        mark("fpu"@) == (3nat, 'p', 'p', 'u'),
        mark("in_delay_slot"@) == (13nat, 'a', 'o', 't'),
        mark("delay_slot_target"@) == (17nat, 'o', 'e', 't'),
        mark("tlb"@) == (3nat, 'l', 'l', 'b'),
        mark("cache"@) == (5nat, 'c', 'h', 'e'),
{
    reveal_strlit("gpr");
    reveal_strlit("pc");
    reveal_strlit("hi");
    reveal_strlit("lo");
    reveal_strlit("cp0");
    reveal_strlit("fpu");
    reveal_strlit("in_delay_slot");
    reveal_strlit("delay_slot_target");
    reveal_strlit("tlb");
    reveal_strlit("cache");
}

proof fn lemma_cp0_reads_back(c: MipsCore, was: MipsCore)
    requires
        c.cp0_count <= u32::MAX,
        c.cp0_compare <= u32::MAX,
        c.compare_delta_slow <= u32::MAX,
        c.compare_delta_fast <= u32::MAX,
    ensures
        was.cp0_loaded(Tree::Table(c.saved_cp0())) == (MipsCore {
            cp0_index: c.cp0_index,
            cp0_random: c.cp0_random,
            cp0_wired: c.cp0_wired,
            cp0_count: c.cp0_count,
            cp0_compare: c.cp0_compare,
            count_hz: c.count_hz,
            compare_delta_slow: c.compare_delta_slow,
            compare_delta_fast: c.compare_delta_fast,
            cp0_status: c.cp0_status,
            cp0_cause: c.cp0_cause,
            cp0_prid: c.cp0_prid,
            cp0_config: c.cp0_config,
            cp0_lladdr: c.cp0_lladdr,
            cp0_watchlo: c.cp0_watchlo,
            cp0_watchhi: c.cp0_watchhi,
            cp0_ecc: c.cp0_ecc,
            cp0_cacheerr: c.cp0_cacheerr,
            cp0_taglo: c.cp0_taglo,
            cp0_taghi: c.cp0_taghi,
            cp0_badvaddr: c.cp0_badvaddr,
            cp0_epc: c.cp0_epc,
            cp0_errorepc: c.cp0_errorepc,
            cp0_entrylo0: c.cp0_entrylo0,
            cp0_entrylo1: c.cp0_entrylo1,
            cp0_context: c.cp0_context,
            cp0_pagemask: c.cp0_pagemask,
            cp0_entryhi: c.cp0_entryhi,
            cp0_xcontext: c.cp0_xcontext,
            ..was
        }),
{
    lemma_register_reads_back();
    lemma_cp0_keys();
    let m = c.saved_cp0();
    assert(m.contains_key("cp0_index"@) && m["cp0_index"@] == saved32(c.cp0_index));
    assert(m.contains_key("cp0_random"@) && m["cp0_random"@] == saved32(c.cp0_random));
    assert(m.contains_key("cp0_wired"@) && m["cp0_wired"@] == saved32(c.cp0_wired));
    assert(m.contains_key("cp0_count"@) && m["cp0_count"@] == saved64(c.cp0_count));
    assert(m.contains_key("cp0_compare"@) && m["cp0_compare"@] == saved64(c.cp0_compare));
    assert(m.contains_key("count_hz"@) && m["count_hz"@] == saved64(c.count_hz));
    assert(m.contains_key("compare_delta_slow"@) && m["compare_delta_slow"@] == saved64(c.compare_delta_slow));
    assert(m.contains_key("compare_delta_fast"@) && m["compare_delta_fast"@] == saved64(c.compare_delta_fast));
    assert(m.contains_key("cp0_status"@) && m["cp0_status"@] == saved32(c.cp0_status));
    assert(m.contains_key("cp0_cause"@) && m["cp0_cause"@] == saved32(c.cp0_cause));
    assert(m.contains_key("cp0_prid"@) && m["cp0_prid"@] == saved32(c.cp0_prid));
    assert(m.contains_key("cp0_config"@) && m["cp0_config"@] == saved32(c.cp0_config));
    assert(m.contains_key("cp0_lladdr"@) && m["cp0_lladdr"@] == saved32(c.cp0_lladdr));
    assert(m.contains_key("cp0_watchlo"@) && m["cp0_watchlo"@] == saved32(c.cp0_watchlo));
    assert(m.contains_key("cp0_watchhi"@) && m["cp0_watchhi"@] == saved32(c.cp0_watchhi));
    assert(m.contains_key("cp0_ecc"@) && m["cp0_ecc"@] == saved32(c.cp0_ecc));
    assert(m.contains_key("cp0_cacheerr"@) && m["cp0_cacheerr"@] == saved32(c.cp0_cacheerr));
    assert(m.contains_key("cp0_taglo"@) && m["cp0_taglo"@] == saved32(c.cp0_taglo));
    assert(m.contains_key("cp0_taghi"@) && m["cp0_taghi"@] == saved32(c.cp0_taghi));
    assert(m.contains_key("cp0_badvaddr"@) && m["cp0_badvaddr"@] == saved64(c.cp0_badvaddr));
    assert(m.contains_key("cp0_epc"@) && m["cp0_epc"@] == saved64(c.cp0_epc));
    assert(m.contains_key("cp0_errorepc"@) && m["cp0_errorepc"@] == saved64(c.cp0_errorepc));
    assert(m.contains_key("cp0_entrylo0"@) && m["cp0_entrylo0"@] == saved64(c.cp0_entrylo0));
    assert(m.contains_key("cp0_entrylo1"@) && m["cp0_entrylo1"@] == saved64(c.cp0_entrylo1));
    assert(m.contains_key("cp0_context"@) && m["cp0_context"@] == saved64(c.cp0_context));
    assert(m.contains_key("cp0_pagemask"@) && m["cp0_pagemask"@] == saved64(c.cp0_pagemask));
    assert(m.contains_key("cp0_entryhi"@) && m["cp0_entryhi"@] == saved64(c.cp0_entryhi));
    assert(m.contains_key("cp0_xcontext"@) && m["cp0_xcontext"@] == saved64(c.cp0_xcontext));
}

proof fn lemma_fpu_reads_back(c: MipsCore, was: MipsCore)
    ensures
        was.fpu_loaded(Tree::Table(c.saved_fpu())) == (MipsCore {
            fpu_fir: c.fpu_fir,
            fpu_fccr: c.fpu_fccr,
            fpu_fexr: c.fpu_fexr,
            fpu_fenr: c.fpu_fenr,
            fpu_fcsr: c.fpu_fcsr,
            ..was
        }),
        field_of(Tree::Table(c.saved_fpu()), "fpr"@) == Some(saved_list(c.fpr@)),
{
    lemma_register_reads_back();
    lemma_fpu_keys();
}

/// Law: loading what was saved brings the registers, the TLB and the caches back. What
/// is not saved stays: pending interrupts, counters of the emulation, remembered
/// translations. Counters above 32 bits are left out, since such are taken for
/// fixed-point numbers.
pub proof fn law_saved_state_loads_back<T: Tlb, C: MipsCache, B: BusDevice>(
    m: Machine<T, C, B>,
    before: Machine<T, C, B>,
    after: Machine<T, C, B>,
)
    requires
        before.is_loaded(m.saved(), after),
        T::same_shape(m.tlb, before.tlb),
        C::same_shape(m.cache, before.cache),
        m.core.cp0_count <= u32::MAX,
        m.core.cp0_compare <= u32::MAX,
        m.core.compare_delta_slow <= u32::MAX,
        m.core.compare_delta_fast <= u32::MAX,
    ensures
        before.load_error(m.saved()) is None,
        after.tlb == m.tlb,
        after.cache == m.cache,
        after.core.gpr@ == m.core.gpr@,
        after.core.fpr@ == m.core.fpr@,
        after.core == (MipsCore {
            gpr: after.core.gpr,
            fpr: after.core.fpr,
            running: before.core.running,
            halted: before.core.halted,
            nanotlb_fetch: before.core.nanotlb_fetch,
            nanotlb_read: before.core.nanotlb_read,
            nanotlb_write: before.core.nanotlb_write,
            code_page: before.core.code_page,
            interrupts: before.core.interrupts,
            cycles: before.core.cycles,
            jit_trigger: before.core.jit_trigger,
            tlb_entries: before.core.tlb_entries,
            ..m.core
        }),
{
    let c = m.core;
    let t = m.saved();
    lemma_register_reads_back();
    lemma_state_keys();
    T::saved_loads_back(m.tlb, before.tlb);
    C::saved_loads_back(m.cache, before.cache);
    assert(field_of(t, "tlb"@) == Some(T::saved(m.tlb)));
    assert(field_of(t, "cache"@) == Some(C::saved(m.cache)));
    assert(field_of(t, "gpr"@) == Some(saved_list(c.gpr@)));
    assert(field_of(t, "pc"@) == Some(saved64(c.pc)));
    assert(field_of(t, "hi"@) == Some(saved64(c.hi)));
    assert(field_of(t, "lo"@) == Some(saved64(c.lo)));
    assert(field_of(t, "cp0"@) == Some(Tree::Table(c.saved_cp0())));
    assert(field_of(t, "fpu"@) == Some(Tree::Table(c.saved_fpu())));
    assert(field_of(t, "in_delay_slot"@) == Some(Tree::Bool(c.in_delay_slot)));
    assert(field_of(t, "delay_slot_target"@) == Some(saved64(c.delay_slot_target)));
    lemma_cp0_reads_back(c, before.core);
    lemma_fpu_reads_back(c, before.core.cp0_loaded(Tree::Table(c.saved_cp0())));
    lemma_list_reads_back(c.gpr@, before.core.gpr@);
    lemma_list_reads_back(c.fpr@, before.core.fpr@);
}

} // verus!
