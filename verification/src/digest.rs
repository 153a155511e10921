//! Digests of the processor's state, for the comparison of two runs.
use vstd::prelude::*;
use vstd::string::StringExecFns;

use crate::bus::{BusDevice, MipsCache, Tlb};
use crate::cpu_core::MipsCore;
use crate::machine::MipsExecutor;
use crate::status::ExecStatus;
use crate::text::{dec, hex_fixed, put, put_dec, put_hex_fixed};
use crate::tools::{HwRead, Tools};

verus! {

/// The registers that follow from the initial state alone. Counters of host time and of
/// cycles are left out.
pub struct CpuStateDigest {
    pub gpr: [u64; 32],
    pub pc: u64,
    pub hi: u64,
    pub lo: u64,
    pub cp0_count: u64,
    pub cp0_compare: u64,
    pub cp0_status: u32,
    pub cp0_cause: u32,
    pub cp0_epc: u64,
    pub cp0_badvaddr: u64,
    pub cp0_entryhi: u64,
    pub count_hz: u64,
    pub in_delay_slot: bool,
    /// Reads of time-driven registers: an input of the run, not compared.
    pub hw_reads: Vec<HwRead>,
    /// What the step that led here came to.
    pub step_status: u32,
}

/// A difference: the field, and its two values.
pub type Difference = (String, String, String);

/// A difference as a mathematical value.
pub type DifferenceView = (Seq<char>, Seq<char>, Seq<char>);

pub open spec fn hex64(v: u64) -> Seq<char> {
    "0x"@ + hex_fixed(v as nat, 16)
}

pub open spec fn hex32(v: u32) -> Seq<char> {
    "0x"@ + hex_fixed(v as nat, 8)
}

pub open spec fn bool_text(b: bool) -> Seq<char> {
    if b {
        "true"@
    } else {
        "false"@
    }
}

pub open spec fn gpr_label(i: int) -> Seq<char> {
    "gpr["@ + dec(i as nat) + "]"@
}

/// The differences of the first `n` registers.
pub open spec fn gpr_differences(a: Seq<u64>, b: Seq<u64>, n: int) -> Seq<DifferenceView>
    decreases n,
{
    if n <= 0 {
        Seq::empty()
    } else {
        let d = gpr_differences(a, b, n - 1);
        if a[n - 1] != b[n - 1] {
            d.push((gpr_label(n - 1), hex64(a[n - 1]), hex64(b[n - 1])))
        } else {
            d
        }
    }
}

/// One difference, if the texts are of different values.
pub open spec fn differing(differs: bool, name: Seq<char>, a: Seq<char>, b: Seq<char>) -> Seq<
    DifferenceView,
> {
    if differs {
        seq![(name, a, b)]
    } else {
        Seq::empty()
    }
}

impl CpuStateDigest {
    /// Every field that differs, in the order of the fields.
    pub open spec fn differences(&self, o: &CpuStateDigest) -> Seq<DifferenceView> {
        self.and_differences(o, gpr_differences(self.gpr@, o.gpr@, 32))
    }

    /// The differences `d`, and after them those of the fields but for the registers.
    pub open spec fn and_differences(&self, o: &CpuStateDigest, d: Seq<DifferenceView>) -> Seq<
        DifferenceView,
    > {
        d + differing(self.pc != o.pc, "pc"@, hex64(self.pc), hex64(o.pc)) + differing(
            self.hi != o.hi,
            "hi"@,
            hex64(self.hi),
            hex64(o.hi),
        ) + differing(self.lo != o.lo, "lo"@, hex64(self.lo), hex64(o.lo)) + differing(
            self.cp0_count != o.cp0_count,
            "cp0_count"@,
            hex64(self.cp0_count),
            hex64(o.cp0_count),
        ) + differing(
            self.cp0_compare != o.cp0_compare,
            "cp0_compare"@,
            hex64(self.cp0_compare),
            hex64(o.cp0_compare),
        ) + differing(
            self.cp0_status != o.cp0_status,
            "cp0_status"@,
            hex32(self.cp0_status),
            hex32(o.cp0_status),
        ) + differing(
            self.cp0_cause != o.cp0_cause,
            "cp0_cause"@,
            hex32(self.cp0_cause),
            hex32(o.cp0_cause),
        ) + differing(
            self.cp0_epc != o.cp0_epc,
            "cp0_epc"@,
            hex64(self.cp0_epc),
            hex64(o.cp0_epc),
        ) + differing(
            self.cp0_badvaddr != o.cp0_badvaddr,
            "cp0_badvaddr"@,
            hex64(self.cp0_badvaddr),
            hex64(o.cp0_badvaddr),
        ) + differing(
            self.cp0_entryhi != o.cp0_entryhi,
            "cp0_entryhi"@,
            hex64(self.cp0_entryhi),
            hex64(o.cp0_entryhi),
        ) + differing(
            self.count_hz != o.count_hz,
            "count_hz"@,
            dec(self.count_hz as nat),
            dec(o.count_hz as nat),
        ) + differing(
            self.in_delay_slot != o.in_delay_slot,
            "in_delay_slot"@,
            bool_text(self.in_delay_slot),
            bool_text(o.in_delay_slot),
        ) + differing(
            self.step_status != o.step_status,
            "step_status"@,
            hex32(self.step_status),
            hex32(o.step_status),
        )
    }

    /// The compared fields are all the same.
    pub open spec fn same(&self, o: &CpuStateDigest) -> bool {
        &&& self.gpr@ == o.gpr@
        &&& self.pc == o.pc && self.hi == o.hi && self.lo == o.lo
        &&& self.cp0_count == o.cp0_count && self.cp0_compare == o.cp0_compare
        &&& self.cp0_status == o.cp0_status && self.cp0_cause == o.cp0_cause
        &&& self.cp0_epc == o.cp0_epc && self.cp0_badvaddr == o.cp0_badvaddr
        &&& self.cp0_entryhi == o.cp0_entryhi && self.count_hz == o.count_hz
        &&& self.in_delay_slot == o.in_delay_slot && self.step_status == o.step_status
    }
}

proof fn lemma_gpr_differences(a: Seq<u64>, b: Seq<u64>, n: int)
    requires
        0 <= n <= a.len(),
        a.len() == b.len(),
    ensures
        gpr_differences(a, b, n).len() == 0 <==> (forall|i: int| 0 <= i < n ==> a[i] == b[i]),
    decreases n,
{
    if n > 0 {
        lemma_gpr_differences(a, b, n - 1);
    }
}

/// Law: two digests have no differences exactly if all compared fields are the same.
pub proof fn law_no_differences_means_same(a: CpuStateDigest, b: CpuStateDigest)
    ensures
        a.differences(&b).len() == 0 <==> a.same(&b),
{
    lemma_gpr_differences(a.gpr@, b.gpr@, 32);
    if a.differences(&b).len() == 0 {
        assert(a.gpr@ =~= b.gpr@);
    }
}

/// The views of a list of differences.
pub open spec fn views(v: Seq<Difference>) -> Seq<DifferenceView> {
    Seq::new(v.len(), |i: int| (v[i].0@, v[i].1@, v[i].2@))
}

fn hex64_text(v: u64) -> (s: String)
    ensures
        s@ == hex64(v),
{
    let mut s: String = "0x".to_string();
    put_hex_fixed(&mut s, v, 16);
    s
}

fn hex32_text(v: u32) -> (s: String)
    ensures
        s@ == hex32(v),
{
    let mut s: String = "0x".to_string();
    put_hex_fixed(&mut s, v as u64, 8);
    s
}

fn dec_text(v: u64) -> (s: String)
    ensures
        s@ == dec(v as nat),
{
    let mut s: String = String::new();
    put_dec(&mut s, v);
    assert(s@ =~= dec(v as nat));
    s
}

fn flag_text(b: bool) -> (s: String)
    ensures
        s@ == bool_text(b),
{
    if b {
        "true".to_string()
    } else {
        "false".to_string()
    }
}

fn add_difference(out: &mut Vec<Difference>, name: &str, a: String, b: String)
    ensures
        views(final(out)@) == views(old(out)@) + seq![(name@, a@, b@)],
{
    out.push((name.to_string(), a, b));
    assert(views(out@) =~= views(old(out)@) + seq![(name@, a@, b@)]);
}

fn compare64(out: &mut Vec<Difference>, name: &str, a: u64, b: u64)
    ensures
        views(final(out)@) == views(old(out)@) + differing(a != b, name@, hex64(a), hex64(b)),
{
    if a != b {
        add_difference(out, name, hex64_text(a), hex64_text(b));
    }
    assert(views(out@) =~= views(old(out)@) + differing(a != b, name@, hex64(a), hex64(b)));
}

fn compare32(out: &mut Vec<Difference>, name: &str, a: u32, b: u32)
    ensures
        views(final(out)@) == views(old(out)@) + differing(a != b, name@, hex32(a), hex32(b)),
{
    if a != b {
        add_difference(out, name, hex32_text(a), hex32_text(b));
    }
    assert(views(out@) =~= views(old(out)@) + differing(a != b, name@, hex32(a), hex32(b)));
}

impl CpuStateDigest {
    /// Every field that differs, as its name and its two values. The list is empty if
    /// the states are the same.
    pub fn diff(&self, other: &CpuStateDigest) -> (out: Vec<Difference>)
        ensures
            views(out@) == self.differences(other),
    {
        let mut out: Vec<Difference> = Vec::new();
        let mut i: usize = 0;
        assert(views(out@) =~= gpr_differences(self.gpr@, other.gpr@, 0));
        while i < 32
            invariant
                i <= 32,
                views(out@) == gpr_differences(self.gpr@, other.gpr@, i as int),
            decreases 32 - i,
        {
            if self.gpr[i] != other.gpr[i] {
                let mut name: String = "gpr[".to_string();
                put_dec(&mut name, i as u64);
                put(&mut name, "]");
                let ghost before = out@;
                out.push((name, hex64_text(self.gpr[i]), hex64_text(other.gpr[i])));
                assert(views(out@) =~= views(before).push(
                    (
                        gpr_label(i as int),
                        hex64(self.gpr@[i as int]),
                        hex64(other.gpr@[i as int]),
                    ),
                ));
            }
            i = i + 1;
        }
        self.diff_fields(other, &mut out);
        out
    }

    fn diff_fields(&self, other: &CpuStateDigest, out: &mut Vec<Difference>)
        ensures
            views(final(out)@) == self.and_differences(other, views(old(out)@)),
    {
        compare64(out, "pc", self.pc, other.pc);
        compare64(out, "hi", self.hi, other.hi);
        compare64(out, "lo", self.lo, other.lo);
        compare64(out, "cp0_count", self.cp0_count, other.cp0_count);
        compare64(out, "cp0_compare", self.cp0_compare, other.cp0_compare);
        compare32(out, "cp0_status", self.cp0_status, other.cp0_status);
        compare32(out, "cp0_cause", self.cp0_cause, other.cp0_cause);
        compare64(out, "cp0_epc", self.cp0_epc, other.cp0_epc);
        compare64(out, "cp0_badvaddr", self.cp0_badvaddr, other.cp0_badvaddr);
        compare64(out, "cp0_entryhi", self.cp0_entryhi, other.cp0_entryhi);
        let ghost mid = views(out@);
        if self.count_hz != other.count_hz {
            add_difference(out, "count_hz", dec_text(self.count_hz), dec_text(other.count_hz));
        }
        assert(views(out@) =~= mid + differing(
            self.count_hz != other.count_hz,
            "count_hz"@,
            dec(self.count_hz as nat),
            dec(other.count_hz as nat),
        ));
        let ghost mid = views(out@);
        if self.in_delay_slot != other.in_delay_slot {
            add_difference(
                out,
                "in_delay_slot",
                flag_text(self.in_delay_slot),
                flag_text(other.in_delay_slot),
            );
        }
        assert(views(out@) =~= mid + differing(
            self.in_delay_slot != other.in_delay_slot,
            "in_delay_slot"@,
            bool_text(self.in_delay_slot),
            bool_text(other.in_delay_slot),
        ));
        compare32(out, "step_status", self.step_status, other.step_status);
    }

    /// The digest of state `c`.
    pub open spec fn is_of(&self, c: MipsCore) -> bool {
        &&& self.gpr == c.gpr
        &&& self.pc == c.pc && self.hi == c.hi && self.lo == c.lo
        &&& self.cp0_count == c.cp0_count && self.cp0_compare == c.cp0_compare
        &&& self.cp0_status == c.cp0_status && self.cp0_cause == c.cp0_cause
        &&& self.cp0_epc == c.cp0_epc && self.cp0_badvaddr == c.cp0_badvaddr
        &&& self.cp0_entryhi == c.cp0_entryhi && self.count_hz == c.count_hz
        &&& self.in_delay_slot == c.in_delay_slot
    }
}

impl MipsCore {
    /// The state with the registers of digest `d`.
    pub open spec fn with_digest(self, d: CpuStateDigest) -> MipsCore {
        MipsCore {
            gpr: d.gpr,
            pc: d.pc,
            hi: d.hi,
            lo: d.lo,
            cp0_count: d.cp0_count,
            cp0_compare: d.cp0_compare,
            cp0_status: d.cp0_status,
            cp0_cause: d.cp0_cause,
            cp0_epc: d.cp0_epc,
            cp0_badvaddr: d.cp0_badvaddr,
            cp0_entryhi: d.cp0_entryhi,
            count_hz: d.count_hz,
            in_delay_slot: d.in_delay_slot,
            ..self
        }.without_nanotlb()
    }

    /// Puts back the registers that `d` recorded.
    pub fn restore_state_digest(&mut self, d: &CpuStateDigest)
        ensures
            *final(self) == old(self).with_digest(*d),
    {
        self.gpr = d.gpr;
        self.pc = d.pc;
        self.hi = d.hi;
        self.lo = d.lo;
        self.cp0_count = d.cp0_count;
        self.cp0_compare = d.cp0_compare;
        self.cp0_status = d.cp0_status;
        self.cp0_cause = d.cp0_cause;
        self.cp0_epc = d.cp0_epc;
        self.cp0_badvaddr = d.cp0_badvaddr;
        self.cp0_entryhi = d.cp0_entryhi;
        self.count_hz = d.count_hz;
        self.in_delay_slot = d.in_delay_slot;
        self.nanotlb_invalidate();
    }

    /// Takes Count and its rate from `d`.
    pub fn fixup_cp0_count(&mut self, d: &CpuStateDigest)
        ensures
            *final(self) == (MipsCore {
                cp0_count: d.cp0_count,
                count_hz: d.count_hz,
                ..*old(self)
            }),
    {
        self.cp0_count = d.cp0_count;
        self.count_hz = d.count_hz;
    }
}

/// Law: a digest that is put back is the digest of the state it was put into.
pub proof fn law_restored_digest_is_current(c: MipsCore, d: CpuStateDigest)
    ensures
        d.is_of(c.with_digest(d)),
{
}

impl<T: Tlb, C: MipsCache, B: BusDevice> MipsExecutor<T, C, B> {
    /// The digest of the present state. It takes the reads that were recorded with it.
    pub fn state_digest(&mut self) -> (d: CpuStateDigest)
        requires
            old(self).wf(),
        ensures
            final(self).wf(),
            d.is_of(old(self)@.core),
            d.hw_reads@ == old(self)@.tools.recorded,
            d.step_status == old(self)@.tools.last_step_status,
            final(self)@ == old(self)@.with_tools(
                Tools { recorded: Seq::empty(), ..old(self)@.tools },
            ),
    {
        let mut hw_reads: Vec<HwRead> = Vec::new();
        hw_reads.append(&mut self.tools.hw_read_fixup_recorded);
        assert(hw_reads@ =~= old(self)@.tools.recorded);
        CpuStateDigest {
            gpr: self.core.gpr,
            pc: self.core.pc,
            hi: self.core.hi,
            lo: self.core.lo,
            cp0_count: self.core.cp0_count,
            cp0_compare: self.core.cp0_compare,
            cp0_status: self.core.cp0_status,
            cp0_cause: self.core.cp0_cause,
            cp0_epc: self.core.cp0_epc,
            cp0_badvaddr: self.core.cp0_badvaddr,
            cp0_entryhi: self.core.cp0_entryhi,
            count_hz: self.core.count_hz,
            in_delay_slot: self.core.in_delay_slot,
            hw_reads,
            step_status: self.tools.last_step_status,
        }
    }

    /// Arms or disarms the recording of reads. What was recorded is dropped with it.
    pub fn set_hw_read_fixup_recording(&mut self, recording: bool)
        requires
            old(self).wf(),
        ensures
            final(self).wf(),
            final(self)@ == old(self)@.with_tools(
                Tools {
                    recording,
                    recorded: if recording {
                        old(self)@.tools.recorded
                    } else {
                        Seq::empty()
                    },
                    ..old(self)@.tools
                },
            ),
    {
        self.tools.hw_read_fixup_recording = recording;
        if !recording {
            self.tools.hw_read_fixup_recorded = Vec::new();
        }
    }

    /// Sets the values that reads of time-driven registers give from now on.
    pub fn set_hw_read_fixup_replay(&mut self, fixups: Option<Vec<HwRead>>)
        requires
            old(self).wf(),
        ensures
            final(self).wf(),
            final(self)@ == old(self)@.with_tools(
                Tools { replay: fixups, ..old(self)@.tools },
            ),
    {
        self.tools.hw_read_fixup_replay = fixups;
    }

    /// Notes what the last step came to.
    pub fn set_last_step_status(&mut self, status: ExecStatus)
        requires
            old(self).wf(),
        ensures
            final(self).wf(),
            final(self)@ == old(self)@.with_tools(
                Tools { last_step_status: status, ..old(self)@.tools },
            ),
    {
        self.tools.last_step_status = status;
    }
}

} // verus!
