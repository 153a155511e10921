//! Snapshots of the processor, and going back to them.
use vstd::prelude::*;

use crate::bus::{BusDevice, MipsCache, Tlb};
use crate::cpu_core::MipsCore;
use crate::machine::{is_access_size, Machine, MipsExecutor};
use crate::tools::{DebugTools, Tools};
use crate::undo::{pushed, CpuSnapshot, MemoryWrite, UndoLog};

verus! {

impl MipsCore {
    /// The state that snapshot `s` recorded. What it does not record stays; remembered
    /// translations belong to the state that is left, and go.
    pub open spec fn restored(self, s: CpuSnapshot) -> MipsCore {
        MipsCore {
            gpr: s.gpr,
            pc: s.pc,
            hi: s.hi,
            lo: s.lo,
            cp0_index: s.cp0_index,
            cp0_random: s.cp0_random,
            cp0_entrylo0: s.cp0_entrylo0,
            cp0_entrylo1: s.cp0_entrylo1,
            cp0_context: s.cp0_context,
            cp0_pagemask: s.cp0_pagemask,
            cp0_wired: s.cp0_wired,
            cp0_badvaddr: s.cp0_badvaddr,
            cp0_count: s.cp0_count,
            cp0_entryhi: s.cp0_entryhi,
            cp0_compare: s.cp0_compare,
            cp0_status: s.cp0_status,
            cp0_cause: s.cp0_cause,
            cp0_epc: s.cp0_epc,
            cp0_prid: s.cp0_prid,
            cp0_config: s.cp0_config,
            cp0_watchlo: s.cp0_watchlo,
            cp0_watchhi: s.cp0_watchhi,
            cp0_xcontext: s.cp0_xcontext,
            cp0_ecc: s.cp0_ecc,
            cp0_cacheerr: s.cp0_cacheerr,
            cp0_taglo: s.cp0_taglo,
            cp0_taghi: s.cp0_taghi,
            cp0_errorepc: s.cp0_errorepc,
            fpr: s.fpr,
            fpu_fir: s.fpu_fir,
            fpu_fccr: s.fpu_fccr,
            fpu_fexr: s.fpu_fexr,
            fpu_fenr: s.fpu_fenr,
            fpu_fcsr: s.fpu_fcsr,
            running: s.running,
            halted: s.halted,
            in_delay_slot: s.in_delay_slot,
            delay_slot_target: s.delay_slot_target,
            cp0_lladdr: s.lladdr,
            ..self
        }.without_nanotlb()
    }

    fn restore(&mut self, s: &CpuSnapshot)
        ensures
            *final(self) == old(self).restored(*s),
    {
        self.gpr = s.gpr;
        self.pc = s.pc;
        self.hi = s.hi;
        self.lo = s.lo;
        self.cp0_index = s.cp0_index;
        self.cp0_random = s.cp0_random;
        self.cp0_entrylo0 = s.cp0_entrylo0;
        self.cp0_entrylo1 = s.cp0_entrylo1;
        self.cp0_context = s.cp0_context;
        self.cp0_pagemask = s.cp0_pagemask;
        self.cp0_wired = s.cp0_wired;
        self.cp0_badvaddr = s.cp0_badvaddr;
        self.cp0_count = s.cp0_count;
        self.cp0_entryhi = s.cp0_entryhi;
        self.cp0_compare = s.cp0_compare;
        self.cp0_status = s.cp0_status;
        self.cp0_cause = s.cp0_cause;
        self.cp0_epc = s.cp0_epc;
        self.cp0_prid = s.cp0_prid;
        self.cp0_config = s.cp0_config;
        self.cp0_watchlo = s.cp0_watchlo;
        self.cp0_watchhi = s.cp0_watchhi;
        self.cp0_xcontext = s.cp0_xcontext;
        self.cp0_ecc = s.cp0_ecc;
        self.cp0_cacheerr = s.cp0_cacheerr;
        self.cp0_taglo = s.cp0_taglo;
        self.cp0_taghi = s.cp0_taghi;
        self.cp0_errorepc = s.cp0_errorepc;
        self.fpr = s.fpr;
        self.fpu_fir = s.fpu_fir;
        self.fpu_fccr = s.fpu_fccr;
        self.fpu_fexr = s.fpu_fexr;
        self.fpu_fenr = s.fpu_fenr;
        self.fpu_fcsr = s.fpu_fcsr;
        self.running = s.running;
        self.halted = s.halted;
        self.in_delay_slot = s.in_delay_slot;
        self.delay_slot_target = s.delay_slot_target;
        self.cp0_lladdr = s.lladdr;
        self.nanotlb_invalidate();
    }
}

impl CpuSnapshot {
    fn copied_writes(&self) -> (w: Vec<MemoryWrite>)
        ensures
            w@ == self.memory_writes@,
    {
        let mut w: Vec<MemoryWrite> = Vec::new();
        let n: usize = self.memory_writes.len();
        let mut i: usize = 0;
        while i < n
            invariant
                i <= n,
                n == self.memory_writes@.len(),
                w@ == self.memory_writes@.subrange(0, i as int),
            decreases n - i,
        {
            w.push(self.memory_writes[i]);
            i = i + 1;
            assert(w@ =~= self.memory_writes@.subrange(0, i as int));
        }
        assert(w@ =~= self.memory_writes@);
        w
    }
}

impl<T: Tlb, C: MipsCache, B: BusDevice> Machine<T, C, B> {
    /// `s` records the processor's state, and no writes.
    pub open spec fn is_snapshot(&self, s: CpuSnapshot) -> bool {
        &&& s.gpr == self.core.gpr
        &&& s.pc == self.core.pc
        &&& s.hi == self.core.hi
        &&& s.lo == self.core.lo
        &&& s.cp0_index == self.core.cp0_index
        &&& s.cp0_random == self.core.cp0_random
        &&& s.cp0_entrylo0 == self.core.cp0_entrylo0
        &&& s.cp0_entrylo1 == self.core.cp0_entrylo1
        &&& s.cp0_context == self.core.cp0_context
        &&& s.cp0_pagemask == self.core.cp0_pagemask
        &&& s.cp0_wired == self.core.cp0_wired
        &&& s.cp0_badvaddr == self.core.cp0_badvaddr
        &&& s.cp0_count == self.core.cp0_count
        &&& s.cp0_entryhi == self.core.cp0_entryhi
        &&& s.cp0_compare == self.core.cp0_compare
        &&& s.cp0_status == self.core.cp0_status
        &&& s.cp0_cause == self.core.cp0_cause
        &&& s.cp0_epc == self.core.cp0_epc
        &&& s.cp0_prid == self.core.cp0_prid
        &&& s.cp0_config == self.core.cp0_config
        &&& s.cp0_watchlo == self.core.cp0_watchlo
        &&& s.cp0_watchhi == self.core.cp0_watchhi
        &&& s.cp0_xcontext == self.core.cp0_xcontext
        &&& s.cp0_ecc == self.core.cp0_ecc
        &&& s.cp0_cacheerr == self.core.cp0_cacheerr
        &&& s.cp0_taglo == self.core.cp0_taglo
        &&& s.cp0_taghi == self.core.cp0_taghi
        &&& s.cp0_errorepc == self.core.cp0_errorepc
        &&& s.fpr == self.core.fpr
        &&& s.fpu_fir == self.core.fpu_fir
        &&& s.fpu_fccr == self.core.fpu_fccr
        &&& s.fpu_fexr == self.core.fpu_fexr
        &&& s.fpu_fenr == self.core.fpu_fenr
        &&& s.fpu_fcsr == self.core.fpu_fcsr
        &&& s.running == self.core.running
        &&& s.halted == self.core.halted
        &&& s.in_delay_slot == self.core.in_delay_slot
        &&& s.delay_slot_target == self.core.delay_slot_target
        &&& s.llbit == C::llbit(self.cache)
        &&& s.lladdr == C::lladdr(self.cache)
        &&& s.memory_writes@.len() == 0
    }

    /// The machine with the processor back at `s`. Memory stays as it is.
    pub open spec fn restored(self, s: CpuSnapshot) -> Self {
        Machine {
            core: self.core.restored(s),
            cache: C::with_lladdr(C::with_llbit(self.cache, s.llbit), s.lladdr),
            ..self
        }
    }

    /// The write `x` is taken back, where it was made: the address may since have come to
    /// stand for another place.
    pub open spec fn unwritten_one(self, x: MemoryWrite) -> Self {
        if is_access_size(x.size) {
            self.poke(x.cached, x.size, x.virt_addr, x.phys_addr as u32, x.old_value)
        } else {
            self
        }
    }

    /// The writes `w` are taken back, the last one first.
    pub open spec fn unwritten(self, w: Seq<MemoryWrite>) -> Self
        decreases w.len(),
    {
        if w.len() == 0 {
            self
        } else {
            self.unwritten_one(w.last()).unwritten(w.drop_last())
        }
    }

    /// The writes of the last `count` of the instructions `e` are taken back, those of
    /// the last instruction first.
    pub open spec fn unwritten_back(self, e: Seq<CpuSnapshot>, count: nat) -> Self
        decreases count,
    {
        if count == 0 {
            self
        } else {
            self.unwritten(e.last().memory_writes@).unwritten_back(
                e.drop_last(),
                (count - 1) as nat,
            )
        }
    }

    pub open spec fn with_undo(self, undo: UndoLog) -> Self {
        self.with_tools(Tools { undo, ..self.tools })
    }

    /// The machine after the undo buffer has taken back its last `count` instructions:
    /// the writes of all of them are taken back, and the processor is as the oldest of
    /// them found it.
    pub open spec fn undone(self, count: nat) -> Self {
        let e = self.tools.undo.entries;
        let m = self.unwritten_back(e, count).restored(e[e.len() - count]);
        m.with_undo(UndoLog { entries: e.take(e.len() - count), ..m.tools.undo })
    }

    /// The undo buffer would take back `count` instructions.
    pub open spec fn undoable(&self, count: nat) -> bool {
        self.tools.undo.enabled && 1 <= count <= self.tools.undo.entries.len()
    }

    /// Before the instruction, with a new snapshot `s` in the undo buffer.
    pub open spec fn marked(self, s: CpuSnapshot) -> Self {
        let u = self.tools.undo;
        self.with_tools(
            Tools {
                undo: UndoLog { entries: pushed(u.entries, u.capacity, s), ..u },
                pending: Seq::empty(),
                ..self.tools
            },
        )
    }

    /// After the instruction, with the writes `w` that it made in its snapshot.
    pub open spec fn committed(self, w: Vec<MemoryWrite>) -> Self {
        let u = self.tools.undo;
        self.with_tools(
            Tools {
                undo: UndoLog {
                    entries: u.entries.drop_last().push(
                        CpuSnapshot { memory_writes: w, ..u.entries.last() },
                    ),
                    ..u
                },
                pending: Seq::empty(),
                ..self.tools
            },
        )
    }
}

/// Taking writes back changes only memory.
pub(crate) proof fn lemma_unwriting<T: Tlb, C: MipsCache, B: BusDevice>(
    m: Machine<T, C, B>,
    w: Seq<MemoryWrite>,
)
    ensures
        m.unwritten(w) == (Machine {
            cache: m.unwritten(w).cache,
            sysad: m.unwritten(w).sysad,
            ..m
        }),
    decreases w.len(),
{
    if w.len() > 0 {
        lemma_unwriting(m.unwritten_one(w.last()), w.drop_last());
    }
}

pub(crate) proof fn lemma_unwriting_back<T: Tlb, C: MipsCache, B: BusDevice>(
    m: Machine<T, C, B>,
    e: Seq<CpuSnapshot>,
    count: nat,
)
    ensures
        m.unwritten_back(e, count) == (Machine {
            cache: m.unwritten_back(e, count).cache,
            sysad: m.unwritten_back(e, count).sysad,
            ..m
        }),
    decreases count,
{
    if count > 0 {
        let w = e.last().memory_writes@;
        lemma_unwriting(m, w);
        lemma_unwriting_back(m.unwritten(w), e.drop_last(), (count - 1) as nat);
    }
}

impl DebugTools {
    pub(crate) fn mark(&mut self, s: CpuSnapshot)
        requires
            old(self).wf(),
        ensures
            final(self).wf(),
            final(self)@ == (Tools {
                undo: UndoLog {
                    entries: pushed(old(self)@.undo.entries, old(self)@.undo.capacity, s),
                    ..old(self)@.undo
                },
                pending: Seq::empty(),
                ..old(self)@
            }),
            final(self)@.undo.entries.len() > 0,
    {
        self.pending_memory_writes = Vec::new();
        self.undo_buffer.push(s);
    }

    /// Moves the writes of the instruction to its snapshot.
    pub(crate) fn commit(&mut self) -> (w: Ghost<Vec<MemoryWrite>>)
        requires
            old(self).wf(),
            old(self)@.undo.entries.len() > 0,
        ensures
            final(self).wf(),
            w@@ == old(self)@.pending,
            final(self)@ == (Tools {
                undo: UndoLog {
                    entries: old(self)@.undo.entries.drop_last().push(
                        CpuSnapshot { memory_writes: w@, ..old(self)@.undo.entries.last() },
                    ),
                    ..old(self)@.undo
                },
                pending: Seq::empty(),
                ..old(self)@
            }),
    {
        let mut w: Vec<MemoryWrite> = Vec::new();
        w.append(&mut self.pending_memory_writes);
        assert(w@ =~= old(self)@.pending);
        let ghost g = w;
        self.undo_buffer.set_writes(w);
        Ghost(g)
    }

    fn pop(&mut self, count: usize)
        requires
            old(self).wf(),
            count <= old(self)@.undo.entries.len(),
        ensures
            final(self).wf(),
            final(self)@ == (Tools {
                undo: UndoLog {
                    entries: old(self)@.undo.entries.take(
                        old(self)@.undo.entries.len() - count,
                    ),
                    ..old(self)@.undo
                },
                ..old(self)@
            }),
    {
        let ghost e = self@.undo.entries;
        let mut i: usize = 0;
        assert(e.take(e.len() - 0) =~= e);
        while i < count
            invariant
                i <= count,
                count <= e.len(),
                e == old(self)@.undo.entries,
                self.wf(),
                self@ == (Tools {
                    undo: UndoLog { entries: e.take(e.len() - i), ..old(self)@.undo },
                    ..old(self)@
                }),
            decreases count - i,
        {
            self.undo_buffer.pop();
            assert(e.take(e.len() - i).drop_last() =~= e.take(e.len() - i - 1));
            i = i + 1;
        }
    }
}

impl<T: Tlb, C: MipsCache, B: BusDevice> MipsExecutor<T, C, B> {
    /// A snapshot of the processor's state.
    pub fn create_snapshot(&self) -> (s: CpuSnapshot)
        requires
            self.wf(),
        ensures
            self@.is_snapshot(s),
    {
        CpuSnapshot {
            gpr: self.core.gpr,
            pc: self.core.pc,
            hi: self.core.hi,
            lo: self.core.lo,
            cp0_index: self.core.cp0_index,
            cp0_random: self.core.cp0_random,
            cp0_entrylo0: self.core.cp0_entrylo0,
            cp0_entrylo1: self.core.cp0_entrylo1,
            cp0_context: self.core.cp0_context,
            cp0_pagemask: self.core.cp0_pagemask,
            cp0_wired: self.core.cp0_wired,
            cp0_badvaddr: self.core.cp0_badvaddr,
            cp0_count: self.core.cp0_count,
            cp0_entryhi: self.core.cp0_entryhi,
            cp0_compare: self.core.cp0_compare,
            cp0_status: self.core.cp0_status,
            cp0_cause: self.core.cp0_cause,
            cp0_epc: self.core.cp0_epc,
            cp0_prid: self.core.cp0_prid,
            cp0_config: self.core.cp0_config,
            cp0_watchlo: self.core.cp0_watchlo,
            cp0_watchhi: self.core.cp0_watchhi,
            cp0_xcontext: self.core.cp0_xcontext,
            cp0_ecc: self.core.cp0_ecc,
            cp0_cacheerr: self.core.cp0_cacheerr,
            cp0_taglo: self.core.cp0_taglo,
            cp0_taghi: self.core.cp0_taghi,
            cp0_errorepc: self.core.cp0_errorepc,
            fpr: self.core.fpr,
            fpu_fir: self.core.fpu_fir,
            fpu_fccr: self.core.fpu_fccr,
            fpu_fexr: self.core.fpu_fexr,
            fpu_fenr: self.core.fpu_fenr,
            fpu_fcsr: self.core.fpu_fcsr,
            running: self.core.running,
            halted: self.core.halted,
            in_delay_slot: self.core.in_delay_slot,
            delay_slot_target: self.core.delay_slot_target,
            llbit: self.cache.get_llbit(),
            lladdr: self.cache.get_lladdr(),
            memory_writes: Vec::new(),
        }
    }

    /// Puts a snapshot of the present state into the undo buffer, together with the
    /// writes that have been noted. Nothing happens while the buffer is off.
    pub fn commit_undo_snapshot(&mut self)
        requires
            old(self).wf(),
        ensures
            final(self).wf(),
            !old(self)@.tools.undo.enabled ==> final(self)@ == old(self)@,
            old(self)@.tools.undo.enabled ==> exists|snap: CpuSnapshot, w: Vec<MemoryWrite>|
                {
                    &&& old(self)@.is_snapshot(snap)
                    &&& w@ == old(self)@.tools.pending
                    &&& final(self)@ == #[trigger] old(self)@.marked(snap).committed(w)
                },
    {
        if !self.tools.undo_buffer.is_enabled() {
            return;
        }
        let mut snap: CpuSnapshot = self.create_snapshot();
        let ghost bare = snap;
        let mut w: Vec<MemoryWrite> = Vec::new();
        w.append(&mut self.tools.pending_memory_writes);
        assert(w@ =~= old(self)@.tools.pending);
        let ghost gw = w;
        snap.memory_writes = w;
        self.tools.mark(snap);
        proof {
            let u = old(self)@.tools.undo;
            let s = CpuSnapshot { memory_writes: gw, ..bare };
            assert(pushed(u.entries, u.capacity, s) =~= pushed(
                u.entries,
                u.capacity,
                bare,
            ).drop_last().push(s));
            assert(self@ == old(self)@.marked(bare).committed(gw));
        }
    }

    /// Puts the processor back into the state that `s` recorded.
    pub fn restore_snapshot(&mut self, s: &CpuSnapshot)
        requires
            old(self).wf(),
        ensures
            final(self).wf(),
            final(self)@ == old(self)@.restored(*s),
    {
        self.core.restore(s);
        self.cache.set_llbit(s.llbit);
        self.cache.set_lladdr(s.lladdr);
    }

    /// Takes the writes `w` back, the last one first.
    fn unwrite(&mut self, w: &Vec<MemoryWrite>)
        requires
            old(self).wf(),
        ensures
            final(self).wf(),
            final(self)@ == old(self)@.unwritten(w@),
    {
        let mut i: usize = w.len();
        assert(w@.take(i as int) =~= w@);
        while i > 0
            invariant
                i <= w@.len(),
                self.wf(),
                self@.unwritten(w@.take(i as int)) == old(self)@.unwritten(w@),
            decreases i,
        {
            i = i - 1;
            let x: MemoryWrite = w[i];
            assert(w@.take(i + 1).last() == x);
            assert(w@.take(i + 1).drop_last() =~= w@.take(i as int));
            if x.size == 1 || x.size == 2 || x.size == 4 || x.size == 8 {
                let phys: u32 = #[verifier::truncate] (x.phys_addr as u32);
                self.poke(x.cached, x.size, x.virt_addr, phys, x.old_value);
            }
        }
    }

    /// Takes the last `count` instructions back.
    pub fn undo(&mut self, count: usize) -> (b: bool)
        requires
            old(self).wf(),
        ensures
            final(self).wf(),
            b == old(self)@.undoable(count as nat),
            b ==> final(self)@ == old(self)@.undone(count as nat),
            !b ==> final(self)@ == old(self)@,
    {
        if count == 0 || !self.tools.undo_buffer.can_undo(count) {
            return false;
        }
        let ghost e = self@.tools.undo.entries;
        let mut done: usize = 0;
        assert(e.take(e.len() - 0) =~= e);
        while done < count
            invariant
                done <= count,
                count <= e.len(),
                e == old(self)@.tools.undo.entries,
                self.wf(),
                self@.tools == old(self)@.tools,
                self@.unwritten_back(e.take(e.len() - done), (count - done) as nat) == old(
                    self,
                )@.unwritten_back(e, count as nat),
            decreases count - done,
        {
            let w: Vec<MemoryWrite> = match self.tools.undo_buffer.get(done + 1) {
                Some(s) => s.copied_writes(),
                None => {
                    return false;
                },
            };
            proof {
                let t = e.take(e.len() - done);
                assert(t.last() == e[e.len() - done - 1]);
                assert(t.drop_last() =~= e.take(e.len() - done - 1));
                lemma_unwriting(self@, w@);
            }
            self.unwrite(&w);
            done = done + 1;
        }
        let ghost before = self@;
        match self.tools.undo_buffer.get(count) {
            Some(s) => {
                self.core.restore(s);
                self.cache.set_llbit(s.llbit);
                self.cache.set_lladdr(s.lladdr);
            },
            None => {
                return false;
            },
        }
        assert(self@ == before.restored(e[e.len() - count]));
        self.tools.pop(count);
        true
    }
}

} // verus!
