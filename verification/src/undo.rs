//! Undo history of the processor: one snapshot per executed instruction, kept in a
//! ring that overwrites its oldest entry when it is full.
use vstd::prelude::*;

verus! {

/// Capacity of a fresh undo buffer.
pub const UNDO_BUFFER_SIZE: usize = 1048576;

/// A memory write that an instruction performed, with what it overwrote.
#[derive(Debug, Clone, Copy, PartialEq, Eq, Structural)]
pub struct MemoryWrite {
    pub virt_addr: u64,
    pub phys_addr: u64,
    pub old_value: u64,
    pub size: usize,
    /// It went to the caches, not to the bus.
    pub cached: bool,
}

/// Processor state before an instruction, together with the writes that the
/// instruction went on to make.
#[derive(Debug, Clone)]
pub struct CpuSnapshot {
    pub gpr: [u64; 32],
    pub pc: u64,
    pub hi: u64,
    pub lo: u64,
    pub llbit: bool,
    pub lladdr: u32,
    pub cp0_index: u32,
    pub cp0_random: u32,
    pub cp0_entrylo0: u64,
    pub cp0_entrylo1: u64,
    pub cp0_context: u64,
    pub cp0_pagemask: u64,
    pub cp0_wired: u32,
    pub cp0_badvaddr: u64,
    pub cp0_count: u64,
    pub cp0_entryhi: u64,
    pub cp0_compare: u64,
    pub cp0_status: u32,
    pub cp0_cause: u32,
    pub cp0_epc: u64,
    pub cp0_prid: u32,
    pub cp0_config: u32,
    pub cp0_watchlo: u32,
    pub cp0_watchhi: u32,
    pub cp0_xcontext: u64,
    pub cp0_ecc: u32,
    pub cp0_cacheerr: u32,
    pub cp0_taglo: u32,
    pub cp0_taghi: u32,
    pub cp0_errorepc: u64,
    pub fpr: [u64; 32],
    pub fpu_fir: u32,
    pub fpu_fccr: u32,
    pub fpu_fexr: u32,
    pub fpu_fenr: u32,
    pub fpu_fcsr: u32,
    pub running: bool,
    pub halted: bool,
    pub in_delay_slot: bool,
    pub delay_slot_target: u64,
    pub memory_writes: Vec<MemoryWrite>,
}

impl Default for CpuSnapshot {
    fn default() -> (s: Self)
        ensures
            s.gpr@ == Seq::new(32, |i: int| 0u64),
            s.fpr@ == Seq::new(32, |i: int| 0u64),
            s.pc == 0 && s.hi == 0 && s.lo == 0,
            !s.llbit && s.lladdr == 0,
            s.cp0_index == 0 && s.cp0_random == 0 && s.cp0_entrylo0 == 0 && s.cp0_entrylo1 == 0,
            s.cp0_context == 0 && s.cp0_pagemask == 0 && s.cp0_wired == 0 && s.cp0_badvaddr == 0,
            s.cp0_count == 0 && s.cp0_entryhi == 0 && s.cp0_compare == 0 && s.cp0_status == 0,
            s.cp0_cause == 0 && s.cp0_epc == 0 && s.cp0_prid == 0 && s.cp0_config == 0,
            s.cp0_watchlo == 0 && s.cp0_watchhi == 0 && s.cp0_xcontext == 0 && s.cp0_ecc == 0,
            s.cp0_cacheerr == 0 && s.cp0_taglo == 0 && s.cp0_taghi == 0 && s.cp0_errorepc == 0,
            s.fpu_fir == 0 && s.fpu_fccr == 0 && s.fpu_fexr == 0 && s.fpu_fenr == 0 && s.fpu_fcsr
                == 0,
            !s.running && !s.halted && !s.in_delay_slot && s.delay_slot_target == 0,
            s.memory_writes@.len() == 0,
    {
        let s = CpuSnapshot {
            gpr: [0u64;32],
            pc: 0,
            hi: 0,
            lo: 0,
            llbit: false,
            lladdr: 0,
            cp0_index: 0,
            cp0_random: 0,
            cp0_entrylo0: 0,
            cp0_entrylo1: 0,
            cp0_context: 0,
            cp0_pagemask: 0,
            cp0_wired: 0,
            cp0_badvaddr: 0,
            cp0_count: 0,
            cp0_entryhi: 0,
            cp0_compare: 0,
            cp0_status: 0,
            cp0_cause: 0,
            cp0_epc: 0,
            cp0_prid: 0,
            cp0_config: 0,
            cp0_watchlo: 0,
            cp0_watchhi: 0,
            cp0_xcontext: 0,
            cp0_ecc: 0,
            cp0_cacheerr: 0,
            cp0_taglo: 0,
            cp0_taghi: 0,
            cp0_errorepc: 0,
            fpr: [0u64;32],
            fpu_fir: 0,
            fpu_fccr: 0,
            fpu_fexr: 0,
            fpu_fenr: 0,
            fpu_fcsr: 0,
            running: false,
            halted: false,
            in_delay_slot: false,
            delay_slot_target: 0,
            memory_writes: Vec::new(),
        };
        assert(s.gpr@ =~= Seq::new(32, |i: int| 0u64));
        assert(s.fpr@ =~= Seq::new(32, |i: int| 0u64));
        s
    }
}

/// Position of the entry pushed `back` pushes ago in a ring of `cap` slots whose
/// next write goes to `head`.
pub open spec fn ring_slot(head: int, cap: int, back: int) -> int {
    if back <= head {
        head - back
    } else {
        cap + head - back
    }
}

/// Ring of snapshots: `head` is the next slot to write, `count` the number held.
pub struct UndoBuffer {
    pub enabled: bool,
    pub snapshots: Vec<Option<CpuSnapshot>>,
    pub head: usize,
    pub count: usize,
}

/// Undo history as a mathematical value.
#[verifier::ext_equal]
pub struct UndoLog {
    pub enabled: bool,
    pub capacity: nat,
    /// Oldest first.
    pub entries: Seq<CpuSnapshot>,
}

impl View for UndoBuffer {
    type V = UndoLog;

    open spec fn view(&self) -> UndoLog {
        UndoLog {
            enabled: self.enabled,
            capacity: self.snapshots@.len(),
            entries: self.entries(),
        }
    }
}

impl UndoBuffer {
    /// The ring has room, its cursor lies inside it, and every held slot is filled.
    pub open spec fn wf(&self) -> bool {
        &&& self.head < self.snapshots@.len()
        &&& self.count <= self.snapshots@.len()
        &&& forall|k: int|
            1 <= k <= self.count ==> #[trigger] self.snapshots@[ring_slot(
                self.head as int,
                self.snapshots@.len() as int,
                k,
            )] is Some
    }

    /// The held snapshots, oldest first.
    pub open spec fn entries(&self) -> Seq<CpuSnapshot> {
        Seq::new(
            self.count as nat,
            |i: int|
                self.snapshots@[ring_slot(
                    self.head as int,
                    self.snapshots@.len() as int,
                    self.count - i,
                )]->0,
        )
    }

    pub fn new() -> (b: Self)
        ensures
            b.wf(),
            !b.enabled,
            b.entries() == Seq::<CpuSnapshot>::empty(),
            b.snapshots@.len() == UNDO_BUFFER_SIZE,
            forall|i: int| 0 <= i < UNDO_BUFFER_SIZE ==> #[trigger] b.snapshots@[i] is None,
    {
        let b = UndoBuffer {
            enabled: false,
            snapshots: empty_slots(UNDO_BUFFER_SIZE),
            head: 0,
            count: 0,
        };
        assert(b.entries() =~= Seq::<CpuSnapshot>::empty());
        b
    }

    pub fn enable(&mut self)
        ensures
            *final(self) == (UndoBuffer { enabled: true, ..*old(self) }),
    {
        self.enabled = true;
    }

    pub fn disable(&mut self)
        ensures
            *final(self) == (UndoBuffer { enabled: false, ..*old(self) }),
    {
        self.enabled = false;
    }

    pub fn is_enabled(&self) -> (b: bool)
        ensures
            b == self.enabled,
    {
        self.enabled
    }

    pub fn push(&mut self, snapshot: CpuSnapshot)
        requires
            old(self).wf(),
        ensures
            final(self).wf(),
            final(self).enabled == old(self).enabled,
            final(self).snapshots@.len() == old(self).snapshots@.len(),
            final(self).entries() == pushed(
                old(self).entries(),
                old(self).snapshots@.len(),
                snapshot,
            ),
    {
        self.push_get_idx(snapshot);
    }

    /// Appends a snapshot, dropping the oldest one where the ring is full, and
    /// returns the slot it was written to.
    pub fn push_get_idx(&mut self, snapshot: CpuSnapshot) -> (idx: usize)
        requires
            old(self).wf(),
        ensures
            final(self).wf(),
            idx == old(self).head,
            final(self).snapshots@ == old(self).snapshots@.update(idx as int, Some(snapshot)),
            final(self).enabled == old(self).enabled,
            final(self).entries() == pushed(
                old(self).entries(),
                old(self).snapshots@.len(),
                snapshot,
            ),
    {
        let capacity: usize = self.snapshots.len();
        let idx: usize = self.head;
        self.snapshots.set(idx, Some(snapshot));
        self.head = if self.head + 1 == capacity {
            0
        } else {
            self.head + 1
        };
        if self.count < capacity {
            self.count = self.count + 1;
        }
        proof {
            let cap = capacity as int;
            assert forall|k: int| 1 <= k <= self.count implies #[trigger] self.snapshots@[ring_slot(
                self.head as int,
                cap,
                k,
            )] is Some by {
                if k > 1 {
                    assert(ring_slot(self.head as int, cap, k) == ring_slot(
                        old(self).head as int,
                        cap,
                        k - 1,
                    ));
                    assert(old(self).snapshots@[ring_slot(
                        old(self).head as int,
                        cap,
                        k - 1,
                    )] is Some);
                }
            }
            assert(self.entries() =~= pushed(old(self).entries(), cap as nat, snapshot));
        }
        idx
    }

    /// Adds to the latest snapshot the writes that its instruction made.
    pub fn set_writes(&mut self, writes: Vec<MemoryWrite>)
        requires
            old(self).wf(),
            old(self).count > 0,
        ensures
            final(self).wf(),
            final(self)@ == (UndoLog {
                entries: old(self).entries().drop_last().push(
                    CpuSnapshot { memory_writes: writes, ..old(self).entries().last() },
                ),
                ..old(self)@
            }),
    {
        let capacity: usize = self.snapshots.len();
        let idx: usize = if self.head == 0 {
            capacity - 1
        } else {
            self.head - 1
        };
        let ghost cap = capacity as int;
        assert(idx == ring_slot(self.head as int, cap, 1));
        assert(self.snapshots@[ring_slot(self.head as int, cap, 1)] is Some);
        let mut slot: Option<CpuSnapshot> = None;
        core::mem::swap(&mut slot, &mut self.snapshots[idx]);
        if let Some(s) = slot {
            let mut s: CpuSnapshot = s;
            s.memory_writes = writes;
            self.snapshots.set(idx, Some(s));
        }
        proof {
            assert forall|k: int| 1 <= k <= self.count implies #[trigger] self.snapshots@[ring_slot(
                self.head as int,
                cap,
                k,
            )] is Some by {
                assert(old(self).snapshots@[ring_slot(self.head as int, cap, k)] is Some);
            }
            assert forall|k: int| 2 <= k <= self.count implies #[trigger] ring_slot(
                self.head as int,
                cap,
                k,
            ) != idx by {}
            let e = old(self).entries().drop_last().push(
                CpuSnapshot { memory_writes: writes, ..old(self).entries().last() },
            );
            assert(self.entries() =~= e);
        }
    }

    pub fn can_undo(&self, steps: usize) -> (b: bool)
        ensures
            b == (self.enabled && steps <= self.count),
    {
        self.enabled && steps <= self.count
    }

    /// The snapshot pushed `steps_back` pushes ago; 1 is the latest.
    pub fn get(&self, steps_back: usize) -> (r: Option<&CpuSnapshot>)
        requires
            self.wf(),
        ensures
            r is Some <==> 1 <= steps_back <= self.count,
            r is Some ==> *r->0 == self.entries()[self.count - steps_back],
    {
        if steps_back == 0 || steps_back > self.count {
            return None;
        }
        let capacity: usize = self.snapshots.len();
        let index: usize = if self.head >= steps_back {
            self.head - steps_back
        } else {
            capacity - (steps_back - self.head)
        };
        assert(index == ring_slot(self.head as int, capacity as int, steps_back as int));
        self.snapshots[index].as_ref()
    }

    /// Forgets the latest snapshot.
    pub fn pop(&mut self)
        requires
            old(self).wf(),
        ensures
            final(self).wf(),
            final(self).enabled == old(self).enabled,
            final(self).snapshots@.len() == old(self).snapshots@.len(),
            old(self).count == 0 ==> *final(self) == *old(self),
            old(self).count > 0 ==> final(self).entries() == old(self).entries().drop_last()
                && final(self).snapshots@ == old(self).snapshots@.update(
                final(self).head as int,
                None,
            ),
    {
        if self.count == 0 {
            return;
        }
        let capacity: usize = self.snapshots.len();
        self.head = if self.head == 0 {
            capacity - 1
        } else {
            self.head - 1
        };
        self.snapshots.set(self.head, None);
        self.count = self.count - 1;
        proof {
            let cap = capacity as int;
            assert forall|k: int| 1 <= k <= self.count implies #[trigger] self.snapshots@[ring_slot(
                self.head as int,
                cap,
                k,
            )] is Some by {
                assert(ring_slot(self.head as int, cap, k) == ring_slot(
                    old(self).head as int,
                    cap,
                    k + 1,
                ));
                assert(old(self).snapshots@[ring_slot(
                    old(self).head as int,
                    cap,
                    k + 1,
                )] is Some);
            }
            assert(self.entries() =~= old(self).entries().drop_last());
        }
    }

    pub fn clear(&mut self)
        requires
            old(self).wf(),
        ensures
            final(self).wf(),
            final(self).enabled == old(self).enabled,
            final(self).head == 0,
            final(self).entries() == Seq::<CpuSnapshot>::empty(),
            final(self).snapshots@.len() == old(self).snapshots@.len(),
            forall|i: int|
                0 <= i < final(self).snapshots@.len() ==> #[trigger] final(self).snapshots@[i] is None,
    {
        self.head = 0;
        self.count = 0;
        let n: usize = self.snapshots.len();
        let mut i: usize = 0;
        while i < n
            invariant
                i <= n,
                n == self.snapshots@.len(),
                n == old(self).snapshots@.len(),
                self.head == 0,
                self.count == 0,
                self.enabled == old(self).enabled,
                forall|j: int| 0 <= j < i ==> #[trigger] self.snapshots@[j] is None,
            decreases n - i,
        {
            self.snapshots.set(i, None);
            i = i + 1;
        }
        assert(self.entries() =~= Seq::<CpuSnapshot>::empty());
    }

    /// How many snapshots fit before the oldest is overwritten.
    pub fn capacity(&self) -> (n: usize)
        ensures
            n == self.snapshots@.len(),
    {
        self.snapshots.len()
    }

    /// Grows the ring to `new_capacity` slots, keeping every snapshot at its depth. A
    /// capacity that is already reached changes nothing: the ring never shrinks.
    pub fn resize(&mut self, new_capacity: usize)
        requires
            old(self).wf(),
        ensures
            final(self).wf(),
            new_capacity <= old(self).snapshots@.len() ==> *final(self) == *old(self),
            new_capacity > old(self).snapshots@.len() ==> final(self).snapshots@.len()
                == new_capacity,
            final(self).enabled == old(self).enabled,
            final(self).count == old(self).count,
            final(self).entries() == old(self).entries(),
    {
        if new_capacity <= self.snapshots.len() {
            return;
        }
        let capacity: usize = self.snapshots.len();
        let old_count: usize = self.count;
        let mut ordered: Vec<Option<CpuSnapshot>> = Vec::new();
        let mut back: usize = old_count;
        while back > 0
            invariant
                old(self).wf(),
                back <= old_count,
                old_count == self.count,
                old_count == old(self).count,
                capacity == self.snapshots@.len(),
                capacity == old(self).snapshots@.len(),
                self.head == old(self).head,
                self.enabled == old(self).enabled,
                ordered@.len() == old_count - back,
                forall|j: int|
                    0 <= j < ordered@.len() ==> #[trigger] ordered@[j] == Some(
                        old(self).entries()[j],
                    ),
                forall|k: int|
                    1 <= k <= back ==> #[trigger] self.snapshots@[ring_slot(
                        self.head as int,
                        capacity as int,
                        k,
                    )] == old(self).snapshots@[ring_slot(self.head as int, capacity as int, k)],
            decreases back,
        {
            let index: usize = if self.head >= back {
                self.head - back
            } else {
                capacity - (back - self.head)
            };
            assert(index == ring_slot(self.head as int, capacity as int, back as int));
            assert(old(self).snapshots@[ring_slot(
                self.head as int,
                capacity as int,
                back as int,
            )] is Some);
            let mut slot: Option<CpuSnapshot> = None;
            core::mem::swap(&mut slot, &mut self.snapshots[index]);
            ordered.push(slot);
            back = back - 1;
        }
        while ordered.len() < new_capacity
            invariant
                old_count <= ordered@.len() <= new_capacity,
                forall|j: int|
                    0 <= j < old_count ==> #[trigger] ordered@[j] == Some(old(self).entries()[j]),
            decreases new_capacity - ordered.len(),
        {
            ordered.push(None);
        }
        self.snapshots = ordered;
        self.head = old_count;
        self.count = old_count;
        assert(self.entries() =~= old(self).entries());
    }
}

/// `n` empty slots.
fn empty_slots(n: usize) -> (v: Vec<Option<CpuSnapshot>>)
    ensures
        v@.len() == n,
        forall|i: int| 0 <= i < n ==> #[trigger] v@[i] is None,
{
    let mut v: Vec<Option<CpuSnapshot>> = Vec::new();
    while v.len() < n
        invariant
            v@.len() <= n,
            forall|i: int| 0 <= i < v@.len() ==> #[trigger] v@[i] is None,
        decreases n - v.len(),
    {
        v.push(None);
    }
    v
}

/// History `s` of a ring of `cap` slots after one more push.
pub open spec fn pushed(s: Seq<CpuSnapshot>, cap: nat, x: CpuSnapshot) -> Seq<CpuSnapshot> {
    if s.len() < cap {
        s.push(x)
    } else {
        s.drop_first().push(x)
    }
}

/// Law: after any run of pushes onto an empty history, the history is the last
/// `cap` of the pushed snapshots, in the order they were pushed.
pub proof fn law_pushes_keep_the_latest(xs: Seq<CpuSnapshot>, cap: nat)
    requires
        cap > 0,
    ensures
        xs.fold_left(Seq::<CpuSnapshot>::empty(), |s: Seq<CpuSnapshot>, x: CpuSnapshot| pushed(s, cap, x))
            == xs.subrange(
            if xs.len() <= cap {
                0
            } else {
                xs.len() - cap
            },
            xs.len() as int,
        ),
    decreases xs.len(),
{
    let f = |s: Seq<CpuSnapshot>, x: CpuSnapshot| pushed(s, cap, x);
    let e = Seq::<CpuSnapshot>::empty();
    if xs.len() > 0 {
        let p = xs.drop_last();
        law_pushes_keep_the_latest(p, cap);
        assert(xs.fold_left(e, f) == f(p.fold_left(e, f), xs.last()));
    }
    assert(xs.fold_left(e, f) =~= xs.subrange(
        if xs.len() <= cap {
            0
        } else {
            xs.len() - cap
        },
        xs.len() as int,
    ));
}

/// Law: a pop undoes a push that found a free slot.
pub proof fn law_pop_undoes_push(s: Seq<CpuSnapshot>, cap: nat, x: CpuSnapshot)
    requires
        s.len() < cap,
    ensures
        pushed(s, cap, x).drop_last() == s,
{
    assert(pushed(s, cap, x).drop_last() =~= s);
}

} // verus!
