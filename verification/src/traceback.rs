//! The last million executed instructions.
use vstd::prelude::*;

use crate::undo::ring_slot;

verus! {

/// How many instructions are remembered.
pub const TRACEBACK_SIZE: usize = 1048576;

#[derive(Clone, Copy, Debug, PartialEq, Eq, Structural)]
pub struct TracebackEntry {
    pub pc: u64,
    pub instr: u32,
}

/// Ring of executed instructions.
pub struct TracebackBuffer {
    pub entries: Vec<TracebackEntry>,
    pub head: usize,
    pub count: usize,
}

/// History `s` after one more instruction.
pub open spec fn traced(s: Seq<TracebackEntry>, e: TracebackEntry) -> Seq<TracebackEntry> {
    if s.len() < TRACEBACK_SIZE {
        s.push(e)
    } else {
        s.drop_first().push(e)
    }
}

/// The last `n` entries of `s`, or all of them where there are fewer.
pub open spec fn tail(s: Seq<TracebackEntry>, n: nat) -> Seq<TracebackEntry> {
    if n >= s.len() {
        s
    } else {
        s.skip(s.len() - n)
    }
}

impl TracebackBuffer {
    pub open spec fn wf(&self) -> bool {
        &&& self.entries@.len() == TRACEBACK_SIZE
        &&& self.head < TRACEBACK_SIZE
        &&& self.count <= TRACEBACK_SIZE
    }

    /// The remembered instructions, oldest first.
    pub open spec fn history(&self) -> Seq<TracebackEntry> {
        Seq::new(
            self.count as nat,
            |i: int| self.entries@[ring_slot(self.head as int, TRACEBACK_SIZE as int, self.count - i)],
        )
    }

    pub fn new() -> (b: Self)
        ensures
            b.wf(),
            b.history() == Seq::<TracebackEntry>::empty(),
    {
        let mut v: Vec<TracebackEntry> = Vec::new();
        while v.len() < TRACEBACK_SIZE
            invariant
                v@.len() <= TRACEBACK_SIZE,
            decreases TRACEBACK_SIZE - v.len(),
        {
            v.push(TracebackEntry { pc: 0, instr: 0 });
        }
        let b = TracebackBuffer { entries: v, head: 0, count: 0 };
        assert(b.history() =~= Seq::<TracebackEntry>::empty());
        b
    }

    pub fn push(&mut self, pc: u64, instr: u32)
        requires
            old(self).wf(),
        ensures
            final(self).wf(),
            final(self).history() == traced(old(self).history(), (TracebackEntry { pc, instr })),
    {
        self.entries.set(self.head, TracebackEntry { pc, instr });
        self.head = if self.head + 1 == TRACEBACK_SIZE {
            0
        } else {
            self.head + 1
        };
        if self.count < TRACEBACK_SIZE {
            self.count = self.count + 1;
        }
        proof {
            let cap = TRACEBACK_SIZE as int;
            let e = TracebackEntry { pc, instr };
            assert(self.history().len() == traced(old(self).history(), e).len());
            assert forall|i: int| 0 <= i < self.history().len() implies self.history()[i] == traced(
                old(self).history(),
                e,
            )[i] by {
                let k = self.count - i;
                if k > 1 {
                    assert(ring_slot(self.head as int, cap, k) == ring_slot(
                        old(self).head as int,
                        cap,
                        k - 1,
                    ));
                }
            }
            assert(self.history() =~= traced(old(self).history(), e));
        }
    }

    /// The last `n` instructions, oldest first.
    pub fn get_last(&self, n: usize) -> (r: Vec<TracebackEntry>)
        requires
            self.wf(),
        ensures
            r@ == tail(self.history(), n as nat),
    {
        let count: usize = if n < self.count {
            n
        } else {
            self.count
        };
        let mut result: Vec<TracebackEntry> = Vec::new();
        let mut back: usize = count;
        while back > 0
            invariant
                self.wf(),
                back <= count,
                count <= self.count,
                result@.len() == count - back,
                forall|j: int|
                    0 <= j < result@.len() ==> #[trigger] result@[j] == self.history()[self.count
                        - count + j],
            decreases back,
        {
            let idx: usize = if self.head >= back {
                self.head - back
            } else {
                TRACEBACK_SIZE - (back - self.head)
            };
            assert(idx == ring_slot(self.head as int, TRACEBACK_SIZE as int, back as int));
            result.push(self.entries[idx]);
            back = back - 1;
        }
        assert(result@ =~= tail(self.history(), n as nat));
        result
    }
}

/// The history after the instructions `xs`.
pub open spec fn traced_all(s: Seq<TracebackEntry>, xs: Seq<TracebackEntry>) -> Seq<TracebackEntry>
    decreases xs.len(),
{
    if xs.len() == 0 {
        s
    } else {
        traced(traced_all(s, xs.drop_last()), xs.last())
    }
}

/// Law: of the instructions that have run, the latest are remembered, in their order, and
/// the one that ran `back` instructions ago is found at that place from the end.
pub proof fn law_latest_instructions_are_remembered(xs: Seq<TracebackEntry>, n: nat, back: int)
    requires
        0 < back <= xs.len(),
        back <= n,
        back <= TRACEBACK_SIZE,
    ensures
        ({
            let r = tail(traced_all(Seq::empty(), xs), n);
            &&& r.len() >= back
            &&& r[r.len() - back] == xs[xs.len() - back]
            &&& r.len() <= n
        }),
    decreases xs.len(),
{
    lemma_remembered(xs, back);
}

proof fn lemma_remembered(xs: Seq<TracebackEntry>, back: int)
    requires
        0 < back <= xs.len(),
        back <= TRACEBACK_SIZE,
    ensures
        ({
            let r = traced_all(Seq::empty(), xs);
            &&& back <= r.len() <= TRACEBACK_SIZE
            &&& r[r.len() - back] == xs[xs.len() - back]
        }),
    decreases xs.len(),
{
    let p = xs.drop_last();
    if p.len() > 0 {
        lemma_remembered(p, 1);
        if back > 1 {
            lemma_remembered(p, back - 1);
            assert(p[p.len() - (back - 1)] == xs[xs.len() - back]);
        }
    } else {
        assert(traced_all(Seq::<TracebackEntry>::empty(), p) == Seq::<TracebackEntry>::empty());
    }
}

} // verus!
