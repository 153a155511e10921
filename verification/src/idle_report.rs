//! What the samples of the program counter say: the busiest places, and the loop in
//! which the guest seems to idle.
use vstd::prelude::*;
use vstd::seq_lib::*;
use vstd::std_specs::iter::IteratorSpec;

use crate::bus::{BusDevice, MipsCache, Tlb};
use crate::frame::law_debugger_accesses_leave_no_trace;
use crate::idle::{IdleProfiler, IdleSample};
use crate::machine::{Machine, MipsExecutor};
use crate::memory::fetched_word;
use crate::symbols::{format_pc_symbol, pc_symbol};

verus! {

broadcast use vstd::std_specs::hash::group_hash_axioms;

/// Largest distance of two addresses in an idle loop.
pub const IDLE_WINDOW: u64 = 256;

/// A sampled program counter.
#[derive(Clone, Copy, Debug, PartialEq, Eq, Structural)]
pub struct SampledPc {
    pub pc: u64,
    pub sample: IdleSample,
}

/// Interrupts were enabled in at least 99 of 100 samples.
pub open spec fn always_interruptible(s: IdleSample) -> bool {
    s.ie_count * 100 >= s.count * 99
}

/// The order of addresses, or that of counts, busiest first, in which addresses break
/// ties.
pub open spec fn in_order(a: SampledPc, b: SampledPc, by_count: bool) -> bool {
    if by_count {
        a.sample.count > b.sample.count || (a.sample.count == b.sample.count && a.pc <= b.pc)
    } else {
        a.pc <= b.pc
    }
}

pub open spec fn is_ordered(s: Seq<SampledPc>, by_count: bool) -> bool {
    forall|i: int, j: int| 0 <= i < j < s.len() ==> in_order(#[trigger] s[i], #[trigger] s[j], by_count)
}

/// `s` holds each sampled program counter of `m` once.
pub open spec fn lists(s: Seq<SampledPc>, m: Map<u64, IdleSample>) -> bool {
    &&& forall|i: int| #![trigger s[i]] 0 <= i < s.len() ==> m.contains_key(s[i].pc) && m[s[i].pc] == s[i].sample
    &&& forall|pc: u64| #[trigger]
        m.contains_key(pc) ==> s.contains((SampledPc { pc, sample: m[pc] }))
    &&& s.no_duplicates()
}

fn goes_first(a: &SampledPc, b: &SampledPc, by_count: bool) -> (r: bool)
    ensures
        r == in_order(*a, *b, by_count),
{
    if by_count {
        a.sample.count > b.sample.count || (a.sample.count == b.sample.count && a.pc <= b.pc)
    } else {
        a.pc <= b.pc
    }
}

/// Moving an entry from one list to another leaves both together as they were.
proof fn lemma_taken(v: Seq<SampledPc>, a: Seq<SampledPc>, i: int, b: Seq<SampledPc>)
    requires
        0 <= i < a.len(),
    ensures
        v.push(a[i]).to_multiset().add(a.skip(i + 1).to_multiset()).add(b.to_multiset())
            == v.to_multiset().add(a.skip(i).to_multiset()).add(b.to_multiset()),
{
    broadcast use group_to_multiset_ensures;

    assert(a.skip(i) =~= seq![a[i]] + a.skip(i + 1));
    lemma_multiset_commutative(seq![a[i]], a.skip(i + 1));
    assert(seq![a[i]] =~= Seq::<SampledPc>::empty().push(a[i]));
    assert(v.push(a[i]).to_multiset().add(a.skip(i + 1).to_multiset()).add(b.to_multiset())
        =~= v.to_multiset().add(a.skip(i).to_multiset()).add(b.to_multiset()));
}

/// Merges two ordered lists.
fn merged(a: &Vec<SampledPc>, b: &Vec<SampledPc>, by_count: bool) -> (v: Vec<SampledPc>)
    requires
        is_ordered(a@, by_count),
        is_ordered(b@, by_count),
    ensures
        is_ordered(v@, by_count),
        v@.to_multiset() == a@.to_multiset().add(b@.to_multiset()),
{
    broadcast use group_to_multiset_ensures;

    let mut v: Vec<SampledPc> = Vec::new();
    let mut i: usize = 0;
    let mut j: usize = 0;
    assert(a@.skip(0) =~= a@ && b@.skip(0) =~= b@);
    assert(v@.to_multiset().add(a@.to_multiset()).add(b@.to_multiset()) =~= a@.to_multiset().add(
        b@.to_multiset(),
    ));
    while i < a.len() || j < b.len()
        invariant
            i <= a@.len(),
            j <= b@.len(),
            is_ordered(a@, by_count),
            is_ordered(b@, by_count),
            is_ordered(v@, by_count),
            forall|k: int, l: int|
                0 <= k < v@.len() && i <= l < a@.len() ==> in_order(
                    #[trigger] v@[k],
                    #[trigger] a@[l],
                    by_count,
                ),
            forall|k: int, l: int|
                0 <= k < v@.len() && j <= l < b@.len() ==> in_order(
                    #[trigger] v@[k],
                    #[trigger] b@[l],
                    by_count,
                ),
            v@.to_multiset().add(a@.skip(i as int).to_multiset()).add(
                b@.skip(j as int).to_multiset(),
            ) == a@.to_multiset().add(b@.to_multiset()),
        decreases a@.len() - i + b@.len() - j,
    {
        if j == b.len() || (i < a.len() && goes_first(&a[i], &b[j], by_count)) {
            proof {
                lemma_taken(v@, a@, i as int, b@.skip(j as int));
            }
            v.push(a[i]);
            i = i + 1;
        } else {
            proof {
                lemma_taken(v@, b@, j as int, a@.skip(i as int));
                assert(v@.to_multiset().add(a@.skip(i as int).to_multiset()).add(
                    b@.skip(j as int).to_multiset(),
                ) =~= v@.to_multiset().add(b@.skip(j as int).to_multiset()).add(
                    a@.skip(i as int).to_multiset(),
                ));
                assert(v@.push(b@[j as int]).to_multiset().add(a@.skip(i as int).to_multiset()).add(
                    b@.skip(j + 1).to_multiset(),
                ) =~= v@.push(b@[j as int]).to_multiset().add(b@.skip(j + 1).to_multiset()).add(
                    a@.skip(i as int).to_multiset(),
                ));
            }
            v.push(b[j]);
            j = j + 1;
        }
    }
    assert(a@.skip(i as int) =~= Seq::<SampledPc>::empty());
    assert(b@.skip(j as int) =~= Seq::<SampledPc>::empty());
    assert(v@.to_multiset() =~= a@.to_multiset().add(b@.to_multiset()));
    v
}

/// The entries `from` up to `to` of `v`, in order.
fn sorted(v: &Vec<SampledPc>, from: usize, to: usize, by_count: bool) -> (r: Vec<SampledPc>)
    requires
        from <= to <= v@.len(),
    ensures
        is_ordered(r@, by_count),
        r@.to_multiset() == v@.subrange(from as int, to as int).to_multiset(),
    decreases to - from,
{
    if to - from <= 1 {
        let mut r: Vec<SampledPc> = Vec::new();
        if from < to {
            r.push(v[from]);
        }
        assert(r@ =~= v@.subrange(from as int, to as int));
        return r;
    }
    let mid: usize = from + (to - from) / 2;
    let a: Vec<SampledPc> = sorted(v, from, mid, by_count);
    let b: Vec<SampledPc> = sorted(v, mid, to, by_count);
    proof {
        lemma_multiset_commutative(
            v@.subrange(from as int, mid as int),
            v@.subrange(mid as int, to as int),
        );
        assert(v@.subrange(from as int, mid as int) + v@.subrange(mid as int, to as int)
            =~= v@.subrange(from as int, to as int));
    }
    merged(&a, &b, by_count)
}

proof fn lemma_rearranged_lists(s: Seq<SampledPc>, t: Seq<SampledPc>, m: Map<u64, IdleSample>)
    requires
        lists(s, m),
        s.to_multiset() == t.to_multiset(),
    ensures
        lists(t, m),
        t.len() == s.len(),
{
    broadcast use group_to_multiset_ensures;

    s.lemma_multiset_has_no_duplicates();
    assert(t.to_multiset().len() == t.len() && s.to_multiset().len() == s.len());
    t.lemma_multiset_has_no_duplicates_conv();
    assert forall|i: int| #![trigger t[i]] 0 <= i < t.len() implies m.contains_key(t[i].pc)
        && m[t[i].pc] == t[i].sample by {
        assert(t.contains(t[i]));
        assert(t.to_multiset().contains(t[i]));
        assert(s.to_multiset().contains(t[i]));
        assert(s.contains(t[i]));
    }
    assert forall|pc: u64| #[trigger] m.contains_key(pc) implies t.contains(
        (SampledPc { pc, sample: m[pc] }),
    ) by {
        let p = SampledPc { pc, sample: m[pc] };
        assert(s.contains(p));
        assert(s.to_multiset().contains(p));
        assert(t.to_multiset().contains(p));
    }
}

impl IdleProfiler {
    /// All sampled program counters, in the order of their addresses or busiest first.
    pub fn ranking(&self, by_count: bool) -> (v: Vec<SampledPc>)
        ensures
            lists(v@, self@.hist),
            is_ordered(v@, by_count),
    {
        let mut all: Vec<SampledPc> = Vec::new();
        for pc in it: self.hist.keys()
            invariant
                it.seq() == self.hist.keys().remaining(),
                all@.len() == it.index(),
                0 <= it.index() <= it.seq().len(),
                forall|i: int|
                    #![trigger all@[i]]
                    0 <= i < all@.len() ==> all@[i].pc == *it.seq()[i] && self.hist@.contains_key(
                        all@[i].pc,
                    ) && self.hist@[all@[i].pc] == all@[i].sample,
        {
            proof {
                let keys = self.hist.keys().remaining();
                assert(keys.unref()[it.index()] == *pc);
                assert(keys.unref().to_set().contains(*pc));
            }
            if let Some(s) = self.hist.get(pc) {
                all.push(SampledPc { pc: *pc, sample: *s });
            }
        }
        proof {
            let keys = self.hist.keys().remaining();
            assert forall|pc: u64| #[trigger] self.hist@.contains_key(pc) implies all@.contains(
                (SampledPc { pc, sample: self.hist@[pc] }),
            ) by {
                assert(keys.unref().to_set().contains(pc));
                let i = choose|i: int| 0 <= i < keys.unref().len() && keys.unref()[i] == pc;
                assert(all@[i].pc == *keys[i]);
            }
            assert forall|i: int, j: int| 0 <= i < all@.len() && 0 <= j < all@.len() && i
                != j implies all@[i] != all@[j] by {
                assert(*keys[i] != *keys[j]);
            }
            assert(all@.subrange(0, all@.len() as int) =~= all@);
        }
        let n: usize = all.len();
        let v: Vec<SampledPc> = sorted(&all, 0, n, by_count);
        proof {
            lemma_rearranged_lists(all@, v@, self.hist@);
        }
        v
    }
}

/// Samples of the address `pc`, if interrupts were always enabled there.
pub open spec fn weight(m: Map<u64, IdleSample>, pc: int) -> nat {
    if 0 <= pc <= u64::MAX && is_busy(m, pc as u64) {
        m[pc as u64].count as nat
    } else {
        0
    }
}

/// `pc` was sampled, and with interrupts always enabled.
pub open spec fn is_busy(m: Map<u64, IdleSample>, pc: u64) -> bool {
    m.contains_key(pc) && always_interruptible(m[pc])
}

/// Samples of the addresses from `lo` up to `end` that interrupts could end.
pub open spec fn covered(m: Map<u64, IdleSample>, lo: int, end: int) -> nat
    decreases end - lo,
{
    if end <= lo {
        0
    } else {
        covered(m, lo, end - 1) + weight(m, end - 1)
    }
}

/// The addresses from `lo` to `hi` are close together and hold at least half of `total`
/// samples.
pub open spec fn is_idle_window(m: Map<u64, IdleSample>, total: u64, lo: u64, hi: u64) -> bool {
    &&& is_busy(m, lo) && is_busy(m, hi)
    &&& lo <= hi <= lo + IDLE_WINDOW
    &&& covered(m, lo as int, hi + 1) * 2 >= total
}

/// The first window is smaller than the second, or holds more, or lies first.
pub open spec fn is_tighter(m: Map<u64, IdleSample>, lo: u64, hi: u64, lo2: u64, hi2: u64) -> bool {
    let a = covered(m, lo as int, hi + 1);
    let b = covered(m, lo2 as int, hi2 + 1);
    ||| hi - lo < hi2 - lo2
    ||| hi - lo == hi2 - lo2 && (a > b || (a == b && lo <= lo2))
}

/// The smallest window with half of the samples.
pub open spec fn is_idle_loop(m: Map<u64, IdleSample>, total: u64, lo: u64, hi: u64) -> bool {
    &&& is_idle_window(m, total, lo, hi)
    &&& forall|lo2: u64, hi2: u64| #[trigger]
        is_idle_window(m, total, lo2, hi2) ==> is_tighter(m, lo, hi, lo2, hi2)
}

/// A range of addresses, and the samples in it.
#[derive(Clone, Copy, Debug, PartialEq, Eq, Structural)]
pub struct IdleWindow {
    pub lo: u64,
    pub hi: u64,
    pub covered: u128,
}

/// `h` holds the addresses at which interrupts were always enabled, in order.
spec fn is_busy_list(h: Seq<SampledPc>, m: Map<u64, IdleSample>) -> bool {
    &&& forall|i: int|
        #![trigger h[i]]
        0 <= i < h.len() ==> is_busy(m, h[i].pc) && m[h[i].pc] == h[i].sample
    &&& forall|i: int, j: int| 0 <= i < j < h.len() ==> (#[trigger] h[i]).pc < (#[trigger] h[j]).pc
    &&& forall|pc: u64| #[trigger] is_busy(m, pc) ==> h.contains((SampledPc { pc, sample: m[pc] }))
}

/// The window from entry `i` to entry `j`.
spec fn window_at(
    h: Seq<SampledPc>,
    m: Map<u64, IdleSample>,
    total: u64,
    i: int,
    j: int,
) -> bool {
    0 <= i <= j < h.len() && is_idle_window(m, total, h[i].pc, h[j].pc)
}

proof fn lemma_covered_bound(m: Map<u64, IdleSample>, lo: int, end: int)
    requires
        lo <= end,
    ensures
        covered(m, lo, end) <= (end - lo) * 0x1_0000_0000_0000_0000,
    decreases end - lo,
{
    if lo < end {
        lemma_covered_bound(m, lo, end - 1);
    }
}

proof fn lemma_covered_gap(m: Map<u64, IdleSample>, lo: int, a: int, b: int)
    requires
        lo <= a <= b,
        forall|x: int| a <= x < b ==> #[trigger] weight(m, x) == 0,
    ensures
        covered(m, lo, b) == covered(m, lo, a),
    decreases b - a,
{
    if a < b {
        assert(weight(m, b - 1) == 0);
        lemma_covered_gap(m, lo, a, b - 1);
    }
}

/// Going from one entry to the next adds the samples of the next.
proof fn lemma_next_entry(h: Seq<SampledPc>, m: Map<u64, IdleSample>, i: int, j: int)
    requires
        is_busy_list(h, m),
        0 <= i < j < h.len(),
    ensures
        covered(m, h[i].pc as int, h[j].pc + 1) == covered(m, h[i].pc as int, h[j - 1].pc + 1)
            + h[j].sample.count,
{
    assert forall|x: int| h[j - 1].pc + 1 <= x < h[j].pc implies #[trigger] weight(m, x) == 0 by {
        if is_busy(m, x as u64) {
            let p = SampledPc { pc: x as u64, sample: m[x as u64] };
            assert(h.contains(p));
            let k = choose|k: int| 0 <= k < h.len() && h[k] == p;
            if k < j - 1 {
                assert(h[k].pc < h[j - 1].pc);
            } else if k > j {
                assert(h[j].pc < h[k].pc);
            }
        }
    }
    if i < j - 1 {
        assert(h[i].pc < h[j - 1].pc);
    }
    assert(h[j - 1].pc < h[j].pc);
    lemma_covered_gap(m, h[i].pc as int, h[j - 1].pc + 1, h[j].pc as int);
}

fn busy_entries(v: &Vec<SampledPc>, Ghost(m): Ghost<Map<u64, IdleSample>>) -> (h: Vec<SampledPc>)
    requires
        lists(v@, m),
        is_ordered(v@, false),
    ensures
        is_busy_list(h@, m),
{
    let mut h: Vec<SampledPc> = Vec::new();
    let mut i: usize = 0;
    while i < v.len()
        invariant
            i <= v@.len(),
            lists(v@, m),
            is_ordered(v@, false),
            forall|k: int|
                #![trigger h@[k]]
                0 <= k < h@.len() ==> is_busy(m, h@[k].pc) && m[h@[k].pc] == h@[k].sample
                    && v@.take(i as int).contains(h@[k]),
            forall|k: int, l: int|
                0 <= k < l < h@.len() ==> (#[trigger] h@[k]).pc < (#[trigger] h@[l]).pc,
            forall|k: int|
                #![trigger v@[k]]
                0 <= k < i && always_interruptible(v@[k].sample) ==> h@.contains(v@[k]),
        decreases v@.len() - i,
    {
        let e: SampledPc = v[i];
        let ghost before = h@;
        if e.sample.ie_count as u128 * 100 >= e.sample.count as u128 * 99 {
            proof {
                assert forall|k: int| 0 <= k < h@.len() implies (#[trigger] h@[k]).pc < e.pc by {
                    assert(v@.take(i as int).contains(h@[k]));
                    let x = choose|x: int|
                        0 <= x < v@.take(i as int).len() && v@.take(i as int)[x] == h@[k];
                    assert(v@[x] == h@[k]);
                    assert(in_order(v@[x], v@[i as int], false));
                    if v@[x].pc == e.pc {
                        assert(v@[x] == v@[i as int]);
                    }
                }
            }
            h.push(e);
            assert(h@[h@.len() - 1] == e);
        }
        proof {
            assert(v@.take(i + 1)[i as int] == e);
            assert forall|k: int| #![trigger h@[k]] 0 <= k < h@.len() implies v@.take(
                i + 1,
            ).contains(h@[k]) by {
                if k < before.len() {
                    assert(before[k] == h@[k]);
                    let x = choose|x: int|
                        0 <= x < v@.take(i as int).len() && v@.take(i as int)[x] == h@[k];
                    assert(v@.take(i + 1)[x] == h@[k]);
                }
            }
            assert forall|k: int|
                #![trigger v@[k]]
                0 <= k < i + 1 && always_interruptible(v@[k].sample) implies h@.contains(v@[k]) by {
                if k < i {
                    let x = choose|x: int| 0 <= x < before.len() && before[x] == v@[k];
                    assert(h@[x] == v@[k]);
                }
            }
        }
        i = i + 1;
    }
    proof {
        assert forall|pc: u64| #[trigger] is_busy(m, pc) implies h@.contains(
            (SampledPc { pc, sample: m[pc] }),
        ) by {
            let p = SampledPc { pc, sample: m[pc] };
            assert(v@.contains(p));
            let k = choose|k: int| 0 <= k < v@.len() && v@[k] == p;
            assert(always_interruptible(v@[k].sample));
        }
    }
    h
}

/// `w` is the best of the windows that start before entry `i`, or at it and end before
/// entry `j`.
spec fn is_best(
    w: Option<IdleWindow>,
    h: Seq<SampledPc>,
    m: Map<u64, IdleSample>,
    total: u64,
    i: int,
    j: int,
) -> bool {
    &&& w matches Some(b) ==> is_idle_window(m, total, b.lo, b.hi) && b.covered == covered(
        m,
        b.lo as int,
        b.hi + 1,
    ) && forall|k: int| i <= k < h.len() ==> b.lo <= (#[trigger] h[k]).pc
    &&& forall|k: int, l: int|
        (k < i || (k == i && l < j)) && #[trigger] window_at(h, m, total, k, l) ==> (
        w matches Some(b) && is_tighter(m, b.lo, b.hi, h[k].pc, h[l].pc))
}

impl IdleProfiler {
    /// The smallest range of addresses, of at most 256 bytes, with interrupts always
    /// enabled and at least half of all samples.
    pub fn idle_loop(&self) -> (r: Option<IdleWindow>)
        ensures
            match r {
                Some(w) => is_idle_loop(self@.hist, self.total, w.lo, w.hi) && w.covered == covered(
                    self@.hist,
                    w.lo as int,
                    w.hi + 1,
                ),
                None => forall|lo: u64, hi: u64|
                    !is_idle_window(self@.hist, self.total, lo, hi),
            },
    {
        let all: Vec<SampledPc> = self.ranking(false);
        let ghost m = self@.hist;
        let h: Vec<SampledPc> = busy_entries(&all, Ghost(m));
        let total: u64 = self.total;
        let n: usize = h.len();
        let mut best: Option<IdleWindow> = None;
        let mut i: usize = 0;
        while i < n
            invariant
                i <= n,
                n == h@.len(),
                total == self.total,
                is_busy_list(h@, m),
                is_best(best, h@, m, total, i as int, i as int),
            decreases n - i,
        {
            best = Self::best_from(&h, total, i, best, Ghost(m));
            i = i + 1;
        }
        proof {
            assert forall|lo: u64, hi: u64| #[trigger] is_idle_window(m, total, lo, hi) implies (
            best matches Some(b) && is_tighter(m, b.lo, b.hi, lo, hi)) by {
                assert(h@.contains((SampledPc { pc: lo, sample: m[lo] })));
                assert(h@.contains((SampledPc { pc: hi, sample: m[hi] })));
                let k = choose|k: int| 0 <= k < h@.len() && h@[k].pc == lo;
                let l = choose|l: int| 0 <= l < h@.len() && h@[l].pc == hi;
                if l < k {
                    assert(h@[l].pc < h@[k].pc);
                }
                assert(window_at(h@, m, total, k, l));
            }
        }
        best
    }

    /// The best of `best` and the windows that start at entry `i`.
    fn best_from(
        h: &Vec<SampledPc>,
        total: u64,
        i: usize,
        best: Option<IdleWindow>,
        Ghost(m): Ghost<Map<u64, IdleSample>>,
    ) -> (r: Option<IdleWindow>)
        requires
            i < h@.len(),
            is_busy_list(h@, m),
            is_best(best, h@, m, total, i as int, i as int),
        ensures
            is_best(r, h@, m, total, i + 1, i + 1),
    {
        let lo: u64 = h[i].pc;
        let mut best: Option<IdleWindow> = best;
        let mut sum: u128 = 0;
        let mut j: usize = i;
        while j < h.len() && h[j].pc - lo <= IDLE_WINDOW
            invariant
                i <= j <= h@.len(),
                i < h@.len(),
                lo == h@[i as int].pc,
                is_busy_list(h@, m),
                is_best(best, h@, m, total, i as int, j as int),
                j == i ==> sum == 0,
                j > i ==> sum == covered(m, lo as int, h@[j - 1].pc + 1) && h@[j - 1].pc - lo
                    <= IDLE_WINDOW,
                forall|k: int| i <= k < h@.len() ==> (#[trigger] h@[k]).pc >= lo,
            decreases h@.len() - j,
        {
            let hi: u64 = h[j].pc;
            proof {
                if i < j {
                    lemma_next_entry(h@, m, i as int, j as int);
                } else {
                    assert(covered(m, lo as int, lo as int) == 0);
                }
                lemma_covered_bound(m, lo as int, hi + 1);
            }
            sum = sum + h[j].sample.count as u128;
            assert(sum == covered(m, lo as int, hi + 1));
            if sum * 2 >= total as u128 {
                let better: bool = match &best {
                    None => true,
                    Some(b) => hi - lo < b.hi - b.lo || (hi - lo == b.hi - b.lo && sum > b.covered),
                };
                if better {
                    best = Some(IdleWindow { lo, hi, covered: sum });
                }
            }
            j = j + 1;
        }
        proof {
            assert forall|k: int, l: int|
                (k < i + 1) && #[trigger] window_at(h@, m, total, k, l) implies (best matches Some(
                b,
            ) && is_tighter(m, b.lo, b.hi, h@[k].pc, h@[l].pc)) by {
                if k == i && l >= j {
                    if l > j {
                        assert(h@[j as int].pc < h@[l].pc);
                    }
                }
            }
            assert forall|k: int, l: int| k == i + 1 && l < i + 1 implies !(#[trigger] window_at(
                h@,
                m,
                total,
                k,
                l,
            )) by {}
        }
        best
    }
}

/// One of the busiest addresses.
pub struct IdleRow {
    pub pc: u64,
    pub sample: IdleSample,
    /// The address shown by the nearest symbol.
    pub symbol: String,
    /// The instruction, where it could be fetched.
    pub instr: Option<u32>,
}

/// What the samples show.
pub struct IdleReport {
    pub total: u64,
    pub stride: u64,
    /// Number of different addresses that were sampled.
    pub distinct: usize,
    pub rows: Vec<IdleRow>,
    /// The loop in which the guest seems to idle, and its first address by symbol.
    pub idle_loop: Option<(IdleWindow, String)>,
}

impl<T: Tlb, C: MipsCache, B: BusDevice> Machine<T, C, B> {
    /// The machine after the instructions at the first `n` of `s` have been looked at.
    pub open spec fn after_looking(self, s: Seq<SampledPc>, n: int) -> Self
        decreases n,
    {
        if n <= 0 {
            self
        } else {
            let m = self.after_looking(s, n - 1);
            m.fetch(true, s[n - 1].pc).1
        }
    }

    /// `row` shows entry `i` of the ranking `s`.
    pub open spec fn is_row(self, row: IdleRow, s: Seq<SampledPc>, i: int) -> bool {
        &&& row.pc == s[i].pc
        &&& row.sample == s[i].sample
        &&& row.symbol@ == pc_symbol(s[i].pc, self.tools.symbols)
        &&& row.instr == match fetched_word(self.after_looking(s, i).fetch(true, s[i].pc).0) {
            Ok(w) => Some(w),
            Err(_) => None,
        }
    }

    /// `r` shows the `top` first entries of the ranking `s`.
    pub open spec fn is_report(self, r: IdleReport, s: Seq<SampledPc>, top: usize) -> bool {
        let h = self.tools.idle;
        &&& lists(s, h.hist) && is_ordered(s, true)
        &&& r.total == h.total && r.stride == h.stride
        &&& r.distinct == s.len()
        &&& r.rows@.len() == if top < s.len() {
            top as nat
        } else {
            s.len()
        }
        &&& forall|i: int| 0 <= i < r.rows@.len() ==> self.is_row(#[trigger] r.rows@[i], s, i)
        &&& match r.idle_loop {
            Some((w, symbol)) => {
                &&& is_idle_loop(h.hist, h.total, w.lo, w.hi)
                &&& w.covered == covered(h.hist, w.lo as int, w.hi + 1)
                &&& symbol@ == pc_symbol(w.lo, self.tools.symbols)
            },
            None => forall|lo: u64, hi: u64| !is_idle_window(h.hist, h.total, lo, hi),
        }
    }
}

pub(crate) proof fn lemma_looking_keeps<T: Tlb, C: MipsCache, B: BusDevice>(
    m: Machine<T, C, B>,
    s: Seq<SampledPc>,
    n: int,
)
    ensures
        m.keeps(m.after_looking(s, n)),
        m.after_looking(s, n).core == m.core,
    decreases n,
{
    if n > 0 {
        lemma_looking_keeps(m, s, n - 1);
        law_debugger_accesses_leave_no_trace(m.after_looking(s, n - 1), s[n - 1].pc, 4, 0);
    }
}

impl<T: Tlb, C: MipsCache, B: BusDevice> MipsExecutor<T, C, B> {
    /// Reports the `top` busiest addresses, busiest first, and the loop in which the
    /// guest seems to idle. Without samples there is no report.
    pub fn idle_profile_report(&mut self, top: usize) -> (r: Option<IdleReport>)
        requires
            old(self).wf(),
        ensures
            final(self).wf(),
            r is None <==> old(self)@.tools.idle.total == 0,
            r is None ==> final(self)@ == old(self)@,
            r matches Some(rep) ==> exists|s: Seq<SampledPc>| #[trigger]
                old(self)@.is_report(rep, s, top) && final(self)@ == old(self)@.after_looking(
                    s,
                    rep.rows@.len() as int,
                ),
    {
        let ghost m = self@;
        if self.tools.idle_profiler.total == 0 {
            return None;
        }
        let all: Vec<SampledPc> = self.tools.idle_profiler.ranking(true);
        let found: Option<IdleWindow> = self.tools.idle_profiler.idle_loop();
        let total: u64 = self.tools.idle_profiler.total;
        let stride: u64 = self.tools.idle_profiler.stride;
        let distinct: usize = all.len();
        let shown: usize = if top < distinct {
            top
        } else {
            distinct
        };
        let mut rows: Vec<IdleRow> = Vec::new();
        while rows.len() < shown
            invariant
                rows@.len() <= shown <= all@.len(),
                self.wf(),
                m == old(self)@,
                self@ == m.after_looking(all@, rows@.len() as int),
                forall|i: int| 0 <= i < rows@.len() ==> m.is_row(#[trigger] rows@[i], all@, i),
            decreases shown - rows@.len(),
        {
            let i: usize = rows.len();
            let pc: u64 = all[i].pc;
            proof {
                lemma_looking_keeps(m, all@, i as int);
            }
            let symbol: String = format_pc_symbol(pc, &self.tools.symbols);
            let instr: Option<u32> = match self.debug_fetch_instr(pc) {
                Ok(w) => Some(w),
                Err(_) => None,
            };
            let row = IdleRow { pc, sample: all[i].sample, symbol, instr };
            assert(m.is_row(row, all@, i as int));
            rows.push(row);
        }
        proof {
            lemma_looking_keeps(m, all@, shown as int);
        }
        let idle_loop: Option<(IdleWindow, String)> = match found {
            Some(w) => Some((w, format_pc_symbol(w.lo, &self.tools.symbols))),
            None => None,
        };
        let rep = IdleReport { total, stride, distinct, rows, idle_loop };
        assert(m.is_report(rep, all@, top));
        Some(rep)
    }
}

} // verus!
