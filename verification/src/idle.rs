//! Sampling of the program counter, to find the loop in which the guest idles.
use std::collections::HashMap;
use vstd::prelude::*;

verus! {

broadcast use vstd::std_specs::hash::group_hash_axioms;

/// How often a program counter was sampled, and how often with interrupts enabled.
#[derive(Clone, Copy, Debug, PartialEq, Eq, Structural)]
pub struct IdleSample {
    pub count: u64,
    pub ie_count: u64,
}

/// Histogram of sampled program counters.
pub struct IdleProfiler {
    /// One in `stride` instructions is sampled; 0 and 1 mean every one.
    pub stride: u64,
    pub counter: u64,
    pub total: u64,
    pub hist: HashMap<u64, IdleSample>,
}

/// What was sampled, as a mathematical value.
#[verifier::ext_equal]
pub struct IdleHistory {
    pub stride: u64,
    pub counter: u64,
    pub total: u64,
    pub hist: Map<u64, IdleSample>,
}

/// The samples of `pc`.
pub open spec fn samples_at(m: Map<u64, IdleSample>, pc: u64) -> IdleSample {
    if m.contains_key(pc) {
        m[pc]
    } else {
        IdleSample { count: 0, ie_count: 0 }
    }
}

impl IdleHistory {
    /// The history after the instruction at `pc` has been seen.
    pub open spec fn sampled(self, pc: u64, ie: bool) -> IdleHistory {
        let counter = self.counter.wrapping_add(1);
        if self.stride > 1 && counter % self.stride != 0 {
            IdleHistory { counter, ..self }
        } else {
            let e = samples_at(self.hist, pc);
            let n = IdleSample {
                count: e.count.wrapping_add(1),
                ie_count: if ie {
                    e.ie_count.wrapping_add(1)
                } else {
                    e.ie_count
                },
            };
            IdleHistory {
                stride: self.stride,
                counter,
                total: self.total.wrapping_add(1),
                hist: self.hist.insert(pc, n),
            }
        }
    }

    pub open spec fn cleared(self) -> IdleHistory {
        IdleHistory { stride: self.stride, counter: 0, total: 0, hist: Map::empty() }
    }
}

impl View for IdleProfiler {
    type V = IdleHistory;

    open spec fn view(&self) -> IdleHistory {
        IdleHistory {
            stride: self.stride,
            counter: self.counter,
            total: self.total,
            hist: self.hist@,
        }
    }
}

impl IdleProfiler {
    pub fn new() -> (p: Self)
        ensures
            p@ == (IdleHistory { stride: 0, counter: 0, total: 0, hist: Map::empty() }),
    {
        IdleProfiler { stride: 0, counter: 0, total: 0, hist: HashMap::new() }
    }

    /// Counts the instruction at `pc`, or leaves it out as the stride says.
    pub fn sample(&mut self, pc: u64, ie: bool)
        ensures
            final(self)@ == old(self)@.sampled(pc, ie),
    {
        self.counter = self.counter.wrapping_add(1);
        if self.stride > 1 && self.counter % self.stride != 0 {
            return;
        }
        self.total = self.total.wrapping_add(1);
        let e: IdleSample = match self.hist.get(&pc) {
            Some(s) => *s,
            None => IdleSample { count: 0, ie_count: 0 },
        };
        let n = IdleSample {
            count: e.count.wrapping_add(1),
            ie_count: if ie {
                e.ie_count.wrapping_add(1)
            } else {
                e.ie_count
            },
        };
        self.hist.insert(pc, n);
        assert(self@ =~= old(self)@.sampled(pc, ie));
    }

    /// Forgets all samples.
    pub fn reset(&mut self)
        ensures
            final(self)@ == old(self)@.cleared(),
    {
        self.counter = 0;
        self.total = 0;
        self.hist.clear();
    }
}

impl IdleHistory {
    /// The history after the instructions `xs`: where each stood, and whether interrupts
    /// were enabled.
    pub open spec fn after_samples(self, xs: Seq<(u64, bool)>) -> IdleHistory
        decreases xs.len(),
    {
        if xs.len() == 0 {
            self
        } else {
            self.after_samples(xs.drop_last()).sampled(xs.last().0, xs.last().1)
        }
    }
}

/// The counts of the places in `s` together.
pub open spec fn counted(s: Set<u64>, hist: Map<u64, IdleSample>) -> nat
    decreases s.len(),
{
    if s.finite() && s.len() > 0 {
        let x = s.choose();
        hist[x].count as nat + counted(s.remove(x), hist)
    } else {
        0
    }
}

proof fn lemma_counted_one(s: Set<u64>, hist: Map<u64, IdleSample>, y: u64)
    requires
        s.finite(),
        s.contains(y),
    ensures
        counted(s, hist) == hist[y].count as nat + counted(s.remove(y), hist),
    decreases s.len(),
{
    let x = s.choose();
    assert(s.contains(x));
    if x != y {
        lemma_counted_one(s.remove(x), hist, y);
        lemma_counted_one(s.remove(y), hist, x);
        assert(s.remove(x).remove(y) =~= s.remove(y).remove(x));
    }
}

proof fn lemma_counted_elsewhere(
    s: Set<u64>,
    a: Map<u64, IdleSample>,
    b: Map<u64, IdleSample>,
)
    requires
        s.finite(),
        forall|x: u64| s.contains(x) ==> a[x] == b[x],
    ensures
        counted(s, a) == counted(s, b),
    decreases s.len(),
{
    if s.len() > 0 {
        let x = s.choose();
        assert(s.contains(x));
        lemma_counted_elsewhere(s.remove(x), a, b);
    }
}

/// The counts of all places, after one of them has got another.
proof fn lemma_counted_insert(hist: Map<u64, IdleSample>, pc: u64, n: IdleSample)
    requires
        hist.dom().finite(),
        n.count == samples_at(hist, pc).count + 1,
    ensures
        hist.insert(pc, n).dom().finite(),
        counted(hist.insert(pc, n).dom(), hist.insert(pc, n)) == counted(hist.dom(), hist) + 1,
{
    let new = hist.insert(pc, n);
    let rest = hist.dom().remove(pc);
    assert(new.dom() =~= hist.dom().insert(pc));
    assert(new.dom().remove(pc) =~= rest);
    lemma_counted_one(new.dom(), new, pc);
    lemma_counted_elsewhere(rest, hist, new);
    if hist.contains_key(pc) {
        lemma_counted_one(hist.dom(), hist, pc);
    } else {
        assert(rest =~= hist.dom());
    }
}

/// Law: of `n` instructions since the start, each one is sampled, or each `stride`-th.
/// The counts of all places add up to the number of samples, and those with interrupts
/// enabled are among them. The number of instructions is one that can be counted.
pub proof fn law_samples_add_up(h: IdleHistory, xs: Seq<(u64, bool)>)
    requires
        h == h.cleared(),
        xs.len() <= u64::MAX,
    ensures
        ({
            let n = h.after_samples(xs);
            &&& n.stride == h.stride
            &&& n.counter == xs.len()
            &&& n.total == if h.stride <= 1 {
                xs.len() as int
            } else {
                xs.len() as int / h.stride as int
            }
            &&& n.hist.dom().finite()
            &&& counted(n.hist.dom(), n.hist) == n.total
            &&& forall|pc: u64| #[trigger]
                n.hist.contains_key(pc) ==> n.hist[pc].ie_count <= n.hist[pc].count
        }),
    decreases xs.len(),
{
    let n = h.after_samples(xs);
    if xs.len() == 0 {
        assert(counted(Set::<u64>::empty(), h.hist) == 0);
        assert(h.hist.dom() =~= Set::<u64>::empty());
        if h.stride > 1 {
            vstd::arithmetic::div_mod::lemma_div_of0(h.stride as int);
        }
    } else {
        let p = h.after_samples(xs.drop_last());
        let pc = xs.last().0;
        law_samples_add_up(h, xs.drop_last());
        let k = xs.len() as int;
        let s = h.stride as int;
        let e = samples_at(p.hist, pc);
        if p.hist.contains_key(pc) {
            lemma_counted_one(p.hist.dom(), p.hist, pc);
        }
        if s > 1 {
            vstd::arithmetic::div_mod::lemma_fundamental_div_mod(k - 1, s);
            vstd::arithmetic::div_mod::lemma_mod_bound(k - 1, s);
            let q = (k - 1) / s;
            let r = (k - 1) % s;
            if r == s - 1 {
                assert(k == s * (q + 1)) by (nonlinear_arith)
                    requires
                        k - 1 == s * q + r,
                        r == s - 1,
                ;
                vstd::arithmetic::div_mod::lemma_fundamental_div_mod_converse(k, s, q + 1, 0);
            } else {
                vstd::arithmetic::div_mod::lemma_fundamental_div_mod_converse(k, s, q, r + 1);
            }
            assert(q <= k - 1) by (nonlinear_arith)
                requires
                    k - 1 == s * q + r,
                    r >= 0,
                    s > 1,
                    q >= 0 || q < 0,
                    k >= 1,
            ;
        }
        assert(p.total < u64::MAX);
        assert(e.count <= p.total);
        assert(e.ie_count <= e.count);
        if n.hist != p.hist {
            lemma_counted_insert(p.hist, pc, n.hist[pc]);
        }
    }
}

} // verus!
