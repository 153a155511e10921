//! Breakpoints on the program counter and on memory accesses.
use vstd::prelude::*;

use crate::cpu_core::MipsCore;
use crate::exp::Expr;

verus! {

/// What a breakpoint watches.
#[derive(Debug, Clone, Copy, PartialEq, Eq, Structural)]
pub enum BpType {
    Pc,
    VirtRead,
    VirtWrite,
    VirtFetch,
    PhysRead,
    PhysWrite,
    PhysFetch,
    /// For a given value being written anywhere. No access is checked for this kind.
    WriteValue,
    /// For a register holding a given value. No access is checked for this kind.
    RegValue,
}

#[derive(Debug)]
pub struct Breakpoint {
    pub id: usize,
    pub addr: u64,
    pub kind: BpType,
    pub enabled: bool,
    /// Hits count only where this is not zero.
    pub condition: Option<Expr>,
}

/// Address bits that breakpoints compare: segment bits are left out, so that an
/// address is hit through every segment that maps it, and so is the position within
/// a word.
pub const PHYS_MASK: u64 = 0x1FFF_FFFC;

impl Breakpoint {
    pub open spec fn wf(&self) -> bool {
        self.condition is Some ==> self.condition->0.wf()
    }

    /// The condition, if there is one, has a value and it is not zero.
    pub open spec fn condition_holds(&self, c: MipsCore) -> bool {
        self.condition is Some ==> {
            let v = self.condition->0.value(c);
            v is Some && v->0 != 0
        }
    }

    /// An access of the given kind at `addr` hits this breakpoint.
    pub open spec fn hit_by(&self, kind: BpType, addr: u64, c: MipsCore) -> bool {
        &&& self.enabled
        &&& self.kind == kind
        &&& self.addr & PHYS_MASK == addr & PHYS_MASK
        &&& self.condition_holds(c)
    }

    fn is_hit(&self, kind: BpType, addr: u64, c: &MipsCore) -> (b: bool)
        requires
            self.wf(),
        ensures
            b == self.hit_by(kind, addr, *c),
    {
        if !self.enabled || self.kind != kind {
            return false;
        }
        if (self.addr & PHYS_MASK) != (addr & PHYS_MASK) {
            return false;
        }
        match &self.condition {
            None => true,
            Some(expr) => match expr.eval(c) {
                Some(v) => v != 0,
                None => false,
            },
        }
    }
}

/// The last breakpoint of the list that the access hits.
pub open spec fn last_hit(s: Seq<Breakpoint>, kind: BpType, addr: u64, c: MipsCore) -> Option<usize>
    decreases s.len(),
{
    if s.len() == 0 {
        None
    } else if s.last().hit_by(kind, addr, c) {
        Some(s.last().id)
    } else {
        last_hit(s.drop_last(), kind, addr, c)
    }
}

/// Breakpoint 0 is hit.
pub open spec fn zero_hit(s: Seq<Breakpoint>, kind: BpType, addr: u64, c: MipsCore) -> bool {
    exists|i: int| 0 <= i < s.len() && #[trigger] s[i].hit_by(kind, addr, c) && s[i].id == 0
}

/// The breakpoint reported for an access: breakpoint 0 before all others, else the
/// last one in the list that is hit.
pub open spec fn reported_hit(
    s: Seq<Breakpoint>,
    kind: BpType,
    addr: u64,
    c: MipsCore,
) -> Option<usize> {
    if zero_hit(s, kind, addr, c) {
        Some(0)
    } else {
        last_hit(s, kind, addr, c)
    }
}

/// How many enabled breakpoints watch the program counter (`on_pc`), or anything else.
pub open spec fn count_enabled(s: Seq<Breakpoint>, on_pc: bool) -> nat
    decreases s.len(),
{
    if s.len() == 0 {
        0
    } else {
        count_enabled(s.drop_last(), on_pc) + if counts(s.last(), on_pc) {
            1nat
        } else {
            0
        }
    }
}

pub open spec fn counts(b: Breakpoint, on_pc: bool) -> bool {
    b.enabled && (b.kind == BpType::Pc) == on_pc
}

proof fn lemma_count_bound(s: Seq<Breakpoint>, on_pc: bool)
    ensures
        count_enabled(s, on_pc) <= s.len(),
    decreases s.len(),
{
    if s.len() > 0 {
        lemma_count_bound(s.drop_last(), on_pc);
    }
}

proof fn lemma_count_push(s: Seq<Breakpoint>, b: Breakpoint, on_pc: bool)
    ensures
        count_enabled(s.push(b), on_pc) == count_enabled(s, on_pc) + if counts(b, on_pc) {
            1nat
        } else {
            0
        },
{
    assert(s.push(b).drop_last() =~= s);
}

proof fn lemma_count_remove(s: Seq<Breakpoint>, i: int, on_pc: bool)
    requires
        0 <= i < s.len(),
    ensures
        count_enabled(s, on_pc) == count_enabled(s.remove(i), on_pc) + if counts(s[i], on_pc) {
            1nat
        } else {
            0
        },
    decreases s.len(),
{
    if i == s.len() - 1 {
        assert(s.remove(i) =~= s.drop_last());
    } else {
        lemma_count_remove(s.drop_last(), i, on_pc);
        assert(s.remove(i).drop_last() =~= s.drop_last().remove(i));
        assert(s.remove(i).last() == s.last());
    }
}

proof fn lemma_count_update(s: Seq<Breakpoint>, i: int, b: Breakpoint, on_pc: bool)
    requires
        0 <= i < s.len(),
    ensures
        count_enabled(s.update(i, b), on_pc) + (if counts(s[i], on_pc) {
            1nat
        } else {
            0
        }) == count_enabled(s, on_pc) + (if counts(b, on_pc) {
            1nat
        } else {
            0
        }),
    decreases s.len(),
{
    if i == s.len() - 1 {
        assert(s.update(i, b).drop_last() =~= s.drop_last());
    } else {
        lemma_count_update(s.drop_last(), i, b, on_pc);
        assert(s.update(i, b).drop_last() =~= s.drop_last().update(i, b));
        assert(s.update(i, b).last() == s.last());
    }
}

/// An enabled breakpoint of a kind is among those counted for it.
proof fn lemma_count_positive(s: Seq<Breakpoint>, i: int, on_pc: bool)
    requires
        0 <= i < s.len(),
        counts(s[i], on_pc),
    ensures
        count_enabled(s, on_pc) > 0,
{
    lemma_count_remove(s, i, on_pc);
}

/// Position of the first breakpoint with identifier `id`.
pub open spec fn position(s: Seq<Breakpoint>, id: usize) -> Option<int>
    decreases s.len(),
{
    if s.len() == 0 {
        None
    } else {
        match position(s.drop_last(), id) {
            Some(i) => Some(i),
            None => if s.last().id == id {
                Some(s.len() - 1)
            } else {
                None
            },
        }
    }
}

proof fn lemma_position_prefix(s: Seq<Breakpoint>, n: int, id: usize)
    requires
        0 <= n <= s.len(),
        position(s.subrange(0, n), id) is Some,
    ensures
        position(s, id) == position(s.subrange(0, n), id),
    decreases s.len() - n,
{
    if n < s.len() {
        assert(s.subrange(0, n + 1).drop_last() =~= s.subrange(0, n));
        lemma_position_prefix(s, n + 1, id);
    } else {
        assert(s.subrange(0, n) =~= s);
    }
}

/// The breakpoints, with the number of enabled ones of each sort.
pub struct BreakpointTable {
    pub breakpoints: Vec<Breakpoint>,
    pub next_bp_id: usize,
    pub pc_bp_count: usize,
    pub mem_bp_count: usize,
}

impl BreakpointTable {
    /// The counts are those of the list, conditions name registers that exist, and no
    /// identifier occurs twice.
    pub open spec fn wf(&self) -> bool {
        &&& self.conditions_wf()
        &&& ids_unique(self.breakpoints@)
        &&& self.pc_bp_count == count_enabled(self.breakpoints@, true)
        &&& self.mem_bp_count == count_enabled(self.breakpoints@, false)
    }

    pub open spec fn conditions_wf(&self) -> bool {
        forall|i: int| 0 <= i < self.breakpoints@.len() ==> (#[trigger] self.breakpoints@[i]).wf()
    }

    /// The breakpoint that an access hits, if any.
    pub open spec fn hit(&self, kind: BpType, addr: u64, c: MipsCore) -> Option<usize> {
        if (kind == BpType::Pc && self.pc_bp_count == 0) || (kind != BpType::Pc
            && self.mem_bp_count == 0) {
            None
        } else {
            reported_hit(self.breakpoints@, kind, addr, c)
        }
    }

    /// Only breakpoint 0, which is kept for running to a given address, and is off.
    pub open spec fn is_initial(&self) -> bool {
        &&& self.next_bp_id == 1
        &&& self.pc_bp_count == 0 && self.mem_bp_count == 0
        &&& self.breakpoints@ == seq![
            Breakpoint { id: 0, addr: 0, kind: BpType::Pc, enabled: false, condition: None },
        ]
    }

    /// The table at the start.
    pub fn new() -> (t: Self)
        ensures
            t.wf(),
            t.is_initial(),
    {
        let mut v: Vec<Breakpoint> = Vec::new();
        let b = Breakpoint { id: 0, addr: 0, kind: BpType::Pc, enabled: false, condition: None };
        v.push(b);
        let t = BreakpointTable {
            breakpoints: v,
            next_bp_id: 1,
            pc_bp_count: 0,
            mem_bp_count: 0,
        };
        proof {
            let e = Seq::<Breakpoint>::empty();
            assert(t.breakpoints@ =~= e.push(t.breakpoints@[0]));
            assert(t.breakpoints@ =~= seq![b]);
            lemma_count_push(e, t.breakpoints@[0], true);
            lemma_count_push(e, t.breakpoints@[0], false);
        }
        t
    }

    /// The breakpoint that an access of the given kind at `addr` hits.
    pub fn check(&self, kind: BpType, addr: u64, c: &MipsCore) -> (r: Option<usize>)
        requires
            self.conditions_wf(),
        ensures
            r == self.hit(kind, addr, *c),
    {
        if kind == BpType::Pc {
            if self.pc_bp_count == 0 {
                return None;
            }
        } else if self.mem_bp_count == 0 {
            return None;
        }
        let mut found: Option<usize> = None;
        let mut i: usize = 0;
        let ghost s = self.breakpoints@;
        while i < self.breakpoints.len()
            invariant
                i <= s.len(),
                s == self.breakpoints@,
                self.conditions_wf(),
                self.hit(kind, addr, *c) == reported_hit(s, kind, addr, *c),
                found == last_hit(s.subrange(0, i as int), kind, addr, *c),
                forall|j: int|
                    0 <= j < i ==> !((#[trigger] s[j]).hit_by(kind, addr, *c) && s[j].id == 0),
            decreases s.len() - i,
        {
            let b = &self.breakpoints[i];
            assert(s.subrange(0, i + 1).drop_last() =~= s.subrange(0, i as int));
            assert(s.subrange(0, i + 1).last() == s[i as int]);
            if b.is_hit(kind, addr, c) {
                found = Some(b.id);
                if b.id == 0 {
                    assert(zero_hit(s, kind, addr, *c));
                    return found;
                }
            }
            i = i + 1;
        }
        assert(s.subrange(0, i as int) =~= s);
        found
    }

    /// Index of the first breakpoint with identifier `id`.
    fn find(&self, id: usize) -> (r: Option<usize>)
        ensures
            match r {
                Some(i) => position(self.breakpoints@, id) == Some(i as int) && i
                    < self.breakpoints@.len() && self.breakpoints@[i as int].id == id,
                None => position(self.breakpoints@, id) is None,
            },
    {
        let ghost s = self.breakpoints@;
        let mut i: usize = 0;
        while i < self.breakpoints.len()
            invariant
                i <= s.len(),
                s == self.breakpoints@,
                position(s.subrange(0, i as int), id) is None,
            decreases s.len() - i,
        {
            assert(s.subrange(0, i + 1).drop_last() =~= s.subrange(0, i as int));
            assert(s.subrange(0, i + 1).last() == s[i as int]);
            if self.breakpoints[i].id == id {
                proof {
                    lemma_position_prefix(s, i + 1, id);
                }
                return Some(i);
            }
            i = i + 1;
        }
        assert(s.subrange(0, i as int) =~= s);
        None
    }

    /// Turns the first breakpoint of the list into one on the program counter at
    /// `addr`, to run to that address.
    pub fn set_temp_breakpoint(&mut self, addr: u64)
        requires
            old(self).wf(),
        ensures
            final(self).conditions_wf(),
            final(self).next_bp_id == old(self).next_bp_id,
            final(self).mem_bp_count == old(self).mem_bp_count,
            old(self).breakpoints@.len() == 0 ==> *final(self) == *old(self),
            old(self).breakpoints@.len() > 0 ==> {
                let b = final(self).breakpoints@[0];
                &&& final(self).breakpoints@ == old(self).breakpoints@.update(0, b)
                &&& b.id == old(self).breakpoints@[0].id
                &&& b.addr == addr && b.kind == BpType::Pc && b.enabled && b.condition is None
                &&& final(self).pc_bp_count == old(self).pc_bp_count + if old(self).breakpoints@[0].enabled {
                    0int
                } else {
                    1
                }
            },
            old(self).breakpoints@.len() > 0 && old(self).breakpoints@[0].enabled ==> old(self).breakpoints@[0].kind == BpType::Pc ==> final(self).wf(),
            old(self).breakpoints@.len() > 0 && !old(self).breakpoints@[0].enabled ==> final(self).wf(),
    {
        if self.breakpoints.len() == 0 {
            return;
        }
        let was_enabled: bool = self.breakpoints[0].enabled;
        let id: usize = self.breakpoints[0].id;
        let b = Breakpoint { id, addr, kind: BpType::Pc, enabled: true, condition: None };
        proof {
            lemma_count_bound(self.breakpoints@, true);
            lemma_count_update(self.breakpoints@, 0, b, true);
            lemma_count_update(self.breakpoints@, 0, b, false);
            if !was_enabled {
                lemma_count_bound(self.breakpoints@.update(0, b), true);
            }
        }
        self.breakpoints.set(0, b);
        if !was_enabled {
            self.pc_bp_count = self.pc_bp_count + 1;
        }
    }

    /// Switches the first breakpoint of the list off.
    pub fn clear_temp_breakpoint(&mut self)
        requires
            old(self).wf(),
            old(self).breakpoints@.len() > 0 && old(self).breakpoints@[0].enabled ==> old(self).breakpoints@[0].kind == BpType::Pc,
        ensures
            final(self).wf(),
            final(self).next_bp_id == old(self).next_bp_id,
            old(self).breakpoints@.len() == 0 || !old(self).breakpoints@[0].enabled
                ==> final(self).breakpoints@ == old(self).breakpoints@,
            old(self).breakpoints@.len() > 0 && old(self).breakpoints@[0].enabled ==> final(self).breakpoints@ == old(self).breakpoints@.update(
                0,
                (Breakpoint { enabled: false, ..old(self).breakpoints@[0] }),
            ),
    {
        if self.breakpoints.len() == 0 {
            return;
        }
        if self.breakpoints[0].enabled {
            proof {
                let b = Breakpoint { enabled: false, ..self.breakpoints@[0] };
                lemma_count_update(self.breakpoints@, 0, b, true);
                lemma_count_update(self.breakpoints@, 0, b, false);
            }
            self.pc_bp_count = self.pc_bp_count - 1;
            self.breakpoints[0].enabled = false;
            assert(self.breakpoints@ =~= old(self).breakpoints@.update(
                0,
                (Breakpoint { enabled: false, ..old(self).breakpoints@[0] }),
            ));
        }
    }

    /// Adds an enabled breakpoint, in place of one with the same identifier.
    pub fn add_breakpoint(&mut self, id: usize, addr: u64, kind: BpType)
        requires
            old(self).wf(),
            old(self).breakpoints@.len() < usize::MAX,
        ensures
            final(self).wf(),
            final(self).next_bp_id == old(self).next_bp_id,
            final(self).breakpoints@ == without(old(self).breakpoints@, id).push(
                (Breakpoint { id, addr, kind, enabled: true, condition: None }),
            ),
    {
        self.remove_breakpoint(id);
        let b = Breakpoint { id, addr, kind, enabled: true, condition: None };
        proof {
            lemma_position(old(self).breakpoints@, id);
            lemma_count_push(self.breakpoints@, b, true);
            lemma_count_push(self.breakpoints@, b, false);
            lemma_count_bound(self.breakpoints@, true);
            lemma_count_bound(self.breakpoints@, false);
            law_added_breakpoint_is_found(old(self).breakpoints@, b);
        }
        self.breakpoints.push(b);
        if kind == BpType::Pc {
            self.pc_bp_count = self.pc_bp_count + 1;
        } else {
            self.mem_bp_count = self.mem_bp_count + 1;
        }
    }

    /// Removes the first breakpoint with identifier `id`; false where there is none.
    pub fn remove_breakpoint(&mut self, id: usize) -> (r: bool)
        requires
            old(self).wf(),
        ensures
            final(self).wf(),
            final(self).next_bp_id == old(self).next_bp_id,
            r == (position(old(self).breakpoints@, id) is Some),
            final(self).breakpoints@ == without(old(self).breakpoints@, id),
    {
        match self.find(id) {
            Some(idx) => {
                proof {
                    lemma_count_remove(self.breakpoints@, idx as int, true);
                    lemma_count_remove(self.breakpoints@, idx as int, false);
                }
                let b: Breakpoint = self.breakpoints.remove(idx);
                if b.enabled {
                    if b.kind == BpType::Pc {
                        self.pc_bp_count = self.pc_bp_count - 1;
                    } else {
                        self.mem_bp_count = self.mem_bp_count - 1;
                    }
                }
                true
            },
            None => false,
        }
    }

    /// Switches the first breakpoint with identifier `id`; false where there is none.
    pub fn set_breakpoint_enabled(&mut self, id: usize, enabled: bool) -> (r: bool)
        requires
            old(self).wf(),
        ensures
            final(self).wf(),
            final(self).next_bp_id == old(self).next_bp_id,
            r == (position(old(self).breakpoints@, id) is Some),
            !r ==> final(self).breakpoints@ == old(self).breakpoints@,
            r ==> {
                let i = position(old(self).breakpoints@, id)->0;
                final(self).breakpoints@ == old(self).breakpoints@.update(
                    i,
                    (Breakpoint { enabled, ..old(self).breakpoints@[i] }),
                )
            },
    {
        match self.find(id) {
            Some(i) => {
                let len: usize = self.breakpoints.len();
                let was: bool = self.breakpoints[i].enabled;
                let on_pc: bool = self.breakpoints[i].kind == BpType::Pc;
                proof {
                    let b = Breakpoint { enabled, ..self.breakpoints@[i as int] };
                    lemma_count_update(self.breakpoints@, i as int, b, true);
                    lemma_count_update(self.breakpoints@, i as int, b, false);
                    lemma_count_bound(self.breakpoints@.update(i as int, b), true);
                    lemma_count_bound(self.breakpoints@.update(i as int, b), false);
                }
                if was != enabled {
                    self.breakpoints[i].enabled = enabled;
                    if on_pc {
                        if enabled {
                            self.pc_bp_count = self.pc_bp_count + 1;
                        } else {
                            self.pc_bp_count = self.pc_bp_count - 1;
                        }
                    } else {
                        if enabled {
                            self.mem_bp_count = self.mem_bp_count + 1;
                        } else {
                            self.mem_bp_count = self.mem_bp_count - 1;
                        }
                    }
                }
                assert(self.breakpoints@ =~= old(self).breakpoints@.update(
                    i as int,
                    (Breakpoint { enabled, ..old(self).breakpoints@[i as int] }),
                ));
                true
            },
            None => false,
        }
    }

    /// Kind of the first breakpoint with identifier `id`.
    pub fn kind_of(&self, id: usize) -> (r: Option<BpType>)
        ensures
            r == match position(self.breakpoints@, id) {
                Some(i) => Some(self.breakpoints@[i].kind),
                None => None,
            },
    {
        match self.find(id) {
            Some(i) => Some(self.breakpoints[i].kind),
            None => None,
        }
    }

    /// Gives the first breakpoint with identifier `id` a condition.
    pub fn set_condition(&mut self, id: usize, condition: Option<Expr>)
        requires
            old(self).wf(),
            condition is Some ==> condition->0.wf(),
        ensures
            final(self).wf(),
            final(self).next_bp_id == old(self).next_bp_id,
            match position(old(self).breakpoints@, id) {
                Some(i) => final(self).breakpoints@ == old(self).breakpoints@.update(
                    i,
                    (Breakpoint { condition, ..old(self).breakpoints@[i] }),
                ),
                None => final(self).breakpoints@ == old(self).breakpoints@,
            },
    {
        match self.find(id) {
            Some(i) => {
                proof {
                    let b = Breakpoint { condition, ..self.breakpoints@[i as int] };
                    lemma_count_update(self.breakpoints@, i as int, b, true);
                    lemma_count_update(self.breakpoints@, i as int, b, false);
                }
                self.breakpoints[i].condition = condition;
                assert(self.breakpoints@ =~= old(self).breakpoints@.update(
                    i as int,
                    (Breakpoint { condition, ..old(self).breakpoints@[i as int] }),
                ));
            },
            None => {},
        }
    }
}

/// The list without the first breakpoint of identifier `id`.
pub open spec fn without(s: Seq<Breakpoint>, id: usize) -> Seq<Breakpoint> {
    match position(s, id) {
        Some(i) => s.remove(i),
        None => s,
    }
}

/// Law: the counts only save time. A breakpoint that is hit is found whether or not
/// they are looked at first.
pub proof fn law_counts_do_not_hide_hits(t: BreakpointTable, kind: BpType, addr: u64, c: MipsCore)
    requires
        t.wf(),
    ensures
        t.hit(kind, addr, c) == reported_hit(t.breakpoints@, kind, addr, c),
{
    let s = t.breakpoints@;
    let on_pc = kind == BpType::Pc;
    if count_enabled(s, on_pc) == 0 {
        assert forall|i: int| 0 <= i < s.len() implies !(#[trigger] s[i]).hit_by(kind, addr, c) by {
            if s[i].hit_by(kind, addr, c) {
                lemma_count_positive(s, i, on_pc);
            }
        }
        lemma_no_hit(s, kind, addr, c);
    }
}

proof fn lemma_no_hit(s: Seq<Breakpoint>, kind: BpType, addr: u64, c: MipsCore)
    requires
        forall|i: int| 0 <= i < s.len() ==> !(#[trigger] s[i]).hit_by(kind, addr, c),
    ensures
        last_hit(s, kind, addr, c) is None,
    decreases s.len(),
{
    if s.len() > 0 {
        assert(s.last() == s[s.len() - 1]);
        assert forall|i: int| 0 <= i < s.drop_last().len() implies !(
        #[trigger] s.drop_last()[i]).hit_by(kind, addr, c) by {
            assert(s.drop_last()[i] == s[i]);
        }
        lemma_no_hit(s.drop_last(), kind, addr, c);
    }
}

/// No identifier occurs twice.
pub open spec fn ids_unique(s: Seq<Breakpoint>) -> bool {
    forall|i: int, j: int| 0 <= i < j < s.len() ==> (#[trigger] s[i]).id != (#[trigger] s[j]).id
}

proof fn lemma_position(s: Seq<Breakpoint>, id: usize)
    ensures
        match position(s, id) {
            Some(i) => 0 <= i < s.len() && s[i].id == id,
            None => forall|j: int| 0 <= j < s.len() ==> (#[trigger] s[j]).id != id,
        },
    decreases s.len(),
{
    if s.len() > 0 {
        lemma_position(s.drop_last(), id);
        assert(forall|j: int| 0 <= j < s.len() - 1 ==> s.drop_last()[j] == #[trigger] s[j]);
    }
}

/// Law: adding a breakpoint, with or without one of the same identifier in the list,
/// leaves no identifier twice, and the new breakpoint is the one found under its own.
pub proof fn law_added_breakpoint_is_found(s: Seq<Breakpoint>, b: Breakpoint)
    requires
        ids_unique(s),
    ensures
        ids_unique(without(s, b.id).push(b)),
        position(without(s, b.id).push(b), b.id) == Some(without(s, b.id).len() as int),
{
    let w = without(s, b.id);
    lemma_position(s, b.id);
    assert forall|j: int| 0 <= j < w.len() implies (#[trigger] w[j]).id != b.id by {
        match position(s, b.id) {
            Some(i) => {
                if j < i {
                    assert(w[j] == s[j]);
                } else {
                    assert(w[j] == s[j + 1]);
                }
            },
            None => {},
        }
    }
    let n = w.push(b);
    assert(n.drop_last() =~= w);
    lemma_position(w, b.id);
    assert forall|i: int, j: int| 0 <= i < j < n.len() implies (#[trigger] n[i]).id != (
    #[trigger] n[j]).id by {
        match position(s, b.id) {
            Some(k) => {
                if j < w.len() {
                    let a = if i < k {
                        i
                    } else {
                        i + 1
                    };
                    let c = if j < k {
                        j
                    } else {
                        j + 1
                    };
                    assert(n[i] == s[a] && n[j] == s[c]);
                } else {
                    assert(n[i] == w[i]);
                }
            },
            None => {
                if j == w.len() {
                    assert(n[i] == w[i]);
                }
            },
        }
    }
}

} // verus!
