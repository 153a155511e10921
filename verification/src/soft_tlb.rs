//! A translation lookaside buffer of page pairs.
use vstd::prelude::*;
use vstd::string::StringExecFns;

use crate::bus::{Tlb, TlbEntry, TlbResult};
use crate::cpu_core::AccessType;
use crate::saved_state::{hex_u64, loaded64, saved64, toml_u64};
use crate::saved_state_laws::lemma_register_reads_back;
use crate::status::CacheAttr;
use crate::text::{dec, hex_fixed, put, put_dec, put_hex_fixed};
use crate::toml_tree::{as_list, list_of, list_value, tree_of, trees_of, Tree};

verus! {

/// Entries, each for a pair of pages.
pub struct SoftTlb {
    pub entries: Vec<TlbEntry>,
}

/// The bits of an address that entries compare.
pub open spec fn page_bits(xtlb: bool) -> u64 {
    if xtlb {
        0xC000_00FF_FFFF_E000
    } else {
        0x0000_0000_FFFF_E000
    }
}

/// The bits of an address within the pair of pages.
pub open spec fn pair_mask(e: TlbEntry) -> u64 {
    e.page_mask | 0x1FFF
}

/// Whether `e` is an entry for the address.
pub open spec fn matches_address(e: TlbEntry, xtlb: bool, va: u64, asid: u8) -> bool {
    &&& va & page_bits(xtlb) & !pair_mask(e) == e.entry_hi & page_bits(xtlb) & !pair_mask(e)
    &&& e.entry_hi & 0x1000 != 0 || e.entry_hi & 0xFF == asid as u64
}

/// Index of the first entry for the address.
pub open spec fn first_match(s: Seq<TlbEntry>, xtlb: bool, va: u64, asid: u8, from: nat) -> Option<
    nat,
>
    decreases s.len() - from,
{
    if from >= s.len() {
        None
    } else if matches_address(s[from as int], xtlb, va, asid) {
        Some(from)
    } else {
        first_match(s, xtlb, va, asid, from + 1)
    }
}

pub open spec fn attribute(lo: u64) -> CacheAttr {
    if (lo >> 3) & 7 == 3 {
        CacheAttr::Cacheable
    } else if (lo >> 3) & 7 == 5 {
        CacheAttr::CacheableCoherent
    } else {
        CacheAttr::Uncached
    }
}

/// What entry `e` says of an address that it is for.
pub open spec fn translated(e: TlbEntry, va: u64) -> TlbResult {
    let page_mask = pair_mask(e) >> 1;
    let odd = va & pair_mask(e) & !page_mask != 0;
    let lo = if odd {
        e.entry_lo1
    } else {
        e.entry_lo0
    };
    if lo & 2 == 0 {
        TlbResult::Invalid
    } else {
        TlbResult::Hit {
            phys_addr: ((((lo >> 6) & 0xFF_FFFF) << 12) & !page_mask) | (va & page_mask),
            cache_attr: attribute(lo),
            dirty: lo & 4 != 0,
        }
    }
}

/// An entry for an address that is never looked up.
pub open spec fn unused_entry(i: nat) -> TlbEntry {
    TlbEntry {
        page_mask: 0,
        entry_hi: (0x8000_0000 + i * 0x2000) as u64,
        entry_lo0: 0,
        entry_lo1: 0,
    }
}

pub open spec fn entry_in_words(e: TlbEntry, i: usize) -> Seq<char> {
    if e.entry_lo0 & 2 == 0 && e.entry_lo1 & 2 == 0 {
        Seq::empty()
    } else {
        dec(i as nat) + ": hi="@ + hex_fixed(e.entry_hi as nat, 16) + " lo0="@ + hex_fixed(
            e.entry_lo0 as nat,
            16,
        ) + " lo1="@ + hex_fixed(e.entry_lo1 as nat, 16) + " mask="@ + hex_fixed(
            e.page_mask as nat,
            16,
        )
    }
}

pub open spec fn result_in_words(r: TlbResult) -> Seq<char> {
    match r {
        TlbResult::Hit { phys_addr, .. } => "phys "@ + hex_fixed(phys_addr as nat, 16),
        TlbResult::Miss => "no entry"@,
        TlbResult::Invalid => "entry not valid"@,
        TlbResult::Modified => "entry not dirty"@,
    }
}

pub open spec fn saved_entry(e: TlbEntry) -> Tree {
    Tree::List(
        seq![saved64(e.page_mask), saved64(e.entry_hi), saved64(e.entry_lo0), saved64(e.entry_lo1)],
    )
}

/// An entry as it is loaded; what is not there stays.
pub open spec fn loaded_entry(t: Tree, was: TlbEntry) -> TlbEntry {
    match list_of(t) {
        Some(l) => if l.len() == 4 {
            TlbEntry {
                page_mask: loaded64(Some(l[0]), was.page_mask),
                entry_hi: loaded64(Some(l[1]), was.entry_hi),
                entry_lo0: loaded64(Some(l[2]), was.entry_lo0),
                entry_lo1: loaded64(Some(l[3]), was.entry_lo1),
            }
        } else {
            was
        },
        None => was,
    }
}

fn attribute_of(lo: u64) -> (a: CacheAttr)
    ensures
        a == attribute(lo),
{
    if (lo >> 3) & 7 == 3 {
        CacheAttr::Cacheable
    } else if (lo >> 3) & 7 == 5 {
        CacheAttr::CacheableCoherent
    } else {
        CacheAttr::Uncached
    }
}

fn load_number(v: &toml::Value, was: u64) -> (r: u64)
    ensures
        r == loaded64(Some(tree_of(*v)), was),
{
    match toml_u64(v) {
        Some(n) => n,
        None => was,
    }
}

impl SoftTlb {
    /// A TLB of `n` entries that map nothing.
    pub fn new(n: usize) -> (t: SoftTlb)
        requires
            0 < n <= 64,
        ensures
            t.inv(),
            t.entries@ == Seq::new(n as nat, |i: int| unused_entry(i as nat)),
    {
        let mut entries: Vec<TlbEntry> = Vec::new();
        while entries.len() < n
            invariant
                n <= 64,
                entries@.len() <= n,
                entries@ == Seq::new(entries@.len(), |i: int| unused_entry(i as nat)),
            decreases n - entries@.len(),
        {
            let i: u64 = entries.len() as u64;
            entries.push(
                TlbEntry {
                    page_mask: 0,
                    entry_hi: 0x8000_0000 + i * 0x2000,
                    entry_lo0: 0,
                    entry_lo1: 0,
                },
            );
            assert(entries@ =~= Seq::new(entries@.len(), |i: int| unused_entry(i as nat)));
        }
        SoftTlb { entries }
    }

    fn find(&self, xtlb: bool, va: u64, asid: u8) -> (r: Option<usize>)
        ensures
            match first_match(self.entries@, xtlb, va, asid, 0) {
                Some(i) => r is Some && r->0 == i && i < self.entries@.len(),
                None => r is None,
            },
    {
        let bits: u64 = if xtlb {
            0xC000_00FF_FFFF_E000
        } else {
            0x0000_0000_FFFF_E000
        };
        let mut i: usize = 0;
        while i < self.entries.len()
            invariant
                i <= self.entries@.len(),
                bits == page_bits(xtlb),
                first_match(self.entries@, xtlb, va, asid, i as nat) == first_match(
                    self.entries@,
                    xtlb,
                    va,
                    asid,
                    0,
                ),
            decreases self.entries@.len() - i,
        {
            let e: TlbEntry = self.entries[i];
            let mask: u64 = e.page_mask | 0x1FFF;
            if va & bits & !mask == e.entry_hi & bits & !mask && (e.entry_hi & 0x1000 != 0
                || e.entry_hi & 0xFF == asid as u64) {
                return Some(i);
            }
            i = i + 1;
        }
        None
    }
}

fn translate_with(e: &TlbEntry, va: u64) -> (r: TlbResult)
    ensures
        r == translated(*e, va),
{
    let pair: u64 = e.page_mask | 0x1FFF;
    let page: u64 = pair >> 1;
    let lo: u64 = if va & pair & !page != 0 {
        e.entry_lo1
    } else {
        e.entry_lo0
    };
    if lo & 2 == 0 {
        return TlbResult::Invalid;
    }
    TlbResult::Hit {
        phys_addr: ((((lo >> 6) & 0xFF_FFFF) << 12) & !page) | (va & page),
        cache_attr: attribute_of(lo),
        dirty: lo & 4 != 0,
    }
}

impl Tlb for SoftTlb {
    type St = Seq<TlbEntry>;

    open spec fn state(&self) -> Seq<TlbEntry> {
        self.entries@
    }

    open spec fn inv(&self) -> bool {
        0 < self.entries@.len() <= 64
    }

    open spec fn entries(s: Seq<TlbEntry>) -> usize {
        s.len() as usize
    }

    open spec fn lookup(s: Seq<TlbEntry>, xtlb: bool, va: u64, asid: u8, at: AccessType) -> TlbResult {
        match first_match(s, xtlb, va, asid, 0) {
            Some(i) => translated(s[i as int], va),
            None => TlbResult::Miss,
        }
    }

    open spec fn entry(s: Seq<TlbEntry>, index: usize) -> TlbEntry {
        s[index as int]
    }

    open spec fn written(s: Seq<TlbEntry>, index: usize, e: TlbEntry) -> Seq<TlbEntry> {
        s.update(index as int, e)
    }

    open spec fn probed(s: Seq<TlbEntry>, va: u64, asid: u8, xtlb: bool) -> u32 {
        match first_match(s, xtlb, va, asid, 0) {
            Some(i) => i as u32,
            None => 0x8000_0000,
        }
    }

    open spec fn powered_on(s: Seq<TlbEntry>) -> Seq<TlbEntry> {
        Seq::new(s.len(), |i: int| unused_entry(i as nat))
    }

    open spec fn entry_text(s: Seq<TlbEntry>, index: usize) -> Seq<char> {
        entry_in_words(s[index as int], index)
    }

    open spec fn translation_text(s: Seq<TlbEntry>, va: u64, asid: u8) -> Seq<char> {
        result_in_words(Self::lookup(s, false, va, asid, AccessType::Debug))
    }

    open spec fn saved(s: Seq<TlbEntry>) -> Tree {
        Tree::List(Seq::new(s.len(), |i: int| saved_entry(s[i])))
    }

    open spec fn load_result(s: Seq<TlbEntry>, t: Tree) -> (Option<Seq<char>>, Seq<TlbEntry>) {
        match list_of(t) {
            Some(l) => if l.len() == s.len() {
                (None, Seq::new(s.len(), |i: int| loaded_entry(l[i], s[i])))
            } else {
                (Some("tlb: saved state has another number of entries"@), s)
            },
            None => (Some("tlb: saved state is not a list"@), s),
        }
    }

    open spec fn same_shape(s: Seq<TlbEntry>, t: Seq<TlbEntry>) -> bool {
        s.len() == t.len()
    }

    proof fn saved_loads_back(s: Seq<TlbEntry>, t: Seq<TlbEntry>) {
        lemma_register_reads_back();
        let r = Self::load_result(t, Self::saved(s)).1;
        assert forall|i: int| 0 <= i < s.len() implies r[i] == s[i] by {
            assert(loaded_entry(saved_entry(s[i]), t[i]) == s[i]);
        }
        assert(r =~= s);
    }

    fn save_state(&self) -> (v: toml::Value) {
        let mut all: Vec<toml::Value> = Vec::new();
        let mut i: usize = 0;
        while i < self.entries.len()
            invariant
                i <= self.entries@.len(),
                all@.len() == i,
                forall|j: int|
                    0 <= j < i ==> tree_of(#[trigger] all@[j]) == saved_entry(self.entries@[j]),
            decreases self.entries@.len() - i,
        {
            let e: TlbEntry = self.entries[i];
            let mut one: Vec<toml::Value> = Vec::new();
            one.push(hex_u64(e.page_mask));
            one.push(hex_u64(e.entry_hi));
            one.push(hex_u64(e.entry_lo0));
            one.push(hex_u64(e.entry_lo1));
            assert(trees_of(one@) =~= seq![
                saved64(e.page_mask),
                saved64(e.entry_hi),
                saved64(e.entry_lo0),
                saved64(e.entry_lo1),
            ]);
            all.push(list_value(one));
            i = i + 1;
        }
        assert(trees_of(all@) =~= Seq::new(
            self.entries@.len(),
            |i: int| saved_entry(self.entries@[i]),
        ));
        list_value(all)
    }

    fn load_state(&mut self, v: &toml::Value) -> (r: Result<(), String>) {
        let all: &Vec<toml::Value> = match as_list(v) {
            Some(l) => l,
            None => {
                return Err("tlb: saved state is not a list".to_string());
            },
        };
        if all.len() != self.entries.len() {
            return Err("tlb: saved state has another number of entries".to_string());
        }
        let ghost l = trees_of(all@);
        let ghost s = self.entries@;
        let mut i: usize = 0;
        while i < all.len()
            invariant
                i <= all@.len(),
                all@.len() == s.len() == self.entries@.len(),
                l == trees_of(all@),
                forall|j: int|
                    0 <= j < s.len() ==> #[trigger] self.entries@[j] == if j < i {
                        loaded_entry(l[j], s[j])
                    } else {
                        s[j]
                    },
            decreases all@.len() - i,
        {
            if let Some(one) = as_list(&all[i]) {
                if one.len() == 4 {
                    let was: TlbEntry = self.entries[i];
                    let e = TlbEntry {
                        page_mask: load_number(&one[0], was.page_mask),
                        entry_hi: load_number(&one[1], was.entry_hi),
                        entry_lo0: load_number(&one[2], was.entry_lo0),
                        entry_lo1: load_number(&one[3], was.entry_lo1),
                    };
                    assert(e == loaded_entry(l[i as int], was));
                    self.entries.set(i, e);
                }
            }
            i = i + 1;
        }
        assert(self.entries@ =~= Seq::new(s.len(), |i: int| loaded_entry(l[i], s[i])));
        Ok(())
    }

    fn format_entry(&self, index: usize) -> (r: String) {
        let e: TlbEntry = self.entries[index];
        let mut s: String = String::new();
        if e.entry_lo0 & 2 == 0 && e.entry_lo1 & 2 == 0 {
            assert(s@ =~= Seq::<char>::empty());
            return s;
        }
        put_dec(&mut s, index as u64);
        put(&mut s, ": hi=");
        put_hex_fixed(&mut s, e.entry_hi, 16);
        put(&mut s, " lo0=");
        put_hex_fixed(&mut s, e.entry_lo0, 16);
        put(&mut s, " lo1=");
        put_hex_fixed(&mut s, e.entry_lo1, 16);
        put(&mut s, " mask=");
        put_hex_fixed(&mut s, e.page_mask, 16);
        assert(s@ =~= entry_in_words(e, index));
        s
    }

    fn debug_translate(&self, va: u64, asid: u8) -> (r: String) {
        match self.translate(false, va, asid, AccessType::Debug) {
            TlbResult::Hit { phys_addr, .. } => {
                let mut s: String = "phys ".to_string();
                put_hex_fixed(&mut s, phys_addr, 16);
                s
            },
            TlbResult::Miss => "no entry".to_string(),
            TlbResult::Invalid => "entry not valid".to_string(),
            TlbResult::Modified => "entry not dirty".to_string(),
        }
    }

    fn num_entries(&self) -> (n: usize) {
        self.entries.len()
    }

    fn translate(&self, xtlb: bool, va: u64, asid: u8, at: AccessType) -> (r: TlbResult) {
        match self.find(xtlb, va, asid) {
            Some(i) => translate_with(&self.entries[i], va),
            None => TlbResult::Miss,
        }
    }

    fn read(&self, index: usize) -> (e: TlbEntry) {
        self.entries[index]
    }

    fn write(&mut self, index: usize, e: TlbEntry) {
        self.entries.set(index, e);
    }

    fn probe(&self, va: u64, asid: u8, xtlb: bool) -> (r: u32) {
        match self.find(xtlb, va, asid) {
            Some(i) => i as u32,
            None => 0x8000_0000,
        }
    }

    fn power_on(&mut self) {
        let fresh: SoftTlb = SoftTlb::new(self.entries.len());
        self.entries = fresh.entries;
    }
}

} // verus!
