//! Saving the processor's state, and loading it again.
use vstd::prelude::*;
use vstd::string::StringExecFns;

use crate::bus::{BusDevice, MipsCache, Tlb};
use crate::cpu_core::MipsCore;
use crate::machine::{Machine, MipsExecutor};
use crate::parse::{number, parse_hex, without_0x};
use crate::text::{hex_fixed, put_hex_fixed};
use crate::toml_tree::{
    as_bool, as_list, as_text, bool_of, bool_value, field_of, get_field, insert, list_of,
    list_value, new_table, no_fields, table_value, text_of, text_value, tree_of, trees_of, Tree,
};

verus! {

/// A 64-bit register as it is saved: all its hexadecimal digits.
pub open spec fn saved64(v: u64) -> Tree {
    Tree::Text("0x"@ + hex_fixed(v as nat, 16))
}

/// A 32-bit register as it is saved.
pub open spec fn saved32(v: u32) -> Tree {
    Tree::Text("0x"@ + hex_fixed(v as nat, 8))
}

/// Registers in a row.
pub open spec fn saved_list(s: Seq<u64>) -> Tree {
    Tree::List(Seq::new(s.len(), |i: int| saved64(s[i])))
}

/// The number that a saved register holds, up to `max`.
pub open spec fn number_in(t: Tree, max: nat) -> Option<nat> {
    match text_of(t) {
        Some(s) => number(without_0x(s), 16, max),
        None => None,
    }
}

/// A register as it is loaded: the saved number, or what it was where there is none.
pub open spec fn loaded64(t: Option<Tree>, was: u64) -> u64 {
    match t {
        Some(x) => match number_in(x, u64::MAX as nat) {
            Some(v) => v as u64,
            None => was,
        },
        None => was,
    }
}

pub open spec fn loaded32(t: Option<Tree>, was: u32) -> u32 {
    match t {
        Some(x) => match number_in(x, u32::MAX as nat) {
            Some(v) => v as u32,
            None => was,
        },
        None => was,
    }
}

/// A counter as it is loaded. Counters above 32 bits are in fixed-point form, with the
/// count in the upper half.
pub open spec fn loaded_count(t: Option<Tree>, was: u64) -> u64 {
    let v = loaded64(t, was);
    if v > u32::MAX {
        v >> 32
    } else {
        v
    }
}

/// Registers in a row as they are loaded.
pub open spec fn loaded_list(t: Option<Tree>, was: Seq<u64>) -> Seq<u64> {
    match t {
        Some(x) => match list_of(x) {
            Some(l) => Seq::new(
                was.len(),
                |i: int|
                    if i < l.len() {
                        loaded64(Some(l[i]), was[i])
                    } else {
                        was[i]
                    },
            ),
            None => was,
        },
        None => was,
    }
}

/// What a table that may not be there holds under a key.
pub open spec fn sub_field(t: Option<Tree>, key: Seq<char>) -> Option<Tree> {
    match t {
        Some(x) => field_of(x, key),
        None => None,
    }
}

impl MipsCore {
    /// The system control registers as they are saved.
    pub open spec fn saved_cp0(&self) -> Map<Seq<char>, Tree> {
        no_fields()
            .insert("cp0_index"@, saved32(self.cp0_index))
            .insert("cp0_random"@, saved32(self.cp0_random))
            .insert("cp0_wired"@, saved32(self.cp0_wired))
            .insert("cp0_count"@, saved64(self.cp0_count))
            .insert("cp0_compare"@, saved64(self.cp0_compare))
            .insert("count_hz"@, saved64(self.count_hz))
            .insert("compare_delta_slow"@, saved64(self.compare_delta_slow))
            .insert("compare_delta_fast"@, saved64(self.compare_delta_fast))
            .insert("cp0_status"@, saved32(self.cp0_status))
            .insert("cp0_cause"@, saved32(self.cp0_cause))
            .insert("cp0_prid"@, saved32(self.cp0_prid))
            .insert("cp0_config"@, saved32(self.cp0_config))
            .insert("cp0_lladdr"@, saved32(self.cp0_lladdr))
            .insert("cp0_watchlo"@, saved32(self.cp0_watchlo))
            .insert("cp0_watchhi"@, saved32(self.cp0_watchhi))
            .insert("cp0_ecc"@, saved32(self.cp0_ecc))
            .insert("cp0_cacheerr"@, saved32(self.cp0_cacheerr))
            .insert("cp0_taglo"@, saved32(self.cp0_taglo))
            .insert("cp0_taghi"@, saved32(self.cp0_taghi))
            .insert("cp0_badvaddr"@, saved64(self.cp0_badvaddr))
            .insert("cp0_epc"@, saved64(self.cp0_epc))
            .insert("cp0_errorepc"@, saved64(self.cp0_errorepc))
            .insert("cp0_entrylo0"@, saved64(self.cp0_entrylo0))
            .insert("cp0_entrylo1"@, saved64(self.cp0_entrylo1))
            .insert("cp0_context"@, saved64(self.cp0_context))
            .insert("cp0_pagemask"@, saved64(self.cp0_pagemask))
            .insert("cp0_entryhi"@, saved64(self.cp0_entryhi))
            .insert("cp0_xcontext"@, saved64(self.cp0_xcontext))
    }

    /// The floating-point registers as they are saved.
    pub open spec fn saved_fpu(&self) -> Map<Seq<char>, Tree> {
        no_fields()
            .insert("fpr"@, saved_list(self.fpr@))
            .insert("fpu_fir"@, saved32(self.fpu_fir))
            .insert("fpu_fccr"@, saved32(self.fpu_fccr))
            .insert("fpu_fexr"@, saved32(self.fpu_fexr))
            .insert("fpu_fenr"@, saved32(self.fpu_fenr))
            .insert("fpu_fcsr"@, saved32(self.fpu_fcsr))
    }

    /// The registers as they are saved.
    pub open spec fn saved(&self) -> Map<Seq<char>, Tree> {
        no_fields()
            .insert("gpr"@, saved_list(self.gpr@))
            .insert("pc"@, saved64(self.pc))
            .insert("hi"@, saved64(self.hi))
            .insert("lo"@, saved64(self.lo))
            .insert("cp0"@, Tree::Table(self.saved_cp0()))
            .insert("fpu"@, Tree::Table(self.saved_fpu()))
            .insert("in_delay_slot"@, Tree::Bool(self.in_delay_slot))
            .insert("delay_slot_target"@, saved64(self.delay_slot_target))
    }

    /// The state after the system control registers have been loaded from `t`.
    pub open spec fn cp0_loaded(self, t: Tree) -> MipsCore {
        MipsCore {
            cp0_index: loaded32(field_of(t, "cp0_index"@), self.cp0_index),
            cp0_random: loaded32(field_of(t, "cp0_random"@), self.cp0_random),
            cp0_wired: loaded32(field_of(t, "cp0_wired"@), self.cp0_wired),
            cp0_count: loaded_count(field_of(t, "cp0_count"@), self.cp0_count),
            cp0_compare: loaded_count(field_of(t, "cp0_compare"@), self.cp0_compare),
            count_hz: loaded64(field_of(t, "count_hz"@), self.count_hz),
            compare_delta_slow: loaded_count(field_of(t, "compare_delta_slow"@), self.compare_delta_slow),
            compare_delta_fast: loaded_count(field_of(t, "compare_delta_fast"@), self.compare_delta_fast),
            cp0_status: loaded32(field_of(t, "cp0_status"@), self.cp0_status),
            cp0_cause: loaded32(field_of(t, "cp0_cause"@), self.cp0_cause),
            cp0_prid: loaded32(field_of(t, "cp0_prid"@), self.cp0_prid),
            cp0_config: loaded32(field_of(t, "cp0_config"@), self.cp0_config),
            cp0_lladdr: loaded32(field_of(t, "cp0_lladdr"@), self.cp0_lladdr),
            cp0_watchlo: loaded32(field_of(t, "cp0_watchlo"@), self.cp0_watchlo),
            cp0_watchhi: loaded32(field_of(t, "cp0_watchhi"@), self.cp0_watchhi),
            cp0_ecc: loaded32(field_of(t, "cp0_ecc"@), self.cp0_ecc),
            cp0_cacheerr: loaded32(field_of(t, "cp0_cacheerr"@), self.cp0_cacheerr),
            cp0_taglo: loaded32(field_of(t, "cp0_taglo"@), self.cp0_taglo),
            cp0_taghi: loaded32(field_of(t, "cp0_taghi"@), self.cp0_taghi),
            cp0_badvaddr: loaded64(field_of(t, "cp0_badvaddr"@), self.cp0_badvaddr),
            cp0_epc: loaded64(field_of(t, "cp0_epc"@), self.cp0_epc),
            cp0_errorepc: loaded64(field_of(t, "cp0_errorepc"@), self.cp0_errorepc),
            cp0_entrylo0: loaded64(field_of(t, "cp0_entrylo0"@), self.cp0_entrylo0),
            cp0_entrylo1: loaded64(field_of(t, "cp0_entrylo1"@), self.cp0_entrylo1),
            cp0_context: loaded64(field_of(t, "cp0_context"@), self.cp0_context),
            cp0_pagemask: loaded64(field_of(t, "cp0_pagemask"@), self.cp0_pagemask),
            cp0_entryhi: loaded64(field_of(t, "cp0_entryhi"@), self.cp0_entryhi),
            cp0_xcontext: loaded64(field_of(t, "cp0_xcontext"@), self.cp0_xcontext),
            ..self
        }
    }

    /// The state after the floating-point control registers have been loaded from `t`.
    pub open spec fn fpu_loaded(self, t: Tree) -> MipsCore {
        MipsCore {
            fpu_fir: loaded32(field_of(t, "fpu_fir"@), self.fpu_fir),
            fpu_fccr: loaded32(field_of(t, "fpu_fccr"@), self.fpu_fccr),
            fpu_fexr: loaded32(field_of(t, "fpu_fexr"@), self.fpu_fexr),
            fpu_fenr: loaded32(field_of(t, "fpu_fenr"@), self.fpu_fenr),
            fpu_fcsr: loaded32(field_of(t, "fpu_fcsr"@), self.fpu_fcsr),
            ..self
        }
    }

    /// Whether `c` is this state after all registers have been loaded from `t`.
    pub open spec fn is_loaded(self, t: Tree, c: MipsCore) -> bool {
        let a = match field_of(t, "cp0"@) {
            Some(x) => self.cp0_loaded(x),
            None => self,
        };
        let b = match field_of(t, "fpu"@) {
            Some(x) => a.fpu_loaded(x),
            None => a,
        };
        &&& c.gpr@ == loaded_list(field_of(t, "gpr"@), self.gpr@)
        &&& c.fpr@ == loaded_list(sub_field(field_of(t, "fpu"@), "fpr"@), self.fpr@)
        &&& c == (MipsCore {
            gpr: c.gpr,
            fpr: c.fpr,
            pc: loaded64(field_of(t, "pc"@), self.pc),
            hi: loaded64(field_of(t, "hi"@), self.hi),
            lo: loaded64(field_of(t, "lo"@), self.lo),
            in_delay_slot: match field_of(t, "in_delay_slot"@) {
                Some(x) => bool_of(x) == Some(true),
                None => self.in_delay_slot,
            },
            delay_slot_target: match field_of(t, "delay_slot_target"@) {
                Some(x) => loaded64(Some(x), 0),
                None => self.delay_slot_target,
            },
            ..b
        })
    }
}

/// A 64-bit register for a saved state.
pub fn hex_u64(v: u64) -> (r: toml::Value)
    ensures
        tree_of(r) == saved64(v),
{
    let mut s: String = "0x".to_string();
    put_hex_fixed(&mut s, v, 16);
    text_value(s)
}

/// A 32-bit register for a saved state.
pub fn hex_u32(v: u32) -> (r: toml::Value)
    ensures
        tree_of(r) == saved32(v),
{
    let mut s: String = "0x".to_string();
    put_hex_fixed(&mut s, v as u64, 8);
    text_value(s)
}

/// Registers in a row for a saved state.
pub fn u64_slice_to_toml(a: &[u64; 32]) -> (r: toml::Value)
    ensures
        tree_of(r) == saved_list(a@),
{
    let mut v: Vec<toml::Value> = Vec::new();
    let mut i: usize = 0;
    while i < 32
        invariant
            i <= 32,
            v@.len() == i,
            forall|j: int| 0 <= j < i ==> tree_of(#[trigger] v@[j]) == saved64(a@[j]),
        decreases 32 - i,
    {
        v.push(hex_u64(a[i]));
        i = i + 1;
    }
    assert(trees_of(v@) =~= Seq::new(32, |i: int| saved64(a@[i])));
    list_value(v)
}

/// The number in a saved 64-bit register.
pub fn toml_u64(v: &toml::Value) -> (r: Option<u64>)
    ensures
        r is Some == number_in(tree_of(*v), u64::MAX as nat) is Some,
        r matches Some(n) ==> n == number_in(tree_of(*v), u64::MAX as nat)->0,
{
    match as_text(v) {
        Some(s) => parse_hex(s),
        None => None,
    }
}

/// The number in a saved 32-bit register.
pub fn toml_u32(v: &toml::Value) -> (r: Option<u32>)
    ensures
        r is Some == number_in(tree_of(*v), u32::MAX as nat) is Some,
        r matches Some(n) ==> n == number_in(tree_of(*v), u32::MAX as nat)->0,
{
    match as_text(v) {
        Some(s) => match parse_hex(s) {
            Some(n) => if n <= u32::MAX as u64 {
                Some(n as u32)
            } else {
                None
            },
            None => None,
        },
        None => None,
    }
}

/// The truth value in a saved state.
pub fn toml_bool(v: &toml::Value) -> (r: Option<bool>)
    ensures
        r == bool_of(tree_of(*v)),
{
    as_bool(v)
}

/// Loads registers in a row.
pub fn load_u64_slice(v: &toml::Value, a: &mut [u64; 32])
    ensures
        final(a)@ == loaded_list(Some(tree_of(*v)), old(a)@),
{
    match as_list(v) {
        Some(l) => {
            let mut i: usize = 0;
            let ghost trees = trees_of(l@);
            while i < 32 && i < l.len()
                invariant
                    i <= 32,
                    i <= l@.len(),
                    trees == trees_of(l@),
                    forall|j: int|
                        0 <= j < 32 ==> #[trigger] a@[j] == if j < i {
                            loaded64(Some(trees[j]), old(a)@[j])
                        } else {
                            old(a)@[j]
                        },
                decreases 32 - i,
            {
                if let Some(n) = toml_u64(&l[i]) {
                    a[i] = n;
                }
                i = i + 1;
            }
            assert(a@ =~= loaded_list(Some(tree_of(*v)), old(a)@));
        },
        None => {},
    }
}

fn load64(v: &toml::Value, key: &str, was: u64) -> (r: u64)
    ensures
        r == loaded64(field_of(tree_of(*v), key@), was),
{
    match get_field(v, key) {
        Some(x) => match toml_u64(x) {
            Some(n) => n,
            None => was,
        },
        None => was,
    }
}

fn load32(v: &toml::Value, key: &str, was: u32) -> (r: u32)
    ensures
        r == loaded32(field_of(tree_of(*v), key@), was),
{
    match get_field(v, key) {
        Some(x) => match toml_u32(x) {
            Some(n) => n,
            None => was,
        },
        None => was,
    }
}

fn load_count(v: &toml::Value, key: &str, was: u64) -> (r: u64)
    ensures
        r == loaded_count(field_of(tree_of(*v), key@), was),
{
    let n: u64 = load64(v, key, was);
    if n > u32::MAX as u64 {
        n >> 32
    } else {
        n
    }
}

impl MipsCore {
    fn save_cp0(&self) -> (v: toml::Value)
        ensures
            tree_of(v) == Tree::Table(self.saved_cp0()),
    {
        let mut t = new_table();
        insert(&mut t, "cp0_index".to_string(), hex_u32(self.cp0_index));
        insert(&mut t, "cp0_random".to_string(), hex_u32(self.cp0_random));
        insert(&mut t, "cp0_wired".to_string(), hex_u32(self.cp0_wired));
        insert(&mut t, "cp0_count".to_string(), hex_u64(self.cp0_count));
        insert(&mut t, "cp0_compare".to_string(), hex_u64(self.cp0_compare));
        insert(&mut t, "count_hz".to_string(), hex_u64(self.count_hz));
        insert(&mut t, "compare_delta_slow".to_string(), hex_u64(self.compare_delta_slow));
        insert(&mut t, "compare_delta_fast".to_string(), hex_u64(self.compare_delta_fast));
        insert(&mut t, "cp0_status".to_string(), hex_u32(self.cp0_status));
        insert(&mut t, "cp0_cause".to_string(), hex_u32(self.cp0_cause));
        insert(&mut t, "cp0_prid".to_string(), hex_u32(self.cp0_prid));
        insert(&mut t, "cp0_config".to_string(), hex_u32(self.cp0_config));
        insert(&mut t, "cp0_lladdr".to_string(), hex_u32(self.cp0_lladdr));
        insert(&mut t, "cp0_watchlo".to_string(), hex_u32(self.cp0_watchlo));
        insert(&mut t, "cp0_watchhi".to_string(), hex_u32(self.cp0_watchhi));
        insert(&mut t, "cp0_ecc".to_string(), hex_u32(self.cp0_ecc));
        insert(&mut t, "cp0_cacheerr".to_string(), hex_u32(self.cp0_cacheerr));
        insert(&mut t, "cp0_taglo".to_string(), hex_u32(self.cp0_taglo));
        insert(&mut t, "cp0_taghi".to_string(), hex_u32(self.cp0_taghi));
        insert(&mut t, "cp0_badvaddr".to_string(), hex_u64(self.cp0_badvaddr));
        insert(&mut t, "cp0_epc".to_string(), hex_u64(self.cp0_epc));
        insert(&mut t, "cp0_errorepc".to_string(), hex_u64(self.cp0_errorepc));
        insert(&mut t, "cp0_entrylo0".to_string(), hex_u64(self.cp0_entrylo0));
        insert(&mut t, "cp0_entrylo1".to_string(), hex_u64(self.cp0_entrylo1));
        insert(&mut t, "cp0_context".to_string(), hex_u64(self.cp0_context));
        insert(&mut t, "cp0_pagemask".to_string(), hex_u64(self.cp0_pagemask));
        insert(&mut t, "cp0_entryhi".to_string(), hex_u64(self.cp0_entryhi));
        insert(&mut t, "cp0_xcontext".to_string(), hex_u64(self.cp0_xcontext));
        table_value(t)
    }

    fn save_fpu(&self) -> (v: toml::Value)
        ensures
            tree_of(v) == Tree::Table(self.saved_fpu()),
    {
        let mut t = new_table();
        insert(&mut t, "fpr".to_string(), u64_slice_to_toml(&self.fpr));
        insert(&mut t, "fpu_fir".to_string(), hex_u32(self.fpu_fir));
        insert(&mut t, "fpu_fccr".to_string(), hex_u32(self.fpu_fccr));
        insert(&mut t, "fpu_fexr".to_string(), hex_u32(self.fpu_fexr));
        insert(&mut t, "fpu_fenr".to_string(), hex_u32(self.fpu_fenr));
        insert(&mut t, "fpu_fcsr".to_string(), hex_u32(self.fpu_fcsr));
        table_value(t)
    }

    fn load_cp0(&mut self, v: &toml::Value)
        ensures
            *final(self) == old(self).cp0_loaded(tree_of(*v)),
    {
        self.cp0_index = load32(v, "cp0_index", self.cp0_index);
        self.cp0_random = load32(v, "cp0_random", self.cp0_random);
        self.cp0_wired = load32(v, "cp0_wired", self.cp0_wired);
        self.cp0_count = load_count(v, "cp0_count", self.cp0_count);
        self.cp0_compare = load_count(v, "cp0_compare", self.cp0_compare);
        self.count_hz = load64(v, "count_hz", self.count_hz);
        self.compare_delta_slow = load_count(v, "compare_delta_slow", self.compare_delta_slow);
        self.compare_delta_fast = load_count(v, "compare_delta_fast", self.compare_delta_fast);
        self.cp0_status = load32(v, "cp0_status", self.cp0_status);
        self.cp0_cause = load32(v, "cp0_cause", self.cp0_cause);
        self.cp0_prid = load32(v, "cp0_prid", self.cp0_prid);
        self.cp0_config = load32(v, "cp0_config", self.cp0_config);
        self.cp0_lladdr = load32(v, "cp0_lladdr", self.cp0_lladdr);
        self.cp0_watchlo = load32(v, "cp0_watchlo", self.cp0_watchlo);
        self.cp0_watchhi = load32(v, "cp0_watchhi", self.cp0_watchhi);
        self.cp0_ecc = load32(v, "cp0_ecc", self.cp0_ecc);
        self.cp0_cacheerr = load32(v, "cp0_cacheerr", self.cp0_cacheerr);
        self.cp0_taglo = load32(v, "cp0_taglo", self.cp0_taglo);
        self.cp0_taghi = load32(v, "cp0_taghi", self.cp0_taghi);
        self.cp0_badvaddr = load64(v, "cp0_badvaddr", self.cp0_badvaddr);
        self.cp0_epc = load64(v, "cp0_epc", self.cp0_epc);
        self.cp0_errorepc = load64(v, "cp0_errorepc", self.cp0_errorepc);
        self.cp0_entrylo0 = load64(v, "cp0_entrylo0", self.cp0_entrylo0);
        self.cp0_entrylo1 = load64(v, "cp0_entrylo1", self.cp0_entrylo1);
        self.cp0_context = load64(v, "cp0_context", self.cp0_context);
        self.cp0_pagemask = load64(v, "cp0_pagemask", self.cp0_pagemask);
        self.cp0_entryhi = load64(v, "cp0_entryhi", self.cp0_entryhi);
        self.cp0_xcontext = load64(v, "cp0_xcontext", self.cp0_xcontext);
    }

    fn load_fpu(&mut self, v: &toml::Value)
        ensures
            *final(self) == old(self).fpu_loaded(tree_of(*v)),
    {
        self.fpu_fir = load32(v, "fpu_fir", self.fpu_fir);
        self.fpu_fccr = load32(v, "fpu_fccr", self.fpu_fccr);
        self.fpu_fexr = load32(v, "fpu_fexr", self.fpu_fexr);
        self.fpu_fenr = load32(v, "fpu_fenr", self.fpu_fenr);
        self.fpu_fcsr = load32(v, "fpu_fcsr", self.fpu_fcsr);
    }

    fn load(&mut self, v: &toml::Value)
        ensures
            old(self).is_loaded(tree_of(*v), *final(self)),
    {
        if let Some(x) = get_field(v, "gpr") {
            load_u64_slice(x, &mut self.gpr);
        }
        self.pc = load64(v, "pc", self.pc);
        self.hi = load64(v, "hi", self.hi);
        self.lo = load64(v, "lo", self.lo);
        if let Some(x) = get_field(v, "cp0") {
            self.load_cp0(x);
        }
        if let Some(x) = get_field(v, "fpu") {
            if let Some(l) = get_field(x, "fpr") {
                load_u64_slice(l, &mut self.fpr);
            }
            self.load_fpu(x);
        }
        if let Some(x) = get_field(v, "in_delay_slot") {
            self.in_delay_slot = match toml_bool(x) {
                Some(b) => b,
                None => false,
            };
        }
        if let Some(x) = get_field(v, "delay_slot_target") {
            self.delay_slot_target = match toml_u64(x) {
                Some(n) => n,
                None => 0,
            };
        }
    }
}

impl<T: Tlb, C: MipsCache, B: BusDevice> Machine<T, C, B> {
    /// The processor with its TLB and caches, as it is saved.
    pub open spec fn saved(&self) -> Tree {
        Tree::Table(
            self.core.saved().insert("tlb"@, T::saved(self.tlb)).insert(
                "cache"@,
                C::saved(self.cache),
            ),
        )
    }

    /// The outcome of loading the TLB from `t`: why it failed, if it did, and the TLB.
    pub open spec fn tlb_load(&self, t: Tree) -> (Option<Seq<char>>, T::St) {
        match field_of(t, "tlb"@) {
            Some(x) => T::load_result(self.tlb, x),
            None => (None, self.tlb),
        }
    }

    /// The outcome of loading the caches from `t`.
    pub open spec fn cache_load(&self, t: Tree) -> (Option<Seq<char>>, C::St) {
        match field_of(t, "cache"@) {
            Some(x) => C::load_result(self.cache, x),
            None => (None, self.cache),
        }
    }

    /// Why loading from `t` fails: the TLB's reason, or else the caches'.
    pub open spec fn load_error(&self, t: Tree) -> Option<Seq<char>> {
        match self.tlb_load(t).0 {
            Some(e) => Some(e),
            None => self.cache_load(t).0,
        }
    }

    /// Whether `m` is this machine after loading from `t`. Where the TLB fails, the
    /// caches stay.
    pub open spec fn is_loaded(self, t: Tree, m: Self) -> bool {
        &&& self.core.is_loaded(t, m.core)
        &&& m == (Machine {
            core: m.core,
            tlb: self.tlb_load(t).1,
            cache: if self.tlb_load(t).0 is Some {
                self.cache
            } else {
                self.cache_load(t).1
            },
            ..self
        })
    }
}

impl<T: Tlb, C: MipsCache, B: BusDevice> MipsExecutor<T, C, B> {
    /// The state of the processor, its TLB and its caches, for a file.
    pub fn save_state(&self) -> (v: toml::Value)
        requires
            self.wf(),
        ensures
            tree_of(v) == self@.saved(),
    {
        let c: &MipsCore = &self.core;
        let mut t = new_table();
        insert(&mut t, "gpr".to_string(), u64_slice_to_toml(&c.gpr));
        insert(&mut t, "pc".to_string(), hex_u64(c.pc));
        insert(&mut t, "hi".to_string(), hex_u64(c.hi));
        insert(&mut t, "lo".to_string(), hex_u64(c.lo));
        insert(&mut t, "cp0".to_string(), c.save_cp0());
        insert(&mut t, "fpu".to_string(), c.save_fpu());
        insert(&mut t, "in_delay_slot".to_string(), bool_value(c.in_delay_slot));
        insert(&mut t, "delay_slot_target".to_string(), hex_u64(c.delay_slot_target));
        insert(&mut t, "tlb".to_string(), self.tlb.save_state());
        insert(&mut t, "cache".to_string(), self.cache.save_cache_state());
        table_value(t)
    }

    /// Loads a saved state. What it does not hold stays as it is.
    pub fn load_state(&mut self, v: &toml::Value) -> (r: Result<(), String>)
        requires
            old(self).wf(),
        ensures
            final(self).wf(),
            old(self)@.is_loaded(tree_of(*v), final(self)@),
            match old(self)@.load_error(tree_of(*v)) {
                Some(e) => r is Err && r->Err_0@ == e,
                None => r is Ok,
            },
    {
        self.core.load(v);
        if let Some(x) = get_field(v, "tlb") {
            if let Err(e) = self.tlb.load_state(x) {
                return Err(e);
            }
        }
        if let Some(x) = get_field(v, "cache") {
            if let Err(e) = self.cache.load_cache_state(x) {
                return Err(e);
            }
        }
        Ok(())
    }
}

} // verus!
