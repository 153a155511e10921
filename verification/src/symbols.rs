//! Symbols of the guest's program, and addresses shown by them.
use vstd::prelude::*;
use vstd::string::StringExecFns;

use crate::text::{hex, put, put_hex, str_eq};

verus! {

/// A named address.
pub struct Symbol {
    pub addr: u64,
    pub name: String,
}

/// Symbols in ascending order of address.
pub struct SymbolTable {
    pub symbols: Vec<Symbol>,
}

/// Index of the last symbol at or below `addr`.
pub open spec fn last_at_or_below(s: Seq<Symbol>, addr: u64) -> Option<int>
    decreases s.len(),
{
    if s.len() == 0 {
        None
    } else if s.last().addr <= addr {
        Some(s.len() - 1)
    } else {
        last_at_or_below(s.drop_last(), addr)
    }
}

/// Index of the first symbol called `name`.
pub open spec fn first_named_at(s: Seq<Symbol>, name: Seq<char>) -> Option<int>
    decreases s.len(),
{
    if s.len() == 0 {
        None
    } else {
        match first_named_at(s.drop_last(), name) {
            Some(i) => Some(i),
            None => if s.last().name@ == name {
                Some(s.len() - 1)
            } else {
                None
            },
        }
    }
}

pub open spec fn ascending(s: Seq<Symbol>) -> bool {
    forall|i: int, j: int| 0 <= i < j < s.len() ==> (#[trigger] s[i]).addr < (#[trigger] s[j]).addr
}

impl SymbolTable {
    pub open spec fn wf(&self) -> bool {
        ascending(self.symbols@)
    }

    /// The nearest symbol at or below `addr`, as address and name.
    pub open spec fn nearest(&self, addr: u64) -> Option<(u64, Seq<char>)> {
        match last_at_or_below(self.symbols@, addr) {
            Some(i) => Some((self.symbols@[i].addr, self.symbols@[i].name@)),
            None => None,
        }
    }

    /// Address of the symbol called `name`.
    pub open spec fn address_of(&self, name: Seq<char>) -> Option<u64> {
        match first_named_at(self.symbols@, name) {
            Some(i) => Some(self.symbols@[i].addr),
            None => None,
        }
    }

    pub fn new() -> (t: Self)
        ensures
            t.wf(),
            t.symbols@.len() == 0,
    {
        SymbolTable { symbols: Vec::new() }
    }

    /// Appends a symbol above all others; false, and no change, where it is not above
    /// the last.
    pub fn append(&mut self, addr: u64, name: String) -> (r: bool)
        requires
            old(self).wf(),
        ensures
            final(self).wf(),
            r == (old(self).symbols@.len() == 0 || old(self).symbols@.last().addr < addr),
            r ==> final(self).symbols@ == old(self).symbols@.push((Symbol { addr, name })),
            !r ==> final(self).symbols@ == old(self).symbols@,
    {
        let n: usize = self.symbols.len();
        if n > 0 && self.symbols[n - 1].addr >= addr {
            return false;
        }
        self.symbols.push(Symbol { addr, name });
        true
    }

    fn index_below(&self, addr: u64) -> (r: Option<usize>)
        ensures
            match r {
                Some(i) => i < self.symbols@.len() && last_at_or_below(self.symbols@, addr) == Some(
                    i as int,
                ) && self.symbols@[i as int].addr <= addr,
                None => last_at_or_below(self.symbols@, addr) is None,
            },
    {
        let mut n: usize = self.symbols.len();
        assert(self.symbols@.subrange(0, n as int) =~= self.symbols@);
        while n > 0
            invariant
                n <= self.symbols@.len(),
                last_at_or_below(self.symbols@, addr) == last_at_or_below(
                    self.symbols@.subrange(0, n as int),
                    addr,
                ),
            decreases n,
        {
            let ghost s = self.symbols@.subrange(0, n as int);
            assert(s.last() == self.symbols@[n - 1]);
            assert(s.drop_last() =~= self.symbols@.subrange(0, n - 1));
            if self.symbols[n - 1].addr <= addr {
                return Some(n - 1);
            }
            n = n - 1;
        }
        None
    }

    /// The nearest symbol at or below `addr`.
    pub fn lookup(&self, addr: u64) -> (r: Option<(u64, &String)>)
        ensures
            match r {
                Some(p) => self.nearest(addr) == Some((p.0, p.1@)) && p.0 <= addr,
                None => self.nearest(addr) is None,
            },
    {
        match self.index_below(addr) {
            Some(i) => Some((self.symbols[i].addr, &self.symbols[i].name)),
            None => None,
        }
    }

    /// Address of the first symbol called `name`.
    pub fn get_addr(&self, name: &str) -> (r: Option<u64>)
        ensures
            r == self.address_of(name@),
    {
        let mut i: usize = 0;
        while i < self.symbols.len()
            invariant
                i <= self.symbols@.len(),
                first_named_at(self.symbols@.subrange(0, i as int), name@) is None,
            decreases self.symbols@.len() - i,
        {
            assert(self.symbols@.subrange(0, i + 1).drop_last() =~= self.symbols@.subrange(
                0,
                i as int,
            ));
            assert(self.symbols@.subrange(0, i + 1).last() == self.symbols@[i as int]);
            if str_eq(self.symbols[i].name.as_str(), name) {
                proof {
                    lemma_first_named_prefix(self.symbols@, i + 1, name@);
                }
                return Some(self.symbols[i].addr);
            }
            i = i + 1;
        }
        assert(self.symbols@.subrange(0, i as int) =~= self.symbols@);
        None
    }
}

proof fn lemma_first_named_prefix(s: Seq<Symbol>, n: int, name: Seq<char>)
    requires
        0 <= n <= s.len(),
        first_named_at(s.subrange(0, n), name) is Some,
    ensures
        first_named_at(s, name) == first_named_at(s.subrange(0, n), name),
    decreases s.len() - n,
{
    if n < s.len() {
        assert(s.subrange(0, n + 1).drop_last() =~= s.subrange(0, n));
        lemma_first_named_prefix(s, n + 1, name);
    } else {
        assert(s.subrange(0, n) =~= s);
    }
}

/// The address under which `pc` is looked up: itself, or, where it has no symbol and
/// lies in the uncached kernel segment, the same place in the cached one.
pub open spec fn symbol_address(pc: u64, t: SymbolTable) -> u64 {
    let kseg0 = (pc & 0x1FFFFFFF) | 0xFFFF_FFFF_8000_0000;
    if t.nearest(pc) is None && (pc >> 32) == 0xFFFFFFFF && ((pc >> 29) & 0x7) == 5 && t.nearest(
        kseg0,
    ) is Some {
        kseg0
    } else {
        pc
    }
}

/// `pc` shown as a symbol and an offset of at most 256 bytes, or nothing.
pub open spec fn pc_symbol(pc: u64, t: SymbolTable) -> Seq<char> {
    let at = symbol_address(pc, t);
    match t.nearest(at) {
        None => Seq::empty(),
        Some((addr, name)) => {
            let offset = at - addr;
            if offset > 256 {
                Seq::empty()
            } else if offset == 0 {
                " <"@ + name + ">"@
            } else {
                " <"@ + name + "+0x"@ + hex(offset as nat) + ">"@
            }
        },
    }
}

/// Shows `pc` by the nearest symbol below it.
pub fn format_pc_symbol(pc: u64, symbols: &SymbolTable) -> (s: String)
    ensures
        s@ == pc_symbol(pc, *symbols),
{
    let mut at: u64 = pc;
    let mut found: Option<(u64, &String)> = symbols.lookup(pc);
    if found.is_none() && (pc >> 32) == 0xFFFFFFFF && ((pc >> 29) & 0x7) == 5 {
        let kseg0: u64 = (pc & 0x1FFFFFFF) | 0xFFFF_FFFF_8000_0000;
        let again: Option<(u64, &String)> = symbols.lookup(kseg0);
        if again.is_some() {
            found = again;
            at = kseg0;
        }
    }
    let mut s: String = String::new();
    match found {
        None => {},
        Some((addr, name)) => {
            let offset: u64 = at - addr;
            if offset > 256 {
                return s;
            }
            put(&mut s, " <");
            put(&mut s, name.as_str());
            if offset != 0 {
                put(&mut s, "+0x");
                put_hex(&mut s, offset);
            }
            put(&mut s, ">");
        },
    }
    assert(s@ =~= pc_symbol(pc, *symbols));
    s
}

} // verus!
