//! Symbols from a listing: an address and a name on each line, as `nm` writes them.
use vstd::prelude::*;
use vstd::string::StringExecFns;

use crate::command::words;
use crate::parse::{number, parse_hex, without_0x};
use crate::symbols::{ascending, Symbol, SymbolTable};
use crate::text::chars_of;

verus! {

pub open spec fn is_space(c: char) -> bool {
    c == ' ' || c == '\t' || c == '\r'
}

/// Length of the field at the start of `s`.
pub open spec fn field_len(s: Seq<char>) -> nat
    decreases s.len(),
{
    if s.len() == 0 || is_space(s[0]) {
        0
    } else {
        1 + field_len(s.skip(1))
    }
}

/// The fields of a line.
pub open spec fn fields(s: Seq<char>) -> Seq<Seq<char>>
    decreases s.len(),
{
    if s.len() == 0 {
        Seq::empty()
    } else if is_space(s[0]) {
        fields(s.skip(1))
    } else if field_len(s) <= s.len() {
        seq![s.take(field_len(s) as int)] + fields(s.skip(field_len(s) as int))
    } else {
        Seq::empty()
    }
}

/// The symbol on a line: the address is its first field, the name its last.
pub open spec fn symbol_on(line: Seq<char>) -> Option<(u64, Seq<char>)> {
    let f = fields(line);
    if f.len() < 2 {
        None
    } else {
        match number(without_0x(f[0]), 16, u64::MAX as nat) {
            Some(a) => Some((a as u64, f.last())),
            None => None,
        }
    }
}

/// Number of symbols below `addr`.
pub open spec fn count_below(s: Seq<Symbol>, addr: u64) -> nat
    decreases s.len(),
{
    if s.len() == 0 {
        0
    } else {
        count_below(s.drop_last(), addr) + if s.last().addr < addr {
            1nat
        } else {
            0
        }
    }
}

/// `new_symbols` is `old_symbols` with one more, at the place of its address.
pub open spec fn has_inserted(
    old_symbols: Seq<Symbol>,
    new_symbols: Seq<Symbol>,
    addr: u64,
    name: Seq<char>,
) -> bool {
    let p = count_below(old_symbols, addr) as int;
    &&& p < new_symbols.len()
    &&& new_symbols[p].addr == addr && new_symbols[p].name@ == name
    &&& new_symbols.remove(p) == old_symbols
}

/// An address has a symbol of its own.
pub open spec fn is_named(s: Seq<Symbol>, addr: u64) -> bool {
    exists|i: int| 0 <= i < s.len() && (#[trigger] s[i]).addr == addr
}

proof fn lemma_field_len(s: Seq<char>)
    ensures
        field_len(s) <= s.len(),
        s.len() > 0 && !is_space(s[0]) ==> field_len(s) > 0,
    decreases s.len(),
{
    if s.len() > 0 && !is_space(s[0]) {
        lemma_field_len(s.skip(1));
    }
}

fn take_field(v: &Vec<char>, from: usize) -> (r: (usize, String))
    requires
        from <= v@.len(),
    ensures
        r.0 == from + field_len(v@.skip(from as int)),
        r.0 <= v@.len(),
        r.1@ == v@.subrange(from as int, r.0 as int),
{
    let mut i: usize = from;
    let mut w: String = String::new();
    assert(w@ =~= v@.subrange(from as int, from as int));
    while i < v.len() && !(v[i] == ' ' || v[i] == '\t' || v[i] == '\r')
        invariant
            from <= i <= v@.len(),
            w@ == v@.subrange(from as int, i as int),
            field_len(v@.skip(from as int)) == (i - from) + field_len(v@.skip(i as int)),
        decreases v@.len() - i,
    {
        assert(v@.skip(i as int).skip(1) =~= v@.skip(i + 1));
        w.push(v[i]);
        i = i + 1;
        assert(w@ =~= v@.subrange(from as int, i as int));
    }
    assert(field_len(v@.skip(i as int)) == 0);
    (i, w)
}

fn split_fields(line: &str) -> (out: Vec<String>)
    ensures
        words(out@) == fields(line@),
{
    let v: Vec<char> = chars_of(line);
    let mut out: Vec<String> = Vec::new();
    let mut i: usize = 0;
    assert(v@.skip(0) =~= line@);
    assert(words(out@) + fields(v@.skip(0)) =~= fields(line@));
    while i < v.len()
        invariant
            i <= v@.len(),
            words(out@) + fields(v@.skip(i as int)) == fields(line@),
        decreases v@.len() - i,
    {
        let ghost s = v@.skip(i as int);
        proof {
            lemma_field_len(s);
        }
        let c: char = v[i];
        if c == ' ' || c == '\t' || c == '\r' {
            assert(s.skip(1) =~= v@.skip(i + 1));
            i = i + 1;
        } else {
            let (end, w): (usize, String) = take_field(&v, i);
            let ghost before = out@;
            let ghost wv = w@;
            out.push(w);
            proof {
                assert(s.take(end - i) =~= v@.subrange(i as int, end as int));
                assert(s.skip(end - i) =~= v@.skip(end as int));
                assert(words(out@) =~= words(before).push(wv));
                assert(words(out@) + fields(v@.skip(end as int)) =~= words(before) + (seq![wv]
                    + fields(v@.skip(end as int))));
            }
            i = end;
        }
    }
    assert(v@.skip(i as int).len() == 0);
    assert(words(out@) =~= fields(line@));
    out
}

proof fn lemma_count_below(s: Seq<Symbol>, addr: u64, n: int)
    requires
        ascending(s),
        0 <= n <= s.len(),
        forall|i: int| 0 <= i < n ==> (#[trigger] s[i]).addr < addr,
        forall|i: int| n <= i < s.len() ==> (#[trigger] s[i]).addr >= addr,
    ensures
        count_below(s, addr) == n,
    decreases s.len(),
{
    if s.len() > 0 {
        if n == s.len() {
            lemma_count_below(s.drop_last(), addr, n - 1);
        } else {
            lemma_count_below(s.drop_last(), addr, n);
        }
    }
}

impl SymbolTable {
    /// Puts a symbol in its place; false, and no change, where its address has one.
    pub fn insert(&mut self, addr: u64, name: String) -> (r: bool)
        requires
            old(self).wf(),
        ensures
            final(self).wf(),
            r == !is_named(old(self).symbols@, addr),
            !r ==> final(self).symbols@ == old(self).symbols@,
            r ==> has_inserted(old(self).symbols@, final(self).symbols@, addr, name@),
    {
        let mut lo: usize = 0;
        let mut hi: usize = self.symbols.len();
        while lo < hi
            invariant
                lo <= hi <= self.symbols@.len(),
                self.wf(),
                forall|i: int| 0 <= i < lo ==> (#[trigger] self.symbols@[i]).addr < addr,
                forall|i: int|
                    hi <= i < self.symbols@.len() ==> (#[trigger] self.symbols@[i]).addr >= addr,
            decreases hi - lo,
        {
            let mid: usize = lo + (hi - lo) / 2;
            if self.symbols[mid].addr < addr {
                assert forall|i: int| 0 <= i < mid + 1 implies (#[trigger] self.symbols@[i]).addr
                    < addr by {
                    if i < mid {
                        assert(self.symbols@[i].addr < self.symbols@[mid as int].addr);
                    }
                }
                lo = mid + 1;
            } else {
                assert forall|i: int| mid <= i < self.symbols@.len() implies (
                #[trigger] self.symbols@[i]).addr >= addr by {
                    if mid < i {
                        assert(self.symbols@[mid as int].addr < self.symbols@[i].addr);
                    }
                }
                hi = mid;
            }
        }
        proof {
            lemma_count_below(self.symbols@, addr, lo as int);
        }
        if lo < self.symbols.len() && self.symbols[lo].addr == addr {
            assert(self.symbols@[lo as int].addr == addr);
            return false;
        }
        self.symbols.insert(lo, Symbol { addr, name });
        assert(ascending(self.symbols@));
        assert(self.symbols@.remove(lo as int) =~= old(self).symbols@);
        true
    }

    /// Takes the symbol of a line of a listing; false where there is none, or where its
    /// address has one already.
    pub fn insert_line(&mut self, line: &str) -> (r: bool)
        requires
            old(self).wf(),
        ensures
            final(self).wf(),
            match symbol_on(line@) {
                Some((addr, name)) => {
                    &&& r == !is_named(old(self).symbols@, addr)
                    &&& !r ==> final(self).symbols@ == old(self).symbols@
                    &&& r ==> has_inserted(
                        old(self).symbols@,
                        final(self).symbols@,
                        addr,
                        name,
                    )
                },
                None => !r && final(self).symbols@ == old(self).symbols@,
            },
    {
        let f: Vec<String> = split_fields(line);
        assert(words(f@).len() == f@.len());
        if f.len() < 2 {
            return false;
        }
        assert(words(f@)[0] == f@[0]@);
        match parse_hex(f[0].as_str()) {
            Some(addr) => {
                let n: usize = f.len();
                assert(words(f@).last() == f@[n - 1]@);
                let name: String = f[n - 1].as_str().to_string();
                self.insert(addr, name)
            },
            None => false,
        }
    }
}

} // verus!
