//! What expressions, symbols and breakpoints mean to the one who debugs.
use vstd::prelude::*;

use crate::breakpoints::{last_hit, zero_hit, BpType, Breakpoint, BreakpointTable};
use crate::cpu_core::MipsCore;
use crate::exp::{apply, first_named, gpr_name, named_register, BinOp, Expr};
use crate::expr_parse::{
    continued, ends_word, evaluated, expression, operand, operator, pieces, word_len, TokenView,
};
use crate::parse::{digits_value, number, unsigned_part, without_0x};
use crate::symbols::{ascending, last_at_or_below, Symbol, SymbolTable};
use crate::symbols_load::{count_below, field_len, fields, has_inserted, is_space, symbol_on};
use crate::text::{dec, digit, hex, numeral};

verus! {

/// `w` is one word: a number or a name.
pub open spec fn is_word(w: Seq<char>) -> bool {
    w.len() > 0 && forall|i: int| 0 <= i < w.len() ==> !ends_word(#[trigger] w[i])
}

proof fn lemma_word_len(s: Seq<char>, t: Seq<char>)
    requires
        t.len() == 0 || ends_word(t[0]),
    ensures
        word_len(s) <= s.len(),
        word_len(s) < s.len() ==> word_len(s + t) == word_len(s),
        word_len(s) == s.len() ==> word_len(s + t) == s.len(),
        is_word(s) ==> word_len(s) == s.len(),
    decreases s.len(),
{
    if s.len() == 0 {
        assert(s + t =~= t);
    } else if !ends_word(s[0]) {
        lemma_word_len(s.skip(1), t);
        assert((s + t).skip(1) =~= s.skip(1) + t);
        assert((s + t)[0] == s[0]);
        if is_word(s) && s.len() > 1 {
            assert forall|i: int| 0 <= i < s.skip(1).len() implies !ends_word(
                #[trigger] s.skip(1)[i],
            ) by {
                assert(s.skip(1)[i] == s[i + 1]);
            }
        }
    } else {
        assert((s + t)[0] == s[0]);
    }
}

/// A word is one piece.
proof fn lemma_word(w: Seq<char>)
    requires
        is_word(w),
    ensures
        pieces(w) == Some(seq![TokenView::Word(w)]),
{
    lemma_word_len(w, Seq::empty());
    assert(!ends_word(w[0]));
    assert(w.take(w.len() as int) =~= w);
    assert(w.skip(w.len() as int) =~= Seq::<char>::empty());
    assert(pieces(Seq::<char>::empty()) == Some(Seq::<TokenView>::empty()));
    assert(seq![TokenView::Word(w)] + Seq::<TokenView>::empty() =~= seq![TokenView::Word(w)]);
}

/// Pieces of a text, and of what follows it.
proof fn lemma_pieces(s: Seq<char>, t: Seq<char>)
    requires
        t.len() > 0,
        ends_word(t[0]),
        pieces(s) is Some,
        pieces(t) is Some,
    ensures
        pieces(s + t) == Some(pieces(s)->0 + pieces(t)->0),
    decreases s.len(),
{
    let u = s + t;
    if s.len() == 0 {
        assert(u =~= t);
        assert(pieces(s)->0 + pieces(t)->0 =~= pieces(t)->0);
    } else {
        assert(u[0] == s[0]);
        if s[0] == ' ' {
            assert(u.skip(1) =~= s.skip(1) + t);
            lemma_pieces(s.skip(1), t);
        } else if s.len() >= 2 && s[1] == '=' && (s[0] == '=' || s[0] == '!') {
            assert(u[1] == s[1]);
            assert(u.skip(2) =~= s.skip(2) + t);
            lemma_pieces(s.skip(2), t);
            let x = seq![
                TokenView::Op(
                    if s[0] == '=' {
                        BinOp::Equal
                    } else {
                        BinOp::NotEqual
                    },
                ),
            ];
            assert(x + (pieces(s.skip(2))->0 + pieces(t)->0) =~= (x + pieces(s.skip(2))->0)
                + pieces(t)->0);
        } else if operator(s[0]) is Some {
            assert(u.skip(1) =~= s.skip(1) + t);
            lemma_pieces(s.skip(1), t);
            let x = seq![TokenView::Op(operator(s[0])->0)];
            assert(x + (pieces(s.skip(1))->0 + pieces(t)->0) =~= (x + pieces(s.skip(1))->0)
                + pieces(t)->0);
        } else {
            lemma_word_len(s, t);
            let n = word_len(s) as int;
            assert(0 < n <= s.len());
            assert(word_len(u) == n);
            assert(u.skip(n) =~= s.skip(n) + t);
            assert(u.take(n) =~= s.take(n));
            lemma_pieces(s.skip(n), t);
            let x = seq![TokenView::Word(s.take(n))];
            assert(x + (pieces(s.skip(n))->0 + pieces(t)->0) =~= (x + pieces(s.skip(n))->0)
                + pieces(t)->0);
        }
    }
}

/// One more operator and operand at the end of an expression.
proof fn lemma_continued(e: Expr, t: Seq<TokenView>, op: BinOp, w: Seq<char>, symbols: SymbolTable)
    requires
        continued(e, t, symbols) is Some,
        operand(w, symbols) is Some,
    ensures
        continued(e, t + seq![TokenView::Op(op), TokenView::Word(w)], symbols) == Some(
            Expr::Bin(
                op,
                Box::new(continued(e, t, symbols)->0),
                Box::new(operand(w, symbols)->0),
            ),
        ),
    decreases t.len(),
{
    let more = seq![TokenView::Op(op), TokenView::Word(w)];
    let u = t + more;
    if t.len() == 0 {
        assert(u =~= more);
        let b = Expr::Bin(op, Box::new(e), Box::new(operand(w, symbols)->0));
        assert(u.skip(2) =~= Seq::<TokenView>::empty());
        assert(continued(b, Seq::<TokenView>::empty(), symbols) == Some(b));
    } else {
        assert(u[0] == t[0] && u[1] == t[1]);
        assert(u.skip(2) =~= t.skip(2) + more);
        if let (TokenView::Op(o), TokenView::Word(x)) = (t[0], t[1]) {
            let r = operand(x, symbols)->0;
            lemma_continued(
                Expr::Bin(o, Box::new(e), Box::new(r)),
                t.skip(2),
                op,
                w,
                symbols,
            );
        }
    }
}

/// Text, an operator in letters `o`, and a word.
proof fn lemma_combined(
    s: Seq<char>,
    o: Seq<char>,
    op: BinOp,
    w: Seq<char>,
    c: MipsCore,
    symbols: SymbolTable,
)
    requires
        o.len() > 0,
        ends_word(o[0]),
        pieces(o + w) == Some(seq![TokenView::Op(op), TokenView::Word(w)]),
        is_word(w),
        evaluated(s, c, symbols) is Some,
        evaluated(w, c, symbols) is Some,
    ensures
        evaluated(s + (o + w), c, symbols) == apply(
            op,
            evaluated(s, c, symbols)->0,
            evaluated(w, c, symbols)->0,
        ),
{
    assert((o + w)[0] == o[0]);
    lemma_pieces(s, o + w);
    lemma_word(w);
    let t = pieces(s)->0;
    let more = seq![TokenView::Op(op), TokenView::Word(w)];
    let u = t + more;
    assert(u[0] == t[0]);
    assert(u.skip(1) =~= t.skip(1) + more);
    if let TokenView::Word(x) = t[0] {
        let e = operand(x, symbols)->0;
        assert(seq![TokenView::Word(w)].skip(1) =~= Seq::<TokenView>::empty());
        let r = operand(w, symbols)->0;
        assert(continued(r, Seq::<TokenView>::empty(), symbols) == Some(r));
        assert(expression(w, symbols) == Some(r));
        lemma_continued(e, t.skip(1), op, w, symbols);
        let l = continued(e, t.skip(1), symbols)->0;
        let b = Expr::Bin(op, Box::new(l), Box::new(r));
        assert(expression(s + (o + w), symbols) == Some(b));
        assert(b.value(c) == apply(op, l.value(c)->0, r.value(c)->0));
    }
}

/// What an operator makes of two numbers: nothing, for a division by zero.
pub open spec fn combined(o: char, a: u64, b: u64) -> Option<u64> {
    if o == '+' {
        Some(((a + b) % 0x1_0000_0000_0000_0000) as u64)
    } else if o == '-' {
        Some(((a - b) % 0x1_0000_0000_0000_0000) as u64)
    } else if o == '/' {
        if b != 0 {
            Some((a as int / b as int) as u64)
        } else {
            None
        }
    } else if o == '&' {
        Some(a & b)
    } else if o == '|' {
        Some(a | b)
    } else if o == '^' {
        Some(a ^ b)
    } else if o == '<' {
        Some(
            if a < b {
                1
            } else {
                0
            },
        )
    } else {
        Some(
            if a > b {
                1
            } else {
                0
            },
        )
    }
}

pub open spec fn is_operator(o: char) -> bool {
    o == '+' || o == '-' || o == '/' || o == '&' || o == '|' || o == '^' || o == '<' || o == '>'
}

proof fn lemma_apply(o: char, a: u64, b: u64)
    requires
        is_operator(o),
    ensures
        operator(o) is Some,
        apply(operator(o)->0, a, b) == combined(o, a, b),
{
}

/// Law: expressions are computed from left to right. An expression with an operator and a
/// word behind it is that operation on the value of the expression and the value of the
/// word, in 64 bits without signs.
pub proof fn law_expressions_combine(
    s: Seq<char>,
    o: char,
    w: Seq<char>,
    c: MipsCore,
    symbols: SymbolTable,
)
    requires
        is_operator(o),
        is_word(w),
        evaluated(s, c, symbols) is Some,
        evaluated(w, c, symbols) is Some,
    ensures
        evaluated(s + (seq![o] + w), c, symbols) == combined(
            o,
            evaluated(s, c, symbols)->0,
            evaluated(w, c, symbols)->0,
        ),
{
    lemma_apply(o, evaluated(s, c, symbols)->0, evaluated(w, c, symbols)->0);
    lemma_operator(s, o, w, c, symbols);
}

/// Law: `==` and `!=` behind an expression give 1 or 0.
pub proof fn law_expressions_compare(
    s: Seq<char>,
    w: Seq<char>,
    c: MipsCore,
    symbols: SymbolTable,
)
    requires
        is_word(w),
        evaluated(s, c, symbols) is Some,
        evaluated(w, c, symbols) is Some,
    ensures
        evaluated(s + (seq!['=', '='] + w), c, symbols) == Some(
            if evaluated(s, c, symbols) == evaluated(w, c, symbols) {
                1u64
            } else {
                0
            },
        ),
        evaluated(s + (seq!['!', '='] + w), c, symbols) == Some(
            if evaluated(s, c, symbols) == evaluated(w, c, symbols) {
                0u64
            } else {
                1
            },
        ),
{
    lemma_comparison(s, '=', w, c, symbols);
    lemma_comparison(s, '!', w, c, symbols);
}

proof fn lemma_operator(
    s: Seq<char>,
    o: char,
    w: Seq<char>,
    c: MipsCore,
    symbols: SymbolTable,
)
    requires
        is_word(w),
        evaluated(s, c, symbols) is Some,
        evaluated(w, c, symbols) is Some,
        operator(o) is Some,
    ensures
        evaluated(s + (seq![o] + w), c, symbols) == apply(
            operator(o)->0,
            evaluated(s, c, symbols)->0,
            evaluated(w, c, symbols)->0,
        ),
{
    lemma_word(w);
    let op = operator(o)->0;
    let t = seq![o] + w;
    assert(t[0] == o);
    assert(t.skip(1) =~= w);
    assert(seq![TokenView::Op(op)] + seq![TokenView::Word(w)] =~= seq![
        TokenView::Op(op),
        TokenView::Word(w),
    ]);
    assert(pieces(t) == Some(seq![TokenView::Op(op), TokenView::Word(w)]));
    lemma_combined(s, seq![o], op, w, c, symbols);
}

proof fn lemma_comparison(
    s: Seq<char>,
    o: char,
    w: Seq<char>,
    c: MipsCore,
    symbols: SymbolTable,
)
    requires
        is_word(w),
        evaluated(s, c, symbols) is Some,
        evaluated(w, c, symbols) is Some,
        o == '=' || o == '!',
    ensures
        evaluated(s + (seq![o, '='] + w), c, symbols) == apply(
            if o == '=' {
                BinOp::Equal
            } else {
                BinOp::NotEqual
            },
            evaluated(s, c, symbols)->0,
            evaluated(w, c, symbols)->0,
        ),
{
    lemma_word(w);
    let op = if o == '=' {
        BinOp::Equal
    } else {
        BinOp::NotEqual
    };
    let t = seq![o, '='] + w;
    assert(t[0] == o && t[1] == '=');
    assert(t.skip(2) =~= w);
    assert(seq![TokenView::Op(op)] + seq![TokenView::Word(w)] =~= seq![
        TokenView::Op(op),
        TokenView::Word(w),
    ]);
    assert(pieces(t) == Some(seq![TokenView::Op(op), TokenView::Word(w)]));
    lemma_combined(s, seq![o, '='], op, w, c, symbols);
}

/// Law: a symbol table answers with the last symbol that is not above the address, and
/// with none only if all are above it.
pub proof fn law_nearest_symbol(t: SymbolTable, addr: u64)
    requires
        t.wf(),
    ensures
        match t.nearest(addr) {
            Some((a, name)) => {
                &&& a <= addr
                &&& exists|i: int|
                    0 <= i < t.symbols@.len() && (#[trigger] t.symbols@[i]).addr == a
                        && t.symbols@[i].name@ == name
                &&& forall|i: int|
                    0 <= i < t.symbols@.len() && (#[trigger] t.symbols@[i]).addr <= addr
                        ==> t.symbols@[i].addr <= a
            },
            None => forall|i: int|
                0 <= i < t.symbols@.len() ==> (#[trigger] t.symbols@[i]).addr > addr,
        },
{
    lemma_last_below(t.symbols@, addr);
}

proof fn lemma_last_below(s: Seq<Symbol>, addr: u64)
    requires
        ascending(s),
    ensures
        match last_at_or_below(s, addr) {
            Some(k) => {
                &&& 0 <= k < s.len() && s[k].addr <= addr
                &&& forall|i: int|
                    0 <= i < s.len() && (#[trigger] s[i]).addr <= addr ==> s[i].addr <= s[k].addr
            },
            None => forall|i: int| 0 <= i < s.len() ==> (#[trigger] s[i]).addr > addr,
        },
    decreases s.len(),
{
    if s.len() > 0 && s.last().addr > addr {
        let d = s.drop_last();
        assert(ascending(d));
        lemma_last_below(d, addr);
        assert forall|i: int| 0 <= i < s.len() - 1 implies #[trigger] s[i] == d[i] by {}
    }
}

/// Addresses are the same to a breakpoint: the same word of the same physical memory.
pub open spec fn same_place(a: u64, b: u64) -> bool {
    a as int % 0x2000_0000 / 4 == b as int % 0x2000_0000 / 4
}

/// Breakpoint `b` stops an access.
pub open spec fn stops(b: Breakpoint, kind: BpType, addr: u64, c: MipsCore) -> bool {
    &&& b.enabled && b.kind == kind && same_place(b.addr, addr)
    &&& match b.condition {
        Some(e) => e.value(c) is Some && e.value(c)->0 != 0,
        None => true,
    }
}

proof fn lemma_places(a: u64, b: u64)
    ensures
        a & 0x1FFF_FFFC == b & 0x1FFF_FFFC <==> a % 0x2000_0000 / 4 == b % 0x2000_0000 / 4,
{
    crate::bits::lemma_bits_of_doubles(a, b);
}

/// Breakpoint `i` of the list stops the access, and is the one that is told: breakpoint 0,
/// or else the last one that stops it.
pub open spec fn is_told(s: Seq<Breakpoint>, kind: BpType, addr: u64, c: MipsCore, i: int) -> bool {
    &&& 0 <= i < s.len() && stops(s[i], kind, addr, c)
    &&& s[i].id == 0 || forall|j: int|
        0 <= j < s.len() && #[trigger] stops(s[j], kind, addr, c) ==> s[j].id != 0 && j <= i
}

proof fn lemma_stops(b: Breakpoint, kind: BpType, addr: u64, c: MipsCore)
    ensures
        b.hit_by(kind, addr, c) == stops(b, kind, addr, c),
{
    lemma_places(b.addr, addr);
}

/// Law: an access is stopped if, and only if, a breakpoint that is on is for its kind and
/// its place and has a condition that is not zero, or none. Of several, breakpoint 0 is
/// told, or else the last one.
pub proof fn law_breakpoints_stop_accesses(
    t: BreakpointTable,
    kind: BpType,
    addr: u64,
    c: MipsCore,
)
    requires
        t.wf(),
    ensures
        ({
            let s = t.breakpoints@;
            match t.hit(kind, addr, c) {
                None => forall|i: int| 0 <= i < s.len() ==> !#[trigger] stops(s[i], kind, addr, c),
                Some(id) => exists|i: int| #[trigger] is_told(s, kind, addr, c, i) && s[i].id == id,
            }
        }),
{
    let s = t.breakpoints@;
    crate::breakpoints::law_counts_do_not_hide_hits(t, kind, addr, c);
    lemma_last_hit(s, kind, addr, c);
    if zero_hit(s, kind, addr, c) {
        let i = choose|i: int|
            0 <= i < s.len() && #[trigger] s[i].hit_by(kind, addr, c) && s[i].id == 0;
        lemma_stops(s[i], kind, addr, c);
        assert(is_told(s, kind, addr, c, i));
    } else if last_hit(s, kind, addr, c) is Some {
        let i = choose|i: int|
            {
                &&& 0 <= i < s.len() && (#[trigger] s[i]).hit_by(kind, addr, c) && s[i].id
                    == last_hit(s, kind, addr, c)->0
                &&& forall|j: int|
                    0 <= j < s.len() && (#[trigger] s[j]).hit_by(kind, addr, c) ==> j <= i
            };
        lemma_stops(s[i], kind, addr, c);
        assert forall|j: int| 0 <= j < s.len() && #[trigger] stops(
            s[j],
            kind,
            addr,
            c,
        ) implies s[j].id != 0 && j <= i by {
            lemma_stops(s[j], kind, addr, c);
        }
        assert(is_told(s, kind, addr, c, i));
    } else {
        assert forall|i: int| 0 <= i < s.len() implies !#[trigger] stops(s[i], kind, addr, c) by {
            lemma_stops(s[i], kind, addr, c);
        }
    }
}

proof fn lemma_last_hit(s: Seq<Breakpoint>, kind: BpType, addr: u64, c: MipsCore)
    ensures
        match last_hit(s, kind, addr, c) {
            None => forall|i: int| 0 <= i < s.len() ==> !(#[trigger] s[i]).hit_by(kind, addr, c),
            Some(id) => exists|i: int|
                {
                    &&& 0 <= i < s.len() && (#[trigger] s[i]).hit_by(kind, addr, c) && s[i].id == id
                    &&& forall|j: int|
                        0 <= j < s.len() && (#[trigger] s[j]).hit_by(kind, addr, c) ==> j <= i
                },
        },
    decreases s.len(),
{
    if s.len() > 0 {
        if s.last().hit_by(kind, addr, c) {
            assert(s[s.len() - 1].hit_by(kind, addr, c));
        } else {
            let d = s.drop_last();
            lemma_last_hit(d, kind, addr, c);
            assert forall|i: int| 0 <= i < d.len() implies d[i] == #[trigger] s[i] by {}
            if last_hit(d, kind, addr, c) is Some {
                let id = last_hit(d, kind, addr, c)->0;
                let i = choose|i: int|
                    {
                        &&& 0 <= i < d.len() && (#[trigger] d[i]).hit_by(kind, addr, c) && d[i].id
                            == id
                        &&& forall|j: int|
                            0 <= j < d.len() && (#[trigger] d[j]).hit_by(kind, addr, c) ==> j <= i
                    };
                assert(s[i].hit_by(kind, addr, c));
            }
        }
    }
}

/// `ch` is one of the digits of base 16, in small letters.
pub open spec fn is_digit(ch: char) -> bool {
    '0' <= ch <= '9' || 'a' <= ch <= 'f'
}

/// The value of a digit.
pub open spec fn digit_number(ch: char) -> int {
    if '0' <= ch <= '9' {
        ch as int - '0' as int
    } else {
        ch as int - 'a' as int + 10
    }
}

/// The value of a row of digits: the last one counts once, the one before it `base` times,
/// and so on.
pub open spec fn row_value(s: Seq<char>, base: int) -> int
    decreases s.len(),
{
    if s.len() == 0 {
        0
    } else {
        row_value(s.drop_last(), base) * base + digit_number(s.last())
    }
}

proof fn lemma_digit(d: u64)
    requires
        d < 16,
    ensures
        is_digit(digit(d)),
        digit_number(digit(d)) == d,
        d != 0 ==> digit(d) != '0',
{
}

/// Law: numbers are written in digits, in base 10 or 16, without leading zeros.
pub proof fn law_numbers_are_written(v: nat, base: nat)
    requires
        base == 10 || base == 16,
    ensures
        ({
            let s = numeral(v, base);
            &&& s.len() > 0 && row_value(s, base as int) == v
            &&& forall|i: int|
                0 <= i < s.len() ==> is_digit(#[trigger] s[i]) && digit_number(s[i]) < base
            &&& s.len() > 1 ==> s[0] != '0'
        }),
    decreases v,
{
    let s = numeral(v, base);
    if v < base {
        lemma_digit(v as u64);
        assert(s.drop_last() =~= Seq::<char>::empty());
        assert(row_value(s.drop_last(), base as int) == 0);
        assert(0 * base == 0) by (nonlinear_arith);
    } else {
        let q = v / base;
        vstd::arithmetic::div_mod::lemma_div_decreases(v as int, base as int);
        vstd::arithmetic::div_mod::lemma_fundamental_div_mod(v as int, base as int);
        vstd::arithmetic::div_mod::lemma_mod_bound(v as int, base as int);
        law_numbers_are_written(q, base);
        lemma_digit((v % base) as u64);
        let p = numeral(q, base);
        assert(s.drop_last() =~= p);
        assert(s.last() == digit((v % base) as u64));
        assert forall|i: int| 0 <= i < s.len() implies is_digit(#[trigger] s[i]) && digit_number(
            s[i],
        ) < base by {
            if i < p.len() {
                assert(s[i] == p[i]);
            }
        }
        assert(row_value(p, base as int) == q);
        assert(q * base == base * q) by (nonlinear_arith);
        assert(s[0] == p[0]);
        if p.len() == 1 {
            assert(p.drop_last() =~= Seq::<char>::empty());
            assert(row_value(p.drop_last(), base as int) == 0);
            assert(0 * base == 0) by (nonlinear_arith);
            assert(row_value(p, base as int) == digit_number(p[0]));
            assert(q > 0) by (nonlinear_arith)
                requires
                    v >= base,
                    v == base * q + v % base,
                    0 <= v % base < base,
            ;
        }
    }
}

/// A row of digits is read as its value.
proof fn lemma_row(s: Seq<char>, base: nat)
    requires
        base == 10 || base == 16,
        forall|i: int|
            0 <= i < s.len() ==> is_digit(#[trigger] s[i]) && digit_number(s[i]) < base,
    ensures
        row_value(s, base as int) >= 0,
        digits_value(s, base) == Some(row_value(s, base as int) as nat),
    decreases s.len(),
{
    if s.len() > 0 {
        let p = s.drop_last();
        assert forall|i: int| 0 <= i < p.len() implies is_digit(#[trigger] p[i]) && digit_number(
            p[i],
        ) < base by {
            assert(p[i] == s[i]);
        }
        lemma_row(p, base);
        assert(is_digit(s[s.len() - 1]));
        assert(row_value(p, base as int) * base >= 0) by (nonlinear_arith)
            requires
                row_value(p, base as int) >= 0,
                base >= 0,
        ;
    }
}

proof fn lemma_names_begin_with_letters(n: u8)
    requires
        n < 32,
    ensures
        gpr_name(n).len() > 0,
        !('0' <= gpr_name(n)[0] <= '9'),
{
    reveal_strlit("zero");
    reveal_strlit("at");
    reveal_strlit("v0");
    reveal_strlit("v1");
    reveal_strlit("a0");
    reveal_strlit("a1");
    reveal_strlit("a2");
    reveal_strlit("a3");
    reveal_strlit("t0");
    reveal_strlit("t1");
    reveal_strlit("t2");
    reveal_strlit("t3");
    reveal_strlit("t4");
    reveal_strlit("t5");
    reveal_strlit("t6");
    reveal_strlit("t7");
    reveal_strlit("s0");
    reveal_strlit("s1");
    reveal_strlit("s2");
    reveal_strlit("s3");
    reveal_strlit("s4");
    reveal_strlit("s5");
    reveal_strlit("s6");
    reveal_strlit("s7");
    reveal_strlit("t8");
    reveal_strlit("t9");
    reveal_strlit("k0");
    reveal_strlit("k1");
    reveal_strlit("gp");
    reveal_strlit("sp");
    reveal_strlit("fp");
    reveal_strlit("ra");
}

proof fn lemma_no_name(w: Seq<char>, n: int)
    requires
        w.len() > 0,
        '0' <= w[0] <= '9',
        0 <= n <= 32,
    ensures
        first_named(w, n) is None,
    decreases 32 - n,
{
    if n < 32 {
        lemma_names_begin_with_letters(n as u8);
        lemma_no_name(w, n + 1);
    }
}

proof fn lemma_no_register(w: Seq<char>)
    requires
        w.len() > 0,
        '0' <= w[0] <= '9',
    ensures
        named_register(w) is None,
{
    reveal_strlit("pc");
    reveal_strlit("hi");
    reveal_strlit("lo");
    lemma_no_name(w, 0);
}

/// A word that stands for a constant has its value.
proof fn lemma_constant(w: Seq<char>, v: u64, c: MipsCore, symbols: SymbolTable)
    requires
        is_word(w),
        operand(w, symbols) == Some(Expr::Const(v)),
    ensures
        evaluated(w, c, symbols) == Some(v),
{
    lemma_word(w);
    assert(seq![TokenView::Word(w)].skip(1) =~= Seq::<TokenView>::empty());
    let e = Expr::Const(v);
    assert(continued(e, Seq::<TokenView>::empty(), symbols) == Some(e));
}

/// Law: numbers are read as they are written: in base 10, and in base 16 behind `0x`.
pub proof fn law_numbers_are_read(v: u64, c: MipsCore, symbols: SymbolTable)
    ensures
        evaluated(dec(v as nat), c, symbols) == Some(v),
        evaluated(seq!['0', 'x'] + hex(v as nat), c, symbols) == Some(v),
{
    let d = dec(v as nat);
    law_numbers_are_written(v as nat, 10);
    lemma_row(d, 10);
    lemma_no_register(d);
    assert(unsigned_part(d) == d);
    assert(is_word(d)) by {
        assert forall|i: int| 0 <= i < d.len() implies !ends_word(#[trigger] d[i]) by {
            assert(is_digit(d[i]));
        }
    }
    if d.len() >= 2 {
        assert(is_digit(d[1]));
    }
    assert(number(d, 10, u64::MAX as nat) == Some(v as nat));
    lemma_constant(d, v, c, symbols);
    let h = hex(v as nat);
    let w = seq!['0', 'x'] + h;
    law_numbers_are_written(v as nat, 16);
    lemma_row(h, 16);
    assert(w[0] == '0' && w[1] == 'x');
    assert(w.skip(2) =~= h);
    assert(is_digit(h[0]));
    if h.len() >= 2 {
        assert(is_digit(h[1]));
    }
    assert(without_0x(h) == h);
    assert(without_0x(w) == h);
    assert(unsigned_part(h) == h);
    lemma_no_register(w);
    assert(is_word(w)) by {
        assert forall|i: int| 0 <= i < w.len() implies !ends_word(#[trigger] w[i]) by {
            if i >= 2 {
                assert(w[i] == h[i - 2]);
                assert(is_digit(h[i - 2]));
            }
        }
    }
    assert(number(h, 16, u64::MAX as nat) == Some(v as nat));
    lemma_constant(w, v, c, symbols);
}

/// `f` is one field of a line.
pub open spec fn is_field(f: Seq<char>) -> bool {
    f.len() > 0 && forall|i: int| 0 <= i < f.len() ==> !is_space(#[trigger] f[i])
}

proof fn lemma_field_len(f: Seq<char>, rest: Seq<char>)
    requires
        forall|i: int| 0 <= i < f.len() ==> !is_space(#[trigger] f[i]),
        rest.len() == 0 || is_space(rest[0]),
    ensures
        field_len(f + rest) == f.len(),
    decreases f.len(),
{
    let s = f + rest;
    if f.len() == 0 {
        assert(s =~= rest);
    } else {
        let g = f.skip(1);
        assert forall|i: int| 0 <= i < g.len() implies !is_space(#[trigger] g[i]) by {
            assert(g[i] == f[i + 1]);
        }
        lemma_field_len(g, rest);
        assert(s[0] == f[0]);
        assert(s.skip(1) =~= g + rest);
    }
}

/// A field, and what follows it behind a space.
proof fn lemma_fields(f: Seq<char>, rest: Seq<char>)
    requires
        is_field(f),
    ensures
        fields(f + (seq![' '] + rest)) == seq![f] + fields(rest),
        fields(f) == seq![f],
{
    let more = seq![' '] + rest;
    let s = f + more;
    assert(more[0] == ' ');
    lemma_field_len(f, more);
    assert(s[0] == f[0] && !is_space(f[0]));
    assert(s.take(f.len() as int) =~= f);
    assert(s.skip(f.len() as int) =~= more);
    assert(more.skip(1) =~= rest);
    assert(fields(more) == fields(rest));
    let none = Seq::<char>::empty();
    lemma_field_len(f, none);
    assert(f + none =~= f);
    assert(f.take(f.len() as int) =~= f);
    assert(f.skip(f.len() as int) =~= none);
    assert(fields(none) =~= Seq::<Seq<char>>::empty());
    assert(seq![f] + fields(none) =~= seq![f]);
}

/// Law: a line of a symbol table gives an address, in base 16, and behind it, as its last
/// field, a name; between the two there may be a field for the kind of the symbol.
pub proof fn law_symbol_lines(v: u64, kind: Seq<char>, name: Seq<char>)
    requires
        is_field(kind),
        is_field(name),
    ensures
        symbol_on(hex(v as nat) + (seq![' '] + name)) == Some((v, name)),
        symbol_on(hex(v as nat) + (seq![' '] + (kind + (seq![' '] + name)))) == Some((v, name)),
{
    let h = hex(v as nat);
    law_numbers_are_written(v as nat, 16);
    lemma_row(h, 16);
    assert(is_digit(h[0]));
    if h.len() >= 2 {
        assert(is_digit(h[1]));
    }
    assert(without_0x(h) == h);
    assert(unsigned_part(h) == h);
    assert(number(h, 16, u64::MAX as nat) == Some(v as nat));
    assert(is_field(h)) by {
        assert forall|i: int| 0 <= i < h.len() implies !is_space(#[trigger] h[i]) by {
            assert(is_digit(h[i]));
        }
    }
    let tail = kind + (seq![' '] + name);
    lemma_fields(h, name);
    lemma_fields(h, tail);
    lemma_fields(kind, name);
    lemma_fields(name, Seq::empty());
    let two = seq![h] + fields(name);
    assert(two.len() == 2 && two[0] == h && two.last() == name);
    let three = seq![h] + fields(tail);
    assert(fields(tail) == seq![kind] + seq![name]);
    assert(three.len() == 3 && three[0] == h && three.last() == name);
}

/// Law: a symbol that was inserted is the nearest one to its own address.
pub proof fn law_inserted_symbols_are_found(
    before: SymbolTable,
    t: SymbolTable,
    addr: u64,
    name: Seq<char>,
)
    requires
        t.wf(),
        has_inserted(before.symbols@, t.symbols@, addr, name),
    ensures
        t.nearest(addr) == Some((addr, name)),
{
    let s = t.symbols@;
    law_nearest_symbol(t, addr);
    let p = count_below(before.symbols@, addr) as int;
    lemma_last_below(s, addr);
    assert(s[p].addr <= addr);
    let k = last_at_or_below(s, addr)->0;
    assert(s[k].addr == addr);
    if k < p {
        assert(s[k].addr < s[p].addr);
    } else if p < k {
        assert(s[p].addr < s[k].addr);
    }
}

} // verus!
