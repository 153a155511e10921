//! Expressions in text: operands joined by operators, which apply from left to right.
//!
//! An operand is a register, a number (decimal, or hexadecimal after `0x`) or a symbol.
use vstd::prelude::*;
use vstd::string::StringExecFns;

use crate::cpu_core::MipsCore;
use crate::exp::{named_register, parse_reg_target, BinOp, Expr};
use crate::parse::{number, parse_dec, parse_hex, without_0x};
use crate::symbols::SymbolTable;
use crate::text::{chars_of, put};

verus! {

/// A piece of an expression, as a mathematical value.
pub enum TokenView {
    Op(BinOp),
    Word(Seq<char>),
}

/// A piece of an expression.
pub enum Token {
    Op(BinOp),
    Word(String),
}

impl View for Token {
    type V = TokenView;

    open spec fn view(&self) -> TokenView {
        match self {
            Token::Op(op) => TokenView::Op(*op),
            Token::Word(w) => TokenView::Word(w@),
        }
    }
}

pub open spec fn views(s: Seq<Token>) -> Seq<TokenView> {
    Seq::new(s.len(), |i: int| s[i]@)
}

/// Operators of one character.
pub open spec fn operator(c: char) -> Option<BinOp> {
    if c == '+' {
        Some(BinOp::Plus)
    } else if c == '-' {
        Some(BinOp::Minus)
    } else if c == '/' {
        Some(BinOp::Divide)
    } else if c == '&' {
        Some(BinOp::And)
    } else if c == '|' {
        Some(BinOp::Or)
    } else if c == '^' {
        Some(BinOp::Xor)
    } else if c == '<' {
        Some(BinOp::Less)
    } else if c == '>' {
        Some(BinOp::Greater)
    } else {
        None
    }
}

/// Characters that end a word.
pub open spec fn ends_word(c: char) -> bool {
    c == ' ' || c == '=' || c == '!' || operator(c) is Some
}

/// Length of the word at the start of `s`.
pub open spec fn word_len(s: Seq<char>) -> nat
    decreases s.len(),
{
    if s.len() == 0 || ends_word(s[0]) {
        0
    } else {
        1 + word_len(s.skip(1))
    }
}

/// The pieces of `s`; nothing where a character has no place in an expression.
pub open spec fn pieces(s: Seq<char>) -> Option<Seq<TokenView>>
    decreases s.len(),
{
    if s.len() == 0 {
        Some(Seq::empty())
    } else if s[0] == ' ' {
        pieces(s.skip(1))
    } else if s.len() >= 2 && s[1] == '=' && (s[0] == '=' || s[0] == '!') {
        after(
            TokenView::Op(
                if s[0] == '=' {
                    BinOp::Equal
                } else {
                    BinOp::NotEqual
                },
            ),
            pieces(s.skip(2)),
        )
    } else if let Some(op) = operator(s[0]) {
        after(TokenView::Op(op), pieces(s.skip(1)))
    } else if word_len(s) > 0 && word_len(s) <= s.len() {
        after(TokenView::Word(s.take(word_len(s) as int)), pieces(s.skip(word_len(s) as int)))
    } else {
        None
    }
}

pub open spec fn after(t: TokenView, rest: Option<Seq<TokenView>>) -> Option<Seq<TokenView>> {
    match rest {
        Some(r) => Some(seq![t] + r),
        None => None,
    }
}

/// What an operand stands for.
pub open spec fn operand(w: Seq<char>, symbols: SymbolTable) -> Option<Expr> {
    if let Some(r) = named_register(w) {
        Some(Expr::Reg(r))
    } else if w.len() >= 2 && w[0] == '0' && w[1] == 'x' {
        match number(without_0x(w), 16, u64::MAX as nat) {
            Some(v) => Some(Expr::Const(v as u64)),
            None => None,
        }
    } else if let Some(v) = number(w, 10, u64::MAX as nat) {
        Some(Expr::Const(v as u64))
    } else {
        match symbols.address_of(w) {
            Some(a) => Some(Expr::Const(a)),
            None => None,
        }
    }
}

/// The expression that starts with `e` and goes on with the pieces `t`.
pub open spec fn continued(e: Expr, t: Seq<TokenView>, symbols: SymbolTable) -> Option<Expr>
    decreases t.len(),
{
    if t.len() == 0 {
        Some(e)
    } else if t.len() == 1 {
        None
    } else {
        match (t[0], t[1]) {
            (TokenView::Op(op), TokenView::Word(w)) => match operand(w, symbols) {
                Some(r) => continued(Expr::Bin(op, Box::new(e), Box::new(r)), t.skip(2), symbols),
                None => None,
            },
            _ => None,
        }
    }
}

/// The expression that `s` denotes.
pub open spec fn expression(s: Seq<char>, symbols: SymbolTable) -> Option<Expr> {
    match pieces(s) {
        Some(t) => if t.len() == 0 {
            None
        } else {
            match t[0] {
                TokenView::Word(w) => match operand(w, symbols) {
                    Some(e) => continued(e, t.skip(1), symbols),
                    None => None,
                },
                TokenView::Op(_) => None,
            }
        },
        None => None,
    }
}

/// The value that `s` denotes in state `c`.
pub open spec fn evaluated(s: Seq<char>, c: MipsCore, symbols: SymbolTable) -> Option<u64> {
    match expression(s, symbols) {
        Some(e) => e.value(c),
        None => None,
    }
}

fn operator_of(c: char) -> (r: Option<BinOp>)
    ensures
        r == operator(c),
{
    match c {
        '+' => Some(BinOp::Plus),
        '-' => Some(BinOp::Minus),
        '/' => Some(BinOp::Divide),
        '&' => Some(BinOp::And),
        '|' => Some(BinOp::Or),
        '^' => Some(BinOp::Xor),
        '<' => Some(BinOp::Less),
        '>' => Some(BinOp::Greater),
        _ => None,
    }
}

proof fn lemma_word_len(s: Seq<char>)
    ensures
        word_len(s) <= s.len(),
    decreases s.len(),
{
    if s.len() > 0 && !ends_word(s[0]) {
        lemma_word_len(s.skip(1));
    }
}

/// End of the word that starts at `from`, and the word.
fn take_word(v: &Vec<char>, from: usize) -> (r: (usize, String))
    requires
        from <= v@.len(),
    ensures
        r.0 == from + word_len(v@.skip(from as int)),
        r.0 <= v@.len(),
        r.1@ == v@.subrange(from as int, r.0 as int),
{
    let mut i: usize = from;
    let mut w: String = String::new();
    assert(w@ =~= v@.subrange(from as int, from as int));
    while i < v.len() && !(v[i] == ' ' || v[i] == '=' || v[i] == '!' || operator_of(
        v[i],
    ).is_some())
        invariant
            from <= i <= v@.len(),
            w@ == v@.subrange(from as int, i as int),
            word_len(v@.skip(from as int)) == (i - from) + word_len(v@.skip(i as int)),
        decreases v@.len() - i,
    {
        assert(v@.skip(i as int).skip(1) =~= v@.skip(i + 1));
        w.push(v[i]);
        i = i + 1;
        assert(w@ =~= v@.subrange(from as int, i as int));
    }
    assert(word_len(v@.skip(i as int)) == 0);
    (i, w)
}

/// Cuts an expression into pieces.
fn cut(v: &Vec<char>, from: usize) -> (r: Option<Vec<Token>>)
    requires
        from <= v@.len(),
    ensures
        r is Some == pieces(v@.skip(from as int)) is Some,
        r matches Some(t) ==> views(t@) == pieces(v@.skip(from as int))->0,
    decreases v@.len() - from,
{
    let ghost s = v@.skip(from as int);
    proof {
        lemma_word_len(s);
    }
    if from == v.len() {
        let t: Vec<Token> = Vec::new();
        assert(views(t@) =~= Seq::<TokenView>::empty());
        return Some(t);
    }
    let c: char = v[from];
    if c == ' ' {
        assert(s.skip(1) =~= v@.skip(from + 1));
        return cut(v, from + 1);
    }
    if v.len() - from >= 2 && v[from + 1] == '=' && (c == '=' || c == '!') {
        assert(s.skip(2) =~= v@.skip(from + 2));
        let op: BinOp = if c == '=' {
            BinOp::Equal
        } else {
            BinOp::NotEqual
        };
        return prefixed(Token::Op(op), cut(v, from + 2));
    }
    if let Some(op) = operator_of(c) {
        assert(s.skip(1) =~= v@.skip(from + 1));
        return prefixed(Token::Op(op), cut(v, from + 1));
    }
    let (end, w): (usize, String) = take_word(v, from);
    if end == from {
        return None;
    }
    assert(s.skip(end - from) =~= v@.skip(end as int));
    assert(s.take(end - from) =~= v@.subrange(from as int, end as int));
    prefixed(Token::Word(w), cut(v, end))
}

fn prefixed(t: Token, rest: Option<Vec<Token>>) -> (r: Option<Vec<Token>>)
    ensures
        r is Some == rest is Some,
        r matches Some(v) ==> views(v@) == seq![t@] + views(rest->0@),
{
    match rest {
        Some(mut v) => {
            let ghost before = v@;
            v.insert(0, t);
            assert(views(v@) =~= seq![t@] + views(before));
            Some(v)
        },
        None => None,
    }
}

/// What the operand `w` stands for.
fn parse_operand(w: &String, symbols: &SymbolTable) -> (r: Option<Expr>)
    ensures
        r == operand(w@, *symbols),
        r matches Some(e) ==> e.wf(),
{
    if let Some(t) = parse_reg_target(w.as_str()) {
        return Some(Expr::Reg(t));
    }
    let v: Vec<char> = chars_of(w.as_str());
    if v.len() >= 2 && v[0] == '0' && v[1] == 'x' {
        return match parse_hex(w.as_str()) {
            Some(n) => Some(Expr::Const(n)),
            None => None,
        };
    }
    if let Some(n) = parse_dec(w.as_str()) {
        return Some(Expr::Const(n));
    }
    match symbols.get_addr(w.as_str()) {
        Some(a) => Some(Expr::Const(a)),
        None => None,
    }
}

/// Parses an expression.
pub fn parse_expression(s: &str, symbols: &SymbolTable) -> (r: Option<Expr>)
    ensures
        r == expression(s@, *symbols),
        r matches Some(e) ==> e.wf(),
{
    let v: Vec<char> = chars_of(s);
    assert(v@.skip(0) =~= s@);
    let t: Vec<Token> = match cut(&v, 0) {
        Some(t) => t,
        None => {
            return None;
        },
    };
    let ghost p = pieces(s@)->0;
    assert(views(t@) == p);
    if t.len() == 0 {
        return None;
    }
    assert(p[0] == t@[0]@);
    let mut e: Expr = match &t[0] {
        Token::Word(w) => match parse_operand(w, symbols) {
            Some(e) => e,
            None => {
                return None;
            },
        },
        Token::Op(_) => {
            return None;
        },
    };
    let n: usize = t.len();
    let mut i: usize = 1;
    while i < n
        invariant
            1 <= i <= n,
            n == t@.len(),
            views(t@) == p,
            e.wf(),
            expression(s@, *symbols) == continued(e, p.skip(i as int), *symbols),
        decreases n - i,
    {
        assert(p[i as int] == t@[i as int]@);
        assert(p.skip(i as int)[0] == p[i as int]);
        if i + 1 == n {
            return None;
        }
        assert(p[i + 1] == t@[i + 1]@);
        assert(p.skip(i as int)[1] == p[i + 1]);
        match (&t[i], &t[i + 1]) {
            (Token::Op(op), Token::Word(w)) => match parse_operand(w, symbols) {
                Some(r) => {
                    assert(p.skip(i as int).skip(2) =~= p.skip(i + 2));
                    e = Expr::Bin(*op, Box::new(e), Box::new(r));
                },
                None => {
                    return None;
                },
            },
            _ => {
                return None;
            },
        }
        i = i + 2;
    }
    assert(p.skip(i as int).len() == 0);
    Some(e)
}

/// Message about an argument that has no value.
pub open spec fn no_value(arg: Seq<char>) -> Seq<char> {
    "Invalid expression: "@ + arg
}

/// The value of a command's argument: a register, a number, a symbol, or an expression of
/// these.
pub fn parse_cpu_arg(arg: &str, core: &MipsCore, symbols: &SymbolTable) -> (r: Result<u64, String>)
    ensures
        match evaluated(arg@, *core, *symbols) {
            Some(v) => r == Ok::<u64, String>(v),
            None => r is Err && r->Err_0@ == no_value(arg@),
        },
{
    if let Some(e) = parse_expression(arg, symbols) {
        if let Some(v) = e.eval(core) {
            return Ok(v);
        }
    }
    let mut s: String = "Invalid expression: ".to_string();
    put(&mut s, arg);
    Err(s)
}

} // verus!
