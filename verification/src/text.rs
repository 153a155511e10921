//! Text: comparison, pieces, and numbers in hexadecimal and decimal.
use vstd::prelude::*;
use vstd::string::{StrSliceExecFns, StringExecFns};

verus! {

/// `String::push` of the standard library: appends one character.
pub assume_specification[ String::push ](s: &mut String, c: char)
    ensures
        final(s)@ == old(s)@.push(c),
;

/// Whether two texts are the same.
pub fn str_eq(a: &str, b: &str) -> (r: bool)
    ensures
        r == (a@ == b@),
{
    let x: String = a.to_string();
    let y: String = b.to_string();
    x == y
}

/// The characters of a text.
pub fn chars_of(s: &str) -> (v: Vec<char>)
    ensures
        v@ == s@,
{
    let n: usize = s.unicode_len();
    let mut v: Vec<char> = Vec::new();
    let mut i: usize = 0;
    while i < n
        invariant
            i <= n,
            n == s@.len(),
            v@ == s@.subrange(0, i as int),
        decreases n - i,
    {
        v.push(s.get_char(i));
        i = i + 1;
        assert(v@ =~= s@.subrange(0, i as int));
    }
    assert(v@ =~= s@);
    v
}

/// Appends a text.
pub fn put(s: &mut String, t: &str)
    ensures
        final(s)@ == old(s)@ + t@,
{
    s.append(t);
}

/// The digit of value `d`.
pub open spec fn digit(d: u64) -> char {
    match d {
        0 => '0',
        1 => '1',
        2 => '2',
        3 => '3',
        4 => '4',
        5 => '5',
        6 => '6',
        7 => '7',
        8 => '8',
        9 => '9',
        10 => 'a',
        11 => 'b',
        12 => 'c',
        13 => 'd',
        14 => 'e',
        _ => 'f',
    }
}

fn digit_char(d: u64) -> (c: char)
    requires
        d < 16,
    ensures
        c == digit(d),
{
    match d {
        0 => '0',
        1 => '1',
        2 => '2',
        3 => '3',
        4 => '4',
        5 => '5',
        6 => '6',
        7 => '7',
        8 => '8',
        9 => '9',
        10 => 'a',
        11 => 'b',
        12 => 'c',
        13 => 'd',
        14 => 'e',
        _ => 'f',
    }
}

/// The last `width` hexadecimal digits of `v`.
pub open spec fn hex_fixed(v: nat, width: nat) -> Seq<char>
    decreases width,
{
    if width == 0 {
        Seq::empty()
    } else {
        hex_fixed(v / 16, (width - 1) as nat).push(digit((v % 16) as u64))
    }
}

/// `v` in base `base`, without leading zeros.
pub open spec fn numeral(v: nat, base: nat) -> Seq<char>
    decreases v,
    when base >= 2
{
    if v < base {
        seq![digit(v as u64)]
    } else {
        proof {
            vstd::arithmetic::div_mod::lemma_div_decreases(v as int, base as int);
        }
        numeral(v / base, base).push(digit((v % base) as u64))
    }
}

/// `v` in hexadecimal, without leading zeros.
pub open spec fn hex(v: nat) -> Seq<char> {
    numeral(v, 16)
}

/// `v` in decimal.
pub open spec fn dec(v: nat) -> Seq<char> {
    numeral(v, 10)
}

/// Appends the last `width` hexadecimal digits of `v`.
pub fn put_hex_fixed(s: &mut String, v: u64, width: u32)
    ensures
        final(s)@ == old(s)@ + hex_fixed(v as nat, width as nat),
    decreases width,
{
    if width > 0 {
        put_hex_fixed(s, v / 16, width - 1);
        s.push(digit_char(v % 16));
    }
    assert(s@ =~= old(s)@ + hex_fixed(v as nat, width as nat));
}

fn put_numeral(s: &mut String, v: u64, base: u64)
    requires
        2 <= base <= 16,
    ensures
        final(s)@ == old(s)@ + numeral(v as nat, base as nat),
    decreases v,
{
    if v < base {
        s.push(digit_char(v));
    } else {
        proof {
            vstd::arithmetic::div_mod::lemma_div_decreases(v as int, base as int);
            vstd::arithmetic::div_mod::lemma_mod_bound(v as int, base as int);
        }
        put_numeral(s, v / base, base);
        s.push(digit_char(v % base));
    }
    assert(s@ =~= old(s)@ + numeral(v as nat, base as nat));
}

/// `v` in hexadecimal, of at least 8 digits.
pub open spec fn hex8(v: u64) -> Seq<char> {
    if v <= u32::MAX {
        hex_fixed(v as nat, 8)
    } else {
        hex(v as nat)
    }
}

/// Appends `v` in hexadecimal, of at least 8 digits.
pub fn put_hex8(s: &mut String, v: u64)
    ensures
        final(s)@ == old(s)@ + hex8(v),
{
    if v <= u32::MAX as u64 {
        put_hex_fixed(s, v, 8);
    } else {
        put_hex(s, v);
    }
}

/// Appends `v` in hexadecimal, without leading zeros.
pub fn put_hex(s: &mut String, v: u64)
    ensures
        final(s)@ == old(s)@ + hex(v as nat),
{
    put_numeral(s, v, 16);
}

/// Appends `v` in decimal.
pub fn put_dec(s: &mut String, v: u64)
    ensures
        final(s)@ == old(s)@ + dec(v as nat),
{
    put_numeral(s, v, 10);
}

} // verus!
