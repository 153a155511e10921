//! Numbers in text.
use vstd::prelude::*;

use crate::text::chars_of;

verus! {

/// Value of a digit in a base of up to 16; nothing where the character is none.
pub open spec fn digit_value(c: char, base: nat) -> Option<nat> {
    let v = if '0' <= c <= '9' {
        (c as int - '0' as int) as nat
    } else if 'a' <= c <= 'f' {
        (c as int - 'a' as int + 10) as nat
    } else if 'A' <= c <= 'F' {
        (c as int - 'A' as int + 10) as nat
    } else {
        99
    };
    if v < base {
        Some(v)
    } else {
        None
    }
}

/// Value of a row of digits; nothing where one of them is none.
pub open spec fn digits_value(s: Seq<char>, base: nat) -> Option<nat>
    decreases s.len(),
{
    if s.len() == 0 {
        Some(0)
    } else {
        match (digits_value(s.drop_last(), base), digit_value(s.last(), base)) {
            (Some(v), Some(d)) => Some(v * base + d),
            _ => None,
        }
    }
}

/// The text without a plus sign at its start.
pub open spec fn unsigned_part(s: Seq<char>) -> Seq<char> {
    if s.len() > 0 && s[0] == '+' {
        s.skip(1)
    } else {
        s
    }
}

/// The number that `s` denotes: digits, perhaps after a plus sign, of a value up to `max`.
pub open spec fn number(s: Seq<char>, base: nat, max: nat) -> Option<nat> {
    let body = unsigned_part(s);
    if body.len() == 0 {
        None
    } else {
        match digits_value(body, base) {
            Some(v) => if v <= max {
                Some(v)
            } else {
                None
            },
            None => None,
        }
    }
}

/// The text without the `0x` at its start, however often it stands there.
pub open spec fn without_0x(s: Seq<char>) -> Seq<char>
    decreases s.len(),
{
    if s.len() >= 2 && s[0] == '0' && s[1] == 'x' {
        without_0x(s.skip(2))
    } else {
        s
    }
}

fn digit_of(c: char, base: u64) -> (r: Option<u64>)
    requires
        base == 10 || base == 16,
    ensures
        r is Some == digit_value(c, base as nat) is Some,
        r matches Some(v) ==> v == digit_value(c, base as nat)->0 && v < base,
{
    let v: u64 = if '0' <= c && c <= '9' {
        (c as u32 - '0' as u32) as u64
    } else if 'a' <= c && c <= 'f' {
        (c as u32 - 'a' as u32) as u64 + 10
    } else if 'A' <= c && c <= 'F' {
        (c as u32 - 'A' as u32) as u64 + 10
    } else {
        99
    };
    if v < base {
        Some(v)
    } else {
        None
    }
}

/// A prefix that is no number, or too large a one, makes no number of the whole.
proof fn lemma_prefix(s: Seq<char>, n: int, base: nat, max: nat)
    requires
        0 <= n <= s.len(),
        base >= 1,
        digits_value(s.take(n), base) is None || digits_value(s.take(n), base)->0 > max,
    ensures
        digits_value(s, base) is None || digits_value(s, base)->0 > max,
    decreases s.len() - n,
{
    if n < s.len() {
        let t = s.take(n + 1);
        assert(t.drop_last() =~= s.take(n));
        if let (Some(v), Some(d)) = (digits_value(s.take(n), base), digit_value(t.last(), base)) {
            assert(v * base >= v) by (nonlinear_arith)
                requires
                    base >= 1,
                    v >= 0,
            ;
        }
        lemma_prefix(s, n + 1, base, max);
    } else {
        assert(s.take(n) =~= s);
    }
}

/// The number that the characters from `from` on denote, without a sign.
fn digits_number(v: &Vec<char>, from: usize, base: u64) -> (r: Option<u64>)
    requires
        from <= v@.len(),
        base == 10 || base == 16,
    ensures
        r == match digits_value(v@.skip(from as int), base as nat) {
            Some(n) => if n <= u64::MAX {
                Some(n as u64)
            } else {
                None
            },
            None => None,
        },
{
    let ghost s = v@.skip(from as int);
    let mut acc: u64 = 0;
    let mut i: usize = from;
    assert(s.take(0) =~= Seq::<char>::empty());
    while i < v.len()
        invariant
            from <= i <= v@.len(),
            base == 10 || base == 16,
            s == v@.skip(from as int),
            digits_value(s.take(i - from), base as nat) == Some(acc as nat),
        decreases v@.len() - i,
    {
        let ghost t = s.take(i - from + 1);
        assert(t.drop_last() =~= s.take(i - from));
        assert(t.last() == v@[i as int]);
        match digit_of(v[i], base) {
            Some(d) => {
                proof {
                    assert(acc * base >= 0) by (nonlinear_arith)
                        requires
                            acc >= 0,
                            base >= 0,
                    ;
                }
                match acc.checked_mul(base) {
                    Some(m) => match m.checked_add(d) {
                        Some(n) => {
                            acc = n;
                        },
                        None => {
                            proof {
                                lemma_prefix(s, i - from + 1, base as nat, u64::MAX as nat);
                            }
                            return None;
                        },
                    },
                    None => {
                        proof {
                            lemma_prefix(s, i - from + 1, base as nat, u64::MAX as nat);
                        }
                        return None;
                    },
                }
            },
            None => {
                proof {
                    lemma_prefix(s, i - from + 1, base as nat, u64::MAX as nat);
                }
                return None;
            },
        }
        i = i + 1;
    }
    assert(s.take(i - from) =~= s);
    Some(acc)
}

fn parse_number(v: &Vec<char>, from: usize, base: u64) -> (r: Option<u64>)
    requires
        from <= v@.len(),
        base == 10 || base == 16,
    ensures
        r is Some == number(v@.skip(from as int), base as nat, u64::MAX as nat) is Some,
        r matches Some(n) ==> n == number(v@.skip(from as int), base as nat, u64::MAX as nat)->0,
{
    let start: usize = if from < v.len() && v[from] == '+' {
        from + 1
    } else {
        from
    };
    assert(unsigned_part(v@.skip(from as int)) =~= v@.skip(start as int));
    if start == v.len() {
        return None;
    }
    digits_number(v, start, base)
}

/// The decimal number that `s` denotes.
pub fn parse_dec(s: &str) -> (r: Option<u64>)
    ensures
        r is Some == number(s@, 10, u64::MAX as nat) is Some,
        r matches Some(n) ==> n == number(s@, 10, u64::MAX as nat)->0,
{
    let v: Vec<char> = chars_of(s);
    assert(v@.skip(0) =~= s@);
    parse_number(&v, 0, 10)
}

/// The decimal number that `s` denotes, as a count of things in memory.
pub fn parse_count(s: &str) -> (r: Option<usize>)
    ensures
        r is Some == number(s@, 10, usize::MAX as nat) is Some,
        r matches Some(n) ==> n == number(s@, 10, usize::MAX as nat)->0,
{
    match parse_dec(s) {
        Some(n) => if n <= usize::MAX as u64 {
            Some(n as usize)
        } else {
            None
        },
        None => None,
    }
}

/// The hexadecimal number that `s` denotes, with or without `0x`.
pub fn parse_hex(s: &str) -> (r: Option<u64>)
    ensures
        r is Some == number(without_0x(s@), 16, u64::MAX as nat) is Some,
        r matches Some(n) ==> n == number(without_0x(s@), 16, u64::MAX as nat)->0,
{
    let v: Vec<char> = chars_of(s);
    let mut from: usize = 0;
    assert(v@.skip(0) =~= s@);
    while v.len() - from >= 2 && v[from] == '0' && v[from + 1] == 'x'
        invariant
            from <= v@.len(),
            v@ == s@,
            without_0x(v@.skip(from as int)) == without_0x(s@),
        decreases v@.len() - from,
    {
        assert(v@.skip(from as int).skip(2) =~= v@.skip(from + 2));
        from = from + 2;
    }
    assert(without_0x(v@.skip(from as int)) == v@.skip(from as int));
    parse_number(&v, from, 16)
}

} // verus!
