//! Numbers as bytes, high byte first.
use vstd::prelude::*;

verus! {

/// The lowest `k` bytes of `v`, high byte first.
pub open spec fn big_endian(v: u64, k: nat) -> Seq<u8> {
    Seq::new(k, |i: int| ((v >> ((8 * (k - 1 - i)) as u64)) & 0xff) as u8)
}

/// The number that bytes make, high byte first.
pub open spec fn number_of_bytes(s: Seq<u8>) -> u64
    decreases s.len(),
{
    if s.len() == 0 {
        0
    } else {
        (number_of_bytes(s.drop_last()) << 8) | (s.last() as u64)
    }
}

/// `v` in `k` bytes.
pub open spec fn low_bytes(v: u64, k: nat) -> u64 {
    if k == 1 {
        v & 0xFF
    } else if k == 2 {
        v & 0xFFFF
    } else if k == 4 {
        v & 0xFFFF_FFFF
    } else {
        v
    }
}

/// Appends the lowest `k` bytes of `v`.
pub fn put_big_endian(out: &mut Vec<u8>, v: u64, k: usize)
    requires
        k <= 8,
    ensures
        final(out)@ == old(out)@ + big_endian(v, k as nat),
{
    let ghost start = out@;
    let mut i: usize = 0;
    while i < k
        invariant
            i <= k <= 8,
            out@ == start + big_endian(v, k as nat).take(i as int),
        decreases k - i,
    {
        let shift: u64 = 8 * (k - 1 - i) as u64;
        let b: u64 = (v >> shift) & 0xff;
        assert((v >> shift) & 0xff <= 0xff) by (bit_vector);
        out.push(b as u8);
        i = i + 1;
        assert(out@ =~= start + big_endian(v, k as nat).take(i as int));
    }
    assert(big_endian(v, k as nat).take(k as int) =~= big_endian(v, k as nat));
}

/// The number that the `k` bytes from `at` on make.
pub fn read_big_endian(bytes: &Vec<u8>, at: usize, k: usize) -> (v: u64)
    requires
        at + k <= bytes@.len(),
    ensures
        v == number_of_bytes(bytes@.subrange(at as int, at + k)),
{
    let n: usize = bytes.len();
    let mut v: u64 = 0;
    let mut i: usize = 0;
    while i < k
        invariant
            i <= k,
            at + k <= n,
            n == bytes@.len(),
            v == number_of_bytes(bytes@.subrange(at as int, at + i)),
        decreases k - i,
    {
        v = (v << 8) | (bytes[at + i] as u64);
        i = i + 1;
        assert(bytes@.subrange(at as int, at + i).drop_last() =~= bytes@.subrange(
            at as int,
            at + i - 1,
        ));
    }
    v
}

/// Writes the lowest `k` bytes of `v` from `at` on.
pub fn write_big_endian(bytes: &mut Vec<u8>, at: usize, v: u64, k: usize)
    requires
        k <= 8,
        at + k <= old(bytes)@.len(),
    ensures
        final(bytes)@ == with_bytes(old(bytes)@, at as int, big_endian(v, k as nat)),
{
    let ghost start = bytes@;
    let n: usize = bytes.len();
    let mut i: usize = 0;
    assert(bytes@ =~= with_bytes(start, at as int, big_endian(v, k as nat).take(0)));
    while i < k
        invariant
            i <= k <= 8,
            n == bytes@.len() == start.len(),
            at + k <= n,
            bytes@ == with_bytes(start, at as int, big_endian(v, k as nat).take(i as int)),
        decreases k - i,
    {
        let shift: u64 = 8 * (k - 1 - i) as u64;
        let b: u64 = (v >> shift) & 0xff;
        assert((v >> shift) & 0xff <= 0xff) by (bit_vector);
        bytes[at + i] = b as u8;
        i = i + 1;
        assert(bytes@ =~= with_bytes(start, at as int, big_endian(v, k as nat).take(i as int)));
    }
    assert(big_endian(v, k as nat).take(k as int) =~= big_endian(v, k as nat));
}

/// `s` with `d` in place of the bytes from `at` on.
pub open spec fn with_bytes(s: Seq<u8>, at: int, d: Seq<u8>) -> Seq<u8> {
    Seq::new(
        s.len(),
        |i: int|
            if at <= i < at + d.len() {
                d[i - at]
            } else {
                s[i]
            },
    )
}

proof fn lemma_joined(a: u64, b: u64, c: u64, d: u64)
    by (bit_vector)
    requires
        a <= 0xff,
        b <= 0xff,
        c <= 0xff,
        d <= 0xff,
    ensures
        (0u64 << 8u64) | a == a,
        (a << 8u64) | b <= 0xffff,
        (((((a << 8u64) | b) << 8u64) | c) << 8u64) | d <= 0xffff_ffff,
{
}

/// So many bytes make a number of so many bytes.
pub(crate) proof fn lemma_number_bound(s: Seq<u8>)
    ensures
        s.len() == 1 ==> number_of_bytes(s) <= 0xff,
        s.len() == 2 ==> number_of_bytes(s) <= 0xffff,
        s.len() == 4 ==> number_of_bytes(s) <= 0xffff_ffff,
{
    reveal_with_fuel(number_of_bytes, 5);
    if s.len() == 1 {
        assert(s.drop_last() =~= Seq::empty());
        lemma_joined(s[0] as u64, 0, 0, 0);
    } else if s.len() == 2 {
        assert(s.drop_last().drop_last() =~= Seq::empty());
        lemma_joined(s[0] as u64, s[1] as u64, 0, 0);
    } else if s.len() == 4 {
        assert(s.drop_last().drop_last().drop_last().drop_last() =~= Seq::empty());
        lemma_joined(s[0] as u64, s[1] as u64, s[2] as u64, s[3] as u64);
    }
}

proof fn lemma_shifts(v: u64)
    by (bit_vector)
    ensures
        (v >> 0u64) & 0xff == v & 0xff,
        (((v >> 8u64) & 0xff) << 8u64) | (v & 0xff) == v & 0xffff,
        (((((((v >> 24u64) & 0xff) << 8u64) | ((v >> 16u64) & 0xff)) << 8u64) | ((v >> 8u64)
            & 0xff)) << 8u64) | (v & 0xff) == v & 0xffff_ffff,
        ((((v >> 32u64) & 0xffff_ffff) << 32u64) | (v & 0xffff_ffff)) == v,
        0u64 << 8u64 == 0,
        forall|x: u64| #[trigger] (0u64 | x) == x,
        v & 0xff <= 0xff,
        (v >> 8u64) & 0xff <= 0xff,
        (v >> 16u64) & 0xff <= 0xff,
        (v >> 24u64) & 0xff <= 0xff,
        (v >> 32u64) & 0xff <= 0xff,
        (v >> 40u64) & 0xff <= 0xff,
        (v >> 48u64) & 0xff <= 0xff,
        (v >> 56u64) & 0xff <= 0xff,
        (((((((((((((((v >> 56u64) & 0xff) << 8u64) | ((v >> 48u64) & 0xff)) << 8u64) | ((v
            >> 40u64) & 0xff)) << 8u64) | ((v >> 32u64) & 0xff)) << 8u64) | ((v >> 24u64) & 0xff))
            << 8u64) | ((v >> 16u64) & 0xff)) << 8u64) | ((v >> 8u64) & 0xff)) << 8u64) | (v & 0xff)
            == v,
{
}

/// Law: the bytes of a number make that number again, as far as they hold it.
pub proof fn law_bytes_make_their_number(v: u64, k: nat)
    requires
        k == 1 || k == 2 || k == 4 || k == 8,
    ensures
        number_of_bytes(big_endian(v, k)) == low_bytes(v, k),
{
    reveal_with_fuel(number_of_bytes, 9);
    lemma_shifts(v);
    let s = big_endian(v, k);
    if k == 1 {
        assert(s.drop_last() =~= Seq::empty());
    } else if k == 2 {
        assert(s.drop_last().drop_last() =~= Seq::empty());
    } else if k == 4 {
        assert(s.drop_last().drop_last().drop_last().drop_last() =~= Seq::empty());
    } else {
        assert(s.drop_last().drop_last().drop_last().drop_last().drop_last().drop_last().drop_last().drop_last()
            =~= Seq::empty());
    }
}

proof fn lemma_unjoined(a: u64, b: u64, c: u64, d: u64, e: u64, f: u64, g: u64, h: u64)
    by (bit_vector)
    requires
        a <= 0xff,
        b <= 0xff,
        c <= 0xff,
        d <= 0xff,
        e <= 0xff,
        f <= 0xff,
        g <= 0xff,
        h <= 0xff,
    ensures
        ({
            let x = (0u64 << 8u64) | a;
            (x >> 0u64) & 0xff == a
        }),
        ({
            let x = (((0u64 << 8u64) | a) << 8u64) | b;
            (x >> 8u64) & 0xff == a && (x >> 0u64) & 0xff == b
        }),
        ({
            let x = (((((((0u64 << 8u64) | a) << 8u64) | b) << 8u64) | c) << 8u64) | d;
            (x >> 24u64) & 0xff == a && (x >> 16u64) & 0xff == b && (x >> 8u64) & 0xff == c && (x
                >> 0u64) & 0xff == d
        }),
        ({
            let x = (((((((((((((((0u64 << 8u64) | a) << 8u64) | b) << 8u64) | c) << 8u64) | d)
                << 8u64) | e) << 8u64) | f) << 8u64) | g) << 8u64) | h;
            (x >> 56u64) & 0xff == a && (x >> 48u64) & 0xff == b && (x >> 40u64) & 0xff == c && (x
                >> 32u64) & 0xff == d && (x >> 24u64) & 0xff == e && (x >> 16u64) & 0xff == f && (x
                >> 8u64) & 0xff == g && (x >> 0u64) & 0xff == h
        }),
{
}

/// Law: the number that bytes make has those bytes.
pub proof fn law_number_has_its_bytes(s: Seq<u8>)
    requires
        s.len() == 1 || s.len() == 2 || s.len() == 4 || s.len() == 8,
    ensures
        big_endian(number_of_bytes(s), s.len()) == s,
{
    reveal_with_fuel(number_of_bytes, 9);
    let b = |i: int| s[i] as u64;
    if s.len() == 1 {
        assert(s.drop_last() =~= Seq::empty());
        lemma_unjoined(b(0), 0, 0, 0, 0, 0, 0, 0);
    } else if s.len() == 2 {
        assert(s.drop_last().drop_last() =~= Seq::empty());
        lemma_unjoined(b(0), b(1), 0, 0, 0, 0, 0, 0);
    } else if s.len() == 4 {
        assert(s.drop_last().drop_last().drop_last().drop_last() =~= Seq::empty());
        lemma_unjoined(b(0), b(1), b(2), b(3), 0, 0, 0, 0);
    } else {
        assert(s.drop_last().drop_last().drop_last().drop_last().drop_last().drop_last().drop_last().drop_last()
            =~= Seq::empty());
        lemma_unjoined(b(0), b(1), b(2), b(3), b(4), b(5), b(6), b(7));
    }
    assert(big_endian(number_of_bytes(s), s.len()) =~= s);
}

} // verus!
