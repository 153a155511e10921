//! The halves of unaligned accesses fit together.
use vstd::prelude::*;

use crate::alu::word;
use crate::instr::InstrHandler;
use crate::loadstore::{
    merged, merged_ldl, merged_ldr, merged_lwl, merged_lwr, part_store, word_shift,
};

verus! {

/// The word that starts at byte `off` of `w0` and ends in `w1`, which follows it.
pub open spec fn straddling_word(w0: u32, w1: u32, off: u64) -> u32 {
    if off == 0 {
        w0
    } else if off == 1 {
        (w0 << 8) | (w1 >> 24)
    } else if off == 2 {
        (w0 << 16) | (w1 >> 16)
    } else {
        (w0 << 24) | (w1 >> 8)
    }
}

/// The doubleword that starts at byte `off` of `w0` and ends in `w1`, which follows it.
pub open spec fn straddling_double(w0: u64, w1: u64, off: u64) -> u64 {
    if off == 0 {
        w0
    } else {
        (w0 << (off * 8) as u64) | (w1 >> ((8 - off) * 8) as u64)
    }
}

proof fn lemma_word_halves(r: u32, w0: u32, w1: u32)
    by (bit_vector)
    ensures
        (w0 << 0u32) | (r & !(0xFFFF_FFFFu32 << 0u32)) == w0,
        (w0 >> 0u32) | (r & !(0xFFFF_FFFFu32 >> 0u32)) == w0,
        (w1 >> 24u32) | (((w0 << 8u32) | (r & !(0xFFFF_FFFFu32 << 8u32))) & !(0xFFFF_FFFFu32
            >> 24u32)) == (w0 << 8u32) | (w1 >> 24u32),
        (w0 << 8u32) | (((w1 >> 24u32) | (r & !(0xFFFF_FFFFu32 >> 24u32))) & !(0xFFFF_FFFFu32
            << 8u32)) == (w0 << 8u32) | (w1 >> 24u32),
        (w1 >> 16u32) | (((w0 << 16u32) | (r & !(0xFFFF_FFFFu32 << 16u32))) & !(0xFFFF_FFFFu32
            >> 16u32)) == (w0 << 16u32) | (w1 >> 16u32),
        (w0 << 16u32) | (((w1 >> 16u32) | (r & !(0xFFFF_FFFFu32 >> 16u32))) & !(0xFFFF_FFFFu32
            << 16u32)) == (w0 << 16u32) | (w1 >> 16u32),
        (w1 >> 8u32) | (((w0 << 24u32) | (r & !(0xFFFF_FFFFu32 << 24u32))) & !(0xFFFF_FFFFu32
            >> 8u32)) == (w0 << 24u32) | (w1 >> 8u32),
        (w0 << 24u32) | (((w1 >> 8u32) | (r & !(0xFFFF_FFFFu32 >> 8u32))) & !(0xFFFF_FFFFu32
            << 24u32)) == (w0 << 24u32) | (w1 >> 8u32),
        ((r as i32 as i64 as u64) as u32) == r,
{
}

proof fn lemma_double_halves(r: u64, w0: u64, w1: u64, k: u64, l: u64)
    by (bit_vector)
    requires
        k < 64,
        l < 64,
        k + l == 64,
    ensures
        (w1 >> l) | (((w0 << k) | (r & !(0xFFFF_FFFF_FFFF_FFFFu64 << k)))
            & !(0xFFFF_FFFF_FFFF_FFFFu64 >> l)) == (w0 << k) | (w1 >> l),
        (w0 << k) | (((w1 >> l) | (r & !(0xFFFF_FFFF_FFFF_FFFFu64 >> l)))
            & !(0xFFFF_FFFF_FFFF_FFFFu64 << k)) == (w0 << k) | (w1 >> l),
        (w0 << 0u64) | (r & !(0xFFFF_FFFF_FFFF_FFFFu64 << 0u64)) == w0,
        (w0 >> 0u64) | (r & !(0xFFFF_FFFF_FFFF_FFFFu64 >> 0u64)) == w0,
{
}

proof fn lemma_offset(va: u64)
    ensures
        va & 3 == va % 4,
        va & 7 == va % 8,
        (va & 4 == 0) == (va % 8 < 4),
{
    crate::bits::lemma_bits_of_double(va);
}

/// Law: the two loads of an unaligned word, in either order, leave in the register the
/// four bytes from its address on, whatever was there before. `w0` is the aligned word
/// that holds the first of them, `w1` the one that holds the last.
pub proof fn law_unaligned_word_loads(reg: u64, w0: u32, w1: u32, va: u64)
    requires
        va % 4 == 0 ==> w1 == w0,
    ensures
        ({
            let last = va.wrapping_add(3);
            let left = merged(InstrHandler::Lwl, reg, w0 as u64, va);
            let right = merged(InstrHandler::Lwr, reg, w1 as u64, last);
            let whole = word(straddling_word(w0, w1, va % 4));
            &&& merged(InstrHandler::Lwr, left, w1 as u64, last) == whole
            &&& merged(InstrHandler::Lwl, right, w0 as u64, va) == whole
        }),
{
    let last = va.wrapping_add(3);
    lemma_offset(va);
    lemma_offset(last);
    let r = reg as u32;
    lemma_word_halves(r, w0, w1);
    let left = merged_lwl(r, w0, (va & 3) as u32);
    let right = merged_lwr(r, w1, (last & 3) as u32);
    lemma_word_halves(left, w0, w1);
    lemma_word_halves(right, w0, w1);
}

/// Law: the two loads of an unaligned doubleword, in either order, leave in the register
/// the eight bytes from its address on, whatever was there before.
pub proof fn law_unaligned_double_loads(reg: u64, w0: u64, w1: u64, va: u64)
    requires
        va % 8 == 0 ==> w1 == w0,
    ensures
        ({
            let last = va.wrapping_add(7);
            let left = merged(InstrHandler::Ldl, reg, w0, va);
            let right = merged(InstrHandler::Ldr, reg, w1, last);
            let whole = straddling_double(w0, w1, va % 8);
            &&& merged(InstrHandler::Ldr, left, w1, last) == whole
            &&& merged(InstrHandler::Ldl, right, w0, va) == whole
        }),
{
    let last = va.wrapping_add(7);
    lemma_offset(va);
    lemma_offset(last);
    let off = va % 8;
    lemma_double_halves(reg, w0, w1, 8, 56);
    if off > 0 {
        lemma_double_halves(reg, w0, w1, (off * 8) as u64, ((8 - off) * 8) as u64);
    } else {
        lemma_double_halves(merged_ldl(reg, w0, 0), w0, w1, 8, 56);
        lemma_double_halves(merged_ldr(reg, w1, 7), w0, w1, 8, 56);
    }
}

/// Byte `i` of a doubleword, counted from its start in memory.
pub open spec fn byte_at(v: u64, i: int) -> u64 {
    (v >> (((7 - i) * 8) as u64)) & 0xFF
}

/// Byte `i` of a word, counted from its start in memory.
pub open spec fn word_byte(v: u32, i: int) -> u64 {
    ((v >> (((3 - i) * 8) as u32)) & 0xFF) as u64
}

proof fn lemma_double_bytes(reg: u64, s: u64, t: u64, u: u64, w: u64)
    by (bit_vector)
    requires
        s <= 56,
        t <= 56,
        s & 7 == 0,
        t & 7 == 0,
        u == s + t,
        t >= s ==> w + s == t,
    ensures
        u <= 56 ==> ((0xFFFF_FFFF_FFFF_FFFFu64 >> s) >> t) & 0xFF == 0xFF,
        u > 56 ==> ((0xFFFF_FFFF_FFFF_FFFFu64 >> s) >> t) & 0xFF == 0,
        u <= 56 ==> ((reg >> s) >> t) & 0xFF == (reg >> u) & 0xFF,
        t >= s ==> ((0xFFFF_FFFF_FFFF_FFFFu64 << s) >> t) & 0xFF == 0xFF,
        t < s ==> ((0xFFFF_FFFF_FFFF_FFFFu64 << s) >> t) & 0xFF == 0,
        t >= s ==> ((reg << s) >> t) & 0xFF == (reg >> w) & 0xFF,
{
}

/// Law: the two stores of an unaligned doubleword write exactly the bytes that are
/// theirs. The left one writes the register's first bytes from the address to the end of
/// the doubleword, the right one its last bytes from the start to the address.
pub proof fn law_unaligned_double_stores(reg: u64, va: u64, i: int)
    requires
        0 <= i < 8,
    ensures
        ({
            let b = (va % 8) as int;
            let (v, mask) = part_store(InstrHandler::Sdl, reg, va)->0;
            &&& byte_at(mask, i) == if i >= b {
                0xFFu64
            } else {
                0
            }
            &&& i >= b ==> byte_at(v, i) == byte_at(reg, i - b)
        }),
        ({
            let b = (va % 8) as int;
            let (v, mask) = part_store(InstrHandler::Sdr, reg, va)->0;
            &&& byte_at(mask, i) == if i <= b {
                0xFFu64
            } else {
                0
            }
            &&& i <= b ==> byte_at(v, i) == byte_at(reg, 7 - (b - i))
        }),
{
    lemma_offset(va);
    let b = (va % 8) as int;
    let t = ((7 - i) * 8) as u64;
    let s = (b * 8) as u64;
    let s2 = ((7 - b) * 8) as u64;
    lemma_offset(t);
    lemma_offset(s);
    lemma_offset(s2);
    lemma_double_bytes(reg, s, t, (s + t) as u64, (t - s) as u64);
    lemma_double_bytes(reg, s2, t, (s2 + t) as u64, (t - s2) as u64);
}

proof fn lemma_word_bytes(reg: u32, s: u32, w: u64, t: u64, x: u64, u: u32, d: u32)
    by (bit_vector)
    requires
        w == 0 || w == 32,
        s <= 24,
        s & 7 == 0,
        t <= 56,
        t & 7 == 0,
        t >= w ==> x + w == t,
        t >= w && t < w + 32 ==> u as u64 == s as u64 + x,
        t >= w && t < w + 32 && x >= s as u64 ==> d as u64 + s as u64 == x,
    ensures
        t < w || t >= w + 32 ==> ((((0xFFFF_FFFFu32 >> s) as u64) << w) >> t) & 0xFF == 0,
        t < w || t >= w + 32 ==> ((((0xFFFF_FFFFu32 << s) as u64) << w) >> t) & 0xFF == 0,
        t >= w && t < w + 32 && u <= 24 ==> ((((0xFFFF_FFFFu32 >> s) as u64) << w) >> t) & 0xFF
            == 0xFF && ((((reg >> s) as u64) << w) >> t) & 0xFF == ((reg >> u) & 0xFF) as u64,
        t >= w && t < w + 32 && u > 24 ==> ((((0xFFFF_FFFFu32 >> s) as u64) << w) >> t) & 0xFF == 0,
        t >= w && t < w + 32 && x >= s as u64 ==> ((((0xFFFF_FFFFu32 << s) as u64) << w) >> t) & 0xFF
            == 0xFF && ((((reg << s) as u64) << w) >> t) & 0xFF == ((reg >> d) & 0xFF) as u64,
        t >= w && t < w + 32 && x < s as u64 ==> ((((0xFFFF_FFFFu32 << s) as u64) << w) >> t) & 0xFF
            == 0,
{
}

/// Law: the two stores of an unaligned word write exactly the bytes that are theirs. The
/// left one writes the register's first bytes from the address to the end of the word,
/// the right one its last bytes from the start of the word to the address. `i` counts
/// the bytes of the doubleword in which the word lies.
pub proof fn law_unaligned_word_stores(reg: u64, va: u64, i: int)
    requires
        0 <= i < 8,
    ensures
        ({
            let b = (va % 8) as int;
            let end = b - b % 4 + 3;
            let (v, mask) = part_store(InstrHandler::Swl, reg, va)->0;
            &&& byte_at(mask, i) == if b <= i <= end {
                0xFFu64
            } else {
                0
            }
            &&& b <= i <= end ==> byte_at(v, i) == word_byte(reg as u32, i - b)
        }),
        ({
            let b = (va % 8) as int;
            let start = b - b % 4;
            let (v, mask) = part_store(InstrHandler::Swr, reg, va)->0;
            &&& byte_at(mask, i) == if start <= i <= b {
                0xFFu64
            } else {
                0
            }
            &&& start <= i <= b ==> byte_at(v, i) == word_byte(reg as u32, 3 - (b - i))
        }),
{
    lemma_offset(va);
    let b = (va % 8) as int;
    let o = b % 4;
    let w = word_shift(va);
    let t = ((7 - i) * 8) as u64;
    let x = (t - w) as u64;
    let s = (o * 8) as u32;
    let s2 = ((3 - o) * 8) as u32;
    lemma_offset(t);
    lemma_offset(s as u64);
    lemma_offset(s2 as u64);
    lemma_narrow(s);
    lemma_narrow(s2);
    lemma_word_bytes(reg as u32, s, w, t, x, (s + x) as u32, (x - s) as u32);
    lemma_word_bytes(reg as u32, s2, w, t, x, (s2 + x) as u32, (x - s2) as u32);
}

proof fn lemma_narrow(s: u32)
    ensures
        (s & 7) as u64 == (s as u64) & 7,
{
    crate::bits::lemma_bits_of_word(s);
}

} // verus!
