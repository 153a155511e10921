//! Facts about bits.
use vstd::prelude::*;

verus! {

/// Parts of a number of 64 bits, as masks and shifts give them and as division does.
pub(crate) proof fn lemma_bits_of_double(v: u64)
    by (bit_vector)
    ensures
        v >= 0xFFFF_FFFF_8000_0000 && v < 0xFFFF_FFFF_A000_0000 ==> v >> 62 == 3 && v >> 32
            == 0xFFFF_FFFF && (v as u32) >> 29 == 4 && ((v as u32) >> 29) & 7 == 4,
        v & !0xFFFu64 <= v && (v & !0xFFFu64) % 0x1000 == 0u64 && v - (v & !0xFFFu64)
            < 0x1000,
        v & 0xFFF == v % 0x1000,
        ((v as u32) & 0x1FFF_FFFF) as u64 == v % 0x2000_0000,
        v & 1 == v % 2,
        v & 3 == v % 4,
        v & 7 == v % 8,
        v & 0 == 0u64,
        v < 0x80 ==> (v as i8 as i64 as u64) == v,
        v >= 0x80 && v < 0x100 ==> (v as i8 as i64 as u64) == v + 0xFFFF_FFFF_FFFF_FF00,
        v < 0x8000 ==> (v as i16 as i64 as u64) == v,
        v >= 0x8000 && v < 0x1_0000 ==> (v as i16 as i64 as u64) == v + 0xFFFF_FFFF_FFFF_0000,
        v < 0x8000_0000 ==> (v as i32 as i64 as u64) == v,
        v >= 0x8000_0000 && v < 0x1_0000_0000 ==> (v as i32 as i64 as u64) == v
            + 0xFFFF_FFFF_0000_0000,
        ((v >> 0u64) & 0xff) as u8 == v % 0x100,
        ((v >> 8u64) & 0xff) as u8 == v / 0x100 % 0x100,
        ((v >> 16u64) & 0xff) as u8 == v / 0x1_0000 % 0x100,
        ((v >> 24u64) & 0xff) as u8 == v / 0x100_0000 % 0x100,
        ((v >> 32u64) & 0xff) as u8 == v / 0x1_0000_0000 % 0x100,
        ((v >> 40u64) & 0xff) as u8 == v / 0x100_0000_0000 % 0x100,
        ((v >> 48u64) & 0xff) as u8 == v / 0x1_0000_0000_0000 % 0x100,
        ((v >> 56u64) & 0xff) as u8 == v / 0x100_0000_0000_0000 % 0x100,
        v & 0xFF == v % 0x100,
        v & 0xFFFF == v % 0x1_0000,
        v & 0xFFFF_FFFF == v % 0x1_0000_0000,
        v & 0x1F < 32,
        v & 0x3F < 64,
        v & 0x7FFF_FFFF_FFFF_FFFF == v % 0x8000_0000_0000_0000,
        v >> 63 == v / 0x8000_0000_0000_0000,
        (v as u32) == v % 0x1_0000_0000,
        ((v >> 32) as u32) == v / 0x1_0000_0000,
        (v >> 24u64) & 0xff <= 0xff,
        (v >> 16u64) & 0xff <= 0xff,
        (v >> 8u64) & 0xff <= 0xff,
        (v >> 0u64) & 0xff == v & 0xff,
        v & 0xff <= 0xff,
        v & 3 <= 3,
        v & 7 <= 7,
        (v & 0xFFF) >> 2 < 1024,
        v & 2 != 0 <==> (v / 2) % 2 == 1u64,
        v & 4 != 0 <==> (v / 4) % 2 == 1u64,
        v & 0x1000 != 0 <==> (v / 0x1000) % 2 == 1u64,
        (v >> 3) & 7 == v / 8 % 8,
        (v >> 12) & 1 == v / 0x1000 % 2,
        ((v & !1u64) | 0) / 2 == v / 2,
        ((v & !1u64) | 1) / 2 == v / 2,
        ((v & !1u64) | 0) % 2 == 0u64,
        ((v & !1u64) | 1) % 2 == 1u64,
        (v >> 6) & 0xFF_FFFF == v / 64 % 0x100_0000,
        (v >> 6) & 0xFF_FFFF <= 0xFF_FFFF,
        ((v & 0xC000_00FF_FFFF_E0FF & !0x1000u64) | 0) & !0x1000u64 == v & 0xC000_00FF_FFFF_E0FF,
        ((v & 0xC000_00FF_FFFF_E0FF & !0x1000u64) | 0x1000) & !0x1000u64 == v
            & 0xC000_00FF_FFFF_E0FF,
        (((v & 0xC000_00FF_FFFF_E0FF & !0x1000u64) | 0) >> 12) & 1 == 0,
        (((v & 0xC000_00FF_FFFF_E0FF & !0x1000u64) | 0x1000) >> 12) & 1 == 1,
        ((v & 0xC000_00FF_FFFF_E0FF & !0x1000u64) | 0) / 0x4000_0000_0000_0000 == v
            / 0x4000_0000_0000_0000,
        ((v & 0xC000_00FF_FFFF_E0FF & !0x1000u64) | 0x1000) / 0x4000_0000_0000_0000 == v
            / 0x4000_0000_0000_0000,
        ((v & 0xC000_00FF_FFFF_E0FF & !0x1000u64) | 0) % 0x100_0000_0000 / 0x2000 == v
            % 0x100_0000_0000 / 0x2000,
        ((v & 0xC000_00FF_FFFF_E0FF & !0x1000u64) | 0x1000) % 0x100_0000_0000 / 0x2000 == v
            % 0x100_0000_0000 / 0x2000,
        ((v & 0xC000_00FF_FFFF_E0FF & !0x1000u64) | 0) % 0x1_0000_0000 / 0x2000 == v
            % 0x1_0000_0000 / 0x2000,
        ((v & 0xC000_00FF_FFFF_E0FF & !0x1000u64) | 0x1000) % 0x1_0000_0000 / 0x2000 == v
            % 0x1_0000_0000 / 0x2000,
        ((v & 0xC000_00FF_FFFF_E0FF & !0x1000u64) | 0) % 0x100 == v % 0x100,
        ((v & 0xC000_00FF_FFFF_E0FF & !0x1000u64) | 0x1000) % 0x100 == v % 0x100,
        (v & 4 == 0) == (v % 8 < 4),
        v >> 62 == v / 0x4000_0000_0000_0000,
        v >> 40 == v / 0x100_0000_0000,
        v >> 32 == v / 0x1_0000_0000,
        (v >> 59) & 7 == v / 0x800_0000_0000_0000 % 8,
        v & 0x07FF_FFFF_FFFF_FFFF == v % 0x800_0000_0000_0000,
        v & !0xFFu64 == v - v % 0x100,
        v >> 62 == 0 || v >> 62 == 1 <==> v < 0x8000_0000_0000_0000,
        v >> 62 == 3 <==> v >= 0xC000_0000_0000_0000,
        v >> 32 == 0xFFFF_FFFF <==> v >= 0xFFFF_FFFF_0000_0000,
        v & !3u64 == v - v % 4,
        v & !7u64 == v - v % 8,
        (((v as u32) >> 24u32) & 0xFF) as u64 == (v >> 24u64) & 0xFF,
        (((v as u32) >> 16u32) & 0xFF) as u64 == (v >> 16u64) & 0xFF,
        (((v as u32) >> 8u32) & 0xFF) as u64 == (v >> 8u64) & 0xFF,
        (((v as u32) >> 0u32) & 0xFF) as u64 == (v >> 0u64) & 0xFF,
{
}

/// Parts of a number of 32 bits.
pub(crate) proof fn lemma_bits_of_word(w: u32)
    by (bit_vector)
    ensures
        0x800_0000u32 | (4u32 << 2) == 0x800_0010,
        0x800_0000u32 | (5u32 << 2) == 0x800_0014,
        0x800_0010u32 & 0x800_0000 != 0,
        0x800_0014u32 & 0x800_0000 != 0,
        ((w & !0x7Cu32) | (0x800_0010u32 & 0x7C)) / 4 % 32 == 4u32,
        ((w & !0x7Cu32) | (0x800_0014u32 & 0x7C)) / 4 % 32 == 5u32,
        ((w & !0x7Cu32) | (0x800_0010u32 & 0x7C) | 0x8000_0000) / 4 % 32 == 4u32,
        ((w & !0x7Cu32) | (0x800_0014u32 & 0x7C) | 0x8000_0000) / 4 % 32 == 5u32,
        (((w & !0x7Cu32) | (0x800_0010u32 & 0x7C)) & !0x8000_0000u32) / 4 % 32 == 4u32,
        (((w & !0x7Cu32) | (0x800_0014u32 & 0x7C)) & !0x8000_0000u32) / 4 % 32 == 5u32,
        w & 0x7FFF_FFFF == w % 0x8000_0000,
        w >> 31 == w / 0x8000_0000,
        w & 0x2000_0000 == 0x2000_0000 * (w / 0x2000_0000 % 2),
        w & 0x0400_0000 == 0x0400_0000 * (w / 0x0400_0000 % 2),
        w & 3 == w % 4,
        (w >> 18) & 7 == w / 0x4_0000 % 8,
        (w >> 16) & 1 == w / 0x1_0000 % 2,
        (w >> 26) & 0x3F <= 63,
        (w >> 21) & 0x1F <= 31,
        (w >> 16) & 0x1F <= 31,
        (w >> 11) & 0x1F <= 31,
        (w >> 6) & 0x1F <= 31,
        w & 0x3F <= 63,
        (w & 0xFFFF) <= 0xFFFF,
        (w & 0xFFFF) < 0x8000 ==> ((w & 0xFFFF) as i16 as i32 as u32) as i32 == (w & 0xFFFF),
        (w & 0xFFFF) >= 0x8000 ==> ((w & 0xFFFF) as i16 as i32 as u32) as i32 == (w & 0xFFFF)
            - 0x10000,
        (w & 0xFFFF) < 0x8000 ==> (((w & 0xFFFF) as i16 as i32 * 4) as u32) as i32 == 4 * (w
            & 0xFFFF),
        (w & 0xFFFF) >= 0x8000 ==> (((w & 0xFFFF) as i16 as i32 * 4) as u32) as i32 == 4 * ((
        w & 0xFFFF) - 0x10000),
        (w & 0xFFFF) == w % 0x10000,
        (w & 0xFFFF) << 16 == (w % 0x10000) * 0x10000,
        (w & 0x3FFFFFF) << 2 == (w % 0x4000000) * 4,
        (w >> 18) & 0x7 < 8,
        w < 32 ==> ((0x0800_0000u32 | (w << 2u32)) >> 2u32) & 0x1F == w,
        w < 32 ==> (0x0800_0000u32 | (w << 2u32)) & 0x0800_0000 != 0,
        w < 32 ==> (0x0800_0000u32 | (w << 2u32)) & 0x1000_0000 == 0,
        w < 32 ==> (0x0800_0000u32 | (w << 2u32)) & 0x2000_0000 == 0,
        w < 32 ==> ((0x0800_0000u32 | 0x1000_0000u32 | (w << 2u32)) >> 2u32) & 0x1F == w,
        w < 32 ==> (0x0800_0000u32 | 0x1000_0000u32 | (w << 2u32)) & 0x0800_0000 != 0,
        w < 32 ==> (0x0800_0000u32 | 0x1000_0000u32 | (w << 2u32)) & 0x1000_0000 != 0,
        w < 32 ==> (0x0800_0000u32 | 0x1000_0000u32 | (w << 2u32)) & 0x2000_0000 == 0,
        w < 32 ==> ((0x0800_0000u32 | 0x1000_0000u32 | 0x2000_0000u32 | (w << 2u32)) >> 2u32)
            & 0x1F == w,
        w < 32 ==> (0x0800_0000u32 | 0x1000_0000u32 | 0x2000_0000u32 | (w << 2u32))
            & 0x0800_0000 != 0,
        w < 32 ==> (0x0800_0000u32 | 0x1000_0000u32 | 0x2000_0000u32 | (w << 2u32))
            & 0x1000_0000 != 0,
        w < 32 ==> (0x0800_0000u32 | 0x1000_0000u32 | 0x2000_0000u32 | (w << 2u32))
            & 0x2000_0000 != 0,
        w < 32 ==> 0x0000_0000u32 & 0x0800_0000 == 0,
        w < 32 ==> 0x0000_0100u32 & 0x0800_0000 == 0,
        w < 32 ==> 0x0000_0200u32 & 0x0800_0000 == 0,
        w < 32 ==> 0x0000_0800u32 & 0x0800_0000 == 0,
        w < 32 ==> (0x0800_0000u32 | (7u32 << 2u32)) == 0x0800_001C,
        w < 32 ==> (0x0800_0000u32 | (31u32 << 2u32)) == 0x0800_007C,
        w & 0x3F < 64,
        (w >> 20u32) & 0xF < 16,
        ((w >> 20u32) & 0xFu32) << 20u32 == w & 0xF0_0000,
        (w & 0x3F) & 0x3F == w & 0x3F,
        (w & 0x3F) & 0x1F == w & 0x1F,
        (w as u64) & 0xFFFF_FFFF == w as u64,
        (w & 7) as u64 == (w as u64) & 7,
        w % 0x1_0000 < 0x8000 ==> ((w & 0xFFFF) as i16) == w % 0x1_0000,
        w % 0x1_0000 >= 0x8000 ==> ((w & 0xFFFF) as i16) == w % 0x1_0000 - 0x1_0000,
        (w >> 26) & 0x3F == w / 0x400_0000,
        (w >> 21) & 0x1F == w / 0x20_0000 % 32,
        (w >> 16) & 0x1F == w / 0x1_0000 % 32,
        (w >> 11) & 0x1F == w / 0x800 % 32,
        (w >> 6) & 0x1F == w / 0x40 % 32,
        w & 0x3F == w % 64,
        1u8 & 2u8 == 0,
        w < 32 ==> w & 0x1F == w,
        (w & 0x1F) << 2 == 4 * (w % 32),
        (0x800_0000u32 | ((w & 0x1F) << 2)) == 0x800_0000 + 4 * (w % 32),
        (0x800_0000u32 | ((w & 0x1F) << 2)) & 0x7C == 4 * (w % 32),
        w & 1 != 0 <==> (w >> 0u32) & 1 == 1u32,
        w & 2 != 0 <==> (w >> 1u32) & 1 == 1u32,
        w & 4 != 0 <==> (w >> 2u32) & 1 == 1u32,
        w & (2u32 | 4u32) != 0 <==> (w >> 1u32) & 1 == 1u32 || (w >> 2u32) & 1 == 1u32,
        w & 0x20 != 0 <==> (w >> 5u32) & 1 == 1u32,
        w & 0x40 != 0 <==> (w >> 6u32) & 1 == 1u32,
        w & 0x80 != 0 <==> (w >> 7u32) & 1 == 1u32,
        w & 0x40_0000 != 0 <==> (w >> 22u32) & 1 == 1u32,
        w & 0x1000_0000 != 0 <==> (w >> 28u32) & 1 == 1u32,
        w & 0x2000_0000 != 0 <==> (w >> 29u32) & 1 == 1u32,
        (w >> 3u32) & 3 == w / 8 % 4,
        (w & 0x7C) / 4 == w / 4 % 32,
        (w & 0x7C) >> 2u32 == w / 4 % 32,
        0x800_0000u32 | (0u32 << 2) == 0x800_0000,
        ((w & !0x7Cu32) | (0x800_0000u32 & 0x7C) | 0x8000_0000) / 4 % 32 == 0u32,
        (((w & !0x7Cu32) | (0x800_0000u32 & 0x7C)) & !0x8000_0000u32) / 4 % 32 == 0u32,
        w >> 29 == w / 0x2000_0000,
        (w >> 29) & 7 == w / 0x2000_0000,
        w & 0x1FFF_FFFF == w % 0x2000_0000,
        (w | 2) / 0x2000_0000 == w / 0x2000_0000,
        (w | 2) / 0x0400_0000 == w / 0x0400_0000,
        w >> 4 == w / 16,
        (w as u64) & !0xFu64 == (w / 16 * 16) as u64,
        ((w / 16) as u64) << 4 == (w / 16 * 16) as u64,
        (w as u64) << 4 == w * 16,
{
}

/// Masks and status words.
pub(crate) proof fn lemma_constant_bits()
    by (bit_vector)
    ensures
        0u64 | (0u32 as u64) == 0,
        3u32 & 7 != 2,
        3u32 & 7 == 3,
        3u32 & 0x0800_0000 == 0,
        0u32 & 0x0800_0000 == 0,
        0u64 | 0x1FFF == 0x1FFF && 0x1FFFu64 >> 1 == 0xFFF,
        0x6000u64 | 0x1FFF == 0x7FFF && 0x7FFFu64 >> 1 == 0x3FFF,
        0x1_E000u64 | 0x1FFF == 0x1_FFFF && 0x1_FFFFu64 >> 1 == 0xFFFF,
        0x7_E000u64 | 0x1FFF == 0x7_FFFF && 0x7_FFFFu64 >> 1 == 0x3_FFFF,
        0x1F_E000u64 | 0x1FFF == 0x1F_FFFF && 0x1F_FFFFu64 >> 1 == 0xF_FFFF,
        0x7F_E000u64 | 0x1FFF == 0x7F_FFFF && 0x7F_FFFFu64 >> 1 == 0x3F_FFFF,
        0x1FF_E000u64 | 0x1FFF == 0x1FF_FFFF && 0x1FF_FFFFu64 >> 1 == 0xFF_FFFF,
        !0u64 >> 56u64 == 0xFFu64,
        !0u64 >> 48u64 == 0xFFFFu64,
        !0u64 >> 32u64 == 0xFFFF_FFFFu64,
        !0u64 == 0xFFFF_FFFF_FFFF_FFFFu64,
        0x15u32 | 0u32 | 0u32 == 0x15,
        0x15u32 | 0x4000_0000u32 | 0u32 == 0x4000_0015,
        0x15u32 | 0u32 | 0x8000_0000u32 == 0x8000_0015,
        0x15u32 | 0x4000_0000u32 | 0x8000_0000u32 == 0xC000_0015,
        0x15u32 & 0x3FFF_FFFF == 0x15 && 0x15u32 & 0x4000_0000 == 0,
        0x15u32 & 0x8000_0000 == 0,
        0x4000_0015u32 & 0x3FFF_FFFF == 0x15 && 0x4000_0015u32 & 0x4000_0000 != 0,
        0x4000_0015u32 & 0x8000_0000 == 0,
        0x8000_0015u32 & 0x3FFF_FFFF == 0x15 && 0x8000_0015u32 & 0x4000_0000 == 0,
        0x8000_0015u32 & 0x8000_0000 != 0,
        0xC000_0015u32 & 0x3FFF_FFFF == 0x15 && 0xC000_0015u32 & 0x4000_0000 != 0,
        0xC000_0015u32 & 0x8000_0000 != 0,
        0x800_0000u32 | (1u32 << 2) == 0x800_0004,
        0x800_0000u32 | (2u32 << 2) == 0x800_0008,
        0x800_0000u32 | (3u32 << 2) == 0x800_000C,
        0x800_0000u32 | (4u32 << 2) == 0x800_0010,
        0x800_0000u32 | (5u32 << 2) == 0x800_0014,
        0x800_0000u32 | 0x1000_0000u32 | (2u32 << 2) == 0x1800_0008,
        0x800_0000u32 | 0x1000_0000u32 | (3u32 << 2) == 0x1800_000C,
        0x800_0000u32 | 0x1000_0000u32 | 0x2000_0000u32 | (2u32 << 2) == 0x3800_0008,
        0x800_0000u32 | 0x1000_0000u32 | 0x2000_0000u32 | (3u32 << 2) == 0x3800_000C,
{
}

/// Two numbers that share no bits.
pub(crate) proof fn lemma_bits_of_doubles(v: u64, w: u64)
    by (bit_vector)
    ensures
        v < 0x100_0000_0000_0000 && w < 0x100 ==> ((v << 8) | w == v * 0x100 + w),
        v % 0x1000 == 0u64 && w < 0x1000 && v < 0x2000_0000 ==> (v | w == v + w),
        ((v & 0x7FFF_FFFF_FFFF_FFFF == w & 0x7FFF_FFFF_FFFF_FFFF) && ((v >> 63 != 0) == (w >> 63 != 0))) ==> (v == w),
        w < 0x1000_0000 ==> (v & 0xFFFF_FFFF_F000_0000) | w == v - v % 0x1000_0000 + w,
        ((v & 0xC000_00FF_FFFF_E000) | (w & 0xFF)) % 0x100 == w % 0x100,
        ((v & 0xC000_00FF_FFFF_E000) | (w & 0xFF)) / 0x100 % 0x20 == 0u64,
        ((v & 0xC000_00FF_FFFF_E000) | (w & 0xFF)) / 0x2000 % 0x800_0000 == v / 0x2000
            % 0x800_0000,
        ((v & 0xC000_00FF_FFFF_E000) | (w & 0xFF)) / 0x4000_0000_0000_0000 == v
            / 0x4000_0000_0000_0000,
        ((v & 0x0000_0000_FFFF_E000) | (w & 0xFF)) % 0x100 == w % 0x100,
        ((v & 0x0000_0000_FFFF_E000) | (w & 0xFF)) / 0x100 % 0x20 == 0u64,
        ((v & 0x0000_0000_FFFF_E000) | (w & 0xFF)) / 0x2000 == v / 0x2000 % 0x8_0000,
        v & 0x1FFF_FFFC == w & 0x1FFF_FFFC <==> v % 0x2000_0000 / 4 == w % 0x2000_0000 / 4,
{
}

/// Parts of a number of 64 bits and of one of 32.
pub(crate) proof fn lemma_bits_of_both(v: u64, w: u32)
    by (bit_vector)
    ensures
        v <= 0x7FFF_FFFF_FFFF_FFFF ==> v & 0x7FFF_FFFF_FFFF_FFFF == v && v >> 63 == 0 && (v
            | 0x8000_0000_0000_0000) & 0x7FFF_FFFF_FFFF_FFFF == v && (v | 0x8000_0000_0000_0000)
            >> 63 != 0,
        w <= 0x7FFF_FFFF ==> w & 0x7FFF_FFFF == w && w >> 31 == 0 && (w | 0x8000_0000)
            & 0x7FFF_FFFF == w && (w | 0x8000_0000) >> 31 != 0,
        v & 0x7FFF_FFFF_FFFF_FFFF <= 0x7FFF_FFFF_FFFF_FFFF,
        w & 0x7FFF_FFFF <= 0x7FFF_FFFF,
        v >> 62 <= 3,
        w >> 29 <= 7,
        (v >> 59) & 0x7 <= 7,
        ((w as u64 & !0xFFFu64) | (v & 0xFFF)) as u32 == (w & !0xFFFu32) | ((v
            & 0xFFF) as u32),
        w & 0xFFF == (v & 0xFFF) as u32 ==> ((w as u64 & !0xFFFu64) | (v & 0xFFF)) as u32
            == w,
        ((v & 0xFFFF_FFFF_0000_0000) | (w as u64)) % 0x1_0000_0000 == w as u64,
        ((v & 0xFFFF_FFFF_0000_0000) | (w as u64)) / 0x1_0000_0000 == v / 0x1_0000_0000,
        ((v & 0x0000_0000_FFFF_FFFF) | ((w as u64) << 32)) / 0x1_0000_0000 == w as u64,
        ((v & 0x0000_0000_FFFF_FFFF) | ((w as u64) << 32)) % 0x1_0000_0000 == v % 0x1_0000_0000,
        v < 0x8000_0000_0000_0000 ==> v ^ 0x8000_0000_0000_0000 == v + 0x8000_0000_0000_0000,
        v >= 0x8000_0000_0000_0000 ==> v ^ 0x8000_0000_0000_0000 == v - 0x8000_0000_0000_0000,
        w < 0x8000_0000 ==> w ^ 0x8000_0000 == w + 0x8000_0000,
        w >= 0x8000_0000 ==> w ^ 0x8000_0000 == w - 0x8000_0000,
{
}

/// Words and the signed numbers that they stand for.
pub(crate) proof fn lemma_signed_words(w: u32, y: i32)
    by (bit_vector)
    ensures
        w < 0x8000_0000 ==> w as i32 == w,
        w >= 0x8000_0000 ==> w as i32 == w - 0x1_0000_0000,
        y >= 0 ==> y as u32 == y,
        y < 0 ==> y as u32 == y + 0x1_0000_0000,
        (w as i32 as i64 as u64) as i32 as i64 as u64 == (w as i32 as i64 as u64),
        (y as i64 as u64) as i32 as i64 as u64 == (y as i64 as u64),
{
}

/// Parts of two words.
pub(crate) proof fn lemma_bits_of_words(w: u32, x: u32)
    by (bit_vector)
    ensures
        ((w & !0x7Cu32) | (x & 0x7C)) / 4 % 32 == (x & 0x7C) / 4,
        ((w & !0x7Cu32) | (x & 0x7C) | 0x8000_0000) / 4 % 32 == (x & 0x7C) / 4,
        (((w & !0x7Cu32) | (x & 0x7C)) & !0x8000_0000u32) / 4 % 32 == (x & 0x7C) / 4,
        x < 32 ==> (w >> x) & 0xFF <= 0xFF,
        x < 32 ==> (w >> x) & 0xFFFF <= 0xFFFF,
        ((w as u64) | ((x as u64) << 32)) as u32 == w,
        (((w as u64) | ((x as u64) << 32)) >> 32) as u32 == x,
        (w & 0xFF00) & (x & 0xFF00) != 0 ==> (w >> 8u32) & 1 == 1 && (x >> 8u32) & 1 == 1 || (w
            >> 9u32) & 1 == 1 && (x >> 9u32) & 1 == 1 || (w >> 10u32) & 1 == 1 && (x >> 10u32) & 1
            == 1 || (w >> 11u32) & 1 == 1 && (x >> 11u32) & 1 == 1 || (w >> 12u32) & 1 == 1 && (x
            >> 12u32) & 1 == 1 || (w >> 13u32) & 1 == 1 && (x >> 13u32) & 1 == 1 || (w >> 14u32) & 1
            == 1 && (x >> 14u32) & 1 == 1 || (w >> 15u32) & 1 == 1 && (x >> 15u32) & 1 == 1,
{
}

/// Bits that are set and cleared.
pub(crate) proof fn lemma_single_bits(w: u32, x: u32, y: u32)
    by (bit_vector)
    ensures
        y < 32 ==> (x & (1u32 << y) != 0 ==> (w | x) & (1u32 << y) != 0),
        y < 32 ==> (x & (1u32 << y) != 0 ==> (w & !x) & (1u32 << y) == 0),
        y < 32 ==> (x & (1u32 << y) == 0 ==> (w | x) & (1u32 << y) == w & (1u32 << y)),
        y < 32 ==> (x & (1u32 << y) == 0 ==> (w & !x) & (1u32 << y) == w & (1u32 << y)),
        x < 32 && y < 32 ==> (((w | (1u32 << x)) >> x) & 1 == 1),
        x < 32 && y < 32 ==> (((w & !(1u32 << x)) >> x) & 1 == 0),
        x < 32 && y < 32 ==> (x != y ==> ((w | (1u32 << x)) >> y) & 1 == (w >> y) & 1),
        x < 32 && y < 32 ==> (x != y ==> ((w & !(1u32 << x)) >> y) & 1 == (w >> y) & 1),
        x < 32 && y < 32 ==> ((w & (1u32 << x) != 0) == ((w >> x) & 1 == 1)),
        x < 32 && y < 32 ==> (((w | 0x1_0040u32) >> 16) & 1 == 1),
        x < 32 && y < 32 ==> (((w | 0x1_0040u32) >> 6) & 1 == 1),
        x < 32 && y < 32 ==> (y != 16 && y != 6 ==> ((w | 0x1_0040u32) >> y) & 1 == (w >> y) & 1),
        x < 32 && y < 32 ==> ((w & 0x800 != 0) == ((w >> 11) & 1 == 1)),
        (w | 2) & 2 != 0,
        w & 2 != 0 ==> w & (2u32 | 4u32) != 0,
        (w & 0x7) & 0x7 == w & 0x7,
        ((w | 2) & !2) & 2 == 0,
        w & 2 == 0 ==> (w | 2) & !2 == w,
        (w | 2) & 4 == w & 4,
        (x | 0x8000_0000u32) & 0x8000_0000u32 != 0,
        (x & !0x8000_0000u32) & 0x8000_0000u32 == 0,
        ((x & !0x7Cu32) | (y & 0x7C)) & 0x7C == y & 0x7C,
        (((x & !0x7Cu32) | (y & 0x7C)) | 0x8000_0000u32) & 0x7C == y & 0x7C,
        (((x & !0x7Cu32) | (y & 0x7C)) & !0x8000_0000u32) & 0x7C == y & 0x7C,
        y < 32 ==> (y == 1 ==> ((w | 2) >> y) & 1 == 1),
        y < 32 ==> (y != 1 ==> ((w | 2) >> y) & 1 == (w >> y) & 1),
        y < 32 ==> (y == 1 ==> ((w & !2u32) >> y) & 1 == 0),
        y < 32 ==> (y != 1 ==> ((w & !2u32) >> y) & 1 == (w >> y) & 1),
        y < 32 ==> (y == 2 ==> ((w & !4u32) >> y) & 1 == 0),
        y < 32 ==> (y != 2 ==> ((w & !4u32) >> y) & 1 == (w >> y) & 1),
        y < 32 ==> (y == 15 ==> ((w & !0x8000u32) >> y) & 1 == 0),
        y < 32 ==> (y != 15 ==> ((w & !0x8000u32) >> y) & 1 == (w >> y) & 1),
        y < 32 ==> (y == 8 || y == 9 ==> (((w & !0x300u32) | (x & 0x300)) >> y) & 1 == (x >> y) & 1),
        y < 32 ==> (y != 8 && y != 9 ==> (((w & !0x300u32) | (x & 0x300)) >> y) & 1 == (w >> y) & 1),
        y < 32 ==> (y >= 10 && y < 16 ==> (((w & !0xFC00u32) | (x & 0xFC00)) >> y) & 1 == (x >> y) & 1),
        y < 32 ==> (y < 10 || y >= 16 ==> (((w & !0xFC00u32) | (x & 0xFC00)) >> y) & 1 == (w >> y) & 1),
        y < 32 ==> (y >= 8 && y < 16 && (w >> y) & 1 == 1 && (x >> y) & 1 == 1 ==> (w & 0xFF00) & (x & 0xFF00)
            != 0),
        y < 32 ==> (y >= 2 && y <= 6 ==> (((w | ((x & 0x7C) << 10) | (x & 0x7C)) >> y) & 1 == 1 <==> (w >> y) & 1
            == 1 || (x >> y) & 1 == 1)),
        y < 32 ==> (y >= 12 && y <= 16 ==> (((w | ((x & 0x7C) << 10) | (x & 0x7C)) >> y) & 1 == 1 <==> (w >> y)
            & 1 == 1 || (x >> ((y - 10) as u32)) & 1 == 1)),
        y < 32 ==> (y < 2 || (y > 6 && y < 12) || y > 16 ==> ((w | ((x & 0x7C) << 10) | (x & 0x7C)) >> y) & 1
            == (w >> y) & 1),
        y < 32 ==> (y != 17 ==> ((w | 0x2_0000) >> y) & 1 == (w >> y) & 1),
        y < 32 ==> (y == 17 ==> ((w | 0x2_0000) >> y) & 1 == 1),
        y < 32 ==> ((((x & 0x7C) << 10) & 0x2000 != 0 && (w | ((x & 0x7C) << 10) | (x & 0x7C)) & 0x100 != 0)
            <==> (x >> 3u32) & 1 == 1 && (w >> 8u32) & 1 == 1),
        y < 32 ==> ((((x & 0x7C) << 10) >> 5) & ((w | ((x & 0x7C) << 10) | (x & 0x7C)) & 0xF80) != 0 <==> ((x
            >> 2u32) & 1 == 1 && (w >> 7u32) & 1 == 1) || ((x >> 3u32) & 1 == 1 && (w >> 8u32) & 1
            == 1) || ((x >> 4u32) & 1 == 1 && (w >> 9u32) & 1 == 1) || ((x >> 5u32) & 1 == 1 && (w
            >> 10u32) & 1 == 1) || ((x >> 6u32) & 1 == 1 && (w >> 11u32) & 1 == 1)),
        y < 32 ==> (x == 0 ==> (x >> y) & 1 == 0),
{
}

} // verus!
