//! The processor's registers as text.
use vstd::prelude::*;

use crate::cpu_core::{
    MipsCore, CAUSE_BD, CAUSE_CE_SHIFT, STATUS_BEV, STATUS_CE, STATUS_CH, STATUS_DE, STATUS_ERL,
    STATUS_EXL, STATUS_FR, STATUS_IE, STATUS_KSU_SHIFT, STATUS_KX, STATUS_RE, STATUS_RP, STATUS_SR,
    STATUS_SX, STATUS_TS, STATUS_UX,
};
use crate::exp::{gpr_name, reg_name};
use crate::status::{
    EXC_ADEL, EXC_ADES, EXC_BP, EXC_CPU, EXC_DBE, EXC_FPE, EXC_IBE, EXC_INT, EXC_MOD, EXC_OV,
    EXC_RI, EXC_SYS, EXC_TLBL, EXC_TLBS, EXC_TR, EXC_WATCH,
};
use crate::text::{dec, digit, hex_fixed, put, put_dec, put_hex_fixed};

verus! {

/// The `n` bits of `v` from bit `base` up, highest first: the number of each bit that is
/// set, and a dash for each that is not.
pub open spec fn bit_row(v: u32, base: u32, n: nat) -> Seq<char>
    decreases n,
{
    if n == 0 {
        Seq::empty()
    } else {
        let i = (n - 1) as u32;
        seq![
            if v & (1u32 << ((base + i) as u32)) != 0 {
                digit(i as u64)
            } else {
                '_'
            },
        ] + bit_row(v, base, (n - 1) as nat)
    }
}

/// The name of a flag, if it is set.
pub open spec fn flag_name(v: u32, mask: u32, name: Seq<char>) -> Seq<char> {
    if v & mask != 0 {
        name
    } else {
        Seq::empty()
    }
}

pub open spec fn ksu_name(v: u32) -> Seq<char> {
    let ksu = (v >> STATUS_KSU_SHIFT) & 3;
    if ksu == 0 {
        " K:K"@
    } else if ksu == 1 {
        " K:S"@
    } else if ksu == 2 {
        " K:U"@
    } else {
        " K:?"@
    }
}

/// Status in words: usable coprocessors, modes, interrupt mask, privilege and levels.
pub open spec fn status_text(v: u32) -> Seq<char> {
    "CU:"@ + bit_row(v, 28, 4) + flag_name(v, STATUS_RP, " RP"@) + flag_name(v, STATUS_FR, " FR"@)
        + flag_name(v, STATUS_RE, " RE"@) + flag_name(v, STATUS_BEV, " BEV"@) + flag_name(
        v,
        STATUS_TS,
        " TS"@,
    ) + flag_name(v, STATUS_SR, " SR"@) + flag_name(v, STATUS_CH, " CH"@) + flag_name(
        v,
        STATUS_CE,
        " CE"@,
    ) + flag_name(v, STATUS_DE, " DE"@) + " IM:"@ + bit_row(v, 8, 8) + flag_name(
        v,
        STATUS_KX,
        " KX"@,
    ) + flag_name(v, STATUS_SX, " SX"@) + flag_name(v, STATUS_UX, " UX"@) + ksu_name(v) + flag_name(
        v,
        STATUS_ERL,
        " ERL"@,
    ) + flag_name(v, STATUS_EXL, " EXL"@) + flag_name(v, STATUS_IE, " IE"@)
}

/// Name of an exception code.
pub open spec fn exception_name(code: u32) -> Seq<char> {
    match code {
        EXC_INT => "INT"@,
        EXC_MOD => "MOD"@,
        EXC_TLBL => "TLBL"@,
        EXC_TLBS => "TLBS"@,
        EXC_ADEL => "ADEL"@,
        EXC_ADES => "ADES"@,
        EXC_IBE => "IBE"@,
        EXC_DBE => "DBE"@,
        EXC_SYS => "SYS"@,
        EXC_BP => "BP"@,
        EXC_RI => "RI"@,
        EXC_CPU => "CPU"@,
        EXC_OV => "OV"@,
        EXC_TR => "TR"@,
        EXC_FPE => "FPE"@,
        EXC_WATCH => "WATCH"@,
        _ => "?"@,
    }
}

pub open spec fn ce_text(v: u32) -> Seq<char> {
    let ce = (v >> CAUSE_CE_SHIFT) & 3;
    if ce != 0 {
        "CE:"@ + dec(ce as nat) + " "@
    } else {
        Seq::empty()
    }
}

/// Cause in words: delay slot, coprocessor, pending interrupts and exception code.
pub open spec fn cause_text(v: u32) -> Seq<char> {
    let code = (v >> 2) & 0x1F;
    flag_name(v, CAUSE_BD, "BD "@) + ce_text(v) + "IP:"@ + bit_row(v, 8, 8) + " Exc:"@ + hex_fixed(
        code as nat,
        2,
    ) + "("@ + exception_name(code) + ")"@
}

fn put_flag(s: &mut String, v: u32, mask: u32, name: &str)
    ensures
        final(s)@ == old(s)@ + flag_name(v, mask, name@),
{
    if v & mask != 0 {
        put(s, name);
    }
    assert(s@ =~= old(s)@ + flag_name(v, mask, name@));
}

fn put_bits(s: &mut String, v: u32, base: u32, n: u32)
    requires
        base + n <= 32,
        n <= 10,
    ensures
        final(s)@ == old(s)@ + bit_row(v, base, n as nat),
    decreases n,
{
    if n > 0 {
        let i: u32 = n - 1;
        if v & (1u32 << (base + i)) != 0 {
            put_dec(s, i as u64);
            assert(dec(i as nat) =~= seq![digit(i as u64)]);
        } else {
            s.push('_');
        }
        put_bits(s, v, base, i);
    }
    assert(s@ =~= old(s)@ + bit_row(v, base, n as nat));
}

/// Status in words.
pub fn decode_status(val: u32) -> (s: String)
    ensures
        s@ == status_text(val),
{
    let mut s: String = "CU:".to_string();
    put_bits(&mut s, val, 28, 4);
    put_flag(&mut s, val, STATUS_RP, " RP");
    put_flag(&mut s, val, STATUS_FR, " FR");
    put_flag(&mut s, val, STATUS_RE, " RE");
    put_flag(&mut s, val, STATUS_BEV, " BEV");
    put_flag(&mut s, val, STATUS_TS, " TS");
    put_flag(&mut s, val, STATUS_SR, " SR");
    put_flag(&mut s, val, STATUS_CH, " CH");
    put_flag(&mut s, val, STATUS_CE, " CE");
    put_flag(&mut s, val, STATUS_DE, " DE");
    put(&mut s, " IM:");
    put_bits(&mut s, val, 8, 8);
    put_flag(&mut s, val, STATUS_KX, " KX");
    put_flag(&mut s, val, STATUS_SX, " SX");
    put_flag(&mut s, val, STATUS_UX, " UX");
    let ksu: u32 = (val >> STATUS_KSU_SHIFT) & 3;
    put(
        &mut s,
        match ksu {
            0 => " K:K",
            1 => " K:S",
            2 => " K:U",
            _ => " K:?",
        },
    );
    put_flag(&mut s, val, STATUS_ERL, " ERL");
    put_flag(&mut s, val, STATUS_EXL, " EXL");
    put_flag(&mut s, val, STATUS_IE, " IE");
    s
}

fn exception_name_of(code: u32) -> (s: &'static str)
    ensures
        s@ == exception_name(code),
{
    match code {
        EXC_INT => "INT",
        EXC_MOD => "MOD",
        EXC_TLBL => "TLBL",
        EXC_TLBS => "TLBS",
        EXC_ADEL => "ADEL",
        EXC_ADES => "ADES",
        EXC_IBE => "IBE",
        EXC_DBE => "DBE",
        EXC_SYS => "SYS",
        EXC_BP => "BP",
        EXC_RI => "RI",
        EXC_CPU => "CPU",
        EXC_OV => "OV",
        EXC_TR => "TR",
        EXC_FPE => "FPE",
        EXC_WATCH => "WATCH",
        _ => "?",
    }
}

/// Cause in words.
pub fn decode_cause(val: u32) -> (s: String)
    ensures
        s@ == cause_text(val),
{
    let mut s: String = String::new();
    assert(s@ =~= Seq::<char>::empty());
    put_flag(&mut s, val, CAUSE_BD, "BD ");
    assert(s@ =~= flag_name(val, CAUSE_BD, "BD "@));
    let ce: u32 = (val >> CAUSE_CE_SHIFT) & 3;
    if ce != 0 {
        put(&mut s, "CE:");
        put_dec(&mut s, ce as u64);
        put(&mut s, " ");
    }
    assert(s@ =~= flag_name(val, CAUSE_BD, "BD "@) + ce_text(val));
    put(&mut s, "IP:");
    put_bits(&mut s, val, 8, 8);
    let code: u32 = (val >> 2) & 0x1F;
    put(&mut s, " Exc:");
    put_hex_fixed(&mut s, code as u64, 2);
    put(&mut s, "(");
    put(&mut s, exception_name_of(code));
    put(&mut s, ")");
    s
}

/// Text `t` in a field of `width` characters, at its left end.
pub open spec fn left(t: Seq<char>, width: nat) -> Seq<char> {
    if t.len() >= width {
        t
    } else {
        t + spaces((width - t.len()) as nat)
    }
}

pub open spec fn spaces(n: nat) -> Seq<char> {
    Seq::new(n, |i: int| ' ')
}

pub fn put_spaces(s: &mut String, n: usize)
    ensures
        final(s)@ == old(s)@ + spaces(n as nat),
    decreases n,
{
    if n > 0 {
        put_spaces(s, n - 1);
        s.push(' ');
    }
    assert(s@ =~= old(s)@ + spaces(n as nat));
}

/// Appends `t` at the left end of a field.
pub fn put_left(s: &mut String, t: &str, width: usize)
    ensures
        final(s)@ == old(s)@ + left(t@, width as nat),
{
    let n: usize = vstd::string::StrSliceExecFns::unicode_len(t);
    put(s, t);
    if n < width {
        put_spaces(s, width - n);
    }
    assert(s@ =~= old(s)@ + left(t@, width as nat));
}

/// A number of two decimal digits or more.
pub open spec fn two_digits(n: nat) -> Seq<char> {
    if n < 10 {
        "0"@ + dec(n)
    } else {
        dec(n)
    }
}

pub fn put_two_digits(s: &mut String, n: u64)
    ensures
        final(s)@ == old(s)@ + two_digits(n as nat),
{
    if n < 10 {
        put(s, "0");
    }
    put_dec(s, n);
    assert(s@ =~= old(s)@ + two_digits(n as nat));
}

/// One general register in a dump; every fourth ends its line.
pub open spec fn gpr_cell(c: MipsCore, i: int) -> Seq<char> {
    left(gpr_name(i as u8), 4) + "($"@ + two_digits(i as nat) + "): "@ + hex_fixed(
        c.gpr@[i] as nat,
        16,
    ) + "  "@ + if (i + 1) % 4 == 0 {
        "\n"@
    } else {
        Seq::empty()
    }
}

pub open spec fn gpr_cells(c: MipsCore, n: int) -> Seq<char>
    decreases n,
{
    if n <= 0 {
        Seq::empty()
    } else {
        gpr_cells(c, n - 1) + gpr_cell(c, n - 1)
    }
}

/// The dump of the registers.
pub open spec fn regs_text(c: MipsCore) -> Seq<char> {
    "PC: "@ + hex_fixed(c.pc as nat, 16) + "\nHI: "@ + hex_fixed(c.hi as nat, 16) + " LO: "@
        + hex_fixed(c.lo as nat, 16) + "\n"@ + gpr_cells(c, 32) + "CP0 Status: "@ + hex_fixed(
        c.cp0_status as nat,
        8,
    ) + " ("@ + status_text(c.cp0_status) + ")\nCP0 Cause:  "@ + hex_fixed(c.cp0_cause as nat, 8)
        + " ("@ + cause_text(c.cp0_cause) + ")\nCP0 EPC: "@ + hex_fixed(c.cp0_epc as nat, 16)
        + " BadVAddr: "@ + hex_fixed(c.cp0_badvaddr as nat, 16) + "\n"@
}

fn put_gpr(s: &mut String, c: &MipsCore, i: u8)
    requires
        i < 32,
    ensures
        final(s)@ == old(s)@ + gpr_cell(*c, i as int),
{
    let ghost start = s@;
    put_left(s, reg_name(i), 4);
    put(s, "($");
    put_two_digits(s, i as u64);
    put(s, "): ");
    put_hex_fixed(s, c.gpr[i as usize], 16);
    put(s, "  ");
    if (i + 1) % 4 == 0 {
        put(s, "\n");
    }
    assert(s@ =~= start + gpr_cell(*c, i as int));
}

/// All registers as text.
pub fn dump_regs(c: &MipsCore) -> (s: String)
    ensures
        s@ == regs_text(*c),
{
    let mut s: String = "PC: ".to_string();
    put_hex_fixed(&mut s, c.pc, 16);
    put(&mut s, "\nHI: ");
    put_hex_fixed(&mut s, c.hi, 16);
    put(&mut s, " LO: ");
    put_hex_fixed(&mut s, c.lo, 16);
    put(&mut s, "\n");
    let ghost head = s@;
    let mut i: u8 = 0;
    assert(s@ =~= head + gpr_cells(*c, 0));
    while i < 32
        invariant
            i <= 32,
            s@ == head + gpr_cells(*c, i as int),
        decreases 32 - i,
    {
        let ghost before = s@;
        put_gpr(&mut s, c, i);
        i = i + 1;
        assert(s@ =~= head + gpr_cells(*c, i as int));
    }
    put(&mut s, "CP0 Status: ");
    put_hex_fixed(&mut s, c.cp0_status as u64, 8);
    put(&mut s, " (");
    put(&mut s, decode_status(c.cp0_status).as_str());
    put(&mut s, ")\nCP0 Cause:  ");
    put_hex_fixed(&mut s, c.cp0_cause as u64, 8);
    put(&mut s, " (");
    put(&mut s, decode_cause(c.cp0_cause).as_str());
    put(&mut s, ")\nCP0 EPC: ");
    put_hex_fixed(&mut s, c.cp0_epc, 16);
    put(&mut s, " BadVAddr: ");
    put_hex_fixed(&mut s, c.cp0_badvaddr, 16);
    put(&mut s, "\n");
    s
}

} // verus!
