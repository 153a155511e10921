use iris::bus::{Tlb, TlbEntry};
use iris::cpu_core::{STATUS_CU1, STATUS_EXL, STATUS_FR, STATUS_IE};
use iris::fpu::{FloatOp, FloatReply, Step};
use iris::instr::DecodedInstr;
use iris::machine::MipsExecutor;
use iris::ram::{DirectCache, Ram};
use iris::setup::{CacheGeometry, Signal};
use iris::soft_tlb::SoftTlb;
use iris::status::{
    exec_exception, exec_tlb_miss, MipsCpuConfig, EXC_CPU, EXC_INT, EXC_OV, EXC_RI, EXC_SYS,
    EXC_TLBL, EXEC_BREAKPOINT, EXEC_COMPLETE,
};

type Exec = MipsExecutor<SoftTlb, DirectCache, Ram>;

const START: u64 = 0xFFFF_FFFF_8000_1000;

fn machine(words: &[u32]) -> Exec {
    let mut ram = Ram::new(0, 0x10000);
    for (i, w) in words.iter().enumerate() {
        ram.write(0x1000 + 4 * i as u32, 4, *w as u64);
    }
    let geometry = CacheGeometry {
        ic_size: 16384,
        ic_line: 32,
        dc_size: 16384,
        dc_line: 32,
        l2_size: 0,
        l2_line: 0,
    };
    let mut e = MipsExecutor::new(
        Ram::new(0, 0x10000),
        SoftTlb::new(48),
        DirectCache::new(ram),
        &geometry,
        &MipsCpuConfig::indy(),
    );
    e.core.pc = START;
    e.core.cp0_status = 0;
    e
}

fn step(e: &mut Exec) -> u32 {
    match e.step() {
        Step::Done(s) => s,
        Step::Float(_, _) => panic!("waits for a floating-point result"),
    }
}

fn run(e: &mut Exec, n: usize) {
    for _ in 0..n {
        assert_eq!(step(e), EXEC_COMPLETE);
    }
}

fn itype(op: u32, rs: u32, rt: u32, imm: u32) -> u32 {
    (op << 26) | (rs << 21) | (rt << 16) | (imm & 0xFFFF)
}

fn rtype(rs: u32, rt: u32, rd: u32, sa: u32, funct: u32) -> u32 {
    (rs << 21) | (rt << 16) | (rd << 11) | (sa << 6) | funct
}

#[test]
fn constants_and_arithmetic() {
    let mut e = machine(&[
        itype(0x0F, 0, 8, 0x8000),
        itype(0x0D, 8, 8, 0x1234),
        itype(0x09, 0, 9, 0xFFFF),
        rtype(8, 9, 10, 0, 0x21),
        rtype(8, 9, 11, 0, 0x2D),
    ]);
    run(&mut e, 5);
    assert_eq!(e.core.gpr[8], 0xFFFF_FFFF_8000_1234);
    assert_eq!(e.core.gpr[9], 0xFFFF_FFFF_FFFF_FFFF);
    assert_eq!(e.core.gpr[10], 0xFFFF_FFFF_8000_1233);
    assert_eq!(e.core.gpr[11], 0xFFFF_FFFF_8000_1233);
    assert_eq!(e.core.pc, START + 20);
    assert_eq!(e.core.cycles, 5);
}

#[test]
fn zero_register_stays_zero() {
    let mut e = machine(&[itype(0x09, 0, 0, 5)]);
    run(&mut e, 1);
    assert_eq!(e.core.gpr[0], 0);
}

#[test]
fn multiplication_and_division() {
    let mut e = machine(&[
        itype(0x09, 0, 8, 0xFFF9),
        itype(0x09, 0, 9, 2),
        rtype(8, 9, 0, 0, 0x1A),
        rtype(0, 0, 10, 0, 0x12),
        rtype(0, 0, 11, 0, 0x10),
        rtype(8, 9, 0, 0, 0x18),
        rtype(0, 0, 12, 0, 0x12),
    ]);
    run(&mut e, 7);
    assert_eq!(e.core.gpr[10] as i64, -3);
    assert_eq!(e.core.gpr[11] as i64, -1);
    assert_eq!(e.core.gpr[12] as i64, -14);
}

#[test]
fn overflow_is_an_exception() {
    let mut e = machine(&[
        itype(0x0F, 0, 8, 0x7FFF),
        itype(0x0D, 8, 8, 0xFFFF),
        itype(0x08, 8, 9, 1),
    ]);
    run(&mut e, 2);
    assert_eq!(step(&mut e), exec_exception(EXC_OV));
    assert_eq!(e.core.gpr[9], 0);
    assert_eq!(e.core.cp0_epc, START + 8);
    assert_eq!(e.core.pc, 0xFFFF_FFFF_8000_0180);
    assert!(e.core.cp0_status & STATUS_EXL != 0);
}

#[test]
fn branches_have_delay_slots() {
    let mut e = machine(&[
        itype(0x04, 0, 0, 3),
        itype(0x09, 0, 8, 1),
        itype(0x09, 0, 9, 1),
        itype(0x09, 0, 10, 1),
        itype(0x09, 0, 11, 1),
    ]);
    run(&mut e, 1);
    assert!(e.core.in_delay_slot);
    run(&mut e, 2);
    assert_eq!(e.core.gpr[8], 1);
    assert_eq!(e.core.gpr[9], 0);
    assert_eq!(e.core.gpr[10], 0);
    assert_eq!(e.core.gpr[11], 1);
    assert_eq!(e.core.pc, START + 20);
}

#[test]
fn likely_branch_skips_its_delay_slot() {
    let mut e = machine(&[itype(0x15, 0, 0, 3), itype(0x09, 0, 8, 1), itype(0x09, 0, 9, 1)]);
    run(&mut e, 2);
    assert_eq!(e.core.gpr[8], 0);
    assert_eq!(e.core.gpr[9], 1);
}

#[test]
fn exception_in_a_delay_slot_resumes_at_the_branch() {
    let mut e = machine(&[itype(0x04, 0, 0, 3), 0x0000_000C]);
    run(&mut e, 1);
    assert_eq!(step(&mut e), exec_exception(EXC_SYS));
    assert_eq!(e.core.cp0_epc, START);
    assert!(e.core.cp0_cause & 0x8000_0000 != 0);
    // The return goes back to the branch.
    e.core.pc = START + 0x100;
    e.cache.ram.write(0x1100, 4, 0x4200_0018);
    run(&mut e, 1);
    assert_eq!(e.core.pc, START);
    assert!(e.core.cp0_status & STATUS_EXL == 0);
}

#[test]
fn stores_are_loaded_back() {
    let mut e = machine(&[
        itype(0x0F, 0, 8, 0x8000),
        itype(0x0D, 8, 8, 0x2000),
        itype(0x0F, 0, 9, 0xDEAD),
        itype(0x0D, 9, 9, 0xBEEF),
        itype(0x2B, 8, 9, 4),
        itype(0x23, 8, 10, 4),
        itype(0x27, 8, 11, 4),
        itype(0x20, 8, 12, 4),
        itype(0x25, 8, 13, 6),
    ]);
    run(&mut e, 9);
    assert_eq!(e.core.gpr[10], 0xFFFF_FFFF_DEAD_BEEF);
    assert_eq!(e.core.gpr[11], 0x0000_0000_DEAD_BEEF);
    assert_eq!(e.core.gpr[12], 0xFFFF_FFFF_FFFF_FFDE);
    assert_eq!(e.core.gpr[13], 0xBEEF);
    assert_eq!(e.cache.ram.read(0x2004, 4).data, 0xDEAD_BEEF);
}

#[test]
fn unaligned_word_is_assembled_and_taken_apart() {
    let mut e = machine(&[
        itype(0x0F, 0, 8, 0x8000),
        itype(0x0D, 8, 8, 0x2000),
        itype(0x22, 8, 9, 1),
        itype(0x26, 8, 9, 4),
        itype(0x2A, 8, 9, 0x13),
        itype(0x2E, 8, 9, 0x16),
    ]);
    e.cache.ram.write(0x2000, 8, 0x0011_2233_4455_6677);
    run(&mut e, 6);
    assert_eq!(e.core.gpr[9], 0x1122_3344);
    assert_eq!(e.cache.ram.read(0x2010, 8).data, 0x0000_0011_2233_4400);
}

#[test]
fn conditional_store_needs_its_link() {
    let program = [
        itype(0x0F, 0, 8, 0x8000),
        itype(0x0D, 8, 8, 0x2000),
        itype(0x38, 8, 9, 0),
        itype(0x30, 8, 10, 0),
        itype(0x09, 0, 11, 7),
        itype(0x38, 8, 11, 0),
        itype(0x38, 8, 12, 0),
    ];
    let mut e = machine(&program);
    e.core.gpr[9] = 5;
    e.core.gpr[12] = 5;
    run(&mut e, 3);
    assert_eq!(e.core.gpr[9], 0);
    assert_eq!(e.cache.ram.read(0x2000, 4).data, 0);
    run(&mut e, 1);
    assert!(e.cache.llbit);
    assert_eq!(e.cache.lladdr, 0x200);
    run(&mut e, 2);
    assert_eq!(e.core.gpr[11], 1);
    assert_eq!(e.cache.ram.read(0x2000, 4).data, 7);
    assert!(!e.cache.llbit);
    run(&mut e, 1);
    assert_eq!(e.core.gpr[12], 0);
    assert_eq!(e.cache.ram.read(0x2000, 4).data, 7);
}

#[test]
fn missing_translation_goes_to_the_refill_vector() {
    let mut e = machine(&[itype(0x23, 0, 9, 0x4000)]);
    assert_eq!(step(&mut e), exec_tlb_miss(EXC_TLBL));
    assert_eq!(e.core.pc, 0xFFFF_FFFF_8000_0000);
    assert_eq!(e.core.cp0_badvaddr, 0x4000);
    assert_eq!(e.core.cp0_entryhi, 0x4000);
    assert_eq!(e.core.cp0_context, (0x4000 >> 13) << 4);
}

#[test]
fn translation_is_used_once_it_is_there() {
    let mut e = machine(&[itype(0x23, 0, 9, 0x4010)]);
    e.tlb.write(
        3,
        TlbEntry {
            page_mask: 0,
            entry_hi: 0x4000,
            entry_lo0: (0x3 << 6) | (3 << 3) | 0x7,
            entry_lo1: 0,
        },
    );
    e.cache.ram.write(0x3010, 4, 0x1234_5678);
    run(&mut e, 1);
    assert_eq!(e.core.gpr[9], 0x1234_5678);
    assert!(e.core.nanotlb_read.valid);
}

#[test]
fn user_programs_do_not_reach_the_kernel() {
    let mut e = machine(&[]);
    e.core.cp0_status = 0x10;
    let s = step(&mut e);
    assert_eq!(s, exec_exception(4));
    assert_eq!(e.core.cp0_badvaddr, START);
}

#[test]
fn reserved_word_is_refused() {
    let mut e = machine(&[0x7C00_0000]);
    assert_eq!(step(&mut e), exec_exception(EXC_RI));
}

#[test]
fn interrupts_come_before_the_instruction() {
    let mut e = machine(&[itype(0x09, 0, 8, 1)]);
    e.core.cp0_status = STATUS_IE | 0xFF00;
    e.core.signal(Signal::Interrupt(2, true));
    assert_eq!(step(&mut e), exec_exception(EXC_INT));
    assert_eq!(e.core.gpr[8], 0);
    assert_eq!(e.core.cp0_epc, START);
}

#[test]
fn masked_interrupts_wait() {
    let mut e = machine(&[itype(0x09, 0, 8, 1)]);
    e.core.cp0_status = STATUS_IE;
    e.core.signal(Signal::Interrupt(2, true));
    run(&mut e, 1);
    assert_eq!(e.core.gpr[8], 1);
}

#[test]
fn floating_point_needs_its_coprocessor() {
    let mut e = machine(&[0x4622_1080]);
    assert_eq!(step(&mut e), exec_exception(EXC_CPU));
    assert_eq!((e.core.cp0_cause >> 28) & 3, 1);
}

#[test]
fn floating_point_sum_is_asked_for_and_written() {
    let mut e = machine(&[0x4622_1080]);
    e.core.cp0_status = STATUS_CU1 | STATUS_FR;
    e.core.fpr[2] = 1.5f64.to_bits();
    let (request, d): (_, DecodedInstr) = match e.step() {
        Step::Float(r, d) => (r, d),
        Step::Done(s) => panic!("done with {s}"),
    };
    assert_eq!(request.op, FloatOp::Add);
    assert!(request.double);
    assert_eq!(request.a, 1.5f64.to_bits());
    assert_eq!(request.b, 1.5f64.to_bits());
    let s = e.complete_float(&d, FloatReply { bits: 3.0f64.to_bits(), flags: 0 });
    assert_eq!(s, EXEC_COMPLETE);
    assert_eq!(e.core.fpr[2], 3.0f64.to_bits());
    assert_eq!(e.core.pc, START + 4);
}

#[test]
fn breakpoint_stops_before_the_instruction() {
    let mut e = machine(&[itype(0x09, 0, 8, 1)]);
    e.add_breakpoint(7, START, iris::breakpoints::BpType::Pc);
    assert_eq!(step(&mut e), EXEC_BREAKPOINT);
    assert_eq!(e.last_bp_hit, Some(7));
    assert_eq!(e.core.gpr[8], 0);
    e.skip_breakpoints = true;
    run(&mut e, 1);
    assert_eq!(e.core.gpr[8], 1);
}

#[test]
fn data_breakpoint_stops_before_the_access() {
    let mut e = machine(&[itype(0x0F, 0, 8, 0x8000), itype(0x2B, 8, 8, 0x2000)]);
    e.add_breakpoint(7, 0xFFFF_FFFF_8000_2000, iris::breakpoints::BpType::VirtWrite);
    run(&mut e, 1);
    assert_eq!(step(&mut e), EXEC_BREAKPOINT);
    assert_eq!(e.cache.ram.read(0x2000, 4).data, 0);
    assert_eq!(e.core.pc, START + 4);
}

#[test]
fn runs_stop_where_they_are_asked_to() {
    let mut e = machine(&[0, 0, 0, 0]);
    e.add_breakpoint(7, START + 8, iris::breakpoints::BpType::Pc);
    let p = e.run(100, true);
    assert_eq!(p.executed, 3);
    assert_eq!(p.last, Some(Step::Done(EXEC_BREAKPOINT)));
    let mut e = machine(&[0, 0, 0, 0]);
    let p = e.step_n_inline(4);
    assert_eq!(p.executed, 4);
    assert_eq!(p.last, None);
    assert_eq!(e.core.pc, START + 16);
    let (s, n) = e.step_one_inline_counting_instructions();
    assert_eq!((s, n), (Step::Done(EXEC_COMPLETE), 1));
}
