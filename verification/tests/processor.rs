use iris::breakpoints::BpType;
use iris::bus::BusDevice;
use iris::exec::Begun;
use iris::expr_parse::parse_cpu_arg;
use iris::fpu::Step;
use iris::instr::{
    decode_into, is_call_instruction, lockstep_classify, DecodedInstr, InstrHandler,
    LockstepClass, FLAG_IMM_IS_NEXT, FLAG_NOT_DECODED,
};
use iris::jit::{
    arena_is_full, CodeEntry, CompileOutcome, CompileRequest, Dispatch, JitAction,
};
use iris::lockstep::{lockstep_flush_if_grown, LockstepAccess, LockstepEnabled, Verdict};
use iris::machine::MipsExecutor;
use iris::parse::{parse_count, parse_dec, parse_hex};
use iris::ram::{DirectCache, Ram};
use iris::regs_text::{decode_cause, decode_status};
use iris::setup::CacheGeometry;
use iris::soft_tlb::SoftTlb;
use iris::status::{
    exec_exception, MipsCpuConfig, EXC_ADEL, EXC_ADES, EXEC_BREAKPOINT, EXEC_COMPLETE,
};
use iris::symbols::SymbolTable;
use iris::ultra64::{Board, Ultra64};

type Exec = MipsExecutor<SoftTlb, DirectCache, Ram>;

const START: u64 = 0xFFFF_FFFF_8000_1000;

fn machine(words: &[u32]) -> Exec {
    let mut ram = Ram::new(0, 0x10000);
    for (i, w) in words.iter().enumerate() {
        ram.write(0x1000 + 4 * i as u32, 4, *w as u64);
    }
    let geometry = CacheGeometry {
        ic_size: 16384,
        ic_line: 32,
        dc_size: 16384,
        dc_line: 32,
        l2_size: 0,
        l2_line: 0,
    };
    let mut e = MipsExecutor::new(
        Ram::new(0, 0x10000),
        SoftTlb::new(48),
        DirectCache::new(ram),
        &geometry,
        &MipsCpuConfig::indy(),
    );
    e.core.pc = START;
    e.core.cp0_status = 0;
    e
}

fn decoded(raw: u32) -> DecodedInstr {
    let mut d = DecodedInstr::default();
    d.raw = raw;
    decode_into(&mut d);
    d
}

fn joined(raw: u32, next: u32) -> DecodedInstr {
    let mut d = DecodedInstr::default();
    d.raw = raw;
    d.imm = next;
    d.flags = FLAG_NOT_DECODED | FLAG_IMM_IS_NEXT;
    decode_into(&mut d);
    d
}

/// Executes two instructions joined, and one after the other, and compares.
fn same_as_two(raw: u32, next: u32, handler: InstrHandler) {
    let d = joined(raw, next);
    assert_eq!(d.handler, handler);
    let mut one = machine(&[raw, next]);
    let mut two = machine(&[raw, next]);
    for e in [&mut one, &mut two] {
        e.core.gpr[4] = 0x8000_2000u32 as i32 as i64 as u64;
        e.core.gpr[5] = 0x10;
        e.core.gpr[9] = 0x8000_2000u32 as i32 as i64 as u64;
        e.cache.ram.write(0x2010, 8, 0x1122_3344_5566_7788);
        e.cache.ram.write(0x1FF0, 8, 0x99AA_BBCC_DDEE_FF00);
    }
    assert_eq!(one.exec_decoded(&d), Step::Done(EXEC_COMPLETE));
    assert_eq!(two.exec_decoded(&decoded(raw)), Step::Done(EXEC_COMPLETE));
    assert_eq!(two.exec_decoded(&decoded(next)), Step::Done(EXEC_COMPLETE));
    assert_eq!(one.core.gpr, two.core.gpr);
    assert_eq!(one.core.pc, two.core.pc);
    assert_eq!(one.core.in_delay_slot, two.core.in_delay_slot);
    assert_eq!(one.cache.ram.bytes, two.cache.ram.bytes);
}

#[test]
fn fused_accesses_are_two_instructions() {
    // addu t0,a0,a1; lw t1,0(t0)
    same_as_two(0x0085_4021, 0x8D09_0000, InstrHandler::AdduLs);
    // subu t0,a0,a1; lbu t1,1(t0)
    same_as_two(0x0085_4023, 0x9109_0001, InstrHandler::SubuLs);
    // addiu t0,a0,16; sw a1,4(t0)
    same_as_two(0x2488_0010, 0xAD05_0004, InstrHandler::AddiuLs);
    // A load into its own base register.
    same_as_two(0x2488_0010, 0x8D08_0004, InstrHandler::AddiuLs);
}

#[test]
fn fused_jumps_are_two_instructions() {
    same_as_two(0x0120_0008, 0, InstrHandler::JrNop);
    same_as_two(0x0C00_0440, 0, InstrHandler::JalNop);
    same_as_two(0x0800_0440, 0, InstrHandler::JNop);
    same_as_two(0x1000_0010, 0, InstrHandler::BeqNop);
    same_as_two(0x1085_0010, 0, InstrHandler::BeqNop);
    same_as_two(0x1485_0010, 0, InstrHandler::BneNop);
}

#[test]
fn fused_constants_are_two_instructions() {
    // lui t0,0x8765; ori t0,t0,0x4321
    same_as_two(0x3C08_8765, 0x3508_4321, InstrHandler::LuiImm32);
    // lui t0,0x8765; addiu t0,t0,-1
    same_as_two(0x3C08_8765, 0x2508_FFFF, InstrHandler::LuiSimm32);
}

#[test]
fn only_plain_pairs_are_fused() {
    // The load goes through another register.
    assert_eq!(joined(0x0085_4021, 0x8D29_0000).handler, InstrHandler::Addu);
    assert_eq!(joined(0x1085_0010, 1).handler, InstrHandler::Beq);
    assert_eq!(joined(0x3C08_8765, 0x3509_4321).handler, InstrHandler::Lui);
}

#[test]
fn unaligned_doubleword_is_assembled_and_taken_apart() {
    // ldl t1,3(a0); ldr t1,10(a0); sdl t1,0x15(a0); sdr t1,0x1C(a0)
    let mut e = machine(&[0x6889_0003, 0x6C89_000A, 0xB089_0015, 0xB489_001C]);
    e.core.gpr[4] = 0xFFFF_FFFF_8000_2000;
    e.cache.ram.write(0x2000, 8, 0x0001_0203_0405_0607);
    e.cache.ram.write(0x2008, 8, 0x0809_0A0B_0C0D_0E0F);
    for _ in 0..4 {
        assert_eq!(e.step(), Step::Done(EXEC_COMPLETE));
    }
    assert_eq!(e.core.gpr[9], 0x0304_0506_0708_090A);
    assert_eq!(e.cache.ram.read(0x2010, 8).data, 0x0000_0000_0003_0405);
    assert_eq!(e.cache.ram.read(0x2018, 8).data, 0x0607_0809_0A00_0000);
}

#[test]
fn misaligned_accesses_are_address_errors() {
    let mut e = machine(&[0x8C89_0002]);
    e.core.gpr[4] = 0xFFFF_FFFF_8000_2000;
    assert_eq!(e.step(), Step::Done(exec_exception(EXC_ADEL)));
    assert_eq!(e.core.cp0_badvaddr, 0xFFFF_FFFF_8000_2002);
    let mut e = machine(&[0xAC89_0001]);
    e.core.gpr[4] = 0xFFFF_FFFF_8000_2000;
    assert_eq!(e.step(), Step::Done(exec_exception(EXC_ADES)));
}

#[test]
fn the_debugger_leaves_no_trace() {
    let mut e = machine(&[]);
    assert_eq!(e.debug_read(0xFFFF_FFFF_8000_2001, 4), Err(exec_exception(EXC_ADEL)));
    assert_eq!(e.debug_read(0xFFFF_FFFF_8000_2000, 3), Err(exec_exception(EXC_ADEL)));
    assert_eq!(e.debug_write(0xFFFF_FFFF_8000_2000, 7, 4, 0), EXEC_COMPLETE);
    assert_eq!(e.debug_read(0xFFFF_FFFF_8000_2000, 4), Ok(7));
    assert_eq!(e.core.cp0_badvaddr, 0);
    assert!(!e.core.nanotlb_read.valid);
}

#[test]
fn uncached_accesses_go_to_the_bus() {
    let mut e = machine(&[0x8C89_0000]);
    e.core.gpr[4] = 0xFFFF_FFFF_A000_2000;
    e.sysad.write32(0x2000, 0x7788);
    e.cache.ram.write(0x2000, 4, 1);
    assert_eq!(e.step(), Step::Done(EXEC_COMPLETE));
    assert_eq!(e.core.gpr[9], 0x7788);
}

#[test]
fn time_driven_reads_are_recorded_and_replayed() {
    let mut e = machine(&[0x8C89_1000, 0x8C89_1000]);
    e.core.gpr[4] = 0xFFFF_FFFF_BFA0_0000;
    e.sysad = Ram::new(0x1FA0_0000, 0x10000);
    e.sysad.write32(0x1FA0_1000, 0x55);
    e.set_hw_read_fixup_recording(true);
    assert_eq!(e.step(), Step::Done(EXEC_COMPLETE));
    assert_eq!(e.core.gpr[9], 0x55);
    assert_eq!(e.tools.hw_read_fixup_recorded, vec![(0x1FA0_1000, 4, 0x55)]);
    e.set_hw_read_fixup_recording(false);
    e.set_hw_read_fixup_replay(Some(vec![(0x1FA0_1000, 4, 0x66)]));
    assert_eq!(e.step(), Step::Done(EXEC_COMPLETE));
    assert_eq!(e.core.gpr[9], 0x66);
}

#[test]
fn compiled_code_is_looked_for_after_jumps() {
    let mut c = machine(&[]).core;
    let cold = CodeEntry { published: false, valid: false, hot: false, scheduled: false };
    c.jit_trigger = false;
    assert_eq!(c.jit_gate(true, false, cold), JitAction::Interpret);
    c.jit_trigger = true;
    assert_eq!(c.jit_gate(false, false, cold), JitAction::Interpret);
    assert_eq!(c.jit_gate(true, false, cold), JitAction::Interpret);
    assert!(c.jit_trigger);
    let request = CompileRequest { offset: 0, compiled_for_fr1: false };
    assert_eq!(
        c.jit_gate(true, false, CodeEntry { hot: true, ..cold }),
        JitAction::Queue(request)
    );
    assert!(!c.jit_trigger);
    c.jit_trigger = true;
    assert_eq!(c.jit_gate(true, true, cold), JitAction::Compile(request));
    assert_eq!(
        c.jit_gate(true, false, CodeEntry { published: true, valid: true, ..cold }),
        JitAction::Run
    );
    assert!(c.track_page(3));
    assert!(c.jit_trigger);
    assert!(!c.track_page(3));
    // So is the first fetch from a page.
    let mut e = machine(&[0, 0]);
    assert_eq!(e.step(), Step::Done(EXEC_COMPLETE));
    assert_eq!((e.core.code_page, e.core.jit_trigger), (Some(1), true));
    e.core.jit_trigger = false;
    assert_eq!(e.step(), Step::Done(EXEC_COMPLETE));
    assert!(!e.core.jit_trigger);
    e.core.nanotlb_invalidate();
    assert_eq!(e.core.code_page, None);
}

#[test]
fn instructions_are_dispatched() {
    let mut e = machine(&[]);
    // ori t1,zero,3
    let d = decoded(0x3409_0003);
    let none = CodeEntry { published: false, valid: false, hot: true, scheduled: false };
    let request = CompileRequest { offset: 0, compiled_for_fr1: false };
    let done = Step::Done(EXEC_COMPLETE);
    // Without a trigger, or with dispatch off, the interpreter runs.
    assert_eq!(e.exec_dispatched(&d, true, true, none), Dispatch::Interpreted(done));
    assert_eq!((e.core.gpr[9], e.core.pc), (3, START + 4));
    e.core.pc = START;
    e.core.jit_trigger = true;
    assert_eq!(e.exec_dispatched(&d, false, true, none), Dispatch::Interpreted(done));
    assert!(e.core.jit_trigger);
    e.core.pc = START;
    assert_eq!(e.exec_dispatched(&d, true, false, none), Dispatch::Queued(request, done));
    assert!(!e.core.jit_trigger);
    e.core.pc = START;
    let good = CodeEntry { published: true, valid: true, ..none };
    assert_eq!(e.exec_dispatched(&d, true, true, good), Dispatch::Run);
    assert_eq!(e.core.pc, START);
    // What follows on an attempt to compile.
    e.core.jit_trigger = true;
    for c in [CompileOutcome::ArenaFull, CompileOutcome::OutOfMemory] {
        assert_eq!(e.exec_dispatched(&d, true, true, none), Dispatch::Compile(request));
        assert!(!e.core.jit_trigger);
        assert_eq!(e.exec_compiled(&d, c), Dispatch::Flush);
        assert!(e.core.jit_trigger);
    }
    assert_eq!(e.exec_compiled(&d, CompileOutcome::Over { valid: true }), Dispatch::Run);
    assert_eq!(e.core.pc, START);
    let over = CompileOutcome::Over { valid: false };
    assert_eq!(e.exec_compiled(&d, over), Dispatch::Interpreted(done));
    assert_eq!(e.core.pc, START + 4);
    assert!(arena_is_full(Some(101), 100));
    assert!(!arena_is_full(Some(100), 100));
    assert!(!arena_is_full(None, 0));
}

#[test]
fn a_step_is_its_parts() {
    let mut e = machine(&[0x3409_0003]);
    e.skip_breakpoints = true;
    e.add_breakpoint(1, START, BpType::Pc);
    let d = match e.begin_step() {
        Begun::Ready(d) => d,
        Begun::Ended(_) => panic!("no instruction"),
    };
    assert_eq!((d.raw, e.core.pc, e.core.cycles), (0x3409_0003, START, 1));
    assert!(e.skip_breakpoints);
    assert_eq!(e.exec_decoded(&d), Step::Done(EXEC_COMPLETE));
    e.end_step();
    assert!(!e.skip_breakpoints);
    e.core.pc = START;
    assert_eq!(e.begin_step(), Begun::Ended(EXEC_BREAKPOINT));
}

#[test]
fn new_machines_are_as_documented() {
    let e = machine(&[]);
    assert_eq!((e.core.hi, e.core.lo, e.core.cp0_cause), (0, 0, 0));
    let b = &e.bps.breakpoints[0];
    assert_eq!((b.id, b.addr, b.kind, b.enabled), (0, 0, BpType::Pc, false));
    assert!(b.condition.is_none());
    assert_eq!(Ultra64::new().board.regs, Board::new().regs);
}

#[test]
fn compiled_code_reads_and_writes() {
    let mut e = machine(&[]);
    assert_eq!(e.jit_write(2, 0xFFFF_FFFF_8000_2000, 0x1_2345), EXEC_COMPLETE);
    assert_eq!(e.jit_read(4, 0xFFFF_FFFF_8000_2000), (EXEC_COMPLETE, 0x2345_0000));
    assert_eq!(
        e.jit_read(4, 0xFFFF_FFFF_8000_2001),
        (exec_exception(EXC_ADEL), 0)
    );
    e.cache.ram.write(0x1000, 4, 0x2409_0003);
    assert_eq!(e.interp_dispatch_one(), Step::Done(EXEC_COMPLETE));
    assert_eq!(e.core.gpr[9], 3);
    assert_eq!(e.core.cycles, 0);
}

#[test]
fn engines_are_compared() {
    let mut e = machine(&[]);
    let d = decoded(0x3409_0003);
    let all = LockstepEnabled::default();
    assert_eq!(e.lockstep_check(&all, &d), Some(LockstepClass::Alu));
    let off = LockstepEnabled { alu: false, ..all };
    assert_eq!(e.lockstep_check(&off, &d), None);
    let mut good = e.core;
    good.gpr[9] = 3;
    good.pc = START + 4;
    let bad = e.core;
    let (s, v) = e.lockstep_check_alu(&d, Some(good)).unwrap();
    assert_eq!((s, v), (Step::Done(EXEC_COMPLETE), Verdict::Agreed));
    e.core.pc = START;
    e.core.gpr[9] = 0;
    let (_, v) = e.lockstep_check_alu(&d, Some(bad)).unwrap();
    assert_eq!(v, Verdict::Diverged);
    assert!(e.lockstep_check_alu(&d, None).is_none());
    // Accesses are compared with the one that the interpreter made.
    e.tools.lockstep_on = true;
    e.core.gpr[4] = 0xFFFF_FFFF_8000_2000;
    e.cache.ram.write(0x2000, 4, 0x77);
    assert_eq!(e.exec_decoded(&decoded(0x8C89_0000)), Step::Done(EXEC_COMPLETE));
    assert_eq!(e.lockstep_jit_read(4, 0xFFFF_FFFF_8000_2000), LockstepAccess::Value(0x77));
    assert_eq!(e.lockstep_jit_read(4, 0xFFFF_FFFF_8000_2004), LockstepAccess::Diverged);
}

#[test]
fn branches_are_compared_with_their_slot() {
    // beq zero,zero,+4; ori t1,zero,3
    let mut e = machine(&[0x1000_0004, 0x3409_0003]);
    let d = decoded(0x1000_0004);
    e.sysad.write(0x1004, 4, 0x8C89_0000);
    assert_eq!(e.lockstep_slot(0x1000), None);
    e.sysad.write(0x1004, 4, 0x3409_0003);
    assert_eq!(e.lockstep_slot(0x2_0000), None);
    assert_eq!(e.lockstep_slot(0x1000), Some(0x3409_0003));
    let mut good = e.core;
    good.gpr[9] = 3;
    good.pc = START + 20;
    let mut early = good;
    early.in_delay_slot = true;
    let (s, v) = e.lockstep_check_branch(0x1000, &d, Some(good)).unwrap();
    assert_eq!((s, v), (Step::Done(EXEC_COMPLETE), Verdict::Agreed));
    assert_eq!(e.core.pc, START + 20);
    e.core.pc = START;
    assert_eq!(e.lockstep_check_branch(0x1000, &d, Some(early)).unwrap().1, Verdict::Diverged);
    // A branch that is joined with its slot leaves none to be run.
    e.core.pc = START;
    let fused = joined(0x1000_0000, 0);
    let mut next = e.core;
    next.pc = START + 4;
    assert_eq!(e.lockstep_check_branch(0x1000, &fused, Some(next)).unwrap().1, Verdict::Agreed);
    // Nothing is run where the slot cannot be compared.
    e.core.pc = START;
    assert!(e.lockstep_check_branch(0x2_0000, &d, Some(good)).is_none());
    assert!(e.lockstep_check_branch(0x1000, &d, None).is_none());
    e.sysad.write(0x1004, 4, 0x8C89_0000);
    assert!(e.lockstep_check_branch(0x1000, &d, Some(good)).is_none());
    e.core.pc = START + 0xFFC;
    assert!(e.lockstep_check_branch(0x1000, &d, Some(good)).is_none());
    assert_eq!(e.core.pc, START + 0xFFC);
    // An instruction in a slot is not compared.
    e.core.in_delay_slot = true;
    assert!(e.lockstep_check_branch(0x1000, &d, Some(good)).is_none());
    assert!(e.lockstep_check_load_store(&d).is_none());
}

#[test]
fn stores_are_compared_without_a_second_store() {
    let mut e = machine(&[]);
    e.tools.lockstep_on = true;
    e.core.gpr[4] = 0xFFFF_FFFF_8000_2000;
    e.core.gpr[5] = 0x55;
    // sw a1,0(a0)
    let (s, run) = e.lockstep_check_load_store(&decoded(0xAC85_0000)).unwrap();
    assert_eq!(s, Step::Done(EXEC_COMPLETE));
    let run = run.unwrap();
    // The registers are those from before the store.
    assert_eq!(e.core.pc, START);
    let at = 0xFFFF_FFFF_8000_2000;
    assert_eq!(e.lockstep_jit_write(4, at, 0x55), LockstepAccess::Value(0x55));
    assert_eq!(e.lockstep_jit_write(4, at, 0x56), LockstepAccess::Diverged);
    assert_eq!(e.lockstep_jit_write(4, at + 4, 0x55), LockstepAccess::Diverged);
    assert_eq!(e.cache.ram.read(0x2000, 4).data, 0x55);
    assert_eq!(e.lockstep_finish_load_store(&run, false), Verdict::Unchecked);
    assert_eq!(e.core.pc, START + 4);
    assert_eq!(e.lockstep_finish_load_store(&run, true), Verdict::Agreed);
    e.core.gpr[5] = 1;
    assert_eq!(e.lockstep_finish_load_store(&run, true), Verdict::Diverged);
    assert_eq!(e.core.gpr[5], 0x55);
    // sw a1,2(a0)
    let (s, run) = e.lockstep_check_load_store(&decoded(0xAC85_0002)).unwrap();
    assert_eq!(s, Step::Done(exec_exception(EXC_ADES)));
    assert!(run.is_none());
    assert!(lockstep_flush_if_grown(4096) && !lockstep_flush_if_grown(4095));
}

#[test]
fn float_instructions_are_compared_when_they_are_done() {
    let mut e = machine(&[]);
    // add.d
    let d = decoded(0x4622_1080);
    let still = e.core;
    let (_, v) = e.lockstep_check_fpu(&d, Some(still)).unwrap();
    assert_eq!(v, Verdict::Unchecked);
    e.core.pc = START;
    e.core.cp0_status = 0x2000_0000;
    let mut moved = e.core;
    moved.pc = START + 4;
    let (s, v) = e.lockstep_check_fpu(&d, Some(moved)).unwrap();
    assert!(matches!(s, Step::Float(_, _)));
    assert_eq!(v, Verdict::Pending);
}

#[test]
fn instructions_are_classified() {
    assert_eq!(lockstep_classify(0x3409_0003), LockstepClass::Alu);
    // What may be fused cannot be compared by itself.
    assert_eq!(lockstep_classify(0x2409_0003), LockstepClass::Other);
    assert_eq!(lockstep_classify(0x8C89_0000), LockstepClass::LoadStore);
    assert_eq!(lockstep_classify(0x1000_0001), LockstepClass::Branch);
    assert_eq!(lockstep_classify(0x4622_1080), LockstepClass::Fpu);
    assert_eq!(lockstep_classify(0x0000_000C), LockstepClass::Other);
    assert!(is_call_instruction(0x0C00_0440));
    assert!(is_call_instruction(0x0120_F809));
    assert!(!is_call_instruction(0x0800_0440));
}

#[test]
fn expressions_are_evaluated_from_left_to_right() {
    let mut e = machine(&[]);
    let mut t = SymbolTable::new();
    assert!(t.insert_line("80001000 T main"));
    assert!(t.insert_line("0x00000010 low"));
    assert!(!t.insert_line("80001000 T again"));
    assert!(!t.insert_line("nothing"));
    assert_eq!(t.symbols[0].addr, 0x10);
    e.core.gpr[4] = 6;
    let value = |s: &str| parse_cpu_arg(s, &e.core, &t);
    assert_eq!(value("10-2-3"), Ok(5));
    assert_eq!(value("a0+0x10"), Ok(0x16));
    assert_eq!(value("main + 4"), Ok(0x8000_1004));
    assert_eq!(value("0xF0 & 0x3C | 1"), Ok(0x31));
    assert_eq!(value("a0 == 6"), Ok(1));
    assert_eq!(value("a0 != 6"), Ok(0));
    assert_eq!(value("7/2"), Ok(3));
    assert_eq!(value("1 < 2"), Ok(1));
    assert_eq!(value("pc"), Ok(START));
    for s in ["", "1 +", "+", "1 2", "1/0", "zzz", "1 = 2"] {
        assert_eq!(value(s), Err(format!("Invalid expression: {s}")));
    }
}

#[test]
fn numbers_in_text() {
    assert_eq!(parse_dec("+42"), Some(42));
    assert_eq!(parse_dec("18446744073709551615"), Some(u64::MAX));
    assert_eq!(parse_dec("18446744073709551616"), None);
    assert_eq!(parse_dec(""), None);
    assert_eq!(parse_dec("4x"), None);
    assert_eq!(parse_count("7"), Some(7));
    assert_eq!(parse_hex("0x0xfF"), Some(255));
    assert_eq!(parse_hex("ff"), Some(255));
    assert_eq!(parse_hex("0x"), None);
}

#[test]
fn status_and_cause_in_words() {
    assert!(decode_status(0x1).contains("IE"));
    assert!(decode_cause(8 << 2).ends_with("Exc:08(SYS)"));
    assert!(decode_cause(16 << 2).ends_with("Exc:10(?)"));
}
