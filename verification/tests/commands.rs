use iris::breakpoints::BpType;
use iris::command::{Action, End, JitQuery, ListLine, Reply};
use iris::commands::register_commands;
use iris::debug_loop::{After, DebugRun, Stop, Turn};
use iris::fpu::Step;
use iris::machine::MipsExecutor;
use iris::monitor::{mips_log, Monitor, MIPS_LOG_INSN, MIPS_LOG_TLB};
use iris::ram::{DirectCache, Ram};
use iris::setup::CacheGeometry;
use iris::soft_tlb::SoftTlb;
use iris::status::{exec_exception, exec_tlb_miss, MipsCpuConfig, EXEC_BREAKPOINT, EXEC_COMPLETE};
use iris::trace::{TraceReader, TRACE_RECORD_SIZE};
use iris::undo::UndoBuffer;

type Exec = MipsExecutor<SoftTlb, DirectCache, Ram>;

const START: u64 = 0xFFFF_FFFF_8000_1000;

fn machine(words: &[u32]) -> Exec {
    let mut ram = Ram::new(0, 0x10000);
    for (i, w) in words.iter().enumerate() {
        ram.write(0x1000 + 4 * i as u32, 4, *w as u64);
    }
    let geometry = CacheGeometry {
        ic_size: 16384,
        ic_line: 32,
        dc_size: 16384,
        dc_line: 32,
        l2_size: 0,
        l2_line: 0,
    };
    let mut e = MipsExecutor::new(
        Ram::new(0, 0x10000),
        SoftTlb::new(48),
        DirectCache::new(ram),
        &geometry,
        &MipsCpuConfig::indy(),
    );
    e.core.pc = START;
    e.core.cp0_status = 0;
    e.tools.symbols.append(START, "start".to_string());
    e.tools.symbols.append(START + 0x100, "data".to_string());
    e
}

fn command(e: &mut Exec, m: &mut Monitor, line: &str) -> Reply {
    let mut words: Vec<String> = line.split_whitespace().map(|w| w.to_string()).collect();
    let cmd = words.remove(0);
    e.execute_command(m, &cmd, &words, false, 3)
}

fn said(e: &mut Exec, line: &str) -> String {
    let r = command(e, &mut Monitor::new(), line);
    assert!(matches!(r.end, End::Done));
    r.text
}

fn refused(e: &mut Exec, line: &str) -> String {
    match command(e, &mut Monitor::new(), line).end {
        End::Failed(s) => s,
        _ => panic!("{line} was not refused"),
    }
}

fn left(e: &mut Exec, line: &str) -> Action {
    match command(e, &mut Monitor::new(), line).end {
        End::Left(a) => a,
        _ => panic!("{line} leaves nothing to do"),
    }
}

#[test]
fn breakpoint_commands() {
    let mut e = machine(&[]);
    assert_eq!(
        said(&mut e, "bp add start"),
        "Breakpoint 1 added at ffffffff80001000 (Pc)\n"
    );
    assert_eq!(
        said(&mut e, "b data+4 w if a0 == 0x10"),
        "Breakpoint 2 added at ffffffff80001104 (VirtWrite) with condition\n"
    );
    assert_eq!(
        said(&mut e, "bl"),
        "Breakpoints:\n  1: ffffffff80001000 Pc (enabled)\n  2: ffffffff80001104 VirtWrite (enabled)\n"
    );
    assert_eq!(said(&mut e, "bd 1"), "Breakpoint 1 disabled\n");
    assert_eq!(said(&mut e, "cpu bp enable 1"), "Breakpoint 1 enabled\n");
    assert_eq!(said(&mut e, "bp del 1"), "Breakpoint 1 deleted\n");
    assert_eq!(refused(&mut e, "bb 1"), "Breakpoint 1 not found");
    assert_eq!(refused(&mut e, "be x"), "Invalid ID");
    assert_eq!(refused(&mut e, "bp"), "Usage: bp <add|list|del|enable|disable> ...");
    assert_eq!(refused(&mut e, "b"), "Usage: bp add <addr> [type]");
    assert_eq!(refused(&mut e, "b if 1"), "Usage: bp add <addr> [type] [if <expr>]");
    assert_eq!(
        refused(&mut e, "b 0x10 q"),
        "Invalid breakpoint type. Options: pc, r, w, f, pr, pw, pf"
    );
    assert_eq!(refused(&mut e, "b nowhere"), "Invalid expression: nowhere");
    assert_eq!(refused(&mut e, "bp turn"), "Unknown bp subcommand");
    assert_eq!(e.bps.mem_bp_count, 1);
    assert_eq!(e.bps.pc_bp_count, 0);
}

#[test]
fn conditional_breakpoints_wait_for_their_condition() {
    let mut e = machine(&[0, 0]);
    said(&mut e, "b start if a0 == 0x10");
    assert_eq!(e.step(), Step::Done(EXEC_COMPLETE));
    e.core.pc = START;
    e.core.gpr[4] = 0x10;
    assert_eq!(e.step(), Step::Done(EXEC_BREAKPOINT));
}

#[test]
fn memory_commands() {
    let mut e = machine(&[]);
    e.cache.ram.write(0x1100, 8, 0x4865_6C6C_6F21_0000);
    assert_eq!(
        said(&mut e, "mem data 2"),
        "ffffffff80001100: 48656c6c\nffffffff80001104: 6f210000\n"
    );
    assert_eq!(said(&mut e, "m 0x90000000"), "0000000090000000: Error 134217756\n");
    assert_eq!(said(&mut e, "ms data"), "ffffffff80001100: \"Hello!\"\n");
    assert_eq!(said(&mut e, "ms data 2"), "ffffffff80001100: \"He\"\n");
    assert_eq!(
        said(&mut e, "stack data 1"),
        "ffffffff80001100: 48656c6c6f210000\n"
    );
    assert_eq!(said(&mut e, "mw data 4f d"), "Wrote 4f to ffffffff80001100\n");
    assert_eq!(e.cache.ram.read(0x1100, 8).data, 0x4f);
    assert_eq!(
        said(&mut e, "mw 0x90000000 1"),
        "Error writing to 0000000090000000: 134217756\n"
    );
    assert_eq!(refused(&mut e, "mw data"), "Usage: mw <addr> <val> [size: b|h|w|d]");
    assert_eq!(refused(&mut e, "mw data zz"), "Invalid value");
    assert_eq!(refused(&mut e, "mw data 1 q"), "Invalid size. Use b, h, w, or d");
    assert_eq!(refused(&mut e, "mem"), "Usage: mem <addr> [count]");
    assert_eq!(refused(&mut e, "ms"), "Usage: ms <addr> [max_len]");
}

#[test]
fn bytes_that_are_no_text_are_shown_with_marks() {
    let mut e = machine(&[]);
    e.cache.ram.write(0x1100, 4, 0x41FF_4200);
    assert_eq!(said(&mut e, "ms data"), "ffffffff80001100: \"A\u{FFFD}B\"\n");
}

#[test]
fn register_commands_work() {
    let mut e = machine(&[]);
    assert_eq!(said(&mut e, "setreg a0 0x20"), "a0 = 0000000000000020\n");
    assert_eq!(
        said(&mut e, "regs a0+1 bogus"),
        "a0+1: 0000000000000021 (33)\nInvalid expression: bogus\n"
    );
    assert_eq!(
        said(&mut e, "r data"),
        "data: ffffffff80001100 (18446744071562072320) <data>\n"
    );
    assert!(said(&mut e, "regs").starts_with("PC: ffffffff80001000\nHI: "));
    assert_eq!(said(&mut e, "jump data"), "PC set to ffffffff80001100\n");
    assert_eq!(e.core.pc, START + 0x100);
    assert_eq!(refused(&mut e, "setreg q 1"), "Unknown register: q");
    assert_eq!(refused(&mut e, "setreg a0"), "Usage: setreg <reg> <value>");
    assert_eq!(refused(&mut e, "jump"), "Usage: jump <addr>");
    assert_eq!(said(&mut e, "sym data+8"), "ffffffff80001108 = data + 0x8\n");
    assert_eq!(said(&mut e, "sym 0"), "0000000000000000 = ???\n");
    assert_eq!(said(&mut e, "ll"), "llbit:  clear\nlladdr: 00000000  (phys 0000000000)\n");
    assert_eq!(
        said(&mut e, "t data"),
        "Translated { phys_addr: 0x00001100, cache_attr: Cacheable }\n"
    );
    assert_eq!(said(&mut e, "t 0x1000"), "Exception(0x18000008)\n");
    assert_eq!(
        said(&mut e, "ip7"),
        "IP7 set pending (delivered on next executed instruction, mask permitting)\n"
    );
    assert_eq!(e.core.interrupts, 1 << 15);
}

#[test]
fn zero_divides_nothing() {
    let mut e = machine(&[]);
    assert_eq!(refused(&mut e, "jump 4/0"), "Invalid expression: 4/0");
}

#[test]
fn frequencies_and_floats_are_left_to_the_caller() {
    let mut e = machine(&[]);
    let mut m = Monitor::new();
    let r = command(&mut e, &mut m, "status");
    assert_eq!(r.text, "stopped pc=ffffffff80001000 <start>\n  count_hz=33000000 (");
    match r.end {
        End::Left(Action::Frequency { hz, rest }) => {
            assert_eq!(hz, 33_000_000);
            assert_eq!(
                rest,
                " MHz)  count=0x00000000 compare=0x00000000\n  compare_delta_slow=0 hw-counts  compare_delta_fast=0 hw-counts\n"
            );
        }
        _ => panic!("no frequency"),
    }
    e.core.fpr[3] = 7;
    match left(&mut e, "cop1") {
        Action::FloatRegisters { fpr, rest } => {
            assert_eq!(fpr[3], 7);
            assert!(rest.starts_with("Control Registers:\n  FIR:  "));
        }
        _ => panic!("no registers"),
    }
    let r = command(&mut e, &mut m, "cop0");
    assert!(r.text.contains("\n  12 Status  : 0000000000000000 "));
    assert!(r.text.contains("\n   9 Count   : 0000000000000000\n"));
    assert!(r.text.ends_with("  IP7 timer: count_hz=33000000 ("));
    assert!(matches!(r.end, End::Left(Action::Frequency { hz: 33_000_000, rest }) if rest == " MHz)  fired=3\n    slow_delta=0 hw-counts  fast_delta=0 hw-counts\n"));
}

#[test]
fn listings_are_left_to_the_caller() {
    let mut e = machine(&[0x2408_0001, 0]);
    match left(&mut e, "dis start 2") {
        Action::Listing { lines, path } => {
            assert!(path.is_none());
            assert!(matches!(lines[0], ListLine::Instr { pc: START, instr: 0x2408_0001 }));
            assert_eq!(lines.len(), 2);
        }
        _ => panic!("no listing"),
    }
    match left(&mut e, "dis 0x1000") {
        Action::Listing { lines, .. } => {
            assert!(matches!(&lines[0], ListLine::Text(s) if s == "0000000000001000: Could not fetch"))
        }
        _ => panic!("no listing"),
    }
    e.step();
    match left(&mut e, "dt file /x 5") {
        Action::Listing { lines, path } => {
            assert_eq!(path.as_deref(), Some("/x"));
            assert!(matches!(&lines[0], ListLine::Text(s) if s == "Execution Traceback (last 1 instructions):"));
            assert!(matches!(lines[1], ListLine::Instr { pc: START, instr: 0x2408_0001 }));
        }
        _ => panic!("no listing"),
    }
}

#[test]
fn runs_are_left_to_the_caller() {
    let mut e = machine(&[0x0C00_0440, 0]);
    assert!(matches!(
        left(&mut e, "run block data"),
        Action::Run { count: None, wait: true, no_interrupts: false, announce: Some(_), shown: None }
    ));
    assert_eq!(e.bps.breakpoints[0].addr, START + 0x100);
    assert!(e.bps.breakpoints[0].enabled);
    assert!(matches!(left(&mut e, "s 5"), Action::Run { count: Some(5), wait: true, .. }));
    assert!(matches!(left(&mut e, "si"), Action::Run { count: Some(1), no_interrupts: true, .. }));
    assert!(matches!(left(&mut e, "cpu si"), Action::Run { no_interrupts: true, .. }));
    assert!(matches!(left(&mut e, "step 0x80001100"), Action::Run { count: None, .. }));
    match left(&mut e, "n") {
        Action::Run { count, shown, .. } => {
            assert_eq!(count, None);
            assert_eq!(shown, Some((START, 0x0C00_0440)));
        }
        _ => panic!("no run"),
    }
    assert_eq!(e.bps.breakpoints[0].addr, START + 8);
    let r = command(&mut e, &mut Monitor::new(), "next 3");
    assert_eq!(
        r.text,
        "Warning: 'next' with count > 1 is not fully supported, executing once.\n"
    );
    e.core.gpr[31] = 0x1234;
    assert!(matches!(left(&mut e, "fin"), Action::Run { wait: true, .. }));
    assert_eq!(e.bps.breakpoints[0].addr, 0x1234);
}

#[test]
fn undo_commands() {
    let mut e = machine(&[0x2408_0001, 0x2408_0002]);
    assert_eq!(refused(&mut e, "undo"), "Cannot undo 1 steps (only 0 available)");
    assert_eq!(said(&mut e, "undo on"), "CPU undo buffer enabled\n");
    let mut run = DebugRun::new(Some(2), false);
    assert!(matches!(e.debug_turn(&mut run, true), Turn::Stepped(EXEC_COMPLETE)));
    assert!(matches!(e.debug_turn(&mut run, true), Turn::Stepped(EXEC_COMPLETE)));
    assert!(matches!(e.debug_turn(&mut run, true), Turn::Counted));
    assert_eq!(e.core.gpr[8], 2);
    assert_eq!(said(&mut e, "u"), "Undid 1 instruction(s), PC now at ffffffff80001004\n");
    assert_eq!(e.core.gpr[8], 1);
    assert_eq!(refused(&mut e, "undo 2"), "Cannot undo 2 steps (only 1 available)");
    assert_eq!(refused(&mut e, "undo 0"), "Failed to retrieve undo snapshot");
    assert_eq!(said(&mut e, "undo 1"), "Undid 1 instruction(s), PC now at ffffffff80001000\n");
    assert_eq!(e.core.gpr[8], 0);
    assert_eq!(refused(&mut e, "undo 1"), "Cannot undo 1 steps (only 0 available)");
    assert_eq!(said(&mut e, "undo clear"), "CPU undo buffer cleared\n");
    assert_eq!(
        said(&mut e, "undo resize 20000"),
        "CPU undo buffer capacity: 1048576 -> 1048576\n"
    );
    e.tools.undo_buffer =
        UndoBuffer { enabled: true, snapshots: vec![None; 4], head: 0, count: 0 };
    assert_eq!(said(&mut e, "undo resize 8"), "CPU undo buffer capacity: 4 -> 8\n");
    assert_eq!(refused(&mut e, "undo resize"), "Usage: undo resize <capacity>");
    assert_eq!(said(&mut e, "undo off"), "CPU undo buffer disabled\n");
}

/// A machine whose memory is main memory, which starts at 0x08000000, with a program
/// that was run with the undo buffer on.
fn recorded(program: &[u32], before: impl FnOnce(&mut Exec)) -> Exec {
    let mut e = machine(&[]);
    e.cache.ram.base = 0x0800_0000;
    for (i, w) in program.iter().enumerate() {
        e.cache.ram.write(0x0800_1000 + 4 * i as u32, 4, *w as u64);
    }
    e.core.pc = 0xFFFF_FFFF_8800_1000;
    e.core.gpr[8] = 0xFFFF_FFFF_8800_0000;
    e.core.gpr[9] = 0x55;
    e.core.gpr[10] = 0x0123_4567_89AB_CDEF;
    e.cache.ram.write(0x0800_0010, 8, 0x1111_2222_3333_4444);
    before(&mut e);
    e.tools.undo_buffer.enable();
    let mut run = DebugRun::new(None, false);
    for _ in program {
        assert!(matches!(e.debug_turn(&mut run, true), Turn::Stepped(EXEC_COMPLETE)));
    }
    e
}

#[test]
fn undo_takes_back_a_store() {
    // sw t1,16(t0)
    let mut e = recorded(&[0xAD09_0010], |_| {});
    assert_eq!(e.cache.ram.read(0x0800_0010, 4).data, 0x55);
    assert!(e.undo(1));
    assert_eq!(e.cache.ram.read(0x0800_0010, 8).data, 0x1111_2222_3333_4444);
    assert_eq!(e.core.pc, 0xFFFF_FFFF_8800_1000);
}

#[test]
fn undo_takes_back_several_stores() {
    // sw t1,16(t0); nop; sb t1,17(t0); sd t2,24(t0)
    let mut e = recorded(&[0xAD09_0010, 0, 0xA109_0011, 0xFD0A_0018], |_| {});
    assert_eq!(e.cache.ram.read(0x0800_0010, 4).data, 0x0055_0055);
    assert_eq!(e.cache.ram.read(0x0800_0018, 8).data, 0x0123_4567_89AB_CDEF);
    assert_eq!(said(&mut e, "undo 2"), "Undid 2 instruction(s), PC now at ffffffff88001008\n");
    assert_eq!(e.cache.ram.read(0x0800_0010, 4).data, 0x55);
    assert_eq!(e.cache.ram.read(0x0800_0018, 8).data, 0);
    assert_eq!(said(&mut e, "undo 2"), "Undid 2 instruction(s), PC now at ffffffff88001000\n");
    assert_eq!(e.cache.ram.read(0x0800_0010, 8).data, 0x1111_2222_3333_4444);
    assert_eq!(refused(&mut e, "undo 1"), "Cannot undo 1 steps (only 0 available)");

    let mut e = recorded(&[0xAD09_0010, 0, 0xA109_0011, 0xFD0A_0018], |_| {});
    assert_eq!(said(&mut e, "undo 4"), "Undid 4 instruction(s), PC now at ffffffff88001000\n");
    assert_eq!(e.cache.ram.read(0x0800_0010, 8).data, 0x1111_2222_3333_4444);
    assert_eq!(e.cache.ram.read(0x0800_0018, 8).data, 0);
}

#[test]
fn undo_takes_back_partial_stores() {
    // swl t2,17(t0); swr t2,22(t0); sdl t2,19(t0); sdr t2,20(t0)
    for (w, after) in [
        (0xA90A_0011, 0x1189_ABCD_3333_4444u64),
        (0xB90A_0016, 0x1111_2222_ABCD_EF44),
        (0xB10A_0013, 0x1111_2201_2345_6789),
        (0xB50A_0014, 0x6789_ABCD_EF33_4444),
    ] {
        let mut e = recorded(&[w], |_| {});
        assert_eq!(e.cache.ram.read(0x0800_0010, 8).data, after);
        assert!(e.undo(1));
        assert_eq!(e.cache.ram.read(0x0800_0010, 8).data, 0x1111_2222_3333_4444);
    }
}

#[test]
fn undo_is_not_misled_by_watched_reads() {
    let mut e = recorded(&[0xAD09_0010], |e| {
        e.add_breakpoint(7, 0xFFFF_FFFF_8800_0010, BpType::VirtRead);
    });
    assert_eq!(e.last_bp_hit, None);
    assert!(e.undo(1));
    assert_eq!(e.cache.ram.read(0x0800_0010, 8).data, 0x1111_2222_3333_4444);
}

#[test]
fn breakpoints_are_on_words() {
    let mut e = machine(&[]);
    e.add_breakpoint(1, 0x1FBB_0010, BpType::PhysRead);
    for addr in [0x1FBB_0010, 0x1FBB_0013, 0x9FBB_0010, 0xBFBB_0010] {
        e.last_bp_hit = None;
        assert!(e.check_breakpoint(BpType::PhysRead, addr));
        assert_eq!(e.last_bp_hit, Some(1));
    }
    e.last_bp_hit = None;
    assert!(!e.check_breakpoint(BpType::PhysRead, 0x1FBB_0014));
    assert!(!e.check_breakpoint(BpType::PhysRead, 0x1FBB_000C));
    assert!(!e.check_breakpoint(BpType::PhysWrite, 0x1FBB_0010));
    assert_eq!(e.last_bp_hit, None);
}

#[test]
fn debug_loop_passes_the_first_breakpoint() {
    let mut e = machine(&[0x2408_0001, 0x2408_0002, 0]);
    e.add_breakpoint(3, START, BpType::Pc);
    e.add_breakpoint(4, START + 4, BpType::Pc);
    let mut run = DebugRun::new(None, false);
    let status = match e.debug_turn(&mut run, true) {
        Turn::Stepped(s) => s,
        _ => panic!("no step"),
    };
    assert_eq!(status, EXEC_COMPLETE);
    assert_eq!(e.debug_after(&mut run, status, 0), After::Continue);
    let status = match e.debug_turn(&mut run, true) {
        Turn::Stepped(s) => s,
        _ => panic!("no step"),
    };
    assert_eq!(status, EXEC_BREAKPOINT);
    assert_eq!(
        e.debug_after(&mut run, status, 0),
        After::Stop(Stop::Breakpoint(Some(4)))
    );
    assert_eq!(
        Stop::Breakpoint(Some(4)).message(e.core.pc).unwrap(),
        "PC=ffffffff80001004: Breakpoint 4 hit"
    );
    assert!(Stop::Breakpoint(Some(0)).message(0).is_none());
    assert_eq!(e.debug_turn(&mut run, false), Turn::Interrupted);
    let next = e.debug_finish();
    assert_eq!(next, Some(0x2408_0002));
    assert_eq!(
        e.next_text(next, "li t0,2"),
        "Next: ffffffff80001004 <start+0x4>: 24080002 li t0,2"
    );
    assert_eq!(e.next_text(None, ""), "Next: ffffffff80001004 (Fetch failed)");
    let shown = e.debug_show(&DebugRun::new(Some(1), false), true, true, "li t0,1");
    assert_eq!(shown.console.unwrap(), "ffffffff80001000 <start>: 24080001 li t0,1");
    assert_eq!(shown.log.unwrap(), "Exec: ffffffff80001000 <start>: 24080001 li t0,1");
    assert_eq!(shown.file.unwrap(), "ffffffff80001000 <start>: 24080001 li t0,1");
}

#[test]
fn exceptions_stop_runs_as_the_mask_says() {
    let mut e = machine(&[]);
    let mut m = Monitor::new();
    assert_eq!(
        command(&mut e, &mut m, "exception tlb on").text,
        "Exception mask set to 0000000e\n"
    );
    assert_eq!(command(&mut e, &mut m, "ex 8 on").text, "Exception mask set to 0000010e\n");
    let mut run = DebugRun::new(None, false);
    assert_eq!(
        e.debug_after(&mut run, exec_exception(8), m.exception_mask),
        After::Stop(Stop::Exception(8))
    );
    assert_eq!(
        e.debug_after(&mut run, exec_tlb_miss(2), m.exception_mask),
        After::Stop(Stop::TlbMiss(2))
    );
    assert_eq!(e.debug_after(&mut run, exec_exception(9), m.exception_mask), After::Continue);
    assert_eq!(command(&mut e, &mut m, "exc sys off").text, "Exception mask set to 0000000e\n");
    assert_eq!(command(&mut e, &mut m, "exc vce on").text, "Exception mask set to 8000400e\n");
    assert_eq!(command(&mut e, &mut m, "exc all off").text, "Exception mask set to 00000000\n");
    assert_eq!(refused(&mut e, "ex 32 on"), "Invalid exception code");
    assert_eq!(refused(&mut e, "ex foo on"), "Unknown exception class or code");
    assert_eq!(refused(&mut e, "ex tlb"), "Usage: exception <class|code|all> <on|off>");
    assert_eq!(
        Stop::Exception(8).message(START).unwrap(),
        "PC=ffffffff80001000: Exception code=8"
    );
    assert_eq!(Stop::Retry.message(START).unwrap(), "PC=ffffffff80001000: Retry (Bus Busy)");
}

#[test]
fn long_runs_yield() {
    let e = machine(&[]);
    let mut run = DebugRun::new(None, false);
    run.since_yield = 499_999;
    assert_eq!(e.debug_after(&mut run, EXEC_COMPLETE, 0), After::Yield);
    assert_eq!(run.since_yield, 0);
}

#[test]
fn settings_commands() {
    let mut e = machine(&[]);
    let mut m = Monitor::new();
    let r = command(&mut e, &mut m, "debug on");
    assert_eq!(r.text, "CPU debug enabled (console output)\n");
    assert!(matches!(r.end, End::Left(Action::CloseTraceFile)));
    assert!(m.debug);
    assert!(matches!(command(&mut e, &mut m, "debug file /x").end, End::Left(Action::DebugFile(p)) if p == "/x"));
    m.trace_to_file();
    assert!(!m.debug);
    assert_eq!(refused(&mut e, "debug file"), "Usage: debug file <filename>");
    assert_eq!(refused(&mut e, "debug"), "Usage: debug <on|off|file> [filename]");
    assert_eq!(command(&mut e, &mut m, "j2 dispatch").text, "j2 dispatch: on\n");
    assert_eq!(
        command(&mut e, &mut m, "j2 dispatch off").text,
        "j2 dispatch: off (real JIT dispatch gate skipped entirely, interpreter-only)\n"
    );
    assert!(!m.jit.set_jitv2_dispatch_enabled(true));
    assert_eq!(command(&mut e, &mut m, "j2 min-calls").text, "j2 min-calls: 0\n");
    assert_eq!(command(&mut e, &mut m, "j2 min-calls 9").text, "j2 min-calls: 9\n");
    assert_eq!(command(&mut e, &mut m, "j2 lockstep fpu off").text, "j2 lockstep fpu: off\n");
    assert_eq!(
        command(&mut e, &mut m, "j2 lockstep").text,
        "j2 lockstep: alu=on branch=on loadstore=on fpu=off\n"
    );
    assert_eq!(command(&mut e, &mut m, "j2 inline").text, "j2 inline compile: on\n");
    assert!(matches!(command(&mut e, &mut m, "j2 inline off").end, End::Left(Action::InlineCompile(false))));
    assert_eq!(
        command(&mut e, &mut m, "j2 opt none").text,
        "j2 opt: none (takes effect on the next flush/reset)\n"
    );
    assert!(matches!(command(&mut e, &mut m, "j2 flush").end, End::Left(Action::Jit(JitQuery::Flush))));
    assert_eq!(refused(&mut e, "j2 min-instrs x"), "Usage: j2 min-instrs [N]");
    assert!(mips_log(true, MIPS_LOG_INSN | MIPS_LOG_TLB, MIPS_LOG_TLB));
    assert!(!mips_log(true, MIPS_LOG_INSN, MIPS_LOG_TLB));
    assert!(!mips_log(false, MIPS_LOG_INSN, MIPS_LOG_INSN));
}

#[test]
fn help_lists_every_command() {
    let mut e = machine(&[]);
    let all = register_commands();
    assert_eq!(all.len(), 54);
    assert_eq!(all[0].0, "cpu");
    let text = said(&mut e, "help");
    assert!(text.starts_with("CPU Commands:\n  cpu          - CPU commands: start, stop,"));
    assert!(text.contains("\n  bt           - Print backtrace: bt [frames]\n"));
    assert_eq!(text.lines().count(), 55);
    assert_eq!(refused(&mut e, "frobnicate"), "Unknown CPU command: frobnicate");
    assert_eq!(refused(&mut e, "cpu"), "Usage: cpu <command> [args...]");
    assert_eq!(refused(&mut e, "loadsym"), "Usage: loadsym <file>");
    assert!(matches!(left(&mut e, "loadsym unix.nm"), Action::LoadSymbols(p) if p == "unix.nm"));
    assert!(matches!(left(&mut e, "start"), Action::Start));
    assert!(matches!(left(&mut e, "stop"), Action::Stop));
}

#[test]
fn caches_and_tlb_are_looked_into() {
    let mut e = machine(&[]);
    assert_eq!(said(&mut e, "l1d dump 3"), "l1d: no such line\n");
    assert_eq!(
        said(&mut e, "l2 check data"),
        "Virtual ffffffff80001100 -> Physical 0000000000001100\nl2: not cached\n"
    );
    assert_eq!(
        said(&mut e, "l1i probe 0xC0000000"),
        "Virtual 00000000c0000000 -> Translation Failed\nl1i: not cached\n"
    );
    assert_eq!(refused(&mut e, "l1i"), "Usage: l1i <check|dump> <addr|index>");
    assert_eq!(refused(&mut e, "l1i wash"), "Unknown operation. Use check or dump");
    assert_eq!(said(&mut e, "tlb dump"), "");
    assert_eq!(said(&mut e, "tlb trans 0x4000 1"), "no entry\n");
    assert_eq!(refused(&mut e, "tlb trans"), "Usage: tlb trans <vaddr> [asid]");
    assert_eq!(refused(&mut e, "tlb trans zz"), "Invalid address");
    assert_eq!(refused(&mut e, "tlb trans 0 100"), "Invalid ASID");
    assert_eq!(refused(&mut e, "tlb wash"), "Unknown TLB subcommand");
    assert_eq!(refused(&mut e, "tlb"), "Usage: tlb <dump|trans|debug> ...");
}

#[test]
fn kernel_names_are_shown() {
    let mut e = machine(&[]);
    assert_eq!(
        refused(&mut e, "proc"),
        "symbol 'utsname' not found — run `loadsym <unix.nm>` first"
    );
    e.tools.symbols.append(0xFFFF_FFFF_8000_4000, "utsname".to_string());
    let r = command(&mut e, &mut Monitor::new(), "proc info");
    assert!(matches!(r.end, End::Failed(s) if s == "symbol 'nproc' not found"));
    e.tools.symbols.append(0xFFFF_FFFF_8000_5000, "nproc".to_string());
    e.tools.symbols.append(0xFFFF_FFFF_8000_5004, "proc".to_string());
    for (k, name) in ["IRIX", "indy", "5.3", "\"x\"", "IP22"].iter().enumerate() {
        for (i, b) in name.bytes().enumerate() {
            e.cache.ram.write(0x4000 + 257 * k as u32 + i as u32, 1, b as u64);
        }
    }
    e.cache.ram.write(0x5000, 4, 12);
    e.cache.ram.write(0x5004, 4, 0x8000_6000);
    assert_eq!(
        said(&mut e, "proc"),
        "utsname @ 0xffffffff80004000:\n  sysname  = \"IRIX\"\n  nodename = \"indy\"\n  release  = \"5.3\"\n  version  = \"\\\"x\\\"\"\n  machine  = \"IP22\"\nnproc    @ 0xffffffff80005000 = 12\nproc[]   @ 0xffffffff80005004 -> 0x80006000\n"
    );
    assert_eq!(refused(&mut e, "proc x"), "Usage: proc info");
}

#[test]
fn traces_are_recorded_and_stopped() {
    let mut e = machine(&[0x2408_0001, 0]);
    assert_eq!(said(&mut e, "trace status"), "recording: false\n");
    assert!(matches!(left(&mut e, "trace start /x"), Action::TraceStart(p) if p == "/x"));
    e.trace_start();
    assert!(e.trace_active());
    assert_eq!(said(&mut e, "trace status"), "recording: true\n");
    e.step();
    e.step();
    match left(&mut e, "trace stop") {
        Action::TraceStop { records, bytes } => {
            assert_eq!(records, 2);
            assert_eq!(bytes.len(), 2 * TRACE_RECORD_SIZE);
            let mut r = TraceReader::open(bytes);
            assert_eq!(r.next().unwrap().pc, START);
        }
        _ => panic!("no trace"),
    }
    assert_eq!(refused(&mut e, "trace start"), "Usage: trace start <path>");
    assert_eq!(refused(&mut e, "trace"), "Usage: trace <start|stop|status>");
}

#[test]
fn idle_profiler_finds_the_loop() {
    // A loop of three instructions, with interrupts enabled.
    let mut e = machine(&[0, 0x1000_FFFE, 0]);
    e.core.cp0_status = 1;
    assert_eq!(
        said(&mut e, "idleprof on"),
        "idleprof: armed (lock-free, histogram reset). Let the guest idle, then `stop; idleprof report`.\n"
    );
    for _ in 0..30 {
        assert_eq!(e.step(), Step::Done(EXEC_COMPLETE));
    }
    assert_eq!(said(&mut e, "idleprof off"), "idleprof: disarmed.\n");
    match left(&mut e, "idleprof report 2") {
        Action::Idle { report: Some(r), top } => {
            assert_eq!(top, 2);
            assert_eq!(r.total, 30);
            assert_eq!(r.distinct, 3);
            assert_eq!(r.rows.len(), 2);
            assert_eq!(r.rows[0].pc, START);
            assert_eq!(r.rows[0].sample.count, 10);
            assert_eq!(r.rows[0].symbol, " <start>");
            assert_eq!(r.rows[1].instr, Some(0x1000_FFFE));
            // Two of the three addresses hold at least half of the samples.
            let (w, symbol) = r.idle_loop.unwrap();
            assert_eq!((w.lo, w.hi, w.covered), (START, START + 4, 20));
            assert_eq!(symbol, " <start>");
        }
        _ => panic!("no report"),
    }
    assert_eq!(refused(&mut e, "idleprof x"), "Usage: idleprof <on | off | report [count]>");
    let mut fresh = machine(&[]);
    assert!(matches!(left(&mut fresh, "idleprof"), Action::Idle { report: None, top: 32 }));
}

#[test]
fn backtrace_follows_saved_return_addresses() {
    // start: addiu sp,sp,-32; sw ra,28(sp); nop ...
    let mut e = machine(&[0x27BD_FFE0, 0xAFBF_001C, 0, 0]);
    e.core.pc = START + 8;
    e.core.gpr[29] = 0xFFFF_FFFF_8000_3000;
    e.core.gpr[31] = 0x99;
    e.cache.ram.write(0x301C, 4, 0x8000_1104);
    let text = said(&mut e, "bt");
    assert_eq!(
        text,
        "Backtrace:\n#00 pc=0xffffffff80001008 sp=0xffffffff80003000 start + 0x8\n#01 pc=0x0000000080001104 sp=0xffffffff80003020 0x0000000080001104\n\n"
    );
    assert_eq!(e.get_return_address(), Some(0x8000_1104));
    assert_eq!(
        said(&mut e, "bt 1"),
        "Backtrace:\n#00 pc=0xffffffff80001008 sp=0xffffffff80003000 start + 0x8\n\n"
    );
}
