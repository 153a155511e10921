use iris::breakpoints::{BpType, BreakpointTable};
use iris::cpu_core::MipsCore;
use iris::digest::CpuStateDigest;
use iris::gdb::{GdbSession, GdbTurn, RegId, StopReason, WatchKind};
use iris::instr::DecodedInstr;
use iris::idle::IdleProfiler;
use iris::lockstep::LockstepSnapshot;
use iris::machine::MipsExecutor;
use iris::ram::{DirectCache, Ram};
use iris::saved_state::{hex_u32, hex_u64, toml_bool, toml_u32, toml_u64};
use iris::setup::CacheGeometry;
use iris::soft_tlb::SoftTlb;
use iris::exp::parse_reg_name;
use iris::status::{align_mask_for, full_mask_for, MipsCpuConfig, EXEC_COMPLETE};
use iris::bus::{BusDevice, Tlb, TlbEntry, BUS_ERR, BUS_OK};

type Exec = MipsExecutor<SoftTlb, DirectCache, Ram>;

const START: u64 = 0xFFFF_FFFF_8000_1000;

fn machine(words: &[u32]) -> Exec {
    let mut ram = Ram::new(0, 0x10000);
    for (i, w) in words.iter().enumerate() {
        ram.write(0x1000 + 4 * i as u32, 4, *w as u64);
    }
    let geometry = CacheGeometry {
        ic_size: 16384,
        ic_line: 32,
        dc_size: 16384,
        dc_line: 32,
        l2_size: 0,
        l2_line: 0,
    };
    let mut e = MipsExecutor::new(
        Ram::new(0, 0x10000),
        SoftTlb::new(48),
        DirectCache::new(ram),
        &geometry,
        &MipsCpuConfig::indy(),
    );
    e.core.pc = START;
    e.core.cp0_status = 0;
    e
}

#[test]
fn saved_state_loads_back() {
    let mut e = machine(&[]);
    e.core.gpr[5] = 0x1234_5678_9ABC_DEF0;
    e.core.fpr[7] = 42;
    e.core.cp0_status = 0x3400_FF01;
    e.core.cp0_epc = 0xFFFF_FFFF_8000_0010;
    e.core.cp0_count = 77;
    e.core.in_delay_slot = true;
    e.core.delay_slot_target = 0x4444;
    e.cache.llbit = true;
    e.cache.lladdr = 0x55;
    e.tlb.write(3, TlbEntry { page_mask: 1, entry_hi: 2, entry_lo0: 3, entry_lo1: 4 });
    let v = e.save_state();
    assert_eq!(v.get("pc").unwrap().as_str(), Some("0xffffffff80001000"));
    assert_eq!(v.get("gpr").unwrap().as_array().unwrap().len(), 32);
    assert_eq!(
        v.get("cp0").unwrap().get("cp0_status").unwrap().as_str(),
        Some("0x3400ff01")
    );
    assert_eq!(v.get("in_delay_slot").unwrap().as_bool(), Some(true));
    let mut f = machine(&[]);
    assert_eq!(f.load_state(&v), Ok(()));
    assert_eq!(f.core.gpr, e.core.gpr);
    assert_eq!(f.core.fpr, e.core.fpr);
    assert_eq!(f.core.cp0_status, 0x3400_FF01);
    assert_eq!(f.core.cp0_epc, e.core.cp0_epc);
    assert_eq!(f.core.cp0_count, 77);
    assert!(f.core.in_delay_slot);
    assert_eq!(f.core.delay_slot_target, 0x4444);
    assert!(f.cache.llbit);
    assert_eq!(f.cache.lladdr, 0x55);
    assert_eq!(f.tlb.read(3), e.tlb.read(3));
    assert_eq!(f.save_state(), v);
}

#[test]
fn loading_keeps_what_is_not_there() {
    let mut e = machine(&[]);
    e.core.hi = 9;
    let mut cp0 = toml::map::Map::new();
    // Fixed-point counts have the count in their upper half.
    cp0.insert("cp0_count".into(), toml::Value::String("0x0000004d00000000".into()));
    cp0.insert("cp0_cause".into(), toml::Value::String("nothing".into()));
    let mut t = toml::map::Map::new();
    t.insert("pc".into(), toml::Value::String("0x10".into()));
    t.insert("cp0".into(), toml::Value::Table(cp0));
    t.insert("in_delay_slot".into(), toml::Value::Integer(1));
    assert_eq!(e.load_state(&toml::Value::Table(t)), Ok(()));
    assert_eq!(e.core.pc, 0x10);
    assert_eq!(e.core.hi, 9);
    assert_eq!(e.core.cp0_count, 0x4d);
    assert_eq!(e.core.cp0_cause, 0);
    assert!(!e.core.in_delay_slot);
}

#[test]
fn loading_a_wrong_tlb_fails_before_the_caches() {
    let mut e = machine(&[]);
    let mut f = machine(&[]);
    f.tlb = SoftTlb::new(16);
    f.cache.llbit = true;
    let v = f.save_state();
    assert_eq!(
        e.load_state(&v),
        Err("tlb: saved state has another number of entries".to_string())
    );
    assert!(!e.cache.llbit);
    let mut t = toml::map::Map::new();
    t.insert("tlb".into(), toml::Value::Boolean(true));
    assert_eq!(
        e.load_state(&toml::Value::Table(t)),
        Err("tlb: saved state is not a list".to_string())
    );
}

#[test]
fn numbers_in_saved_states() {
    assert_eq!(hex_u64(255).as_str(), Some("0x00000000000000ff"));
    assert_eq!(hex_u32(255).as_str(), Some("0x000000ff"));
    assert_eq!(toml_u64(&hex_u64(u64::MAX)), Some(u64::MAX));
    assert_eq!(toml_u32(&hex_u64(u64::MAX)), None);
    assert_eq!(toml_u32(&hex_u32(7)), Some(7));
    assert_eq!(toml_u64(&toml::Value::Integer(3)), None);
    assert_eq!(toml_bool(&toml::Value::Boolean(true)), Some(true));
    assert_eq!(toml_bool(&hex_u32(1)), None);
}

#[test]
fn registers_as_a_remote_debugger_sees_them() {
    let mut c: MipsCore = machine(&[]).core;
    c.write_reg(RegId::Gpr(4), 7);
    c.write_reg(RegId::Gpr(0), 7);
    c.write_reg(RegId::Status, 0x1_0000_00FF);
    c.write_reg(RegId::Badvaddr, 5);
    c.write_reg(RegId::Fpr(31), 8);
    assert_eq!(c.read_reg(RegId::Gpr(4)), Some(7));
    assert_eq!(c.read_reg(RegId::Gpr(0)), Some(0));
    assert_eq!(c.read_reg(RegId::Gpr(32)), None);
    assert_eq!(c.read_reg(RegId::Status), Some(0xFF));
    assert_eq!(c.read_reg(RegId::Badvaddr), Some(0));
    assert_eq!(c.read_reg(RegId::Fpr(31)), Some(8));
    assert_eq!(c.read_reg(RegId::Other), None);
    let mut g = c.read_regs();
    assert_eq!(g.r[4], 7);
    g.r[0] = 1;
    g.r[5] = 9;
    g.pc = 0x100;
    c.write_regs(&g);
    assert_eq!(c.gpr[0], 0);
    assert_eq!(c.gpr[5], 9);
    assert_eq!(c.pc, 0x100);
}

#[test]
fn remote_memory_reads_back() {
    let mut e = machine(&[]);
    let at = 0xFFFF_FFFF_8000_2001;
    e.gdb_write_mem(at, &vec![1, 2, 3, 4, 5, 6, 7, 8, 9]);
    assert_eq!(e.gdb_read_mem(at, 9), vec![1, 2, 3, 4, 5, 6, 7, 8, 9]);
    assert_eq!(e.gdb_read_mem(at - 1, 2), vec![0, 1]);
    assert_eq!(e.cache.ram.read(0x2000, 4).data, 0x0001_0203);
    assert_eq!(e.gdb_read_mem(0xFFFF_FFFF_9000_0000, 3), vec![0, 0, 0]);
}

#[test]
fn remote_step_takes_the_delay_slot_with_it() {
    let mut e = machine(&[0x1000_0003, 0x2408_0001, 0]);
    assert_eq!(
        e.gdb_step_one(),
        GdbTurn::Stopped { reason: StopReason::DoneStep, noted: true }
    );
    assert_eq!(e.core.pc, START + 16);
    assert_eq!(e.core.gpr[8], 1);
    e.add_breakpoint(1, START + 16, BpType::Pc);
    assert_eq!(
        e.gdb_step_one(),
        GdbTurn::Stopped { reason: StopReason::SwBreakpoint, noted: false }
    );
    assert_eq!(e.gdb_stop_reason(), StopReason::SwBreakpoint);
    e.add_breakpoint(2, 0, BpType::PhysWrite);
    e.last_bp_hit = Some(2);
    assert_eq!(
        e.gdb_stop_reason(),
        StopReason::Watchpoint { addr: START + 16, kind: WatchKind::Write }
    );
    e.last_bp_hit = None;
    assert_eq!(e.gdb_stop_reason(), StopReason::DoneStep);
}

#[test]
fn remote_breakpoints_have_their_own_identifiers() {
    let mut s = GdbSession::new();
    let mut t = BreakpointTable::new();
    assert_eq!(s.last_stop, StopReason::Interrupted);
    assert_eq!(s.add_bp(&mut t, 0x100, BpType::Pc), 10000);
    assert_eq!(s.add_bp(&mut t, 0x200, BpType::VirtRead), 10001);
    assert_eq!(t.kind_of(10001), Some(BpType::VirtRead));
    assert!(t.remove_breakpoint(10000));
    assert!(!t.remove_breakpoint(10000));
    s.note(StopReason::DoneStep);
    assert_eq!(s.last_stop, StopReason::DoneStep);
}

#[test]
fn digests_show_differences() {
    let mut e = machine(&[0x2408_0001]);
    let a: CpuStateDigest = e.state_digest();
    assert!(a.diff(&a).is_empty());
    e.step();
    let b: CpuStateDigest = e.state_digest();
    let d = a.diff(&b);
    assert!(!d.is_empty());
    e.core.restore_state_digest(&a);
    assert_eq!(e.core.pc, START);
    assert_eq!(e.core.gpr[8], 0);
}

#[test]
fn snapshots_bring_the_processor_back() {
    let mut e = machine(&[]);
    e.core.gpr[3] = 33;
    e.core.fpr[4] = 44;
    e.cache.llbit = true;
    e.cache.lladdr = 5;
    let s = e.create_snapshot();
    assert!(s.memory_writes.is_empty());
    e.core.gpr[3] = 0;
    e.core.fpr[4] = 0;
    e.core.pc = 0;
    e.cache.llbit = false;
    e.restore_snapshot(&s);
    assert_eq!((e.core.gpr[3], e.core.fpr[4], e.core.pc), (33, 44, START));
    assert!(e.cache.llbit);
    // Committed snapshots go to the undo buffer while it is on.
    e.commit_undo_snapshot();
    assert_eq!(e.tools.undo_buffer.count, 0);
    e.tools.undo_buffer.enable();
    e.commit_undo_snapshot();
    assert_eq!(e.tools.undo_buffer.count, 1);
}

#[test]
fn masks_of_accesses() {
    assert_eq!((align_mask_for::<1>(), align_mask_for::<8>()), (0, 7));
    assert_eq!(full_mask_for::<1>(), 0xFF);
    assert_eq!(full_mask_for::<4>(), 0xFFFF_FFFF);
    assert_eq!(full_mask_for::<8>(), u64::MAX);
    assert_eq!(parse_reg_name("t0"), Some(8));
    assert_eq!(parse_reg_name("nothing"), None);
}

#[test]
fn differences_can_be_swapped() {
    let mut e = machine(&[]);
    let a = e.state_digest();
    e.core.gpr[1] = 5;
    e.core.gpr[11] = 6;
    e.core.cp0_cause = 9;
    e.core.count_hz += 1;
    e.core.in_delay_slot = true;
    let b = e.state_digest();
    let there = a.diff(&b);
    let back = b.diff(&a);
    assert_eq!(there.len(), 5);
    for (x, y) in there.iter().zip(back.iter()) {
        assert_eq!((&x.0, &x.1, &x.2), (&y.0, &y.2, &y.1));
        assert_ne!(x.1, x.2);
    }
    assert_eq!(there[0].0, "gpr[1]");
    assert_eq!(there[1].0, "gpr[11]");
    assert_eq!(there[4].0, "in_delay_slot");
}

#[test]
fn samples_add_up() {
    for (stride, total) in [(0, 10), (1, 10), (3, 3)] {
        let mut p = IdleProfiler::new();
        p.stride = stride;
        for k in 0..10u64 {
            p.sample(0x100 + 4 * (k % 2), k % 4 == 1);
        }
        assert_eq!(p.total, total);
        assert_eq!(p.hist.values().map(|s| s.count).sum::<u64>(), total);
        assert!(p.hist.values().all(|s| s.ie_count <= s.count));
        p.reset();
        assert_eq!((p.total, p.stride, p.hist.len()), (0, stride, 0));
    }
}

#[test]
fn lockstep_snapshots_compare_registers() {
    let mut c = machine(&[]).core;
    let a = LockstepSnapshot::capture(&c);
    assert!(!a.mismatches(&LockstepSnapshot::capture(&c), true, true));
    c.fpr[1] = 1;
    let b = LockstepSnapshot::capture(&c);
    assert!(a.mismatches(&b, true, true));
    assert!(!a.mismatches(&b, false, true));
}

#[test]
fn power_on_keeps_the_debugger() {
    let mut e = machine(&[0x2408_0001]);
    e.add_breakpoint(5, 0x100, BpType::Pc);
    e.step();
    e.power_on();
    assert_eq!(e.core.pc, 0xFFFF_FFFF_BFC0_0000);
    assert_eq!(e.bps.breakpoints.len(), 2);
    assert!(e.tools.traceback.get_last(5).is_empty());
}

#[test]
fn memory_reads_back_in_every_size() {
    let mut r = Ram::new(0x1000, 32);
    assert_eq!(r.write64(0x1008, 0x0102_0304_0506_0708), BUS_OK);
    assert_eq!(r.read8(0x1009).data, 2);
    assert_eq!(r.read16(0x100A).data, 0x0304);
    assert_eq!(r.read32(0x100C).data, 0x0506_0708);
    assert_eq!(r.read64(0x1008).data, 0x0102_0304_0506_0708);
    assert_eq!(r.write64_masked(0x1008, u64::MAX, 0xFF00), BUS_OK);
    assert_eq!(r.read64(0x1008).data, 0x0102_0304_0506_FF08);
    assert_eq!(r.read32(0x101E).status, BUS_ERR);
    assert_eq!(r.write8(0xFFF, 1), BUS_ERR);
}

#[test]
fn instructions_can_be_executed_by_their_word() {
    let mut e = machine(&[]);
    assert!(matches!(e.exec(0x2408_0007), iris::fpu::Step::Done(EXEC_COMPLETE)));
    assert_eq!(e.core.gpr[8], 7);
    let mut d = DecodedInstr::default();
    d.raw = 0x2409_0008;
    iris::instr::decode_into(&mut d);
    assert!(matches!(e.exec_decoded(&d), iris::fpu::Step::Done(EXEC_COMPLETE)));
    assert_eq!(e.core.gpr[9], 8);
}
