use iris::cpu_core::MipsCore;
use iris::trace::{CoreState, TraceReader, TraceRecord, TraceWriter, TRACE_RECORD_SIZE};

fn sample_state(seed: u64) -> CoreState {
    let mut gpr = [0u64; 32];
    for (i, g) in gpr.iter_mut().enumerate() { *g = seed.wrapping_add(i as u64); }
    CoreState {
        gpr, pc: seed, hi: seed + 1, lo: seed + 2,
        cp0_epc: seed + 3, cp0_badvaddr: seed + 4,
        cp0_cause: seed as u32, cp0_status: seed as u32,
        fpr: [seed; 32], fpu_fcsr: seed as u32,
        fpu_fccr: seed as u32, fpu_fexr: seed as u32, fpu_fenr: seed as u32,
        in_delay_slot: seed % 2 == 0,
    }
}

#[test]
fn round_trips_records_in_order() {
    let mut w = TraceWriter::create();
    let records: Vec<TraceRecord> = (0..1000u64)
        .map(|i| TraceRecord::new(0x8000_0000 + i * 4, i as u32, sample_state(i)))
        .collect();
    for r in &records { w.push(r); }
    assert_eq!(w.count(), 1000);
    let bytes = w.flush();

    let mut r = TraceReader::open(bytes);
    for expected in &records {
        let got = r.next().expect("record must be present");
        assert_eq!(got, *expected);
    }
    assert!(r.next().is_none(), "reader must report clean EOF after the last record");
}

#[test]
fn truncated_final_record_reads_as_clean_eof() {
    let mut w = TraceWriter::create();
    w.push(&TraceRecord::new(0x8000_0000, 0, sample_state(1)));
    let mut bytes = w.flush();
    // Cut off mid-record, as a capture that was killed leaves it.
    bytes.truncate(bytes.len() - 10);

    let mut r = TraceReader::open(bytes);
    assert!(r.next().is_none(), "a partial trailing record must read as EOF, not an error");
}

#[test]
fn record_layout() {
    let mut w = TraceWriter::create();
    let mut s = sample_state(0);
    s.in_delay_slot = true;
    s.cp0_cause = 0x1122_3344;
    s.cp0_status = 0x5566_7788;
    s.fpu_fcsr = 0x0102_0304;
    w.push(&TraceRecord::new(0x1122_3344_5566_7788, 0xAABB_CCDD, s));
    let bytes = w.flush();
    assert_eq!(bytes.len(), TRACE_RECORD_SIZE);
    assert_eq!(bytes[0..8], [0x88, 0x77, 0x66, 0x55, 0x44, 0x33, 0x22, 0x11]);
    assert_eq!(bytes[8..16], [0xDD, 0xCC, 0xBB, 0xAA, 0, 0, 0, 0]);
    // Register 3 holds 3.
    assert_eq!(bytes[16 + 24], 3);
    assert_eq!(bytes[312..320], [0x44, 0x33, 0x22, 0x11, 0x88, 0x77, 0x66, 0x55]);
    assert_eq!(bytes[576..580], [4, 3, 2, 1]);
    assert_eq!(bytes[592], 1);
}

#[test]
fn skipping_records() {
    let mut w = TraceWriter::create();
    for i in 0..5u64 {
        w.push(&TraceRecord::new(i, i as u32, sample_state(i)));
    }
    let bytes = w.flush();
    assert!(w.flush().is_empty());
    assert_eq!(w.count(), 5);
    let mut r = TraceReader::open(bytes);
    r.skip_records(3);
    assert_eq!(r.next().unwrap().pc, 3);
    r.skip_records(1);
    assert!(r.next().is_none());
    r.skip_records(u64::MAX);
    assert!(r.next().is_none());
}

#[test]
fn captured_records_have_one_pc() {
    let mut core = MipsCore::new();
    core.pc = 0x1000;
    core.hi = 7;
    let r = TraceRecord::capture(0x2000, 0x0000_0000, &core);
    assert_eq!(r.pc, 0x2000);
    assert_eq!(r.state.pc, 0x2000);
    assert_eq!(r.state, CoreState { pc: 0x2000, ..CoreState::capture(&core) });
    assert_eq!(r.state.hi, 7);
}
