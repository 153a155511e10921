use iris::bus::BusDevice;
use iris::command::End;
use iris::rex3_simd::{
    try_fastclear_block, try_src_block_rgb, try_src_span_rgb, Rex3Context, Screen,
};
use iris::symbols::{format_pc_symbol, SymbolTable};
use iris::thread_affinity::{core_mask, pinned_message, PerfConfig, PerfRole, ThreadAffinity};
use iris::ultra64::{HostMessage, N64Message, Ultra64};
use iris::ultra64_cmd::{
    listing_length, load_reply, show_dump, show_instruction, show_word, show_written,
    SharedHeader, UltraStep,
};

const SLOT: u32 = 0x1F40_0000;
const PORT: u32 = 0x1F48_0000;
const WINDOW: u32 = 0x1F50_0000;

#[test]
fn window_shows_the_selected_page() {
    let mut u = Ultra64::new();
    u.write32(SLOT + 0xA00, 0x0030_0000);
    assert_eq!(u.read32(SLOT + 0x600).data, 0x0030_0000);
    assert_eq!(u.read32(SLOT + 0xA00).data, 0x0030_0000);
    u.write32(WINDOW + 8, 0x0102_0304);
    assert_eq!(u.ramrom[0x30_0008..0x30_000C], [1, 2, 3, 4]);
    assert_eq!(u.read32(WINDOW + 8).data, 0x0102_0304);
    assert_eq!(u.read8(WINDOW + 9).data, 2);
    assert_eq!(u.read16(WINDOW + 10).data, 0x0304);
    u.write8(WINDOW + 11, 0xFF);
    u.write16(WINDOW + 8, 0xAABB);
    assert_eq!(u.read32(WINDOW + 8).data, 0xAABB_03FF);
    u.write64(WINDOW + 16, 0x1122_3344_5566_7788);
    assert_eq!(u.read64(WINDOW + 16).data, 0x1122_3344_5566_7788);
    u.write64_masked(WINDOW + 16, 0, 0xFF);
    assert_eq!(u.read64(WINDOW + 16).data, 0x1122_3344_5566_7700);
    u.write32(SLOT + 0x600, 0);
    assert_eq!(u.read32(WINDOW + 8).data, 0);
}

#[test]
fn words_past_the_end_are_lost() {
    let mut u = Ultra64::new();
    u.write32(SLOT + 0x600, 0x00F0_0000);
    u.write32(WINDOW + 0xF_FFFE, 0x1111_1111);
    assert_eq!(u.read32(WINDOW + 0xF_FFFE).data, 0);
    assert_eq!(u.read32(WINDOW + 0xF_FFFC).data, 0);
}

#[test]
fn console_interrupts_are_acknowledged() {
    let mut u = Ultra64::new();
    u.board.receive(HostMessage::GioInt(0x1F));
    assert!(u.board.regs.line);
    assert!(u.board.regs.gio_int_pending);
    assert_eq!(u.read32(SLOT + 0xC00).data, 0x1F);
    assert!(!u.board.regs.line);
    assert!(!u.board.regs.gio_int_pending);
    u.board.receive(HostMessage::GioSync(0x12));
    assert_eq!(u.read32(SLOT + 0xE00).data, 0x12);
    u.board.receive(HostMessage::Unknown);
    assert!(!u.board.regs.line);
}

#[test]
fn resets_and_interrupts_reach_the_console() {
    let mut u = Ultra64::new();
    u.write32(SLOT + 0x400, 2);
    u.write32(SLOT + 0x400, 2);
    u.write32(SLOT + 0x400, 4);
    u.write32(SLOT + 0x800, 0xFF);
    assert_eq!(u.read32(SLOT + 0x800).data, 0x3F);
    assert!(u.board.regs.signal);
    assert_eq!(
        u.board.take_messages(),
        vec![
            N64Message::ResetAssert,
            N64Message::ResetDeassert,
            N64Message::NmiAssert,
            N64Message::CartInt(0x3F),
        ]
    );
    assert!(!u.board.regs.signal);
    assert!(u.board.take_messages().is_empty());
}

#[test]
fn debuggers_shake_hands() {
    let mut u = Ultra64::new();
    assert_eq!(u.read32(SLOT).data, 0x15);
    u.board.receive(HostMessage::RdbWrite(0xABCD));
    assert_eq!(u.read32(SLOT).data, 0x8000_0015);
    u.write32(PORT + 8, 0);
    assert_eq!(u.read32(SLOT).data, 0x15);
    assert_eq!(u.read32(PORT).data, 0xABCD);
    u.board.receive(HostMessage::RdbRead);
    assert_eq!(u.read32(SLOT).data, 0x4000_0015);
    u.write32(PORT + 0xC, 0);
    assert_eq!(u.read32(SLOT).data, 0x15);
    u.write32(PORT, 0x77);
    assert_eq!(
        u.board.take_messages(),
        vec![N64Message::RdbAck(1), N64Message::RdbAck(2), N64Message::RdbWrite(0x77)]
    );
    assert_eq!(u.read32(PORT + 4).data, 0);
    assert_eq!(u.read32(SLOT + 0x123).data, 0);
}

fn args(line: &str) -> Vec<String> {
    line.split_whitespace().map(|w| w.to_string()).collect()
}

const HEADER: SharedHeader =
    SharedHeader { magic: 0x4E36_344D, version: 1, h2n_head: 1, h2n_tail: 2, n2h_head: 3, n2h_tail: 4 };

fn ultra(u: &mut Ultra64, line: &str) -> UltraStep {
    u.board.execute_command(&args(line), true, &HEADER)
}

fn reply(u: &mut Ultra64, line: &str) -> Result<String, String> {
    match ultra(u, line) {
        UltraStep::Reply(r) => match r.end {
            End::Failed(s) => Err(s),
            _ => Ok(r.text),
        },
        _ => panic!("{line} is not answered at once"),
    }
}

#[test]
fn board_commands() {
    let mut u = Ultra64::new();
    let text = reply(&mut u, "status").unwrap();
    assert!(text.starts_with("=== Ultra64 Status ===\n  running         : true\n  dram_page       : 0  (window 1f500000–1f5fffff)\n"));
    assert!(text.contains("  gio_int_payload : 0x00\n"));
    assert!(text.ends_with("  magic           : 4e36344d\n  version         : 1\n  h2n_ring head/tail: 1/2\n  n2h_ring head/tail: 3/4\n"));
    assert_eq!(reply(&mut u, "send 0x7f"), Ok("CART_INT sent: payload=0x3f\n".to_string()));
    assert_eq!(reply(&mut u, "send"), Err("usage: ultra send <hex6>".to_string()));
    assert_eq!(reply(&mut u, "reset"), Ok("N64 reset asserted\n".to_string()));
    assert_eq!(
        u.board.take_messages(),
        vec![N64Message::CartInt(0x3F), N64Message::ResetAssert]
    );
    assert!(matches!(ultra(&mut u, "r 1000007"), UltraStep::ReadWord(4)));
    assert!(matches!(ultra(&mut u, "w 8 abc"), UltraStep::WriteWord(8, 0xABC)));
    assert!(matches!(ultra(&mut u, "dump 5 5"), UltraStep::Dump { off: 4, size: 8 }));
    assert_eq!(
        reply(&mut u, "dump fffffc 8"),
        Err("ultra dump: range 0xfffffc+0x8 exceeds RAMROM (0x1000000)".to_string())
    );
    assert!(matches!(ultra(&mut u, "disasm 6"), UltraStep::Disassemble { off: 4, count: 16 }));
    assert!(matches!(ultra(&mut u, "load x.z64 10"), UltraStep::Load { path, off: 16 } if path == "x.z64"));
    assert_eq!(reply(&mut u, "load"), Err("usage: ultra load <path> [hex_offset]".to_string()));
    assert!(reply(&mut u, "").unwrap().starts_with("ultra status | send <hex>"));
}

#[test]
fn board_memory_in_words() {
    assert_eq!(
        show_word(4, 0x0403_0201, 0x0102_0304),
        "RAMROM[0x000004] = 04030201  (raw BE bytes → logical 01020304)\n"
    );
    assert_eq!(show_written(4, 0xAB), "RAMROM[0x000004] ← 000000ab  (stored BE)\n");
    assert_eq!(
        show_dump(0x20, &vec![0, 0, 0, 1, 0, 0, 0, 2, 0, 0, 0, 3, 0, 0, 0, 4, 0, 0, 0, 5]),
        "  00000020:  00000001 00000002 00000003 00000004\n  00000030:  00000005\n"
    );
    assert_eq!(show_instruction(8, 0x24, "nop"), "  00000008: 00000024  nop\n");
    assert_eq!(listing_length(0xFF_FFF8, 16), 2);
    assert_eq!(listing_length(0x100_0000, 16), 0);
    assert_eq!(listing_length(0, 16), 16);
    assert_eq!(
        load_reply("a.bin", 3, 0x10).text,
        "RAMROM ← 3 bytes from \"a.bin\" at offset 0x10\n"
    );
    assert!(matches!(load_reply("a.bin", 17, 0xFF_FFF0).end, End::Failed(s) if s == "ultra load: file (17 bytes) + offset 0xfffff0 exceeds RAMROM (0x1000000)"));
}

const SCREEN: Screen = Screen { width: 1280, height: 1024 };

fn context() -> Rex3Context {
    Rex3Context {
        fastclear: false,
        enzpattern: false,
        enlspattern: false,
        colorhost: false,
        alphahost: false,
        shade: false,
        blend: false,
        adrmode: 1,
        logicop: 3,
        planes: 0,
        xstart: (4096 + 12) << 11,
        ystart: (4096 + 5) << 11,
        xend: (4096 + 10) << 11,
        yend: (4096 + 6) << 11,
        clear_color: 0xAA,
        color: 0xBB,
    }
}

#[test]
fn fills_cover_their_rectangles() {
    let f = try_src_block_rgb(&context(), &SCREEN).unwrap();
    assert_eq!((f.x_lo, f.x_hi, f.y_lo, f.y_hi, f.color), (4106, 4108, 4101, 4102, 0xBB));
    assert_eq!(f.rows(), 2);
    assert_eq!(
        f.pixels(),
        vec![(4106, 4101), (4107, 4101), (4108, 4101), (4106, 4102), (4107, 4102), (4108, 4102)]
    );
    let c = Rex3Context { fastclear: true, ..context() };
    assert_eq!(try_fastclear_block(&c, &SCREEN).unwrap().color, 0xAA);
    assert!(try_src_block_rgb(&c, &SCREEN).is_none());
    let c = Rex3Context { adrmode: 0, ..context() };
    let f = try_src_span_rgb(&c, &SCREEN).unwrap();
    assert_eq!((f.x_lo, f.x_hi, f.y_lo, f.y_hi), (4106, 4108, 4101, 4101));
    assert_eq!(f.rows(), 1);
}

#[test]
fn fills_are_moved_onto_the_screen() {
    let c = Rex3Context { xstart: -2049, xend: i32::MAX, ..context() };
    let f = try_src_block_rgb(&c, &SCREEN).unwrap();
    assert_eq!((f.x_lo, f.x_hi), (4096, 4096 + 1279));
}

#[test]
fn other_primitives_are_left_alone() {
    for c in [
        Rex3Context { enzpattern: true, ..context() },
        Rex3Context { enlspattern: true, ..context() },
        Rex3Context { colorhost: true, ..context() },
        Rex3Context { alphahost: true, ..context() },
        Rex3Context { shade: true, ..context() },
        Rex3Context { blend: true, ..context() },
        Rex3Context { planes: 1, ..context() },
        Rex3Context { logicop: 6, ..context() },
        Rex3Context { adrmode: 2, ..context() },
    ] {
        assert!(try_src_block_rgb(&c, &SCREEN).is_none());
        assert!(c.adrmode == 2 || try_src_span_rgb(&Rex3Context { adrmode: 0, ..c }, &SCREEN).is_none());
        assert!(try_fastclear_block(&c, &SCREEN).is_none());
    }
}

#[test]
fn affinity_is_configured_once() {
    let mut t = ThreadAffinity::new();
    assert_eq!(t.status_line(), "thread_affinity: (not initialized)");
    assert_eq!(t.core_for(PerfRole::MipsCpu), None);
    let off = PerfConfig {
        thread_affinity: false,
        cpu_core: Some(2),
        rex3_core: None,
        refresh_core: Some(3),
    };
    t.init(off);
    assert_eq!(t.status_line(), "thread_affinity: off");
    assert_eq!(t.core_for(PerfRole::MipsCpu), None);
    t.init(PerfConfig { thread_affinity: true, ..off });
    assert_eq!(t.status_line(), "thread_affinity: off");
    let mut t = ThreadAffinity::new();
    t.init(PerfConfig { thread_affinity: true, ..off });
    assert_eq!(
        t.status_line(),
        "thread_affinity: on  cpu=Some(2) rex3=None refresh=Some(3)"
    );
    assert_eq!(t.core_for(PerfRole::MipsCpu), Some(2));
    assert_eq!(t.core_for(PerfRole::Rex3Processor), None);
    assert_eq!(t.core_for(PerfRole::Rex3Refresh), Some(3));
    assert_eq!(
        pinned_message(PerfRole::Rex3Refresh, 3),
        "iris: pinned Rex3Refresh thread to core 3"
    );
    assert_eq!(core_mask(3), 8);
    assert_eq!(core_mask(100), 1 << 63);
}

#[test]
fn addresses_are_shown_by_symbols() {
    let mut t = SymbolTable::new();
    assert!(t.append(0xFFFF_FFFF_8000_1000, "main".to_string()));
    assert!(!t.append(0x10, "low".to_string()));
    assert_eq!(format_pc_symbol(0xFFFF_FFFF_8000_1000, &t), " <main>");
    assert_eq!(format_pc_symbol(0xFFFF_FFFF_8000_1100, &t), " <main+0x100>");
    assert_eq!(format_pc_symbol(0xFFFF_FFFF_8000_1104, &t), "");
    assert_eq!(format_pc_symbol(0xFFFF_FFFF_8000_0FFC, &t), "");
    assert_eq!(format_pc_symbol(0xFFFF_FFFF_A000_1004, &t), "");
}
