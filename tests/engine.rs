use chip8_core::chip8::{FONT_START, SCREEN_WIDTH};
use chip8_core::{Chip8, Chip8Error, Instruction};

fn machine(rom: &[u8]) -> Chip8 {
    Chip8::new(rom, 1).unwrap()
}

fn run(m: &mut Chip8, steps: usize) {
    for _ in 0..steps {
        m.step_with(0).unwrap();
    }
}

#[test]
fn lib_it_works() {
    assert_eq!(4, 4);
}

#[test]
fn add_registers_scenario() {
    let mut m = machine(&[0x60, 0x0A, 0x61, 0x05, 0x80, 0x14]);
    run(&mut m, 3);
    assert_eq!(m.register(0), 15);
    assert_eq!(m.register(0xF), 0);
    assert_eq!(m.pc(), 0x206);
}

#[test]
fn draw_full_row_scenario() {
    // clear, I = 0x206, draw 1 row at (V0, V1) = (0, 0); sprite byte 0xFF at 0x206
    let mut m = machine(&[0x00, 0xE0, 0xA2, 0x06, 0xD0, 0x11, 0xFF]);
    run(&mut m, 3);
    let fb = m.framebuffer();
    for x in 0..8 {
        assert!(fb[x]);
    }
    assert!(!fb[8]);
    assert!(!fb[SCREEN_WIDTH]);
    assert_eq!(m.register(0xF), 0);
    assert!(m.get_scn_state());
    assert!(!m.get_scn_state());
}

#[test]
fn decode_unmatched_e_family() {
    match Chip8::decode(0xE012) {
        Err(Chip8Error::DecodeError(_, w)) => assert_eq!(w, 0xE012),
        _ => panic!("0xE012 must not decode"),
    }
}

#[test]
fn decode_encode_every_word() {
    let mut recognised = 0u32;
    for w in 0..=0xFFFFu16 {
        if let Ok(i) = Instruction::from_word(w) {
            assert_eq!(i.to_word(), w);
            recognised += 1;
        }
    }
    assert!(recognised > 0);
}

#[test]
fn decode_examples() {
    assert_eq!(Instruction::from_word(0x00E0).unwrap(), Instruction::I00E0);
    assert_eq!(Instruction::from_word(0x00EE).unwrap(), Instruction::I00EE);
    assert_eq!(Instruction::from_word(0x0123).unwrap(), Instruction::I0NNN(0x123));
    assert_eq!(Instruction::from_word(0x8AB4).unwrap(), Instruction::I8XY4(0xA, 0xB));
    assert_eq!(Instruction::from_word(0xD125).unwrap(), Instruction::IDXYN(1, 2, 5));
    assert_eq!(Instruction::from_word(0xF365).unwrap(), Instruction::IFX65(3));
    assert_eq!(Instruction::from_word(0xE59E).unwrap(), Instruction::IEX9E(5));
}

#[test]
fn decode_rejects_unknown_words() {
    for w in [0x5121u16, 0x800F, 0x8128, 0x9121, 0xE0FF, 0xE19F, 0xF0FF, 0xF166] {
        match Instruction::from_word(w) {
            Err(Chip8Error::DecodeError(_, got)) => assert_eq!(got, w),
            _ => panic!("word {:#06x} must not decode", w),
        }
    }
}

#[test]
fn decode_error_stops_step_without_change() {
    let mut m = machine(&[0xFF, 0xFF]);
    assert!(matches!(m.step_with(0), Err(Chip8Error::DecodeError(_, 0xFFFF))));
    assert_eq!(m.pc(), 0x200);
}

#[test]
fn skip_if_equal_taken_and_not() {
    let mut m = machine(&[0x60, 0x07, 0x30, 0x07]);
    run(&mut m, 2);
    assert_eq!(m.pc(), 0x206);
    let mut m = machine(&[0x60, 0x07, 0x30, 0x08]);
    run(&mut m, 2);
    assert_eq!(m.pc(), 0x204);
}

#[test]
fn skip_if_not_equal_and_register_compares() {
    let mut m = machine(&[0x40, 0x01]);
    run(&mut m, 1);
    assert_eq!(m.pc(), 0x204);
    let mut m = machine(&[0x50, 0x10]);
    run(&mut m, 1);
    assert_eq!(m.pc(), 0x204);
    let mut m = machine(&[0x90, 0x10]);
    run(&mut m, 1);
    assert_eq!(m.pc(), 0x202);
}

#[test]
fn skip_on_key_state() {
    let mut m = machine(&[0x60, 0x03, 0xE0, 0x9E]);
    m.set_key(3, true);
    run(&mut m, 2);
    assert_eq!(m.pc(), 0x206);
    let mut m = machine(&[0x60, 0x03, 0xE0, 0xA1]);
    run(&mut m, 2);
    assert_eq!(m.pc(), 0x206);
}

#[test]
fn add_with_carry() {
    let mut m = machine(&[0x60, 200, 0x61, 100, 0x80, 0x14]);
    run(&mut m, 3);
    assert_eq!(m.register(0), 44);
    assert_eq!(m.register(0xF), 1);
}

#[test]
fn subtract_flags() {
    let mut m = machine(&[0x60, 5, 0x61, 7, 0x80, 0x15]);
    run(&mut m, 3);
    assert_eq!(m.register(0), 254);
    assert_eq!(m.register(0xF), 0);
    let mut m = machine(&[0x60, 7, 0x61, 7, 0x80, 0x15]);
    run(&mut m, 3);
    assert_eq!(m.register(0), 0);
    assert_eq!(m.register(0xF), 1);
    let mut m = machine(&[0x60, 5, 0x61, 7, 0x80, 0x17]);
    run(&mut m, 3);
    assert_eq!(m.register(0), 2);
    assert_eq!(m.register(0xF), 1);
}

#[test]
fn flag_register_as_operand_keeps_flag() {
    let mut m = machine(&[0x6F, 200, 0x61, 100, 0x8F, 0x14]);
    run(&mut m, 3);
    assert_eq!(m.register(0xF), 1);
}

#[test]
fn shifts_and_bitwise() {
    let mut m = machine(&[0x60, 0x81, 0x80, 0x06]);
    run(&mut m, 2);
    assert_eq!(m.register(0), 0x40);
    assert_eq!(m.register(0xF), 1);
    let mut m = machine(&[0x60, 0x81, 0x80, 0x0E]);
    run(&mut m, 2);
    assert_eq!(m.register(0), 0x02);
    assert_eq!(m.register(0xF), 1);
    let mut m = machine(&[0x60, 0x0C, 0x61, 0x0A, 0x80, 0x11, 0x82, 0x12, 0x83, 0x13]);
    run(&mut m, 3);
    assert_eq!(m.register(0), 0x0E);
    let mut m = machine(&[0x60, 0x0C, 0x61, 0x0A, 0x80, 0x12]);
    run(&mut m, 3);
    assert_eq!(m.register(0), 0x08);
    let mut m = machine(&[0x60, 0x0C, 0x61, 0x0A, 0x80, 0x13]);
    run(&mut m, 3);
    assert_eq!(m.register(0), 0x06);
}

#[test]
fn add_immediate_wraps_without_flag() {
    let mut m = machine(&[0x60, 0xFF, 0x70, 0x02]);
    run(&mut m, 2);
    assert_eq!(m.register(0), 1);
    assert_eq!(m.register(0xF), 0);
}

fn push_word(rom: &mut Vec<u8>, w: u16) {
    rom.push((w >> 8) as u8);
    rom.push((w & 0xFF) as u8);
}

/// main calls sub 1 and then loops; sub k calls sub k + 1 and returns; the
/// last sub holds `last`. Sub k starts at 0x204 + 4 * (k - 1).
fn nested_calls_rom(last: u16) -> Vec<u8> {
    let sub = |k: u16| 0x204 + 4 * (k - 1);
    let mut rom = Vec::new();
    push_word(&mut rom, 0x2000 | sub(1));
    push_word(&mut rom, 0x1202);
    for k in 1..16u16 {
        push_word(&mut rom, 0x2000 | sub(k + 1));
        push_word(&mut rom, 0x00EE);
    }
    push_word(&mut rom, last);
    push_word(&mut rom, 0x00EE);
    rom
}

#[test]
fn call_return_round_trip() {
    let mut m = machine(&nested_calls_rom(0x00EE));
    for k in 1..=16u16 {
        m.step_with(0).unwrap();
        assert_eq!(m.pc(), 0x204 + 4 * (k - 1));
        assert_eq!(m.stack_depth(), k as usize);
    }
    // each return lands after the latest call site still on the stack
    for k in (1..=15u16).rev() {
        m.step_with(0).unwrap();
        assert_eq!(m.pc(), 0x204 + 4 * (k - 1) + 2);
        assert_eq!(m.stack_depth(), k as usize);
    }
    m.step_with(0).unwrap();
    assert_eq!(m.pc(), 0x202);
    assert_eq!(m.stack_depth(), 0);
}

#[test]
fn seventeenth_call_overflows() {
    let mut m = machine(&nested_calls_rom(0x2200));
    run(&mut m, 16);
    assert_eq!(m.stack_depth(), 16);
    let pc = m.pc();
    assert!(matches!(m.step_with(0), Err(Chip8Error::StackOverflowError)));
    assert_eq!(m.pc(), pc);
    assert_eq!(m.stack_depth(), 16);
}

#[test]
fn return_with_empty_stack_fails() {
    let mut m = machine(&[0x00, 0xEE]);
    assert!(matches!(m.step_with(0), Err(Chip8Error::StackUnderflowError)));
    assert_eq!(m.pc(), 0x200);
}

#[test]
fn bcd_of_157() {
    let mut m = machine(&[0x60, 157, 0xA3, 0x00, 0xF0, 0x33]);
    run(&mut m, 3);
    assert_eq!(m.memory(0x300), 1);
    assert_eq!(m.memory(0x301), 5);
    assert_eq!(m.memory(0x302), 7);
}

#[test]
fn bcd_past_end_of_memory() {
    let mut m = machine(&[0xAF, 0xFE, 0xF0, 0x33]);
    run(&mut m, 1);
    assert!(matches!(m.step_with(0), Err(Chip8Error::MemoryAccessError)));
    assert_eq!(m.pc(), 0x202);
}

#[test]
fn draw_twice_clears_and_collides() {
    let mut m = machine(&[0xA2, 0x0A, 0xD0, 0x12, 0xD0, 0x12, 0x12, 0x06, 0x00, 0x00, 0xA5, 0x3C]);
    run(&mut m, 2);
    assert_eq!(m.register(0xF), 0);
    assert!(m.framebuffer()[0]);
    assert!(m.framebuffer()[SCREEN_WIDTH + 2]);
    run(&mut m, 1);
    assert_eq!(m.register(0xF), 1);
    assert!(m.framebuffer().iter().all(|p| !*p));
}

#[test]
fn draw_wraps_around_edges() {
    // V0 = 60, V1 = 31, draw 0xFF: columns 60..63 and 0..3 of row 31
    let mut m = machine(&[0x60, 60, 0x61, 31, 0xA2, 0x0A, 0xD0, 0x11, 0x00, 0x00, 0xFF]);
    run(&mut m, 4);
    let fb = m.framebuffer();
    for x in [60usize, 61, 62, 63, 0, 1, 2, 3] {
        assert!(fb[31 * SCREEN_WIDTH + x]);
    }
    assert!(!fb[31 * SCREEN_WIDTH + 4]);
}

#[test]
fn timers_floor_at_zero() {
    let mut m = machine(&[0x60, 3, 0xF0, 0x15, 0xF0, 0x18]);
    run(&mut m, 3);
    assert_eq!(m.delay_timer(), 3);
    assert!(m.buzzer());
    for _ in 0..5 {
        m.tick_timers();
    }
    assert_eq!(m.delay_timer(), 0);
    assert_eq!(m.sound_timer(), 0);
    assert!(!m.buzzer());
}

#[test]
fn read_delay_timer() {
    let mut m = machine(&[0x60, 9, 0xF0, 0x15, 0xF1, 0x07]);
    run(&mut m, 2);
    m.tick_timers();
    run(&mut m, 1);
    assert_eq!(m.register(1), 8);
}

#[test]
fn wait_for_key_suspends_until_press() {
    let mut m = machine(&[0xF4, 0x0A, 0x60, 0x01]);
    run(&mut m, 1);
    assert!(m.is_awaiting_key());
    assert_eq!(m.pc(), 0x202);
    run(&mut m, 3);
    assert_eq!(m.pc(), 0x202);
    m.tick_timers();
    m.set_key(9, true);
    assert!(!m.is_awaiting_key());
    assert_eq!(m.register(4), 9);
    run(&mut m, 1);
    assert_eq!(m.pc(), 0x204);
}

#[test]
fn random_mask_uses_given_byte() {
    let mut m = machine(&[0xC0, 0x0F]);
    m.step_with(0xAB).unwrap();
    assert_eq!(m.register(0), 0x0B);
    let mut m = machine(&[0xC0, 0x0F]);
    m.step().unwrap();
    assert_eq!(m.register(0) & 0xF0, 0);
}

#[test]
fn seeded_runs_repeat() {
    let rom = [0xC0, 0xFF, 0xC1, 0xFF];
    let mut a = Chip8::new(&rom, 42).unwrap();
    let mut b = Chip8::new(&rom, 42).unwrap();
    for _ in 0..2 {
        a.step().unwrap();
        b.step().unwrap();
    }
    assert_eq!(a.register(0), b.register(0));
    assert_eq!(a.register(1), b.register(1));
}

#[test]
fn font_address_and_index_add() {
    let mut m = machine(&[0x60, 0x1A, 0xF0, 0x29]);
    run(&mut m, 2);
    assert_eq!(m.index_register() as usize, FONT_START + 5 * 0xA);
    assert_eq!(m.memory(FONT_START + 5 * 0xA), 0xF0);
    let mut m = machine(&[0xAF, 0xFF, 0x60, 0x02, 0xF0, 0x1E]);
    run(&mut m, 3);
    assert_eq!(m.index_register(), 0x1001);
}

#[test]
fn register_block_store_and_load() {
    let mut m = machine(&[0x60, 1, 0x61, 2, 0x62, 3, 0xA3, 0x00, 0xF1, 0x55, 0x60, 0, 0x61, 0, 0x62, 0, 0xF2, 0x65]);
    run(&mut m, 5);
    assert_eq!(m.memory(0x300), 1);
    assert_eq!(m.memory(0x301), 2);
    assert_eq!(m.memory(0x302), 0);
    run(&mut m, 4);
    assert_eq!(m.register(0), 1);
    assert_eq!(m.register(1), 2);
    assert_eq!(m.register(2), 0);
}

#[test]
fn jumps() {
    let mut m = machine(&[0x13, 0x45]);
    run(&mut m, 1);
    assert_eq!(m.pc(), 0x345);
    let mut m = machine(&[0x60, 0x10, 0xB3, 0x00]);
    run(&mut m, 2);
    assert_eq!(m.pc(), 0x310);
    let mut m = machine(&[0x01, 0x23]);
    run(&mut m, 1);
    assert_eq!(m.pc(), 0x202);
}

#[test]
fn fetch_past_end_of_memory() {
    let mut m = machine(&[0x1F, 0xFF]);
    run(&mut m, 1);
    assert!(matches!(m.step_with(0), Err(Chip8Error::MemoryAccessError)));
    assert_eq!(m.pc(), 0xFFF);
}

#[test]
fn program_load_limits() {
    let rom = vec![0u8; 4096 - 0x200];
    let m = Chip8::new(&rom, 0).unwrap();
    assert_eq!(m.pc(), 0x200);
    assert_eq!(m.memory(FONT_START), 0xF0);
    let rom = vec![0u8; 4096 - 0x200 + 1];
    assert!(matches!(Chip8::new(&rom, 0), Err(Chip8Error::ProgramTooLargeError)));
}

#[test]
fn error_messages() {
    let e = Chip8::decode(0xE012).err().unwrap();
    assert_eq!(e.message(), "unknown instruction");
    assert_eq!(Chip8Error::StackOverflowError.message(), "call stack overflow");
}

#[test]
fn sprite_and_block_past_end_of_memory() {
    let mut m = machine(&[0xAF, 0xFF, 0xD0, 0x12]);
    run(&mut m, 1);
    assert!(matches!(m.step_with(0), Err(Chip8Error::MemoryAccessError)));
    assert!(m.framebuffer().iter().all(|p| !*p));
    let mut m = machine(&[0xAF, 0xFF, 0xD0, 0x11]);
    run(&mut m, 2);
    assert_eq!(m.pc(), 0x204);
    let mut m = machine(&[0xAF, 0xFE, 0xF2, 0x55]);
    run(&mut m, 1);
    assert!(matches!(m.step_with(0), Err(Chip8Error::MemoryAccessError)));
    let mut m = machine(&[0xAF, 0xFE, 0xF2, 0x65]);
    run(&mut m, 1);
    assert!(matches!(m.step_with(0), Err(Chip8Error::MemoryAccessError)));
    assert_eq!(m.pc(), 0x202);
}

#[test]
fn key_release_does_not_resume_wait() {
    let mut m = machine(&[0xF0, 0x0A]);
    run(&mut m, 1);
    m.set_key(2, false);
    assert!(m.is_awaiting_key());
    m.set_key(2, true);
    assert_eq!(m.register(0), 2);
}
