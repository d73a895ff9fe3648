use chip8::constants::{FONTSET, FONTSET_START_ADDRESS};
use chip8::{pixels_to_rgba, Chip8, Chip8Error, KeyWait, LoadError, Rgb};

fn with_program(program: &[u8]) -> Chip8 {
    let mut c = Chip8::new();
    c.load_rom(program).unwrap();
    c
}

#[test]
fn new_machine_state() {
    let c = Chip8::new();
    assert_eq!(c.pc(), 0x200);
    assert_eq!(c.index(), 0);
    assert_eq!(c.stack_pointer(), 0);
    assert_eq!(c.delay_timer(), 0);
    assert_eq!(c.sound_timer(), 0);
    assert_eq!(c.key_wait(), KeyWait::Idle);
    for i in 0..16 {
        assert_eq!(c.register(i), 0);
        assert!(!c.is_key_down(i));
    }
    for (i, b) in FONTSET.iter().enumerate() {
        assert_eq!(c.memory_at((FONTSET_START_ADDRESS + i) as u16), *b);
    }
    assert_eq!(c.memory_at(0x4F), 0);
    assert_eq!(c.memory_at(0xA0), 0);
    assert!(c.get_display().iter().all(|p| !*p));
    let d = Chip8::default();
    assert_eq!(d.pc(), 0x200);
}

#[test]
fn load_font_writes_glyphs() {
    let mut c = Chip8::new();
    let glyphs = [0xA5u8; 80];
    c.load_font(&glyphs);
    assert_eq!(c.memory_at(0x50), 0xA5);
    assert_eq!(c.memory_at(0x9F), 0xA5);
    assert_eq!(c.memory_at(0xA0), 0);
    c.load_fontset();
    assert_eq!(c.memory_at(0x50), 0xF0);
}

#[test]
fn load_rom_places_program() {
    let c = with_program(&[0x12, 0x34, 0x56]);
    assert_eq!(c.memory_at(0x200), 0x12);
    assert_eq!(c.memory_at(0x201), 0x34);
    assert_eq!(c.memory_at(0x202), 0x56);
    assert_eq!(c.memory_at(0x203), 0);
}

#[test]
fn load_rom_largest_fits() {
    let mut c = Chip8::new();
    let rom = vec![0xEEu8; 4096 - 0x200];
    assert_eq!(c.load_rom(&rom), Ok(()));
    assert_eq!(c.memory_at(0xFFF), 0xEE);
}

#[test]
fn load_rom_too_large() {
    let mut c = Chip8::new();
    let rom = vec![1u8; 4096 - 0x200 + 1];
    assert_eq!(c.load_rom(&rom), Err(LoadError::RomTooLarge(3585)));
    assert_eq!(c.memory_at(0x200), 0);
}

#[test]
fn step_runs_a_program() {
    let mut c = with_program(&[0x60, 0x05, 0x61, 0x07, 0x80, 0x14, 0x22, 0x0A, 0x12, 0x08, 0x70, 0x01, 0x00, 0xEE]);
    c.step().unwrap();
    c.step().unwrap();
    c.step().unwrap();
    assert_eq!(c.register(0), 12);
    assert_eq!(c.pc(), 0x206);
    c.step().unwrap();
    assert_eq!(c.pc(), 0x20A);
    assert_eq!(c.stack_pointer(), 1);
    c.step().unwrap();
    assert_eq!(c.register(0), 13);
    c.step().unwrap();
    assert_eq!(c.pc(), 0x208);
    c.step().unwrap();
    assert_eq!(c.pc(), 0x208);
}

#[test]
fn step_on_unknown_opcode_fails_and_keeps_state() {
    let mut c = with_program(&[0x60, 0x05, 0xFF, 0xFF]);
    c.step().unwrap();
    assert_eq!(c.step(), Err(Chip8Error::UnknownOpcode(0xFFFF)));
    assert_eq!(c.pc(), 0x202);
    assert_eq!(c.register(0), 5);
    assert_eq!(c.step_with(0), Err(Chip8Error::UnknownOpcode(0xFFFF)));
    assert_eq!(c.pc(), 0x202);
}

#[test]
fn step_with_random_byte() {
    let mut c = with_program(&[0xC2, 0x3C]);
    c.step_with(0xFF).unwrap();
    assert_eq!(c.register(2), 0x3C);
    assert_eq!(c.pc(), 0x202);
}

#[test]
fn key_wait_stalls_then_completes() {
    let mut c = with_program(&[0xF5, 0x0A, 0x61, 0x01]);
    for _ in 0..5 {
        c.step().unwrap();
        assert_eq!(c.pc(), 0x200);
        assert_eq!(c.key_wait(), KeyWait::WaitingForKey);
    }
    c.update_key(7, true);
    c.step().unwrap();
    assert_eq!(c.register(5), 7);
    assert_eq!(c.pc(), 0x202);
    assert_eq!(c.key_wait(), KeyWait::Idle);
    c.step().unwrap();
    assert_eq!(c.register(1), 1);
    assert_eq!(c.pc(), 0x204);
}

#[test]
fn key_wait_takes_lowest_held_key() {
    let mut c = with_program(&[0xF3, 0x0A]);
    c.step().unwrap();
    c.update_key(9, true);
    c.update_key(4, true);
    c.step().unwrap();
    assert_eq!(c.register(3), 4);
    assert_eq!(c.pc(), 0x202);
}

#[test]
fn key_wait_needs_a_new_press() {
    let mut c = with_program(&[0xF3, 0x0A, 0xF4, 0x0A]);
    c.step().unwrap();
    c.update_key(2, true);
    c.step().unwrap();
    assert_eq!(c.register(3), 2);
    c.step().unwrap();
    assert_eq!(c.pc(), 0x202);
    c.update_key(2, false);
    c.update_key(6, true);
    c.step().unwrap();
    assert_eq!(c.register(4), 6);
    assert_eq!(c.pc(), 0x204);
}

#[test]
fn fetch_wraps_at_end_of_memory() {
    let mut c = with_program(&[0xAF, 0xFF, 0x60, 0x61, 0xF0, 0x55, 0xA0, 0x00, 0x60, 0x2A, 0xF0, 0x55, 0x1F, 0xFF]);
    for _ in 0..7 {
        c.step().unwrap();
    }
    assert_eq!(c.pc(), 0xFFF);
    assert_eq!(c.memory_at(0xFFF), 0x61);
    assert_eq!(c.memory_at(0x000), 0x2A);
    assert_eq!(c.fetch(), 0x612A);
    c.step().unwrap();
    assert_eq!(c.register(1), 0x2A);
    assert_eq!(c.pc(), 0x1001);
    assert_eq!(c.fetch(), 0x0000);
}

#[test]
fn pc_past_memory_wraps() {
    let mut c = with_program(&[0x60, 0x12, 0x61, 0x08, 0xA0, 0x00, 0xF1, 0x55, 0x60, 0x01, 0xBF, 0xFF]);
    for _ in 0..6 {
        c.step().unwrap();
    }
    assert_eq!(c.pc(), 0x1000);
    assert_eq!(c.fetch(), 0x1208);
    c.step().unwrap();
    assert_eq!(c.pc(), 0x208);
}

#[test]
fn timers_tick_down_to_zero() {
    let mut c = with_program(&[0x60, 0x02, 0xF0, 0x15, 0x61, 0x01, 0xF1, 0x18]);
    for _ in 0..4 {
        c.step().unwrap();
    }
    c.tick_timers();
    assert_eq!(c.delay_timer(), 1);
    assert_eq!(c.sound_timer(), 0);
    c.tick_timers();
    c.tick_timers();
    assert_eq!(c.delay_timer(), 0);
    assert_eq!(c.sound_timer(), 0);
}

#[test]
fn clear_screen() {
    let mut c = with_program(&[0x60, 0x00, 0xF0, 0x29, 0xD0, 0x05, 0x00, 0xE0]);
    for _ in 0..3 {
        c.step().unwrap();
    }
    assert!(c.get_display().iter().any(|p| *p));
    c.step().unwrap();
    assert!(c.get_display().iter().all(|p| !*p));
}

#[test]
fn rgba_conversion() {
    let on = Rgb { r: 255, g: 200, b: 45 };
    let off = Rgb { r: 45, g: 10, b: 45 };
    let bytes = pixels_to_rgba(&[true, false], on, off);
    assert_eq!(bytes, vec![255, 200, 45, 255, 45, 10, 45, 255]);
    assert!(pixels_to_rgba(&[], on, off).is_empty());
}

