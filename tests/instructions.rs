use chip8::instructions::{
    ADD_I_Vx, ADD_Vx_Vy, CALL_addr, DRW_Vx_Vy_n, JP_V0_addr, LD_B_Vx, LD_F_Vx, LD_I_Vx, LD_I_addr,
    LD_Vx_I, LD_Vx_byte, RET, RND_Vx_byte, RND_Vx_byte_with, SHL_Vx, SHR_Vx, SUBN_Vx_Vy,
    SUB_Vx_Vy, _0xxx, _8xxx, _Exxx, _Fxxx,
};
use chip8::{Chip8, Chip8Error, Instruction};

fn op(chip8: &mut Chip8, opcode: u16) {
    chip8.execute(Instruction::decode(opcode), 0).unwrap();
}

#[test]
fn decode_splits_fields() {
    let i = Instruction::decode(0xD12F);
    assert_eq!(i.opcode, 0xD12F);
    assert_eq!(i.x, 0x1);
    assert_eq!(i.y, 0x2);
    assert_eq!(i.n, 0xF);
    assert_eq!(i.nn, 0x2F);
    assert_eq!(i.nnn, 0x12F);
    assert_eq!(i.family_nibble(), 0xD);
}

#[test]
fn add_with_carry() {
    let mut c = Chip8::new();
    LD_Vx_byte(&mut c, Instruction::decode(0x61C8));
    LD_Vx_byte(&mut c, Instruction::decode(0x6264));
    ADD_Vx_Vy(&mut c, Instruction::decode(0x8124));
    assert_eq!(c.register(1), 44);
    assert_eq!(c.register(0xF), 1);
}

#[test]
fn add_without_carry() {
    let mut c = Chip8::new();
    op(&mut c, 0x6F07);
    op(&mut c, 0x6178);
    op(&mut c, 0x6287);
    op(&mut c, 0x8124);
    assert_eq!(c.register(1), 255);
    assert_eq!(c.register(0xF), 0);
}

#[test]
fn sub_with_and_without_borrow() {
    let mut c = Chip8::new();
    op(&mut c, 0x610A);
    op(&mut c, 0x6214);
    SUB_Vx_Vy(&mut c, Instruction::decode(0x8125));
    assert_eq!(c.register(1), 246);
    assert_eq!(c.register(0xF), 0);

    op(&mut c, 0x6314);
    op(&mut c, 0x6414);
    SUB_Vx_Vy(&mut c, Instruction::decode(0x8345));
    assert_eq!(c.register(3), 0);
    assert_eq!(c.register(0xF), 1);
}

#[test]
fn subn_reverses_operands() {
    let mut c = Chip8::new();
    op(&mut c, 0x6105);
    op(&mut c, 0x6203);
    SUBN_Vx_Vy(&mut c, Instruction::decode(0x8127));
    assert_eq!(c.register(1), 254);
    assert_eq!(c.register(0xF), 0);
}

#[test]
fn shift_right_and_left() {
    let mut c = Chip8::new();
    op(&mut c, 0x6185);
    SHR_Vx(&mut c, Instruction::decode(0x8106));
    assert_eq!(c.register(1), 0x42);
    assert_eq!(c.register(0xF), 1);

    op(&mut c, 0x6285);
    SHL_Vx(&mut c, Instruction::decode(0x820E));
    assert_eq!(c.register(2), 0x0A);
    assert_eq!(c.register(0xF), 1);

    op(&mut c, 0x6340);
    SHL_Vx(&mut c, Instruction::decode(0x830E));
    assert_eq!(c.register(3), 0x80);
    assert_eq!(c.register(0xF), 0);
}

#[test]
fn logic_operations() {
    let mut c = Chip8::new();
    op(&mut c, 0x61F0);
    op(&mut c, 0x623C);
    op(&mut c, 0x8121);
    assert_eq!(c.register(1), 0xFC);
    op(&mut c, 0x8122);
    assert_eq!(c.register(1), 0x3C);
    op(&mut c, 0x8123);
    assert_eq!(c.register(1), 0x00);
    op(&mut c, 0x8120);
    assert_eq!(c.register(1), 0x3C);
}

#[test]
fn add_immediate_wraps_and_keeps_flag() {
    let mut c = Chip8::new();
    op(&mut c, 0x6F05);
    op(&mut c, 0x61FF);
    op(&mut c, 0x7102);
    assert_eq!(c.register(1), 1);
    assert_eq!(c.register(0xF), 5);
}

#[test]
fn draw_full_row_twice() {
    let mut c = Chip8::new();
    op(&mut c, 0xA300);
    op(&mut c, 0x60FF);
    LD_I_Vx(&mut c, Instruction::decode(0xF055));
    op(&mut c, 0x6000);
    op(&mut c, 0x6100);
    DRW_Vx_Vy_n(&mut c, Instruction::decode(0xD011));
    let d = c.get_display();
    for col in 0..8 {
        assert!(d[col]);
    }
    assert!(!d[8]);
    assert!(!d[64]);
    assert_eq!(c.register(0xF), 0);

    DRW_Vx_Vy_n(&mut c, Instruction::decode(0xD011));
    assert!(c.get_display().iter().all(|p| !*p));
    assert_eq!(c.register(0xF), 1);
}

#[test]
fn draw_wraps_at_screen_edges() {
    let mut c = Chip8::new();
    op(&mut c, 0xA300);
    op(&mut c, 0x60FF);
    op(&mut c, 0x61FF);
    op(&mut c, 0xF155);
    op(&mut c, 0x603C);
    op(&mut c, 0x611F);
    op(&mut c, 0xD012);
    let d = c.get_display();
    for col in [60, 61, 62, 63, 0, 1, 2, 3] {
        assert!(d[31 * 64 + col]);
        assert!(d[col]);
    }
    assert!(!d[4]);
    assert!(!d[59]);
    assert_eq!(d.iter().filter(|p| **p).count(), 16);
    assert_eq!(c.register(0xF), 0);
}

#[test]
fn draw_coordinates_taken_modulo_screen() {
    let mut c = Chip8::new();
    op(&mut c, 0xA300);
    op(&mut c, 0x6080);
    op(&mut c, 0xF055);
    op(&mut c, 0x6045);
    op(&mut c, 0x6123);
    op(&mut c, 0xD011);
    let d = c.get_display();
    assert!(d[3 * 64 + 5]);
    assert_eq!(d.iter().filter(|p| **p).count(), 1);
}

#[test]
fn draw_font_glyph_zero() {
    let mut c = Chip8::new();
    op(&mut c, 0x6000);
    op(&mut c, 0xF029);
    op(&mut c, 0xD005);
    let d = c.get_display();
    let rows = [0xF0u8, 0x90, 0x90, 0x90, 0xF0];
    for (r, bits) in rows.iter().enumerate() {
        for col in 0..8 {
            assert_eq!(d[r * 64 + col], bits & (0x80 >> col) != 0);
        }
    }
}

#[test]
fn bcd_of_157() {
    let mut c = Chip8::new();
    op(&mut c, 0x6A9D);
    op(&mut c, 0xA300);
    LD_B_Vx(&mut c, Instruction::decode(0xFA33));
    assert_eq!(c.memory_at(0x300), 1);
    assert_eq!(c.memory_at(0x301), 5);
    assert_eq!(c.memory_at(0x302), 7);
}

#[test]
fn bcd_wraps_at_end_of_memory() {
    let mut c = Chip8::new();
    op(&mut c, 0x60FF);
    op(&mut c, 0xAFFE);
    op(&mut c, 0xF033);
    assert_eq!(c.memory_at(0xFFE), 2);
    assert_eq!(c.memory_at(0xFFF), 5);
    assert_eq!(c.memory_at(0x000), 5);
}

#[test]
fn font_address_of_ten() {
    let mut c = Chip8::new();
    op(&mut c, 0x630A);
    LD_F_Vx(&mut c, Instruction::decode(0xF329));
    assert_eq!(c.index(), 0x50 + 50);
}

#[test]
fn add_to_index_wraps_and_keeps_flag() {
    let mut c = Chip8::new();
    op(&mut c, 0x6F09);
    op(&mut c, 0x6110);
    op(&mut c, 0xAFF8);
    ADD_I_Vx(&mut c, Instruction::decode(0xF11E));
    assert_eq!(c.index(), 0x1008);
    assert_eq!(c.register(0xF), 9);
    for _ in 0..0x1000 {
        op(&mut c, 0x61FF);
        op(&mut c, 0xF11E);
    }
    assert_eq!(c.index(), ((0x1008u32 + 0x1000 * 0xFF) % 0x10000) as u16);
}

#[test]
fn store_then_load_round_trip() {
    let mut c = Chip8::new();
    let values = [3u8, 14, 15, 92, 65, 35, 89, 79];
    for (i, v) in values.iter().enumerate() {
        op(&mut c, 0x6000 | ((i as u16) << 8) | *v as u16);
    }
    op(&mut c, 0xA400);
    LD_I_Vx(&mut c, Instruction::decode(0xF755));
    for (i, v) in values.iter().enumerate() {
        assert_eq!(c.memory_at(0x400 + i as u16), *v);
        op(&mut c, 0x6000 | ((i as u16) << 8));
    }
    LD_Vx_I(&mut c, Instruction::decode(0xF765));
    for (i, v) in values.iter().enumerate() {
        assert_eq!(c.register(i as u8), *v);
    }
}

#[test]
fn load_stops_at_x() {
    let mut c = Chip8::new();
    op(&mut c, 0x6211);
    op(&mut c, 0xA050);
    LD_Vx_I(&mut c, Instruction::decode(0xF165));
    assert_eq!(c.register(0), 0xF0);
    assert_eq!(c.register(1), 0x90);
    assert_eq!(c.register(2), 0x11);
}

#[test]
fn call_and_return() {
    let mut c = Chip8::new();
    CALL_addr(&mut c, Instruction::decode(0x2456)).unwrap();
    assert_eq!(c.pc(), 0x456);
    assert_eq!(c.stack_pointer(), 1);
    RET(&mut c).unwrap();
    assert_eq!(c.pc(), 0x200);
    assert_eq!(c.stack_pointer(), 0);
}

#[test]
fn stack_overflow_is_an_error() {
    let mut c = Chip8::new();
    for _ in 0..16 {
        CALL_addr(&mut c, Instruction::decode(0x2300)).unwrap();
    }
    assert_eq!(CALL_addr(&mut c, Instruction::decode(0x2300)), Err(Chip8Error::StackOverflow));
    assert_eq!(c.stack_pointer(), 16);
}

#[test]
fn stack_underflow_is_an_error() {
    let mut c = Chip8::new();
    assert_eq!(RET(&mut c), Err(Chip8Error::StackUnderflow));
    assert_eq!(c.pc(), 0x200);
}

#[test]
fn unknown_opcodes_are_errors() {
    let mut c = Chip8::new();
    assert_eq!(_0xxx(&mut c, Instruction::decode(0x0123)), Err(Chip8Error::UnknownOpcode(0x0123)));
    assert_eq!(_8xxx(&mut c, Instruction::decode(0x812F)), Err(Chip8Error::UnknownOpcode(0x812F)));
    assert_eq!(_Exxx(&mut c, Instruction::decode(0xE100)), Err(Chip8Error::UnknownOpcode(0xE100)));
    assert_eq!(_Fxxx(&mut c, Instruction::decode(0xF1FF)), Err(Chip8Error::UnknownOpcode(0xF1FF)));
    assert_eq!(c.execute(Instruction::decode(0x8008), 0), Err(Chip8Error::UnknownOpcode(0x8008)));
}

#[test]
fn skips() {
    let mut c = Chip8::new();
    op(&mut c, 0x6105);
    op(&mut c, 0x6205);
    op(&mut c, 0x3105);
    assert_eq!(c.pc(), 0x202);
    op(&mut c, 0x3106);
    assert_eq!(c.pc(), 0x202);
    op(&mut c, 0x4106);
    assert_eq!(c.pc(), 0x204);
    op(&mut c, 0x5120);
    assert_eq!(c.pc(), 0x206);
    op(&mut c, 0x9120);
    assert_eq!(c.pc(), 0x206);
}

#[test]
fn key_skips_use_low_nibble() {
    let mut c = Chip8::new();
    op(&mut c, 0x6113);
    op(&mut c, 0xE19E);
    assert_eq!(c.pc(), 0x200);
    c.update_key(3, true);
    assert!(c.is_key_down(3));
    op(&mut c, 0xE19E);
    assert_eq!(c.pc(), 0x202);
    op(&mut c, 0xE1A1);
    assert_eq!(c.pc(), 0x202);
    c.update_key(3, false);
    op(&mut c, 0xE1A1);
    assert_eq!(c.pc(), 0x204);
}

#[test]
fn jump_with_offset() {
    let mut c = Chip8::new();
    op(&mut c, 0x60FF);
    JP_V0_addr(&mut c, Instruction::decode(0xBFFF));
    assert_eq!(c.pc(), 0x10FE);
    op(&mut c, 0x1ABC);
    assert_eq!(c.pc(), 0xABC);
    LD_I_addr(&mut c, Instruction::decode(0xA123));
    assert_eq!(c.index(), 0x123);
}

#[test]
fn random_is_masked() {
    let mut c = Chip8::new();
    RND_Vx_byte_with(&mut c, Instruction::decode(0xC30F), 0xAB);
    assert_eq!(c.register(3), 0x0B);
    for _ in 0..64 {
        RND_Vx_byte(&mut c, Instruction::decode(0xC40F));
        assert_eq!(c.register(4) & 0xF0, 0);
        RND_Vx_byte(&mut c, Instruction::decode(0xC500));
        assert_eq!(c.register(5), 0);
    }
}

#[test]
fn timers_set_and_read() {
    let mut c = Chip8::new();
    op(&mut c, 0x6102);
    op(&mut c, 0xF115);
    op(&mut c, 0xF118);
    assert_eq!(c.delay_timer(), 2);
    assert_eq!(c.sound_timer(), 2);
    op(&mut c, 0xF207);
    assert_eq!(c.register(2), 2);
}
