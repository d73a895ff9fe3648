//! One handler per instruction; each changes the machine as its meaning in
//! `semantics` says.
#![allow(non_snake_case)]
use vstd::prelude::*;
use super::{random_byte, Chip8};
use crate::constants::{
    DISPLAY_SIZE, FONTSET_START_ADDRESS, HEIGHT, NUM_KEYS, RAM_SIZE, STACK_SIZE, WIDTH,
};
use crate::decode::Instruction;
use crate::semantics;
use crate::semantics::{Chip8Error, KeyWait, sprite_bit, sprite_col_of, sprite_covers, sprite_row_of, Machine};

verus! {

/// 0x00E0 - CLS
///
/// Clears the display.
pub fn CLS(chip8: &mut Chip8)
    requires
        old(chip8).wf(),
    ensures
        final(chip8)@ == semantics::cls(old(chip8)@),
        final(chip8).wf(),
{
    chip8.display = [false; DISPLAY_SIZE];
    assert(chip8@.display =~= semantics::cls(old(chip8)@).display);
}

/// 0x00EE - RET
///
/// Returns from a subroutine; fails on an empty stack.
pub fn RET(chip8: &mut Chip8) -> (r: Result<(), Chip8Error>)
    requires
        old(chip8).wf(),
    ensures
        semantics::outcome(semantics::ret(old(chip8)@), old(chip8)@, final(chip8)@, r),
        final(chip8).wf(),
{
    if chip8.sp == 0 {
        return Err(Chip8Error::StackUnderflow);
    }
    chip8.sp = chip8.sp - 1;
    chip8.pc = chip8.stack[chip8.sp as usize];
    Ok(())
}

/// Handles the `0x0???` opcodes.
pub fn _0xxx(chip8: &mut Chip8, instruction: Instruction) -> (r: Result<(), Chip8Error>)
    requires
        old(chip8).wf(),
        instruction.wf(),
    ensures
        semantics::outcome(
            semantics::system_spec(old(chip8)@, instruction),
            old(chip8)@,
            final(chip8)@,
            r,
        ),
        final(chip8).wf(),
{
    match instruction.opcode {
        0x00E0 => {
            CLS(chip8);
            Ok(())
        },
        0x00EE => RET(chip8),
        _ => Err(Chip8Error::UnknownOpcode(instruction.opcode)),
    }
}

/// 0x1nnn - JP addr
///
/// Jumps to address nnn.
pub fn JP_addr(chip8: &mut Chip8, instruction: Instruction)
    requires
        old(chip8).wf(),
        instruction.wf(),
    ensures
        final(chip8)@ == semantics::jp_addr(old(chip8)@, instruction),
        final(chip8).wf(),
{
    chip8.pc = instruction.nnn;
}

/// 0x2nnn - CALL addr
///
/// Pushes the program counter and jumps to nnn; fails when every stack slot is in use.
pub fn CALL_addr(chip8: &mut Chip8, instruction: Instruction) -> (r: Result<(), Chip8Error>)
    requires
        old(chip8).wf(),
        instruction.wf(),
    ensures
        semantics::outcome(
            semantics::call_addr(old(chip8)@, instruction),
            old(chip8)@,
            final(chip8)@,
            r,
        ),
        final(chip8).wf(),
{
    if chip8.sp as usize >= STACK_SIZE {
        return Err(Chip8Error::StackOverflow);
    }
    chip8.stack[chip8.sp as usize] = chip8.pc;
    chip8.sp = chip8.sp + 1;
    chip8.pc = instruction.nnn;
    Ok(())
}

/// 0x3xnn - SE Vx, byte
///
/// Skips the next instruction if Vx = nn.
pub fn SE_Vx_byte(chip8: &mut Chip8, instruction: Instruction)
    requires
        old(chip8).wf(),
        instruction.wf(),
    ensures
        final(chip8)@ == semantics::se_vx_byte(old(chip8)@, instruction),
        final(chip8).wf(),
{
    if chip8.registers[instruction.x as usize] == instruction.nn {
        chip8.pc = chip8.pc.wrapping_add(2);
    }
}

/// 0x4xnn - SNE Vx, byte
///
/// Skips the next instruction if Vx != nn.
pub fn SNE_Vx_byte(chip8: &mut Chip8, instruction: Instruction)
    requires
        old(chip8).wf(),
        instruction.wf(),
    ensures
        final(chip8)@ == semantics::sne_vx_byte(old(chip8)@, instruction),
        final(chip8).wf(),
{
    if chip8.registers[instruction.x as usize] != instruction.nn {
        chip8.pc = chip8.pc.wrapping_add(2);
    }
}

/// 0x5xy0 - SE Vx, Vy
///
/// Skips the next instruction if Vx = Vy.
pub fn SE_Vx_Vy(chip8: &mut Chip8, instruction: Instruction)
    requires
        old(chip8).wf(),
        instruction.wf(),
    ensures
        final(chip8)@ == semantics::se_vx_vy(old(chip8)@, instruction),
        final(chip8).wf(),
{
    if chip8.registers[instruction.x as usize] == chip8.registers[instruction.y as usize] {
        chip8.pc = chip8.pc.wrapping_add(2);
    }
}

/// 0x6xnn - LD Vx, byte
///
/// Loads nn into Vx.
pub fn LD_Vx_byte(chip8: &mut Chip8, instruction: Instruction)
    requires
        old(chip8).wf(),
        instruction.wf(),
    ensures
        final(chip8)@ == semantics::ld_vx_byte(old(chip8)@, instruction),
        final(chip8).wf(),
{
    chip8.registers[instruction.x as usize] = instruction.nn;
}

/// 0x7xnn - ADD Vx, byte
///
/// Adds nn to Vx modulo 256; VF is left alone.
pub fn ADD_Vx_byte(chip8: &mut Chip8, instruction: Instruction)
    requires
        old(chip8).wf(),
        instruction.wf(),
    ensures
        final(chip8)@ == semantics::add_vx_byte(old(chip8)@, instruction),
        final(chip8).wf(),
{
    chip8.registers[instruction.x as usize] = chip8.registers[instruction.x as usize].wrapping_add(
        instruction.nn,
    );
}

/// 0x8xy0 - LD Vx, Vy
///
/// Vx = Vy.
pub fn LD_Vx_Vy(chip8: &mut Chip8, instruction: Instruction)
    requires
        old(chip8).wf(),
        instruction.wf(),
    ensures
        final(chip8)@ == semantics::ld_vx_vy(old(chip8)@, instruction),
        final(chip8).wf(),
{
    chip8.registers[instruction.x as usize] = chip8.registers[instruction.y as usize];
}

/// 0x8xy1 - OR Vx, Vy
///
/// Vx = Vx | Vy.
pub fn OR_Vx_Vy(chip8: &mut Chip8, instruction: Instruction)
    requires
        old(chip8).wf(),
        instruction.wf(),
    ensures
        final(chip8)@ == semantics::or_vx_vy(old(chip8)@, instruction),
        final(chip8).wf(),
{
    chip8.registers[instruction.x as usize] = chip8.registers[instruction.x as usize]
        | chip8.registers[instruction.y as usize];
}

/// 0x8xy2 - AND Vx, Vy
///
/// Vx = Vx & Vy.
pub fn AND_Vx_Vy(chip8: &mut Chip8, instruction: Instruction)
    requires
        old(chip8).wf(),
        instruction.wf(),
    ensures
        final(chip8)@ == semantics::and_vx_vy(old(chip8)@, instruction),
        final(chip8).wf(),
{
    chip8.registers[instruction.x as usize] = chip8.registers[instruction.x as usize]
        & chip8.registers[instruction.y as usize];
}

/// 0x8xy3 - XOR Vx, Vy
///
/// Vx = Vx ^ Vy.
pub fn XOR_Vx_Vy(chip8: &mut Chip8, instruction: Instruction)
    requires
        old(chip8).wf(),
        instruction.wf(),
    ensures
        final(chip8)@ == semantics::xor_vx_vy(old(chip8)@, instruction),
        final(chip8).wf(),
{
    chip8.registers[instruction.x as usize] = chip8.registers[instruction.x as usize]
        ^ chip8.registers[instruction.y as usize];
}

/// 0x8xy4 - ADD Vx, Vy
///
/// Vx = Vx + Vy modulo 256; VF = 1 on a carry, 0 otherwise.
pub fn ADD_Vx_Vy(chip8: &mut Chip8, instruction: Instruction)
    requires
        old(chip8).wf(),
        instruction.wf(),
    ensures
        final(chip8)@ == semantics::add_vx_vy(old(chip8)@, instruction),
        final(chip8).wf(),
{
    let a = chip8.registers[instruction.x as usize];
    let b = chip8.registers[instruction.y as usize];
    let carry = a as u16 + b as u16 > 0xFF;
    chip8.registers[instruction.x as usize] = a.wrapping_add(b);
    chip8.registers[0xF] = if carry { 1 } else { 0 };
}

/// 0x8xy5 - SUB Vx, Vy
///
/// Vx = Vx - Vy modulo 256; VF = 0 on a borrow, 1 otherwise.
pub fn SUB_Vx_Vy(chip8: &mut Chip8, instruction: Instruction)
    requires
        old(chip8).wf(),
        instruction.wf(),
    ensures
        final(chip8)@ == semantics::sub_vx_vy(old(chip8)@, instruction),
        final(chip8).wf(),
{
    let a = chip8.registers[instruction.x as usize];
    let b = chip8.registers[instruction.y as usize];
    chip8.registers[instruction.x as usize] = a.wrapping_sub(b);
    chip8.registers[0xF] = if a >= b { 1 } else { 0 };
}

/// 0x8xy6 - SHR Vx
///
/// Vx = Vx >> 1; VF = the least significant bit of Vx before the shift.
pub fn SHR_Vx(chip8: &mut Chip8, instruction: Instruction)
    requires
        old(chip8).wf(),
        instruction.wf(),
    ensures
        final(chip8)@ == semantics::shr_vx(old(chip8)@, instruction),
        final(chip8).wf(),
{
    let a = chip8.registers[instruction.x as usize];
    assert(a >> 1u8 == a / 2 && a & 1u8 == a % 2) by (bit_vector);
    chip8.registers[instruction.x as usize] = a >> 1;
    chip8.registers[0xF] = a & 0x1;
}

/// 0x8xy7 - SUBN Vx, Vy
///
/// Vx = Vy - Vx modulo 256; VF = 0 on a borrow, 1 otherwise.
pub fn SUBN_Vx_Vy(chip8: &mut Chip8, instruction: Instruction)
    requires
        old(chip8).wf(),
        instruction.wf(),
    ensures
        final(chip8)@ == semantics::subn_vx_vy(old(chip8)@, instruction),
        final(chip8).wf(),
{
    let a = chip8.registers[instruction.x as usize];
    let b = chip8.registers[instruction.y as usize];
    chip8.registers[instruction.x as usize] = b.wrapping_sub(a);
    chip8.registers[0xF] = if b >= a { 1 } else { 0 };
}

/// 0x8xyE - SHL Vx
///
/// Vx = Vx << 1 modulo 256; VF = the most significant bit of Vx before the shift.
pub fn SHL_Vx(chip8: &mut Chip8, instruction: Instruction)
    requires
        old(chip8).wf(),
        instruction.wf(),
    ensures
        final(chip8)@ == semantics::shl_vx(old(chip8)@, instruction),
        final(chip8).wf(),
{
    let a = chip8.registers[instruction.x as usize];
    assert(a << 1u8 == ((a as int * 2) % 256) as u8 && (a & 0x80u8) >> 7u8 == a / 128)
        by (bit_vector);
    chip8.registers[instruction.x as usize] = a << 1;
    chip8.registers[0xF] = (a & 0x80) >> 7;
}

/// Handles the `0x8???` opcodes.
pub fn _8xxx(chip8: &mut Chip8, instruction: Instruction) -> (r: Result<(), Chip8Error>)
    requires
        old(chip8).wf(),
        instruction.wf(),
    ensures
        semantics::outcome(
            semantics::alu_spec(old(chip8)@, instruction),
            old(chip8)@,
            final(chip8)@,
            r,
        ),
        final(chip8).wf(),
{
    match instruction.n {
        0x0 => LD_Vx_Vy(chip8, instruction),
        0x1 => OR_Vx_Vy(chip8, instruction),
        0x2 => AND_Vx_Vy(chip8, instruction),
        0x3 => XOR_Vx_Vy(chip8, instruction),
        0x4 => ADD_Vx_Vy(chip8, instruction),
        0x5 => SUB_Vx_Vy(chip8, instruction),
        0x6 => SHR_Vx(chip8, instruction),
        0x7 => SUBN_Vx_Vy(chip8, instruction),
        0xE => SHL_Vx(chip8, instruction),
        _ => return Err(Chip8Error::UnknownOpcode(instruction.opcode)),
    }
    Ok(())
}

/// 0x9xy0 - SNE Vx, Vy
///
/// Skips the next instruction if Vx != Vy.
pub fn SNE_Vx_Vy(chip8: &mut Chip8, instruction: Instruction)
    requires
        old(chip8).wf(),
        instruction.wf(),
    ensures
        final(chip8)@ == semantics::sne_vx_vy(old(chip8)@, instruction),
        final(chip8).wf(),
{
    if chip8.registers[instruction.x as usize] != chip8.registers[instruction.y as usize] {
        chip8.pc = chip8.pc.wrapping_add(2);
    }
}

/// 0xAnnn - LD I, addr
///
/// I = nnn.
pub fn LD_I_addr(chip8: &mut Chip8, instruction: Instruction)
    requires
        old(chip8).wf(),
        instruction.wf(),
    ensures
        final(chip8)@ == semantics::ld_i_addr(old(chip8)@, instruction),
        final(chip8).wf(),
{
    chip8.index = instruction.nnn;
}

/// 0xBnnn - JP V0, addr
///
/// Jumps to nnn + V0.
pub fn JP_V0_addr(chip8: &mut Chip8, instruction: Instruction)
    requires
        old(chip8).wf(),
        instruction.wf(),
    ensures
        final(chip8)@ == semantics::jp_v0_addr(old(chip8)@, instruction),
        final(chip8).wf(),
{
    chip8.pc = instruction.nnn + chip8.registers[0] as u16;
}

/// 0xCxnn - RND Vx, byte, with the random byte given
///
/// Vx = random & nn.
pub fn RND_Vx_byte_with(chip8: &mut Chip8, instruction: Instruction, random: u8)
    requires
        old(chip8).wf(),
        instruction.wf(),
    ensures
        final(chip8)@ == semantics::rnd_vx_byte(old(chip8)@, instruction, random),
        final(chip8).wf(),
{
    chip8.registers[instruction.x as usize] = random & instruction.nn;
}

/// 0xCxnn - RND Vx, byte
///
/// Vx = a random byte & nn.
pub fn RND_Vx_byte(chip8: &mut Chip8, instruction: Instruction)
    requires
        old(chip8).wf(),
        instruction.wf(),
    ensures
        exists|random: u8| final(chip8)@ == semantics::rnd_vx_byte(old(chip8)@, instruction, random),
        final(chip8).wf(),
{
    let random = random_byte();
    RND_Vx_byte_with(chip8, instruction, random);
}

/// 0xEx9E - SKP Vx
///
/// Skips the next instruction if the key named by the low nibble of Vx is held.
pub fn SKP_Vx(chip8: &mut Chip8, instruction: Instruction)
    requires
        old(chip8).wf(),
        instruction.wf(),
    ensures
        final(chip8)@ == semantics::skp_vx(old(chip8)@, instruction),
        final(chip8).wf(),
{
    if chip8.keypad[(chip8.registers[instruction.x as usize] % 16) as usize] {
        chip8.pc = chip8.pc.wrapping_add(2);
    }
}

/// 0xExA1 - SKNP Vx
///
/// Skips the next instruction if the key named by the low nibble of Vx is not held.
pub fn SKNP_Vx(chip8: &mut Chip8, instruction: Instruction)
    requires
        old(chip8).wf(),
        instruction.wf(),
    ensures
        final(chip8)@ == semantics::sknp_vx(old(chip8)@, instruction),
        final(chip8).wf(),
{
    if !chip8.keypad[(chip8.registers[instruction.x as usize] % 16) as usize] {
        chip8.pc = chip8.pc.wrapping_add(2);
    }
}

/// Handles the `0xE???` opcodes.
pub fn _Exxx(chip8: &mut Chip8, instruction: Instruction) -> (r: Result<(), Chip8Error>)
    requires
        old(chip8).wf(),
        instruction.wf(),
    ensures
        semantics::outcome(
            semantics::key_spec(old(chip8)@, instruction),
            old(chip8)@,
            final(chip8)@,
            r,
        ),
        final(chip8).wf(),
{
    match instruction.nn {
        0x9E => SKP_Vx(chip8, instruction),
        0xA1 => SKNP_Vx(chip8, instruction),
        _ => return Err(Chip8Error::UnknownOpcode(instruction.opcode)),
    }
    Ok(())
}

/// 0xFx07 - LD Vx, DT
///
/// Vx = the delay timer.
pub fn LD_Vx_DT(chip8: &mut Chip8, instruction: Instruction)
    requires
        old(chip8).wf(),
        instruction.wf(),
    ensures
        final(chip8)@ == semantics::ld_vx_dt(old(chip8)@, instruction),
        final(chip8).wf(),
{
    chip8.registers[instruction.x as usize] = chip8.delay_timer;
}

/// 0xFx0A - LD Vx, K
///
/// Waits for a key press and stores the lowest held key in Vx. While no key has gone down
/// the program counter is moved back, so the instruction runs again on the next step.
pub fn LD_Vx_K(chip8: &mut Chip8, instruction: Instruction)
    requires
        old(chip8).wf(),
        instruction.wf(),
    ensures
        final(chip8)@ == semantics::ld_vx_k(old(chip8)@, instruction),
        final(chip8).wf(),
{
    let mut key: usize = 0;
    while key < NUM_KEYS && !chip8.keypad[key]
        invariant
            chip8.wf(),
            key <= 16,
            chip8@ == old(chip8)@,
            semantics::first_pressed(chip8@.keypad, 0) == semantics::first_pressed(
                chip8@.keypad,
                key as int,
            ),
        decreases 16 - key,
    {
        key = key + 1;
    }
    if chip8.key_pressed && key < NUM_KEYS {
        chip8.registers[instruction.x as usize] = key as u8;
        chip8.key_pressed = false;
        chip8.key_wait = KeyWait::Idle;
    } else {
        chip8.pc = chip8.pc.wrapping_sub(2);
        chip8.key_wait = KeyWait::WaitingForKey;
    }
}

/// 0xFx15 - LD DT, Vx
///
/// The delay timer = Vx.
pub fn LD_DT_Vx(chip8: &mut Chip8, instruction: Instruction)
    requires
        old(chip8).wf(),
        instruction.wf(),
    ensures
        final(chip8)@ == semantics::ld_dt_vx(old(chip8)@, instruction),
        final(chip8).wf(),
{
    chip8.delay_timer = chip8.registers[instruction.x as usize];
}

/// 0xFx18 - LD ST, Vx
///
/// The sound timer = Vx.
pub fn LD_ST_Vx(chip8: &mut Chip8, instruction: Instruction)
    requires
        old(chip8).wf(),
        instruction.wf(),
    ensures
        final(chip8)@ == semantics::ld_st_vx(old(chip8)@, instruction),
        final(chip8).wf(),
{
    chip8.sound_timer = chip8.registers[instruction.x as usize];
}

/// 0xFx1E - ADD I, Vx
///
/// I = I + Vx modulo 2^16; VF is left alone.
pub fn ADD_I_Vx(chip8: &mut Chip8, instruction: Instruction)
    requires
        old(chip8).wf(),
        instruction.wf(),
    ensures
        final(chip8)@ == semantics::add_i_vx(old(chip8)@, instruction),
        final(chip8).wf(),
{
    chip8.index = chip8.index.wrapping_add(chip8.registers[instruction.x as usize] as u16);
}

/// 0xFx29 - LD F, Vx
///
/// I = the address of the font glyph for Vx.
pub fn LD_F_Vx(chip8: &mut Chip8, instruction: Instruction)
    requires
        old(chip8).wf(),
        instruction.wf(),
    ensures
        final(chip8)@ == semantics::ld_f_vx(old(chip8)@, instruction),
        final(chip8).wf(),
{
    chip8.index = FONTSET_START_ADDRESS as u16 + chip8.registers[instruction.x as usize] as u16 * 5;
}

/// 0xFx33 - LD B, Vx
///
/// Stores the decimal digits of Vx at I (hundreds), I+1 (tens) and I+2 (ones).
pub fn LD_B_Vx(chip8: &mut Chip8, instruction: Instruction)
    requires
        old(chip8).wf(),
        instruction.wf(),
    ensures
        final(chip8)@ == semantics::ld_b_vx(old(chip8)@, instruction),
        final(chip8).wf(),
{
    let mut x = chip8.registers[instruction.x as usize];
    let index = chip8.index as usize;

    chip8.memory[(index + 2) % RAM_SIZE] = x % 10;
    x = x / 10;
    chip8.memory[(index + 1) % RAM_SIZE] = x % 10;
    x = x / 10;
    chip8.memory[index % RAM_SIZE] = x % 10;
    assert(chip8@.memory =~= semantics::ld_b_vx(old(chip8)@, instruction).memory);
}

/// 0xFx55 - LD [I], Vx
///
/// Stores V0 to Vx in memory from I on.
pub fn LD_I_Vx(chip8: &mut Chip8, instruction: Instruction)
    requires
        old(chip8).wf(),
        instruction.wf(),
    ensures
        final(chip8)@ == semantics::ld_i_vx(old(chip8)@, instruction),
        final(chip8).wf(),
{
    let ghost m = chip8@;
    let last = instruction.x as usize;
    for i in 0..last + 1
        invariant
            chip8.wf(),
            m.wf(),
            last == instruction.x,
            instruction.x < 16,
            chip8@ == (Machine { memory: chip8@.memory, ..m }),
            forall|a: int|
                0 <= a < 4096 ==> #[trigger] chip8@.memory[a] == if (a - m.index) % 4096 < i {
                    m.registers[(a - m.index) % 4096]
                } else {
                    m.memory[a]
                },
    {
        let at = (chip8.index as usize + i) % RAM_SIZE;
        let ghost before = chip8@.memory;
        chip8.memory[at] = chip8.registers[i];
        proof {
            assert forall|a: int| 0 <= a < 4096 implies #[trigger] chip8@.memory[a] == if (a
                - m.index) % 4096 < i + 1 {
                m.registers[(a - m.index) % 4096]
            } else {
                m.memory[a]
            } by {
                semantics::lemma_offset(m.index as int, i as int, a);
                assert(before[a] == if (a - m.index) % 4096 < i {
                    m.registers[(a - m.index) % 4096]
                } else {
                    m.memory[a]
                });
            }
        }
    }
    assert(chip8@.memory =~= semantics::ld_i_vx(m, instruction).memory);
}

/// 0xFx65 - LD Vx, [I]
///
/// Loads V0 to Vx from memory from I on.
pub fn LD_Vx_I(chip8: &mut Chip8, instruction: Instruction)
    requires
        old(chip8).wf(),
        instruction.wf(),
    ensures
        final(chip8)@ == semantics::ld_vx_i(old(chip8)@, instruction),
        final(chip8).wf(),
{
    let ghost m = chip8@;
    let last = instruction.x as usize;
    for i in 0..last + 1
        invariant
            chip8.wf(),
            m.wf(),
            last == instruction.x,
            instruction.x < 16,
            chip8@ == (Machine { registers: chip8@.registers, ..m }),
            forall|k: int|
                0 <= k < 16 ==> #[trigger] chip8@.registers[k] == if k < i {
                    m.memory[semantics::addr(m.index + k)]
                } else {
                    m.registers[k]
                },
    {
        chip8.registers[i] = chip8.memory[(chip8.index as usize + i) % RAM_SIZE];
    }
    assert(chip8@.registers =~= semantics::ld_vx_i(m, instruction).registers);
}

/// Handles the `0xF???` opcodes.
pub fn _Fxxx(chip8: &mut Chip8, instruction: Instruction) -> (r: Result<(), Chip8Error>)
    requires
        old(chip8).wf(),
        instruction.wf(),
    ensures
        semantics::outcome(
            semantics::misc_spec(old(chip8)@, instruction),
            old(chip8)@,
            final(chip8)@,
            r,
        ),
        final(chip8).wf(),
{
    match instruction.nn {
        0x07 => LD_Vx_DT(chip8, instruction),
        0x0A => LD_Vx_K(chip8, instruction),
        0x15 => LD_DT_Vx(chip8, instruction),
        0x18 => LD_ST_Vx(chip8, instruction),
        0x1E => ADD_I_Vx(chip8, instruction),
        0x29 => LD_F_Vx(chip8, instruction),
        0x33 => LD_B_Vx(chip8, instruction),
        0x55 => LD_I_Vx(chip8, instruction),
        0x65 => LD_Vx_I(chip8, instruction),
        _ => return Err(Chip8Error::UnknownOpcode(instruction.opcode)),
    }
    Ok(())
}

/// The pixel that column `bit` of sprite row `row` lands on, for a sprite placed at
/// (`x0`, `y0`), is the only pixel at that row and column of the sprite.
proof fn lemma_sprite_pixel(x0: int, y0: int, row: int, bit: int)
    requires
        0 <= x0 < 64,
        0 <= y0 < 32,
        0 <= row < 16,
        0 <= bit < 8,
    ensures
        ({
            let idx = ((y0 + row) % 32) * 64 + (x0 + bit) % 64;
            &&& 0 <= idx < 2048
            &&& sprite_row_of(idx, y0) == row
            &&& sprite_col_of(idx, x0) == bit
            &&& forall|p: int|
                0 <= p < 2048 && sprite_row_of(p, y0) == row && sprite_col_of(p, x0) == bit
                    ==> p == idx
        }),
{
    let py = (y0 + row) % 32;
    let px = (x0 + bit) % 64;
    assert(py == if y0 + row < 32 { y0 + row } else { y0 + row - 32 });
    assert(px == if x0 + bit < 64 { x0 + bit } else { x0 + bit - 64 });
    let idx = py * 64 + px;
    assert(idx / 64 == py && idx % 64 == px) by (nonlinear_arith)
        requires
            idx == py * 64 + px,
            0 <= px < 64,
            0 <= py < 32,
    ;
    assert forall|p: int|
        0 <= p < 2048 && sprite_row_of(p, y0) == row && sprite_col_of(p, x0) == bit implies p
            == idx by {
        let (q, r) = (p / 64, p % 64);
        assert(p == q * 64 + r && 0 <= r < 64 && 0 <= q < 32) by (nonlinear_arith)
            requires
                0 <= p < 2048,
                q == p / 64,
                r == p % 64,
        ;
        assert(q - y0 == row || q - y0 == row - 32);
        assert(r - x0 == bit || r - x0 == bit - 64);
    }
}

/// Testing a sprite row against the mask of column `k` reads bit `k` from the left.
proof fn lemma_sprite_mask(b: u8, k: u8)
    requires
        k < 8,
    ensures
        (b & (0x80u8 >> k) != 0) == sprite_bit(b, k as int),
{
    let s = (7 - k) as u8;
    assert((b & (0x80u8 >> k) != 0) == ((b >> s) & 1u8 == 1u8)) by (bit_vector)
        requires
            k < 8,
            s == 7 - k,
    ;
}

/// Pixel `p` has been drawn by a sprite blit that has completed the rows before `row` and, in
/// row `row`, the columns before `bit`.
spec fn drawn(m: Machine, ins: Instruction, x0: int, y0: int, row: int, bit: int, p: int) -> bool {
    &&& sprite_covers(m.memory, m.index, ins.n, x0, y0, p)
    &&& (sprite_row_of(p, y0) < row || (sprite_row_of(p, y0) == row && sprite_col_of(p, x0) < bit))
}

/// Some pixel that was lit has been drawn over so far.
spec fn collided(m: Machine, ins: Instruction, x0: int, y0: int, row: int, bit: int) -> bool {
    exists|p: int| 0 <= p < 2048 && m.display[p] && #[trigger] drawn(m, ins, x0, y0, row, bit, p)
}

/// The screen so far is the original one XORed with the pixels drawn so far.
spec fn blit_so_far(
    m: Machine,
    ins: Instruction,
    x0: int,
    y0: int,
    row: int,
    bit: int,
    d: Seq<bool>,
) -> bool {
    &&& d.len() == 2048
    &&& forall|p: int|
        0 <= p < 2048 ==> #[trigger] d[p] == (m.display[p] != drawn(m, ins, x0, y0, row, bit, p))
}

/// Drawing one more sprite column flips exactly its pixel, when the sprite bit is set.
proof fn lemma_blit_pixel(
    m: Machine,
    ins: Instruction,
    x0: int,
    y0: int,
    row: int,
    bit: int,
    idx: int,
    set: bool,
    d0: Seq<bool>,
    d1: Seq<bool>,
)
    requires
        m.wf(),
        0 <= x0 < 64,
        0 <= y0 < 32,
        0 <= row < ins.n,
        ins.n < 16,
        0 <= bit < 8,
        idx == ((y0 + row) % 32) * 64 + (x0 + bit) % 64,
        set == sprite_bit(m.memory[semantics::addr(m.index + row)], bit),
        blit_so_far(m, ins, x0, y0, row, bit, d0),
        d1 == (if set { d0.update(idx, !d0[idx]) } else { d0 }),
    ensures
        0 <= idx < 2048,
        blit_so_far(m, ins, x0, y0, row, bit + 1, d1),
        (collided(m, ins, x0, y0, row, bit) || (set && d0[idx])) == collided(
            m,
            ins,
            x0,
            y0,
            row,
            bit + 1,
        ),
{
    lemma_sprite_pixel(x0, y0, row, bit);
    assert(set == drawn(m, ins, x0, y0, row, bit + 1, idx));
    assert(!drawn(m, ins, x0, y0, row, bit, idx));
    assert forall|p: int| 0 <= p < 2048 implies #[trigger] d1[p] == (m.display[p] != drawn(
        m,
        ins,
        x0,
        y0,
        row,
        bit + 1,
        p,
    )) by {
        if p != idx {
            assert(drawn(m, ins, x0, y0, row, bit + 1, p) == drawn(m, ins, x0, y0, row, bit, p));
        }
    }
    if collided(m, ins, x0, y0, row, bit) {
        let w = choose|p: int|
            0 <= p < 2048 && m.display[p] && #[trigger] drawn(m, ins, x0, y0, row, bit, p);
        assert(drawn(m, ins, x0, y0, row, bit + 1, w));
    }
    if set && d0[idx] {
        assert(drawn(m, ins, x0, y0, row, bit + 1, idx));
    }
    if collided(m, ins, x0, y0, row, bit + 1) {
        let w = choose|p: int|
            0 <= p < 2048 && m.display[p] && #[trigger] drawn(m, ins, x0, y0, row, bit + 1, p);
        if w != idx {
            assert(drawn(m, ins, x0, y0, row, bit, w));
        }
    }
}

/// A completed row is the start of the next one.
proof fn lemma_blit_row(m: Machine, ins: Instruction, x0: int, y0: int, row: int, d: Seq<bool>)
    requires
        blit_so_far(m, ins, x0, y0, row, 8, d),
    ensures
        blit_so_far(m, ins, x0, y0, row + 1, 0, d),
        collided(m, ins, x0, y0, row, 8) == collided(m, ins, x0, y0, row + 1, 0),
{
    assert forall|p: int| #[trigger]
        drawn(m, ins, x0, y0, row, 8, p) == drawn(m, ins, x0, y0, row + 1, 0, p) by {}
    assert forall|p: int| 0 <= p < 2048 implies #[trigger] d[p] == (m.display[p] != drawn(
        m,
        ins,
        x0,
        y0,
        row + 1,
        0,
        p,
    )) by {
        assert(drawn(m, ins, x0, y0, row, 8, p) == drawn(m, ins, x0, y0, row + 1, 0, p));
    }
    if collided(m, ins, x0, y0, row, 8) {
        let w = choose|p: int|
            0 <= p < 2048 && m.display[p] && #[trigger] drawn(m, ins, x0, y0, row, 8, p);
        assert(drawn(m, ins, x0, y0, row + 1, 0, w));
    }
    if collided(m, ins, x0, y0, row + 1, 0) {
        let w = choose|p: int|
            0 <= p < 2048 && m.display[p] && #[trigger] drawn(m, ins, x0, y0, row + 1, 0, p);
        assert(drawn(m, ins, x0, y0, row, 8, w));
    }
}

/// Once all `n` rows are done the blit is the one `Dxyn` describes.
proof fn lemma_blit_done(m: Machine, ins: Instruction, d: Seq<bool>, collision: bool)
    requires
        m.wf(),
        ins.wf(),
        blit_so_far(m, ins, m.vx(ins) as int % 64, m.vy(ins) as int % 32, ins.n as int, 0, d),
        collision == collided(m, ins, m.vx(ins) as int % 64, m.vy(ins) as int % 32, ins.n as int, 0),
    ensures
        ({
            let next = semantics::drw_vx_vy_n(m, ins);
            &&& d == next.display
            &&& m.registers.update(15, if collision { 1u8 } else { 0u8 }) == next.registers
        }),
{
    let (x0, y0, n) = (m.vx(ins) as int % 64, m.vy(ins) as int % 32, ins.n as int);
    let next = semantics::drw_vx_vy_n(m, ins);
    assert forall|p: int| #[trigger]
        drawn(m, ins, x0, y0, n, 0, p) == sprite_covers(m.memory, m.index, ins.n, x0, y0, p) by {}
    assert(d =~= next.display);
    if collision {
        let w = choose|p: int| 0 <= p < 2048 && m.display[p] && #[trigger] drawn(m, ins, x0, y0, n, 0, p);
        assert(sprite_covers(m.memory, m.index, ins.n, x0, y0, w));
    }
    if !collision {
        assert forall|p: int| 0 <= p < 2048 && m.display[p] implies !#[trigger] sprite_covers(
            m.memory,
            m.index,
            ins.n,
            x0,
            y0,
            p,
        ) by {
            assert(!drawn(m, ins, x0, y0, n, 0, p));
        }
    }
}

/// 0xDxyn - DRW Vx, Vy, n
///
/// XORs the `n`-row sprite stored at `I` onto the screen at (`Vx`, `Vy`); `VF` reports whether
/// a lit pixel was turned off.
pub fn DRW_Vx_Vy_n(chip8: &mut Chip8, instruction: Instruction)
    requires
        old(chip8).wf(),
        instruction.wf(),
    ensures
        final(chip8)@ == semantics::drw_vx_vy_n(old(chip8)@, instruction),
        final(chip8).wf(),
{
    let ghost m = chip8@;
    let x0 = (chip8.registers[instruction.x as usize] as usize) % WIDTH;
    let y0 = (chip8.registers[instruction.y as usize] as usize) % HEIGHT;
    let n = instruction.n as usize;
    let mut collision = false;
    proof {
        assert(chip8@.display =~= m.display);
    }
    for row in 0..n
        invariant
            chip8.wf(),
            m.wf(),
            instruction.wf(),
            n == instruction.n,
            x0 == m.vx(instruction) as int % 64,
            y0 == m.vy(instruction) as int % 32,
            chip8@ == (Machine { display: chip8@.display, ..m }),
            blit_so_far(m, instruction, x0 as int, y0 as int, row as int, 0, chip8@.display),
            collision == collided(m, instruction, x0 as int, y0 as int, row as int, 0),
    {
        let byte = chip8.memory[(chip8.index as usize + row) % RAM_SIZE];
        for bit in 0..8usize
            invariant
                chip8.wf(),
                m.wf(),
                instruction.wf(),
                n == instruction.n,
                row < n,
                x0 == m.vx(instruction) as int % 64,
                y0 == m.vy(instruction) as int % 32,
                byte == m.memory[semantics::addr(m.index + row)],
                chip8@ == (Machine { display: chip8@.display, ..m }),
                blit_so_far(m, instruction, x0 as int, y0 as int, row as int, bit as int, chip8@.display),
                collision == collided(m, instruction, x0 as int, y0 as int, row as int, bit as int),
        {
            let idx = ((y0 + row) % HEIGHT) * WIDTH + (x0 + bit) % WIDTH;
            let ghost d0 = chip8@.display;
            proof {
                lemma_sprite_pixel(x0 as int, y0 as int, row as int, bit as int);
                lemma_sprite_mask(byte, bit as u8);
            }
            let set = byte & (0x80u8 >> (bit as u8)) != 0;
            proof {
                lemma_blit_pixel(
                    m,
                    instruction,
                    x0 as int,
                    y0 as int,
                    row as int,
                    bit as int,
                    idx as int,
                    set,
                    d0,
                    if set { d0.update(idx as int, !d0[idx as int]) } else { d0 },
                );
            }
            if set {
                let on = chip8.display[idx];
                if on {
                    collision = true;
                }
                chip8.display[idx] = !on;
            }
            assert(chip8@.display =~= if set { d0.update(idx as int, !d0[idx as int]) } else { d0 });
        }
        proof {
            lemma_blit_row(m, instruction, x0 as int, y0 as int, row as int, chip8@.display);
        }
    }
    proof {
        lemma_blit_done(m, instruction, chip8@.display, collision);
    }
    chip8.registers[15] = if collision { 1 } else { 0 };
}

} // verus!
