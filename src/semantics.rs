//! The mathematical model of the machine and the meaning of every instruction over it.
use vstd::prelude::*;
use crate::decode::{Instruction, decode_spec};

verus! {

/// Progress of the blocking key-wait instruction (`Fx0A`).
#[derive(Clone, Copy, Debug, PartialEq, Eq, Structural)]
pub enum KeyWait {
    /// No key-wait is in progress.
    Idle,
    /// `Fx0A` ran without a key press and is re-executed on every step until one comes.
    WaitingForKey,
}

/// A fatal condition raised while executing an instruction.
#[derive(Clone, Copy, Debug, PartialEq, Eq, Structural)]
pub enum Chip8Error {
    /// The opcode has no defined meaning.
    UnknownOpcode(u16),
    /// A call was made with all stack slots in use.
    StackOverflow,
    /// A return was made with an empty stack.
    StackUnderflow,
}

/// The whole state of the machine, as values.
pub struct Machine {
    pub registers: Seq<u8>,
    pub memory: Seq<u8>,
    pub index: u16,
    pub pc: u16,
    pub stack: Seq<u16>,
    pub sp: u8,
    pub delay_timer: u8,
    pub sound_timer: u8,
    pub keypad: Seq<bool>,
    /// Set when a key goes from released to pressed; consumed by `Fx0A`.
    pub key_latch: bool,
    pub key_wait: KeyWait,
    /// Row-major, `WIDTH` pixels per row.
    pub display: Seq<bool>,
}

impl Machine {
    /// The sizes of every part are those of the machine and the stack pointer names a slot
    /// or the slot past the last.
    pub open spec fn wf(self) -> bool {
        &&& self.registers.len() == 16
        &&& self.memory.len() == 4096
        &&& self.stack.len() == 16
        &&& self.sp <= 16
        &&& self.keypad.len() == 16
        &&& self.display.len() == 2048
    }

    pub open spec fn set_reg(self, i: int, v: u8) -> Machine {
        Machine { registers: self.registers.update(i, v), ..self }
    }

    pub open spec fn with_pc(self, pc: u16) -> Machine {
        Machine { pc, ..self }
    }

    pub open spec fn with_index(self, index: u16) -> Machine {
        Machine { index, ..self }
    }

    /// The register named by the `x` field.
    pub open spec fn vx(self, ins: Instruction) -> u8 {
        self.registers[ins.x as int]
    }

    /// The register named by the `y` field.
    pub open spec fn vy(self, ins: Instruction) -> u8 {
        self.registers[ins.y as int]
    }
}

/// `v` reduced modulo 2^16.
pub open spec fn wrap16(v: int) -> u16 {
    (v % 0x10000) as u16
}

/// `v` reduced modulo 2^8.
pub open spec fn wrap8(v: int) -> u8 {
    (v % 0x100) as u8
}

/// A memory address taken modulo the memory size.
pub open spec fn addr(a: int) -> int {
    a % 4096
}

/// The machine with the program counter moved past the next instruction.
pub open spec fn skip_if(m: Machine, cond: bool) -> Machine {
    if cond {
        m.with_pc(wrap16(m.pc + 2))
    } else {
        m
    }
}

/// `00E0`: every pixel off.
pub open spec fn cls(m: Machine) -> Machine {
    Machine { display: Seq::new(2048, |i: int| false), ..m }
}

/// `00EE`: pop the return address.
pub open spec fn ret(m: Machine) -> Result<Machine, Chip8Error> {
    if m.sp == 0 {
        Err(Chip8Error::StackUnderflow)
    } else {
        Ok(Machine { sp: (m.sp - 1) as u8, pc: m.stack[m.sp - 1], ..m })
    }
}

/// `1nnn`: jump.
pub open spec fn jp_addr(m: Machine, ins: Instruction) -> Machine {
    m.with_pc(ins.nnn)
}

/// `2nnn`: push the program counter and jump.
pub open spec fn call_addr(m: Machine, ins: Instruction) -> Result<Machine, Chip8Error> {
    if m.sp >= 16 {
        Err(Chip8Error::StackOverflow)
    } else {
        Ok(
            Machine {
                stack: m.stack.update(m.sp as int, m.pc),
                sp: (m.sp + 1) as u8,
                pc: ins.nnn,
                ..m
            },
        )
    }
}

/// `3xnn`.
pub open spec fn se_vx_byte(m: Machine, ins: Instruction) -> Machine {
    skip_if(m, m.vx(ins) == ins.nn)
}

/// `4xnn`.
pub open spec fn sne_vx_byte(m: Machine, ins: Instruction) -> Machine {
    skip_if(m, m.vx(ins) != ins.nn)
}

/// `5xy0`.
pub open spec fn se_vx_vy(m: Machine, ins: Instruction) -> Machine {
    skip_if(m, m.vx(ins) == m.vy(ins))
}

/// `9xy0`.
pub open spec fn sne_vx_vy(m: Machine, ins: Instruction) -> Machine {
    skip_if(m, m.vx(ins) != m.vy(ins))
}

/// `6xnn`.
pub open spec fn ld_vx_byte(m: Machine, ins: Instruction) -> Machine {
    m.set_reg(ins.x as int, ins.nn)
}

/// `7xnn`: wrapping add, flag untouched.
pub open spec fn add_vx_byte(m: Machine, ins: Instruction) -> Machine {
    m.set_reg(ins.x as int, wrap8(m.vx(ins) + ins.nn))
}

/// `8xy0`.
pub open spec fn ld_vx_vy(m: Machine, ins: Instruction) -> Machine {
    m.set_reg(ins.x as int, m.vy(ins))
}

/// `8xy1`.
pub open spec fn or_vx_vy(m: Machine, ins: Instruction) -> Machine {
    m.set_reg(ins.x as int, m.vx(ins) | m.vy(ins))
}

/// `8xy2`.
pub open spec fn and_vx_vy(m: Machine, ins: Instruction) -> Machine {
    m.set_reg(ins.x as int, m.vx(ins) & m.vy(ins))
}

/// `8xy3`.
pub open spec fn xor_vx_vy(m: Machine, ins: Instruction) -> Machine {
    m.set_reg(ins.x as int, m.vx(ins) ^ m.vy(ins))
}

/// `8xy4`: the sum modulo 256, then the carry into `VF`.
pub open spec fn add_vx_vy(m: Machine, ins: Instruction) -> Machine {
    let sum = m.vx(ins) + m.vy(ins);
    m.set_reg(ins.x as int, wrap8(sum)).set_reg(15, if sum > 255 { 1 } else { 0 })
}

/// `8xy5`: the difference modulo 256, then `VF` = no borrow.
pub open spec fn sub_vx_vy(m: Machine, ins: Instruction) -> Machine {
    let (a, b) = (m.vx(ins), m.vy(ins));
    m.set_reg(ins.x as int, wrap8(a - b)).set_reg(15, if a >= b { 1 } else { 0 })
}

/// `8xy6`: halve, then `VF` = the bit shifted out.
pub open spec fn shr_vx(m: Machine, ins: Instruction) -> Machine {
    let a = m.vx(ins);
    m.set_reg(ins.x as int, (a / 2) as u8).set_reg(15, (a % 2) as u8)
}

/// `8xy7`: the reverse difference modulo 256, then `VF` = no borrow.
pub open spec fn subn_vx_vy(m: Machine, ins: Instruction) -> Machine {
    let (a, b) = (m.vx(ins), m.vy(ins));
    m.set_reg(ins.x as int, wrap8(b - a)).set_reg(15, if b >= a { 1 } else { 0 })
}

/// `8xyE`: double modulo 256, then `VF` = the bit shifted out.
pub open spec fn shl_vx(m: Machine, ins: Instruction) -> Machine {
    let a = m.vx(ins);
    m.set_reg(ins.x as int, wrap8(a * 2)).set_reg(15, (a / 128) as u8)
}

/// `Annn`.
pub open spec fn ld_i_addr(m: Machine, ins: Instruction) -> Machine {
    m.with_index(ins.nnn)
}

/// `Bnnn`.
pub open spec fn jp_v0_addr(m: Machine, ins: Instruction) -> Machine {
    m.with_pc((ins.nnn + m.registers[0]) as u16)
}

/// `Cxnn`, given the random byte drawn.
pub open spec fn rnd_vx_byte(m: Machine, ins: Instruction, random: u8) -> Machine {
    m.set_reg(ins.x as int, random & ins.nn)
}

/// Bit `k` of a sprite row, counting from the leftmost (most significant) pixel.
pub open spec fn sprite_bit(row: u8, k: int) -> bool {
    (row >> ((7 - k) as u8)) & 1u8 == 1u8
}

/// The row of the sprite that lands on pixel `p` when its top row is at `y0`.
pub open spec fn sprite_row_of(p: int, y0: int) -> int {
    (p / 64 - y0) % 32
}

/// The column of the sprite that lands on pixel `p` when its left column is at `x0`.
pub open spec fn sprite_col_of(p: int, x0: int) -> int {
    (p % 64 - x0) % 64
}

/// Whether the sprite of `n` rows read at `index`, placed with its top-left corner at
/// (`x0`, `y0`), has a set bit on pixel `p`; both axes wrap around the screen.
pub open spec fn sprite_covers(mem: Seq<u8>, index: u16, n: u8, x0: int, y0: int, p: int) -> bool {
    let dr = sprite_row_of(p, y0);
    let dc = sprite_col_of(p, x0);
    &&& dr < n
    &&& dc < 8
    &&& sprite_bit(mem[addr(index + dr)], dc)
}

/// `Dxyn`: XOR the sprite onto the screen; `VF` = whether a pixel that was on is turned off.
pub open spec fn drw_vx_vy_n(m: Machine, ins: Instruction) -> Machine {
    let x0 = m.vx(ins) as int % 64;
    let y0 = m.vy(ins) as int % 32;
    let collision = exists|p: int|
        0 <= p < 2048 && m.display[p] && #[trigger] sprite_covers(
            m.memory,
            m.index,
            ins.n,
            x0,
            y0,
            p,
        );
    Machine {
        display: Seq::new(
            2048,
            |p: int| m.display[p] != sprite_covers(m.memory, m.index, ins.n, x0, y0, p),
        ),
        registers: m.registers.update(15, if collision { 1 } else { 0 }),
        ..m
    }
}

/// The key that `Ex9E`, `ExA1` test: the low nibble of `Vx`.
pub open spec fn key_of(v: u8) -> int {
    v as int % 16
}

/// `Ex9E`.
pub open spec fn skp_vx(m: Machine, ins: Instruction) -> Machine {
    skip_if(m, m.keypad[key_of(m.vx(ins))])
}

/// `ExA1`.
pub open spec fn sknp_vx(m: Machine, ins: Instruction) -> Machine {
    skip_if(m, !m.keypad[key_of(m.vx(ins))])
}

/// `Fx07`.
pub open spec fn ld_vx_dt(m: Machine, ins: Instruction) -> Machine {
    m.set_reg(ins.x as int, m.delay_timer)
}

/// The lowest pressed key at or after `from`, or the number of keys if none is pressed.
pub open spec fn first_pressed(keys: Seq<bool>, from: int) -> int
    decreases keys.len() - from,
{
    if from < 0 || from >= keys.len() {
        keys.len() as int
    } else if keys[from] {
        from
    } else {
        first_pressed(keys, from + 1)
    }
}

/// `Fx0A`: if a key went down since the last completed wait and a key is held, `Vx` takes
/// the lowest held key; otherwise the program counter is moved back onto this instruction.
pub open spec fn ld_vx_k(m: Machine, ins: Instruction) -> Machine {
    let k = first_pressed(m.keypad, 0);
    if m.key_latch && k < 16 {
        Machine {
            registers: m.registers.update(ins.x as int, k as u8),
            key_latch: false,
            key_wait: KeyWait::Idle,
            ..m
        }
    } else {
        Machine { pc: wrap16(m.pc - 2), key_wait: KeyWait::WaitingForKey, ..m }
    }
}

/// `Fx15`.
pub open spec fn ld_dt_vx(m: Machine, ins: Instruction) -> Machine {
    Machine { delay_timer: m.vx(ins), ..m }
}

/// `Fx18`.
pub open spec fn ld_st_vx(m: Machine, ins: Instruction) -> Machine {
    Machine { sound_timer: m.vx(ins), ..m }
}

/// `Fx1E`: 16-bit wrapping add, flag untouched.
pub open spec fn add_i_vx(m: Machine, ins: Instruction) -> Machine {
    m.with_index(wrap16(m.index + m.vx(ins)))
}

/// `Fx29`: the address of the glyph for `Vx`.
pub open spec fn ld_f_vx(m: Machine, ins: Instruction) -> Machine {
    m.with_index((0x50 + m.vx(ins) * 5) as u16)
}

/// `Fx33`: hundreds, tens and ones digit of `Vx` at `I`, `I+1`, `I+2`.
pub open spec fn ld_b_vx(m: Machine, ins: Instruction) -> Machine {
    let v = m.vx(ins);
    let i = m.index;
    Machine {
        memory: m.memory.update(addr(i + 2), (v % 10) as u8).update(
            addr(i + 1),
            ((v / 10) % 10) as u8,
        ).update(addr(i as int), (v / 100) as u8),
        ..m
    }
}

/// `Fx55`: `V0`..=`Vx` stored from `I` on.
pub open spec fn ld_i_vx(m: Machine, ins: Instruction) -> Machine {
    Machine {
        memory: Seq::new(
            4096,
            |a: int|
                if (a - m.index) % 4096 <= ins.x {
                    m.registers[(a - m.index) % 4096]
                } else {
                    m.memory[a]
                },
        ),
        ..m
    }
}

/// `Fx65`: `V0`..=`Vx` loaded from `I` on.
pub open spec fn ld_vx_i(m: Machine, ins: Instruction) -> Machine {
    Machine {
        registers: Seq::new(
            16,
            |k: int|
                if k <= ins.x {
                    m.memory[addr(m.index + k)]
                } else {
                    m.registers[k]
                },
        ),
        ..m
    }
}

/// The effect of one instruction; `random` is the byte drawn for `Cxnn`.
#[verifier::opaque]
pub open spec fn execute_spec(m: Machine, ins: Instruction, random: u8) -> Result<Machine, Chip8Error> {
    let f = ins.family();
    if f == 0x0 {
        system_spec(m, ins)
    } else if f == 0x1 {
        Ok(jp_addr(m, ins))
    } else if f == 0x2 {
        call_addr(m, ins)
    } else if f == 0x3 {
        Ok(se_vx_byte(m, ins))
    } else if f == 0x4 {
        Ok(sne_vx_byte(m, ins))
    } else if f == 0x5 {
        Ok(se_vx_vy(m, ins))
    } else if f == 0x6 {
        Ok(ld_vx_byte(m, ins))
    } else if f == 0x7 {
        Ok(add_vx_byte(m, ins))
    } else if f == 0x8 {
        alu_spec(m, ins)
    } else if f == 0x9 {
        Ok(sne_vx_vy(m, ins))
    } else if f == 0xA {
        Ok(ld_i_addr(m, ins))
    } else if f == 0xB {
        Ok(jp_v0_addr(m, ins))
    } else if f == 0xC {
        Ok(rnd_vx_byte(m, ins, random))
    } else if f == 0xD {
        Ok(drw_vx_vy_n(m, ins))
    } else if f == 0xE {
        key_spec(m, ins)
    } else {
        misc_spec(m, ins)
    }
}

/// The system instructions of family `0`, selected by the whole opcode.
pub open spec fn system_spec(m: Machine, ins: Instruction) -> Result<Machine, Chip8Error> {
    if ins.opcode == 0x00E0 {
        Ok(cls(m))
    } else if ins.opcode == 0x00EE {
        ret(m)
    } else {
        Err(Chip8Error::UnknownOpcode(ins.opcode))
    }
}

/// The key tests of family `E`, selected by `nn`.
pub open spec fn key_spec(m: Machine, ins: Instruction) -> Result<Machine, Chip8Error> {
    if ins.nn == 0x9E {
        Ok(skp_vx(m, ins))
    } else if ins.nn == 0xA1 {
        Ok(sknp_vx(m, ins))
    } else {
        Err(Chip8Error::UnknownOpcode(ins.opcode))
    }
}

/// The register operations of family `8`, selected by `n`.
pub open spec fn alu_spec(m: Machine, ins: Instruction) -> Result<Machine, Chip8Error> {
    if ins.n == 0x0 {
        Ok(ld_vx_vy(m, ins))
    } else if ins.n == 0x1 {
        Ok(or_vx_vy(m, ins))
    } else if ins.n == 0x2 {
        Ok(and_vx_vy(m, ins))
    } else if ins.n == 0x3 {
        Ok(xor_vx_vy(m, ins))
    } else if ins.n == 0x4 {
        Ok(add_vx_vy(m, ins))
    } else if ins.n == 0x5 {
        Ok(sub_vx_vy(m, ins))
    } else if ins.n == 0x6 {
        Ok(shr_vx(m, ins))
    } else if ins.n == 0x7 {
        Ok(subn_vx_vy(m, ins))
    } else if ins.n == 0xE {
        Ok(shl_vx(m, ins))
    } else {
        Err(Chip8Error::UnknownOpcode(ins.opcode))
    }
}

/// The timer, key, index and memory operations of family `F`, selected by `nn`.
pub open spec fn misc_spec(m: Machine, ins: Instruction) -> Result<Machine, Chip8Error> {
    if ins.nn == 0x07 {
        Ok(ld_vx_dt(m, ins))
    } else if ins.nn == 0x0A {
        Ok(ld_vx_k(m, ins))
    } else if ins.nn == 0x15 {
        Ok(ld_dt_vx(m, ins))
    } else if ins.nn == 0x18 {
        Ok(ld_st_vx(m, ins))
    } else if ins.nn == 0x1E {
        Ok(add_i_vx(m, ins))
    } else if ins.nn == 0x29 {
        Ok(ld_f_vx(m, ins))
    } else if ins.nn == 0x33 {
        Ok(ld_b_vx(m, ins))
    } else if ins.nn == 0x55 {
        Ok(ld_i_vx(m, ins))
    } else if ins.nn == 0x65 {
        Ok(ld_vx_i(m, ins))
    } else {
        Err(Chip8Error::UnknownOpcode(ins.opcode))
    }
}

/// The big-endian opcode at the program counter, taken modulo the memory size.
pub open spec fn fetch_spec(m: Machine) -> u16 {
    let at = addr(m.pc as int);
    (m.memory[at] * 256 + m.memory[addr(at + 1)]) as u16
}

/// One fetch-decode-execute cycle: the program counter is reduced modulo the memory size and
/// moved past the opcode before the instruction runs.
pub open spec fn step_spec(m: Machine, random: u8) -> Result<Machine, Chip8Error> {
    let at = addr(m.pc as int);
    execute_spec(m.with_pc((at + 2) as u16), decode_spec(fetch_spec(m)), random)
}

/// What an instruction or a step leaves behind, given what its meaning says: on success the
/// next state, on failure the error and the machine as it was.
pub open spec fn outcome(
    meaning: Result<Machine, Chip8Error>,
    before: Machine,
    after: Machine,
    r: Result<(), Chip8Error>,
) -> bool {
    match meaning {
        Ok(next) => r == Ok::<(), Chip8Error>(()) && after == next,
        Err(e) => r == Err::<(), Chip8Error>(e) && after == before,
    }
}

/// One timer tick: each counter moves one toward zero.
pub open spec fn tick_spec(m: Machine) -> Machine {
    Machine {
        delay_timer: if m.delay_timer > 0 { (m.delay_timer - 1) as u8 } else { 0 },
        sound_timer: if m.sound_timer > 0 { (m.sound_timer - 1) as u8 } else { 0 },
        ..m
    }
}

/// A key changes state; a press of a released key sets the latch that `Fx0A` waits for.
pub open spec fn update_key_spec(m: Machine, key: int, pressed: bool) -> Machine {
    Machine {
        keypad: m.keypad.update(key, pressed),
        key_latch: m.key_latch || (pressed && !m.keypad[key]),
        ..m
    }
}

/// The address `k` bytes past `i` modulo the memory size is the one whose offset from `i`
/// is `k`.
pub proof fn lemma_offset(i: int, k: int, a: int)
    requires
        0 <= i,
        0 <= k < 4096,
        0 <= a < 4096,
    ensures
        ((a - i) % 4096 == k) == (a == (i + k) % 4096),
{
    let q = i / 4096;
    let r = i % 4096;
    assert(i == q * 4096 + r && 0 <= r < 4096) by (nonlinear_arith)
        requires
            0 <= i,
            q == i / 4096,
            r == i % 4096,
    ;
    assert((a - i) % 4096 == (a - r) % 4096) by (nonlinear_arith)
        requires
            i == q * 4096 + r,
    ;
    assert((i + k) % 4096 == (r + k) % 4096) by (nonlinear_arith)
        requires
            i == q * 4096 + r,
    ;
}

} // verus!
