//! The machine: its state, its lifecycle and the fetch-decode-execute step.
use vstd::prelude::*;
use crate::constants::{
    DISPLAY_SIZE, FONTSET, FONTSET_SIZE, FONTSET_START_ADDRESS, NUM_KEYS, NUM_REGISTERS,
    RAM_SIZE, STACK_SIZE, START_ADDRESS,
};
use crate::decode::{decode_spec, Instruction};
use crate::semantics::{
    execute_spec, fetch_spec, outcome, step_spec, tick_spec, update_key_spec, Chip8Error, KeyWait,
    Machine,
};

pub mod instructions;

verus! {

/// A failure to load a program.
#[derive(Clone, Copy, Debug, PartialEq, Eq, Structural)]
pub enum LoadError {
    /// The program, of the given length, does not fit between the start address and the end
    /// of memory.
    RomTooLarge(usize),
}

/// The CHIP-8 machine: memory, registers, call stack, timers, keypad and framebuffer.
#[derive(Debug)]
pub struct Chip8 {
    /// General-purpose registers `V0`-`VF`.
    registers: [u8; NUM_REGISTERS],
    /// 4 KB of memory.
    memory: [u8; RAM_SIZE],
    /// The index register `I`.
    index: u16,
    /// The program counter.
    pc: u16,
    /// Return addresses of the calls in progress.
    stack: [u16; STACK_SIZE],
    /// Number of return addresses on the stack.
    sp: u8,
    delay_timer: u8,
    sound_timer: u8,
    /// Key states, `true` when held.
    keypad: [bool; NUM_KEYS],
    /// A key went down since the last completed key-wait.
    key_pressed: bool,
    key_wait: KeyWait,
    /// The framebuffer, row-major, `true` for a lit pixel.
    display: [bool; DISPLAY_SIZE],
}

impl View for Chip8 {
    type V = Machine;

    closed spec fn view(&self) -> Machine {
        Machine {
            registers: self.registers@,
            memory: self.memory@,
            index: self.index,
            pc: self.pc,
            stack: self.stack@,
            sp: self.sp,
            delay_timer: self.delay_timer,
            sound_timer: self.sound_timer,
            keypad: self.keypad@,
            key_latch: self.key_pressed,
            key_wait: self.key_wait,
            display: self.display@,
        }
    }
}

/// Memory with the 80 bytes of `glyphs` written at the font address.
pub open spec fn with_glyphs(mem: Seq<u8>, glyphs: Seq<u8>) -> Seq<u8> {
    Seq::new(
        4096,
        |a: int|
            if 0x50 <= a < 0x50 + 80 {
                glyphs[a - 0x50]
            } else {
                mem[a]
            },
    )
}

/// Memory with the built-in font written at its address.
pub open spec fn with_font(mem: Seq<u8>) -> Seq<u8> {
    with_glyphs(mem, FONTSET@)
}

/// The machine as it is constructed: all zero, the font loaded, execution at `0x200`.
pub open spec fn initial_machine() -> Machine {
    Machine {
        registers: Seq::new(16, |i: int| 0u8),
        memory: with_font(Seq::new(4096, |i: int| 0u8)),
        index: 0,
        pc: 0x200,
        stack: Seq::new(16, |i: int| 0u16),
        sp: 0,
        delay_timer: 0,
        sound_timer: 0,
        keypad: Seq::new(16, |i: int| false),
        key_latch: false,
        key_wait: KeyWait::Idle,
        display: Seq::new(2048, |i: int| false),
    }
}

/// Memory with `rom` written from the start address on.
pub open spec fn with_program(mem: Seq<u8>, rom: Seq<u8>) -> Seq<u8> {
    Seq::new(
        4096,
        |a: int|
            if 0x200 <= a < 0x200 + rom.len() {
                rom[a - 0x200]
            } else {
                mem[a]
            },
    )
}

/// Relies on `rand::random::<u8>`: a byte from the thread-local generator, of which nothing is
/// promised.
#[verifier::external_body]
pub(crate) fn random_byte() -> u8 {
    rand::random::<u8>()
}

impl Chip8 {
    /// The stack pointer names a slot or the slot past the last; every operation keeps this.
    pub open spec fn wf(&self) -> bool {
        self@.wf()
    }

    /// Creates a machine with zeroed memory and registers, the font loaded and the program
    /// counter at the start address.
    pub fn new() -> (r: Chip8)
        ensures
            r@ == initial_machine(),
            r.wf(),
    {
        let mut r = Chip8 {
            registers: [0u8; NUM_REGISTERS],
            memory: [0u8; RAM_SIZE],
            index: 0,
            pc: START_ADDRESS as u16,
            stack: [0u16; STACK_SIZE],
            sp: 0,
            delay_timer: 0,
            sound_timer: 0,
            keypad: [false; NUM_KEYS],
            key_pressed: false,
            key_wait: KeyWait::Idle,
            display: [false; DISPLAY_SIZE],
        };
        assert(r.registers@ =~= Seq::new(16, |i: int| 0u8));
        assert(r.memory@ =~= Seq::new(4096, |i: int| 0u8));
        assert(r.stack@ =~= Seq::new(16, |i: int| 0u16));
        assert(r.keypad@ =~= Seq::new(16, |i: int| false));
        assert(r.display@ =~= Seq::new(2048, |i: int| false));
        r.load_fontset();
        r
    }

    /// Writes the built-in font at its address.
    pub fn load_fontset(&mut self)
        requires
            old(self).wf(),
        ensures
            final(self)@ == (Machine { memory: with_font(old(self)@.memory), ..old(self)@ }),
            final(self).wf(),
    {
        self.load_font(&FONTSET);
    }

    /// Writes a font of 16 five-byte glyphs at the font address.
    pub fn load_font(&mut self, glyphs: &[u8; FONTSET_SIZE])
        requires
            old(self).wf(),
        ensures
            final(self)@ == (Machine { memory: with_glyphs(old(self)@.memory, glyphs@), ..old(self)@ }),
            final(self).wf(),
    {
        for i in 0..FONTSET_SIZE
            invariant
                self.wf(),
                glyphs@.len() == 80,
                self@ == (Machine { memory: self@.memory, ..old(self)@ }),
                forall|a: int|
                    0 <= a < 4096 ==> #[trigger] self@.memory[a] == if 0x50 <= a < 0x50 + i {
                        glyphs@[a - 0x50]
                    } else {
                        old(self)@.memory[a]
                    },
        {
            self.memory[FONTSET_START_ADDRESS + i] = glyphs[i];
        }
        assert(self@.memory =~= with_glyphs(old(self)@.memory, glyphs@));
    }

    /// Copies a program into memory from the start address on.
    pub fn load_rom(&mut self, rom: &[u8]) -> (r: Result<(), LoadError>)
        requires
            old(self).wf(),
        ensures
            final(self).wf(),
            rom@.len() <= 4096 - 0x200 ==> r is Ok && final(self)@ == (Machine {
                memory: with_program(old(self)@.memory, rom@),
                ..old(self)@
            }),
            rom@.len() > 4096 - 0x200 ==> r == Err::<(), LoadError>(LoadError::RomTooLarge(rom@.len() as usize))
                && final(self)@ == old(self)@,
    {
        if rom.len() > RAM_SIZE - START_ADDRESS {
            return Err(LoadError::RomTooLarge(rom.len()));
        }
        for i in 0..rom.len()
            invariant
                self.wf(),
                rom@.len() <= 4096 - 0x200,
                self@ == (Machine { memory: self@.memory, ..old(self)@ }),
                forall|a: int|
                    0 <= a < 4096 ==> #[trigger] self@.memory[a] == if 0x200 <= a < 0x200 + i {
                        rom@[a - 0x200]
                    } else {
                        old(self)@.memory[a]
                    },
        {
            self.memory[START_ADDRESS + i] = rom[i];
        }
        assert(self@.memory =~= with_program(old(self)@.memory, rom@));
        Ok(())
    }

    /// Sets the state of one key; pressing a released key is what `Fx0A` waits for.
    pub fn update_key(&mut self, key: u8, pressed: bool)
        requires
            old(self).wf(),
            key < 16,
        ensures
            final(self)@ == update_key_spec(old(self)@, key as int, pressed),
            final(self).wf(),
    {
        if pressed && !self.keypad[key as usize] {
            self.key_pressed = true;
        }
        self.keypad[key as usize] = pressed;
    }

    /// Moves each timer one step toward zero.
    pub fn tick_timers(&mut self)
        requires
            old(self).wf(),
        ensures
            final(self)@ == tick_spec(old(self)@),
            final(self).wf(),
    {
        if self.delay_timer > 0 {
            self.delay_timer = self.delay_timer - 1;
        }
        if self.sound_timer > 0 {
            self.sound_timer = self.sound_timer - 1;
        }
    }
}

impl Chip8 {
    /// The framebuffer, 64 pixels per row, 32 rows.
    pub fn get_display(&self) -> (r: &[bool; DISPLAY_SIZE])
        ensures
            r@ == self@.display,
    {
        &self.display
    }

    /// The value of register `V{i}`.
    pub fn register(&self, i: u8) -> (r: u8)
        requires
            self.wf(),
            i < 16,
        ensures
            r == self@.registers[i as int],
    {
        self.registers[i as usize]
    }

    /// The byte at `address`.
    pub fn memory_at(&self, address: u16) -> (r: u8)
        requires
            self.wf(),
            address < 4096,
        ensures
            r == self@.memory[address as int],
    {
        self.memory[address as usize]
    }

    /// The index register `I`.
    pub fn index(&self) -> (r: u16)
        ensures
            r == self@.index,
    {
        self.index
    }

    /// The program counter.
    pub fn pc(&self) -> (r: u16)
        ensures
            r == self@.pc,
    {
        self.pc
    }

    /// The number of return addresses on the stack.
    pub fn stack_pointer(&self) -> (r: u8)
        ensures
            r == self@.sp,
    {
        self.sp
    }

    pub fn delay_timer(&self) -> (r: u8)
        ensures
            r == self@.delay_timer,
    {
        self.delay_timer
    }

    /// The sound timer; a tone is due while it is not zero.
    pub fn sound_timer(&self) -> (r: u8)
        ensures
            r == self@.sound_timer,
    {
        self.sound_timer
    }

    /// Whether key `key` is held.
    pub fn is_key_down(&self, key: u8) -> (r: bool)
        requires
            self.wf(),
            key < 16,
        ensures
            r == self@.keypad[key as int],
    {
        self.keypad[key as usize]
    }

    /// Whether a key-wait instruction is in progress.
    pub fn key_wait(&self) -> (r: KeyWait)
        ensures
            r == self@.key_wait,
    {
        self.key_wait
    }

    /// The big-endian opcode at the program counter, taken modulo the memory size.
    pub fn fetch(&self) -> (r: u16)
        requires
            self.wf(),
        ensures
            r == fetch_spec(self@),
    {
        let at = self.pc as usize % RAM_SIZE;
        let hi = self.memory[at];
        let lo = self.memory[(at + 1) % RAM_SIZE];
        assert((hi as u16) << 8u16 | lo as u16 == hi * 256 + lo) by (bit_vector);
        (hi as u16) << 8 | lo as u16
    }

    /// Runs one decoded instruction; `random` is the byte that `Cxnn` masks. On failure the
    /// machine is left as it was.
    pub fn execute(&mut self, instruction: Instruction, random: u8) -> (r: Result<(), Chip8Error>)
        requires
            old(self).wf(),
            instruction.wf(),
        ensures
            outcome(execute_spec(old(self)@, instruction, random), old(self)@, final(self)@, r),
            final(self).wf(),
    {
        reveal(execute_spec);
        match instruction.family_nibble() {
            0x0 => instructions::_0xxx(self, instruction),
            0x1 => {
                instructions::JP_addr(self, instruction);
                Ok(())
            },
            0x2 => instructions::CALL_addr(self, instruction),
            0x3 => {
                instructions::SE_Vx_byte(self, instruction);
                Ok(())
            },
            0x4 => {
                instructions::SNE_Vx_byte(self, instruction);
                Ok(())
            },
            0x5 => {
                instructions::SE_Vx_Vy(self, instruction);
                Ok(())
            },
            0x6 => {
                instructions::LD_Vx_byte(self, instruction);
                Ok(())
            },
            0x7 => {
                instructions::ADD_Vx_byte(self, instruction);
                Ok(())
            },
            0x8 => instructions::_8xxx(self, instruction),
            0x9 => {
                instructions::SNE_Vx_Vy(self, instruction);
                Ok(())
            },
            0xA => {
                instructions::LD_I_addr(self, instruction);
                Ok(())
            },
            0xB => {
                instructions::JP_V0_addr(self, instruction);
                Ok(())
            },
            0xC => {
                instructions::RND_Vx_byte_with(self, instruction, random);
                Ok(())
            },
            0xD => {
                instructions::DRW_Vx_Vy_n(self, instruction);
                Ok(())
            },
            0xE => instructions::_Exxx(self, instruction),
            _ => instructions::_Fxxx(self, instruction),
        }
    }

    /// One fetch-decode-execute cycle with `random` as the byte that `Cxnn` masks. On failure
    /// the machine is left as it was, with the program counter on the failing instruction.
    pub fn step_with(&mut self, random: u8) -> (r: Result<(), Chip8Error>)
        requires
            old(self).wf(),
        ensures
            outcome(step_spec(old(self)@, random), old(self)@, final(self)@, r),
            final(self).wf(),
    {
        let opcode = self.fetch();
        let saved = self.pc;
        self.pc = (self.pc % RAM_SIZE as u16) + 2;
        let r = self.execute(Instruction::decode(opcode), random);
        if r.is_err() {
            self.pc = saved;
        }
        r
    }

    /// One fetch-decode-execute cycle; `Cxnn` draws its byte from the thread-local random
    /// generator.
    pub fn step(&mut self) -> (r: Result<(), Chip8Error>)
        requires
            old(self).wf(),
        ensures
            exists|random: u8| outcome(step_spec(old(self)@, random), old(self)@, final(self)@, r),
            decode_spec(fetch_spec(old(self)@)).family() != 0xC ==> outcome(
                step_spec(old(self)@, 0),
                old(self)@,
                final(self)@,
                r,
            ),
            final(self).wf(),
    {
        let instruction = Instruction::decode(self.fetch());
        let random = if instruction.family_nibble() == 0xC {
            random_byte()
        } else {
            0
        };
        self.step_with(random)
    }
}

impl Default for Chip8 {
    fn default() -> (r: Chip8)
        ensures
            r@ == initial_machine(),
    {
        Chip8::new()
    }
}

} // verus!
