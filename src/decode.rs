//! Splitting a 16-bit opcode into its fields.
use vstd::prelude::*;

verus! {

/// A decoded instruction: the raw opcode and the bit fields that the handlers read.
#[derive(Clone, Copy, Debug, PartialEq, Eq, Structural)]
pub struct Instruction {
    /// The raw 16-bit opcode.
    pub opcode: u16,
    /// Bits 8-11: the first register operand.
    pub x: u8,
    /// Bits 4-7: the second register operand.
    pub y: u8,
    /// Bits 0-3: a nibble (sprite height, arithmetic selector).
    pub n: u8,
    /// Bits 0-7: an immediate byte.
    pub nn: u8,
    /// Bits 0-11: an address.
    pub nnn: u16,
}

/// The instruction family: bits 12-15 of the opcode.
pub open spec fn family_of(opcode: u16) -> int {
    opcode as int / 0x1000
}

/// The instruction that `opcode` decodes to.
pub open spec fn decode_spec(opcode: u16) -> Instruction {
    Instruction {
        opcode,
        x: ((opcode / 0x100) % 0x10) as u8,
        y: ((opcode / 0x10) % 0x10) as u8,
        n: (opcode % 0x10) as u8,
        nn: (opcode % 0x100) as u8,
        nnn: (opcode % 0x1000) as u16,
    }
}

impl Instruction {
    /// The fields are those of the opcode.
    pub open spec fn wf(self) -> bool {
        self == decode_spec(self.opcode)
    }

    /// The instruction family, bits 12-15 of the opcode.
    pub open spec fn family(self) -> int {
        family_of(self.opcode)
    }

    /// Decodes an opcode into its fields.
    pub fn decode(opcode: u16) -> (r: Instruction)
        ensures
            r == decode_spec(opcode),
            r.wf(),
            r.x < 16,
            r.y < 16,
            r.n < 16,
            r.nnn < 0x1000,
    {
        let x = ((opcode & 0x0F00) >> 8) as u8;
        let y = ((opcode & 0x00F0) >> 4) as u8;
        let n = (opcode & 0x000F) as u8;
        let nn = (opcode & 0x00FF) as u8;
        let nnn = opcode & 0x0FFF;
        assert(((opcode & 0x0F00) >> 8) == (opcode / 0x100) % 0x10) by (bit_vector);
        assert(((opcode & 0x00F0) >> 4) == (opcode / 0x10) % 0x10) by (bit_vector);
        assert((opcode & 0x000F) == opcode % 0x10) by (bit_vector);
        assert((opcode & 0x00FF) == opcode % 0x100) by (bit_vector);
        assert((opcode & 0x0FFF) == opcode % 0x1000) by (bit_vector);
        Instruction { opcode, x, y, n, nn, nnn }
    }

    /// The instruction family, bits 12-15 of the opcode.
    pub fn family_nibble(&self) -> (r: u8)
        ensures
            r == self.family(),
            r < 16,
    {
        (self.opcode / 0x1000) as u8
    }
}

} // verus!
