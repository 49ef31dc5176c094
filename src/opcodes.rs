//! Splitting a 16-bit CHIP-8 instruction word into its fields.
use vstd::prelude::*;

verus! {

/// Bits 12..16 of an instruction word: the instruction class.
pub open spec fn class_of(w: u16) -> u8 {
    ((w >> 12u16) & 0xFu16) as u8
}

/// Bits 8..12: the first register index.
pub open spec fn x_of(w: u16) -> u8 {
    ((w >> 8u16) & 0xFu16) as u8
}

/// Bits 4..8: the second register index.
pub open spec fn y_of(w: u16) -> u8 {
    ((w >> 4u16) & 0xFu16) as u8
}

/// Bits 0..4: the immediate nibble.
pub open spec fn n_of(w: u16) -> u8 {
    (w & 0xFu16) as u8
}

/// Bits 0..8: the immediate byte.
pub open spec fn nn_of(w: u16) -> u8 {
    (w & 0xFFu16) as u8
}

/// Bits 0..12: the immediate address.
pub open spec fn nnn_of(w: u16) -> u16 {
    w & 0xFFFu16
}

/// The fields of the word `w`.
pub open spec fn decode(w: u16) -> DecodedOpcode {
    DecodedOpcode {
        opcode: w,
        instr_type: class_of(w),
        X: x_of(w),
        Y: y_of(w),
        N: n_of(w),
        NN: nn_of(w),
        NNN: nnn_of(w),
    }
}

/// Every decoded field lies in the range its width allows.
pub proof fn lemma_decode_in_range(w: u16)
    ensures
        decode(w).fields_in_range(),
{
    assert(((w >> 12u16) & 0xFu16) < 16u16) by (bit_vector);
    assert(((w >> 8u16) & 0xFu16) < 16u16) by (bit_vector);
    assert(((w >> 4u16) & 0xFu16) < 16u16) by (bit_vector);
    assert((w & 0xFu16) < 16u16) by (bit_vector);
    assert((w & 0xFFFu16) < 0x1000u16) by (bit_vector);
}

/// The typed fields of one instruction word.
#[allow(non_snake_case)]
#[derive(Debug, Clone, Copy, PartialEq, Eq)]
pub struct DecodedOpcode {
    pub opcode: u16,
    pub instr_type: u8,
    pub X: u8,
    pub Y: u8,
    pub N: u8,
    pub NN: u8,
    pub NNN: u16,
}

impl DecodedOpcode {
    /// Every field lies in the range its width allows.
    pub open spec fn fields_in_range(self) -> bool {
        &&& self.instr_type < 16
        &&& self.X < 16
        &&& self.Y < 16
        &&& self.N < 16
        &&& self.NNN < 0x1000
    }

    /// Decodes an instruction word; every word decodes.
    pub fn from(opcode: u16) -> (r: Self)
        ensures
            r == decode(opcode),
            r.fields_in_range(),
    {
        let r = DecodedOpcode {
            opcode: opcode,
            instr_type: ((opcode >> 12u16) & 0xFu16) as u8,
            X: ((opcode >> 8u16) & 0xFu16) as u8,
            Y: ((opcode >> 4u16) & 0xFu16) as u8,
            N: (opcode & 0xFu16) as u8,
            NN: (opcode & 0xFFu16) as u8,
            NNN: opcode & 0xFFFu16,
        };
        proof {
            lemma_decode_in_range(opcode);
        }
        r
    }
}

} // verus!
