//! Bit-field layout of one raw 16-bit instruction word.

use vstd::prelude::*;

verus! {

/// The top nibble of a word: selects the instruction family.
pub open spec fn group_of(w: u16) -> int {
    w as int / 4096
}

/// The low 12 bits: an address or wide literal.
pub open spec fn nnn_of(w: u16) -> int {
    w as int % 4096
}

/// Bits 11-8: the first register index operand.
pub open spec fn x_of(w: u16) -> int {
    (w as int / 256) % 16
}

/// Bits 7-4: the second register index operand.
pub open spec fn y_of(w: u16) -> int {
    (w as int / 16) % 16
}

/// The low nibble: a 4-bit literal, e.g. a sprite height.
pub open spec fn n_of(w: u16) -> int {
    w as int % 16
}

/// The low byte: an 8-bit literal.
pub open spec fn kk_of(w: u16) -> int {
    w as int % 256
}

/// A transient decoded-fields view of one raw 16-bit instruction word,
/// big-endian.  Created fresh per fetch and consumed immediately.
#[derive(Copy, Clone, Debug, PartialEq, Eq, Structural)]
pub struct Opcode {
    pub opcode: u16,
    pub raw: u16,
    pub nnn: usize,
    pub x: usize,
    pub y: usize,
    pub n: u8,
    pub kk: u8,
}

impl Opcode {
    /// The fields agree with the raw word they were extracted from.
    pub open spec fn wf(self) -> bool {
        &&& self.opcode == group_of(self.raw)
        &&& self.nnn == nnn_of(self.raw)
        &&& self.x == x_of(self.raw)
        &&& self.y == y_of(self.raw)
        &&& self.n == n_of(self.raw)
        &&& self.kk == kk_of(self.raw)
    }

    /// Extracts every fixed bit-field of a raw instruction word.
    /// Total: all 65536 words decode into some field tuple.
    pub fn new(opcode: u16) -> (r: Opcode)
        ensures
            r.raw == opcode,
            r.wf(),
    {
        proof {
            assert(((opcode & 0xF000) >> 12) == opcode / 4096) by (bit_vector);
            assert((opcode & 0x0FFF) == opcode % 4096) by (bit_vector);
            assert(((opcode & 0x0F00) >> 8) == (opcode / 256) % 16) by (bit_vector);
            assert(((opcode & 0x00F0) >> 4) == (opcode / 16) % 16) by (bit_vector);
            assert((opcode & 0x000F) == opcode % 16) by (bit_vector);
            assert((opcode & 0x00FF) == opcode % 256) by (bit_vector);
        }
        Opcode {
            opcode: (opcode & 0xF000) >> 12,
            raw: opcode,
            nnn: ((opcode & 0x0FFF) as usize),
            x: (((opcode & 0x0F00) >> 8) as usize),
            y: (((opcode & 0x00F0) >> 4) as usize),
            n: ((opcode & 0x000F) as u8),
            kk: ((opcode & 0x00FF) as u8),
        }
    }
}

} // verus!
