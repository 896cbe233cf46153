//! The closed set of decoded operations, and the mapping from a raw word's
//! field tuple to a variant.

use vstd::prelude::*;
use crate::opcode::{Opcode, group_of, nnn_of, x_of, y_of, n_of, kk_of};

verus! {

/// A decoded, typed operation with validated operand fields.
#[derive(Copy, Clone, Debug, PartialEq, Eq, Structural)]
pub enum Instr {
    JumpToMachineCode { addr: usize },
    Clear,
    Return,
    Jump { addr: usize },
    Call { addr: usize },
    SkipNextEqualLiteral { reg: usize, lit: u8 },
    SkipNextNotEqualLiteral { reg: usize, lit: u8 },
    SkipNextEqualRegister { left: usize, right: usize },
    RegisterSetLiteral { reg: usize, lit: u8 },
    RegisterAddAssign { reg: usize, lit: u8 },
    RegisterSetRegister { left: usize, right: usize },
    RegisterSetRegisterBitwiseOr { left: usize, right: usize },
    RegisterSetRegisterBitwiseAnd { left: usize, right: usize },
    RegisterSetRegisterBitwiseXor { left: usize, right: usize },
    RegisterSetRegisterAdd { left: usize, right: usize },
    RegisterSetRegisterSub { left: usize, right: usize },
    RegisterSetRegisterShr { left: usize, right: usize },
    RegisterSetRegisterSubn { left: usize, right: usize },
    RegisterSetRegisterShl { reg: usize },
    SkipNextNotEqualRegister { left: usize, right: usize },
    SetIndex { value: usize },
    JumpTo { addr: usize },
    RandBitwiseAnd { reg: usize, lit: u8 },
    DrawSprite { x: usize, y: usize, size: u8 },
    SkipNextKeyPressed { reg: usize },
    SkipNextKeyNotPressed { reg: usize },
    SetDelayTimerValue { reg: usize },
    KeyPressWait { reg: usize },
    SetDelayTimerRegister { reg: usize },
    SetSoundTimerRegister { reg: usize },
    IndexAddAssignRegister { reg: usize },
    SetIndexToDigitSprite { reg: usize },
    StoreBCDAtIndex { reg: usize },
    StoreRegistersAtIndex { start_addr: usize },
    ReadRegistersAtIndex { start_addr: usize },
}

impl Instr {
    /// Every operand lies in the range its field width allows: register
    /// indices are nibbles, addresses are 12 bits, sprite heights 4 bits.
    pub open spec fn wf(self) -> bool {
        match self {
            Instr::JumpToMachineCode { addr } => addr < 4096,
            Instr::Clear => true,
            Instr::Return => true,
            Instr::Jump { addr } => addr < 4096,
            Instr::Call { addr } => addr < 4096,
            Instr::SkipNextEqualLiteral { reg, .. } => reg < 16,
            Instr::SkipNextNotEqualLiteral { reg, .. } => reg < 16,
            Instr::SkipNextEqualRegister { left, right } => left < 16 && right < 16,
            Instr::RegisterSetLiteral { reg, .. } => reg < 16,
            Instr::RegisterAddAssign { reg, .. } => reg < 16,
            Instr::RegisterSetRegister { left, right } => left < 16 && right < 16,
            Instr::RegisterSetRegisterBitwiseOr { left, right } => left < 16 && right < 16,
            Instr::RegisterSetRegisterBitwiseAnd { left, right } => left < 16 && right < 16,
            Instr::RegisterSetRegisterBitwiseXor { left, right } => left < 16 && right < 16,
            Instr::RegisterSetRegisterAdd { left, right } => left < 16 && right < 16,
            Instr::RegisterSetRegisterSub { left, right } => left < 16 && right < 16,
            Instr::RegisterSetRegisterShr { left, right } => left < 16 && right < 16,
            Instr::RegisterSetRegisterSubn { left, right } => left < 16 && right < 16,
            Instr::RegisterSetRegisterShl { reg } => reg < 16,
            Instr::SkipNextNotEqualRegister { left, right } => left < 16 && right < 16,
            Instr::SetIndex { value } => value < 4096,
            Instr::JumpTo { addr } => addr < 4096,
            Instr::RandBitwiseAnd { reg, .. } => reg < 16,
            Instr::DrawSprite { x, y, size } => x < 16 && y < 16 && size < 16,
            Instr::SkipNextKeyPressed { reg } => reg < 16,
            Instr::SkipNextKeyNotPressed { reg } => reg < 16,
            Instr::SetDelayTimerValue { reg } => reg < 16,
            Instr::KeyPressWait { reg } => reg < 16,
            Instr::SetDelayTimerRegister { reg } => reg < 16,
            Instr::SetSoundTimerRegister { reg } => reg < 16,
            Instr::IndexAddAssignRegister { reg } => reg < 16,
            Instr::SetIndexToDigitSprite { reg } => reg < 16,
            Instr::StoreBCDAtIndex { reg } => reg < 16,
            Instr::StoreRegistersAtIndex { start_addr } => start_addr < 16,
            Instr::ReadRegistersAtIndex { start_addr } => start_addr < 16,
        }
    }
}

/// An error of the machine's core: a decoded field tuple with no mapped
/// operation, carrying the offending fields.  Non-fatal: a step that fails
/// to decode is reported and the program counter does not advance.
#[derive(Copy, Clone, Debug, PartialEq, Eq, Structural)]
pub enum EmulatorError {
    UnknownOpcode(Opcode),
}

/// The standard opcode table, as a total function on the raw word: groups
/// 1-7, 9-D map by group alone, group 0 sub-dispatches on the low byte, and
/// groups 8, E, F sub-dispatch on the low nibble or byte, with `None` for
/// any unmatched sub-discriminant.
pub open spec fn spec_decode(w: u16) -> Option<Instr> {
    let nnn = nnn_of(w) as usize;
    let x = x_of(w) as usize;
    let y = y_of(w) as usize;
    let n = n_of(w) as u8;
    let kk = kk_of(w) as u8;
    if group_of(w) == 0x0 {
        if kk == 0xE0 {
            Some(Instr::Clear)
        } else if kk == 0xEE {
            Some(Instr::Return)
        } else {
            Some(Instr::JumpToMachineCode { addr: nnn })
        }
    } else if group_of(w) == 0x1 {
        Some(Instr::Jump { addr: nnn })
    } else if group_of(w) == 0x2 {
        Some(Instr::Call { addr: nnn })
    } else if group_of(w) == 0x3 {
        Some(Instr::SkipNextEqualLiteral { reg: x, lit: kk })
    } else if group_of(w) == 0x4 {
        Some(Instr::SkipNextNotEqualLiteral { reg: x, lit: kk })
    } else if group_of(w) == 0x5 {
        Some(Instr::SkipNextEqualRegister { left: x, right: y })
    } else if group_of(w) == 0x6 {
        Some(Instr::RegisterSetLiteral { reg: x, lit: kk })
    } else if group_of(w) == 0x7 {
        Some(Instr::RegisterAddAssign { reg: x, lit: kk })
    } else if group_of(w) == 0x8 {
        if n == 0x0 {
            Some(Instr::RegisterSetRegister { left: x, right: y })
        } else if n == 0x1 {
            Some(Instr::RegisterSetRegisterBitwiseOr { left: x, right: y })
        } else if n == 0x2 {
            Some(Instr::RegisterSetRegisterBitwiseAnd { left: x, right: y })
        } else if n == 0x3 {
            Some(Instr::RegisterSetRegisterBitwiseXor { left: x, right: y })
        } else if n == 0x4 {
            Some(Instr::RegisterSetRegisterAdd { left: x, right: y })
        } else if n == 0x5 {
            Some(Instr::RegisterSetRegisterSub { left: x, right: y })
        } else if n == 0x6 {
            Some(Instr::RegisterSetRegisterShr { left: x, right: y })
        } else if n == 0x7 {
            Some(Instr::RegisterSetRegisterSubn { left: x, right: y })
        } else if n == 0xE {
            Some(Instr::RegisterSetRegisterShl { reg: x })
        } else {
            None
        }
    } else if group_of(w) == 0x9 {
        Some(Instr::SkipNextNotEqualRegister { left: x, right: y })
    } else if group_of(w) == 0xA {
        Some(Instr::SetIndex { value: nnn })
    } else if group_of(w) == 0xB {
        Some(Instr::JumpTo { addr: nnn })
    } else if group_of(w) == 0xC {
        Some(Instr::RandBitwiseAnd { reg: x, lit: kk })
    } else if group_of(w) == 0xD {
        Some(Instr::DrawSprite { x, y, size: n })
    } else if group_of(w) == 0xE {
        if kk == 0x9E {
            Some(Instr::SkipNextKeyPressed { reg: x })
        } else if kk == 0xA1 {
            Some(Instr::SkipNextKeyNotPressed { reg: x })
        } else {
            None
        }
    } else if group_of(w) == 0xF {
        if kk == 0x07 {
            Some(Instr::SetDelayTimerValue { reg: x })
        } else if kk == 0x0A {
            Some(Instr::KeyPressWait { reg: x })
        } else if kk == 0x15 {
            Some(Instr::SetDelayTimerRegister { reg: x })
        } else if kk == 0x18 {
            Some(Instr::SetSoundTimerRegister { reg: x })
        } else if kk == 0x1E {
            Some(Instr::IndexAddAssignRegister { reg: x })
        } else if kk == 0x29 {
            Some(Instr::SetIndexToDigitSprite { reg: x })
        } else if kk == 0x33 {
            Some(Instr::StoreBCDAtIndex { reg: x })
        } else if kk == 0x55 {
            Some(Instr::StoreRegistersAtIndex { start_addr: x })
        } else if kk == 0x65 {
            Some(Instr::ReadRegistersAtIndex { start_addr: x })
        } else {
            None
        }
    } else {
        None
    }
}

impl Opcode {
    /// Maps the decoded field tuple to its operation, or reports an unknown
    /// opcode for any unmatched combination.  Succeeds if and only if the
    /// standard table has an entry for the word.
    pub fn try_into(self) -> (r: Result<Instr, EmulatorError>)
        requires
            self.wf(),
        ensures
            r matches Ok(i) ==> Some(i) == spec_decode(self.raw) && i.wf(),
            r is Err <==> spec_decode(self.raw) is None,
            r matches Err(e) ==> e == EmulatorError::UnknownOpcode(self),
    {
        match self.opcode {
            0x0 => match self.kk {
                0xE0 => Ok(Instr::Clear),
                0xEE => Ok(Instr::Return),
                _ => Ok(Instr::JumpToMachineCode { addr: self.nnn }),
            },
            0x1 => Ok(Instr::Jump { addr: self.nnn }),
            0x2 => Ok(Instr::Call { addr: self.nnn }),
            0x3 => Ok(Instr::SkipNextEqualLiteral { reg: self.x, lit: self.kk }),
            0x4 => Ok(Instr::SkipNextNotEqualLiteral { reg: self.x, lit: self.kk }),
            0x5 => Ok(Instr::SkipNextEqualRegister { left: self.x, right: self.y }),
            0x6 => Ok(Instr::RegisterSetLiteral { reg: self.x, lit: self.kk }),
            0x7 => Ok(Instr::RegisterAddAssign { reg: self.x, lit: self.kk }),
            0x8 => match self.n {
                0x0 => Ok(Instr::RegisterSetRegister { left: self.x, right: self.y }),
                0x1 => Ok(Instr::RegisterSetRegisterBitwiseOr { left: self.x, right: self.y }),
                0x2 => Ok(Instr::RegisterSetRegisterBitwiseAnd { left: self.x, right: self.y }),
                0x3 => Ok(Instr::RegisterSetRegisterBitwiseXor { left: self.x, right: self.y }),
                0x4 => Ok(Instr::RegisterSetRegisterAdd { left: self.x, right: self.y }),
                0x5 => Ok(Instr::RegisterSetRegisterSub { left: self.x, right: self.y }),
                0x6 => Ok(Instr::RegisterSetRegisterShr { left: self.x, right: self.y }),
                0x7 => Ok(Instr::RegisterSetRegisterSubn { left: self.x, right: self.y }),
                0xE => Ok(Instr::RegisterSetRegisterShl { reg: self.x }),
                _ => Err(EmulatorError::UnknownOpcode(self)),
            },
            0x9 => Ok(Instr::SkipNextNotEqualRegister { left: self.x, right: self.y }),
            0xA => Ok(Instr::SetIndex { value: self.nnn }),
            0xB => Ok(Instr::JumpTo { addr: self.nnn }),
            0xC => Ok(Instr::RandBitwiseAnd { reg: self.x, lit: self.kk }),
            0xD => Ok(Instr::DrawSprite { x: self.x, y: self.y, size: self.n }),
            0xE => match self.kk {
                0x9E => Ok(Instr::SkipNextKeyPressed { reg: self.x }),
                0xA1 => Ok(Instr::SkipNextKeyNotPressed { reg: self.x }),
                _ => Err(EmulatorError::UnknownOpcode(self)),
            },
            0xF => match self.kk {
                0x07 => Ok(Instr::SetDelayTimerValue { reg: self.x }),
                0x0A => Ok(Instr::KeyPressWait { reg: self.x }),
                0x15 => Ok(Instr::SetDelayTimerRegister { reg: self.x }),
                0x18 => Ok(Instr::SetSoundTimerRegister { reg: self.x }),
                0x1E => Ok(Instr::IndexAddAssignRegister { reg: self.x }),
                0x29 => Ok(Instr::SetIndexToDigitSprite { reg: self.x }),
                0x33 => Ok(Instr::StoreBCDAtIndex { reg: self.x }),
                0x55 => Ok(Instr::StoreRegistersAtIndex { start_addr: self.x }),
                0x65 => Ok(Instr::ReadRegistersAtIndex { start_addr: self.x }),
                _ => Err(EmulatorError::UnknownOpcode(self)),
            },
            _ => Err(EmulatorError::UnknownOpcode(self)),
        }
    }
}

} // verus!
