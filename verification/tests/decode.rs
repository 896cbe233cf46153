use mushypeas::cpu::Cpu;
use mushypeas::instr::{EmulatorError, Instr};
use mushypeas::opcode::Opcode;

#[test]
fn opcode_fields_are_extracted() {
    let o = Opcode::new(0xDAB5);
    assert_eq!(o.opcode, 0xD);
    assert_eq!(o.raw, 0xDAB5);
    assert_eq!(o.nnn, 0xAB5);
    assert_eq!(o.x, 0xA);
    assert_eq!(o.y, 0xB);
    assert_eq!(o.n, 0x5);
    assert_eq!(o.kk, 0xB5);
}

#[test]
fn decode_clear_and_return() {
    assert_eq!(Cpu::decode_instr(0x00, 0xE0).unwrap(), Instr::Clear);
    assert_eq!(Cpu::decode_instr(0x00, 0xEE).unwrap(), Instr::Return);
}

#[test]
fn decode_machine_code_is_group_zero_default() {
    assert_eq!(
        Cpu::decode_instr(0x01, 0x23).unwrap(),
        Instr::JumpToMachineCode { addr: 0x123 }
    );
}

#[test]
fn decode_jump_and_call() {
    assert_eq!(Cpu::decode_instr(0x1A, 0xBC).unwrap(), Instr::Jump { addr: 0xABC });
    assert_eq!(Cpu::decode_instr(0x2F, 0x01).unwrap(), Instr::Call { addr: 0xF01 });
}

#[test]
fn decode_skips_and_literals() {
    assert_eq!(
        Cpu::decode_instr(0x3A, 0x42).unwrap(),
        Instr::SkipNextEqualLiteral { reg: 0xA, lit: 0x42 }
    );
    assert_eq!(
        Cpu::decode_instr(0x41, 0xFF).unwrap(),
        Instr::SkipNextNotEqualLiteral { reg: 0x1, lit: 0xFF }
    );
    assert_eq!(
        Cpu::decode_instr(0x5A, 0xB0).unwrap(),
        Instr::SkipNextEqualRegister { left: 0xA, right: 0xB }
    );
    assert_eq!(
        Cpu::decode_instr(0x9A, 0xB0).unwrap(),
        Instr::SkipNextNotEqualRegister { left: 0xA, right: 0xB }
    );
    assert_eq!(
        Cpu::decode_instr(0x67, 0x2A).unwrap(),
        Instr::RegisterSetLiteral { reg: 0x7, lit: 0x2A }
    );
    assert_eq!(
        Cpu::decode_instr(0x70, 0x01).unwrap(),
        Instr::RegisterAddAssign { reg: 0x0, lit: 0x01 }
    );
}

#[test]
fn decode_alu_group() {
    assert_eq!(
        Cpu::decode_instr(0x8A, 0xB0).unwrap(),
        Instr::RegisterSetRegister { left: 0xA, right: 0xB }
    );
    assert_eq!(
        Cpu::decode_instr(0x8A, 0xB1).unwrap(),
        Instr::RegisterSetRegisterBitwiseOr { left: 0xA, right: 0xB }
    );
    assert_eq!(
        Cpu::decode_instr(0x8A, 0xB2).unwrap(),
        Instr::RegisterSetRegisterBitwiseAnd { left: 0xA, right: 0xB }
    );
    assert_eq!(
        Cpu::decode_instr(0x8A, 0xB3).unwrap(),
        Instr::RegisterSetRegisterBitwiseXor { left: 0xA, right: 0xB }
    );
    assert_eq!(
        Cpu::decode_instr(0x8A, 0xB4).unwrap(),
        Instr::RegisterSetRegisterAdd { left: 0xA, right: 0xB }
    );
    assert_eq!(
        Cpu::decode_instr(0x8A, 0xB5).unwrap(),
        Instr::RegisterSetRegisterSub { left: 0xA, right: 0xB }
    );
    assert_eq!(
        Cpu::decode_instr(0x8A, 0xB6).unwrap(),
        Instr::RegisterSetRegisterShr { left: 0xA, right: 0xB }
    );
    assert_eq!(
        Cpu::decode_instr(0x8A, 0xB7).unwrap(),
        Instr::RegisterSetRegisterSubn { left: 0xA, right: 0xB }
    );
    assert_eq!(
        Cpu::decode_instr(0x8A, 0xBE).unwrap(),
        Instr::RegisterSetRegisterShl { reg: 0xA }
    );
}

#[test]
fn decode_upper_groups() {
    assert_eq!(Cpu::decode_instr(0xA1, 0x23).unwrap(), Instr::SetIndex { value: 0x123 });
    assert_eq!(Cpu::decode_instr(0xB1, 0x23).unwrap(), Instr::JumpTo { addr: 0x123 });
    assert_eq!(
        Cpu::decode_instr(0xC4, 0x0F).unwrap(),
        Instr::RandBitwiseAnd { reg: 0x4, lit: 0x0F }
    );
    assert_eq!(
        Cpu::decode_instr(0xDA, 0xB5).unwrap(),
        Instr::DrawSprite { x: 0xA, y: 0xB, size: 0x5 }
    );
    assert_eq!(
        Cpu::decode_instr(0xE2, 0x9E).unwrap(),
        Instr::SkipNextKeyPressed { reg: 0x2 }
    );
    assert_eq!(
        Cpu::decode_instr(0xE2, 0xA1).unwrap(),
        Instr::SkipNextKeyNotPressed { reg: 0x2 }
    );
}

#[test]
fn decode_f_group() {
    assert_eq!(Cpu::decode_instr(0xF1, 0x07).unwrap(), Instr::SetDelayTimerValue { reg: 1 });
    assert_eq!(Cpu::decode_instr(0xF1, 0x0A).unwrap(), Instr::KeyPressWait { reg: 1 });
    assert_eq!(Cpu::decode_instr(0xF1, 0x15).unwrap(), Instr::SetDelayTimerRegister { reg: 1 });
    assert_eq!(Cpu::decode_instr(0xF1, 0x18).unwrap(), Instr::SetSoundTimerRegister { reg: 1 });
    assert_eq!(Cpu::decode_instr(0xF1, 0x1E).unwrap(), Instr::IndexAddAssignRegister { reg: 1 });
    assert_eq!(Cpu::decode_instr(0xF1, 0x29).unwrap(), Instr::SetIndexToDigitSprite { reg: 1 });
    assert_eq!(Cpu::decode_instr(0xF1, 0x33).unwrap(), Instr::StoreBCDAtIndex { reg: 1 });
    assert_eq!(
        Cpu::decode_instr(0xF1, 0x55).unwrap(),
        Instr::StoreRegistersAtIndex { start_addr: 1 }
    );
    assert_eq!(
        Cpu::decode_instr(0xF1, 0x65).unwrap(),
        Instr::ReadRegistersAtIndex { start_addr: 1 }
    );
}

#[test]
fn decode_unknown_opcodes_fail() {
    assert!(matches!(
        Cpu::decode_instr(0x8A, 0xB8),
        Err(EmulatorError::UnknownOpcode(_))
    ));
    assert!(matches!(
        Cpu::decode_instr(0x8A, 0xBF),
        Err(EmulatorError::UnknownOpcode(_))
    ));
    assert!(matches!(
        Cpu::decode_instr(0xE0, 0x00),
        Err(EmulatorError::UnknownOpcode(_))
    ));
    assert!(matches!(
        Cpu::decode_instr(0xF0, 0x42),
        Err(EmulatorError::UnknownOpcode(_))
    ));
    assert!(matches!(
        Cpu::decode_instr(0xFF, 0xFF),
        Err(EmulatorError::UnknownOpcode(_))
    ));
}

#[test]
fn unknown_opcode_carries_the_fields() {
    match Cpu::decode_instr(0xE1, 0x23) {
        Err(EmulatorError::UnknownOpcode(o)) => {
            assert_eq!(o.raw, 0xE123);
            assert_eq!(o.opcode, 0xE);
            assert_eq!(o.x, 0x1);
            assert_eq!(o.kk, 0x23);
        }
        _ => panic!("expected an unknown opcode"),
    }
}

#[test]
fn every_word_decodes_or_is_unknown() {
    let mut known: u32 = 0;
    let mut unknown: u32 = 0;
    for w in 0..=0xFFFFu32 {
        let left = (w >> 8) as u8;
        let right = (w & 0xFF) as u8;
        match Cpu::decode_instr(left, right) {
            Ok(_) => known += 1,
            Err(EmulatorError::UnknownOpcode(o)) => {
                assert_eq!(o.raw as u32, w);
                unknown += 1;
            }
        }
    }
    assert_eq!(known + unknown, 0x10000);
    // groups 0-7 and 9-D map whole: 13 * 4096 words; group 8 maps 9 low
    // nibbles, group E two low bytes, group F nine low bytes
    assert_eq!(known, 13 * 4096 + 9 * 256 + 2 * 16 + 9 * 16);
}
