use mushypeas::cpu::{Cpu, Fault, StepEvent, INSTR_START, MEM_SIZE};
use mushypeas::instr::Instr;

fn fresh() -> Cpu {
    Cpu::new()
}

#[test]
fn new_machine_is_zeroed() {
    let cpu = fresh();
    assert_eq!(cpu.pc, INSTR_START);
    assert_eq!(cpu.sp, 0);
    assert_eq!(cpu.index, 0);
    assert_eq!(cpu.ticks, 0);
    assert_eq!(cpu.delay_timer, 0);
    assert_eq!(cpu.sound_timer, 0);
    assert!(!cpu.should_rerender);
    assert_eq!(cpu.memory.len(), MEM_SIZE);
    assert!(cpu.memory.iter().all(|b| *b == 0));
    assert!(cpu.display.iter().all(|p| !*p));
    assert!(cpu.keys.iter().all(|k| !*k));
    assert!(cpu.registers.iter().all(|r| *r == 0));
}

#[test]
fn load_writes_fonts_and_program() {
    let mut cpu = fresh();
    cpu.load(&[0x12, 0x34]);
    // the glyph for 0 starts the font table; the glyph for F ends it
    assert_eq!(cpu.memory[0], 0xF0);
    assert_eq!(cpu.memory[4], 0xF0);
    assert_eq!(cpu.memory[79], 0x80);
    assert_eq!(cpu.memory[INSTR_START], 0x12);
    assert_eq!(cpu.memory[INSTR_START + 1], 0x34);
    assert_eq!(cpu.memory[INSTR_START + 2], 0x00);
    assert_eq!(cpu.pc, INSTR_START);
}

#[test]
fn add_carry_flag_set_and_clear() {
    let mut cpu = fresh();
    cpu.registers[1] = 250;
    cpu.registers[2] = 10;
    cpu.eval(&Instr::RegisterSetRegisterAdd { left: 1, right: 2 }).unwrap();
    assert_eq!(cpu.registers[1], 4);
    assert_eq!(cpu.registers[0xF], 1);
    assert_eq!(cpu.pc, INSTR_START + 2);

    let mut cpu = fresh();
    cpu.registers[1] = 10;
    cpu.registers[2] = 20;
    cpu.eval(&Instr::RegisterSetRegisterAdd { left: 1, right: 2 }).unwrap();
    assert_eq!(cpu.registers[1], 30);
    assert_eq!(cpu.registers[0xF], 0);
}

#[test]
fn sub_borrow_flag_is_inverted() {
    let mut cpu = fresh();
    cpu.registers[1] = 10;
    cpu.registers[2] = 20;
    cpu.eval(&Instr::RegisterSetRegisterSub { left: 1, right: 2 }).unwrap();
    assert_eq!(cpu.registers[1], 246);
    assert_eq!(cpu.registers[0xF], 0);

    let mut cpu = fresh();
    cpu.registers[1] = 20;
    cpu.registers[2] = 10;
    cpu.eval(&Instr::RegisterSetRegisterSub { left: 1, right: 2 }).unwrap();
    assert_eq!(cpu.registers[1], 10);
    assert_eq!(cpu.registers[0xF], 1);
}

#[test]
fn subn_reverses_the_operands() {
    let mut cpu = fresh();
    cpu.registers[1] = 10;
    cpu.registers[2] = 20;
    cpu.eval(&Instr::RegisterSetRegisterSubn { left: 1, right: 2 }).unwrap();
    assert_eq!(cpu.registers[1], 10);
    assert_eq!(cpu.registers[0xF], 1);

    let mut cpu = fresh();
    cpu.registers[1] = 20;
    cpu.registers[2] = 10;
    cpu.eval(&Instr::RegisterSetRegisterSubn { left: 1, right: 2 }).unwrap();
    assert_eq!(cpu.registers[1], 246);
    assert_eq!(cpu.registers[0xF], 0);
}

#[test]
fn add_assign_wraps_without_touching_the_flag() {
    let mut cpu = fresh();
    cpu.registers[3] = 250;
    cpu.registers[0xF] = 7;
    cpu.eval(&Instr::RegisterAddAssign { reg: 3, lit: 10 }).unwrap();
    assert_eq!(cpu.registers[3], 4);
    assert_eq!(cpu.registers[0xF], 7);
}

#[test]
fn bitwise_ops_combine_into_the_left_register() {
    let mut cpu = fresh();
    cpu.registers[1] = 0b1010;
    cpu.registers[2] = 0b0110;
    cpu.eval(&Instr::RegisterSetRegisterBitwiseOr { left: 1, right: 2 }).unwrap();
    assert_eq!(cpu.registers[1], 0b1110);
    cpu.registers[1] = 0b1010;
    cpu.eval(&Instr::RegisterSetRegisterBitwiseAnd { left: 1, right: 2 }).unwrap();
    assert_eq!(cpu.registers[1], 0b0010);
    cpu.registers[1] = 0b1010;
    cpu.eval(&Instr::RegisterSetRegisterBitwiseXor { left: 1, right: 2 }).unwrap();
    assert_eq!(cpu.registers[1], 0b1100);
    assert_eq!(cpu.registers[0xF], 0);
}

#[test]
fn shifts_capture_the_shifted_out_bit() {
    let mut cpu = fresh();
    cpu.registers[4] = 0b1001_0101;
    cpu.eval(&Instr::RegisterSetRegisterShr { left: 4, right: 0 }).unwrap();
    assert_eq!(cpu.registers[4], 0b0100_1010);
    assert_eq!(cpu.registers[0xF], 1);

    let mut cpu = fresh();
    cpu.registers[4] = 0b1001_0101;
    cpu.eval(&Instr::RegisterSetRegisterShl { reg: 4 }).unwrap();
    assert_eq!(cpu.registers[4], 0b0010_1010);
    assert_eq!(cpu.registers[0xF], 1);

    let mut cpu = fresh();
    cpu.registers[4] = 0b0100_1010;
    cpu.eval(&Instr::RegisterSetRegisterShr { left: 4, right: 0 }).unwrap();
    assert_eq!(cpu.registers[4], 0b0010_0101);
    assert_eq!(cpu.registers[0xF], 0);
}

#[test]
fn register_moves_and_literals() {
    let mut cpu = fresh();
    cpu.eval(&Instr::RegisterSetLiteral { reg: 6, lit: 0x2A }).unwrap();
    assert_eq!(cpu.registers[6], 0x2A);
    cpu.eval(&Instr::RegisterSetRegister { left: 7, right: 6 }).unwrap();
    assert_eq!(cpu.registers[7], 0x2A);
    assert_eq!(cpu.pc, INSTR_START + 4);
}

#[test]
fn skip_instructions_advance_by_four_on_success() {
    let mut cpu = fresh();
    cpu.registers[1] = 5;
    cpu.eval(&Instr::SkipNextEqualLiteral { reg: 1, lit: 5 }).unwrap();
    assert_eq!(cpu.pc, INSTR_START + 4);

    let mut cpu = fresh();
    cpu.registers[1] = 5;
    cpu.eval(&Instr::SkipNextEqualLiteral { reg: 1, lit: 6 }).unwrap();
    assert_eq!(cpu.pc, INSTR_START + 2);

    let mut cpu = fresh();
    cpu.registers[1] = 5;
    cpu.registers[2] = 5;
    cpu.eval(&Instr::SkipNextEqualRegister { left: 1, right: 2 }).unwrap();
    assert_eq!(cpu.pc, INSTR_START + 4);
    cpu.eval(&Instr::SkipNextNotEqualRegister { left: 1, right: 2 }).unwrap();
    assert_eq!(cpu.pc, INSTR_START + 6);
}

#[test]
fn call_then_return_resumes_after_the_call() {
    let mut cpu = fresh();
    cpu.eval(&Instr::Call { addr: 0x400 }).unwrap();
    assert_eq!(cpu.pc, 0x400);
    assert_eq!(cpu.sp, 1);
    assert_eq!(cpu.stack[0], INSTR_START + 2);
    cpu.eval(&Instr::Return).unwrap();
    assert_eq!(cpu.pc, INSTR_START + 2);
    assert_eq!(cpu.sp, 0);
}

#[test]
fn jump_sets_the_counter_directly() {
    let mut cpu = fresh();
    cpu.eval(&Instr::Jump { addr: 0xABC }).unwrap();
    assert_eq!(cpu.pc, 0xABC);

    let mut cpu = fresh();
    cpu.registers[0] = 5;
    cpu.eval(&Instr::JumpTo { addr: 0x300 }).unwrap();
    assert_eq!(cpu.pc, 0x305);
}

#[test]
fn machine_code_jump_is_a_no_op_that_advances() {
    let mut cpu = fresh();
    cpu.eval(&Instr::JumpToMachineCode { addr: 0x123 }).unwrap();
    assert_eq!(cpu.pc, INSTR_START + 2);
    assert_eq!(cpu.sp, 0);
}

#[test]
fn clear_blanks_the_display_and_marks_redraw() {
    let mut cpu = fresh();
    cpu.display[0] = true;
    cpu.display[2047] = true;
    cpu.eval(&Instr::Clear).unwrap();
    assert!(cpu.display.iter().all(|p| !*p));
    assert!(cpu.should_rerender);
    assert_eq!(cpu.pc, INSTR_START + 2);
}

#[test]
fn index_instructions() {
    let mut cpu = fresh();
    cpu.eval(&Instr::SetIndex { value: 0x123 }).unwrap();
    assert_eq!(cpu.index, 0x123);
    cpu.registers[2] = 28;
    cpu.eval(&Instr::IndexAddAssignRegister { reg: 2 }).unwrap();
    assert_eq!(cpu.index, 0x123 + 28);
    cpu.registers[3] = 0xA;
    cpu.eval(&Instr::SetIndexToDigitSprite { reg: 3 }).unwrap();
    assert_eq!(cpu.index, 50);
}

#[test]
fn bcd_splits_into_decimal_digits() {
    let mut cpu = fresh();
    cpu.registers[5] = 234;
    cpu.index = 0x300;
    cpu.eval(&Instr::StoreBCDAtIndex { reg: 5 }).unwrap();
    assert_eq!(cpu.memory[0x300], 2);
    assert_eq!(cpu.memory[0x301], 3);
    assert_eq!(cpu.memory[0x302], 4);

    cpu.registers[5] = 7;
    cpu.eval(&Instr::StoreBCDAtIndex { reg: 5 }).unwrap();
    assert_eq!(cpu.memory[0x300], 0);
    assert_eq!(cpu.memory[0x301], 0);
    assert_eq!(cpu.memory[0x302], 7);
}

#[test]
fn store_then_read_registers_round_trips() {
    let mut cpu = fresh();
    for r in 0..=5u8 {
        cpu.registers[r as usize] = 10 + r;
    }
    cpu.index = 0x300;
    cpu.eval(&Instr::StoreRegistersAtIndex { start_addr: 5 }).unwrap();
    for r in 0..=5usize {
        assert_eq!(cpu.memory[0x300 + r], 10 + r as u8);
        cpu.registers[r] = 0;
    }
    cpu.eval(&Instr::ReadRegistersAtIndex { start_addr: 5 }).unwrap();
    for r in 0..=5usize {
        assert_eq!(cpu.registers[r], 10 + r as u8);
    }
    assert_eq!(cpu.registers[6], 0);
}

#[test]
fn timer_instructions_move_values() {
    let mut cpu = fresh();
    cpu.registers[1] = 42;
    cpu.eval(&Instr::SetDelayTimerRegister { reg: 1 }).unwrap();
    assert_eq!(cpu.delay_timer, 42);
    cpu.eval(&Instr::SetDelayTimerValue { reg: 2 }).unwrap();
    assert_eq!(cpu.registers[2], 42);
    cpu.registers[3] = 9;
    cpu.eval(&Instr::SetSoundTimerRegister { reg: 3 }).unwrap();
    assert_eq!(cpu.sound_timer, 9);
}

#[test]
fn key_skips_branch_on_key_state() {
    let mut cpu = fresh();
    cpu.registers[1] = 0xC;
    cpu.keys[0xC] = true;
    cpu.eval(&Instr::SkipNextKeyPressed { reg: 1 }).unwrap();
    assert_eq!(cpu.pc, INSTR_START + 4);
    cpu.eval(&Instr::SkipNextKeyNotPressed { reg: 1 }).unwrap();
    assert_eq!(cpu.pc, INSTR_START + 6);
    cpu.keys[0xC] = false;
    cpu.eval(&Instr::SkipNextKeyNotPressed { reg: 1 }).unwrap();
    assert_eq!(cpu.pc, INSTR_START + 10);
}

#[test]
fn key_press_wait_blocks_until_a_key_arrives() {
    let mut cpu = fresh();
    cpu.memory[INSTR_START] = 0xF1;
    cpu.memory[INSTR_START + 1] = 0x0A;
    let out = cpu.run();
    assert_eq!(out.event, StepEvent::Executed);
    assert_eq!(cpu.pc, INSTR_START);
    let out = cpu.run();
    assert_eq!(out.event, StepEvent::Executed);
    assert_eq!(cpu.pc, INSTR_START);
    cpu.keys[5] = true;
    let out = cpu.run();
    assert_eq!(out.event, StepEvent::Executed);
    assert_eq!(cpu.pc, INSTR_START + 2);
    assert_eq!(cpu.registers[1], 5);
    assert_eq!(cpu.ticks, 3);
}

#[test]
fn key_press_wait_captures_the_lowest_pressed_key() {
    let mut cpu = fresh();
    cpu.keys[9] = true;
    cpu.keys[3] = true;
    cpu.eval(&Instr::KeyPressWait { reg: 0 }).unwrap();
    assert_eq!(cpu.registers[0], 3);
    assert_eq!(cpu.pc, INSTR_START + 2);
}

#[test]
fn draw_sets_pixels_and_double_draw_restores() {
    let mut cpu = fresh();
    cpu.memory[0x300] = 0b1100_0001;
    cpu.memory[0x301] = 0b0000_0001;
    cpu.index = 0x300;
    cpu.registers[1] = 4;
    cpu.registers[2] = 7;
    let d = Instr::DrawSprite { x: 1, y: 2, size: 2 };
    cpu.eval(&d).unwrap();
    assert_eq!(cpu.registers[0xF], 0);
    assert!(cpu.should_rerender);
    assert!(cpu.display[4 + 7 * 64]);
    assert!(cpu.display[5 + 7 * 64]);
    assert!(!cpu.display[6 + 7 * 64]);
    assert!(cpu.display[11 + 7 * 64]);
    assert!(cpu.display[11 + 8 * 64]);
    assert!(!cpu.display[4 + 8 * 64]);
    // the same sprite again: every pixel it set goes off, and the
    // collision flag reports it
    cpu.eval(&d).unwrap();
    assert_eq!(cpu.registers[0xF], 1);
    assert!(cpu.display.iter().all(|p| !*p));
}

#[test]
fn draw_wraps_around_both_edges() {
    let mut cpu = fresh();
    cpu.memory[0x300] = 0xFF;
    cpu.memory[0x301] = 0xFF;
    cpu.index = 0x300;
    cpu.registers[1] = 62;
    cpu.registers[2] = 31;
    cpu.eval(&Instr::DrawSprite { x: 1, y: 2, size: 2 }).unwrap();
    // row 31 holds columns 62, 63, 0..=5; row 0 the same, wrapped vertically
    for col in [62usize, 63, 0, 1, 2, 3, 4, 5] {
        assert!(cpu.display[col + 31 * 64]);
        assert!(cpu.display[col]);
    }
    assert!(!cpu.display[6 + 31 * 64]);
    assert_eq!(cpu.registers[0xF], 0);
}

#[test]
fn draw_reports_partial_collision() {
    let mut cpu = fresh();
    cpu.memory[0x300] = 0b1000_0000;
    cpu.index = 0x300;
    cpu.display[0] = true;
    cpu.registers[0] = 0;
    cpu.eval(&Instr::DrawSprite { x: 0, y: 0, size: 1 }).unwrap();
    assert_eq!(cpu.registers[0xF], 1);
    assert!(!cpu.display[0]);
}

#[test]
fn rand_masks_the_supplied_byte() {
    let mut cpu = fresh();
    cpu.rand_bitwise_and(3, 0x0F, 0xAB);
    assert_eq!(cpu.registers[3], 0x0B);
    assert_eq!(cpu.pc, INSTR_START + 2);
}

#[test]
fn rand_opcode_stays_within_the_mask() {
    let mut cpu = fresh();
    cpu.memory[INSTR_START] = 0xC0;
    cpu.memory[INSTR_START + 1] = 0x0F;
    let out = cpu.run();
    assert_eq!(out.event, StepEvent::Executed);
    assert_eq!(cpu.registers[0] & 0xF0, 0);
    assert_eq!(cpu.pc, INSTR_START + 2);
}

#[test]
fn run_decrements_timers_and_asks_for_the_beep() {
    let mut cpu = fresh();
    // 0x6005: a harmless register load
    cpu.memory[INSTR_START] = 0x60;
    cpu.memory[INSTR_START + 1] = 0x05;
    cpu.memory[INSTR_START + 2] = 0x60;
    cpu.memory[INSTR_START + 3] = 0x06;
    cpu.delay_timer = 2;
    cpu.sound_timer = 1;
    let out = cpu.run();
    assert_eq!(out.event, StepEvent::Executed);
    assert!(out.beep);
    assert_eq!(cpu.delay_timer, 1);
    assert_eq!(cpu.sound_timer, 0);
    assert_eq!(cpu.ticks, 1);
    let out = cpu.run();
    assert!(!out.beep);
    assert_eq!(cpu.delay_timer, 0);
    assert_eq!(cpu.ticks, 2);
    assert_eq!(cpu.registers[0], 6);
}

#[test]
fn run_halts_when_the_counter_leaves_memory() {
    let mut cpu = fresh();
    cpu.pc = MEM_SIZE;
    cpu.ticks = 5;
    let out = cpu.run();
    assert_eq!(out.event, StepEvent::Halted);
    assert!(!out.beep);
    assert_eq!(cpu.ticks, 5);
    assert_eq!(cpu.pc, MEM_SIZE);

    // one byte short of a full fetch halts too
    cpu.pc = MEM_SIZE - 1;
    let out = cpu.run();
    assert_eq!(out.event, StepEvent::Halted);
    assert_eq!(cpu.ticks, 5);
}

#[test]
fn run_reports_an_unknown_opcode_and_stays_put() {
    let mut cpu = fresh();
    cpu.memory[INSTR_START] = 0xFF;
    cpu.memory[INSTR_START + 1] = 0xFF;
    let out = cpu.run();
    assert_eq!(out.event, StepEvent::DecodeFailed(0xFFFF));
    assert_eq!(cpu.pc, INSTR_START);
    assert_eq!(cpu.ticks, 1);
}

#[test]
fn return_with_an_empty_stack_faults() {
    let mut cpu = fresh();
    assert_eq!(cpu.eval(&Instr::Return), Err(Fault::StackUnderflow));
    assert_eq!(cpu.pc, INSTR_START);
    assert_eq!(cpu.sp, 0);

    cpu.memory[INSTR_START] = 0x00;
    cpu.memory[INSTR_START + 1] = 0xEE;
    let out = cpu.run();
    assert_eq!(out.event, StepEvent::Faulted(Fault::StackUnderflow));
    assert_eq!(cpu.pc, INSTR_START);
}

#[test]
fn seventeenth_nested_call_faults() {
    let mut cpu = fresh();
    for _ in 0..16 {
        cpu.eval(&Instr::Call { addr: 0x400 }).unwrap();
    }
    assert_eq!(cpu.sp, 16);
    assert_eq!(cpu.eval(&Instr::Call { addr: 0x400 }), Err(Fault::StackOverflow));
    assert_eq!(cpu.sp, 16);
}

#[test]
fn key_skip_with_a_wild_register_faults() {
    let mut cpu = fresh();
    cpu.registers[1] = 200;
    assert_eq!(
        cpu.eval(&Instr::SkipNextKeyPressed { reg: 1 }),
        Err(Fault::KeyOutOfRange)
    );
    assert_eq!(cpu.pc, INSTR_START);
}

#[test]
fn memory_accesses_past_the_end_fault() {
    let mut cpu = fresh();
    cpu.index = MEM_SIZE - 2;
    assert_eq!(
        cpu.eval(&Instr::StoreRegistersAtIndex { start_addr: 5 }),
        Err(Fault::MemoryOutOfRange)
    );
    assert_eq!(
        cpu.eval(&Instr::ReadRegistersAtIndex { start_addr: 5 }),
        Err(Fault::MemoryOutOfRange)
    );
    assert_eq!(
        cpu.eval(&Instr::StoreBCDAtIndex { reg: 0 }),
        Err(Fault::MemoryOutOfRange)
    );
    cpu.registers[2] = 15;
    cpu.index = MEM_SIZE - 10;
    assert_eq!(
        cpu.eval(&Instr::DrawSprite { x: 0, y: 0, size: 15 }),
        Err(Fault::MemoryOutOfRange)
    );
    cpu.registers[3] = 255;
    assert_eq!(
        cpu.eval(&Instr::IndexAddAssignRegister { reg: 3 }),
        Err(Fault::MemoryOutOfRange)
    );
    assert_eq!(cpu.index, MEM_SIZE - 10);
    assert_eq!(cpu.pc, INSTR_START);
}

#[test]
fn a_small_program_runs_end_to_end() {
    let mut cpu = fresh();
    // V0 := 3; V1 := 4; V0 += V1 (flag clear); BCD of V0 at 0x2F0
    cpu.load(&[
        0x60, 0x03, // V0 = 3
        0x61, 0x04, // V1 = 4
        0x80, 0x14, // V0 += V1
        0xA2, 0xF0, // I = 0x2F0
        0xF0, 0x33, // BCD of V0
    ]);
    for _ in 0..5 {
        let out = cpu.run();
        assert_eq!(out.event, StepEvent::Executed);
    }
    assert_eq!(cpu.registers[0], 7);
    assert_eq!(cpu.registers[0xF], 0);
    assert_eq!(cpu.memory[0x2F0], 0);
    assert_eq!(cpu.memory[0x2F1], 0);
    assert_eq!(cpu.memory[0x2F2], 7);
    assert_eq!(cpu.pc, INSTR_START + 10);
    assert_eq!(cpu.ticks, 5);
}
