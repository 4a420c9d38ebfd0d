use chip8::{decode, Fault, Instruction, Processor, StepOutcome};

fn assemble(words: &[u16]) -> Vec<u8> {
    let mut bytes = Vec::new();
    for w in words {
        bytes.push((w >> 8) as u8);
        bytes.push((w & 0xFF) as u8);
    }
    bytes
}

#[test]
fn decode_covers_the_opcode_table() {
    assert_eq!(decode(0x00E0), Instruction::ClearScreen);
    assert_eq!(decode(0x00EE), Instruction::Return);
    assert_eq!(decode(0x1234), Instruction::Jump(0x234));
    assert_eq!(decode(0x2ABC), Instruction::Call(0xABC));
    assert_eq!(decode(0x3A42), Instruction::SkipEqImm(0xA, 0x42));
    assert_eq!(decode(0x4A42), Instruction::SkipNeImm(0xA, 0x42));
    assert_eq!(decode(0x5AB0), Instruction::SkipEqReg(0xA, 0xB));
    assert_eq!(decode(0x9AB0), Instruction::SkipNeReg(0xA, 0xB));
    assert_eq!(decode(0x6C99), Instruction::LoadImm(0xC, 0x99));
    assert_eq!(decode(0x7C01), Instruction::AddImm(0xC, 0x01));
    assert_eq!(decode(0x8120), Instruction::Move(1, 2));
    assert_eq!(decode(0x8121), Instruction::Or(1, 2));
    assert_eq!(decode(0x8122), Instruction::And(1, 2));
    assert_eq!(decode(0x8123), Instruction::Xor(1, 2));
    assert_eq!(decode(0x8124), Instruction::AddCarry(1, 2));
    assert_eq!(decode(0x8125), Instruction::SubBorrow(1, 2));
    assert_eq!(decode(0x8126), Instruction::ShiftRight(1));
    assert_eq!(decode(0x8127), Instruction::SubReverse(1, 2));
    assert_eq!(decode(0x812E), Instruction::ShiftLeft(1));
    assert_eq!(decode(0xA123), Instruction::LoadIndex(0x123));
    assert_eq!(decode(0xB123), Instruction::JumpPlusV0(0x123));
    assert_eq!(decode(0xC277), Instruction::Random(2, 0x77));
    assert_eq!(decode(0xD01F), Instruction::Draw(0, 1, 0xF));
    assert_eq!(decode(0xE59E), Instruction::SkipKeyDown(5));
    assert_eq!(decode(0xE5A1), Instruction::SkipKeyUp(5));
    assert_eq!(decode(0xF307), Instruction::LoadDelay(3));
    assert_eq!(decode(0xF315), Instruction::SetDelay(3));
    assert_eq!(decode(0xF31E), Instruction::AddIndex(3));
    assert_eq!(decode(0xF329), Instruction::LoadFont(3));
    assert_eq!(decode(0xF333), Instruction::StoreBcd(3));
    assert_eq!(decode(0xF355), Instruction::StoreRegs(3));
    assert_eq!(decode(0xF365), Instruction::LoadRegs(3));
    // Words with no defined operation.
    assert_eq!(decode(0x0000), Instruction::Unknown(0x0000));
    assert_eq!(decode(0x5AB1), Instruction::Unknown(0x5AB1));
    assert_eq!(decode(0x8128), Instruction::Unknown(0x8128));
    assert_eq!(decode(0x9AB2), Instruction::Unknown(0x9AB2));
    assert_eq!(decode(0xE500), Instruction::Unknown(0xE500));
    assert_eq!(decode(0xF30A), Instruction::Unknown(0xF30A));
    assert_eq!(decode(0xF318), Instruction::Unknown(0xF318));
}

#[test]
fn step_executes_a_small_program() {
    let mut p = Processor::new();
    // v0 = 0x2A; v1 = 0x02; v0 += v1 with carry flag.
    p.load_program(&assemble(&[0x602A, 0x6102, 0x8014])).unwrap();
    assert_eq!(p.step(), Ok(StepOutcome::Executed));
    assert_eq!(p.program_counter(), 514);
    assert_eq!(p.step(), Ok(StepOutcome::Executed));
    assert_eq!(p.step(), Ok(StepOutcome::Executed));
    assert_eq!(p.program_counter(), 518);
    assert_eq!(p.get_register(0), Ok(0x2C));
    assert_eq!(p.get_register(15), Ok(0));
}

#[test]
fn unknown_opcode_reports_and_advances_only_pc() {
    let mut p = Processor::new();
    // 0x0123 belongs to no defined operation.
    p.load_program(&assemble(&[0x0123])).unwrap();
    p.load_byte_to_register(7, 0x55);
    p.jump(512);
    assert_eq!(p.step(), Ok(StepOutcome::UnknownInstruction(0x0123)));
    // Only the program counter moved.
    assert_eq!(p.program_counter(), 514);
    assert_eq!(p.halt_reason(), None);
    assert_eq!(p.get_register(7), Ok(0x55));
    assert_eq!(p.get_index(), 0);
    assert_eq!(p.get_delay(), 0);
    for x in 0..16u8 {
        if x != 7 {
            assert_eq!(p.get_register(x), Ok(0));
        }
    }
    for row in 0..32u8 {
        for col in 0..64u8 {
            assert_eq!(p.pixel(col, row), Ok(0));
        }
    }
    // Execution goes on afterwards.
    assert_eq!(p.step(), Ok(StepOutcome::UnknownInstruction(0)));
}

#[test]
fn conditional_skips_advance_by_two_instructions() {
    let mut p = Processor::new();
    p.load_program(&assemble(&[0x3007, 0x0000, 0x3008])).unwrap();
    p.load_byte_to_register(0, 7);
    p.jump(512);
    // v0 == 7: the skip matches and jumps over one whole instruction.
    assert_eq!(p.step(), Ok(StepOutcome::Executed));
    assert_eq!(p.program_counter(), 516);
    // v0 != 8: no skip, normal advance.
    assert_eq!(p.step(), Ok(StepOutcome::Executed));
    assert_eq!(p.program_counter(), 518);
}

#[test]
fn register_skips_compare_registers() {
    let mut p = Processor::new();
    p.load_program(&assemble(&[0x5010, 0x0000, 0x9010])).unwrap();
    p.load_byte_to_register(0, 9);
    p.load_byte_to_register(1, 9);
    p.jump(512);
    assert_eq!(p.step(), Ok(StepOutcome::Executed));
    assert_eq!(p.program_counter(), 516);
    // Equal registers: 9xy0 does not skip.
    assert_eq!(p.step(), Ok(StepOutcome::Executed));
    assert_eq!(p.program_counter(), 518);
}

#[test]
fn jump_with_v0_offset() {
    let mut p = Processor::new();
    p.load_program(&assemble(&[0xB208])).unwrap();
    p.load_byte_to_register(0, 4);
    p.jump(512);
    assert_eq!(p.step(), Ok(StepOutcome::Executed));
    assert_eq!(p.program_counter(), 0x20C);
}

#[test]
fn nested_calls_and_returns_restore_the_pc_sequence() {
    let mut p = Processor::new();
    // 512: call 0x300; 0x300: call 0x400; 0x400: call 0x500;
    // 0x500: return; 0x402: return; 0x302: return.
    p.load_program(&assemble(&[0x2300])).unwrap();
    p.write(0x300, 0x24).unwrap();
    p.write(0x301, 0x00).unwrap();
    p.write(0x400, 0x25).unwrap();
    p.write(0x401, 0x00).unwrap();
    p.write(0x500, 0x00).unwrap();
    p.write(0x501, 0xEE).unwrap();
    p.write(0x402, 0x00).unwrap();
    p.write(0x403, 0xEE).unwrap();
    p.write(0x302, 0x00).unwrap();
    p.write(0x303, 0xEE).unwrap();
    assert_eq!(p.step(), Ok(StepOutcome::Executed));
    assert_eq!(p.program_counter(), 0x300);
    assert_eq!(p.step(), Ok(StepOutcome::Executed));
    assert_eq!(p.program_counter(), 0x400);
    assert_eq!(p.step(), Ok(StepOutcome::Executed));
    assert_eq!(p.program_counter(), 0x500);
    // Returns pop the call sites last in, first out.
    assert_eq!(p.step(), Ok(StepOutcome::Executed));
    assert_eq!(p.program_counter(), 0x402);
    assert_eq!(p.step(), Ok(StepOutcome::Executed));
    assert_eq!(p.program_counter(), 0x302);
    assert_eq!(p.step(), Ok(StepOutcome::Executed));
    assert_eq!(p.program_counter(), 514);
}

#[test]
fn return_with_empty_stack_underflows_and_halts() {
    let mut p = Processor::new();
    p.load_program(&assemble(&[0x00EE])).unwrap();
    assert_eq!(p.step(), Err(Fault::StackUnderflow));
    assert_eq!(p.halt_reason(), Some(Fault::StackUnderflow));
    // The program counter did not move to a wrapped or garbage address.
    assert_eq!(p.program_counter(), 512);
    // The machine stays halted with the same report.
    assert_eq!(p.step(), Err(Fault::StackUnderflow));
    assert_eq!(p.program_counter(), 512);
}

#[test]
fn seventeen_nested_calls_overflow_the_stack() {
    let mut p = Processor::new();
    // An instruction at 512 that calls itself, forever.
    p.load_program(&assemble(&[0x2200])).unwrap();
    for _ in 0..16 {
        assert_eq!(p.step(), Ok(StepOutcome::Executed));
    }
    assert_eq!(p.step(), Err(Fault::StackOverflow));
    assert_eq!(p.halt_reason(), Some(Fault::StackOverflow));
}

#[test]
fn fetch_past_memory_end_halts() {
    let mut p = Processor::new();
    // Jump to the last byte of memory: the next fetch cannot read two
    // bytes and the machine halts.
    p.load_program(&assemble(&[0x1FFF])).unwrap();
    assert_eq!(p.step(), Ok(StepOutcome::Executed));
    assert_eq!(p.program_counter(), 0xFFF);
    assert_eq!(p.step(), Err(Fault::OutOfBounds));
    assert_eq!(p.halt_reason(), Some(Fault::OutOfBounds));
    assert_eq!(p.step(), Err(Fault::OutOfBounds));
}

#[test]
fn key_skips_follow_the_keypad() {
    let mut p = Processor::new();
    p.load_program(&assemble(&[0xE09E, 0xE0A1])).unwrap();
    p.load_byte_to_register(0, 5);
    p.set_down(5, true).unwrap();
    p.jump(512);
    // Key 5 is down: Ex9E skips.
    assert_eq!(p.step(), Ok(StepOutcome::Executed));
    assert_eq!(p.program_counter(), 516);
    p.jump(514);
    // Key 5 is down: ExA1 does not skip.
    assert_eq!(p.step(), Ok(StepOutcome::Executed));
    assert_eq!(p.program_counter(), 516);
    p.set_down(5, false).unwrap();
    p.jump(514);
    assert_eq!(p.step(), Ok(StepOutcome::Executed));
    assert_eq!(p.program_counter(), 518);
}

#[test]
fn key_skip_with_invalid_key_number_halts() {
    let mut p = Processor::new();
    p.load_program(&assemble(&[0xE09E])).unwrap();
    p.load_byte_to_register(0, 16);
    p.jump(512);
    assert_eq!(p.step(), Err(Fault::InvalidKey));
    assert_eq!(p.halt_reason(), Some(Fault::InvalidKey));
}

#[test]
fn step_runs_draw_and_reports_collision_in_the_flag() {
    let mut p = Processor::new();
    // A220: index at 0x220; D015: draw the 5-row glyph shape at (v0, v1).
    p.load_program(&assemble(&[0xA220, 0xD015, 0x1200])).unwrap();
    p.write(0x220, 0xF0).unwrap();
    p.write(0x221, 0x90).unwrap();
    p.write(0x222, 0x90).unwrap();
    p.write(0x223, 0x90).unwrap();
    p.write(0x224, 0xF0).unwrap();
    assert_eq!(p.step(), Ok(StepOutcome::Executed));
    assert_eq!(p.get_index(), 0x220);
    assert_eq!(p.step(), Ok(StepOutcome::Executed));
    assert_eq!(p.pixel(0, 0), Ok(1));
    assert_eq!(p.pixel(3, 0), Ok(1));
    assert_eq!(p.pixel(1, 1), Ok(0));
    assert_eq!(p.get_register(15), Ok(0));
    // Jump back and draw again: the glyph erases itself and collides.
    assert_eq!(p.step(), Ok(StepOutcome::Executed));
    assert_eq!(p.step(), Ok(StepOutcome::Executed));
    assert_eq!(p.step(), Ok(StepOutcome::Executed));
    assert_eq!(p.get_register(15), Ok(1));
    assert_eq!(p.pixel(0, 0), Ok(0));
}

#[test]
fn step_random_masks_the_drawn_byte() {
    let mut p = Processor::new();
    p.load_program(&assemble(&[0xC30F])).unwrap();
    assert_eq!(p.step(), Ok(StepOutcome::Executed));
    let v = p.get_register(3).unwrap();
    assert_eq!(v & 0xF0, 0);
    assert_eq!(p.program_counter(), 514);
}

#[test]
fn step_timer_instructions() {
    let mut p = Processor::new();
    p.load_program(&assemble(&[0x6328, 0xF315, 0xF407])).unwrap();
    assert_eq!(p.step(), Ok(StepOutcome::Executed));
    assert_eq!(p.step(), Ok(StepOutcome::Executed));
    assert_eq!(p.get_delay(), 40);
    assert_eq!(p.step(), Ok(StepOutcome::Executed));
    assert_eq!(p.get_register(4), Ok(40));
}
