use chip8::{Fault, Processor};

#[test]
fn fresh_machine_state() {
    let p = Processor::new();
    assert_eq!(p.program_counter(), 512);
    assert_eq!(p.get_index(), 0);
    assert_eq!(p.get_delay(), 0);
    assert_eq!(p.halt_reason(), None);
    for x in 0..16u8 {
        assert_eq!(p.get_register(x), Ok(0));
    }
    for k in 0..16u8 {
        assert_eq!(p.is_down(k), Ok(false));
    }
    for row in 0..32u8 {
        for col in 0..64u8 {
            assert_eq!(p.pixel(col, row), Ok(0));
        }
    }
}

#[test]
fn font_table_loaded_at_construction() {
    let p = Processor::new();
    // Glyph 0: F0 90 90 90 F0.
    assert_eq!(p.read(0), Ok(0xF0));
    assert_eq!(p.read(1), Ok(0x90));
    assert_eq!(p.read(2), Ok(0x90));
    assert_eq!(p.read(3), Ok(0x90));
    assert_eq!(p.read(4), Ok(0xF0));
    // Glyph 1: 20 60 20 20 70.
    assert_eq!(p.read(5), Ok(0x20));
    assert_eq!(p.read(9), Ok(0x70));
    // Glyph A starts at 50.
    assert_eq!(p.read(50), Ok(0xF0));
    assert_eq!(p.read(54), Ok(0x90));
    // Last byte of glyph F.
    assert_eq!(p.read(79), Ok(0x80));
    // Past the font table memory is zero.
    assert_eq!(p.read(80), Ok(0));
    assert_eq!(p.read(4095), Ok(0));
}

#[test]
fn load_program_copies_at_load_address() {
    let mut p = Processor::new();
    let image = vec![0x60u8, 0x2A, 0x12, 0x00];
    assert_eq!(p.load_program(&image), Ok(()));
    assert_eq!(p.read(512), Ok(0x60));
    assert_eq!(p.read(513), Ok(0x2A));
    assert_eq!(p.read(514), Ok(0x12));
    assert_eq!(p.read(515), Ok(0x00));
    assert_eq!(p.read(516), Ok(0));
    assert_eq!(p.read(511), Ok(0));
}

#[test]
fn load_program_exactly_filling_memory_is_accepted() {
    let mut p = Processor::new();
    let image = vec![0xABu8; 4096 - 512];
    assert_eq!(p.load_program(&image), Ok(()));
    assert_eq!(p.read(512), Ok(0xAB));
    assert_eq!(p.read(4095), Ok(0xAB));
}

#[test]
fn load_program_too_large_is_rejected_whole() {
    let mut p = Processor::new();
    let image = vec![0xABu8; 4096 - 512 + 1];
    assert_eq!(p.load_program(&image), Err(Fault::ProgramTooLarge));
    // Nothing was written.
    assert_eq!(p.read(512), Ok(0));
    assert_eq!(p.read(4095), Ok(0));
}

#[test]
fn memory_bounds_are_checked() {
    let mut p = Processor::new();
    assert_eq!(p.write(4095, 7), Ok(()));
    assert_eq!(p.read(4095), Ok(7));
    assert_eq!(p.write(4096, 7), Err(Fault::OutOfBounds));
    assert_eq!(p.read(4096), Err(Fault::OutOfBounds));
    assert_eq!(p.read(0xFFFF), Err(Fault::OutOfBounds));
}

#[test]
fn register_index_is_checked() {
    let mut p = Processor::new();
    assert_eq!(p.set_register(15, 0x42), Ok(()));
    assert_eq!(p.get_register(15), Ok(0x42));
    assert_eq!(p.set_register(16, 1), Err(Fault::InvalidRegister));
    assert_eq!(p.get_register(16), Err(Fault::InvalidRegister));
}

#[test]
fn keypad_index_is_checked() {
    let mut p = Processor::new();
    assert_eq!(p.set_down(3, true), Ok(()));
    assert_eq!(p.is_down(3), Ok(true));
    assert_eq!(p.set_down(3, false), Ok(()));
    assert_eq!(p.is_down(3), Ok(false));
    assert_eq!(p.set_down(16, true), Err(Fault::InvalidKey));
    assert_eq!(p.is_down(16), Err(Fault::InvalidKey));
}

#[test]
fn delay_timer_ticks_down_and_saturates() {
    let mut p = Processor::new();
    p.set_delay(2);
    assert_eq!(p.get_delay(), 2);
    p.tick_delay();
    assert_eq!(p.get_delay(), 1);
    p.tick_delay();
    assert_eq!(p.get_delay(), 0);
    p.tick_delay();
    assert_eq!(p.get_delay(), 0);
}

#[test]
fn stack_push_pop_is_lifo_and_bounded() {
    let mut p = Processor::new();
    for k in 0..16u16 {
        assert_eq!(p.push(512 + 2 * k), Ok(()));
    }
    assert_eq!(p.push(600), Err(Fault::StackOverflow));
    for k in (0..16u16).rev() {
        assert_eq!(p.pop(), Ok(512 + 2 * k));
    }
    assert_eq!(p.pop(), Err(Fault::StackUnderflow));
}

#[test]
fn pixel_bounds_are_checked() {
    let p = Processor::new();
    assert_eq!(p.pixel(63, 31), Ok(0));
    assert_eq!(p.pixel(64, 0), Err(Fault::OutOfBounds));
    assert_eq!(p.pixel(0, 32), Err(Fault::OutOfBounds));
}
