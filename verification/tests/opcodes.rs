use chip8::{Fault, Processor};

#[test]
fn load_immediate_then_get_returns_it() {
    // For every register and a spread of values: load then get gives the
    // value back.
    for x in 0..16u8 {
        for v in [0u8, 1, 0x2A, 0x7F, 0xFF] {
            let mut p = Processor::new();
            p.load_byte_to_register(x, v);
            assert_eq!(p.get_register(x), Ok(v));
            assert_eq!(p.program_counter(), 514);
        }
    }
}

#[test]
fn add_immediate_wraps_without_flag() {
    let mut p = Processor::new();
    p.load_byte_to_register(2, 0xFF);
    p.load_byte_to_register(15, 0x33);
    p.add_byte_to_register(2, 0x02);
    assert_eq!(p.get_register(2), Ok(0x01));
    // No flag side effect.
    assert_eq!(p.get_register(15), Ok(0x33));
}

#[test]
fn add_with_carry_sets_flag_on_overflow() {
    let mut p = Processor::new();
    p.load_byte_to_register(0, 0xFF);
    p.load_byte_to_register(1, 0x01);
    p.add_carryflag(0, 1);
    assert_eq!(p.get_register(0), Ok(0x00));
    assert_eq!(p.get_register(15), Ok(1));
}

#[test]
fn add_with_carry_clears_flag_without_overflow() {
    let mut p = Processor::new();
    p.load_byte_to_register(0, 0x01);
    p.load_byte_to_register(1, 0x01);
    p.set_register(15, 1).unwrap();
    p.add_carryflag(0, 1);
    assert_eq!(p.get_register(0), Ok(0x02));
    assert_eq!(p.get_register(15), Ok(0));
}

#[test]
fn subtract_sets_flag_when_no_borrow() {
    let mut p = Processor::new();
    p.load_byte_to_register(0, 5);
    p.load_byte_to_register(1, 3);
    p.subtract_registers(0, 1);
    assert_eq!(p.get_register(0), Ok(2));
    assert_eq!(p.get_register(15), Ok(1));
}

#[test]
fn subtract_wraps_and_clears_flag_on_borrow() {
    let mut p = Processor::new();
    p.load_byte_to_register(0, 3);
    p.load_byte_to_register(1, 5);
    p.subtract_registers(0, 1);
    assert_eq!(p.get_register(0), Ok(254));
    assert_eq!(p.get_register(15), Ok(0));
}

#[test]
fn subtract_reverse_uses_y_minus_x() {
    let mut p = Processor::new();
    p.load_byte_to_register(0, 3);
    p.load_byte_to_register(1, 5);
    p.subtract_n_registers(0, 1);
    assert_eq!(p.get_register(0), Ok(2));
    assert_eq!(p.get_register(15), Ok(1));

    let mut q = Processor::new();
    q.load_byte_to_register(0, 5);
    q.load_byte_to_register(1, 3);
    q.subtract_n_registers(0, 1);
    assert_eq!(q.get_register(0), Ok(254));
    assert_eq!(q.get_register(15), Ok(0));
}

#[test]
fn bitwise_operations() {
    let mut p = Processor::new();
    p.load_byte_to_register(0, 0b1100);
    p.load_byte_to_register(1, 0b1010);
    p.bitwise_or(0, 1);
    assert_eq!(p.get_register(0), Ok(0b1110));

    p.load_byte_to_register(0, 0b1100);
    p.bitwise_and(0, 1);
    assert_eq!(p.get_register(0), Ok(0b1000));

    p.load_byte_to_register(0, 0b1100);
    p.bitwise_xor(0, 1);
    assert_eq!(p.get_register(0), Ok(0b0110));
}

#[test]
fn register_move() {
    let mut p = Processor::new();
    p.load_byte_to_register(5, 0x77);
    p.load_register_to_register(2, 5);
    assert_eq!(p.get_register(2), Ok(0x77));
    assert_eq!(p.get_register(5), Ok(0x77));
}

#[test]
fn shift_right_reports_evicted_low_bit() {
    let mut p = Processor::new();
    p.load_byte_to_register(0, 0b1011);
    p.rightshift_register(0);
    assert_eq!(p.get_register(0), Ok(0b101));
    assert_eq!(p.get_register(15), Ok(1));
    p.load_byte_to_register(0, 0b100);
    p.rightshift_register(0);
    assert_eq!(p.get_register(0), Ok(0b10));
    assert_eq!(p.get_register(15), Ok(0));
}

#[test]
fn shift_left_reports_evicted_high_bit_and_wraps() {
    let mut p = Processor::new();
    p.load_byte_to_register(0, 0b1000_0001);
    p.leftshift_register(0);
    assert_eq!(p.get_register(0), Ok(0b0000_0010));
    assert_eq!(p.get_register(15), Ok(1));
    p.load_byte_to_register(0, 0b0100_0000);
    p.leftshift_register(0);
    assert_eq!(p.get_register(0), Ok(0b1000_0000));
    assert_eq!(p.get_register(15), Ok(0));
}

#[test]
fn index_register_loads_and_accumulates() {
    let mut p = Processor::new();
    p.load_i_register(0x123);
    assert_eq!(p.get_index(), 0x123);
    p.load_byte_to_register(4, 0x10);
    p.add_v_to_i_register(4);
    assert_eq!(p.get_index(), 0x133);
}

#[test]
fn index_addition_wraps_modulo_65536() {
    let mut p = Processor::new();
    p.set_index(0xFFFF);
    p.load_byte_to_register(0, 2);
    p.add_v_to_i_register(0);
    assert_eq!(p.get_index(), 1);
}

#[test]
fn font_glyph_address_is_five_times_digit() {
    let mut p = Processor::new();
    p.load_byte_to_register(3, 0xA);
    p.load_hex_sprite(3);
    assert_eq!(p.get_index(), 50);
}

#[test]
fn delay_timer_moves_through_registers() {
    let mut p = Processor::new();
    p.load_byte_to_register(6, 42);
    p.set_delay_timer(6);
    assert_eq!(p.get_delay(), 42);
    p.load_delay_timer(7);
    assert_eq!(p.get_register(7), Ok(42));
}

#[test]
fn store_bcd_writes_decimal_digits() {
    let mut p = Processor::new();
    p.load_byte_to_register(0, 255);
    p.set_index(0x300);
    assert_eq!(p.store_bcd(0), Ok(()));
    assert_eq!(p.read(0x300), Ok(2));
    assert_eq!(p.read(0x301), Ok(5));
    assert_eq!(p.read(0x302), Ok(5));

    let mut q = Processor::new();
    q.load_byte_to_register(0, 7);
    q.set_index(0x300);
    assert_eq!(q.store_bcd(0), Ok(()));
    assert_eq!(q.read(0x300), Ok(0));
    assert_eq!(q.read(0x301), Ok(0));
    assert_eq!(q.read(0x302), Ok(7));
}

#[test]
fn store_bcd_past_memory_end_faults() {
    let mut p = Processor::new();
    p.set_index(4094);
    assert_eq!(p.store_bcd(0), Err(Fault::OutOfBounds));
    assert_eq!(p.read(4094), Ok(0));
}

#[test]
fn bulk_store_moves_all_sixteen_registers() {
    let mut p = Processor::new();
    for x in 0..16u8 {
        p.load_byte_to_register(x, 0x10 + x);
    }
    p.set_index(0x400);
    assert_eq!(p.load_registers_to_memory(15), Ok(()));
    for x in 0..16u16 {
        assert_eq!(p.read(0x400 + x), Ok(0x10 + x as u8));
    }
    // Exactly sixteen bytes: the next one is untouched.
    assert_eq!(p.read(0x410), Ok(0));
}

#[test]
fn bulk_load_moves_all_sixteen_registers() {
    let mut p = Processor::new();
    for k in 0..16u16 {
        p.write(0x500 + k, 0x20 + k as u8).unwrap();
    }
    p.set_index(0x500);
    assert_eq!(p.read_memory_to_register(15), Ok(()));
    for x in 0..16u8 {
        assert_eq!(p.get_register(x), Ok(0x20 + x));
    }
}

#[test]
fn bulk_store_is_inclusive_of_x() {
    let mut p = Processor::new();
    p.load_byte_to_register(0, 1);
    p.load_byte_to_register(1, 2);
    p.load_byte_to_register(2, 3);
    p.set_index(0x420);
    assert_eq!(p.load_registers_to_memory(2), Ok(()));
    assert_eq!(p.read(0x420), Ok(1));
    assert_eq!(p.read(0x421), Ok(2));
    assert_eq!(p.read(0x422), Ok(3));
    assert_eq!(p.read(0x423), Ok(0));
}

#[test]
fn bulk_store_past_memory_end_faults() {
    let mut p = Processor::new();
    p.set_index(4090);
    assert_eq!(p.load_registers_to_memory(15), Err(Fault::OutOfBounds));
    assert_eq!(p.read(4090), Ok(0));
}

#[test]
fn bulk_load_past_memory_end_faults() {
    let mut p = Processor::new();
    p.set_index(4090);
    assert_eq!(p.read_memory_to_register(15), Err(Fault::OutOfBounds));
    for x in 0..16u8 {
        assert_eq!(p.get_register(x), Ok(0));
    }
}

#[test]
fn random_masks_with_zero_gives_zero() {
    let mut p = Processor::new();
    p.load_byte_to_register(3, 0xAA);
    p.random(3, 0x00);
    assert_eq!(p.get_register(3), Ok(0));
}

#[test]
fn random_respects_mask_bits() {
    for _ in 0..32 {
        let mut p = Processor::new();
        p.random(3, 0x0F);
        let v = p.get_register(3).unwrap();
        assert_eq!(v & 0xF0, 0);
    }
}
