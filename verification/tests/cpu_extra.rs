use chip8::cpu::{Cpu, Fault};

#[test]
fn add_immediate_wraps_without_flag() {
    let mut cpu = Cpu::new();
    // 7xaa then 7xbb on the same register: Vx == (a + b) mod 256.
    let _ = cpu.process_opcode(0x71C8); // a = 200
    let _ = cpu.process_opcode(0x7164); // b = 100
    assert_eq!(cpu.v_registers[1], 44, "300 mod 256");
    assert_eq!(cpu.v_registers[0xF], 0, "no flag set");
    assert_eq!(cpu.program_counter, 4);
}

#[test]
fn add_with_carry_exact_values() {
    let mut cpu = Cpu::new();
    cpu.v_registers[1] = 200;
    cpu.v_registers[2] = 100;
    let _ = cpu.process_opcode(0x8124);
    assert_eq!(cpu.v_registers[1], 44, "300 mod 256");
    assert_eq!(cpu.v_registers[0xF], 1, "carry set");

    let mut cpu = Cpu::new();
    cpu.v_registers[1] = 10;
    cpu.v_registers[2] = 20;
    let _ = cpu.process_opcode(0x8124);
    assert_eq!(cpu.v_registers[1], 30);
    assert_eq!(cpu.v_registers[0xF], 0, "no carry");
}

#[test]
fn sub_with_borrow_polarity() {
    let mut cpu = Cpu::new();
    cpu.v_registers[1] = 10;
    cpu.v_registers[2] = 20;
    let _ = cpu.process_opcode(0x8125);
    assert_eq!(cpu.v_registers[0xF], 1, "flag set when Vx < Vy");
    assert_eq!(cpu.v_registers[1], 246, "(10 - 20) mod 256");

    let mut cpu = Cpu::new();
    cpu.v_registers[1] = 20;
    cpu.v_registers[2] = 10;
    let _ = cpu.process_opcode(0x8125);
    assert_eq!(cpu.v_registers[0xF], 0, "flag clear when Vx >= Vy");
    assert_eq!(cpu.v_registers[1], 10);
}

#[test]
fn reverse_sub_with_borrow() {
    let mut cpu = Cpu::new();
    cpu.v_registers[1] = 10;
    cpu.v_registers[2] = 20;
    let _ = cpu.process_opcode(0x8127);
    assert_eq!(cpu.v_registers[0xF], 1, "flag set when Vx < Vy");
    assert_eq!(cpu.v_registers[1], 10, "Vy - Vx");
}

#[test]
fn shift_right_lsb_into_flag() {
    let mut cpu = Cpu::new();
    cpu.v_registers[1] = 5;
    let _ = cpu.process_opcode(0x8106);
    assert_eq!(cpu.v_registers[0xF], 1, "least significant bit");
    assert_eq!(cpu.v_registers[1], 2);
}

#[test]
fn shift_left_msb_into_flag() {
    let mut cpu = Cpu::new();
    cpu.v_registers[1] = 0x81;
    let _ = cpu.process_opcode(0x810E);
    assert_eq!(cpu.v_registers[0xF], 1, "most significant bit");
    assert_eq!(cpu.v_registers[1], 2, "0x81 * 2 mod 256");
}

#[test]
fn jump_with_offset() {
    let mut cpu = Cpu::new();
    cpu.v_registers[0] = 5;
    let _ = cpu.process_opcode(0xB300);
    assert_eq!(cpu.program_counter, 0x305);
}

#[test]
fn random_masked_by_immediate() {
    let mut cpu = Cpu::new();
    let r = cpu.process_opcode(0xC10F);
    assert_eq!(r, Ok(()));
    assert_eq!(cpu.v_registers[1] & 0xF0, 0, "bits outside the mask are clear");
    assert_eq!(cpu.program_counter, 2);
}

#[test]
fn skip_when_key_pressed() {
    let mut cpu = Cpu::new();
    cpu.v_registers[1] = 7;
    let _ = cpu.process_opcode(0xE19E);
    assert_eq!(cpu.program_counter, 2, "key 7 is up");

    cpu.keypad.key_down(7);
    let _ = cpu.process_opcode(0xE19E);
    assert_eq!(cpu.program_counter, 6, "key 7 is down");
}

#[test]
fn skip_when_key_not_pressed() {
    let mut cpu = Cpu::new();
    cpu.v_registers[1] = 7;
    let _ = cpu.process_opcode(0xE1A1);
    assert_eq!(cpu.program_counter, 4, "key 7 is up");

    cpu.keypad.key_down(7);
    let _ = cpu.process_opcode(0xE1A1);
    assert_eq!(cpu.program_counter, 6, "key 7 is down");
}

#[test]
fn key_query_out_of_range_faults() {
    let mut cpu = Cpu::new();
    cpu.v_registers[1] = 16;
    let r = cpu.process_opcode(0xE19E);
    assert_eq!(r, Err(Fault::KeyOutOfRange));
    assert_eq!(cpu.program_counter, 0, "a faulted step changes nothing");
}

#[test]
fn wait_key_blocks_until_press() {
    let mut cpu = Cpu::new();
    let r = cpu.process_opcode(0xF10A);
    assert_eq!(r, Ok(()));
    assert_eq!(cpu.program_counter, 0, "no key yet: the step is re-issued");
    assert_eq!(cpu.v_registers[1], 0);

    cpu.keypad.key_down(9);
    let _ = cpu.process_opcode(0xF10A);
    assert_eq!(cpu.v_registers[1], 9, "the pressed key lands in Vx");
    assert_eq!(cpu.program_counter, 2);
}

#[test]
fn wait_key_takes_lowest_pressed() {
    let mut cpu = Cpu::new();
    cpu.keypad.key_down(11);
    cpu.keypad.key_down(4);
    let _ = cpu.process_opcode(0xF10A);
    assert_eq!(cpu.v_registers[1], 4);
}

#[test]
fn timers_read_and_write() {
    let mut cpu = Cpu::new();
    cpu.v_registers[1] = 42;
    let _ = cpu.process_opcode(0xF115); // delay := V1
    assert_eq!(cpu.delay_timer, 42);
    let _ = cpu.process_opcode(0xF118); // sound := V1
    assert_eq!(cpu.sound_timer, 42);
    let _ = cpu.process_opcode(0xF207); // V2 := delay
    assert_eq!(cpu.v_registers[2], 42);
    assert_eq!(cpu.program_counter, 6);
}

#[test]
fn tick_timers_floors_at_zero() {
    let mut cpu = Cpu::new();
    cpu.delay_timer = 2;
    cpu.sound_timer = 0;
    cpu.tick_timers();
    assert_eq!(cpu.delay_timer, 1);
    assert_eq!(cpu.sound_timer, 0, "never wraps below zero");
    cpu.tick_timers();
    cpu.tick_timers();
    assert_eq!(cpu.delay_timer, 0);
}

#[test]
fn add_to_index_wraps() {
    let mut cpu = Cpu::new();
    cpu.i = 0xFFF0;
    cpu.v_registers[1] = 0x20;
    let _ = cpu.process_opcode(0xF11E);
    assert_eq!(cpu.i, 0x10, "16-bit wraparound");
    assert_eq!(cpu.program_counter, 2);
}

#[test]
fn font_pointer() {
    let mut cpu = Cpu::new();
    cpu.v_registers[1] = 0xA;
    let _ = cpu.process_opcode(0xF129);
    assert_eq!(cpu.i, 50, "five bytes per glyph");
    assert_eq!(cpu.program_counter, 2);
}

#[test]
fn unrecognized_opcode_still_advances() {
    let mut cpu = Cpu::new();
    let r = cpu.process_opcode(0x5231); // 5xy0 pattern with a nonzero low nibble
    assert_eq!(r, Ok(()));
    assert_eq!(cpu.program_counter, 2);
    let r = cpu.process_opcode(0x0123); // machine-call pattern: ignored
    assert_eq!(r, Ok(()));
    assert_eq!(cpu.program_counter, 4);
}

#[test]
fn return_with_empty_stack_faults() {
    let mut cpu = Cpu::new();
    cpu.program_counter = 0x40;
    let r = cpu.process_opcode(0x00EE);
    assert_eq!(r, Err(Fault::StackUnderflow));
    assert_eq!(cpu.program_counter, 0x40, "a faulted step changes nothing");
    assert_eq!(cpu.stack_pointer, 0);
}

#[test]
fn seventeenth_nested_call_faults() {
    let mut cpu = Cpu::new();
    for _ in 0..16 {
        let r = cpu.process_opcode(0x2ABC);
        assert_eq!(r, Ok(()));
    }
    assert_eq!(cpu.stack_pointer, 16);
    let r = cpu.process_opcode(0x2ABC);
    assert_eq!(r, Err(Fault::StackOverflow));
    assert_eq!(cpu.stack_pointer, 16, "a faulted step changes nothing");
}

#[test]
fn bcd_store_past_memory_faults() {
    let mut cpu = Cpu::new();
    cpu.i = 4094;
    cpu.v_registers[2] = 7;
    let r = cpu.process_opcode(0xF233);
    assert_eq!(r, Err(Fault::MemoryOutOfBounds));
    assert_eq!(cpu.memory[4094], 0, "a faulted step changes nothing");
}

#[test]
fn block_store_past_memory_faults() {
    let mut cpu = Cpu::new();
    cpu.i = 4090;
    let r = cpu.process_opcode(0xF755); // needs cells 4090..=4097
    assert_eq!(r, Err(Fault::MemoryOutOfBounds));
    let r = cpu.process_opcode(0xF765);
    assert_eq!(r, Err(Fault::MemoryOutOfBounds));
}

#[test]
fn sprite_read_past_memory_faults() {
    let mut cpu = Cpu::new();
    cpu.i = 4090;
    let r = cpu.process_opcode(0xD128); // eight rows from 4090
    assert_eq!(r, Err(Fault::MemoryOutOfBounds));
    assert_eq!(cpu.program_counter, 0, "a faulted step changes nothing");
}

#[test]
fn load_program_fills_program_region() {
    let mut cpu = Cpu::new();
    let image = vec![0x12u8, 0x34, 0x56];
    cpu.load_program(&image);
    assert_eq!(cpu.memory[0x200], 0x12);
    assert_eq!(cpu.memory[0x201], 0x34);
    assert_eq!(cpu.memory[0x202], 0x56);
    assert_eq!(cpu.memory[0x203], 0);
    assert_eq!(cpu.memory[0x1FF], 0);
    assert_eq!(cpu.program_counter, 0);
}

#[test]
fn program_counter_wraps_at_the_top() {
    let mut cpu = Cpu::new();
    cpu.program_counter = 0xFFFE;
    let _ = cpu.process_opcode(0x6100);
    assert_eq!(cpu.program_counter, 0, "the advance wraps at 16 bits");
}

#[test]
fn random_rule_applies_supplied_byte() {
    let mut cpu = Cpu::new();
    let r = cpu.process_opcode_with_random(0xC1FF, 0xAB);
    assert_eq!(r, Ok(()));
    assert_eq!(cpu.v_registers[1], 0xAB, "the full mask keeps the byte");

    let r = cpu.process_opcode_with_random(0xC233, 0xAB);
    assert_eq!(r, Ok(()));
    assert_eq!(cpu.v_registers[2], 0xAB & 0x33);
}
