use chip8::cpu::CPU;
use chip8::isa::{decode, Instr};
use chip8::machine::Fault;

#[test]
fn new_machine_has_font_and_start_pc() {
    let cpu = CPU::new();
    assert_eq!(cpu.pc(), 0x200);
    assert_eq!(cpu.memory_at(0), 0xF0);
    assert_eq!(cpu.memory_at(79), 0x80);
    assert_eq!(cpu.memory_at(80), 0);
    assert_eq!(cpu.index_register(), 0);
    assert_eq!(cpu.stack_pointer(), 0);
    for i in 0..16 {
        assert_eq!(cpu.v_register(i), 0);
    }
}

#[test]
fn reset_restores_pristine_state() {
    let mut cpu = CPU::new();
    cpu.set_v_register(3, 7);
    cpu.set_memory_at(0x300, 0xAB);
    cpu.set_pc(0x400);
    cpu.set_delay_timer(9);
    cpu.reset();
    assert_eq!(cpu.pc(), 0x200);
    assert_eq!(cpu.v_register(3), 0);
    assert_eq!(cpu.memory_at(0x300), 0);
    assert_eq!(cpu.memory_at(0), 0xF0);
    assert_eq!(cpu.delay_timer(), 0);
}

#[test]
fn load_places_rom_and_resets_pc() {
    let mut cpu = CPU::new();
    cpu.set_pc(0x400);
    let rom = vec![0x63, 0x42, 0x12, 0x00];
    cpu.load(&rom).unwrap();
    assert_eq!(cpu.pc(), 0x200);
    assert_eq!(cpu.memory_at(0x200), 0x63);
    assert_eq!(cpu.memory_at(0x201), 0x42);
    assert_eq!(cpu.memory_at(0x202), 0x12);
    assert_eq!(cpu.memory_at(0x203), 0x00);
    // the font table is untouched
    assert_eq!(cpu.memory_at(0), 0xF0);
}

#[test]
fn load_rejects_oversized_rom() {
    let mut cpu = CPU::new();
    let too_big = vec![0u8; 4096 - 0x200 + 1];
    assert_eq!(cpu.load(&too_big), Err(Fault::RomTooLarge));
    // a rejected image changes nothing
    assert_eq!(cpu.pc(), 0x200);
    assert_eq!(cpu.memory_at(0x200), 0);
    let largest = vec![0xAB; 4096 - 0x200];
    cpu.load(&largest).unwrap();
    assert_eq!(cpu.memory_at(0xFFF), 0xAB);
}

#[test]
fn tick_fetches_decodes_and_executes() {
    let mut cpu = CPU::new();
    cpu.load(&vec![0x63, 0x42]).unwrap();
    cpu.tick().unwrap();
    assert_eq!(cpu.v_register(3), 0x42);
    assert_eq!(cpu.pc(), 0x202);
}

#[test]
fn tick_faults_when_pc_is_at_memory_end() {
    let mut cpu = CPU::new();
    cpu.set_pc(4095);
    assert_eq!(cpu.tick(), Err(Fault::AddressOutOfRange));
    assert_eq!(cpu.pc(), 4095);
}

#[test]
fn unknown_opcode_is_a_fault() {
    let mut cpu = CPU::new();
    assert_eq!(cpu.execute(0x0123), Err(Fault::UnknownOpcode));
    assert_eq!(cpu.execute(0x5011), Err(Fault::UnknownOpcode));
    assert_eq!(cpu.execute(0x800F), Err(Fault::UnknownOpcode));
    assert_eq!(cpu.execute(0xE0FF), Err(Fault::UnknownOpcode));
    assert_eq!(cpu.execute(0xF0FF), Err(Fault::UnknownOpcode));
    // the failed step leaves the machine untouched
    assert_eq!(cpu.pc(), 0x200);
}

#[test]
fn seventeenth_push_overflows() {
    let mut cpu = CPU::new();
    for i in 0..16 {
        cpu.push(0x200 + i).unwrap();
    }
    assert_eq!(cpu.push(0x300), Err(Fault::StackOverflow));
    assert_eq!(cpu.stack_pointer(), 16);
}

#[test]
fn pop_on_empty_stack_underflows() {
    let mut cpu = CPU::new();
    assert_eq!(cpu.pop(), Err(Fault::StackUnderflow));
    assert_eq!(cpu.execute(0x00EE), Err(Fault::StackUnderflow));
}

#[test]
fn stack_pops_in_reverse_push_order() {
    let mut cpu = CPU::new();
    for i in 0..16u16 {
        cpu.push(0x210 + 3 * i).unwrap();
    }
    for i in (0..16u16).rev() {
        assert_eq!(cpu.pop().unwrap(), 0x210 + 3 * i);
    }
}

#[test]
fn call_overflow_and_return_underflow_fault() {
    let mut cpu = CPU::new();
    for _ in 0..16 {
        cpu.execute(0x2300).unwrap();
    }
    assert_eq!(cpu.execute(0x2300), Err(Fault::StackOverflow));
}

#[test]
fn bcd_at_memory_end_faults() {
    let mut cpu = CPU::new();
    cpu.set_index_register(4094);
    assert_eq!(cpu.execute(0xF033), Err(Fault::AddressOutOfRange));
    cpu.set_index_register(4093);
    cpu.set_v_register(0, 255);
    cpu.execute(0xF033).unwrap();
    assert_eq!(cpu.memory_at(4093), 2);
    assert_eq!(cpu.memory_at(4094), 5);
    assert_eq!(cpu.memory_at(4095), 5);
}

#[test]
fn draw_past_memory_end_faults() {
    let mut cpu = CPU::new();
    cpu.set_index_register(4095);
    assert_eq!(cpu.execute(0xD012), Err(Fault::AddressOutOfRange));
}

#[test]
fn store_and_load_past_memory_end_fault() {
    let mut cpu = CPU::new();
    cpu.set_index_register(4090);
    assert_eq!(cpu.execute(0xF755), Err(Fault::AddressOutOfRange));
    assert_eq!(cpu.execute(0xF765), Err(Fault::AddressOutOfRange));
}

#[test]
fn key_skip_with_bad_key_index_faults() {
    let mut cpu = CPU::new();
    cpu.set_v_register(0xA, 200);
    assert_eq!(cpu.execute(0xEA9E), Err(Fault::KeyOutOfRange));
    assert_eq!(cpu.execute(0xEAA1), Err(Fault::KeyOutOfRange));
}

#[test]
fn flag_value_ignores_prior_flag() {
    let mut cpu = CPU::new();
    cpu.set_v_register(0xF, 7);
    cpu.set_v_register(0, 10);
    cpu.set_v_register(1, 10);
    cpu.execute(0x8014).unwrap();
    assert_eq!(cpu.v_register(0xF), 0);
    cpu.set_v_register(0xF, 7);
    cpu.set_v_register(2, 255);
    cpu.set_v_register(3, 1);
    cpu.execute(0x8234).unwrap();
    assert_eq!(cpu.v_register(0xF), 1);
}

#[test]
fn store_then_load_round_trips_registers() {
    let mut cpu = CPU::new();
    for i in 0..5usize {
        cpu.set_v_register(i, 40 + i as u8);
    }
    cpu.set_index_register(0x300);
    cpu.execute(0xF455).unwrap();
    for i in 0..5usize {
        cpu.set_v_register(i, 99);
    }
    cpu.execute(0xF465).unwrap();
    for i in 0..5usize {
        assert_eq!(cpu.v_register(i), 40 + i as u8);
    }
}

#[test]
fn double_draw_restores_screen_and_reports_collision() {
    let mut cpu = CPU::new();
    let sprite = [0x40, 0xE0, 0x40];
    for (i, byte) in sprite.iter().enumerate() {
        cpu.set_memory_at(0x204 + i, *byte);
    }
    cpu.set_v_register(0, 10);
    cpu.set_v_register(1, 10);
    cpu.set_index_register(0x204);
    cpu.execute(0xD013).unwrap();
    assert_eq!(cpu.v_register(0xF), 0);
    cpu.execute(0xD013).unwrap();
    assert_eq!(cpu.v_register(0xF), 1);
    for i in 0..64 * 32 {
        assert_eq!(cpu.pixel(i), false);
    }
}

#[test]
fn draw_wraps_at_screen_edges() {
    let mut cpu = CPU::new();
    cpu.set_memory_at(0x204, 0xC0);
    cpu.set_v_register(0, 63);
    cpu.set_v_register(1, 31);
    cpu.set_index_register(0x204);
    cpu.execute(0xD011).unwrap();
    // (63, 31) and the horizontally wrapped (0, 31)
    assert_eq!(cpu.pixel(63 + 64 * 31), true);
    assert_eq!(cpu.pixel(0 + 64 * 31), true);
}

#[test]
fn wait_key_blocks_until_a_key_is_pressed() {
    let mut cpu = CPU::new();
    cpu.load(&vec![0xF8, 0x0A]).unwrap();
    cpu.tick().unwrap();
    assert_eq!(cpu.pc(), 0x200);
    assert_eq!(cpu.v_register(8), 0);
    cpu.tick().unwrap();
    assert_eq!(cpu.pc(), 0x200);
    assert_eq!(cpu.v_register(8), 0);
    cpu.keypress(5, true);
    cpu.tick().unwrap();
    assert_eq!(cpu.v_register(8), 5);
    assert_eq!(cpu.pc(), 0x202);
}

#[test]
fn wait_key_captures_lowest_pressed_key() {
    let mut cpu = CPU::new();
    cpu.keypress(0xC, true);
    cpu.keypress(0x3, true);
    cpu.execute(0xF00A).unwrap();
    assert_eq!(cpu.v_register(0), 0x3);
}

#[test]
fn timers_count_down_and_stop_at_zero() {
    let mut cpu = CPU::new();
    cpu.set_delay_timer(2);
    cpu.set_sound_timer(1);
    cpu.tick_timers();
    assert_eq!(cpu.delay_timer(), 1);
    assert_eq!(cpu.sound_timer(), 0);
    cpu.tick_timers();
    assert_eq!(cpu.delay_timer(), 0);
    assert_eq!(cpu.sound_timer(), 0);
    cpu.tick_timers();
    assert_eq!(cpu.delay_timer(), 0);
    assert_eq!(cpu.sound_timer(), 0);
}

#[test]
fn random_byte_is_masked_by_the_immediate() {
    let mut cpu = CPU::new();
    cpu.set_v_register(0, 0xAA);
    cpu.execute(0xC000).unwrap();
    assert_eq!(cpu.v_register(0), 0);
    cpu.execute(0xC10F).unwrap();
    assert_eq!(cpu.v_register(1) & 0xF0, 0);
}

#[test]
fn decode_recognizes_the_instruction_table() {
    assert_eq!(decode(0x0000), Some(Instr::Nop));
    assert_eq!(decode(0x00E0), Some(Instr::Cls));
    assert_eq!(decode(0x00EE), Some(Instr::Ret));
    assert_eq!(decode(0x1ABC), Some(Instr::Jump { nnn: 0xABC }));
    assert_eq!(decode(0x2ABC), Some(Instr::Call { nnn: 0xABC }));
    assert_eq!(decode(0x3A12), Some(Instr::SkipEqImm { x: 0xA, nn: 0x12 }));
    assert_eq!(decode(0x8AB4), Some(Instr::AddReg { x: 0xA, y: 0xB }));
    assert_eq!(decode(0x8A06), Some(Instr::ShrReg { x: 0xA }));
    assert_eq!(decode(0xDAB3), Some(Instr::Draw { x: 0xA, y: 0xB, n: 3 }));
    assert_eq!(decode(0xFA65), Some(Instr::LoadRegs { x: 0xA }));
    assert_eq!(decode(0x5012), None);
    assert_eq!(decode(0xFFFF), None);
}
