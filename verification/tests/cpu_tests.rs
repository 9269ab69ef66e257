use chip8::cpu::{CPU, SCREEN_HEIGHT, SCREEN_WIDTH};

const START_ADDRESS: u16 = 0x200;

#[test]
fn test_stack_operations() {
    let mut cpu = CPU::new();

    cpu.push(1).unwrap();
    assert_eq!(cpu.stack_at(0), 1);
    assert_eq!(cpu.pop().unwrap(), 1);

    for i in 0..10 {
        cpu.push(i).unwrap();
    }
    assert_eq!(cpu.stack_at(5), 5);
    for _ in 0..9 {
        cpu.pop().unwrap();
    }
    assert_eq!(cpu.stack_at(0), 0);
}

// operations

#[test]
fn test_cls() {
    let mut cpu = CPU::new();

    for i in 0..SCREEN_WIDTH * SCREEN_HEIGHT {
        cpu.set_pixel(i, true);
    }
    cpu.execute(0x00E0).unwrap();
    for i in 0..SCREEN_WIDTH * SCREEN_HEIGHT {
        assert_eq!(cpu.pixel(i), false);
    }
}

#[test]
fn test_ret() {
    let mut cpu = CPU::new();

    cpu.push(0x69).unwrap();
    cpu.execute(0x00EE).unwrap();
    assert_eq!(cpu.pc(), 0x69);
}

#[test]
fn test_jmp() {
    let mut cpu = CPU::new();

    cpu.execute(0x1420).unwrap();
    assert_eq!(cpu.pc(), 0x420);
}

#[test]
fn test_call() {
    let mut cpu = CPU::new();

    cpu.set_pc(0x69);
    cpu.execute(0x2420).unwrap();
    assert_eq!(cpu.pop().unwrap(), 0x69);
    assert_eq!(cpu.pc(), 0x420);
}

#[test]
fn test_skip_vx_equal_nn() {
    let mut cpu = CPU::new();

    cpu.set_v_register(5, 0x69);
    cpu.execute(0x3569).unwrap();
    assert_eq!(cpu.pc(), START_ADDRESS + 2);
    cpu.execute(0x3570).unwrap();
    assert_eq!(cpu.pc(), START_ADDRESS + 2);
}

#[test]
fn test_skip_vx_not_equal_nn() {
    let mut cpu = CPU::new();

    cpu.set_v_register(5, 0x69);
    cpu.execute(0x3570).unwrap();
    assert_eq!(cpu.pc(), START_ADDRESS);
    cpu.execute(0x3569).unwrap();
    assert_eq!(cpu.pc(), START_ADDRESS + 2);
}

#[test]
fn test_skip_vx_equal_vy() {
    let mut cpu = CPU::new();

    cpu.set_v_register(0, 0x69);
    cpu.set_v_register(15, 0x69);
    cpu.execute(0x50F0).unwrap();
    assert_eq!(cpu.pc(), START_ADDRESS + 2);
    cpu.execute(0x5010).unwrap();
    assert_eq!(cpu.pc(), START_ADDRESS + 2);
}

#[test]
fn test_set_vx_to_nn() {
    let mut cpu = CPU::new();

    cpu.execute(0x6769).unwrap();
    assert_eq!(cpu.v_register(7), 0x69);
}

#[test]
fn test_add_nn_to_vx() {
    let mut cpu = CPU::new();

    cpu.set_v_register(3, 255);
    cpu.execute(0x7302).unwrap();
    assert_eq!(cpu.v_register(3), 1);
}

#[test]
fn test_vx_or_vy() {
    let mut cpu = CPU::new();

    cpu.set_v_register(5, 0b1010_1010);
    cpu.set_v_register(0xA, 0b0101_0101);
    cpu.execute(0x85A1).unwrap();
    assert_eq!(cpu.v_register(5), 0xFF);
}

#[test]
fn test_vx_and_vy() {
    let mut cpu = CPU::new();

    cpu.set_v_register(8, 0b1010_1010);
    cpu.set_v_register(2, 0b0101_0101);
    cpu.execute(0x8822).unwrap();
    assert_eq!(cpu.v_register(8), 0x00);
}

#[test]
fn test_vx_xor_vy() {
    let mut cpu = CPU::new();

    cpu.set_v_register(0xF, 0b1110_1110);
    cpu.set_v_register(0, 0b0111_0111);
    cpu.execute(0x8F03).unwrap();
    assert_eq!(cpu.v_register(0xF), 0b1001_1001);
}

#[test]
fn test_vx_add_vy() {
    let mut cpu = CPU::new();

    cpu.set_v_register(0, 255);
    cpu.set_v_register(1, 1);
    cpu.execute(0x8014).unwrap();
    assert_eq!(cpu.v_register(0), 0);
    assert_eq!(cpu.v_register(0xF), 1);

    cpu.set_v_register(6, 10);
    cpu.set_v_register(0xA, 10);
    cpu.execute(0x86A4).unwrap();
    assert_eq!(cpu.v_register(6), 20);
    assert_eq!(cpu.v_register(0xF), 0);
}

#[test]
fn test_vx_sub_vy() {
    let mut cpu = CPU::new();

    cpu.set_v_register(0, 0);
    cpu.set_v_register(1, 1);
    cpu.execute(0x8015).unwrap();
    assert_eq!(cpu.v_register(0), 255);
    assert_eq!(cpu.v_register(0xF), 0);

    cpu.set_v_register(6, 10);
    cpu.set_v_register(0xA, 10);
    cpu.execute(0x86A5).unwrap();
    assert_eq!(cpu.v_register(6), 0);
    assert_eq!(cpu.v_register(0xF), 1);
}

#[test]
fn test_vx_shift_right() {
    let mut cpu = CPU::new();

    cpu.set_v_register(0, 0b0101_0101);
    cpu.execute(0x8006).unwrap();
    assert_eq!(cpu.v_register(0), 0b0010_1010);
    assert_eq!(cpu.v_register(0xF), 1);

    cpu.set_v_register(0xB, 0b1010_1010);
    cpu.execute(0x8B06).unwrap();
    assert_eq!(cpu.v_register(0xB), 0b0101_0101);
    assert_eq!(cpu.v_register(0xF), 0);
}

#[test]
fn test_vx_to_vy_minus_vx() {
    let mut cpu = CPU::new();

    cpu.set_v_register(0, 1);
    cpu.execute(0x8017).unwrap();
    assert_eq!(cpu.v_register(0), 255);
    assert_eq!(cpu.v_register(0xF), 0);

    cpu.set_v_register(0, 0);
    cpu.set_v_register(1, 1);
    cpu.execute(0x8017).unwrap();
    assert_eq!(cpu.v_register(0), 1);
    assert_eq!(cpu.v_register(0xF), 1);
}

#[test]
fn test_vx_shift_left() {
    let mut cpu = CPU::new();

    cpu.set_v_register(0, 0b1010_1010);
    cpu.execute(0x800E).unwrap();
    assert_eq!(cpu.v_register(0), 0b0101_0100);
    assert_eq!(cpu.v_register(0xF), 1);

    cpu.set_v_register(0, 0b0101_0101);
    cpu.execute(0x800E).unwrap();
    assert_eq!(cpu.v_register(0), 0b1010_1010);
    assert_eq!(cpu.v_register(0xF), 0);
}

#[test]
fn test_skip_vx_not_equal_vy() {
    let mut cpu = CPU::new();

    cpu.set_v_register(0, 1);
    cpu.execute(0x9010).unwrap();
    assert_eq!(cpu.pc(), START_ADDRESS + 2);

    cpu.set_v_register(0, 0);
    cpu.execute(0x9010).unwrap();
    assert_eq!(cpu.pc(), START_ADDRESS + 2)
}

#[test]
fn test_set_i_nnn() {
    let mut cpu = CPU::new();

    cpu.execute(0xA420).unwrap();
    assert_eq!(cpu.index_register(), 0x420);
}

#[test]
fn test_jump_v0_nnn() {
    let mut cpu = CPU::new();

    cpu.set_v_register(0, 69);
    cpu.execute(0xB420).unwrap();
    assert_eq!(cpu.pc(), 69 + 0x420);
}

#[test]
fn test_draw() {
    let mut cpu = CPU::new();

    // draws a plus
    // 01000000
    // 11100000
    // 01000000
    let sprite = [0x40, 0xE0, 0x40];
    for (i, byte) in sprite.iter().enumerate() {
        cpu.set_memory_at((START_ADDRESS + 4) as usize + i, *byte);
    }
    cpu.set_v_register(0, 10);
    cpu.set_v_register(1, 10);
    cpu.set_index_register(START_ADDRESS + 4);
    cpu.execute(0xD013).unwrap();

    assert_eq!(cpu.pixel(650), false);
    assert_eq!(cpu.pixel(651), true);
    assert_eq!(cpu.pixel(652), false);

    assert_eq!(cpu.pixel(714), true);
    assert_eq!(cpu.pixel(715), true);
    assert_eq!(cpu.pixel(716), true);

    assert_eq!(cpu.pixel(778), false);
    assert_eq!(cpu.pixel(779), true);
    assert_eq!(cpu.pixel(780), false);
}

#[test]
fn test_skip_key_pressed() {
    let mut cpu = CPU::new();

    cpu.set_v_register(0xA, 2);
    cpu.keypress(2, true);
    cpu.execute(0xEA9E).unwrap();
    assert_eq!(cpu.pc(), START_ADDRESS + 2);

    cpu.keypress(2, false);
    cpu.execute(0xEA9E).unwrap();
    assert_eq!(cpu.pc(), START_ADDRESS + 2);
}

#[test]
fn test_skip_key_not_pressed() {
    let mut cpu = CPU::new();

    cpu.set_v_register(0xA, 2);
    cpu.keypress(2, false);
    cpu.execute(0xEA9E).unwrap();
    assert_eq!(cpu.pc(), START_ADDRESS);

    cpu.keypress(2, true);
    cpu.execute(0xEA9E).unwrap();
    assert_eq!(cpu.pc(), START_ADDRESS + 2);
}

#[test]
fn test_set_vx_dt() {
    let mut cpu = CPU::new();

    cpu.set_delay_timer(69);
    cpu.execute(0xF407).unwrap();
    assert_eq!(cpu.v_register(4), 69);
}

#[test]
fn test_wait_for_key() {
    let mut cpu = CPU::new();

    cpu.keypress(0xD, true);
    cpu.execute(0xF80A).unwrap();
    assert_eq!(cpu.v_register(8), 0xD);
}

#[test]
fn test_set_dt_vx() {
    let mut cpu = CPU::new();

    cpu.set_v_register(0xE, 42);
    cpu.execute(0xFE15).unwrap();
    assert_eq!(cpu.delay_timer(), 42);
}

#[test]
fn test_set_st_vx() {
    let mut cpu = CPU::new();

    cpu.set_v_register(0xE, 42);
    cpu.execute(0xFE18).unwrap();
    assert_eq!(cpu.sound_timer(), 42);
}

#[test]
fn test_i_add_vx() {
    let mut cpu = CPU::new();

    cpu.set_v_register(0xB, 9);
    cpu.set_index_register(10);
    cpu.execute(0xFB1E).unwrap();
    assert_eq!(cpu.index_register(), 19);
}

#[test]
fn test_set_i_font_location() {
    let mut cpu = CPU::new();

    cpu.set_v_register(2, 7);
    cpu.execute(0xF229).unwrap();
    assert_eq!(cpu.index_register(), 7 * 5);
}

#[test]
fn test_bcd() {
    let mut cpu = CPU::new();

    cpu.set_v_register(0, 123);
    cpu.set_index_register(69);
    cpu.execute(0xF033).unwrap();
    assert_eq!(cpu.memory_at(69), 1);
    assert_eq!(cpu.memory_at(70), 2);
    assert_eq!(cpu.memory_at(71), 3);
}

#[test]
fn test_store_v0_vx() {
    let mut cpu = CPU::new();

    cpu.set_v_register(0, 1);
    cpu.set_v_register(1, 2);
    cpu.set_v_register(2, 3);
    cpu.set_index_register(START_ADDRESS + 10);
    cpu.execute(0xF255).unwrap();
    assert_eq!(cpu.memory_at((START_ADDRESS + 10) as usize), 1);
    assert_eq!(cpu.memory_at((START_ADDRESS + 11) as usize), 2);
    assert_eq!(cpu.memory_at((START_ADDRESS + 12) as usize), 3);
}

#[test]
fn test_load_v0_vx() {
    let mut cpu = CPU::new();

    cpu.set_memory_at((START_ADDRESS + 10) as usize, 1);
    cpu.set_memory_at((START_ADDRESS + 11) as usize, 2);
    cpu.set_memory_at((START_ADDRESS + 12) as usize, 3);
    cpu.set_index_register(START_ADDRESS + 10);
    cpu.execute(0xF265).unwrap();
    assert_eq!(cpu.v_register(0), 1);
    assert_eq!(cpu.v_register(1), 2);
    assert_eq!(cpu.v_register(2), 3);
}
