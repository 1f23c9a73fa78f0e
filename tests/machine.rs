use chip8::config::Config;
use chip8::cpu::CPU;
use chip8::display::Renderer;
use chip8::keypad::{map_keycode_to_chip8, InputState};
use chip8::machine::CpuError;

fn cpu_with_program(program: &[u8]) -> CPU {
    let mut cpu = CPU::with_seed(7);
    cpu.load_rom(program).unwrap();
    cpu
}

#[test]
fn add_immediate_wraps_modulo_256() {
    let input = InputState::new();
    let mut cpu = CPU::with_seed(1);
    cpu.registers[3] = 200;
    cpu.execute_opcode(0x7364, &input).unwrap();
    assert_eq!(cpu.registers[3], 44);
    cpu.execute_opcode(0x7305, &input).unwrap();
    assert_eq!(cpu.registers[3], 49);
    assert_eq!(cpu.registers[0xF], 0);
}

#[test]
fn add_registers_without_carry_clears_flag() {
    let input = InputState::new();
    let mut cpu = CPU::with_seed(1);
    cpu.registers[0xF] = 1;
    cpu.registers[1] = 100;
    cpu.registers[2] = 155;
    cpu.execute_opcode(0x8124, &input).unwrap();
    assert_eq!(cpu.registers[1], 255);
    assert_eq!(cpu.registers[0xF], 0);
}

#[test]
fn add_registers_into_flag_register_keeps_flag() {
    let input = InputState::new();
    let mut cpu = CPU::with_seed(1);
    cpu.registers[0xF] = 200;
    cpu.registers[1] = 100;
    cpu.execute_opcode(0x8F14, &input).unwrap();
    assert_eq!(cpu.registers[0xF], 1);
}

#[test]
fn subtract_with_borrow_clears_flag() {
    let input = InputState::new();
    let mut cpu = CPU::with_seed(1);
    cpu.registers[1] = 5;
    cpu.registers[2] = 10;
    cpu.execute_opcode(0x8125, &input).unwrap();
    assert_eq!(cpu.registers[1], 251);
    assert_eq!(cpu.registers[0xF], 0);
}

#[test]
fn subtract_equal_values_sets_flag() {
    let input = InputState::new();
    let mut cpu = CPU::with_seed(1);
    cpu.registers[1] = 9;
    cpu.registers[2] = 9;
    cpu.execute_opcode(0x8125, &input).unwrap();
    assert_eq!(cpu.registers[1], 0);
    assert_eq!(cpu.registers[0xF], 1);
}

#[test]
fn reverse_subtract_flag_uses_reversed_operands() {
    let input = InputState::new();
    let mut cpu = CPU::with_seed(1);
    cpu.registers[1] = 5;
    cpu.registers[2] = 10;
    cpu.execute_opcode(0x8127, &input).unwrap();
    assert_eq!(cpu.registers[1], 5);
    assert_eq!(cpu.registers[0xF], 1);
    cpu.registers[1] = 10;
    cpu.registers[2] = 5;
    cpu.execute_opcode(0x8127, &input).unwrap();
    assert_eq!(cpu.registers[1], 251);
    assert_eq!(cpu.registers[0xF], 0);
}

#[test]
fn draw_sets_collision_and_second_draw_restores() {
    let input = InputState::new();
    let mut cpu = CPU::with_seed(1);
    cpu.index = 0x300;
    cpu.memory[0x300] = 0b1010_1010;
    cpu.memory[0x301] = 0b0101_0101;
    cpu.renderer.buffer[5][9] = true;
    let before = cpu.renderer.buffer;
    cpu.registers[0] = 0;
    cpu.registers[1] = 0;
    cpu.execute_opcode(0xD012, &input).unwrap();
    assert_eq!(cpu.registers[0xF], 0);
    assert!(cpu.renderer.buffer[0][0]);
    assert!(!cpu.renderer.buffer[0][1]);
    assert!(cpu.renderer.buffer[1][1]);
    assert!(cpu.renderer.redraw);
    cpu.renderer.redraw = false;
    cpu.execute_opcode(0xD012, &input).unwrap();
    assert_eq!(cpu.registers[0xF], 1);
    assert_eq!(cpu.renderer.buffer, before);
    assert!(cpu.renderer.redraw);
}

#[test]
fn draw_wraps_columns_and_clips_rows() {
    let input = InputState::new();
    let mut cpu = CPU::with_seed(1);
    cpu.index = 0x300;
    cpu.memory[0x300] = 0xFF;
    cpu.memory[0x301] = 0xFF;
    cpu.registers[2] = 62;
    cpu.registers[3] = 31 + 32;
    cpu.execute_opcode(0xD232, &input).unwrap();
    assert!(cpu.renderer.buffer[31][62]);
    assert!(cpu.renderer.buffer[31][63]);
    assert!(cpu.renderer.buffer[31][0]);
    assert!(cpu.renderer.buffer[31][5]);
    assert!(!cpu.renderer.buffer[31][6]);
    assert!(cpu.renderer.buffer[0].iter().all(|&p| !p));
    assert_eq!(cpu.registers[0xF], 0);
}

#[test]
fn clear_display_after_any_state() {
    let input = InputState::new();
    let mut cpu = CPU::with_seed(1);
    for r in 0..32 {
        for c in 0..64 {
            cpu.renderer.buffer[r][c] = (r + c) % 3 == 0;
        }
    }
    cpu.execute_opcode(0x00E0, &input).unwrap();
    assert!(cpu.renderer.buffer.iter().all(|row| row.iter().all(|&p| !p)));
    assert!(cpu.renderer.redraw);
}

#[test]
fn save_zero_load_restores_all_registers() {
    let input = InputState::new();
    let mut cpu = CPU::with_seed(1);
    for i in 0..16 {
        cpu.registers[i] = (i as u8) * 11 + 3;
    }
    let saved = cpu.registers;
    cpu.index = 0xFFE;
    cpu.execute_opcode(0xFF55, &input).unwrap();
    assert_eq!(cpu.index, 0xFFE);
    assert_eq!(cpu.memory[0xFFE], 3);
    assert_eq!(cpu.memory[0x000], saved[2]);
    cpu.registers = [0; 16];
    cpu.execute_opcode(0xFF65, &input).unwrap();
    assert_eq!(cpu.registers, saved);
    assert_eq!(cpu.index, 0xFFE);
}

#[test]
fn bcd_of_small_values() {
    let input = InputState::new();
    let mut cpu = CPU::with_seed(1);
    cpu.registers[4] = 9;
    cpu.index = 0x400;
    cpu.execute_opcode(0xF433, &input).unwrap();
    assert_eq!(&cpu.memory[0x400..0x403], &[0, 0, 9]);
    cpu.registers[4] = 255;
    cpu.execute_opcode(0xF433, &input).unwrap();
    assert_eq!(&cpu.memory[0x400..0x403], &[2, 5, 5]);
}

#[test]
fn load_rom_round_trip() {
    let rom: Vec<u8> = (0..300u32).map(|i| (i * 7 % 256) as u8).collect();
    let mut cpu = CPU::with_seed(1);
    assert_eq!(cpu.load_rom(&rom), Ok(()));
    assert_eq!(&cpu.memory[0x200..0x200 + rom.len()], &rom[..]);
    assert_eq!(cpu.memory[0x1FF], 0);
    assert_eq!(cpu.memory[0x200 + rom.len()], 0);
}

#[test]
fn load_rom_filling_memory_exactly() {
    let rom = vec![0xAB; 3584];
    let mut cpu = CPU::with_seed(1);
    assert_eq!(cpu.load_rom(&rom), Ok(()));
    assert_eq!(cpu.memory[0xFFF], 0xAB);
}

#[test]
fn load_rom_too_large_is_refused() {
    let rom = vec![0xAB; 3585];
    let mut cpu = CPU::with_seed(1);
    assert_eq!(cpu.load_rom(&rom), Err(CpuError::RomTooLarge));
    assert!(cpu.memory.iter().all(|&b| b == 0));
}

#[test]
fn tick_clear_scenario() {
    let mut cpu = cpu_with_program(&[0x00, 0xE0]);
    cpu.renderer.buffer[3][4] = true;
    cpu.renderer.buffer[20][60] = true;
    cpu.tick(&InputState::new()).unwrap();
    assert!(!cpu.renderer.buffer[3][4]);
    assert!(!cpu.renderer.buffer[20][60]);
    assert!(cpu.renderer.redraw);
    assert_eq!(cpu.program_counter, 0x202);
}

#[test]
fn tick_skip_advances_four() {
    let mut cpu = cpu_with_program(&[0x36, 0x43]);
    cpu.registers[6] = 0x43;
    cpu.tick(&InputState::new()).unwrap();
    assert_eq!(cpu.program_counter, 0x204);
    let mut cpu = cpu_with_program(&[0x36, 0x43]);
    cpu.registers[6] = 0x42;
    cpu.tick(&InputState::new()).unwrap();
    assert_eq!(cpu.program_counter, 0x202);
}

#[test]
fn tick_set_index_scenario() {
    let mut cpu = cpu_with_program(&[0xA1, 0x23]);
    cpu.tick(&InputState::new()).unwrap();
    assert_eq!(cpu.index, 0x123);
}

#[test]
fn call_and_return() {
    let mut cpu = cpu_with_program(&[0x23, 0x00]);
    cpu.memory[0x300] = 0x00;
    cpu.memory[0x301] = 0xEE;
    let input = InputState::new();
    cpu.tick(&input).unwrap();
    assert_eq!(cpu.program_counter, 0x300);
    assert_eq!(cpu.stack_pointer, 1);
    assert_eq!(cpu.stack[0], 0x202);
    cpu.tick(&input).unwrap();
    assert_eq!(cpu.program_counter, 0x202);
    assert_eq!(cpu.stack_pointer, 0);
}

#[test]
fn return_with_empty_stack_underflows() {
    let mut cpu = cpu_with_program(&[0x00, 0xEE]);
    assert_eq!(cpu.tick(&InputState::new()), Err(CpuError::StackUnderflow));
    assert_eq!(cpu.program_counter, 0x200);
    assert_eq!(cpu.stack_pointer, 0);
}

#[test]
fn seventeenth_nested_call_overflows() {
    let mut cpu = cpu_with_program(&[0x22, 0x00]);
    let input = InputState::new();
    for depth in 1..=16u8 {
        cpu.tick(&input).unwrap();
        assert_eq!(cpu.stack_pointer, depth);
        assert_eq!(cpu.program_counter, 0x200);
    }
    assert_eq!(cpu.tick(&input), Err(CpuError::StackOverflow));
    assert_eq!(cpu.stack_pointer, 16);
    assert_eq!(cpu.program_counter, 0x200);
}

#[test]
fn jump_and_jump_with_offset() {
    let input = InputState::new();
    let mut cpu = CPU::with_seed(1);
    cpu.execute_opcode(0x1ABC, &input).unwrap();
    assert_eq!(cpu.program_counter, 0xABC);
    cpu.registers[0] = 0x10;
    cpu.execute_opcode(0xB300, &input).unwrap();
    assert_eq!(cpu.program_counter, 0x310);
}

#[test]
fn random_is_masked_and_repeats_with_seed() {
    let input = InputState::new();
    let mut a = CPU::with_seed(42);
    let mut b = CPU::with_seed(42);
    for _ in 0..20 {
        a.execute_opcode(0xC50F, &input).unwrap();
        b.execute_opcode(0xC50F, &input).unwrap();
        assert!(a.registers[5] <= 0x0F);
        assert_eq!(a.registers[5], b.registers[5]);
    }
}

#[test]
fn execute_with_uses_given_byte() {
    let input = InputState::new();
    let mut cpu = CPU::with_seed(1);
    cpu.execute_with(0xC3F0, &input, 0xAB).unwrap();
    assert_eq!(cpu.registers[3], 0xA0);
}

#[test]
fn skip_on_key_state() {
    let mut input = InputState::new();
    input.press(0xA);
    let mut cpu = CPU::with_seed(1);
    cpu.registers[2] = 0xA;
    cpu.execute_opcode(0xE29E, &input).unwrap();
    assert_eq!(cpu.program_counter, 0x202);
    cpu.execute_opcode(0xE2A1, &input).unwrap();
    assert_eq!(cpu.program_counter, 0x202);
    input.release(0xA);
    cpu.execute_opcode(0xE2A1, &input).unwrap();
    assert_eq!(cpu.program_counter, 0x204);
    cpu.registers[2] = 0x30;
    cpu.execute_opcode(0xE29E, &input).unwrap();
    assert_eq!(cpu.program_counter, 0x204);
}

#[test]
fn wait_for_key_blocks_until_press() {
    let mut cpu = cpu_with_program(&[0xF3, 0x0A, 0x60, 0x01]);
    let mut input = InputState::new();
    cpu.tick(&input).unwrap();
    assert_eq!(cpu.waiting_for_key, Some(3));
    assert_eq!(cpu.program_counter, 0x202);
    cpu.tick(&input).unwrap();
    cpu.tick(&input).unwrap();
    assert_eq!(cpu.waiting_for_key, Some(3));
    assert_eq!(cpu.program_counter, 0x202);
    assert_eq!(cpu.registers[0], 0);
    input.press(0xC);
    input.press(0x7);
    cpu.tick(&input).unwrap();
    assert_eq!(cpu.waiting_for_key, None);
    assert_eq!(cpu.registers[3], 0x7);
    assert_eq!(cpu.program_counter, 0x202);
    cpu.tick(&input).unwrap();
    assert_eq!(cpu.registers[0], 1);
}

#[test]
fn timers_count_down_to_zero() {
    let input = InputState::new();
    let mut cpu = CPU::with_seed(1);
    cpu.registers[1] = 2;
    cpu.execute_opcode(0xF115, &input).unwrap();
    cpu.registers[1] = 1;
    cpu.execute_opcode(0xF118, &input).unwrap();
    assert!(cpu.sound_active());
    cpu.tick_60hz();
    assert_eq!(cpu.delay_timer, 1);
    assert_eq!(cpu.sound_timer, 0);
    assert!(!cpu.sound_active());
    cpu.tick_60hz();
    cpu.tick_60hz();
    assert_eq!(cpu.delay_timer, 0);
    assert_eq!(cpu.sound_timer, 0);
    cpu.execute_opcode(0xF907, &input).unwrap();
    assert_eq!(cpu.registers[9], 0);
}

#[test]
fn index_add_wraps_and_font_address() {
    let input = InputState::new();
    let mut cpu = CPU::with_seed(1);
    cpu.index = 0xFFFF;
    cpu.registers[1] = 2;
    cpu.execute_opcode(0xF11E, &input).unwrap();
    assert_eq!(cpu.index, 1);
    cpu.registers[1] = 0xF;
    cpu.execute_opcode(0xF129, &input).unwrap();
    assert_eq!(cpu.index, 75);
}

#[test]
fn unknown_opcode_changes_nothing() {
    let input = InputState::new();
    let mut cpu = CPU::with_seed(1);
    cpu.registers[1] = 9;
    let registers = cpu.registers;
    for op in [0x0123u16, 0x5121, 0x8128, 0x9121, 0xE1FF, 0xF1FF] {
        assert_eq!(cpu.execute_opcode(op, &input), Ok(()));
        assert_eq!(cpu.registers, registers);
        assert_eq!(cpu.program_counter, 0x200);
        assert_eq!(cpu.index, 0);
    }
}

#[test]
fn keycode_mapping() {
    assert_eq!(map_keycode_to_chip8('1' as i32), Some(0x1));
    assert_eq!(map_keycode_to_chip8('4' as i32), Some(0xC));
    assert_eq!(map_keycode_to_chip8('q' as i32), Some(0x4));
    assert_eq!(map_keycode_to_chip8('x' as i32), Some(0x0));
    assert_eq!(map_keycode_to_chip8('v' as i32), Some(0xF));
    assert_eq!(map_keycode_to_chip8('p' as i32), None);
    assert_eq!(map_keycode_to_chip8(27), None);
}

#[test]
fn keypad_from_keycodes() {
    let input = InputState::from_keycodes(&['w' as i32, 'p' as i32, 'z' as i32]);
    assert!(input.is_pressed(0x5));
    assert!(input.is_pressed(0xA));
    assert!(!input.is_pressed(0x0));
    assert_eq!(input.first_pressed(), Some(0x5));
    assert_eq!(InputState::new().first_pressed(), None);
    let mut keys = [false; 16];
    keys[0xE] = true;
    assert_eq!(InputState::from_keys(keys).first_pressed(), Some(0xE));
}

#[test]
fn lit_pixels_in_row_major_order() {
    let mut renderer = Renderer::new();
    assert!(renderer.lit_pixels().is_empty());
    renderer.buffer[1][2] = true;
    renderer.buffer[0][63] = true;
    renderer.buffer[31][0] = true;
    assert_eq!(renderer.lit_pixels(), vec![(63, 0), (2, 1), (0, 31)]);
}

#[test]
fn config_keeps_scale() {
    assert_eq!(Config::new(10).scale_factor, 10);
}

#[test]
fn new_machine_from_entropy_starts_at_program_start() {
    let cpu = CPU::new().unwrap();
    assert_eq!(cpu.program_counter, 0x200);
    assert_eq!(cpu.stack_pointer, 0);
    assert_eq!(cpu.waiting_for_key, None);
    assert!(cpu.memory.iter().all(|&b| b == 0));
    assert!(!cpu.renderer.redraw);
}

#[test]
fn unknown_opcode_and_timers_leave_generator_alone() {
    let input = InputState::new();
    let mut a = CPU::with_seed(3);
    let mut b = CPU::with_seed(3);
    a.execute_opcode(0xF1FF, &input).unwrap();
    a.tick_60hz();
    a.load_rom(&[0x12, 0x34]).unwrap();
    a.execute_opcode(0xC0FF, &input).unwrap();
    b.execute_opcode(0xC0FF, &input).unwrap();
    assert_eq!(a.registers[0], b.registers[0]);
}
