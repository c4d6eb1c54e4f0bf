use chip8::cpu_8::C8Cpu;
use chip8::decode::__get_nibble;
use chip8::state::{CpuError, DISPLAY_SIZE};

fn machine(rom: &[u8]) -> C8Cpu {
    let mut cpu = C8Cpu::new();
    cpu.load_rom(rom.to_vec());
    cpu
}

fn run(cpu: &mut C8Cpu, steps: usize) {
    for _ in 0..steps {
        assert_eq!(cpu.step_with(0), Ok(()));
    }
}

fn lit_pixels(cpu: &C8Cpu) -> Vec<usize> {
    let d = cpu.get_display();
    (0..DISPLAY_SIZE).filter(|&p| d[p]).collect()
}

#[test]
fn nibbles_of_word() {
    assert_eq!(__get_nibble(0xABCD, 0), 0xA);
    assert_eq!(__get_nibble(0xABCD, 1), 0xB);
    assert_eq!(__get_nibble(0xABCD, 2), 0xC);
    assert_eq!(__get_nibble(0xABCD, 3), 0xD);
}

#[test]
fn new_machine_state() {
    let cpu = C8Cpu::new();
    assert_eq!(cpu.program_counter(), 0x200);
    assert_eq!(cpu.stack_pointer(), 0);
    assert_eq!(cpu.index_register(), 0);
    assert!(cpu.is_running());
    assert!(!cpu.draw_flag);
    for x in 0..16 {
        assert_eq!(cpu.register(x), 0);
    }
    assert_eq!(cpu.memory_at(0x00), 0xF0);
    assert_eq!(cpu.memory_at(0x04), 0xF0);
    assert_eq!(cpu.memory_at(0x4F), 0x80);
    assert_eq!(cpu.memory_at(0x50), 0xF0);
    assert_eq!(cpu.memory_at(0x9F), 0x80);
    assert_eq!(cpu.memory_at(0xA0), 0);
    assert_eq!(lit_pixels(&cpu), Vec::<usize>::new());
}

#[test]
fn load_rom_copies_from_0x200() {
    let cpu = machine(&[1, 2, 3]);
    assert_eq!(cpu.memory_at(0x1FF), 0);
    assert_eq!(cpu.memory_at(0x200), 1);
    assert_eq!(cpu.memory_at(0x202), 3);
    assert_eq!(cpu.memory_at(0x203), 0);
}

#[test]
fn load_rom_of_largest_size() {
    let rom = vec![0xAA; 3584];
    let cpu = machine(&rom);
    assert_eq!(cpu.memory_at(0xFFF), 0xAA);
}

#[test]
fn add_immediate_wraps() {
    let mut cpu = machine(&[0x60, 0xFF, 0x6F, 0x07, 0x70, 0x02]);
    run(&mut cpu, 3);
    assert_eq!(cpu.register(0), 0x01);
    assert_eq!(cpu.register(0xF), 0x07);
}

#[test]
fn add_registers_sets_carry() {
    let mut cpu = machine(&[0x60, 200, 0x61, 100, 0x80, 0x14]);
    run(&mut cpu, 3);
    assert_eq!(cpu.register(0), 44);
    assert_eq!(cpu.register(0xF), 1);
    let mut cpu = machine(&[0x60, 200, 0x61, 55, 0x80, 0x14]);
    run(&mut cpu, 3);
    assert_eq!(cpu.register(0), 255);
    assert_eq!(cpu.register(0xF), 0);
}

#[test]
fn sub_registers_sets_no_borrow() {
    let mut cpu = machine(&[0x60, 5, 0x61, 3, 0x80, 0x15]);
    run(&mut cpu, 3);
    assert_eq!(cpu.register(0), 2);
    assert_eq!(cpu.register(0xF), 1);
    let mut cpu = machine(&[0x60, 3, 0x61, 5, 0x80, 0x15]);
    run(&mut cpu, 3);
    assert_eq!(cpu.register(0), 254);
    assert_eq!(cpu.register(0xF), 0);
    let mut cpu = machine(&[0x60, 7, 0x61, 7, 0x80, 0x15]);
    run(&mut cpu, 3);
    assert_eq!(cpu.register(0), 0);
    assert_eq!(cpu.register(0xF), 1);
}

#[test]
fn subn_registers() {
    let mut cpu = machine(&[0x60, 3, 0x61, 5, 0x80, 0x17]);
    run(&mut cpu, 3);
    assert_eq!(cpu.register(0), 2);
    assert_eq!(cpu.register(0xF), 1);
}

#[test]
fn flag_wins_when_target_is_vf() {
    let mut cpu = machine(&[0x6F, 200, 0x61, 100, 0x8F, 0x14]);
    run(&mut cpu, 3);
    assert_eq!(cpu.register(0xF), 1);
}

#[test]
fn bitwise_registers() {
    let mut cpu = machine(&[0x60, 0b1100, 0x61, 0b1010, 0x62, 0b1100, 0x63, 0b1100, 0x80, 0x11, 0x82, 0x12, 0x83, 0x13, 0x84, 0x10]);
    run(&mut cpu, 8);
    assert_eq!(cpu.register(0), 0b1110);
    assert_eq!(cpu.register(2), 0b1000);
    assert_eq!(cpu.register(3), 0b0110);
    assert_eq!(cpu.register(4), 0b1010);
}

#[test]
fn shifts_set_flag_for_every_value() {
    for v in 0..=255u8 {
        let mut cpu = machine(&[0x60, v, 0x80, 0x06]);
        run(&mut cpu, 2);
        assert_eq!(cpu.register(0xF), v & 1);
        assert_eq!(cpu.register(0), v >> 1);
        let mut cpu = machine(&[0x60, v, 0x80, 0x0E]);
        run(&mut cpu, 2);
        assert_eq!(cpu.register(0xF), v >> 7);
        assert_eq!(cpu.register(0), v.wrapping_shl(1));
    }
}

#[test]
fn font_sprite_address_and_glyphs() {
    let glyphs: [[u8; 5]; 16] = [
        [0xF0, 0x90, 0x90, 0x90, 0xF0],
        [0x20, 0x60, 0x20, 0x20, 0x70],
        [0xF0, 0x10, 0xF0, 0x80, 0xF0],
        [0xF0, 0x10, 0xF0, 0x10, 0xF0],
        [0x90, 0x90, 0xF0, 0x10, 0x10],
        [0xF0, 0x80, 0xF0, 0x10, 0xF0],
        [0xF0, 0x80, 0xF0, 0x90, 0xF0],
        [0xF0, 0x10, 0x20, 0x40, 0x40],
        [0xF0, 0x90, 0xF0, 0x90, 0xF0],
        [0xF0, 0x90, 0xF0, 0x10, 0xF0],
        [0xF0, 0x90, 0xF0, 0x90, 0x90],
        [0xE0, 0x90, 0xE0, 0x90, 0xE0],
        [0xF0, 0x80, 0x80, 0x80, 0xF0],
        [0xE0, 0x90, 0x90, 0x90, 0xE0],
        [0xF0, 0x80, 0xF0, 0x80, 0xF0],
        [0xF0, 0x80, 0xF0, 0x80, 0x80],
    ];
    for d in 0..16u8 {
        let mut cpu = machine(&[0x65, d, 0xF5, 0x29]);
        run(&mut cpu, 2);
        let i = cpu.index_register() as usize;
        assert_eq!(i, 5 * d as usize);
        for k in 0..5 {
            assert_eq!(cpu.memory_at(i + k), glyphs[d as usize][k]);
            assert_eq!(cpu.memory_at(0x50 + i + k), glyphs[d as usize][k]);
        }
    }
}

#[test]
fn clear_then_draw_twice_collides() {
    let mut rom = vec![0xA3, 0x00, 0x00, 0xE0, 0xD0, 0x11, 0xD0, 0x11];
    rom.resize(0x101, 0);
    rom[0x100] = 0xFF;
    let mut cpu = machine(&rom);
    run(&mut cpu, 3);
    assert_eq!(lit_pixels(&cpu), (0..8).collect::<Vec<usize>>());
    assert_eq!(cpu.register(0xF), 0);
    assert!(cpu.draw_flag);
    run(&mut cpu, 1);
    assert_eq!(lit_pixels(&cpu), Vec::<usize>::new());
    assert_eq!(cpu.register(0xF), 1);
}

#[test]
fn draw_clips_at_right_and_bottom_edges() {
    let mut rom = vec![0xA3, 0x00, 0x60, 60, 0x61, 31, 0xD0, 0x12];
    rom.resize(0x102, 0);
    rom[0x100] = 0xFF;
    rom[0x101] = 0xFF;
    let mut cpu = machine(&rom);
    run(&mut cpu, 4);
    assert_eq!(lit_pixels(&cpu), vec![31 * 64 + 60, 31 * 64 + 61, 31 * 64 + 62, 31 * 64 + 63]);
}

#[test]
fn draw_wraps_start_coordinates() {
    let mut rom = vec![0xA3, 0x00, 0x60, 64 + 2, 0x61, 32 + 1, 0xD0, 0x11];
    rom.resize(0x101, 0);
    rom[0x100] = 0x80;
    let mut cpu = machine(&rom);
    run(&mut cpu, 4);
    assert_eq!(lit_pixels(&cpu), vec![64 + 2]);
}

#[test]
fn jump_sets_pc_exactly() {
    let mut cpu = machine(&[0x13, 0x00]);
    run(&mut cpu, 1);
    assert_eq!(cpu.program_counter(), 0x300);
}

#[test]
fn jump_with_offset() {
    let mut cpu = machine(&[0x60, 0x10, 0xB3, 0x00]);
    run(&mut cpu, 2);
    assert_eq!(cpu.program_counter(), 0x310);
}

#[test]
fn call_then_return() {
    let mut rom = vec![0x23, 0x00];
    rom.resize(0x102, 0);
    rom[0x100] = 0x00;
    rom[0x101] = 0xEE;
    let mut cpu = machine(&rom);
    run(&mut cpu, 1);
    assert_eq!(cpu.program_counter(), 0x300);
    assert_eq!(cpu.stack_pointer(), 1);
    assert_eq!(cpu.stack_slot(0), 0x202);
    run(&mut cpu, 1);
    assert_eq!(cpu.program_counter(), 0x202);
    assert_eq!(cpu.stack_pointer(), 0);
}

#[test]
fn skips_move_by_four_or_two() {
    let cases: [([u8; 2], u16); 8] = [
        ([0x30, 0x05], 0x20A),
        ([0x30, 0x06], 0x208),
        ([0x40, 0x06], 0x20A),
        ([0x40, 0x05], 0x208),
        ([0x50, 0x10], 0x20A),
        ([0x50, 0x20], 0x208),
        ([0x90, 0x20], 0x20A),
        ([0x90, 0x10], 0x208),
    ];
    for (op, pc) in cases {
        let mut cpu = machine(&[0x60, 5, 0x61, 5, 0x62, 6, op[0], op[1]]);
        run(&mut cpu, 4);
        assert_eq!(cpu.program_counter(), pc);
    }
}

#[test]
fn key_skips() {
    let mut cpu = machine(&[0x60, 0x07, 0xE0, 0x9E]);
    cpu.set_key(7, true);
    run(&mut cpu, 2);
    assert_eq!(cpu.program_counter(), 0x206);
    let mut cpu = machine(&[0x60, 0x07, 0xE0, 0xA1]);
    cpu.set_key(7, true);
    cpu.set_key(7, false);
    run(&mut cpu, 2);
    assert_eq!(cpu.program_counter(), 0x206);
    let mut cpu = machine(&[0x60, 0x20, 0xE0, 0x9E]);
    cpu.set_keypad(0xFFFF);
    run(&mut cpu, 2);
    assert_eq!(cpu.program_counter(), 0x204);
}

#[test]
fn glyph_copy_at_0x050_draws_and_stays() {
    let mut cpu = machine(&[0xA0, 0x50, 0x60, 0x02, 0x61, 0x03, 0xD0, 0x15, 0x12, 0x08]);
    run(&mut cpu, 4);
    let glyph_zero = [0xF0u8, 0x90, 0x90, 0x90, 0xF0];
    let mut expected = Vec::new();
    for (row, byte) in glyph_zero.iter().enumerate() {
        for col in 0..8 {
            if byte & (0x80 >> col) != 0 {
                expected.push((3 + row) * 64 + 2 + col);
            }
        }
    }
    assert_eq!(lit_pixels(&cpu), expected);
    let frame = *cpu.get_display();
    for _ in 0..10 {
        run(&mut cpu, 1);
        assert_eq!(cpu.program_counter(), 0x208);
        assert_eq!(*cpu.get_display(), frame);
    }
}

fn glyph_zero_pixels(x: usize, y: usize) -> Vec<usize> {
    let glyph_zero = [0xF0u8, 0x90, 0x90, 0x90, 0xF0];
    let mut expected = Vec::new();
    for (row, byte) in glyph_zero.iter().enumerate() {
        for col in 0..8 {
            if byte & (0x80 >> col) != 0 {
                expected.push((y + row) * 64 + x + col);
            }
        }
    }
    expected
}

#[test]
fn end_to_end_glyph_stays() {
    let mut cpu = machine(&[0xD0, 0x15, 0x12, 0x02]);
    assert_eq!(cpu.step_with(0), Ok(()));
    assert_eq!(lit_pixels(&cpu), glyph_zero_pixels(0, 0));
    assert_eq!(cpu.register(0xF), 0);
    assert_eq!(cpu.program_counter(), 0x202);
    assert!(cpu.draw_flag);
    let frame = *cpu.get_display();
    for _ in 0..10 {
        assert_eq!(cpu.single_cycle(), Ok(()));
        assert_eq!(cpu.program_counter(), 0x202);
        assert_eq!(*cpu.get_display(), frame);
    }
}

#[test]
fn font_address_then_draw() {
    let mut cpu = machine(&[0x62, 0x08, 0xF2, 0x29, 0x60, 10, 0x61, 4, 0xD0, 0x15]);
    run(&mut cpu, 5);
    let mut expected = Vec::new();
    for (row, byte) in [0xF0u8, 0x90, 0xF0, 0x90, 0xF0].iter().enumerate() {
        for col in 0..8 {
            if byte & (0x80 >> col) != 0 {
                expected.push((4 + row) * 64 + 10 + col);
            }
        }
    }
    assert_eq!(lit_pixels(&cpu), expected);
}

#[test]
fn invalid_opcodes_are_reported() {
    for op in [[0x01, 0x23], [0x50, 0x01], [0x80, 0x08], [0x90, 0x01], [0xE0, 0x00], [0xF0, 0x00]] {
        let mut cpu = machine(&op);
        let r = cpu.step_with(0);
        assert_eq!(
            r,
            Err(CpuError::InvalidOpcode { opcode: (op[0] as u16) << 8 | op[1] as u16, address: 0x200 })
        );
        assert!(!cpu.is_running());
        assert_eq!(cpu.program_counter(), 0x202);
    }
}

#[test]
fn return_on_empty_stack_underflows() {
    let mut cpu = machine(&[0x00, 0xEE]);
    assert_eq!(cpu.step_with(0), Err(CpuError::StackUnderflow { opcode: 0x00EE, address: 0x200 }));
}

#[test]
fn seventeenth_call_overflows() {
    let mut cpu = machine(&[0x22, 0x00]);
    run(&mut cpu, 16);
    assert_eq!(cpu.stack_pointer(), 16);
    assert_eq!(cpu.step_with(0), Err(CpuError::StackOverflow { opcode: 0x2200, address: 0x200 }));
    assert_eq!(cpu.stack_pointer(), 16);
}

#[test]
fn wait_for_key_suspends_until_press() {
    let mut cpu = machine(&[0xF3, 0x0A, 0x12, 0x02]);
    run(&mut cpu, 1);
    assert!(cpu.is_awaiting_key());
    run(&mut cpu, 3);
    assert!(cpu.is_awaiting_key());
    assert_eq!(cpu.program_counter(), 0x202);
    cpu.set_key(0xC, true);
    cpu.set_key(0x7, true);
    run(&mut cpu, 1);
    assert!(!cpu.is_awaiting_key());
    assert_eq!(cpu.register(3), 7);
    assert_eq!(cpu.program_counter(), 0x202);
}

#[test]
fn random_is_masked() {
    let mut cpu = machine(&[0xC0, 0x0F]);
    assert_eq!(cpu.step_with(0xAB), Ok(()));
    assert_eq!(cpu.register(0), 0x0B);
    for _ in 0..20 {
        let mut cpu = machine(&[0xC0, 0x0F]);
        assert_eq!(cpu.single_cycle(), Ok(()));
        assert_eq!(cpu.register(0) & 0xF0, 0);
    }
}

#[test]
fn bcd_digits() {
    let mut cpu = machine(&[0x60, 234, 0xA3, 0x00, 0xF0, 0x33]);
    run(&mut cpu, 3);
    assert_eq!(cpu.memory_at(0x300), 2);
    assert_eq!(cpu.memory_at(0x301), 3);
    assert_eq!(cpu.memory_at(0x302), 4);
}

#[test]
fn store_and_load_registers() {
    let mut cpu = machine(&[0x60, 1, 0x61, 2, 0x62, 3, 0xA3, 0x00, 0xF1, 0x55, 0x60, 0, 0x61, 0, 0xF2, 0x65]);
    run(&mut cpu, 5);
    assert_eq!(cpu.memory_at(0x300), 1);
    assert_eq!(cpu.memory_at(0x301), 2);
    assert_eq!(cpu.memory_at(0x302), 0);
    run(&mut cpu, 3);
    assert_eq!(cpu.register(0), 1);
    assert_eq!(cpu.register(1), 2);
    assert_eq!(cpu.register(2), 0);
}

#[test]
fn index_add_and_timers() {
    let mut cpu = machine(&[0xAF, 0xFF, 0x60, 0x02, 0xF0, 0x1E, 0xF0, 0x15, 0xF0, 0x18, 0xF1, 0x07]);
    run(&mut cpu, 6);
    assert_eq!(cpu.index_register(), 0x1001);
    assert_eq!(cpu.delay_timer(), 2);
    assert_eq!(cpu.sound_timer(), 2);
    assert_eq!(cpu.register(1), 2);
    cpu.tick_timers();
    assert_eq!(cpu.delay_timer(), 1);
    cpu.tick_timers();
    cpu.tick_timers();
    assert_eq!(cpu.delay_timer(), 0);
    assert_eq!(cpu.sound_timer(), 0);
}

#[test]
fn clear_screen_instruction() {
    let mut rom = vec![0xA3, 0x00, 0xD0, 0x11, 0x00, 0xE0];
    rom.resize(0x101, 0);
    rom[0x100] = 0xFF;
    let mut cpu = machine(&rom);
    run(&mut cpu, 2);
    assert_eq!(lit_pixels(&cpu).len(), 8);
    run(&mut cpu, 1);
    assert_eq!(lit_pixels(&cpu), Vec::<usize>::new());
}
