use chip8::chip::{Chip, CycleReport, Step};
use chip8::semantics::{FONT_START_ADDRESS, MAX_ROM_SIZE, PIXEL_ON, START_ADDRESS};

const FONT: [u8; 80] = [
    0xF0, 0x90, 0x90, 0x90, 0xF0, 0x20, 0x60, 0x20, 0x20, 0x70, 0xF0, 0x10, 0xF0, 0x80, 0xF0,
    0xF0, 0x10, 0xF0, 0x10, 0xF0, 0x90, 0x90, 0xF0, 0x10, 0x10, 0xF0, 0x80, 0xF0, 0x10, 0xF0,
    0xF0, 0x80, 0xF0, 0x90, 0xF0, 0xF0, 0x10, 0x20, 0x40, 0x40, 0xF0, 0x90, 0xF0, 0x90, 0xF0,
    0xF0, 0x90, 0xF0, 0x10, 0xF0, 0xF0, 0x90, 0xF0, 0x90, 0x90, 0xE0, 0x90, 0xE0, 0x90, 0xE0,
    0xF0, 0x80, 0x80, 0x80, 0xF0, 0xE0, 0x90, 0x90, 0x90, 0xE0, 0xF0, 0x80, 0xF0, 0x80, 0xF0,
    0xF0, 0x80, 0xF0, 0x80, 0x80,
];

/// A machine with `program` loaded.
fn chip_with(program: &[u8]) -> Chip {
    let mut chip = Chip::new();
    chip.load_rom_into_memory(program);
    chip
}

/// Runs `n` cycles with random byte 0, checking each can run.
fn run(chip: &mut Chip, n: usize) -> CycleReport {
    let mut last = CycleReport { step: Step::Executed, past_end: false };
    for _ in 0..n {
        assert!(chip.can_cycle());
        last = chip.cycle_with_random(0);
    }
    last
}

#[test]
fn new_machine_has_font_and_start_address() {
    let chip = Chip::new();
    assert_eq!(chip.program_counter(), START_ADDRESS);
    assert_eq!(chip.program_counter(), 0x200);
    for i in 0..80 {
        assert_eq!(chip.memory_byte(FONT_START_ADDRESS as usize + i), FONT[i]);
    }
    assert_eq!(chip.memory_byte(0x4f), 0);
    assert_eq!(chip.memory_byte(0xa0), 0);
    assert_eq!(chip.memory_byte(0x200), 0);
    for r in 0..16 {
        assert_eq!(chip.register(r), 0);
    }
    assert_eq!(chip.stack_pointer(), 0);
    assert_eq!(chip.index_register(), 0);
    assert_eq!(chip.end(), 0);
    assert!(chip.display_memory.iter().all(|p| *p == 0));
    assert!(chip.input.iter().all(|k| !*k));
}

#[test]
fn default_is_new() {
    let a = Chip::default();
    assert_eq!(a.program_counter(), 0x200);
    assert_eq!(a.memory_byte(0x50), 0xF0);
}

#[test]
fn load_rom_places_program_and_end() {
    let mut chip = chip_with(&[1, 2, 3, 4, 5]);
    assert_eq!(chip.memory_byte(0x200), 1);
    assert_eq!(chip.memory_byte(0x204), 5);
    assert_eq!(chip.end(), 0x205);
    chip.load_rom_into_memory(&[9, 8]);
    assert_eq!(chip.memory_byte(0x200), 9);
    assert_eq!(chip.memory_byte(0x201), 8);
    assert_eq!(chip.memory_byte(0x202), 0);
    assert_eq!(chip.memory_byte(0x204), 0);
    assert_eq!(chip.end(), 0x202);
    assert_eq!(chip.memory_byte(0x50), 0xF0);
}

#[test]
fn load_largest_rom() {
    let rom = vec![0xAB; MAX_ROM_SIZE];
    let chip = chip_with(&rom);
    assert_eq!(chip.memory_byte(0xfff), 0xAB);
    assert_eq!(chip.end(), 0x1000);
}

#[test]
fn ld_and_add_byte_wraps() {
    let mut chip = chip_with(&[0x63, 0xF0, 0x73, 0x20]);
    run(&mut chip, 1);
    assert_eq!(chip.register(3), 0xF0);
    assert_eq!(chip.opcode(), 0x63F0);
    run(&mut chip, 1);
    assert_eq!(chip.register(3), 0x10);
    assert_eq!(chip.register(0xf), 0);
    assert_eq!(chip.program_counter(), 0x204);
}

#[test]
fn register_logic_ops() {
    // V0 = 0xCC, V1 = 0xAA; then mov/or/and/xor into V2..V5
    let mut chip = chip_with(&[
        0x60, 0xCC, 0x61, 0xAA, 0x82, 0x10, 0x83, 0x00, 0x83, 0x11, 0x84, 0x00, 0x84, 0x12, 0x85,
        0x00, 0x85, 0x13,
    ]);
    run(&mut chip, 9);
    assert_eq!(chip.register(2), 0xAA);
    assert_eq!(chip.register(3), 0xCC | 0xAA);
    assert_eq!(chip.register(4), 0xCC & 0xAA);
    assert_eq!(chip.register(5), 0xCC ^ 0xAA);
}

#[test]
fn addr_sets_carry() {
    let mut chip = chip_with(&[0x60, 0xF0, 0x61, 0x20, 0x80, 0x14, 0x62, 0x01, 0x80, 0x24]);
    run(&mut chip, 3);
    assert_eq!(chip.register(0), 0x10);
    assert_eq!(chip.register(0xf), 1);
    run(&mut chip, 2);
    assert_eq!(chip.register(0), 0x11);
    assert_eq!(chip.register(0xf), 0);
}

#[test]
fn add_carry_law_on_values() {
    // Vx + 256 * VF equals the old Vx + Vy.
    let mut chip = chip_with(&[0x60, 0xC8, 0x61, 0x64, 0x80, 0x14]);
    run(&mut chip, 3);
    assert_eq!(chip.register(0) as u32 + 256 * chip.register(0xf) as u32, 200 + 100);
}

#[test]
fn addr_into_vf_keeps_sum() {
    let mut chip = chip_with(&[0x6F, 0xF0, 0x61, 0x20, 0x8F, 0x14]);
    run(&mut chip, 3);
    assert_eq!(chip.register(0xf), 0x10);
}

#[test]
fn sub_and_subn_flags() {
    let mut chip = chip_with(&[0x60, 0x05, 0x61, 0x07, 0x80, 0x15]);
    run(&mut chip, 3);
    assert_eq!(chip.register(0), 0xFE);
    assert_eq!(chip.register(0xf), 0);
    let mut chip = chip_with(&[0x60, 0x07, 0x61, 0x05, 0x80, 0x15]);
    run(&mut chip, 3);
    assert_eq!(chip.register(0), 2);
    assert_eq!(chip.register(0xf), 1);
    // equal operands: no "greater", so VF = 0
    let mut chip = chip_with(&[0x60, 0x05, 0x61, 0x05, 0x80, 0x15]);
    run(&mut chip, 3);
    assert_eq!(chip.register(0), 0);
    assert_eq!(chip.register(0xf), 0);
    let mut chip = chip_with(&[0x60, 0x05, 0x61, 0x07, 0x80, 0x17]);
    run(&mut chip, 3);
    assert_eq!(chip.register(0), 2);
    assert_eq!(chip.register(0xf), 1);
    let mut chip = chip_with(&[0x60, 0x07, 0x61, 0x05, 0x80, 0x17]);
    run(&mut chip, 3);
    assert_eq!(chip.register(0), 0xFE);
    assert_eq!(chip.register(0xf), 0);
}

#[test]
fn shifts_set_vf() {
    let mut chip = chip_with(&[0x60, 0x81, 0x80, 0x06]);
    run(&mut chip, 2);
    assert_eq!(chip.register(0), 0x40);
    assert_eq!(chip.register(0xf), 1);
    let mut chip = chip_with(&[0x60, 0x81, 0x80, 0x0E]);
    run(&mut chip, 2);
    assert_eq!(chip.register(0), 0x02);
    assert_eq!(chip.register(0xf), 1);
    let mut chip = chip_with(&[0x60, 0x40, 0x80, 0x0E]);
    run(&mut chip, 2);
    assert_eq!(chip.register(0), 0x80);
    assert_eq!(chip.register(0xf), 0);
}

#[test]
fn shifts_of_vf_itself() {
    // SHR VF: VF = low bit, then VF (now that bit) shifted right: 0.
    let mut chip = chip_with(&[0x6F, 0x03, 0x8F, 0x06]);
    run(&mut chip, 2);
    assert_eq!(chip.register(0xf), 0);
    // SHL VF: VF = high bit (1), then shifted left: 2.
    let mut chip = chip_with(&[0x6F, 0x80, 0x8F, 0x0E]);
    run(&mut chip, 2);
    assert_eq!(chip.register(0xf), 2);
}

#[test]
fn skips() {
    // SE taken, SNE not taken, SEV taken, SNEV taken
    let mut chip = chip_with(&[0x60, 0x05, 0x30, 0x05]);
    run(&mut chip, 2);
    assert_eq!(chip.program_counter(), 0x206);
    let mut chip = chip_with(&[0x60, 0x05, 0x30, 0x06]);
    run(&mut chip, 2);
    assert_eq!(chip.program_counter(), 0x204);
    let mut chip = chip_with(&[0x60, 0x05, 0x40, 0x05]);
    run(&mut chip, 2);
    assert_eq!(chip.program_counter(), 0x204);
    let mut chip = chip_with(&[0x60, 0x05, 0x40, 0x06]);
    run(&mut chip, 2);
    assert_eq!(chip.program_counter(), 0x206);
    let mut chip = chip_with(&[0x60, 0x05, 0x61, 0x05, 0x50, 0x10]);
    run(&mut chip, 3);
    assert_eq!(chip.program_counter(), 0x208);
    let mut chip = chip_with(&[0x60, 0x05, 0x61, 0x05, 0x90, 0x10]);
    run(&mut chip, 3);
    assert_eq!(chip.program_counter(), 0x206);
}

#[test]
fn jumps() {
    let mut chip = chip_with(&[0x13, 0x45]);
    run(&mut chip, 1);
    assert_eq!(chip.program_counter(), 0x345);
    let mut chip = chip_with(&[0x60, 0x10, 0xB3, 0x00]);
    run(&mut chip, 2);
    assert_eq!(chip.program_counter(), 0x310);
    let mut chip = chip_with(&[0x60, 0xFF, 0xBF, 0xFF]);
    run(&mut chip, 2);
    assert_eq!(chip.program_counter(), 0x10FE);
}

#[test]
fn call_then_return() {
    // 0x200: CALL 0x206; 0x202: LD V1, 7; ...; 0x206: LD V2, 9; RET
    let mut chip = chip_with(&[0x22, 0x06, 0x61, 0x07, 0x00, 0x00, 0x62, 0x09, 0x00, 0xEE]);
    run(&mut chip, 1);
    assert_eq!(chip.program_counter(), 0x206);
    assert_eq!(chip.stack_pointer(), 1);
    assert_eq!(chip.stack_entry(0), 0x202);
    run(&mut chip, 2);
    assert_eq!(chip.program_counter(), 0x202);
    assert_eq!(chip.stack_pointer(), 0);
    assert_eq!(chip.register(2), 9);
    run(&mut chip, 1);
    assert_eq!(chip.register(1), 7);
}

#[test]
fn return_with_empty_stack_cannot_run() {
    let chip = chip_with(&[0x00, 0xEE]);
    assert!(!chip.can_cycle());
}

#[test]
fn seventeen_nested_calls_cannot_run() {
    // CALL 0x200 forever: sixteen calls fill the stack, the seventeenth faults.
    let mut chip = chip_with(&[0x22, 0x00]);
    run(&mut chip, 16);
    assert_eq!(chip.stack_pointer(), 16);
    assert!(!chip.can_cycle());
}

#[test]
fn index_register_ops() {
    let mut chip = chip_with(&[0xA1, 0x23, 0x60, 0x10, 0xF0, 0x1E]);
    run(&mut chip, 1);
    assert_eq!(chip.index_register(), 0x123);
    run(&mut chip, 2);
    assert_eq!(chip.index_register(), 0x133);
}

#[test]
fn rnd_masks_random_byte() {
    let mut chip = chip_with(&[0xC0, 0x0F]);
    chip.cycle_with_random(0xAB);
    assert_eq!(chip.register(0), 0x0B);
    let mut chip = chip_with(&[0xC0, 0x00]);
    chip.cycle();
    assert_eq!(chip.register(0), 0);
    for _ in 0..20 {
        let mut chip = chip_with(&[0xC5, 0x0F]);
        chip.cycle();
        assert!(chip.register(5) <= 0x0F);
    }
}

#[test]
fn random_byte_matters_only_to_rnd() {
    let mut a = chip_with(&[0x60, 0x33]);
    let mut b = chip_with(&[0x60, 0x33]);
    a.cycle_with_random(1);
    b.cycle_with_random(200);
    assert_eq!(a.register(0), b.register(0));
    assert_eq!(a.program_counter(), b.program_counter());
}

#[test]
fn draw_sprite_and_collision() {
    // I = font glyph of 0 (0x50), draw 5 rows at (V0, V1) = (0, 0)
    let mut chip = chip_with(&[0xA0, 0x50, 0xD0, 0x15, 0xD0, 0x15]);
    run(&mut chip, 2);
    assert_eq!(chip.register(0xf), 0);
    // row 0 of glyph 0 is 0xF0: pixels 0..4 on, 4..8 off
    for x in 0..4 {
        assert_eq!(chip.display_memory[x], PIXEL_ON);
    }
    assert_eq!(chip.display_memory[4], 0);
    // row 1 is 0x90
    assert_eq!(chip.display_memory[64], PIXEL_ON);
    assert_eq!(chip.display_memory[65], 0);
    assert_eq!(chip.display_memory[67], PIXEL_ON);
    // drawing again erases it and reports a collision
    run(&mut chip, 1);
    assert_eq!(chip.register(0xf), 1);
    assert!(chip.display_memory.iter().all(|p| *p == 0));
}

#[test]
fn draw_wraps_around_edges() {
    // V0 = 62, V1 = 31: an 0xF0 row at x = 62..66 wraps to columns 62, 63, 0, 1
    let mut chip = chip_with(&[0x60, 62, 0x61, 31, 0xA0, 0x50, 0xD0, 0x12]);
    run(&mut chip, 4);
    let row31 = 31 * 64;
    assert_eq!(chip.display_memory[row31 + 62], PIXEL_ON);
    assert_eq!(chip.display_memory[row31 + 63], PIXEL_ON);
    assert_eq!(chip.display_memory[row31], PIXEL_ON);
    assert_eq!(chip.display_memory[row31 + 1], PIXEL_ON);
    assert_eq!(chip.display_memory[row31 + 2], 0);
    // second row (0x90) wraps to row 0
    assert_eq!(chip.display_memory[62], PIXEL_ON);
    assert_eq!(chip.display_memory[63], 0);
    assert_eq!(chip.display_memory[1], PIXEL_ON);
    // coordinates past the screen are taken modulo its size
    let mut chip = chip_with(&[0x60, 64 + 3, 0x61, 32 + 2, 0xA0, 0x50, 0xD0, 0x11]);
    run(&mut chip, 4);
    assert_eq!(chip.display_memory[2 * 64 + 3], PIXEL_ON);
}

#[test]
fn clear_screen() {
    let mut chip = chip_with(&[0xA0, 0x50, 0xD0, 0x15, 0x00, 0xE0]);
    run(&mut chip, 2);
    assert!(chip.display_memory.iter().any(|p| *p != 0));
    run(&mut chip, 1);
    assert!(chip.display_memory.iter().all(|p| *p == 0));
}

#[test]
fn key_skips() {
    let mut chip = chip_with(&[0x60, 0x0A, 0xE0, 0x9E]);
    chip.input[0xA] = true;
    run(&mut chip, 2);
    assert_eq!(chip.program_counter(), 0x206);
    let mut chip = chip_with(&[0x60, 0x0A, 0xE0, 0xA1]);
    chip.input[0xA] = true;
    run(&mut chip, 2);
    assert_eq!(chip.program_counter(), 0x204);
    let mut chip = chip_with(&[0x60, 0x0A, 0xE0, 0xA1]);
    run(&mut chip, 2);
    assert_eq!(chip.program_counter(), 0x206);
}

#[test]
fn key_number_out_of_range_cannot_run() {
    let mut chip = chip_with(&[0x60, 0x10, 0xE0, 0x9E]);
    run(&mut chip, 1);
    assert!(!chip.can_cycle());
}

#[test]
fn wait_for_key() {
    let mut chip = chip_with(&[0xF3, 0x0A]);
    for _ in 0..5 {
        run(&mut chip, 1);
        assert_eq!(chip.program_counter(), 0x200);
        assert_eq!(chip.register(3), 0);
    }
    chip.input[0x9] = true;
    chip.input[0xC] = true;
    run(&mut chip, 1);
    assert_eq!(chip.register(3), 0x9);
    assert_eq!(chip.program_counter(), 0x202);
}

#[test]
fn timers() {
    let mut chip = chip_with(&[0x60, 0x02, 0xF0, 0x15, 0xF0, 0x18, 0xF1, 0x07]);
    run(&mut chip, 3);
    assert_eq!(chip.delay_timer(), 2);
    assert_eq!(chip.sound_timer(), 2);
    chip.tick_timers();
    assert_eq!(chip.delay_timer(), 1);
    run(&mut chip, 1);
    assert_eq!(chip.register(1), 1);
    chip.tick_timers();
    chip.tick_timers();
    chip.tick_timers();
    assert_eq!(chip.delay_timer(), 0);
    assert_eq!(chip.sound_timer(), 0);
}

#[test]
fn font_address_points_at_glyph() {
    let mut chip = chip_with(&[0x60, 0x0B, 0xF0, 0x29]);
    run(&mut chip, 2);
    let i = chip.index_register() as usize;
    assert_eq!(i, 0x50 + 11 * 5);
    for k in 0..5 {
        assert_eq!(chip.memory_byte(i + k), FONT[11 * 5 + k]);
    }
}

#[test]
fn bcd_digits() {
    let mut chip = chip_with(&[0x60, 234, 0xA3, 0x00, 0xF0, 0x33]);
    run(&mut chip, 3);
    assert_eq!(chip.memory_byte(0x300), 2);
    assert_eq!(chip.memory_byte(0x301), 3);
    assert_eq!(chip.memory_byte(0x302), 4);
    let mut chip = chip_with(&[0x60, 7, 0xA3, 0x00, 0xF0, 0x33]);
    run(&mut chip, 3);
    assert_eq!(chip.memory_byte(0x300), 0);
    assert_eq!(chip.memory_byte(0x301), 0);
    assert_eq!(chip.memory_byte(0x302), 7);
}

#[test]
fn bcd_past_memory_cannot_run() {
    let mut chip = chip_with(&[0xAF, 0xFE, 0xF0, 0x33]);
    run(&mut chip, 1);
    assert!(!chip.can_cycle());
}

#[test]
fn store_then_load_registers() {
    // V0..V2 = 1, 2, 3; I = 0x300; store V0..V2; clear V0..V2; load V0..V1
    let mut chip = chip_with(&[
        0x60, 1, 0x61, 2, 0x62, 3, 0xA3, 0x00, 0xF2, 0x55, 0x60, 0, 0x61, 0, 0x62, 0, 0xF1, 0x65,
    ]);
    run(&mut chip, 5);
    assert_eq!(chip.memory_byte(0x300), 1);
    assert_eq!(chip.memory_byte(0x301), 2);
    assert_eq!(chip.memory_byte(0x302), 3);
    assert_eq!(chip.memory_byte(0x303), 0);
    run(&mut chip, 4);
    assert_eq!(chip.register(0), 1);
    assert_eq!(chip.register(1), 2);
    assert_eq!(chip.register(2), 0);
}

#[test]
fn unknown_opcode_is_reported_and_skipped() {
    let mut chip = chip_with(&[0x01, 0x23, 0x60, 0x01]);
    let report = run(&mut chip, 1);
    assert_eq!(
        report.step,
        Step::UnknownOpcode { opcode: 0x0123, key: 0x0023, pc: 0x202 }
    );
    assert_eq!(chip.program_counter(), 0x202);
    let report = run(&mut chip, 1);
    assert_eq!(report.step, Step::Executed);
    assert_eq!(chip.register(0), 1);
}

#[test]
fn past_end_is_reported() {
    let mut chip = chip_with(&[0x60, 0x01, 0x12, 0x00]);
    let report = run(&mut chip, 1);
    assert!(!report.past_end);
    let report = run(&mut chip, 1);
    assert!(!report.past_end);
    assert_eq!(chip.program_counter(), 0x200);
    let mut chip = chip_with(&[0x60, 0x01]);
    let report = run(&mut chip, 1);
    assert!(report.past_end);
}

#[test]
fn fetch_past_memory_cannot_run() {
    let mut chip = chip_with(&[0x1F, 0xFF]);
    run(&mut chip, 1);
    assert_eq!(chip.program_counter(), 0xFFF);
    assert!(!chip.can_cycle());
}


#[test]
fn many_ticks_saturate_at_zero() {
    let mut chip = chip_with(&[0x60, 5, 0xF0, 0x15, 0x61, 200, 0xF1, 0x18]);
    run(&mut chip, 4);
    for _ in 0..7 {
        chip.tick_timers();
    }
    assert_eq!(chip.delay_timer(), 0);
    assert_eq!(chip.sound_timer(), 193);
    assert_eq!(chip.register(0), 5);
    assert_eq!(chip.program_counter(), 0x208);
}
