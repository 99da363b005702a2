use chip8::cpu::Cpu;
use chip8::machine::CpuError;

fn machine(program: &[u8], shift_uses_vy: bool, legacy_index_increment: bool) -> Cpu {
    let mut cpu = Cpu::new(shift_uses_vy, legacy_index_increment);
    cpu.load_program(&program.to_vec()).unwrap();
    cpu
}

fn run(cpu: &mut Cpu, steps: usize) {
    for _ in 0..steps {
        cpu.cycle_with_random(0).unwrap();
    }
}

#[test]
fn new_machine_is_zeroed_with_font() {
    let cpu = Cpu::new(false, true);
    assert_eq!(cpu.pc(), 0x200);
    assert_eq!(cpu.index(), 0);
    assert_eq!(cpu.delay_timer(), 0);
    assert_eq!(cpu.sound_timer(), 0);
    assert_eq!(cpu.stack_depth(), 0);
    for r in 0..16 {
        assert_eq!(cpu.register(r), 0);
    }
    assert_eq!(cpu.memory_at(0x050), 0xF0);
    assert_eq!(cpu.memory_at(0x055), 0x20);
    assert_eq!(cpu.memory_at(0x09F), 0x80);
    assert_eq!(cpu.memory_at(0x04F), 0);
    assert_eq!(cpu.memory_at(0x0A0), 0);
}

#[test]
fn load_fidelity_for_every_byte() {
    for nn in 0..=255u8 {
        let mut cpu = machine(&[0x63, nn, 0x73, 0x00], false, true);
        run(&mut cpu, 1);
        assert_eq!(cpu.register(3), nn);
        run(&mut cpu, 1);
        assert_eq!(cpu.register(3), nn);
        assert_eq!(cpu.pc(), 0x204);
    }
}

#[test]
fn add_immediate_wraps() {
    let mut cpu = machine(&[0x62, 0xF0, 0x72, 0x20], false, true);
    run(&mut cpu, 2);
    assert_eq!(cpu.register(2), 0x10);
    assert_eq!(cpu.register(15), 0);
}

#[test]
fn add_with_carry() {
    let mut cpu = machine(&[0x60, 0xFF, 0x61, 0x01, 0x80, 0x14], false, true);
    run(&mut cpu, 3);
    assert_eq!(cpu.register(0), 0x00);
    assert_eq!(cpu.register(15), 1);

    let mut cpu = machine(&[0x60, 0x01, 0x61, 0x01, 0x80, 0x14], false, true);
    run(&mut cpu, 3);
    assert_eq!(cpu.register(0), 0x02);
    assert_eq!(cpu.register(15), 0);
}

#[test]
fn subtract_with_borrow() {
    let mut cpu = machine(&[0x60, 0x05, 0x61, 0x0A, 0x80, 0x15], false, true);
    run(&mut cpu, 3);
    assert_eq!(cpu.register(0), 0xFB);
    assert_eq!(cpu.register(15), 0);

    let mut cpu = machine(&[0x60, 0x0A, 0x61, 0x05, 0x80, 0x15], false, true);
    run(&mut cpu, 3);
    assert_eq!(cpu.register(0), 0x05);
    assert_eq!(cpu.register(15), 1);
}

#[test]
fn reverse_subtract() {
    let mut cpu = machine(&[0x60, 0x05, 0x61, 0x0A, 0x80, 0x17], false, true);
    run(&mut cpu, 3);
    assert_eq!(cpu.register(0), 0x05);
    assert_eq!(cpu.register(15), 1);

    let mut cpu = machine(&[0x60, 0x0A, 0x61, 0x05, 0x80, 0x17], false, true);
    run(&mut cpu, 3);
    assert_eq!(cpu.register(0), 0xFB);
    assert_eq!(cpu.register(15), 0);
}

#[test]
fn flag_is_written_last_when_it_is_the_target() {
    let mut cpu = machine(&[0x6F, 0xFF, 0x61, 0x01, 0x8F, 0x14], false, true);
    run(&mut cpu, 3);
    assert_eq!(cpu.register(15), 1);

    let mut cpu = machine(&[0x6F, 0x02, 0x61, 0x01, 0x8F, 0x14], false, true);
    run(&mut cpu, 3);
    assert_eq!(cpu.register(15), 0);
}

#[test]
fn logic_operations() {
    let mut cpu = machine(
        &[0x60, 0xCC, 0x61, 0xAA, 0x82, 0x00, 0x82, 0x11, 0x83, 0x00, 0x83, 0x12, 0x84, 0x00, 0x84, 0x13],
        false,
        true,
    );
    run(&mut cpu, 8);
    assert_eq!(cpu.register(2), 0xEE);
    assert_eq!(cpu.register(3), 0x88);
    assert_eq!(cpu.register(4), 0x66);
}

#[test]
fn shift_right_uses_vy_when_set() {
    let mut cpu = machine(&[0x60, 0x10, 0x61, 0x05, 0x80, 0x16], true, true);
    run(&mut cpu, 3);
    assert_eq!(cpu.register(0), 0x02);
    assert_eq!(cpu.register(15), 1);
    assert_eq!(cpu.register(1), 0x05);
}

#[test]
fn shift_right_in_place_when_clear() {
    let mut cpu = machine(&[0x60, 0x10, 0x61, 0x05, 0x80, 0x16], false, true);
    run(&mut cpu, 3);
    assert_eq!(cpu.register(0), 0x08);
    assert_eq!(cpu.register(15), 0);
    assert_eq!(cpu.register(1), 0x05);
}

#[test]
fn shift_left_quirk() {
    let mut cpu = machine(&[0x60, 0x01, 0x61, 0x81, 0x80, 0x1E], true, true);
    run(&mut cpu, 3);
    assert_eq!(cpu.register(0), 0x02);
    assert_eq!(cpu.register(15), 1);

    let mut cpu = machine(&[0x60, 0x01, 0x61, 0x81, 0x80, 0x1E], false, true);
    run(&mut cpu, 3);
    assert_eq!(cpu.register(0), 0x02);
    assert_eq!(cpu.register(15), 0);
}

#[test]
fn draw_twice_clears_and_collides() {
    // I = glyph 0, draw at (V0, V1) = (10, 5) twice.
    let mut cpu = machine(&[0x60, 0x0A, 0x61, 0x05, 0xA0, 0x50, 0xD0, 0x15, 0xD0, 0x15], false, true);
    run(&mut cpu, 4);
    assert_eq!(cpu.register(15), 0);
    assert!(cpu.display().get_pixel(10, 5));
    assert!(cpu.display().get_pixel(13, 5));
    assert!(!cpu.display().get_pixel(14, 5));
    assert!(cpu.display().get_pixel(10, 6));
    assert!(!cpu.display().get_pixel(11, 6));
    run(&mut cpu, 1);
    assert_eq!(cpu.register(15), 1);
    for y in 0..32 {
        for x in 0..64 {
            assert!(!cpu.display().get_pixel(x, y));
        }
    }
}

#[test]
fn draw_wraps_around_edges() {
    // Glyph 0 at (62, 30): the right half wraps to x = 0, 1; rows wrap to y = 0..2.
    let mut cpu = machine(&[0x60, 0x3E, 0x61, 0x1E, 0xA0, 0x50, 0xD0, 0x15], false, true);
    run(&mut cpu, 4);
    assert_eq!(cpu.register(15), 0);
    assert!(cpu.display().get_pixel(62, 30));
    assert!(cpu.display().get_pixel(1, 30));
    assert!(!cpu.display().get_pixel(2, 30));
    assert!(cpu.display().get_pixel(62, 31));
    assert!(cpu.display().get_pixel(62, 0));
    assert!(cpu.display().get_pixel(62, 2));
    assert!(!cpu.display().get_pixel(62, 3));
}

#[test]
fn draw_past_memory_end_fails() {
    let mut cpu = machine(&[0xAF, 0xFE, 0xD0, 0x03], false, true);
    run(&mut cpu, 1);
    assert_eq!(cpu.cycle_with_random(0), Err(CpuError::OutOfBounds));
    assert_eq!(cpu.pc(), 0x202);
    assert_eq!(cpu.register(15), 0);
}

#[test]
fn clear_screen() {
    let mut cpu = machine(&[0xA0, 0x50, 0xD0, 0x05, 0x00, 0xE0], false, true);
    run(&mut cpu, 2);
    assert!(cpu.display().get_pixel(0, 0));
    run(&mut cpu, 1);
    assert!(!cpu.display().get_pixel(0, 0));
}

#[test]
fn sound_timer_expires_once() {
    let mut cpu = machine(&[0x65, 0x01, 0xF5, 0x18], false, true);
    run(&mut cpu, 2);
    assert_eq!(cpu.sound_timer(), 1);
    assert!(cpu.update_timers());
    assert_eq!(cpu.sound_timer(), 0);
    assert!(!cpu.update_timers());
    assert_eq!(cpu.sound_timer(), 0);
    assert!(!cpu.update_timers());
    assert_eq!(cpu.sound_timer(), 0);
}

#[test]
fn delay_timer_counts_down_and_reads_back() {
    let mut cpu = machine(&[0x65, 0x03, 0xF5, 0x15, 0xF6, 0x07], false, true);
    run(&mut cpu, 2);
    assert_eq!(cpu.delay_timer(), 3);
    assert!(!cpu.update_timers());
    assert_eq!(cpu.delay_timer(), 2);
    run(&mut cpu, 1);
    assert_eq!(cpu.register(6), 2);
    cpu.update_timers();
    cpu.update_timers();
    cpu.update_timers();
    assert_eq!(cpu.delay_timer(), 0);
}

#[test]
fn key_wait_stalls_until_a_key_is_down() {
    let mut cpu = machine(&[0xF4, 0x0A], false, true);
    run(&mut cpu, 1);
    assert_eq!(cpu.pc(), 0x200);
    run(&mut cpu, 1);
    assert_eq!(cpu.pc(), 0x200);
    cpu.set_key(0xF, true);
    cpu.set_key(0x7, true);
    run(&mut cpu, 1);
    assert_eq!(cpu.pc(), 0x202);
    assert_eq!(cpu.register(4), 0x7);
}

#[test]
fn key_wait_sees_key_f() {
    let mut cpu = machine(&[0xF4, 0x0A], false, true);
    cpu.set_key(0xF, true);
    run(&mut cpu, 1);
    assert_eq!(cpu.pc(), 0x202);
    assert_eq!(cpu.register(4), 0xF);
}

#[test]
fn store_load_round_trip_advancing_index() {
    let program = [
        0x60, 0x11, 0x61, 0x22, 0x62, 0x33, 0xA3, 0x00, 0xF2, 0x55, 0x60, 0x00, 0x61, 0x00, 0x62,
        0x00, 0xA3, 0x00, 0xF2, 0x65,
    ];
    let mut cpu = machine(&program, false, false);
    run(&mut cpu, 5);
    assert_eq!(cpu.index(), 0x303);
    assert_eq!(cpu.memory_at(0x300), 0x11);
    assert_eq!(cpu.memory_at(0x301), 0x22);
    assert_eq!(cpu.memory_at(0x302), 0x33);
    run(&mut cpu, 5);
    assert_eq!(cpu.register(0), 0x11);
    assert_eq!(cpu.register(1), 0x22);
    assert_eq!(cpu.register(2), 0x33);
    assert_eq!(cpu.index(), 0x303);
}

#[test]
fn store_load_round_trip_fixed_index() {
    let program = [
        0x60, 0x11, 0x61, 0x22, 0x62, 0x33, 0xA3, 0x00, 0xF2, 0x55, 0x60, 0x00, 0x61, 0x00, 0x62,
        0x00, 0xF2, 0x65,
    ];
    let mut cpu = machine(&program, false, true);
    run(&mut cpu, 5);
    assert_eq!(cpu.index(), 0x300);
    run(&mut cpu, 4);
    assert_eq!(cpu.register(0), 0x11);
    assert_eq!(cpu.register(1), 0x22);
    assert_eq!(cpu.register(2), 0x33);
    assert_eq!(cpu.index(), 0x300);
}

#[test]
fn block_copy_past_memory_end_fails() {
    let mut cpu = machine(&[0xAF, 0xFE, 0xF2, 0x55], false, false);
    run(&mut cpu, 1);
    assert_eq!(cpu.cycle_with_random(0), Err(CpuError::OutOfBounds));
    assert_eq!(cpu.index(), 0xFFE);
    assert_eq!(cpu.pc(), 0x202);
}

#[test]
fn decimal_digits() {
    let mut cpu = machine(&[0x6A, 0xEA, 0xA4, 0x00, 0xFA, 0x33], false, true);
    run(&mut cpu, 3);
    assert_eq!(cpu.memory_at(0x400), 2);
    assert_eq!(cpu.memory_at(0x401), 3);
    assert_eq!(cpu.memory_at(0x402), 4);
}

#[test]
fn decimal_digits_past_memory_end_fails() {
    let mut cpu = machine(&[0xAF, 0xFE, 0xF0, 0x33], false, true);
    run(&mut cpu, 1);
    assert_eq!(cpu.cycle_with_random(0), Err(CpuError::OutOfBounds));
}

#[test]
fn font_address() {
    let mut cpu = machine(&[0x6B, 0x0A, 0xFB, 0x29], false, true);
    run(&mut cpu, 2);
    assert_eq!(cpu.index(), 0x050 + 50);
}

#[test]
fn index_add() {
    let mut cpu = machine(&[0xA0, 0x10, 0x61, 0x20, 0xF1, 0x1E], false, true);
    run(&mut cpu, 3);
    assert_eq!(cpu.index(), 0x030);
}

#[test]
fn index_add_wraps_at_sixteen_bits() {
    // I = 0xFFF; V1 = 0xFF; then a loop that adds V1 to I.
    let mut cpu = machine(&[0xAF, 0xFF, 0x61, 0xFF, 0xF1, 0x1E, 0x12, 0x04], false, true);
    run(&mut cpu, 2 + 2 * 250);
    assert_eq!(cpu.index(), ((0xFFF + 250 * 0xFF) % 0x10000) as u16);
    assert_eq!(cpu.index(), 0x905);
}

#[test]
fn call_and_return() {
    // 0x200: call 0x206; 0x202: V1 = 1; 0x204: jump 0x204; 0x206: V0 = 9; 0x208: return.
    let mut cpu = machine(&[0x22, 0x06, 0x61, 0x01, 0x12, 0x04, 0x60, 0x09, 0x00, 0xEE], false, true);
    run(&mut cpu, 1);
    assert_eq!(cpu.pc(), 0x206);
    assert_eq!(cpu.stack_depth(), 1);
    run(&mut cpu, 2);
    assert_eq!(cpu.pc(), 0x202);
    assert_eq!(cpu.stack_depth(), 0);
    run(&mut cpu, 2);
    assert_eq!(cpu.register(0), 9);
    assert_eq!(cpu.register(1), 1);
    assert_eq!(cpu.pc(), 0x204);
}

#[test]
fn return_with_empty_stack_is_counted() {
    let mut cpu = machine(&[0x00, 0xEE], false, true);
    run(&mut cpu, 1);
    assert_eq!(cpu.pc(), 0x202);
    assert_eq!(cpu.stack_underflows(), 1);
}

#[test]
fn skips() {
    // V0 = 5; skip if V0 == 5 (taken); skip if V0 != 5 (not taken); ...
    let mut cpu = machine(&[0x60, 0x05, 0x30, 0x05, 0x00, 0x00, 0x40, 0x05, 0x61, 0x05, 0x50, 0x10, 0x00, 0x00, 0x90, 0x10], false, true);
    run(&mut cpu, 2);
    assert_eq!(cpu.pc(), 0x206);
    run(&mut cpu, 1);
    assert_eq!(cpu.pc(), 0x208);
    run(&mut cpu, 2);
    assert_eq!(cpu.pc(), 0x20E);
    run(&mut cpu, 1);
    assert_eq!(cpu.pc(), 0x210);
}

#[test]
fn key_skips() {
    let mut cpu = machine(&[0x60, 0x03, 0xE0, 0x9E, 0x00, 0x00, 0xE0, 0xA1], false, true);
    cpu.set_key(3, true);
    run(&mut cpu, 2);
    assert_eq!(cpu.pc(), 0x206);
    run(&mut cpu, 1);
    assert_eq!(cpu.pc(), 0x208);
}

#[test]
fn key_skip_with_bad_key_fails() {
    let mut cpu = machine(&[0x60, 0x10, 0xE0, 0x9E], false, true);
    run(&mut cpu, 1);
    assert_eq!(cpu.cycle_with_random(0), Err(CpuError::OutOfBounds));
    assert_eq!(cpu.pc(), 0x202);
}

#[test]
fn jump_with_offset_quirk() {
    let mut cpu = machine(&[0x60, 0x04, 0x62, 0x10, 0xB2, 0x00], false, true);
    run(&mut cpu, 3);
    assert_eq!(cpu.pc(), 0x204);

    let mut cpu = machine(&[0x60, 0x04, 0x62, 0x10, 0xB2, 0x00], true, true);
    run(&mut cpu, 3);
    assert_eq!(cpu.pc(), 0x210);
}

#[test]
fn random_is_masked() {
    let mut cpu = machine(&[0xC3, 0x0F], false, true);
    cpu.cycle_with_random(0xAB).unwrap();
    assert_eq!(cpu.register(3), 0x0B);
    for _ in 0..50 {
        let mut cpu = machine(&[0xC3, 0x0F], false, true);
        cpu.cycle().unwrap();
        assert_eq!(cpu.register(3) & 0xF0, 0);
    }
}

#[test]
fn undefined_and_zero_words_are_skipped() {
    let mut cpu = machine(&[0x00, 0x00, 0xE0, 0x00, 0xF0, 0xFF, 0x80, 0x08], false, true);
    run(&mut cpu, 4);
    assert_eq!(cpu.pc(), 0x208);
    for r in 0..16 {
        assert_eq!(cpu.register(r), 0);
    }
}

#[test]
fn fetch_past_memory_end_fails() {
    let mut cpu = machine(&[0x1F, 0xFF], false, true);
    run(&mut cpu, 1);
    assert_eq!(cpu.pc(), 0xFFF);
    assert_eq!(cpu.cycle(), Err(CpuError::OutOfBounds));
    assert_eq!(cpu.pc(), 0xFFF);
}

#[test]
fn program_size_limit() {
    let mut cpu = Cpu::new(false, true);
    assert_eq!(cpu.load_program(&vec![0u8; 3585]), Err(CpuError::OutOfBounds));
    assert_eq!(cpu.memory_at(0x200), 0);
    let mut full = vec![0u8; 3584];
    full[3583] = 0x7E;
    assert_eq!(cpu.load_program(&full), Ok(()));
    assert_eq!(cpu.memory_at(0xFFF), 0x7E);
}

#[test]
fn init_load_writes_font_and_program() {
    let mut cpu = Cpu::new(false, true);
    assert_eq!(cpu.init_load(&vec![0x12, 0x34]), Ok(()));
    assert_eq!(cpu.memory_at(0x200), 0x12);
    assert_eq!(cpu.memory_at(0x201), 0x34);
    assert_eq!(cpu.memory_at(0x050), 0xF0);
}
