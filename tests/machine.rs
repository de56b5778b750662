use yaci::bitwise::{get_address, get_byte, get_nibble, get_x, get_y};
use yaci::chip8::{pacing_delay_us, Chip8Vm, VmState, CYCLE_PERIOD_US, TIMER_PERIOD_US};
use yaci::error::Chip8Error;
use yaci::frontend::{get_key_index, FrontEnd, Keys, MockFrontEnd};
use yaci::hex::{l2sh, lsh, lsh1, lsh2, lsh3, opcode_lsh};
use yaci::memory::{DisplayBuffer, Ram, DISPLAY_SIZE, FONT_BASE, MEMORY_SIZE, PROGRAM_START};

fn vm_with_program(program: &[u8]) -> Chip8Vm {
    let mut vm = Chip8Vm::new(7);
    vm.load_game(program).unwrap();
    vm
}

fn no_keys() -> Keys {
    Keys::default()
}

fn lit_pixels(d: &DisplayBuffer) -> Vec<usize> {
    (0..DISPLAY_SIZE).filter(|&p| d.get(p) == 1).collect()
}

#[test]
fn draw_twice_restores_display() {
    let mut d = DisplayBuffer::new();
    d.draw_sprite(3, 4, &[0x3C]);
    let before: Vec<u8> = (0..DISPLAY_SIZE).map(|p| d.get(p)).collect();
    let sprite = [0xF0, 0x90, 0xF0, 0x90, 0x90];
    d.draw_sprite(60, 29, &sprite);
    assert_ne!((0..DISPLAY_SIZE).map(|p| d.get(p)).collect::<Vec<u8>>(), before);
    d.draw_sprite(60, 29, &sprite);
    assert_eq!((0..DISPLAY_SIZE).map(|p| d.get(p)).collect::<Vec<u8>>(), before);
}

#[test]
fn draw_sprite_wraps_at_both_edges() {
    let mut d = DisplayBuffer::new();
    let hit = d.draw_sprite(62, 31, &[0xFF, 0x80]);
    assert!(!hit);
    let bottom = 31 * 64;
    assert_eq!(
        lit_pixels(&d),
        vec![
            62,
            bottom,
            bottom + 1,
            bottom + 2,
            bottom + 3,
            bottom + 4,
            bottom + 5,
            bottom + 62,
            bottom + 63,
        ]
    );
}

#[test]
fn draw_sprite_reports_collision() {
    let mut d = DisplayBuffer::new();
    assert!(!d.draw_sprite(0, 0, &[0xC0]));
    assert_eq!(lit_pixels(&d), vec![0, 1]);
    assert!(d.draw_sprite(1, 0, &[0xC0]));
    assert_eq!(lit_pixels(&d), vec![0, 2]);
    assert!(!d.draw_sprite(10, 10, &[0x01]));
    assert_eq!(lit_pixels(&d), vec![0, 2, 10 * 64 + 17]);
}

#[test]
fn clear_turns_every_pixel_off() {
    let mut d = DisplayBuffer::default();
    d.draw_sprite(5, 5, &[0xFF, 0xFF]);
    d.clear();
    assert!(lit_pixels(&d).is_empty());
}

#[test]
fn add_flags_carry_for_every_pair() {
    for a in 0..=255u16 {
        for b in 0..=255u16 {
            let mut vm = Chip8Vm::new(1);
            vm.v[1] = a as u8;
            vm.v[2] = b as u8;
            vm.add_x_y(0x8124);
            assert_eq!(vm.v[0xF], if a + b > 255 { 1 } else { 0 });
            assert_eq!(vm.v[1] as u16, (a + b) % 256);
        }
    }
}

#[test]
fn add_into_flag_register_keeps_sum() {
    let mut vm = Chip8Vm::new(1);
    vm.v[0xF] = 0xF0;
    vm.v[3] = 0x20;
    vm.add_x_y(0x8F34);
    assert_eq!(vm.v[0xF], 0x10);
}

#[test]
fn sub_borrow_flag_and_wrap() {
    let mut vm = Chip8Vm::new(1);
    vm.v[4] = 0xFF;
    vm.v[5] = 0x01;
    vm.sub(0x8455);
    assert_eq!(vm.v[0xF], 1);
    assert_eq!(vm.v[4], 0xFE);

    let mut vm = Chip8Vm::new(1);
    vm.v[4] = 0x01;
    vm.v[5] = 0xFF;
    vm.sub(0x8455);
    assert_eq!(vm.v[0xF], 0);
    assert_eq!(vm.v[4], 0x02);
}

#[test]
fn shr_low_bit_goes_to_flag() {
    let mut vm = Chip8Vm::new(1);
    vm.v[6] = 0x7;
    vm.shr(0x8606);
    assert_eq!(vm.v[0xF], 1);
    assert_eq!(vm.v[6], 0x3);

    let mut vm = Chip8Vm::new(1);
    vm.v[6] = 0x8;
    vm.shr(0x8606);
    assert_eq!(vm.v[0xF], 0);
    assert_eq!(vm.v[6], 0x4);
}

#[test]
fn call_then_return_cycles() {
    let mut program = vec![0u8; 0x102];
    program[0] = 0x23;
    program[1] = 0x00;
    program[0x100] = 0x00;
    program[0x101] = 0xEE;
    let mut vm = vm_with_program(&program);
    let keys = no_keys();
    let pc_before = vm.pc;
    let sp_before = vm.sp;
    vm.execute_cycle(&keys, 0).unwrap();
    assert_eq!(vm.pc, 0x300);
    assert_eq!(vm.sp, sp_before + 1);
    vm.execute_cycle(&keys, 0).unwrap();
    assert_eq!(vm.pc, pc_before);
    assert_eq!(vm.sp, sp_before);
}

#[test]
fn seventeenth_call_overflows_stack() {
    let mut vm = vm_with_program(&[0x22, 0x00]);
    let keys = no_keys();
    for k in 0..16 {
        assert_eq!(vm.execute_cycle(&keys, 0), Ok(()));
        assert_eq!(vm.sp, k + 1);
    }
    assert_eq!(vm.execute_cycle(&keys, 0), Err(Chip8Error::StackOverflow));
    assert_eq!(vm.sp, 16);
}

#[test]
fn skip_cycles_advance_by_four_or_two() {
    let keys = no_keys();
    // (instruction, V1, V2, skipped)
    let cases: [(u16, u8, u8, bool); 8] = [
        (0x3142, 0x42, 0, true),
        (0x3142, 0x41, 0, false),
        (0x4142, 0x41, 0, true),
        (0x4142, 0x42, 0, false),
        (0x5120, 9, 9, true),
        (0x5120, 9, 8, false),
        (0x9120, 9, 8, true),
        (0x9120, 9, 9, false),
    ];
    for (op, v1, v2, skipped) in cases {
        let mut vm = vm_with_program(&[(op >> 8) as u8, (op & 0xFF) as u8]);
        vm.v[1] = v1;
        vm.v[2] = v2;
        vm.execute_cycle(&keys, 0).unwrap();
        let expected = if skipped { 0x204 } else { 0x202 };
        assert_eq!(vm.pc, expected, "opcode {:04X}", op);
    }
}

#[test]
fn unknown_opcodes_are_reported() {
    let keys = no_keys();
    for op in [0x0123u16, 0x8008, 0xE000, 0xF0FF] {
        let mut vm = vm_with_program(&[(op >> 8) as u8, (op & 0xFF) as u8]);
        assert_eq!(vm.execute_cycle(&keys, 0), Err(Chip8Error::UnknownOpcode(op)));
        assert_eq!(vm.pc, 0x200);
    }
}

#[test]
fn return_on_empty_stack_underflows() {
    let mut vm = vm_with_program(&[0x00, 0xEE]);
    assert_eq!(vm.execute_cycle(&no_keys(), 0), Err(Chip8Error::StackUnderflow));
    assert_eq!(vm.sp, 0);
}

#[test]
fn fetch_past_end_of_memory_fails() {
    let mut vm = Chip8Vm::new(1);
    vm.pc = 0xFFF;
    assert_eq!(vm.execute_cycle(&no_keys(), 0), Err(Chip8Error::OutOfBounds));
    vm.pc = 0xFFE;
    assert_eq!(vm.fetch(), Ok(0x0000));
}

#[test]
fn draw_past_end_of_memory_fails() {
    let mut vm = Chip8Vm::new(1);
    vm.i = 0xFFE;
    assert_eq!(vm.draw(0xD015), Err(Chip8Error::OutOfBounds));
    assert_eq!(vm.draw(0xD012), Ok(()));
}

#[test]
fn oversized_program_is_refused() {
    let mut vm = Chip8Vm::new(1);
    let too_big = vec![0xAAu8; MEMORY_SIZE - PROGRAM_START + 1];
    assert_eq!(vm.load_game(&too_big), Err(Chip8Error::ProgramTooLarge));
    assert_eq!(vm.ram.read(PROGRAM_START), Ok(0));
    let fits = vec![0xAAu8; MEMORY_SIZE - PROGRAM_START];
    assert_eq!(vm.load_game(&fits), Ok(()));
    assert_eq!(vm.ram.read(MEMORY_SIZE - 1), Ok(0xAA));
    assert_eq!(vm.ram.read(PROGRAM_START - 1), Ok(0));
}

#[test]
fn font_is_resident_and_addressed_by_digit() {
    let ram = Ram::default();
    assert_eq!(ram.read_range(FONT_BASE, 5), Ok(vec![0xF0, 0x90, 0x90, 0x90, 0xF0]));
    assert_eq!(ram.read_range(FONT_BASE + 75, 5), Ok(vec![0xF0, 0x80, 0xF0, 0x80, 0x80]));
    assert_eq!(ram.read(FONT_BASE - 1), Ok(0));
    assert_eq!(ram.read(FONT_BASE + 80), Ok(0));
    assert_eq!(ram.read(MEMORY_SIZE), Err(Chip8Error::OutOfBounds));
    let mut vm = Chip8Vm::new(1);
    vm.v[3] = 0xA;
    vm.sprite_addr(0xF329);
    assert_eq!(vm.i, 0x50 + 50);
}

#[test]
fn memory_write_and_range_bounds() {
    let mut ram = Ram::new();
    assert_eq!(ram.write(0xFFF, 9), Ok(()));
    assert_eq!(ram.read(0xFFF), Ok(9));
    assert_eq!(ram.write(0x1000, 9), Err(Chip8Error::OutOfBounds));
    assert_eq!(ram.read_range(0xFFE, 3), Err(Chip8Error::OutOfBounds));
    assert_eq!(ram.write_range(0xFFE, &[1, 2, 3]), Err(Chip8Error::OutOfBounds));
    assert_eq!(ram.write_range(0xFFD, &[1, 2, 3]), Ok(()));
    assert_eq!(ram.read_range(0xFFD, 3), Ok(vec![1, 2, 3]));
}

#[test]
fn bcd_writes_three_digits() {
    let mut vm = Chip8Vm::new(1);
    vm.v[7] = 234;
    vm.i = 0x300;
    vm.bcd(0xF733).unwrap();
    assert_eq!(vm.ram.read_range(0x300, 3), Ok(vec![2, 3, 4]));
    vm.i = 0xFFE;
    assert_eq!(vm.bcd(0xF733), Err(Chip8Error::OutOfBounds));
}

#[test]
fn store_and_read_registers() {
    let mut vm = Chip8Vm::new(1);
    for k in 0..16 {
        vm.v[k] = (k as u8) * 3 + 1;
    }
    vm.i = 0x400;
    vm.store(0xF355).unwrap();
    assert_eq!(vm.ram.read_range(0x400, 5), Ok(vec![1, 4, 7, 10, 0]));
    let mut other = Chip8Vm::new(1);
    other.ram.write_range(0x400, &[9, 8, 7, 6, 5]).unwrap();
    other.i = 0x400;
    other.read(0xF265).unwrap();
    assert_eq!(&other.v[0..4], &[9, 8, 7, 0]);
    other.i = 0xFFF;
    assert_eq!(other.read(0xF165), Err(Chip8Error::OutOfBounds));
}

#[test]
fn timers_decay_at_sixty_hertz_and_stop_at_zero() {
    let mut vm = vm_with_program(&[0x12, 0x00]);
    vm.dt = 2;
    vm.st = 1;
    let keys = no_keys();
    vm.execute_cycle(&keys, TIMER_PERIOD_US - 1).unwrap();
    assert_eq!((vm.dt, vm.st), (2, 1));
    vm.execute_cycle(&keys, TIMER_PERIOD_US).unwrap();
    assert_eq!((vm.dt, vm.st), (1, 0));
    vm.execute_cycle(&keys, 2 * TIMER_PERIOD_US).unwrap();
    assert_eq!((vm.dt, vm.st), (0, 0));
    vm.execute_cycle(&keys, 3 * TIMER_PERIOD_US).unwrap();
    assert_eq!((vm.dt, vm.st), (0, 0));
    assert_eq!(vm.last_tick_us, 3 * TIMER_PERIOD_US);
}

#[test]
fn pacing_sleeps_the_remainder() {
    assert_eq!(pacing_delay_us(0), CYCLE_PERIOD_US);
    assert_eq!(pacing_delay_us(400), 1029);
    assert_eq!(pacing_delay_us(CYCLE_PERIOD_US), 0);
    assert_eq!(pacing_delay_us(5000), 0);
}

#[test]
fn key_wait_suspends_until_a_key_is_pressed() {
    let mut vm = vm_with_program(&[0xF5, 0x0A, 0x12, 0x02]);
    let keys = no_keys();
    vm.execute_cycle(&keys, 0).unwrap();
    assert_eq!(vm.state, VmState::AwaitingKey(5));
    assert_eq!(vm.pc, 0x202);
    vm.execute_cycle(&keys, 0).unwrap();
    assert_eq!(vm.pc, 0x202);
    vm.press_key(16);
    assert_eq!(vm.state, VmState::AwaitingKey(5));
    let mut frontend = MockFrontEnd::default();
    let key = frontend.wait_for_keypress().unwrap();
    vm.press_key(key);
    assert_eq!(vm.state, VmState::Running);
    assert_eq!(vm.v[5], 0);
    vm.execute_cycle(&keys, 0).unwrap();
    assert_eq!(vm.pc, 0x202);
}

#[test]
fn key_skips_read_the_key_state() {
    let mut keys = Keys::default();
    keys.set(0xB, true);
    let mut vm = Chip8Vm::new(1);
    vm.v[1] = 0xB;
    vm.skip_key(0xE19E, &keys);
    assert_eq!(vm.pc, 0x202);
    vm.skip_not_key(0xE1A1, &keys);
    assert_eq!(vm.pc, 0x202);
    vm.v[1] = 0x20;
    vm.skip_not_key(0xE1A1, &keys);
    assert_eq!(vm.pc, 0x204);
    assert!(keys.is_down(0xB));
    assert!(!keys.is_down(0xA));
}

#[test]
fn random_byte_is_masked_and_seeded() {
    let mut a = Chip8Vm::new(42);
    let mut b = Chip8Vm::new(42);
    for _ in 0..32 {
        a.rand(0xC30F);
        b.rand(0xC30F);
        assert_eq!(a.v[3] & 0xF0, 0);
        assert_eq!(a.v[3], b.v[3]);
    }
    let mut c = Chip8Vm::new(1);
    c.rand_with(0xC30F, 0xAB);
    assert_eq!(c.v[3], 0x0B);
}

#[test]
fn clear_instruction_flags_redraw() {
    let mut vm = vm_with_program(&[0xA0, 0x50, 0xD0, 0x05, 0x00, 0xE0]);
    let keys = no_keys();
    vm.execute_cycle(&keys, 0).unwrap();
    assert!(!vm.draw_flag);
    vm.execute_cycle(&keys, 0).unwrap();
    assert!(vm.draw_flag);
    assert_eq!(vm.v[0xF], 0);
    assert_eq!(vm.display_data.get(0), 1);
    vm.execute_cycle(&keys, 0).unwrap();
    assert!(vm.draw_flag);
    assert!(lit_pixels(&vm.display_data).is_empty());
}

#[test]
fn keyboard_layout_maps_to_keypad() {
    assert_eq!(get_key_index('1'), Some(0x1));
    assert_eq!(get_key_index('4'), Some(0xC));
    assert_eq!(get_key_index('q'), Some(0x4));
    assert_eq!(get_key_index('R'), Some(0xD));
    assert_eq!(get_key_index('x'), Some(0x0));
    assert_eq!(get_key_index('v'), Some(0xF));
    assert_eq!(get_key_index('p'), None);
}

#[test]
fn opcode_fields() {
    assert_eq!(get_address(0xABCD), 0xBCD);
    assert_eq!(get_nibble(0xABCD), 0xD);
    assert_eq!(get_x(0xABCD), 0xB);
    assert_eq!(get_y(0xABCD), 0xC);
    assert_eq!(get_byte(0xABCD), 0xCD);
}

#[test]
fn hex_digit_helpers() {
    assert_eq!(lsh(0xABCD, 1), 0xD);
    assert_eq!(lsh(0xABCD, 2), 0xB0);
    assert_eq!(lsh(0xABCD, 3), 0);
    assert_eq!(opcode_lsh(0xABCD, 3), 0xA);
    assert_eq!(lsh1(0x1234), 0x4);
    assert_eq!(lsh2(0x1234), 0x20);
    assert_eq!(lsh3(0x1234), 0x1);
    assert_eq!(l2sh(0x1234), 0x34);
}
