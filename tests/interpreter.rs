use pc8::display::Graphics;
use pc8::keypad::{is_any_key_down, is_key_down, Keypad};
use pc8::machine::VmFault;
use pc8::memory::Memory;
use pc8::opcodes::DecodedOpcode;
use pc8::vm::VM;

fn boot(rom: &[u8]) -> VM {
    let mut vm = VM::new();
    vm.load_rom(rom);
    vm
}

fn run(vm: &mut VM, steps: usize) {
    let keys = Keypad::new();
    for _ in 0..steps {
        vm.step(&keys, 0).unwrap();
    }
}

#[test]
fn decode_splits_fields() {
    let d = DecodedOpcode::from(0xD12F);
    assert_eq!(d.opcode, 0xD12F);
    assert_eq!(d.instr_type, 0xD);
    assert_eq!(d.X, 0x1);
    assert_eq!(d.Y, 0x2);
    assert_eq!(d.N, 0xF);
    assert_eq!(d.NN, 0x2F);
    assert_eq!(d.NNN, 0x12F);
}

#[test]
fn new_machine_starts_at_program_start() {
    let vm = VM::new();
    assert_eq!(vm.PC, 0x200);
    assert_eq!(vm.I, 0);
    assert_eq!(vm.speed(), 10);
    assert_eq!(vm.stack_depth(), 0);
    assert_eq!(vm.waiting_for_key(), None);
}

#[test]
fn load_rom_places_program_and_font() {
    let vm = boot(&[0x12, 0x34]);
    assert_eq!(vm.memory_at(0x200), 0x12);
    assert_eq!(vm.memory_at(0x201), 0x34);
    assert_eq!(vm.memory_at(0x50), 0xF0);
    assert_eq!(vm.memory_at(0x55), 0x20);
    assert_eq!(vm.memory_at(0x9F), 0x80);
    assert_eq!(vm.memory_at(0xA0), 0x00);
}

#[test]
fn load_immediate_sets_register() {
    let mut vm = boot(&[0x6A, 0x42]);
    run(&mut vm, 1);
    assert_eq!(vm.register(0xA), 0x42);
    assert_eq!(vm.PC, 0x202);
}

#[test]
fn add_immediate_wraps() {
    let mut vm = boot(&[0x63, 0xFF, 0x73, 0x02]);
    run(&mut vm, 2);
    assert_eq!(vm.register(3), 0x01);
    assert_eq!(vm.register(0xF), 0);
}

#[test]
fn call_then_return_resumes_after_call() {
    let mut vm = boot(&[0x22, 0x06, 0x00, 0x00, 0x00, 0x00, 0x00, 0xEE]);
    run(&mut vm, 1);
    assert_eq!(vm.PC, 0x206);
    assert_eq!(vm.stack_depth(), 1);
    run(&mut vm, 1);
    assert_eq!(vm.PC, 0x202);
    assert_eq!(vm.stack_depth(), 0);
}

#[test]
fn return_on_empty_stack_faults() {
    let mut vm = boot(&[0x00, 0xEE]);
    let keys = Keypad::new();
    assert_eq!(vm.step(&keys, 0), Err(VmFault::StackUnderflow(DecodedOpcode::from(0x00EE))));
    assert_eq!(vm.PC, 0x200);
}

#[test]
fn unknown_word_faults() {
    let mut vm = boot(&[0xB1, 0x23]);
    let keys = Keypad::new();
    assert_eq!(vm.step(&keys, 0), Err(VmFault::Unimplemented(DecodedOpcode::from(0xB123))));
    let mut vm = boot(&[0x81, 0x27]);
    assert_eq!(vm.step(&keys, 0), Err(VmFault::Unimplemented(DecodedOpcode::from(0x8127))));
}

#[test]
fn access_past_memory_faults() {
    let keys = Keypad::new();
    let mut vm = boot(&[0xAF, 0xFF, 0xF0, 0x33]);
    run(&mut vm, 1);
    assert_eq!(vm.step(&keys, 0), Err(VmFault::AddressOutOfRange(0x1001)));
    assert_eq!(vm.PC, 0x202);
    let mut vm = boot(&[0x1F, 0xFF]);
    run(&mut vm, 1);
    assert_eq!(vm.PC, 0xFFF);
    assert_eq!(vm.step(&keys, 0), Err(VmFault::AddressOutOfRange(0x1000)));
}

#[test]
fn jump_lands_on_target() {
    let mut vm = boot(&[0x13, 0x00]);
    run(&mut vm, 1);
    assert_eq!(vm.PC, 0x300);
}

#[test]
fn skips_pass_over_next_word() {
    let mut vm = boot(&[0x60, 0x05, 0x30, 0x05, 0x00, 0x00, 0x40, 0x05, 0x51, 0x20]);
    run(&mut vm, 2);
    assert_eq!(vm.PC, 0x206);
    run(&mut vm, 1);
    assert_eq!(vm.PC, 0x208);
}

#[test]
fn draw_clips_at_edges() {
    let mut vm = boot(&[0x60, 0x3C, 0x61, 0x1E, 0xA0, 0x50, 0xD0, 0x15]);
    run(&mut vm, 4);
    assert_eq!(vm.graphics.get_pixel(60, 30), 1);
    assert_eq!(vm.graphics.get_pixel(63, 30), 1);
    assert_eq!(vm.graphics.get_pixel(60, 31), 1);
    assert_eq!(vm.graphics.get_pixel(61, 31), 0);
    assert_eq!(vm.graphics.get_pixel(0, 30), 0);
    assert_eq!(vm.graphics.get_pixel(60, 0), 0);
    assert_eq!(vm.graphics.get_pixel(0, 0), 0);
}

#[test]
fn draw_wraps_start_coordinates() {
    let mut vm = boot(&[0x60, 0x41, 0x61, 0x22, 0xA0, 0x50, 0xD0, 0x11]);
    run(&mut vm, 4);
    assert_eq!(vm.graphics.get_pixel(1, 2), 1);
    assert_eq!(vm.graphics.get_pixel(4, 2), 1);
    assert_eq!(vm.graphics.get_pixel(5, 2), 0);
}

#[test]
fn drawing_twice_reports_collision_and_restores() {
    let mut vm = boot(&[0xA2, 0x08, 0xD0, 0x01, 0xD0, 0x01, 0x00, 0x00, 0xFF]);
    run(&mut vm, 2);
    for x in 0..8 {
        assert_eq!(vm.graphics.get_pixel(x, 0), 1);
    }
    assert_eq!(vm.register(0xF), 0);
    run(&mut vm, 1);
    for x in 0..8 {
        assert_eq!(vm.graphics.get_pixel(x, 0), 0);
    }
    assert_eq!(vm.register(0xF), 1);
}

#[test]
fn zero_sprite_bits_count_as_turned_off() {
    let mut vm = boot(&[0xA2, 0x04, 0xD0, 0x01, 0x0F]);
    run(&mut vm, 2);
    assert_eq!(vm.register(0xF), 1);
    assert_eq!(vm.graphics.get_pixel(3, 0), 0);
    assert_eq!(vm.graphics.get_pixel(4, 0), 1);
}

#[test]
fn store_then_load_round_trip() {
    let rom = [
        0x60, 0x01, 0x61, 0x02, 0x62, 0x03, 0xA3, 0x00, 0xF2, 0x55, 0x60, 0x00, 0x61, 0x00, 0x62,
        0x00, 0xF2, 0x65,
    ];
    let mut vm = boot(&rom);
    run(&mut vm, 5);
    assert_eq!(vm.memory_at(0x300), 1);
    assert_eq!(vm.memory_at(0x301), 2);
    assert_eq!(vm.memory_at(0x302), 3);
    assert_eq!(vm.memory_at(0x303), 0);
    run(&mut vm, 3);
    assert_eq!(vm.register(0), 0);
    run(&mut vm, 1);
    assert_eq!(vm.register(0), 1);
    assert_eq!(vm.register(1), 2);
    assert_eq!(vm.register(2), 3);
    assert_eq!(vm.I, 0x300);
}

#[test]
fn bcd_of_234() {
    let mut vm = boot(&[0x60, 0xEA, 0xA3, 0x00, 0xF0, 0x33]);
    run(&mut vm, 3);
    assert_eq!(vm.memory_at(0x300), 2);
    assert_eq!(vm.memory_at(0x301), 3);
    assert_eq!(vm.memory_at(0x302), 4);
}

#[test]
fn clear_turns_every_pixel_off() {
    let mut vm = boot(&[0xA0, 0x50, 0xD0, 0x05, 0x00, 0xE0]);
    run(&mut vm, 2);
    assert_eq!(vm.graphics.get_pixel(0, 0), 1);
    run(&mut vm, 1);
    for y in 0..32 {
        for x in 0..64 {
            assert_eq!(vm.graphics.get_pixel(x, y), 0);
        }
    }
}

#[test]
fn delay_timer_counts_down_per_step() {
    let mut vm = boot(&[0x60, 0x06, 0xF0, 0x15, 0x12, 0x04]);
    run(&mut vm, 2);
    assert_eq!(vm.delay_timer(), 5);
    vm.set_speed(3);
    let keys = Keypad::new();
    assert_eq!(vm.cycle(&keys), Ok(0));
    assert_eq!(vm.delay_timer(), 2);
    assert_eq!(vm.PC, 0x204);
}

#[test]
fn delay_timer_is_read_back() {
    let mut vm = boot(&[0x60, 0x09, 0xF0, 0x15, 0xF1, 0x07]);
    run(&mut vm, 3);
    assert_eq!(vm.register(1), 8);
}

#[test]
fn sound_timer_beeps_once() {
    let mut vm = boot(&[0x60, 0x02, 0xF0, 0x18, 0x12, 0x04]);
    let keys = Keypad::new();
    assert_eq!(vm.step(&keys, 0), Ok(false));
    assert_eq!(vm.step(&keys, 0), Ok(false));
    assert_eq!(vm.sound_timer(), 1);
    assert_eq!(vm.step(&keys, 0), Ok(true));
    assert_eq!(vm.sound_timer(), 0);
    assert_eq!(vm.step(&keys, 0), Ok(false));
    assert_eq!(vm.step(&keys, 0), Ok(false));
}

#[test]
fn run_steps_counts_beeps() {
    let mut vm = boot(&[0x60, 0x02, 0xF0, 0x18, 0x12, 0x04]);
    let keys = Keypad::new();
    assert_eq!(vm.run_steps(&keys, &[0, 0, 0, 0, 0]), Ok(1));
}

#[test]
fn negative_speed_runs_nothing() {
    let mut vm = boot(&[0x60, 0x02]);
    vm.set_speed(-10);
    let keys = Keypad::new();
    assert_eq!(vm.cycle(&keys), Ok(0));
    assert_eq!(vm.PC, 0x200);
}

#[test]
fn wait_for_key_blocks_until_pressed() {
    let mut vm = boot(&[0x60, 0x05, 0xF0, 0x15, 0xF3, 0x0A, 0x12, 0x06]);
    let mut keys = Keypad::new();
    run(&mut vm, 3);
    assert_eq!(vm.waiting_for_key(), Some(3));
    assert_eq!(vm.PC, 0x206);
    assert_eq!(vm.step(&keys, 0), Ok(false));
    assert_eq!(vm.PC, 0x206);
    assert_eq!(vm.register(3), 0);
    assert_eq!(vm.delay_timer(), 2);
    keys.set(7, true);
    keys.set(9, true);
    assert_eq!(vm.step(&keys, 0), Ok(false));
    assert_eq!(vm.register(3), 7);
    assert_eq!(vm.waiting_for_key(), None);
    assert_eq!(vm.PC, 0x206);
    assert_eq!(vm.step(&keys, 0), Ok(false));
    assert_eq!(vm.PC, 0x206);
}

#[test]
fn key_skips_follow_keypad() {
    let mut keys = Keypad::new();
    keys.set(0xA, true);
    let mut vm = boot(&[0x60, 0x1A, 0xE0, 0x9E, 0x00, 0x00, 0xE0, 0xA1]);
    vm.step(&keys, 0).unwrap();
    vm.step(&keys, 0).unwrap();
    assert_eq!(vm.PC, 0x206);
    vm.step(&keys, 0).unwrap();
    assert_eq!(vm.PC, 0x208);
}

#[test]
fn random_byte_is_masked() {
    let keys = Keypad::new();
    let mut vm = boot(&[]);
    vm.execute_with(0xC00F, &keys, 0xAB).unwrap();
    assert_eq!(vm.register(0), 0x0B);
    vm.execute(0xC100, &keys).unwrap();
    assert_eq!(vm.register(1), 0);
}

#[test]
fn alu_operations() {
    let keys = Keypad::new();
    let mut vm = boot(&[]);
    vm.execute_with(0x60F0, &keys, 0).unwrap();
    vm.execute_with(0x613C, &keys, 0).unwrap();
    vm.execute_with(0x8011, &keys, 0).unwrap();
    assert_eq!(vm.register(0), 0xFC);
    vm.execute_with(0x8012, &keys, 0).unwrap();
    assert_eq!(vm.register(0), 0x3C);
    vm.execute_with(0x8013, &keys, 0).unwrap();
    assert_eq!(vm.register(0), 0x00);
    vm.execute_with(0x8015, &keys, 0).unwrap();
    assert_eq!(vm.register(0), 0xC4);
    assert_eq!(vm.register(0xF), 0);
    vm.execute_with(0x8014, &keys, 0).unwrap();
    assert_eq!(vm.register(0), 0x00);
    vm.execute_with(0x8010, &keys, 0).unwrap();
    assert_eq!(vm.register(0), 0x3C);
    vm.execute_with(0x8016, &keys, 0).unwrap();
    assert_eq!(vm.register(0), 0x1E);
}

#[test]
fn shift_left_flags_low_bit() {
    let keys = Keypad::new();
    let mut vm = boot(&[]);
    vm.execute_with(0x6081, &keys, 0).unwrap();
    vm.execute_with(0x800E, &keys, 0).unwrap();
    assert_eq!(vm.register(0), 0x02);
    assert_eq!(vm.register(0xF), 1);
}

#[test]
fn index_operations() {
    let keys = Keypad::new();
    let mut vm = boot(&[]);
    vm.execute_with(0x600A, &keys, 0).unwrap();
    vm.execute_with(0xF029, &keys, 0).unwrap();
    assert_eq!(vm.I, 0x82);
    vm.execute_with(0xF01E, &keys, 0).unwrap();
    assert_eq!(vm.I, 0x8C);
    vm.execute_with(0xAFFF, &keys, 0).unwrap();
    vm.execute_with(0x60FF, &keys, 0).unwrap();
    vm.execute_with(0xF01E, &keys, 0).unwrap();
    assert_eq!(vm.I, 0x10FE);
}

#[test]
fn reset_keeps_registers() {
    let mut vm = boot(&[0x60, 0x07, 0xA0, 0x50, 0xD0, 0x05]);
    run(&mut vm, 3);
    vm.reset();
    assert_eq!(vm.PC, 0x200);
    assert_eq!(vm.register(0), 7);
    assert_eq!(vm.graphics.get_pixel(0, 0), 0);
}

#[test]
fn keypad_queries() {
    let mut keys = Keypad::new();
    assert_eq!(is_any_key_down(&keys), None);
    keys.set(0xC, true);
    keys.set(0x4, true);
    assert_eq!(is_any_key_down(&keys), Some(4));
    assert!(is_key_down(&keys, 0xC));
    assert!(!is_key_down(&keys, 0x0));
    keys.set(0x4, false);
    assert_eq!(is_any_key_down(&keys), Some(0xC));
}

#[test]
fn memory_reads_and_writes() {
    let mut m = Memory::new();
    m.write(0xFFF, 9);
    assert_eq!(m.read(0xFFF), 9);
    m.write_array(0x10, &[1, 2, 3]);
    assert_eq!(m.read(0x0F), 0);
    assert_eq!(m.read(0x10), 1);
    assert_eq!(m.read(0x12), 3);
    assert_eq!(m.read(0x13), 0);
}

#[test]
fn flip_pixel_reports_turned_off() {
    let mut g = Graphics::new();
    assert!(!g.flip_pixel(63, 31, 1));
    assert_eq!(g.get_pixel(63, 31), 1);
    assert!(g.flip_pixel(63, 31, 1));
    assert!(g.flip_pixel(0, 0, 0));
    g.flip_pixel(5, 5, 1);
    g.clear();
    assert_eq!(g.get_pixel(5, 5), 0);
}
