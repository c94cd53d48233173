use chip8::model::StepReport;
use chip8::model::VmError;
use chip8::vm::VM;

/// Flatten big-endian instruction words into ROM bytes.
fn program(words: &[u16]) -> Vec<u8> {
    let mut rom = Vec::new();
    for w in words {
        rom.push((w >> 8) as u8);
        rom.push((w & 0xFF) as u8);
    }
    rom
}

fn boot(rom: Vec<u8>) -> VM {
    let mut vm = VM::new();
    vm.load(&rom).unwrap();
    vm
}

fn run(vm: &mut VM, cycles: usize) {
    for _ in 0..cycles {
        assert_eq!(vm.cycle(), Ok(StepReport::Executed));
    }
}

#[test]
fn new_vm_starts_at_0x200() {
    let vm = VM::new();
    assert_eq!(vm.pc(), 0x200);
    assert_eq!(vm.sp(), 0);
    assert_eq!(vm.index(), 0);
    for x in 0..16 {
        assert_eq!(vm.register(x), 0);
    }
    assert_eq!(vm.delay_timer(), 0);
    assert_eq!(vm.sound_timer(), 0);
}

#[test]
fn load_accepts_a_full_rom() {
    let mut rom = vec![0u8; 3584];
    rom[0] = 0xAB;
    rom[3583] = 0xCD;
    let mut vm = VM::new();
    assert_eq!(vm.load(&rom), Ok(()));
    assert_eq!(vm.memory_at(0x200), 0xAB);
    assert_eq!(vm.memory_at(0xFFF), 0xCD);
}

#[test]
fn load_rejects_an_oversized_rom() {
    let rom = vec![0u8; 3585];
    let mut vm = VM::new();
    assert_eq!(vm.load(&rom), Err(VmError::RomTooLarge));
    assert_eq!(vm.memory_at(0x200), 0);
}

#[test]
fn jp_sets_pc_exactly() {
    let mut vm = boot(program(&[0x1300]));
    run(&mut vm, 1);
    assert_eq!(vm.pc(), 0x300);
}

#[test]
fn call_ret_round_trip() {
    let mut rom = vec![0u8; 0x102];
    rom[0] = 0x23; // CALL 0x300
    rom[1] = 0x00;
    rom[0x100] = 0x00; // RET at 0x300
    rom[0x101] = 0xEE;
    let mut vm = boot(rom);
    run(&mut vm, 1);
    assert_eq!(vm.pc(), 0x300);
    assert_eq!(vm.sp(), 1);
    run(&mut vm, 1);
    assert_eq!(vm.pc(), 0x202);
    assert_eq!(vm.sp(), 0);
}

#[test]
fn ret_on_empty_stack_faults() {
    let mut vm = boot(program(&[0x00EE]));
    assert_eq!(vm.cycle(), Err(VmError::StackUnderflow));
    assert_eq!(vm.pc(), 0x200);
}

#[test]
fn call_on_full_stack_faults() {
    // Seventeen CALLs, each targeting the next instruction.
    let mut words = Vec::new();
    for k in 0..17u16 {
        words.push(0x2000 | (0x202 + 2 * k));
    }
    let mut vm = boot(program(&words));
    run(&mut vm, 16);
    assert_eq!(vm.sp(), 16);
    assert_eq!(vm.cycle(), Err(VmError::StackOverflow));
    assert_eq!(vm.sp(), 16);
}

#[test]
fn add_reg_sets_carry() {
    // V0 = 200, V1 = 100, ADD V0, V1.
    let mut vm = boot(program(&[0x60C8, 0x6164, 0x8014]));
    run(&mut vm, 3);
    assert_eq!(vm.register(0), 44);
    assert_eq!(vm.register(0xF), 1);
}

#[test]
fn add_reg_without_carry() {
    let mut vm = boot(program(&[0x600A, 0x6114, 0x8014]));
    run(&mut vm, 3);
    assert_eq!(vm.register(0), 30);
    assert_eq!(vm.register(0xF), 0);
}

#[test]
fn add_imm_wraps_without_flag() {
    // V0 = 200, ADD V0, 100: wraps, VF untouched.
    let mut vm = boot(program(&[0x60C8, 0x7064]));
    run(&mut vm, 2);
    assert_eq!(vm.register(0), 44);
    assert_eq!(vm.register(0xF), 0);
}

#[test]
fn sub_reg_sets_not_borrow_flag() {
    // V0 = 20, V1 = 10, SUB V0, V1: 20 > 10 so VF = 1.
    let mut vm = boot(program(&[0x6014, 0x610A, 0x8015]));
    run(&mut vm, 3);
    assert_eq!(vm.register(0), 10);
    assert_eq!(vm.register(0xF), 1);
}

#[test]
fn sub_reg_wraps_on_borrow() {
    // V0 = 10, V1 = 20: result is (10 - 20) mod 256 = 246, VF = 0.
    let mut vm = boot(program(&[0x600A, 0x6114, 0x8015]));
    run(&mut vm, 3);
    assert_eq!(vm.register(0), 246);
    assert_eq!(vm.register(0xF), 0);
}

#[test]
fn subn_reg_subtracts_reversed() {
    // V0 = 10, V1 = 30, SUBN V0, V1: V0 = 30 - 10 = 20, VF = 1.
    let mut vm = boot(program(&[0x600A, 0x611E, 0x8017]));
    run(&mut vm, 3);
    assert_eq!(vm.register(0), 20);
    assert_eq!(vm.register(0xF), 1);
}

#[test]
fn shr_takes_original_bit0() {
    // V0 = 5: result 2, VF = 1.
    let mut vm = boot(program(&[0x6005, 0x8006]));
    run(&mut vm, 2);
    assert_eq!(vm.register(0), 2);
    assert_eq!(vm.register(0xF), 1);
}

#[test]
fn shl_takes_original_bit7() {
    // V0 = 0x81: result 2, VF = 1.
    let mut vm = boot(program(&[0x6081, 0x8008]));
    run(&mut vm, 2);
    assert_eq!(vm.register(0), 2);
    assert_eq!(vm.register(0xF), 1);
}

#[test]
fn mov_or_and_xor() {
    // V1 = 0b1100, V0 = V1, V2 = 0b1010; OR, AND, XOR against V2.
    let mut vm = boot(program(&[0x610C, 0x8010]));
    run(&mut vm, 2);
    assert_eq!(vm.register(0), 0x0C);
    let mut vm = boot(program(&[0x610C, 0x620A, 0x8121]));
    run(&mut vm, 3);
    assert_eq!(vm.register(1), 0x0E);
    let mut vm = boot(program(&[0x610C, 0x620A, 0x8122]));
    run(&mut vm, 3);
    assert_eq!(vm.register(1), 0x08);
    let mut vm = boot(program(&[0x610C, 0x620A, 0x8123]));
    run(&mut vm, 3);
    assert_eq!(vm.register(1), 0x06);
}

#[test]
fn skip_instructions_compare_as_documented() {
    // SE Vx, kk skips when equal.
    let mut vm = boot(program(&[0x6007, 0x3007]));
    run(&mut vm, 2);
    assert_eq!(vm.pc(), 0x206);
    // SE Vx, kk falls through when unequal.
    let mut vm = boot(program(&[0x6007, 0x3008]));
    run(&mut vm, 2);
    assert_eq!(vm.pc(), 0x204);
    // SNE Vx, kk skips when unequal.
    let mut vm = boot(program(&[0x6007, 0x4008]));
    run(&mut vm, 2);
    assert_eq!(vm.pc(), 0x206);
    // SE Vx, Vy skips when the registers match.
    let mut vm = boot(program(&[0x6007, 0x6107, 0x5010]));
    run(&mut vm, 3);
    assert_eq!(vm.pc(), 0x208);
    // SNE Vx, Vy skips when they differ.
    let mut vm = boot(program(&[0x6007, 0x6108, 0x9010]));
    run(&mut vm, 3);
    assert_eq!(vm.pc(), 0x208);
}

#[test]
fn ld_index_and_jp_v0() {
    let mut vm = boot(program(&[0xA123]));
    run(&mut vm, 1);
    assert_eq!(vm.index(), 0x123);
    let mut vm = boot(program(&[0x6005, 0xB300]));
    run(&mut vm, 2);
    assert_eq!(vm.pc(), 0x305);
}

#[test]
fn rnd_masked_with_zero_is_zero() {
    // V0 = random byte AND 0x00: always 0, whatever the source returned.
    let mut vm = boot(program(&[0x6077, 0xC000]));
    run(&mut vm, 2);
    assert_eq!(vm.register(0), 0);
    assert_eq!(vm.pc(), 0x204);
}

#[test]
fn rnd_with_explicit_byte_is_masked() {
    let mut vm = boot(program(&[0xC0F0]));
    assert_eq!(vm.cycle_with(0xAB), Ok(StepReport::Executed));
    assert_eq!(vm.register(0), 0xA0);
}

#[test]
fn draw_wraps_columns_at_64() {
    // An 8-pixel row drawn at x = 60 wraps columns 64..=67 to 0..=3.
    let mut vm = boot(program(&[0x603C, 0x6100, 0xA20A, 0xD011, 0x0000, 0xFF00]));
    run(&mut vm, 4);
    assert_eq!(vm.register(0xF), 0);
    for x in 60..64 {
        assert!(vm.pixel(x, 0));
    }
    for x in 0..4 {
        assert!(vm.pixel(x, 0));
    }
    assert!(!vm.pixel(4, 0));
    assert!(!vm.pixel(59, 0));
    assert!(!vm.pixel(60, 1));
}

#[test]
fn draw_twice_collides_and_erases() {
    let mut vm = boot(program(&[0x603C, 0x6100, 0xA20C, 0xD011, 0xD011, 0x0000, 0xFF00]));
    run(&mut vm, 5);
    assert_eq!(vm.register(0xF), 1);
    for x in 0..64 {
        assert!(!vm.pixel(x, 0));
    }
}

#[test]
fn draw_reads_multi_row_sprites() {
    // Two rows: 0x80 puts one pixel at the left edge of each row.
    let mut vm = boot(program(&[0x6000, 0x6100, 0xA20A, 0xD012, 0x0000, 0x8080]));
    run(&mut vm, 4);
    assert!(vm.pixel(0, 0));
    assert!(vm.pixel(0, 1));
    assert!(!vm.pixel(1, 0));
    assert_eq!(vm.register(0xF), 0);
}

#[test]
fn cls_clears_the_screen() {
    let mut vm = boot(program(&[0x6000, 0x6100, 0xA20A, 0xD011, 0x00E0, 0xFF00]));
    run(&mut vm, 5);
    for x in 0..8 {
        assert!(!vm.pixel(x, 0));
    }
}

#[test]
fn skp_skips_when_key_pressed() {
    let mut vm = boot(program(&[0x6004, 0xE09E]));
    vm.key(4, true);
    run(&mut vm, 2);
    assert_eq!(vm.pc(), 0x206);
}

#[test]
fn skp_falls_through_when_key_released() {
    let mut vm = boot(program(&[0x6004, 0xE09E]));
    vm.key(4, true);
    vm.key(4, false);
    run(&mut vm, 2);
    assert_eq!(vm.pc(), 0x204);
}

#[test]
fn sknp_skips_when_key_up() {
    let mut vm = boot(program(&[0x6004, 0xE0A1]));
    run(&mut vm, 2);
    assert_eq!(vm.pc(), 0x206);
}

#[test]
fn wait_key_rewinds_pc_when_no_key_down() {
    let mut vm = boot(program(&[0xF00A]));
    run(&mut vm, 1);
    assert_eq!(vm.pc(), 0x200);
    // Still waiting on the next cycle.
    run(&mut vm, 1);
    assert_eq!(vm.pc(), 0x200);
}

#[test]
fn wait_key_takes_lowest_pressed_key() {
    let mut vm = boot(program(&[0xF00A]));
    vm.key(7, true);
    vm.key(3, true);
    run(&mut vm, 1);
    assert_eq!(vm.register(0), 3);
    assert_eq!(vm.pc(), 0x202);
}

#[test]
fn delay_timer_roundtrip() {
    let mut vm = boot(program(&[0xF007]));
    vm.set_delay_timer(42);
    run(&mut vm, 1);
    assert_eq!(vm.register(0), 42);
    let mut vm = boot(program(&[0x6007, 0xF015]));
    run(&mut vm, 2);
    assert_eq!(vm.delay_timer(), 7);
}

#[test]
fn sound_timer_is_set_from_register() {
    let mut vm = boot(program(&[0x6005, 0xF018]));
    run(&mut vm, 2);
    assert_eq!(vm.sound_timer(), 5);
}

#[test]
fn add_index_accumulates() {
    let mut vm = boot(program(&[0xA100, 0x6005, 0xF01E]));
    run(&mut vm, 3);
    assert_eq!(vm.index(), 0x105);
}

#[test]
fn font_address_is_five_bytes_per_glyph() {
    let mut vm = boot(program(&[0x6003, 0xF029]));
    run(&mut vm, 2);
    assert_eq!(vm.index(), 0x50 + 5 * 3);
}

#[test]
fn bcd_stores_decimal_digits_of_255() {
    let mut vm = boot(program(&[0x60FF, 0xA300, 0xF033]));
    run(&mut vm, 3);
    assert_eq!(vm.memory_at(0x300), 2);
    assert_eq!(vm.memory_at(0x301), 5);
    assert_eq!(vm.memory_at(0x302), 5);
}

#[test]
fn bcd_stores_single_digit() {
    let mut vm = boot(program(&[0x6007, 0xA300, 0xF033]));
    run(&mut vm, 3);
    assert_eq!(vm.memory_at(0x300), 0);
    assert_eq!(vm.memory_at(0x301), 0);
    assert_eq!(vm.memory_at(0x302), 7);
}

#[test]
fn store_and_load_register_block() {
    // Store V0..=V2 at 0x300, zero the registers, then load them back.
    let mut vm = boot(program(&[
        0x6001, 0x6102, 0x6203, 0xA300, 0xF255, 0x6000, 0x6100, 0x6200, 0xF265,
    ]));
    run(&mut vm, 5);
    assert_eq!(vm.memory_at(0x300), 1);
    assert_eq!(vm.memory_at(0x301), 2);
    assert_eq!(vm.memory_at(0x302), 3);
    run(&mut vm, 3);
    assert_eq!(vm.register(0), 0);
    run(&mut vm, 1);
    assert_eq!(vm.register(0), 1);
    assert_eq!(vm.register(1), 2);
    assert_eq!(vm.register(2), 3);
    // V3 is beyond the copied block and stays untouched.
    assert_eq!(vm.register(3), 0);
}

#[test]
fn sys_is_a_no_op() {
    let mut vm = boot(program(&[0x0123]));
    run(&mut vm, 1);
    assert_eq!(vm.pc(), 0x202);
    assert_eq!(vm.sp(), 0);
}

#[test]
fn unknown_opcode_is_reported_and_skipped() {
    let mut vm = boot(program(&[0xFFFF, 0x6009]));
    assert_eq!(vm.cycle(), Ok(StepReport::UnknownOpcode(0xFFFF)));
    assert_eq!(vm.pc(), 0x202);
    run(&mut vm, 1);
    assert_eq!(vm.register(0), 9);
}
