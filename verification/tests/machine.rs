use lc3_vm::hardware::register::{Registers, FL_NEG, FL_POS, FL_ZRO, PC_START};
use lc3_vm::hardware::vm::{MemmoryMappedReg, VM};
use lc3_vm::hardware::{can_step, keyboard_poll_needed, step, MEMORY_SIZE};
use lc3_vm::hardware::instruction::TrapRequest;
use lc3_vm::loader::{image_fits_memory, load_program};

fn machine() -> Box<VM> {
    Box::new(VM::new())
}

#[test]
fn new_machine_is_zeroed_and_starts_at_pc_start() {
    let mut vm = machine();
    assert_eq!(vm.registers.pc, 0x3000);
    assert_eq!(vm.registers.pc, PC_START);
    assert_eq!(vm.registers.cond, FL_ZRO);
    for r in 0..8u16 {
        assert_eq!(vm.registers.get(r), 0);
    }
    assert_eq!(vm.read_mem(0), 0);
    assert_eq!(vm.read_mem(0x3000), 0);
    assert_eq!(vm.read_mem(0xFFFF), 0);
    assert_eq!(MEMORY_SIZE, 65536);
}

#[test]
fn write_then_read_memory() {
    let mut vm = machine();
    vm.write_mem(0x1234, 0xABCD);
    assert_eq!(vm.read_mem(0x1234), 0xABCD);
    assert_eq!(vm.read_mem(0x1235), 0);
    vm.write_mem(0x1234, 7);
    assert_eq!(vm.read_mem(0x1234), 7);
    vm.write_mem(0xFFFF, 9);
    assert_eq!(vm.read_mem(0xFFFF), 9);
    assert_eq!(vm.read_mem(0xFFFE), 0);
}

#[test]
fn registers_update_and_condition_codes() {
    let mut regs = Registers::new();
    regs.update(3, 0x8000);
    assert_eq!(regs.get(3), 0x8000);
    assert_eq!(regs.r3, 0x8000);
    regs.update_cond(3);
    assert_eq!(regs.cond, FL_NEG);
    regs.update(3, 1);
    regs.update_cond(3);
    assert_eq!(regs.cond, FL_POS);
    regs.update_cond(0);
    assert_eq!(regs.cond, FL_ZRO);
    regs.update(7, 42);
    assert_eq!(regs.r7, 42);
    assert_eq!(regs.get(6), 0);
}

#[test]
fn keyboard_registers() {
    let mut vm = machine();
    assert_eq!(MemmoryMappedReg::Kbsr.address(), 0xFE00);
    assert_eq!(MemmoryMappedReg::Kbdr.address(), 0xFE02);
    vm.handle_keyboard(b'a');
    assert_eq!(vm.read_mem(0xFE00), 0x8000);
    assert_eq!(vm.read_mem(0xFE02), 0x61);
    vm.handle_keyboard(0);
    assert_eq!(vm.read_mem(0xFE00), 0);
    assert_eq!(vm.read_mem(0xFE02), 0x61);
}

#[test]
fn load_program_places_words_from_origin() {
    let mut vm = machine();
    let image = [0x30, 0x00, 0x12, 0x34, 0xAB, 0xCD, 0xFF];
    assert!(image_fits_memory(&image));
    load_program(&mut vm, &image);
    assert_eq!(vm.read_mem(0x3000), 0x1234);
    assert_eq!(vm.read_mem(0x3001), 0xABCD);
    assert_eq!(vm.read_mem(0x3002), 0);
    assert_eq!(vm.read_mem(0x2FFF), 0);
    assert_eq!(vm.registers.pc, PC_START);
}

#[test]
fn image_fits_memory_checks_origin_and_size() {
    assert!(!image_fits_memory(&[]));
    assert!(!image_fits_memory(&[0x30]));
    assert!(image_fits_memory(&[0x30, 0x00]));
    assert!(image_fits_memory(&[0xFF, 0xFF, 0x00, 0x01]));
    assert!(!image_fits_memory(&[0xFF, 0xFF, 0x00, 0x01, 0x00, 0x02]));
    assert!(image_fits_memory(&[0xFF, 0xFE, 0x00, 0x01, 0x00, 0x02]));
}

#[test]
fn step_fetches_advances_and_executes() {
    let mut vm = machine();
    // ADD R0, R0, #5 ; BRp -2 (back to itself) ; TRAP HALT
    let image = [0x30, 0x00, 0x10, 0x25, 0x03, 0xFF, 0xF0, 0x25];
    load_program(&mut vm, &image);
    assert!(can_step(&vm));
    assert_eq!(step(&mut vm), None);
    assert_eq!(vm.registers.r0, 5);
    assert_eq!(vm.registers.pc, 0x3001);
    vm.registers.cond = FL_ZRO;
    assert_eq!(step(&mut vm), None);
    assert_eq!(vm.registers.pc, 0x3002);
    assert_eq!(step(&mut vm), Some(TrapRequest::Halt));
    assert_eq!(vm.registers.pc, 0x3003);
}

#[test]
fn step_runs_a_small_program() {
    let mut vm = machine();
    // LEA R0, +2 ; PUTS ; HALT ; "Hi" 0
    let image = [
        0x30, 0x00, 0xE0, 0x02, 0xF0, 0x22, 0xF0, 0x25, 0x00, 0x48, 0x00, 0x69, 0x00, 0x00,
    ];
    load_program(&mut vm, &image);
    assert_eq!(step(&mut vm), None);
    assert_eq!(vm.registers.r0, 0x3003);
    assert!(can_step(&vm));
    assert_eq!(step(&mut vm), Some(TrapRequest::PutString(vec![0x48, 0x69])));
    assert_eq!(step(&mut vm), Some(TrapRequest::Halt));
}

#[test]
fn step_at_the_end_of_memory_wraps_the_pc() {
    let mut vm = machine();
    vm.registers.pc = 0xFFFF;
    vm.write_mem(0xFFFF, 0x1021); // ADD R0, R0, #1
    assert!(can_step(&vm));
    assert_eq!(step(&mut vm), None);
    assert_eq!(vm.registers.r0, 1);
    assert_eq!(vm.registers.pc, 0x0000);
}

#[test]
fn keyboard_polling_before_a_status_load() {
    let mut vm = machine();
    // LDI R0, +1 ; (unused) ; .FILL 0xFE00
    load_program(&mut vm, &[0x30, 0x00, 0xA0, 0x01, 0x00, 0x00, 0xFE, 0x00]);
    assert!(keyboard_poll_needed(&vm));
    vm.handle_keyboard(b'k');
    assert_eq!(step(&mut vm), None);
    assert_eq!(vm.registers.r0, 0x8000);
    assert_eq!(vm.registers.cond, FL_NEG);
    assert!(!keyboard_poll_needed(&vm)); // the next word is not a load
    // LD R1, -2 from 0x3005 reads 0x3004, not the status register
    vm.registers.pc = 0x3005;
    vm.write_mem(0x3005, 0x23FE);
    assert!(!keyboard_poll_needed(&vm));
    // LDR R2, R3, #0 with R3 = 0xFE00
    vm.registers.r3 = 0xFE00;
    vm.write_mem(0x3005, 0x64C0);
    assert!(keyboard_poll_needed(&vm));
    // LDR from the data register does not poll
    vm.registers.r3 = 0xFE02;
    assert!(!keyboard_poll_needed(&vm));
}
