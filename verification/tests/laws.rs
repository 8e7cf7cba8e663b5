use lc3_vm::hardware::instruction::exec_instr;
use lc3_vm::hardware::register::{FL_NEG, FL_POS, FL_ZRO};
use lc3_vm::hardware::vm::VM;

fn machine() -> Box<VM> {
    Box::new(VM::new())
}

fn one_cond_set(c: u16) -> bool {
    c == FL_POS || c == FL_ZRO || c == FL_NEG
}

#[test]
fn read_gives_back_write_and_nothing_else_moves() {
    let mut vm = machine();
    vm.write_mem(10, 1);
    vm.write_mem(11, 2);
    vm.write_mem(10, 3);
    assert_eq!(vm.read_mem(10), 3);
    assert_eq!(vm.read_mem(11), 2);
    assert_eq!(vm.registers.pc, 0x3000);
}

#[test]
fn jsr_then_ret_returns() {
    let mut vm = machine();
    vm.registers.pc = 0x3005;
    exec_instr(0x4820, &mut vm); // JSR +32
    assert_eq!(vm.registers.pc, 0x3025);
    exec_instr(0xC1C0, &mut vm); // RET
    assert_eq!(vm.registers.pc, 0x3005);
    vm.registers.r2 = 0x5000;
    exec_instr(0x4080, &mut vm); // JSRR R2
    exec_instr(0xC1C0, &mut vm);
    assert_eq!(vm.registers.pc, 0x3005);
}

#[test]
fn not_twice_restores() {
    let mut vm = machine();
    vm.registers.r5 = 0x1234;
    exec_instr(0x9B7F, &mut vm); // NOT R5, R5
    assert_eq!(vm.registers.r5, 0xEDCB);
    exec_instr(0x9B7F, &mut vm);
    assert_eq!(vm.registers.r5, 0x1234);
}

#[test]
fn br_masks() {
    for cond in [FL_NEG, FL_ZRO, FL_POS] {
        let mut vm = machine();
        vm.registers.cond = cond;
        exec_instr(0x0E03, &mut vm); // BRnzp +3
        assert_eq!(vm.registers.pc, 0x3003);
        exec_instr(0x0003, &mut vm); // BR with no mask
        assert_eq!(vm.registers.pc, 0x3003);
    }
}

#[test]
fn store_then_load_reads_back() {
    let mut vm = machine();
    vm.registers.r1 = 0x7777;
    exec_instr(0x3210, &mut vm); // ST R1, +16
    exec_instr(0x2410, &mut vm); // LD R2, +16
    assert_eq!(vm.registers.r2, 0x7777);
    vm.registers.r6 = 0x4000;
    exec_instr(0x7385, &mut vm); // STR R1, R6, #5
    exec_instr(0x6785, &mut vm); // LDR R3, R6, #5
    assert_eq!(vm.registers.r3, 0x7777);
}

#[test]
fn condition_codes_stay_one_hot() {
    let mut vm = machine();
    let program = [0x1021u16, 0x103E, 0x1020, 0x5020, 0x903F, 0xE000, 0x0E01, 0x4802, 0x2000, 0xF021];
    for instr in program {
        let _ = exec_instr(instr, &mut vm);
        assert!(one_cond_set(vm.registers.cond));
    }
}

#[test]
fn registers_other_than_destination_stay() {
    let mut vm = machine();
    vm.registers.r1 = 11;
    vm.registers.r2 = 22;
    vm.registers.r3 = 33;
    exec_instr(0x1042, &mut vm); // ADD R0, R1, R2
    assert_eq!((vm.registers.r1, vm.registers.r2, vm.registers.r3), (11, 22, 33));
    exec_instr(0x4801, &mut vm); // JSR touches R7 only
    assert_eq!((vm.registers.r0, vm.registers.r1, vm.registers.r3), (33, 11, 33));
}

#[test]
fn only_stores_write_memory() {
    let mut vm = machine();
    vm.registers.r0 = 0x4242;
    let before: Vec<u16> = (0x3000..0x3010).map(|a| vm.read_mem(a)).collect();
    for instr in [0x1021u16, 0x2001, 0xA001, 0xE001, 0x903F, 0x0E01, 0xF021] {
        let _ = exec_instr(instr, &mut vm);
    }
    let after: Vec<u16> = (0x3000..0x3010).map(|a| vm.read_mem(a)).collect();
    assert_eq!(before, after);
    let target = vm.registers.pc + 1;
    exec_instr(0x3001, &mut vm); // ST R0, +1
    assert_eq!(vm.read_mem(target), vm.registers.r0);
}

#[test]
fn jsrr_r7_jumps_to_the_old_r7() {
    let mut vm = machine();
    vm.registers.r7 = 0x4444;
    exec_instr(0x41C0, &mut vm); // JSRR R7
    assert_eq!(vm.registers.pc, 0x4444);
    assert_eq!(vm.registers.r7, 0x3000);
}

#[test]
fn only_branches_and_jumps_move_the_pc() {
    let mut vm = machine();
    for instr in [0x1021u16, 0x5020, 0x903F, 0x2001, 0xA001, 0x6001, 0xE001, 0x3001, 0x7001, 0x8000, 0xD000] {
        let _ = exec_instr(instr, &mut vm);
        assert_eq!(vm.registers.pc, 0x3000);
    }
}

#[test]
fn keyboard_ready_reads_bit_15() {
    let mut vm = machine();
    vm.registers.r6 = 0xFE00;
    vm.handle_keyboard(b'x');
    exec_instr(0x6B80, &mut vm); // LDR R5, R6, #0
    assert_eq!(vm.registers.r5, 0x8000);
    exec_instr(0x6B82, &mut vm); // LDR R5, R6, #2 reads the key
    assert_eq!(vm.registers.r5, 0x78);
}
