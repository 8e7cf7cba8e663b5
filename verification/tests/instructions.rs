use lc3_vm::hardware::instruction::{
    add, and, br, can_exec, exec_instr, get_op_code, jmp, jsr, ld, ldi, ldr, lea, not, receive_char,
    sign_extend, st, sti, str, trap, trap_code, Opcode, TrapCode, TrapRequest,
};
use lc3_vm::hardware::register::{FL_NEG, FL_POS, FL_ZRO, PC_START};
use lc3_vm::hardware::vm::VM;

fn machine() -> Box<VM> {
    Box::new(VM::new())
}

#[test]
fn sign_extend_positive_and_negative_fields() {
    assert_eq!(sign_extend(0x0F, 5), 0x000F);
    assert_eq!(sign_extend(0x1F, 5), 0xFFFF);
    assert_eq!(sign_extend(0x10, 5), 0xFFF0);
    assert_eq!(sign_extend(0x1FF, 9), 0xFFFF);
    assert_eq!(sign_extend(0x0FF, 9), 0x00FF);
    assert_eq!(sign_extend(0x400, 11), 0xFC00);
    assert_eq!(sign_extend(0x20, 6), 0xFFE0);
    assert_eq!(sign_extend(0, 9), 0);
}

#[test]
fn get_op_code_decodes_every_code() {
    let expected = [
        Opcode::BR,
        Opcode::ADD,
        Opcode::LD,
        Opcode::ST,
        Opcode::JSR,
        Opcode::AND,
        Opcode::LDR,
        Opcode::STR,
        Opcode::RTI,
        Opcode::NOT,
        Opcode::LDI,
        Opcode::STI,
        Opcode::JMP,
        Opcode::RES,
        Opcode::LEA,
        Opcode::TRAP,
    ];
    for (code, op) in expected.iter().enumerate() {
        let instr = ((code as u16) << 12) | 0x0ABC;
        assert_eq!(get_op_code(&instr), Some(*op));
        assert_eq!(op.code(), code as u16);
    }
}

#[test]
fn add_register_and_immediate() {
    let mut vm = machine();
    vm.registers.r1 = 5;
    vm.registers.r2 = 7;
    add(0x1042, &mut vm); // ADD R0, R1, R2
    assert_eq!(vm.registers.r0, 12);
    assert_eq!(vm.registers.cond, FL_POS);
    add(0x167F, &mut vm); // ADD R3, R1, #-1
    assert_eq!(vm.registers.r3, 4);
    add(0x1A30, &mut vm); // ADD R5, R0, #-16
    assert_eq!(vm.registers.r5, 0xFFFC);
    assert_eq!(vm.registers.cond, FL_NEG);
    vm.registers.r4 = 0xFFFF;
    add(0x1321, &mut vm); // ADD R1, R4, #1 wraps to zero
    assert_eq!(vm.registers.r1, 0);
    assert_eq!(vm.registers.cond, FL_ZRO);
}

#[test]
fn and_register_and_immediate() {
    let mut vm = machine();
    vm.registers.r1 = 0b1100;
    vm.registers.r2 = 0b1010;
    and(0x5042, &mut vm); // AND R0, R1, R2
    assert_eq!(vm.registers.r0, 0b1000);
    assert_eq!(vm.registers.cond, FL_POS);
    and(0x5060, &mut vm); // AND R0, R1, #0
    assert_eq!(vm.registers.r0, 0);
    assert_eq!(vm.registers.cond, FL_ZRO);
    vm.registers.r3 = 0x8001;
    and(0x58FF, &mut vm); // AND R4, R3, #-1
    assert_eq!(vm.registers.r4, 0x8001);
    assert_eq!(vm.registers.cond, FL_NEG);
}

#[test]
fn not_complements() {
    let mut vm = machine();
    vm.registers.r2 = 0x00FF;
    not(0x987F, &mut vm); // NOT R4, R1 with R1 = 0
    assert_eq!(vm.registers.r4, 0xFFFF);
    assert_eq!(vm.registers.cond, FL_NEG);
    not(0x90BF, &mut vm); // NOT R0, R2
    assert_eq!(vm.registers.r0, 0xFF00);
}

#[test]
fn br_follows_condition_codes() {
    let mut vm = machine();
    vm.registers.pc = 0x3001;
    vm.registers.cond = FL_ZRO;
    br(0x0405, &mut vm); // BRz +5
    assert_eq!(vm.registers.pc, 0x3006);
    br(0x0805, &mut vm); // BRn +5 not taken
    assert_eq!(vm.registers.pc, 0x3006);
    br(0x0FFF, &mut vm); // BRnzp -1
    assert_eq!(vm.registers.pc, 0x3005);
    br(0x0005, &mut vm); // no mask: never taken
    assert_eq!(vm.registers.pc, 0x3005);
}

#[test]
fn jmp_and_jsr() {
    let mut vm = machine();
    vm.registers.r3 = 0x4000;
    jmp(0xC0C0, &mut vm); // JMP R3
    assert_eq!(vm.registers.pc, 0x4000);
    jsr(0x4810, &mut vm); // JSR +16
    assert_eq!(vm.registers.r7, 0x4000);
    assert_eq!(vm.registers.pc, 0x4010);
    jsr(0x40C0, &mut vm); // JSRR R3
    assert_eq!(vm.registers.r7, 0x4010);
    assert_eq!(vm.registers.pc, 0x4000);
    vm.registers.r7 = 0x5000;
    jsr(0x41C0, &mut vm); // JSRR R7: the base is read before R7 is written
    assert_eq!(vm.registers.pc, 0x5000);
    assert_eq!(vm.registers.r7, 0x4000);
    vm.registers.pc = 0x4000;
    jsr(0x4FFF, &mut vm); // JSR -1
    assert_eq!(vm.registers.pc, 0x3FFF);
}

#[test]
fn loads() {
    let mut vm = machine();
    vm.registers.pc = 0x3001;
    vm.write_mem(0x3003, 0x4000);
    vm.write_mem(0x4000, 0x8123);
    ld(0x2202, &mut vm); // LD R1, +2
    assert_eq!(vm.registers.r1, 0x4000);
    assert_eq!(vm.registers.cond, FL_POS);
    ldi(0xA402, &mut vm); // LDI R2, +2
    assert_eq!(vm.registers.r2, 0x8123);
    assert_eq!(vm.registers.cond, FL_NEG);
    vm.registers.r5 = 0x4002;
    ldr(0x677E, &mut vm); // LDR R3, R5, #-2
    assert_eq!(vm.registers.r3, 0x8123);
    lea(0xE9FE, &mut vm); // LEA R4, -2
    assert_eq!(vm.registers.r4, 0x2FFF);
    assert_eq!(vm.registers.cond, FL_POS);
}

#[test]
fn stores() {
    let mut vm = machine();
    vm.registers.pc = 0x3001;
    vm.registers.r2 = 0xBEEF;
    st(0x3404, &mut vm); // ST R2, +4
    assert_eq!(vm.read_mem(0x3005), 0xBEEF);
    vm.write_mem(0x3000, 0x5000);
    sti(0xB5FF, &mut vm); // STI R2, -1
    assert_eq!(vm.read_mem(0x5000), 0xBEEF);
    vm.registers.r6 = 0x6000;
    vm.registers.r1 = 0x1234;
    str(0x7383, &mut vm); // STR R1, R6, #3
    assert_eq!(vm.read_mem(0x6003), 0x1234);
    assert_eq!(vm.registers.pc, 0x3001);
}

fn put_string(vm: &mut VM, at: usize, words: &[u16]) {
    for (k, w) in words.iter().enumerate() {
        vm.write_mem(at + k, *w);
    }
}

#[test]
fn trap_requests() {
    let mut vm = machine();
    assert_eq!(trap(0xF020, &mut vm), TrapRequest::GetChar);
    vm.registers.r0 = 0x0141;
    assert_eq!(trap(0xF021, &mut vm), TrapRequest::PutChar(0x41));
    put_string(&mut vm, 0x4000, &[0x48, 0x169, 0x21, 0, 0x41]);
    vm.registers.r0 = 0x4000;
    assert_eq!(trap(0xF022, &mut vm), TrapRequest::PutString(vec![0x48, 0x69, 0x21]));
    assert_eq!(trap(0xF023, &mut vm), TrapRequest::ReadChar);
    put_string(&mut vm, 0x5000, &[0x6548, 0x6C6C, 0x006F, 0]);
    vm.registers.r0 = 0x5000;
    assert_eq!(
        trap(0xF024, &mut vm),
        TrapRequest::PutString(vec![0x48, 0x65, 0x6C, 0x6C, 0x6F])
    );
    assert_eq!(trap(0xF025, &mut vm), TrapRequest::Halt);
    assert_eq!(trap(0xF026, &mut vm), TrapRequest::Unknown);
    assert_eq!(trap(0xF000, &mut vm), TrapRequest::Unknown);
    assert_eq!(vm.registers.r0, 0x5000);
}

#[test]
fn empty_string_trap() {
    let mut vm = machine();
    vm.registers.r0 = 0x4000;
    assert_eq!(trap(0xF022, &mut vm), TrapRequest::PutString(vec![]));
}

#[test]
fn trap_codes() {
    assert_eq!(trap_code(0x20), Some(TrapCode::Getc));
    assert_eq!(trap_code(0x21), Some(TrapCode::Out));
    assert_eq!(trap_code(0x22), Some(TrapCode::Puts));
    assert_eq!(trap_code(0x23), Some(TrapCode::In));
    assert_eq!(trap_code(0x24), Some(TrapCode::Putsp));
    assert_eq!(trap_code(0x25), Some(TrapCode::Halt));
    assert_eq!(trap_code(0x26), None);
    assert_eq!(TrapCode::Putsp.code(), 0x24);
}

#[test]
fn receive_char_sets_r0_only() {
    let mut vm = machine();
    vm.registers.cond = FL_NEG;
    receive_char(&mut vm, b'q');
    assert_eq!(vm.registers.r0, 0x71);
    assert_eq!(vm.registers.cond, FL_NEG);
    assert_eq!(vm.registers.pc, PC_START);
}

#[test]
fn exec_instr_dispatches() {
    let mut vm = machine();
    assert_eq!(exec_instr(0x1021, &mut vm), None); // ADD R0, R0, #1
    assert_eq!(vm.registers.r0, 1);
    assert_eq!(exec_instr(0x8000, &mut vm), None); // RTI does nothing
    assert_eq!(exec_instr(0xD000, &mut vm), None); // reserved does nothing
    assert_eq!(vm.registers.r0, 1);
    assert_eq!(vm.registers.pc, PC_START);
    assert_eq!(exec_instr(0xF025, &mut vm), Some(TrapRequest::Halt));
    assert_eq!(exec_instr(0x7000, &mut vm), None); // STR R0, R0, #0
    assert_eq!(vm.read_mem(1), 1);
}

#[test]
fn can_exec_checks_string_terminators() {
    let mut vm = machine();
    vm.registers.pc = 0x0000;
    assert!(can_exec(0x21FF, &vm)); // LD R0, -1 reads 0xFFFF, which is in memory
    vm.write_mem(0x0001, 0xFFFF);
    assert!(can_exec(0xA001, &vm));
    vm.registers.r0 = 0xFFFF;
    assert!(can_exec(0xF022, &vm));
    vm.write_mem(0xFFFF, 0x41);
    assert!(!can_exec(0xF022, &vm)); // no terminator before the end of memory
    assert!(!can_exec(0xF024, &vm));
    assert!(can_exec(0xF021, &vm));
    assert!(can_exec(0x1021, &vm));
}

#[test]
fn last_address_loads_and_stores() {
    let mut vm = machine();
    vm.registers.pc = 0x0000;
    vm.registers.r4 = 0x0BAD;
    st(0x39FF, &mut vm); // ST R4, -1 writes 0xFFFF
    assert_eq!(vm.read_mem(0xFFFF), 0x0BAD);
    ld(0x23FF, &mut vm); // LD R1, -1
    assert_eq!(vm.registers.r1, 0x0BAD);
}

#[test]
fn sign_extend_full_width_field() {
    assert_eq!(sign_extend(0x7FFF, 16), 0x7FFF);
    assert_eq!(sign_extend(0, 16), 0);
}
