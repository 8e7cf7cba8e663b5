//! The machine: memory size, register file, VM state and instruction set,
//! and the fetch-execute step that the execution loop repeats.
pub mod instruction;
pub mod isa_laws;
pub mod laws;
pub mod register;
pub mod vm;

use vstd::prelude::*;

use instruction::{add16, exec_defined, exec_instr, exec_spec, load_address, opcode_of, trap_request_of, Opcode, TrapRequest};
use vm::{MachineState, VM};

verus! {

/// Number of addressable memory words: every 16-bit address names a word.
pub const MEMORY_SIZE: usize = 65536;

/// The state after fetching: the program counter advanced past the fetched
/// word, modulo 2^16.
pub open spec fn fetched(s: MachineState) -> MachineState {
    s.with_regs(s.regs.with_pc(add16(s.regs.pc, 1)))
}

/// The instruction at the program counter.
pub open spec fn current_instr(s: MachineState) -> u16 {
    s.read(s.regs.pc as int)
}

/// The machine can fetch from its program counter and execute what it fetched.
pub open spec fn step_defined(s: MachineState) -> bool {
    exec_defined(current_instr(s), fetched(s))
}

/// The state after one fetch-execute cycle.
pub open spec fn step_spec(s: MachineState) -> MachineState {
    exec_spec(current_instr(s), fetched(s))
}

/// One cycle of the execution loop: fetches the word at the program counter,
/// advances the program counter, and executes the word. What a TRAP asks for
/// is returned for the caller to perform.
pub fn step(vm: &mut VM) -> (req: Option<TrapRequest>)
    requires
        step_defined(old(vm)@),
    ensures
        final(vm)@ == step_spec(old(vm)@),
        opcode_of(current_instr(old(vm)@)) == Opcode::TRAP ==> (req matches Some(t)
            && trap_request_of(t, current_instr(old(vm)@), fetched(old(vm)@))),
        opcode_of(current_instr(old(vm)@)) != Opcode::TRAP ==> req is None,
{
    let instr = vm.read_mem(vm.registers.pc);
    vm.registers.pc = vm.registers.pc.wrapping_add(1);
    exec_instr(instr, vm)
}

/// Whether `step` can run on this machine.
pub fn can_step(vm: &VM) -> (ok: bool)
    ensures
        ok == step_defined(vm@),
{
    let instr = vm.memory[vm.registers.pc as usize];
    let mut regs = vm.registers;
    regs.pc = regs.pc.wrapping_add(1);
    instruction::exec_defined_on(instr, &vm.memory, &regs)
}


/// The instruction at the program counter loads from the keyboard status
/// register, so the keyboard is to be polled before the step.
pub open spec fn keyboard_poll_due(s: MachineState) -> bool {
    load_address(current_instr(s), fetched(s)) == Some(0xFE00u16)
}

/// Whether the keyboard is to be polled (and `VM::handle_keyboard` given
/// the key) before the next `step`: the instruction at the program counter
/// is an LD, LDI or LDR that loads from the keyboard status register.
pub fn keyboard_poll_needed(vm: &VM) -> (poll: bool)
    ensures
        poll == keyboard_poll_due(vm@),
{
    let instr = vm.memory[vm.registers.pc as usize];
    let mut regs = vm.registers;
    regs.pc = regs.pc.wrapping_add(1);
    match instruction::load_address_on(instr, &vm.memory, &regs) {
        Some(a) => a == vm::MemmoryMappedReg::Kbsr.address(),
        None => false,
    }
}

} // verus!
