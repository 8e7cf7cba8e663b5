//! The VM state: memory and register file, with memory-mapped keyboard registers.
use vstd::prelude::*;

use super::register::Registers;
use super::MEMORY_SIZE;

verus! {

/// The whole machine.
pub struct VM {
    pub memory: [u16; MEMORY_SIZE],
    pub registers: Registers,
}

/// The mathematical state of a machine: its memory as a sequence of words
/// and its register file.
pub struct MachineState {
    pub mem: Seq<u16>,
    pub regs: Registers,
}

impl MachineState {
    /// The memory has exactly `MEMORY_SIZE` words.
    pub open spec fn wf(self) -> bool {
        self.mem.len() == MEMORY_SIZE
    }

    /// The word at `addr`.
    pub open spec fn read(self, addr: int) -> u16 {
        self.mem[addr]
    }

    /// The state after writing `value` at `addr`.
    pub open spec fn write(self, addr: int, value: u16) -> MachineState {
        MachineState { mem: self.mem.update(addr, value), regs: self.regs }
    }

    /// The state with the register file replaced.
    pub open spec fn with_regs(self, regs: Registers) -> MachineState {
        MachineState { mem: self.mem, regs: regs }
    }

    /// The state at power-on: all memory zero, registers at their initial values.
    pub open spec fn initial() -> MachineState {
        MachineState { mem: Seq::new(MEMORY_SIZE as nat, |i: int| 0u16), regs: Registers::initial() }
    }
}

impl View for VM {
    type V = MachineState;

    open spec fn view(&self) -> MachineState {
        MachineState { mem: self.memory@, regs: self.registers }
    }
}

/// The memory-mapped device registers.
#[derive(Clone, Copy, Debug, PartialEq, Eq, Structural)]
pub enum MemmoryMappedReg {
    /// Keyboard status register: bit 15 set when a key is ready.
    Kbsr,
    /// Keyboard data register: the last key read.
    Kbdr,
}

impl MemmoryMappedReg {
    /// The memory address of the device register.
    pub open spec fn spec_address(self) -> u16 {
        match self {
            MemmoryMappedReg::Kbsr => 0xFE00,
            MemmoryMappedReg::Kbdr => 0xFE02,
        }
    }

    /// The memory address of the device register.
    pub fn address(&self) -> (a: u16)
        ensures
            a == self.spec_address(),
    {
        match self {
            MemmoryMappedReg::Kbsr => 0xFE00,
            MemmoryMappedReg::Kbdr => 0xFE02,
        }
    }
}

impl VM {
    /// A machine at power-on: memory all zero, registers at their initial values.
    pub fn new() -> (vm: VM)
        ensures
            vm@ == MachineState::initial(),
    {
        let vm = VM { memory: [0u16; MEMORY_SIZE], registers: Registers::new() };
        assert(vm@.mem =~= MachineState::initial().mem);
        vm
    }

    /// Stores `value` at `address`; nothing else changes.
    pub fn write_mem(&mut self, address: usize, value: u16)
        requires
            address < MEMORY_SIZE,
        ensures
            final(self)@ == old(self)@.write(address as int, value),
    {
        self.memory[address] = value;
        assert(self@.mem =~= old(self)@.write(address as int, value).mem);
    }

    /// The word stored at `address`; the machine is left as it was.
    pub fn read_mem(&mut self, address: u16) -> (value: u16)
        ensures
            value == old(self)@.read(address as int),
            *final(self) == *old(self),
    {
        self.memory[address as usize]
    }

    /// Records a key read from the keyboard: a nonzero key sets the status
    /// register's bit 15 and stores the key in the data register; a zero key
    /// clears the status register and leaves the data register as it was.
    pub fn handle_keyboard(&mut self, key: u8)
        ensures
            key != 0 ==> final(self)@ == old(self)@.write(0xFE00, 0x8000).write(0xFE02, key as u16),
            key == 0 ==> final(self)@ == old(self)@.write(0xFE00, 0),
    {
        if key != 0 {
            let status = MemmoryMappedReg::Kbsr.address();
            let ready: u16 = 1u16 << 15u16;
            assert(ready == 0x8000) by (bit_vector)
                requires
                    ready == 1u16 << 15u16,
            ;
            self.write_mem(status as usize, ready);
            let data = MemmoryMappedReg::Kbdr.address();
            self.write_mem(data as usize, key as u16);
        } else {
            let status = MemmoryMappedReg::Kbsr.address();
            self.write_mem(status as usize, 0);
        }
    }
}

} // verus!
