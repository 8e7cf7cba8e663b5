# lc3_vm

An LC-3 virtual machine whose core is verified with Verus.

- `src/hardware/register.rs`: the register file (R0-R7, PC, condition codes).
- `src/hardware/vm.rs`: the machine state (65536 words of memory, every 16-bit address, and the
  registers), its mathematical view `MachineState`, and the keyboard registers.
- `src/hardware/instruction.rs`: decoding and executing every instruction,
  each against a spec function of `MachineState`; TRAP returns a
  `TrapRequest` describing the input or output it needs.
- `src/hardware/mod.rs`: one fetch-execute step, and when to poll the keyboard.
- `src/hardware/laws.rs`: properties that span several operations.
- `src/loader.rs`: loading a big-endian object image into memory.
- `app/main.rs`: the command line, terminal setup, file reading and the
  execution loop that performs the requested input and output.
