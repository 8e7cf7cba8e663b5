//! Laws of the machine that span several operations.
use vstd::prelude::*;

use super::instruction::{
    add_spec, and_spec, base_relative, br_spec, exec_spec, field_dr, field_sr1, jmp_spec, jsr_spec,
    ld_spec, ldi_spec, ldr_spec, lea_spec, lemma_field_bounds, not_spec, offset6, offset9, opcode_of,
    pc_relative, st_spec, sti_spec, str_spec, Opcode,
};
use super::register::{cond_of, cond_valid, Registers, FL_NEG, FL_POS, FL_ZRO};
use super::vm::MachineState;
use super::{current_instr, fetched, keyboard_poll_due, step_spec, MEMORY_SIZE};

verus! {

/// Reading an address gives back the last value written there, and a write
/// leaves every other address and the registers as they were.
pub proof fn law_read_after_write(s: MachineState, addr: int, value: u16, other: int)
    requires
        s.wf(),
        0 <= addr < MEMORY_SIZE,
        0 <= other < MEMORY_SIZE,
    ensures
        s.write(addr, value).read(addr) == value,
        other != addr ==> s.write(addr, value).read(other) == s.read(other),
        s.write(addr, value).regs == s.regs,
        s.write(addr, value).wf(),
        s.read(other) == s.mem[other],
        s.write(addr, value).mem == s.mem.update(addr, value),
{
}

/// General-purpose register `r` is the field `r0` to `r7` of that number.
pub proof fn law_register_names(regs: Registers, v: u16)
    ensures
        regs.reg(0) == regs.r0 && regs.with_reg(0, v).r0 == v,
        regs.reg(1) == regs.r1 && regs.with_reg(1, v).r1 == v,
        regs.reg(2) == regs.r2 && regs.with_reg(2, v).r2 == v,
        regs.reg(3) == regs.r3 && regs.with_reg(3, v).r3 == v,
        regs.reg(4) == regs.r4 && regs.with_reg(4, v).r4 == v,
        regs.reg(5) == regs.r5 && regs.with_reg(5, v).r5 == v,
        regs.reg(6) == regs.r6 && regs.with_reg(6, v).r6 == v,
        regs.reg(7) == regs.r7 && regs.with_reg(7, v).r7 == v,
{
}

/// At power-on every word of the 64K-word memory and every general-purpose
/// register is zero, the program counter is 0x3000 and the Z condition code
/// (2) is set.
pub proof fn law_power_on()
    ensures
        MachineState::initial().mem.len() == 0x10000,
        forall|a: int| 0 <= a < 0x10000 ==> #[trigger] MachineState::initial().mem[a] == 0,
        forall|r: int| 0 <= r < 8 ==> #[trigger] MachineState::initial().regs.reg(r) == 0,
        MachineState::initial().regs.pc == 0x3000,
        MachineState::initial().regs.cond == 2,
{
}

/// One fetch-execute cycle executes the word at the program counter on the
/// state whose program counter has moved on by one, modulo 2^16.
pub proof fn law_step_fetch(s: MachineState)
    ensures
        step_spec(s) == exec_spec(
            s.mem[s.regs.pc as int],
            MachineState { mem: s.mem, regs: Registers { pc: ((s.regs.pc + 1) % 0x10000) as u16, ..s.regs } },
        ),
{
}

/// Writing a general-purpose register changes that register alone.
pub proof fn law_register_write(regs: Registers, r: int, v: u16, q: int)
    requires
        0 <= r < 8,
        0 <= q < 8,
    ensures
        regs.with_reg(r, v).reg(r) == v,
        q != r ==> regs.with_reg(r, v).reg(q) == regs.reg(q),
        regs.with_reg(r, v).pc == regs.pc,
        regs.with_reg(r, v).cond == regs.cond,
{
}

/// The condition codes record the sign of the value they were set from:
/// exactly one of N, Z, P, with Z for zero and N for a word whose bit 15 is set.
pub proof fn law_cond_of_sign(v: u16)
    ensures
        cond_valid(cond_of(v)),
        (cond_of(v) == FL_ZRO) <==> v == 0,
        (cond_of(v) == FL_NEG) <==> (v as int) >= 0x8000,
        (cond_of(v) == FL_POS) <==> (0 < v && (v as int) < 0x8000),
{
}

/// The register that an instruction writes, if any: the destination of ADD,
/// AND, NOT, LD, LDI, LDR and LEA, and R7 for JSR.
pub open spec fn written_register(i: u16) -> Option<int> {
    match opcode_of(i) {
        Opcode::ADD | Opcode::AND | Opcode::NOT | Opcode::LD | Opcode::LDI | Opcode::LDR
        | Opcode::LEA => Some(field_dr(i) as int),
        Opcode::JSR => Some(7),
        _ => None,
    }
}

/// Every instruction leaves the general-purpose registers other than the one
/// it writes as they were.
pub proof fn law_exec_register_frame(i: u16, s: MachineState, r: int)
    requires
        0 <= r < 8,
        written_register(i) != Some(r),
    ensures
        exec_spec(i, s).regs.reg(r) == s.regs.reg(r),
{
    lemma_field_bounds(i);
}

/// Only ST, STI and STR change memory.
pub proof fn law_exec_memory_frame(i: u16, s: MachineState)
    requires
        opcode_of(i) != Opcode::ST,
        opcode_of(i) != Opcode::STI,
        opcode_of(i) != Opcode::STR,
    ensures
        exec_spec(i, s).mem == s.mem,
{
}

/// Every instruction keeps exactly one condition code set, and an
/// instruction that writes a register with ADD, AND, NOT, LD, LDI, LDR or LEA
/// sets the condition codes from the value written.
pub proof fn law_exec_keeps_cond_valid(i: u16, s: MachineState)
    requires
        cond_valid(s.regs.cond),
    ensures
        cond_valid(exec_spec(i, s).regs.cond),
        opcode_of(i) != Opcode::JSR ==> (written_register(i) matches Some(r) ==> exec_spec(
            i,
            s,
        ).regs.cond == cond_of(exec_spec(i, s).regs.reg(r))),
{
    lemma_field_bounds(i);
}

/// A fetch-execute cycle keeps exactly one condition code set.
pub proof fn law_step_keeps_cond_valid(s: MachineState)
    requires
        cond_valid(s.regs.cond),
    ensures
        cond_valid(step_spec(s).regs.cond),
{
    law_exec_keeps_cond_valid(super::current_instr(s), fetched(s));
}

/// RET (JMP R7) right after JSR or JSRR returns to the address that followed
/// the JSR: the program counter comes back to where it was.
pub proof fn law_jsr_then_ret(jsr_instr: u16, s: MachineState)
    requires
        opcode_of(jsr_instr) == Opcode::JSR,
    ensures
        exec_spec(0xC1C0, exec_spec(jsr_instr, s)).regs.pc == s.regs.pc,
        exec_spec(jsr_instr, s).regs.r7 == s.regs.pc,
{
    lemma_field_bounds(0xC1C0);
    assert((0xC1C0u16 >> 12u16) == 12u16) by (bit_vector);
    assert(((0xC1C0u16 >> 6u16) & 0x7u16) == 7u16) by (bit_vector);
}

/// NOT applied twice to the same register gives back its value.
pub proof fn law_not_twice(i: u16, s: MachineState)
    requires
        opcode_of(i) == Opcode::NOT,
        field_dr(i) == field_sr1(i),
    ensures
        exec_spec(i, exec_spec(i, s)).regs.reg(field_dr(i) as int) == s.regs.reg(field_dr(i) as int),
{
    lemma_field_bounds(i);
    let v = s.regs.reg(field_dr(i) as int);
    assert(!(!v) == v) by (bit_vector);
}

/// BR with all of N, Z and P always branches, and BR with none of them never
/// does, whenever exactly one condition code is set.
pub proof fn law_br_mask(i: u16, s: MachineState)
    requires
        opcode_of(i) == Opcode::BR,
        cond_valid(s.regs.cond),
    ensures
        field_dr(i) == 7 ==> exec_spec(i, s) == s.with_regs(s.regs.with_pc(pc_relative(i, s))),
        field_dr(i) == 0 ==> exec_spec(i, s) == s,
{
    let c = s.regs.cond;
    assert(c == 1 || c == 2 || c == 4 ==> (7u16 & c) != 0) by (bit_vector);
    assert((0u16 & c) == 0) by (bit_vector);
}

/// A word stored with ST is read back by LD with the same offset, and LDR
/// through the same register and offset reads back what STR stored.
pub proof fn law_store_then_load(st_instr: u16, ld_instr: u16, s: MachineState)
    requires
        s.wf(),
        (opcode_of(st_instr) == Opcode::ST && opcode_of(ld_instr) == Opcode::LD && offset9(
            st_instr,
        ) == offset9(ld_instr)) || (opcode_of(st_instr)
            == Opcode::STR && opcode_of(ld_instr) == Opcode::LDR && offset6(st_instr) == offset6(
            ld_instr,
        ) && field_sr1(st_instr) == field_sr1(ld_instr)),
    ensures
        exec_spec(ld_instr, exec_spec(st_instr, s)).regs.reg(field_dr(ld_instr) as int) == s.regs.reg(
            field_dr(st_instr) as int,
        ),
{
    lemma_field_bounds(st_instr);
    lemma_field_bounds(ld_instr);
}


/// Decoding gives back the opcode that an instruction word was built from,
/// whatever its twelve low bits hold.
pub proof fn law_opcode_roundtrip(op: Opcode, low: u16)
    requires
        low < 0x1000,
    ensures
        opcode_of(((op.spec_code() << 12u16) | low) as u16) == op,
{
    let c = op.spec_code();
    assert(c < 16 && low < 0x1000 ==> (((c << 12u16) | low) >> 12u16) == c) by (bit_vector);
}


/// Executing an instruction is executing the handler of its opcode; RTI, the
/// reserved opcode and TRAP leave the machine state to the caller.
pub proof fn law_exec_dispatch(i: u16, s: MachineState)
    ensures
        opcode_of(i) == Opcode::BR ==> exec_spec(i, s) == br_spec(i, s),
        opcode_of(i) == Opcode::ADD ==> exec_spec(i, s) == add_spec(i, s),
        opcode_of(i) == Opcode::LD ==> exec_spec(i, s) == ld_spec(i, s),
        opcode_of(i) == Opcode::ST ==> exec_spec(i, s) == st_spec(i, s),
        opcode_of(i) == Opcode::JSR ==> exec_spec(i, s) == jsr_spec(i, s),
        opcode_of(i) == Opcode::AND ==> exec_spec(i, s) == and_spec(i, s),
        opcode_of(i) == Opcode::LDR ==> exec_spec(i, s) == ldr_spec(i, s),
        opcode_of(i) == Opcode::STR ==> exec_spec(i, s) == str_spec(i, s),
        opcode_of(i) == Opcode::NOT ==> exec_spec(i, s) == not_spec(i, s),
        opcode_of(i) == Opcode::LDI ==> exec_spec(i, s) == ldi_spec(i, s),
        opcode_of(i) == Opcode::STI ==> exec_spec(i, s) == sti_spec(i, s),
        opcode_of(i) == Opcode::JMP ==> exec_spec(i, s) == jmp_spec(i, s),
        opcode_of(i) == Opcode::LEA ==> exec_spec(i, s) == lea_spec(i, s),
        opcode_of(i) == Opcode::RTI || opcode_of(i) == Opcode::RES || opcode_of(i) == Opcode::TRAP
            ==> exec_spec(i, s) == s,
{
}

/// Only BR, JSR/JSRR and JMP change the program counter; executing an
/// instruction never advances it by itself (the fetch does).
pub proof fn law_exec_pc_frame(i: u16, s: MachineState)
    requires
        opcode_of(i) != Opcode::BR,
        opcode_of(i) != Opcode::JSR,
        opcode_of(i) != Opcode::JMP,
    ensures
        exec_spec(i, s).regs.pc == s.regs.pc,
{
}

/// After the keyboard reports a key (status bit 15 set, key in the data
/// register), an LD or LDR from the status register loads 0x8000 (when the
/// instruction itself does not sit in a keyboard register).
pub proof fn law_keyboard_ready_read(s: MachineState, key: u8)
    requires
        s.wf(),
        key != 0,
        keyboard_poll_due(s),
        opcode_of(current_instr(s)) == Opcode::LD || opcode_of(current_instr(s)) == Opcode::LDR,
        s.regs.pc != 0xFE00u16,
        s.regs.pc != 0xFE02u16,
    ensures
        ({
            let polled = s.write(0xFE00, 0x8000).write(0xFE02, key as u16);
            step_spec(polled).regs.reg(field_dr(current_instr(s)) as int) == 0x8000
        }),
{
    let i = current_instr(s);
    let polled = s.write(0xFE00, 0x8000).write(0xFE02, key as u16);
    lemma_field_bounds(i);
    assert(current_instr(polled) == i);
    assert(fetched(polled).regs == fetched(s).regs);
    assert(polled.read(0xFE00) == 0x8000);
}

} // verus!
