//! Instruction decoding and execution.
use vstd::prelude::*;
use vstd::arithmetic::power2::pow2;

use super::register::{cond_valid, Registers};
use super::vm::{MachineState, VM};
use super::MEMORY_SIZE;

verus! {

/// The value of the `n`-bit two's-complement field `x`, sign-extended to 16
/// bits and read as an unsigned word: `x` itself when its top bit is clear,
/// `x - 2^n + 2^16` when it is set.
pub open spec fn sext(x: int, n: nat) -> int {
    if x < pow2((n - 1) as nat) {
        x
    } else {
        x + 0x10000 - pow2(n)
    }
}

proof fn lemma_sign_extend_bits(x: u16, n: u16, m: u16)
    by (bit_vector)
    requires
        1 <= n <= 15,
        m + 1 == n,
        x < (1u16 << n),
    ensures
        ((x >> m) & 1 != 0) == (x >= (1u16 << m)),
        x >= (1u16 << m) ==> (x | (0xFFFFu16 << n)) as int == x as int + 0x10000 - (1u16 << n) as int,
{
}

/// Sign-extends the `bit_count`-bit field `x` to 16 bits: when bit
/// `bit_count - 1` of `x` is set, every bit from `bit_count` up is set too;
/// otherwise `x` is returned as it is. A 16-bit field is accepted when its
/// top bit is clear, and is then returned as it is.
pub fn sign_extend(x: u16, bit_count: u8) -> (r: u16)
    requires
        1 <= bit_count <= 15 || (bit_count == 16 && x < 0x8000),
    ensures
        r == (if (x >> ((bit_count - 1) as u16)) & 1 != 0 {
            x | (0xFFFFu16 << (bit_count as u16))
        } else {
            x
        }),
        (x as int) < pow2(bit_count as nat) ==> r as int == sext(x as int, bit_count as nat),
{
    let n: u16 = bit_count as u16;
    let m: u16 = n - 1;
    let mut r = x;
    if (x >> m) & 1 != 0 {
        proof {
            if n == 16 {
                assert((x >> 15u16) & 1 == 0) by (bit_vector)
                    requires
                        x < 0x8000,
                ;
            }
        }
        r = x | (0xFFFFu16 << n);
    }
    proof {
        if n == 16 {
            assert((x >> 15u16) & 1 == 0) by (bit_vector)
                requires
                    x < 0x8000,
            ;
            vstd::arithmetic::power2::lemma2_to64();
        } else if (x as int) < pow2(bit_count as nat) {
            vstd::bits::lemma_u16_pow2_no_overflow(n as nat);
            vstd::bits::lemma_u16_pow2_no_overflow(m as nat);
            vstd::bits::lemma_u16_shl_is_mul(1, n);
            vstd::bits::lemma_u16_shl_is_mul(1, m);
            assert(x < (1u16 << n));
            lemma_sign_extend_bits(x, n, m);
        }
    }
    r
}

/// The sixteen LC-3 opcodes, in the order of their 4-bit codes (BR is 0, TRAP is 15).
#[derive(Clone, Copy, Debug, PartialEq, Eq, Structural)]
pub enum Opcode {
    BR,
    ADD,
    LD,
    ST,
    JSR,
    AND,
    LDR,
    STR,
    RTI,
    NOT,
    LDI,
    STI,
    JMP,
    RES,
    LEA,
    TRAP,
}

/// The opcode named by a 4-bit code.
pub open spec fn opcode_from_code(c: u16) -> Opcode {
    if c == 0 {
        Opcode::BR
    } else if c == 1 {
        Opcode::ADD
    } else if c == 2 {
        Opcode::LD
    } else if c == 3 {
        Opcode::ST
    } else if c == 4 {
        Opcode::JSR
    } else if c == 5 {
        Opcode::AND
    } else if c == 6 {
        Opcode::LDR
    } else if c == 7 {
        Opcode::STR
    } else if c == 8 {
        Opcode::RTI
    } else if c == 9 {
        Opcode::NOT
    } else if c == 10 {
        Opcode::LDI
    } else if c == 11 {
        Opcode::STI
    } else if c == 12 {
        Opcode::JMP
    } else if c == 13 {
        Opcode::RES
    } else if c == 14 {
        Opcode::LEA
    } else {
        Opcode::TRAP
    }
}

/// The opcode of an instruction: its top four bits.
pub open spec fn opcode_of(instr: u16) -> Opcode {
    opcode_from_code(instr >> 12)
}

impl Opcode {
    /// The 4-bit code of the opcode.
    pub open spec fn spec_code(self) -> u16 {
        match self {
            Opcode::BR => 0,
            Opcode::ADD => 1,
            Opcode::LD => 2,
            Opcode::ST => 3,
            Opcode::JSR => 4,
            Opcode::AND => 5,
            Opcode::LDR => 6,
            Opcode::STR => 7,
            Opcode::RTI => 8,
            Opcode::NOT => 9,
            Opcode::LDI => 10,
            Opcode::STI => 11,
            Opcode::JMP => 12,
            Opcode::RES => 13,
            Opcode::LEA => 14,
            Opcode::TRAP => 15,
        }
    }

    /// The 4-bit code of the opcode.
    pub fn code(&self) -> (c: u16)
        ensures
            c == self.spec_code(),
            opcode_from_code(c) == *self,
    {
        match self {
            Opcode::BR => 0,
            Opcode::ADD => 1,
            Opcode::LD => 2,
            Opcode::ST => 3,
            Opcode::JSR => 4,
            Opcode::AND => 5,
            Opcode::LDR => 6,
            Opcode::STR => 7,
            Opcode::RTI => 8,
            Opcode::NOT => 9,
            Opcode::LDI => 10,
            Opcode::STI => 11,
            Opcode::JMP => 12,
            Opcode::RES => 13,
            Opcode::LEA => 14,
            Opcode::TRAP => 15,
        }
    }
}

/// The bounds of every instruction field.
pub proof fn lemma_field_bounds(i: u16)
    by (bit_vector)
    ensures
        (i >> 12) < 16,
        (i >> 9) & 0x7 < 8,
        (i >> 6) & 0x7 < 8,
        i & 0x7 < 8,
        (i >> 5) & 0x1 < 2,
        (i >> 11) & 0x1 < 2,
        i & 0x1F < 32,
        i & 0x3F < 64,
        i & 0xFF < 256,
        i & 0x1FF < 512,
        i & 0x7FF < 2048,
{
}

/// Decodes the opcode of an instruction; every 16-bit word has one.
pub fn get_op_code(instr: &u16) -> (op: Option<Opcode>)
    ensures
        op == Some(opcode_of(*instr)),
{
    proof {
        lemma_field_bounds(*instr);
    }
    match *instr >> 12 {
        0 => Some(Opcode::BR),
        1 => Some(Opcode::ADD),
        2 => Some(Opcode::LD),
        3 => Some(Opcode::ST),
        4 => Some(Opcode::JSR),
        5 => Some(Opcode::AND),
        6 => Some(Opcode::LDR),
        7 => Some(Opcode::STR),
        8 => Some(Opcode::RTI),
        9 => Some(Opcode::NOT),
        10 => Some(Opcode::LDI),
        11 => Some(Opcode::STI),
        12 => Some(Opcode::JMP),
        13 => Some(Opcode::RES),
        14 => Some(Opcode::LEA),
        15 => Some(Opcode::TRAP),
        _ => None,
    }
}

/// Bits 11..9: the destination register (DR), the source register of a
/// store (SR), or the N, Z, P mask of a branch.
pub open spec fn field_dr(i: u16) -> u16 {
    (i >> 9) & 0x7
}

/// Bits 8..6: the first source register (SR1) or the base register (BaseR).
pub open spec fn field_sr1(i: u16) -> u16 {
    (i >> 6) & 0x7
}

/// Bits 2..0: the second source register (SR2).
pub open spec fn field_sr2(i: u16) -> u16 {
    i & 0x7
}

/// Bit 5: set when ADD and AND take an immediate operand.
pub open spec fn imm_mode(i: u16) -> bool {
    (i >> 5) & 0x1 == 1
}

/// Bit 11 of JSR: set when the target is PC-relative.
pub open spec fn jsr_pc_relative(i: u16) -> bool {
    (i >> 11) & 0x1 != 0
}

/// Bits 4..0, sign-extended.
pub open spec fn imm5(i: u16) -> u16 {
    sext((i & 0x1F) as int, 5) as u16
}

/// Bits 5..0, sign-extended.
pub open spec fn offset6(i: u16) -> u16 {
    sext((i & 0x3F) as int, 6) as u16
}

/// Bits 8..0, sign-extended.
pub open spec fn offset9(i: u16) -> u16 {
    sext((i & 0x1FF) as int, 9) as u16
}

/// Bits 10..0, sign-extended.
pub open spec fn offset11(i: u16) -> u16 {
    sext((i & 0x7FF) as int, 11) as u16
}

/// Addition of words modulo 2^16.
pub open spec fn add16(a: u16, b: u16) -> u16 {
    ((a + b) % 0x10000) as u16
}

proof fn lemma_wrapping_add(a: u16, b: u16)
    ensures
        a.wrapping_add(b) == add16(a, b),
        b.wrapping_add(a) == add16(a, b),
{
}

/// The state after writing `v` to the destination register of `i` and
/// setting the condition codes from it.
pub open spec fn set_dr(i: u16, s: MachineState, v: u16) -> MachineState {
    s.with_regs(s.regs.with_reg(field_dr(i) as int, v).with_cond_from(field_dr(i) as int))
}

/// ADD: DR = SR1 + (imm5 or SR2), modulo 2^16; sets the condition codes.
pub open spec fn add_spec(i: u16, s: MachineState) -> MachineState {
    let a = s.regs.reg(field_sr1(i) as int);
    let b = if imm_mode(i) { imm5(i) } else { s.regs.reg(field_sr2(i) as int) };
    set_dr(i, s, add16(a, b))
}

/// AND: DR = SR1 & (imm5 or SR2); sets the condition codes.
pub open spec fn and_spec(i: u16, s: MachineState) -> MachineState {
    let a = s.regs.reg(field_sr1(i) as int);
    let b = if imm_mode(i) { imm5(i) } else { s.regs.reg(field_sr2(i) as int) };
    set_dr(i, s, a & b)
}

/// NOT: DR = bitwise complement of SR; sets the condition codes.
pub open spec fn not_spec(i: u16, s: MachineState) -> MachineState {
    set_dr(i, s, !s.regs.reg(field_sr1(i) as int))
}

proof fn lemma_imm5(i: u16)
    ensures
        (i & 0x1F) < pow2(5),
{
    lemma_field_bounds(i);
    vstd::arithmetic::power2::lemma2_to64();
}

/// ADD ("0001"): adds SR1 to SR2 or to the sign-extended 5-bit immediate.
pub fn add(instr: u16, vm: &mut VM)
    ensures
        final(vm)@ == add_spec(instr, old(vm)@),
{
    proof {
        lemma_field_bounds(instr);
        lemma_imm5(instr);
    }
    let dr = (instr >> 9) & 0x7;
    let sr1 = (instr >> 6) & 0x7;
    let imm_flag = (instr >> 5) & 0x1;
    if imm_flag == 1 {
        let imm5 = sign_extend(instr & 0x1F, 5);
        let val = imm5.wrapping_add(vm.registers.get(sr1));
        proof {
            lemma_wrapping_add(imm5, vm.registers.reg(sr1 as int));
        }
        vm.registers.update(dr, val);
    } else {
        let sr2 = instr & 0x7;
        let val = vm.registers.get(sr1).wrapping_add(vm.registers.get(sr2));
        proof {
            lemma_wrapping_add(vm.registers.reg(sr1 as int), vm.registers.reg(sr2 as int));
        }
        vm.registers.update(dr, val);
    }
    vm.registers.update_cond(dr);
}

/// AND ("0101"): bitwise and of SR1 with SR2 or with the sign-extended 5-bit immediate.
pub fn and(instr: u16, vm: &mut VM)
    ensures
        final(vm)@ == and_spec(instr, old(vm)@),
{
    proof {
        lemma_field_bounds(instr);
        lemma_imm5(instr);
    }
    let dr = (instr >> 9) & 0x7;
    let sr1 = (instr >> 6) & 0x7;
    let imm_flag = (instr >> 5) & 0x1;
    if imm_flag == 1 {
        let imm5 = sign_extend(instr & 0x1F, 5);
        let val = vm.registers.get(sr1) & imm5;
        vm.registers.update(dr, val);
    } else {
        let sr2 = instr & 0x7;
        let val = vm.registers.get(sr1) & vm.registers.get(sr2);
        vm.registers.update(dr, val);
    }
    vm.registers.update_cond(dr);
}

/// NOT ("1001"): bitwise complement of SR.
pub fn not(instr: u16, vm: &mut VM)
    ensures
        final(vm)@ == not_spec(instr, old(vm)@),
{
    proof {
        lemma_field_bounds(instr);
    }
    let dr = (instr >> 9) & 0x7;
    let sr1 = (instr >> 6) & 0x7;
    let val = !vm.registers.get(sr1);
    vm.registers.update(dr, val);
    vm.registers.update_cond(dr);
}


/// The PC-relative address of `i`: PC + sign-extended 9-bit offset, modulo 2^16.
pub open spec fn pc_relative(i: u16, s: MachineState) -> u16 {
    add16(s.regs.pc, offset9(i))
}

/// The base-relative address of `i`: BaseR + sign-extended 6-bit offset, modulo 2^16.
pub open spec fn base_relative(i: u16, s: MachineState) -> u16 {
    add16(s.regs.reg(field_sr1(i) as int), offset6(i))
}

/// BR: when the N, Z, P mask shares a bit with the condition codes,
/// PC = PC + offset9.
pub open spec fn br_spec(i: u16, s: MachineState) -> MachineState {
    if field_dr(i) & s.regs.cond != 0 {
        s.with_regs(s.regs.with_pc(pc_relative(i, s)))
    } else {
        s
    }
}

/// JMP: PC = BaseR.
pub open spec fn jmp_spec(i: u16, s: MachineState) -> MachineState {
    s.with_regs(s.regs.with_pc(s.regs.reg(field_sr1(i) as int)))
}

/// JSR / JSRR: the target is PC + offset11, or BaseR as it was before the
/// instruction; then R7 = PC and PC = target.
pub open spec fn jsr_spec(i: u16, s: MachineState) -> MachineState {
    let target = if jsr_pc_relative(i) {
        add16(s.regs.pc, offset11(i))
    } else {
        s.regs.reg(field_sr1(i) as int)
    };
    s.with_regs(s.regs.with_reg(7, s.regs.pc).with_pc(target))
}

/// LD: DR = mem[PC + offset9]; sets the condition codes.
pub open spec fn ld_spec(i: u16, s: MachineState) -> MachineState {
    set_dr(i, s, s.read(pc_relative(i, s) as int))
}

/// LDI: DR = mem[mem[PC + offset9]]; sets the condition codes.
pub open spec fn ldi_spec(i: u16, s: MachineState) -> MachineState {
    set_dr(i, s, s.read(s.read(pc_relative(i, s) as int) as int))
}

/// LDR: DR = mem[BaseR + offset6]; sets the condition codes.
pub open spec fn ldr_spec(i: u16, s: MachineState) -> MachineState {
    set_dr(i, s, s.read(base_relative(i, s) as int))
}

/// LEA: DR = PC + offset9; sets the condition codes.
pub open spec fn lea_spec(i: u16, s: MachineState) -> MachineState {
    set_dr(i, s, pc_relative(i, s))
}

/// ST: mem[PC + offset9] = SR.
pub open spec fn st_spec(i: u16, s: MachineState) -> MachineState {
    s.write(pc_relative(i, s) as int, s.regs.reg(field_dr(i) as int))
}

/// STI: mem[mem[PC + offset9]] = SR.
pub open spec fn sti_spec(i: u16, s: MachineState) -> MachineState {
    s.write(s.read(pc_relative(i, s) as int) as int, s.regs.reg(field_dr(i) as int))
}

/// STR: mem[BaseR + offset6] = SR.
pub open spec fn str_spec(i: u16, s: MachineState) -> MachineState {
    s.write(base_relative(i, s) as int, s.regs.reg(field_dr(i) as int))
}

proof fn lemma_offsets(i: u16)
    ensures
        (i & 0x3F) < pow2(6),
        (i & 0x1FF) < pow2(9),
        (i & 0x7FF) < pow2(11),
{
    lemma_field_bounds(i);
    vstd::arithmetic::power2::lemma2_to64();
}

/// BR ("0000"): conditional PC-relative branch on the N, Z, P mask.
pub fn br(instr: u16, vm: &mut VM)
    ensures
        final(vm)@ == br_spec(instr, old(vm)@),
{
    proof {
        lemma_field_bounds(instr);
        lemma_offsets(instr);
    }
    let pc_off = sign_extend(instr & 0x1ff, 9);
    let cond_flag = (instr >> 9) & 0x7;
    if cond_flag & vm.registers.cond != 0 {
        let val = vm.registers.pc.wrapping_add(pc_off);
        proof {
            lemma_wrapping_add(vm.registers.pc, pc_off);
        }
        vm.registers.pc = val;
    }
}

/// JMP ("1100"): unconditional jump to the address in BaseR (RET when BaseR is R7).
pub fn jmp(instr: u16, vm: &mut VM)
    ensures
        final(vm)@ == jmp_spec(instr, old(vm)@),
{
    proof {
        lemma_field_bounds(instr);
    }
    let base = (instr >> 6) & 0x7;
    vm.registers.pc = vm.registers.get(base);
}

/// JSR / JSRR ("0100"): saves the PC in R7 and jumps PC-relative or to the
/// address BaseR held before R7 was written.
pub fn jsr(instr: u16, vm: &mut VM)
    ensures
        final(vm)@ == jsr_spec(instr, old(vm)@),
{
    proof {
        lemma_field_bounds(instr);
        lemma_offsets(instr);
    }
    let base_reg = (instr >> 6) & 0x7;
    let flag = (instr >> 11) & 0x1;
    let pc_off = sign_extend(instr & 0x7ff, 11);
    let target = if flag != 0 {
        proof {
            lemma_wrapping_add(vm.registers.pc, pc_off);
        }
        vm.registers.pc.wrapping_add(pc_off)
    } else {
        vm.registers.get(base_reg)
    };
    vm.registers.r7 = vm.registers.pc;
    vm.registers.pc = target;
}

/// LD ("0010"): loads the word at PC + offset9.
pub fn ld(instr: u16, vm: &mut VM)
    ensures
        final(vm)@ == ld_spec(instr, old(vm)@),
{
    proof {
        lemma_field_bounds(instr);
        lemma_offsets(instr);
    }
    let dr = (instr >> 9) & 0x7;
    let pc_off = sign_extend(instr & 0x1ff, 9);
    let mem = pc_off.wrapping_add(vm.registers.pc);
    proof {
        lemma_wrapping_add(vm.registers.pc, pc_off);
    }
    let value = vm.read_mem(mem);
    vm.registers.update(dr, value);
    vm.registers.update_cond(dr);
}

/// LDI ("1010"): loads the word whose address is stored at PC + offset9.
pub fn ldi(instr: u16, vm: &mut VM)
    ensures
        final(vm)@ == ldi_spec(instr, old(vm)@),
{
    proof {
        lemma_field_bounds(instr);
        lemma_offsets(instr);
    }
    let dr = (instr >> 9) & 0x7;
    let pc_off = sign_extend(instr & 0x1ff, 9);
    let addr = vm.registers.pc.wrapping_add(pc_off);
    proof {
        lemma_wrapping_add(vm.registers.pc, pc_off);
    }
    let first_read = vm.read_mem(addr);
    let res = vm.read_mem(first_read);
    vm.registers.update(dr, res);
    vm.registers.update_cond(dr);
}

/// LDR ("0110"): loads the word at BaseR + offset6.
pub fn ldr(instr: u16, vm: &mut VM)
    ensures
        final(vm)@ == ldr_spec(instr, old(vm)@),
{
    proof {
        lemma_field_bounds(instr);
        lemma_offsets(instr);
    }
    let dr = (instr >> 9) & 0x7;
    let base = (instr >> 6) & 0x7;
    let pc_off = sign_extend(instr & 0x3f, 6);
    let val = vm.registers.get(base).wrapping_add(pc_off);
    proof {
        lemma_wrapping_add(vm.registers.reg(base as int), pc_off);
    }
    let mem_value = vm.read_mem(val);
    vm.registers.update(dr, mem_value);
    vm.registers.update_cond(dr);
}

/// LEA ("1110"): loads the address PC + offset9 itself.
pub fn lea(instr: u16, vm: &mut VM)
    ensures
        final(vm)@ == lea_spec(instr, old(vm)@),
{
    proof {
        lemma_field_bounds(instr);
        lemma_offsets(instr);
    }
    let dr = (instr >> 9) & 0x7;
    let pc_off = sign_extend(instr & 0x1ff, 9);
    let ea = vm.registers.pc.wrapping_add(pc_off);
    proof {
        lemma_wrapping_add(vm.registers.pc, pc_off);
    }
    vm.registers.update(dr, ea);
    vm.registers.update_cond(dr);
}

/// ST ("0011"): stores SR at PC + offset9.
pub fn st(instr: u16, vm: &mut VM)
    ensures
        final(vm)@ == st_spec(instr, old(vm)@),
{
    proof {
        lemma_field_bounds(instr);
        lemma_offsets(instr);
    }
    let sr = (instr >> 9) & 0x7;
    let pc_off = sign_extend(instr & 0x1ff, 9);
    let addr = vm.registers.pc.wrapping_add(pc_off);
    proof {
        lemma_wrapping_add(vm.registers.pc, pc_off);
    }
    let value = vm.registers.get(sr);
    vm.write_mem(addr as usize, value);
}

/// STI ("1011"): stores SR at the address stored at PC + offset9.
pub fn sti(instr: u16, vm: &mut VM)
    ensures
        final(vm)@ == sti_spec(instr, old(vm)@),
{
    proof {
        lemma_field_bounds(instr);
        lemma_offsets(instr);
    }
    let sr = (instr >> 9) & 0x7;
    let pc_off = sign_extend(instr & 0x1ff, 9);
    let addr = vm.registers.pc.wrapping_add(pc_off);
    proof {
        lemma_wrapping_add(vm.registers.pc, pc_off);
    }
    let val = vm.read_mem(addr);
    let value = vm.registers.get(sr);
    vm.write_mem(val as usize, value);
}

/// STR ("0111"): stores SR at BaseR + offset6.
pub fn str(instr: u16, vm: &mut VM)
    ensures
        final(vm)@ == str_spec(instr, old(vm)@),
{
    proof {
        lemma_field_bounds(instr);
        lemma_offsets(instr);
    }
    let sr = (instr >> 9) & 0x7;
    let base_r = (instr >> 6) & 0x7;
    let pc_off = sign_extend(instr & 0x3f, 6);
    let addr = vm.registers.get(base_r).wrapping_add(pc_off);
    proof {
        lemma_wrapping_add(vm.registers.reg(base_r as int), pc_off);
    }
    let value = vm.registers.get(sr);
    vm.write_mem(addr as usize, value);
}


/// The trap vectors of the standard trap routines.
#[derive(Clone, Copy, Debug, PartialEq, Eq, Structural)]
pub enum TrapCode {
    /// Get a character from the keyboard (0x20).
    Getc,
    /// Output a character (0x21).
    Out,
    /// Output a word string (0x22).
    Puts,
    /// Input a character, with a prompt (0x23).
    In,
    /// Output a byte string, two characters per word (0x24).
    Putsp,
    /// Halt the program (0x25).
    Halt,
}

impl TrapCode {
    /// The trap vector of the routine.
    pub open spec fn spec_code(self) -> u16 {
        match self {
            TrapCode::Getc => 0x20,
            TrapCode::Out => 0x21,
            TrapCode::Puts => 0x22,
            TrapCode::In => 0x23,
            TrapCode::Putsp => 0x24,
            TrapCode::Halt => 0x25,
        }
    }

    /// The trap vector of the routine.
    pub fn code(&self) -> (c: u16)
        ensures
            c == self.spec_code(),
    {
        match self {
            TrapCode::Getc => 0x20,
            TrapCode::Out => 0x21,
            TrapCode::Puts => 0x22,
            TrapCode::In => 0x23,
            TrapCode::Putsp => 0x24,
            TrapCode::Halt => 0x25,
        }
    }
}

/// The routine that a trap vector names, if any.
pub open spec fn trap_code_of(vector: u16) -> Option<TrapCode> {
    if vector == 0x20 {
        Some(TrapCode::Getc)
    } else if vector == 0x21 {
        Some(TrapCode::Out)
    } else if vector == 0x22 {
        Some(TrapCode::Puts)
    } else if vector == 0x23 {
        Some(TrapCode::In)
    } else if vector == 0x24 {
        Some(TrapCode::Putsp)
    } else if vector == 0x25 {
        Some(TrapCode::Halt)
    } else {
        None
    }
}

/// The routine that a trap vector names, if any.
pub fn trap_code(vector: u16) -> (c: Option<TrapCode>)
    ensures
        c == trap_code_of(vector),
        c matches Some(t) ==> t.spec_code() == vector,
{
    match vector {
        0x20 => Some(TrapCode::Getc),
        0x21 => Some(TrapCode::Out),
        0x22 => Some(TrapCode::Puts),
        0x23 => Some(TrapCode::In),
        0x24 => Some(TrapCode::Putsp),
        0x25 => Some(TrapCode::Halt),
        _ => None,
    }
}

/// The outside work that a TRAP instruction asks for. Each byte of a
/// `PutChar` or `PutString` stands for the character with that code point.
#[derive(Debug, PartialEq, Eq)]
pub enum TrapRequest {
    /// GETC: read one byte from the keyboard into R0.
    GetChar,
    /// OUT: write this character.
    PutChar(u8),
    /// PUTS, PUTSP: write these characters, then flush the output.
    PutString(Vec<u8>),
    /// IN: write a prompt, flush, then read one byte into R0.
    ReadChar,
    /// HALT: report the halt and stop the machine.
    Halt,
    /// Any other trap vector: stop the machine.
    Unknown,
}

/// The trap vector of a TRAP instruction: its low eight bits.
pub open spec fn trap_vector(i: u16) -> u16 {
    i & 0xFF
}

/// Some address from `a` on (within memory) holds a zero word.
pub open spec fn string_terminates(mem: Seq<u16>, a: int) -> bool {
    exists|k: int| a <= k < MEMORY_SIZE && #[trigger] mem[k] == 0
}

/// The characters of the zero-terminated word string at `a`: the low byte of
/// each word before the first zero word.
pub open spec fn string_text(mem: Seq<u16>, a: int) -> Seq<u8>
    decreases MEMORY_SIZE - a,
{
    if a < 0 || a >= MEMORY_SIZE || mem[a] == 0 {
        Seq::empty()
    } else {
        seq![(mem[a] % 256) as u8] + string_text(mem, a + 1)
    }
}

/// The characters of the zero-terminated packed string at `a`: for each word
/// before the first zero word, its low byte, then its high byte unless that is zero.
pub open spec fn packed_text(mem: Seq<u16>, a: int) -> Seq<u8>
    decreases MEMORY_SIZE - a,
{
    if a < 0 || a >= MEMORY_SIZE || mem[a] == 0 {
        Seq::empty()
    } else {
        let lo = seq![(mem[a] % 256) as u8];
        let hi = if mem[a] / 256 != 0 { seq![(mem[a] / 256) as u8] } else { Seq::empty() };
        lo + hi + packed_text(mem, a + 1)
    }
}

/// The trap routines that the machine can run from state `s`: the string
/// outputs need a zero word at or after R0.
pub open spec fn trap_defined(i: u16, s: MachineState) -> bool {
    (trap_vector(i) == 0x22 || trap_vector(i) == 0x24) ==> string_terminates(s.mem, s.regs.r0 as int)
}

/// `req` is what the TRAP instruction `i` asks for from state `s`.
pub open spec fn trap_request_of(req: TrapRequest, i: u16, s: MachineState) -> bool {
    let v = trap_vector(i);
    if v == 0x20 {
        req is GetChar
    } else if v == 0x21 {
        req matches TrapRequest::PutChar(c) && c == (s.regs.r0 % 256) as u8
    } else if v == 0x22 {
        req matches TrapRequest::PutString(t) && t@ == string_text(s.mem, s.regs.r0 as int)
    } else if v == 0x23 {
        req is ReadChar
    } else if v == 0x24 {
        req matches TrapRequest::PutString(t) && t@ == packed_text(s.mem, s.regs.r0 as int)
    } else if v == 0x25 {
        req is Halt
    } else {
        req is Unknown
    }
}

/// The characters of the word string at `start` (PUTS).
fn read_string(vm: &mut VM, start: u16) -> (text: Vec<u8>)
    requires
        string_terminates(old(vm)@.mem, start as int),
    ensures
        text@ == string_text(old(vm)@.mem, start as int),
        *final(vm) == *old(vm),
{
    let ghost mem = vm@.mem;
    let ghost k = choose|k: int| start <= k < MEMORY_SIZE && #[trigger] mem[k] == 0;
    let mut text: Vec<u8> = Vec::new();
    let mut index = start;
    let mut c = vm.read_mem(index);
    while c != 0x0000
        invariant
            *vm == *old(vm),
            mem == old(vm)@.mem,
            start <= index <= k < MEMORY_SIZE,
            mem[k] == 0,
            c == mem[index as int],
            text@ + string_text(mem, index as int) == string_text(mem, start as int),
        decreases k - index,
    {
        text.push((c % 256) as u8);
        assert(string_text(mem, index as int) == seq![(c % 256) as u8] + string_text(mem, index + 1));
        assert(text@ + string_text(mem, index + 1) =~= string_text(mem, start as int));
        index = index + 1;
        c = vm.read_mem(index);
    }
    assert(text@ =~= text@ + string_text(mem, index as int));
    text
}

/// The characters of the packed string at `start` (PUTSP).
fn read_packed_string(vm: &mut VM, start: u16) -> (text: Vec<u8>)
    requires
        string_terminates(old(vm)@.mem, start as int),
    ensures
        text@ == packed_text(old(vm)@.mem, start as int),
        *final(vm) == *old(vm),
{
    let ghost mem = vm@.mem;
    let ghost k = choose|k: int| start <= k < MEMORY_SIZE && #[trigger] mem[k] == 0;
    let mut text: Vec<u8> = Vec::new();
    let mut index = start;
    let mut c = vm.read_mem(index);
    while c != 0x0000
        invariant
            *vm == *old(vm),
            mem == old(vm)@.mem,
            start <= index <= k < MEMORY_SIZE,
            mem[k] == 0,
            c == mem[index as int],
            text@ + packed_text(mem, index as int) == packed_text(mem, start as int),
        decreases k - index,
    {
        let ghost before = text@;
        let c1 = (c % 256) as u8;
        text.push(c1);
        let c2 = (c / 256) as u8;
        if c2 != 0 {
            text.push(c2);
        }
        let ghost hi = if c / 256 != 0 { seq![(c / 256) as u8] } else { Seq::<u8>::empty() };
        assert(text@ =~= before + seq![c1] + hi);
        assert(packed_text(mem, index as int) == seq![c1] + hi + packed_text(mem, index + 1));
        assert(text@ + packed_text(mem, index + 1) =~= packed_text(mem, start as int));
        index = index + 1;
        c = vm.read_mem(index);
    }
    assert(text@ =~= text@ + packed_text(mem, index as int));
    text
}

/// TRAP ("1111"): decides what the trap routine named by the low eight bits
/// asks for; the machine itself is left as it was.
pub fn trap(instr: u16, vm: &mut VM) -> (req: TrapRequest)
    requires
        trap_defined(instr, old(vm)@),
    ensures
        trap_request_of(req, instr, old(vm)@),
        *final(vm) == *old(vm),
{
    proof {
        lemma_field_bounds(instr);
    }
    match trap_code(instr & 0xff) {
        Some(TrapCode::Getc) => TrapRequest::GetChar,
        Some(TrapCode::Out) => TrapRequest::PutChar((vm.registers.r0 % 256) as u8),
        Some(TrapCode::Puts) => {
            let start = vm.registers.r0;
            TrapRequest::PutString(read_string(vm, start))
        },
        Some(TrapCode::In) => TrapRequest::ReadChar,
        Some(TrapCode::Putsp) => {
            let start = vm.registers.r0;
            TrapRequest::PutString(read_packed_string(vm, start))
        },
        Some(TrapCode::Halt) => TrapRequest::Halt,
        None => TrapRequest::Unknown,
    }
}

/// Completes GETC and IN: the byte read from the keyboard goes into R0,
/// and nothing else changes.
pub fn receive_char(vm: &mut VM, ch: u8)
    ensures
        final(vm)@ == old(vm)@.with_regs(old(vm)@.regs.with_reg(0, ch as u16)),
{
    vm.registers.update(0, ch as u16);
}


/// The instructions that the machine can execute from state `s`: every one
/// but a string output whose string has no terminator before the end of memory.
pub open spec fn exec_defined(i: u16, s: MachineState) -> bool {
    opcode_of(i) == Opcode::TRAP ==> trap_defined(i, s)
}

/// The state after executing `i` from `s`. RTI and the reserved opcode do
/// nothing; TRAP leaves the state to its request.
pub open spec fn exec_spec(i: u16, s: MachineState) -> MachineState {
    match opcode_of(i) {
        Opcode::BR => br_spec(i, s),
        Opcode::ADD => add_spec(i, s),
        Opcode::LD => ld_spec(i, s),
        Opcode::ST => st_spec(i, s),
        Opcode::JSR => jsr_spec(i, s),
        Opcode::AND => and_spec(i, s),
        Opcode::LDR => ldr_spec(i, s),
        Opcode::STR => str_spec(i, s),
        Opcode::NOT => not_spec(i, s),
        Opcode::LDI => ldi_spec(i, s),
        Opcode::STI => sti_spec(i, s),
        Opcode::JMP => jmp_spec(i, s),
        Opcode::LEA => lea_spec(i, s),
        Opcode::RTI | Opcode::RES | Opcode::TRAP => s,
    }
}

/// Executes one instruction. A TRAP instruction returns what its routine asks
/// for; every other instruction returns `None`.
pub fn exec_instr(instr: u16, vm: &mut VM) -> (req: Option<TrapRequest>)
    requires
        exec_defined(instr, old(vm)@),
    ensures
        final(vm)@ == exec_spec(instr, old(vm)@),
        opcode_of(instr) == Opcode::TRAP ==> (req matches Some(t) && trap_request_of(
            t,
            instr,
            old(vm)@,
        )),
        opcode_of(instr) != Opcode::TRAP ==> req is None,
        cond_valid(old(vm).registers.cond) ==> cond_valid(final(vm).registers.cond),
        opcode_of(instr) != Opcode::BR && opcode_of(instr) != Opcode::JSR && opcode_of(instr)
            != Opcode::JMP ==> final(vm).registers.pc == old(vm).registers.pc,
{
    let op_code = get_op_code(&instr);
    match op_code {
        Some(Opcode::ADD) => {
            self::add(instr, vm);
            None
        },
        Some(Opcode::AND) => {
            and(instr, vm);
            None
        },
        Some(Opcode::NOT) => {
            not(instr, vm);
            None
        },
        Some(Opcode::BR) => {
            br(instr, vm);
            None
        },
        Some(Opcode::JMP) => {
            jmp(instr, vm);
            None
        },
        Some(Opcode::JSR) => {
            jsr(instr, vm);
            None
        },
        Some(Opcode::LD) => {
            ld(instr, vm);
            None
        },
        Some(Opcode::LDI) => {
            ldi(instr, vm);
            None
        },
        Some(Opcode::LDR) => {
            ldr(instr, vm);
            None
        },
        Some(Opcode::LEA) => {
            lea(instr, vm);
            None
        },
        Some(Opcode::ST) => {
            st(instr, vm);
            None
        },
        Some(Opcode::STI) => {
            sti(instr, vm);
            None
        },
        Some(Opcode::STR) => {
            str(instr, vm);
            None
        },
        Some(Opcode::TRAP) => Some(trap(instr, vm)),
        _ => None,
    }
}

/// Whether a zero word lies at `start` or after it in `memory`.
fn find_terminator(memory: &[u16; MEMORY_SIZE], start: u16) -> (found: bool)
    ensures
        found == string_terminates(memory@, start as int),
{
    let mut a: usize = start as usize;
    while a < MEMORY_SIZE
        invariant
            start <= a <= MEMORY_SIZE,
            forall|k: int| start <= k < a ==> memory@[k] != 0,
        decreases MEMORY_SIZE - a,
    {
        if memory[a] == 0 {
            assert(memory@[a as int] == 0);
            return true;
        }
        a = a + 1;
    }
    false
}

/// Whether `instr` can be executed on the machine with this memory and
/// this register file.
pub(crate) fn exec_defined_on(instr: u16, memory: &[u16; MEMORY_SIZE], regs: &Registers) -> (ok: bool)
    ensures
        ok == exec_defined(instr, MachineState { mem: memory@, regs: *regs }),
{
    proof {
        lemma_field_bounds(instr);
    }
    if instr >> 12 == 15 {
        let vector = instr & 0xff;
        if vector == 0x22 || vector == 0x24 {
            find_terminator(memory, regs.r0)
        } else {
            true
        }
    } else {
        true
    }
}

/// The address from which LD, LDI and LDR load the word they write to their
/// destination register; `None` for every other instruction.
pub open spec fn load_address(i: u16, s: MachineState) -> Option<u16> {
    match opcode_of(i) {
        Opcode::LD => Some(pc_relative(i, s)),
        Opcode::LDI => Some(s.read(pc_relative(i, s) as int)),
        Opcode::LDR => Some(base_relative(i, s)),
        _ => None,
    }
}

/// The address from which `instr` loads into its destination register, on
/// the machine with this memory and this register file.
pub(crate) fn load_address_on(instr: u16, memory: &[u16; MEMORY_SIZE], regs: &Registers) -> (a: Option<u16>)
    ensures
        a == load_address(instr, MachineState { mem: memory@, regs: *regs }),
{
    proof {
        lemma_field_bounds(instr);
        lemma_offsets(instr);
    }
    let op = instr >> 12;
    if op == 2 || op == 10 {
        let pc_off = sign_extend(instr & 0x1ff, 9);
        let addr = regs.pc.wrapping_add(pc_off);
        proof {
            lemma_wrapping_add(regs.pc, pc_off);
        }
        if op == 2 {
            Some(addr)
        } else {
            Some(memory[addr as usize])
        }
    } else if op == 6 {
        let base = (instr >> 6) & 0x7;
        let pc_off = sign_extend(instr & 0x3f, 6);
        let addr = regs.get(base).wrapping_add(pc_off);
        proof {
            lemma_wrapping_add(regs.reg(base as int), pc_off);
        }
        Some(addr)
    } else {
        None
    }
}

/// Whether `exec_instr` can execute `instr` on this machine.
pub fn can_exec(instr: u16, vm: &VM) -> (ok: bool)
    ensures
        ok == exec_defined(instr, vm@),
{
    exec_defined_on(instr, &vm.memory, &vm.registers)
}

} // verus!
