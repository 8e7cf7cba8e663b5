//! Laws that state what each instruction does directly in terms of the bits
//! of the instruction word and the machine state before it, independently of
//! the decoding helpers the implementation uses.
use vstd::prelude::*;

use super::instruction::{
    add16, base_relative, exec_spec, pc_relative, field_dr, field_sr1, field_sr2, imm5, imm_mode, jsr_pc_relative,
    lemma_field_bounds, offset11, offset6, offset9, opcode_of, packed_text, string_text,
    trap_request_of, trap_vector, Opcode, TrapRequest,
};
use super::MEMORY_SIZE;
use super::vm::MachineState;
use super::{current_instr, fetched, keyboard_poll_due};
use vstd::arithmetic::power2::pow2;

verus! {

/// The unsigned number held by a bit field of `i`: `unit` is 2 to the power
/// of the field's lowest bit and `size` is 2 to the power of its width.
pub open spec fn ubits(i: u16, unit: int, size: int) -> int {
    (i as int / unit) % size
}

/// The two's-complement number held by a bit field of `i` (see `ubits`).
pub open spec fn sbits(i: u16, unit: int, size: int) -> int {
    if ubits(i, unit, size) >= size / 2 {
        ubits(i, unit, size) - size
    } else {
        ubits(i, unit, size)
    }
}

/// An integer reduced modulo 2^16.
pub open spec fn wrap(x: int) -> int {
    x % 0x10000
}

/// The condition code a written value sets: Z (2) for zero, N (4) when bit 15
/// is set, P (1) otherwise.
pub open spec fn sign_code(v: int) -> u16 {
    if v == 0 {
        2
    } else if v >= 0x8000 {
        4
    } else {
        1
    }
}

proof fn lemma_sext_field(x: int, n: nat, m: nat, size: int)
    requires
        m + 1 == n,
        size == vstd::arithmetic::power2::pow2(n),
        0 <= x < size,
        size <= 0x8000,
    ensures
        super::instruction::sext(x, n) as u16 as int == wrap(
            if x >= size / 2 { x - size } else { x },
        ),
{
    vstd::arithmetic::power2::lemma_pow2_adds(m, 1);
    vstd::arithmetic::power2::lemma2_to64();
}

/// How the decoding helpers read the bits of an instruction word.
proof fn lemma_decode(i: u16)
    ensures
        opcode_of(i).spec_code() as int == ubits(i, 4096, 16),
        field_dr(i) as int == ubits(i, 512, 8),
        field_sr1(i) as int == ubits(i, 64, 8),
        field_sr2(i) as int == ubits(i, 1, 8),
        imm_mode(i) == (ubits(i, 32, 2) == 1),
        jsr_pc_relative(i) == (ubits(i, 2048, 2) == 1),
        imm5(i) as int == wrap(sbits(i, 1, 32)),
        offset6(i) as int == wrap(sbits(i, 1, 64)),
        offset9(i) as int == wrap(sbits(i, 1, 512)),
        offset11(i) as int == wrap(sbits(i, 1, 2048)),
        trap_vector(i) as int == ubits(i, 1, 256),
{
    lemma_field_bounds(i);
    assert((i >> 12u16) == i / 4096u16) by (bit_vector);
    assert(((i >> 9u16) & 7u16) == (i / 512u16) % 8u16) by (bit_vector);
    assert(((i >> 6u16) & 7u16) == (i / 64u16) % 8u16) by (bit_vector);
    assert((i & 7u16) == i % 8u16) by (bit_vector);
    assert(((i >> 5u16) & 1u16) == (i / 32u16) % 2u16) by (bit_vector);
    assert(((i >> 11u16) & 1u16) == (i / 2048u16) % 2u16) by (bit_vector);
    assert((i & 0x1Fu16) == i % 32u16) by (bit_vector);
    assert((i & 0x3Fu16) == i % 64u16) by (bit_vector);
    assert((i & 0x1FFu16) == i % 512u16) by (bit_vector);
    assert((i & 0x7FFu16) == i % 2048u16) by (bit_vector);
    assert((i & 0xFFu16) == i % 256u16) by (bit_vector);
    vstd::arithmetic::power2::lemma2_to64();
    lemma_sext_field((i & 0x1F) as int, 5, 4, 32);
    lemma_sext_field((i & 0x3F) as int, 6, 5, 64);
    lemma_sext_field((i & 0x1FF) as int, 9, 8, 512);
    lemma_sext_field((i & 0x7FF) as int, 11, 10, 2048);
}


proof fn lemma_wrap_add(a: int, b: int)
    requires
        0 <= a < 0x10000,
        -0x10000 < b < 0x10000,
    ensures
        (a + wrap(b)) % 0x10000 == wrap(a + b),
{
    if b < 0 {
        vstd::arithmetic::div_mod::lemma_mod_add_multiples_vanish(b, 0x10000);
        vstd::arithmetic::div_mod::lemma_mod_add_multiples_vanish(a + b, 0x10000);
        assert(wrap(b) == b + 0x10000);
    } else {
        assert(wrap(b) == b);
    }
}

/// Every general-purpose register but `dr`, the program counter and memory
/// are as they were.
pub open spec fn only_register_changed(t: MachineState, s: MachineState, dr: int) -> bool {
    &&& forall|r: int| 0 <= r < 8 && r != dr ==> #[trigger] t.regs.reg(r) == s.regs.reg(r)
    &&& t.regs.pc == s.regs.pc
    &&& t.mem == s.mem
}

/// ADD (top four bits 0001) writes to the register named by bits 11..9 the
/// sum, modulo 2^16, of the register named by bits 8..6 and either the
/// register named by bits 2..0 (bit 5 clear) or the two's-complement number
/// in bits 4..0 (bit 5 set); the condition code follows the sign of the sum.
pub proof fn law_add_bits(i: u16, s: MachineState)
    requires
        ubits(i, 4096, 16) == 1,
    ensures
        ({
            let dr = ubits(i, 512, 8);
            let a = s.regs.reg(ubits(i, 64, 8)) as int;
            let b = if ubits(i, 32, 2) == 1 {
                sbits(i, 1, 32)
            } else {
                s.regs.reg(ubits(i, 1, 8)) as int
            };
            let t = exec_spec(i, s);
            &&& t.regs.reg(dr) as int == wrap(a + b)
            &&& t.regs.cond == sign_code(wrap(a + b))
            &&& only_register_changed(t, s, dr)
        }),
{
    lemma_decode(i);
    assert(opcode_of(i) == Opcode::ADD);
    let a = s.regs.reg(ubits(i, 64, 8)) as int;
    if ubits(i, 32, 2) == 1 {
        lemma_wrap_add(a, sbits(i, 1, 32));
    } else {
        lemma_wrap_add(a, s.regs.reg(ubits(i, 1, 8)) as int);
    }
}

/// AND (top four bits 0101) writes to the register named by bits 11..9 the
/// bitwise and of the register named by bits 8..6 with either the register
/// named by bits 2..0 (bit 5 clear) or the 16-bit sign extension of the
/// two's-complement number in bits 4..0 (bit 5 set); the condition code
/// follows the sign of the result.
pub proof fn law_and_bits(i: u16, s: MachineState)
    requires
        ubits(i, 4096, 16) == 5,
    ensures
        ({
            let dr = ubits(i, 512, 8);
            let a = s.regs.reg(ubits(i, 64, 8));
            let b: u16 = if ubits(i, 32, 2) == 1 {
                wrap(sbits(i, 1, 32)) as u16
            } else {
                s.regs.reg(ubits(i, 1, 8))
            };
            let t = exec_spec(i, s);
            &&& t.regs.reg(dr) == a & b
            &&& t.regs.cond == sign_code((a & b) as int)
            &&& only_register_changed(t, s, dr)
        }),
{
    lemma_decode(i);
    assert(opcode_of(i) == Opcode::AND);
}

/// NOT (top four bits 1001) writes to the register named by bits 11..9 the
/// bitwise complement of the register named by bits 8..6, and sets the
/// condition code from it.
pub proof fn law_not_bits(i: u16, s: MachineState)
    requires
        ubits(i, 4096, 16) == 9,
    ensures
        ({
            let dr = ubits(i, 512, 8);
            let v = s.regs.reg(ubits(i, 64, 8));
            let t = exec_spec(i, s);
            &&& t.regs.reg(dr) == !v
            &&& t.regs.reg(dr) as int == 0xFFFF - v as int
            &&& t.regs.cond == sign_code(0xFFFF - v as int)
            &&& only_register_changed(t, s, dr)
        }),
{
    lemma_decode(i);
    assert(opcode_of(i) == Opcode::NOT);
    let v = s.regs.reg(ubits(i, 64, 8));
    assert(!v == 0xFFFF - v) by (bit_vector);
}


/// The PC-relative address of an instruction: the program counter plus the
/// two's-complement number in bits 8..0, modulo 2^16.
pub open spec fn pc_plus_offset9(i: u16, s: MachineState) -> int {
    wrap(s.regs.pc + sbits(i, 1, 512))
}

/// The base-relative address of an instruction: the register named by bits
/// 8..6 plus the two's-complement number in bits 5..0, modulo 2^16.
pub open spec fn base_plus_offset6(i: u16, s: MachineState) -> int {
    wrap(s.regs.reg(ubits(i, 64, 8)) + sbits(i, 1, 64))
}

proof fn lemma_addresses(i: u16, s: MachineState)
    ensures
        pc_relative(i, s) as int == pc_plus_offset9(i, s),
        base_relative(i, s) as int == base_plus_offset6(i, s),
{
    lemma_decode(i);
    lemma_wrap_add(s.regs.pc as int, sbits(i, 1, 512));
    lemma_wrap_add(s.regs.reg(ubits(i, 64, 8)) as int, sbits(i, 1, 64));
}

/// BR (top four bits 0000) branches exactly when bit 11 is set and the
/// condition code is N, or bit 10 is set and it is Z, or bit 9 is set and it
/// is P; a branch sets the program counter to itself plus the
/// two's-complement number in bits 8..0, modulo 2^16. Nothing else changes.
pub proof fn law_br_bits(i: u16, s: MachineState)
    requires
        ubits(i, 4096, 16) == 0,
        s.regs.cond == 1 || s.regs.cond == 2 || s.regs.cond == 4,
    ensures
        ({
            let c = s.regs.cond;
            let taken = (ubits(i, 2048, 2) == 1 && c == 4) || (ubits(i, 1024, 2) == 1 && c == 2)
                || (ubits(i, 512, 2) == 1 && c == 1);
            let t = exec_spec(i, s);
            &&& t.regs.pc as int == if taken {
                pc_plus_offset9(i, s)
            } else {
                s.regs.pc as int
            }
            &&& t.regs.cond == c
            &&& forall|r: int| 0 <= r < 8 ==> #[trigger] t.regs.reg(r) == s.regs.reg(r)
            &&& t.mem == s.mem
        }),
{
    lemma_decode(i);
    lemma_addresses(i, s);
    assert(opcode_of(i) == Opcode::BR);
    let c = s.regs.cond;
    assert((((i >> 9u16) & 7u16) & c != 0) == (((i / 2048u16) % 2u16 == 1u16 && c == 4u16) || (
    (i / 1024u16) % 2u16 == 1u16 && c == 2u16) || ((i / 512u16) % 2u16 == 1u16 && c == 1u16)))
        by (bit_vector)
        requires
            c == 1u16 || c == 2u16 || c == 4u16,
    ;
}

/// JMP (top four bits 1100) sets the program counter to the register named
/// by bits 8..6; nothing else changes.
pub proof fn law_jmp_bits(i: u16, s: MachineState)
    requires
        ubits(i, 4096, 16) == 12,
    ensures
        ({
            let t = exec_spec(i, s);
            &&& t.regs.pc == s.regs.reg(ubits(i, 64, 8))
            &&& t.regs.cond == s.regs.cond
            &&& forall|r: int| 0 <= r < 8 ==> #[trigger] t.regs.reg(r) == s.regs.reg(r)
            &&& t.mem == s.mem
        }),
{
    lemma_decode(i);
    assert(opcode_of(i) == Opcode::JMP);
}

/// JSR and JSRR (top four bits 0100) save the program counter in R7 and jump
/// to the program counter plus the two's-complement number in bits 10..0,
/// modulo 2^16, when bit 11 is set, or else to the value the register named
/// by bits 8..6 held before the instruction. R0 to R6, the condition code and
/// memory do not change.
pub proof fn law_jsr_bits(i: u16, s: MachineState)
    requires
        ubits(i, 4096, 16) == 4,
    ensures
        ({
            let t = exec_spec(i, s);
            &&& t.regs.r7 == s.regs.pc
            &&& t.regs.pc as int == if ubits(i, 2048, 2) == 1 {
                wrap(s.regs.pc + sbits(i, 1, 2048))
            } else {
                s.regs.reg(ubits(i, 64, 8)) as int
            }
            &&& t.regs.cond == s.regs.cond
            &&& forall|r: int| 0 <= r < 7 ==> #[trigger] t.regs.reg(r) == s.regs.reg(r)
            &&& t.mem == s.mem
        }),
{
    lemma_decode(i);
    assert(opcode_of(i) == Opcode::JSR);
    lemma_wrap_add(s.regs.pc as int, sbits(i, 1, 2048));
}

/// LD (0010), LDI (1010), LDR (0110) and LEA (1110) write to the register
/// named by bits 11..9 respectively the word at the PC-relative address, the
/// word at the address stored at the PC-relative address, the word at the
/// base-relative address, and the PC-relative address itself; the condition
/// code follows the sign of the value written. Nothing else changes.
pub proof fn law_load_bits(i: u16, s: MachineState)
    requires
        s.wf(),
        ubits(i, 4096, 16) == 2 || ubits(i, 4096, 16) == 10 || ubits(i, 4096, 16) == 6 || ubits(
            i,
            4096,
            16,
        ) == 14,
    ensures
        ({
            let op = ubits(i, 4096, 16);
            let dr = ubits(i, 512, 8);
            let v: int = if op == 2 {
                s.mem[pc_plus_offset9(i, s)] as int
            } else if op == 10 {
                s.mem[s.mem[pc_plus_offset9(i, s)] as int] as int
            } else if op == 6 {
                s.mem[base_plus_offset6(i, s)] as int
            } else {
                pc_plus_offset9(i, s)
            };
            let t = exec_spec(i, s);
            &&& t.regs.reg(dr) as int == v
            &&& t.regs.cond == sign_code(v)
            &&& only_register_changed(t, s, dr)
        }),
{
    lemma_decode(i);
    lemma_addresses(i, s);
}

/// ST (0011) stores the register named by bits 11..9 at the PC-relative
/// address; every other word and every register stay as they were.
pub proof fn law_st_bits(i: u16, s: MachineState)
    requires
        s.wf(),
        ubits(i, 4096, 16) == 3,
    ensures
        ({
            let t = exec_spec(i, s);
            &&& t.mem.len() == s.mem.len()
            &&& t.mem[pc_plus_offset9(i, s)] == s.regs.reg(ubits(i, 512, 8))
            &&& forall|a: int| 0 <= a < s.mem.len() && a != pc_plus_offset9(i, s) ==> #[trigger] t.mem[a] == s.mem[a]
            &&& t.regs == s.regs
        }),
{
    lemma_decode(i);
    lemma_addresses(i, s);
    assert(opcode_of(i) == Opcode::ST);
}

/// STI (1011) stores the register named by bits 11..9 at the address held in
/// the word at the PC-relative address; every other word and every register
/// stay as they were.
pub proof fn law_sti_bits(i: u16, s: MachineState)
    requires
        s.wf(),
        ubits(i, 4096, 16) == 11,
    ensures
        ({
            let t = exec_spec(i, s);
            &&& t.mem.len() == s.mem.len()
            &&& t.mem[s.mem[pc_plus_offset9(i, s)] as int] == s.regs.reg(ubits(i, 512, 8))
            &&& forall|a: int| 0 <= a < s.mem.len() && a != s.mem[pc_plus_offset9(i, s)] as int ==> #[trigger] t.mem[a] == s.mem[a]
            &&& t.regs == s.regs
        }),
{
    lemma_decode(i);
    lemma_addresses(i, s);
    assert(opcode_of(i) == Opcode::STI);
}

/// STR (0111) stores the register named by bits 11..9 at the base-relative
/// address; every other word and every register stay as they were.
pub proof fn law_str_bits(i: u16, s: MachineState)
    requires
        s.wf(),
        ubits(i, 4096, 16) == 7,
    ensures
        ({
            let t = exec_spec(i, s);
            &&& t.mem.len() == s.mem.len()
            &&& t.mem[base_plus_offset6(i, s)] == s.regs.reg(ubits(i, 512, 8))
            &&& forall|a: int| 0 <= a < s.mem.len() && a != base_plus_offset6(i, s) ==> #[trigger] t.mem[a] == s.mem[a]
            &&& t.regs == s.regs
        }),
{
    lemma_decode(i);
    lemma_addresses(i, s);
    assert(opcode_of(i) == Opcode::STR);
}

/// A TRAP (top four bits 1111) leaves the machine state as it was; what it
/// asks for is named by bits 7..0: 0x20 a character read into R0, 0x21 the
/// character in the low byte of R0, 0x23 a prompted character read, 0x25 a
/// halt, and any vector but 0x20 to 0x25 an unknown trap.
pub proof fn law_trap_bits(i: u16, s: MachineState, req: TrapRequest)
    requires
        ubits(i, 4096, 16) == 15,
        trap_request_of(req, i, s),
    ensures
        exec_spec(i, s) == s,
        ubits(i, 1, 256) == 0x20 ==> req == TrapRequest::GetChar,
        ubits(i, 1, 256) == 0x21 ==> (req matches TrapRequest::PutChar(c) && c as int == s.regs.r0
            % 256),
        ubits(i, 1, 256) == 0x22 || ubits(i, 1, 256) == 0x24 ==> req is PutString,
        ubits(i, 1, 256) == 0x23 ==> req == TrapRequest::ReadChar,
        ubits(i, 1, 256) == 0x25 ==> req == TrapRequest::Halt,
        ubits(i, 1, 256) < 0x20 || ubits(i, 1, 256) > 0x25 ==> req == TrapRequest::Unknown,
{
    lemma_decode(i);
    assert(opcode_of(i) == Opcode::TRAP);
}

proof fn lemma_string_text(mem: Seq<u16>, a: int, z: int)
    requires
        mem.len() == MEMORY_SIZE,
        0 <= a <= z < MEMORY_SIZE,
        mem[z] == 0,
        forall|j: int| a <= j < z ==> mem[j] != 0,
    ensures
        string_text(mem, a).len() == z - a,
        forall|k: int| 0 <= k < z - a ==> #[trigger] string_text(mem, a)[k] as int == mem[a + k] % 256,
    decreases z - a,
{
    if a < z {
        lemma_string_text(mem, a + 1, z);
        let rest = string_text(mem, a + 1);
        assert(string_text(mem, a) == seq![(mem[a] % 256) as u8] + rest);
        assert forall|k: int| 0 <= k < z - a implies #[trigger] string_text(mem, a)[k] as int == mem[a
            + k] % 256 by {
            if k > 0 {
                assert(string_text(mem, a)[k] == rest[k - 1]);
                assert(a + 1 + (k - 1) == a + k);
            }
        }
    }
}

/// PUTS (TRAP x22) asks to write one character per word from R0 up to the
/// first zero word, leaving that word out: character `k` is the low byte of
/// the word at R0 + k, and there are as many characters as words before the
/// zero word.
pub proof fn law_puts_text(i: u16, s: MachineState, req: TrapRequest, z: int)
    requires
        ubits(i, 1, 256) == 0x22,
        trap_request_of(req, i, s),
        s.wf(),
        s.regs.r0 <= z < MEMORY_SIZE,
        s.mem[z] == 0,
        forall|j: int| s.regs.r0 <= j < z ==> s.mem[j] != 0,
    ensures
        req matches TrapRequest::PutString(t) && (t@.len() == z - s.regs.r0 && forall|k: int|
            0 <= k < z - s.regs.r0 ==> #[trigger] t@[k] as int == s.mem[s.regs.r0 + k] % 256),
{
    lemma_decode(i);
    lemma_string_text(s.mem, s.regs.r0 as int, z);
}

/// The number of words among the `n` words from `a` whose high byte is not zero.
pub open spec fn high_bytes(mem: Seq<u16>, a: int, n: int) -> int
    decreases n,
{
    if n <= 0 {
        0
    } else {
        (if mem[a] / 256 != 0 { 1int } else { 0int }) + high_bytes(mem, a + 1, n - 1)
    }
}

proof fn lemma_high_bytes_bounds(mem: Seq<u16>, a: int, n: int)
    requires
        n >= 0,
    ensures
        0 <= high_bytes(mem, a, n) <= n,
    decreases n,
{
    if n > 0 {
        lemma_high_bytes_bounds(mem, a + 1, n - 1);
    }
}

proof fn lemma_high_bytes_split(mem: Seq<u16>, b: int, m: int, n: int)
    requires
        0 <= m < n,
    ensures
        high_bytes(mem, b, n) >= high_bytes(mem, b, m) + (if mem[b + m] / 256 != 0 { 1int } else { 0int }),
    decreases m,
{
    lemma_high_bytes_bounds(mem, b + 1, n - 1);
    if m > 0 {
        lemma_high_bytes_split(mem, b + 1, m - 1, n - 1);
        assert(b + 1 + (m - 1) == b + m);
    }
}

proof fn lemma_packed_text(mem: Seq<u16>, a: int, z: int)
    requires
        mem.len() == MEMORY_SIZE,
        0 <= a <= z < MEMORY_SIZE,
        mem[z] == 0,
        forall|j: int| a <= j < z ==> mem[j] != 0,
    ensures
        packed_text(mem, a).len() == (z - a) + high_bytes(mem, a, z - a),
        forall|k: int|
            #![trigger high_bytes(mem, a, k)]
            0 <= k < z - a ==> {
                &&& packed_text(mem, a)[k + high_bytes(mem, a, k)] as int == mem[a + k] % 256
                &&& mem[a + k] / 256 != 0 ==> packed_text(mem, a)[k + high_bytes(mem, a, k) + 1] as int
                    == mem[a + k] / 256
            },
    decreases z - a,
{
    if a < z {
        lemma_packed_text(mem, a + 1, z);
        let rest = packed_text(mem, a + 1);
        let w = mem[a];
        let chunk = seq![(w % 256) as u8] + if w / 256 != 0 {
            seq![(w / 256) as u8]
        } else {
            Seq::<u8>::empty()
        };
        let h: int = if w / 256 != 0 { 1 } else { 0 };
        assert(packed_text(mem, a) == chunk + rest);
        assert(chunk.len() == 1 + h);
        assert forall|k: int|
            #![trigger high_bytes(mem, a, k)]
            0 <= k < z - a implies {
                &&& packed_text(mem, a)[k + high_bytes(mem, a, k)] as int == mem[a + k] % 256
                &&& mem[a + k] / 256 != 0 ==> packed_text(mem, a)[k + high_bytes(mem, a, k) + 1] as int
                    == mem[a + k] / 256
            } by {
            if k == 0 {
                assert(high_bytes(mem, a, 0) == 0);
            } else {
                assert(high_bytes(mem, a, k) == h + high_bytes(mem, a + 1, k - 1));
                lemma_high_bytes_bounds(mem, a + 1, k - 1);
                lemma_high_bytes_split(mem, a + 1, k - 1, z - a - 1);
                let q = (k - 1) + high_bytes(mem, a + 1, k - 1);
                let p = k + high_bytes(mem, a, k);
                assert(p == q + chunk.len());
                assert(a + 1 + (k - 1) == a + k);
                assert(packed_text(mem, a)[p] == rest[q]);
                if mem[a + k] / 256 != 0 {
                    assert(packed_text(mem, a)[p + 1] == rest[q + 1]);
                }
            }
        }
        assert(high_bytes(mem, a, z - a) == h + high_bytes(mem, a + 1, z - a - 1));
    }
}

/// PUTSP (TRAP x24) asks to write, for each word from R0 up to the first
/// zero word, its low byte and then its high byte unless that is zero: the
/// characters of the word at R0 + k start at position k plus the number of
/// earlier words with a nonzero high byte, and nothing else is written.
pub proof fn law_putsp_text(i: u16, s: MachineState, req: TrapRequest, z: int)
    requires
        ubits(i, 1, 256) == 0x24,
        trap_request_of(req, i, s),
        s.wf(),
        s.regs.r0 <= z < MEMORY_SIZE,
        s.mem[z] == 0,
        forall|j: int| s.regs.r0 <= j < z ==> s.mem[j] != 0,
    ensures
        req matches TrapRequest::PutString(t) && (t@.len() == (z - s.regs.r0) + high_bytes(
            s.mem,
            s.regs.r0 as int,
            z - s.regs.r0,
        ) && forall|k: int|
            #![trigger high_bytes(s.mem, s.regs.r0 as int, k)]
            0 <= k < z - s.regs.r0 ==> {
                &&& t@[k + high_bytes(s.mem, s.regs.r0 as int, k)] as int == s.mem[s.regs.r0 + k] % 256
                &&& s.mem[s.regs.r0 + k] / 256 != 0 ==> t@[k + high_bytes(s.mem, s.regs.r0 as int, k)
                    + 1] as int == s.mem[s.regs.r0 + k] / 256
            }),
{
    lemma_decode(i);
    lemma_packed_text(s.mem, s.regs.r0 as int, z);
}


/// Sign extension of an `n`-bit field `x` (`n` from 1 to 16) gives a 16-bit
/// word whose low `n` bits are `x` and whose bits from `n` up are all copies
/// of bit `n - 1` of `x`.
pub proof fn law_sign_extension(x: int, n: nat)
    requires
        1 <= n <= 16,
        0 <= x < pow2(n),
    ensures
        0 <= super::instruction::sext(x, n) < 0x10000,
        super::instruction::sext(x, n) % (pow2(n) as int) == x,
        super::instruction::sext(x, n) / (pow2(n) as int) == if x >= pow2((n - 1) as nat) {
            pow2((16 - n) as nat) as int - 1
        } else {
            0
        },
{
    let p = pow2(n);
    let h = pow2((n - 1) as nat);
    let q = pow2((16 - n) as nat);
    vstd::arithmetic::power2::lemma2_to64();
    vstd::arithmetic::power2::lemma_pow2_adds(n, (16 - n) as nat);
    vstd::arithmetic::power2::lemma_pow2_adds((n - 1) as nat, 1);
    vstd::arithmetic::power2::lemma_pow2_pos((16 - n) as nat);
    assert(p * q == 0x10000);
    assert(p <= 0x10000) by (nonlinear_arith)
        requires
            p * q == 0x10000,
            q >= 1,
            p >= 1,
    ;
    if x < h {
        vstd::arithmetic::div_mod::lemma_fundamental_div_mod_converse(x, p as int, 0, x);
    } else {
        let v = super::instruction::sext(x, n);
        assert(v == (q - 1) * p + x) by (nonlinear_arith)
            requires
                v == x + 0x10000 - p,
                p * q == 0x10000,
        ;
        vstd::arithmetic::div_mod::lemma_fundamental_div_mod_converse(v, p as int, q - 1, x);
    }
}

/// The keyboard is polled before a step exactly when the word at the program
/// counter is an LD (0010) or LDI (1010) whose final load address, or an LDR
/// (0110) whose base-relative address, is the keyboard status register
/// 0xFE00, the PC-relative address being taken from the incremented
/// program counter.
pub proof fn law_keyboard_poll_bits(s: MachineState)
    ensures
        ({
            let i = s.mem[s.regs.pc as int];
            let op = ubits(i, 4096, 16);
            let next_pc = wrap(s.regs.pc + 1);
            let pc_rel = wrap(next_pc + sbits(i, 1, 512));
            keyboard_poll_due(s) == ((op == 2 && pc_rel == 0xFE00) || (op == 10 && s.mem[pc_rel]
                == 0xFE00) || (op == 6 && base_plus_offset6(i, s) == 0xFE00))
        }),
{
    let i = current_instr(s);
    lemma_decode(i);
    lemma_addresses(i, fetched(s));
    lemma_wrap_add(s.regs.pc as int, 1);
    assert(fetched(s).regs.reg(ubits(i, 64, 8)) == s.regs.reg(ubits(i, 64, 8)));
}

} // verus!
