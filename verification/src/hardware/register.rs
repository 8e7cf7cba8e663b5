//! The register file: eight general-purpose registers, the program counter
//! and the condition codes.
use vstd::prelude::*;

verus! {

/// Address at which the program counter starts.
pub const PC_START: u16 = 0x3000;

/// Condition code: the last value written was positive.
pub const FL_POS: u16 = 1;

/// Condition code: the last value written was zero.
pub const FL_ZRO: u16 = 2;

/// Condition code: the last value written was negative (bit 15 set).
pub const FL_NEG: u16 = 4;

/// The condition code that a written value sets.
pub open spec fn cond_of(v: u16) -> u16 {
    if v == 0 {
        FL_ZRO
    } else if v >= 0x8000 {
        FL_NEG
    } else {
        FL_POS
    }
}

/// Exactly one of N, Z and P is set.
pub open spec fn cond_valid(c: u16) -> bool {
    c == FL_POS || c == FL_ZRO || c == FL_NEG
}

/// The register file.
#[derive(Clone, Copy, Debug, PartialEq, Eq, Structural)]
pub struct Registers {
    pub r0: u16,
    pub r1: u16,
    pub r2: u16,
    pub r3: u16,
    pub r4: u16,
    pub r5: u16,
    pub r6: u16,
    pub r7: u16,
    pub pc: u16,
    pub cond: u16,
}

impl Registers {
    /// General-purpose register `r` (0 to 7).
    pub open spec fn reg(self, r: int) -> u16 {
        if r == 0 {
            self.r0
        } else if r == 1 {
            self.r1
        } else if r == 2 {
            self.r2
        } else if r == 3 {
            self.r3
        } else if r == 4 {
            self.r4
        } else if r == 5 {
            self.r5
        } else if r == 6 {
            self.r6
        } else {
            self.r7
        }
    }

    /// The register file with general-purpose register `r` set to `v`.
    pub open spec fn with_reg(self, r: int, v: u16) -> Registers {
        if r == 0 {
            Registers { r0: v, ..self }
        } else if r == 1 {
            Registers { r1: v, ..self }
        } else if r == 2 {
            Registers { r2: v, ..self }
        } else if r == 3 {
            Registers { r3: v, ..self }
        } else if r == 4 {
            Registers { r4: v, ..self }
        } else if r == 5 {
            Registers { r5: v, ..self }
        } else if r == 6 {
            Registers { r6: v, ..self }
        } else {
            Registers { r7: v, ..self }
        }
    }

    /// The register file with the program counter set to `pc`.
    pub open spec fn with_pc(self, pc: u16) -> Registers {
        Registers { pc: pc, ..self }
    }

    /// The register file with the condition codes set from the value of register `r`.
    pub open spec fn with_cond_from(self, r: int) -> Registers {
        Registers { cond: cond_of(self.reg(r)), ..self }
    }

    /// The register file at power-on: all general-purpose registers zero,
    /// the program counter at `PC_START` and the Z condition code set.
    pub open spec fn initial() -> Registers {
        Registers { r0: 0, r1: 0, r2: 0, r3: 0, r4: 0, r5: 0, r6: 0, r7: 0, pc: PC_START, cond: FL_ZRO }
    }

    /// The register file at power-on.
    pub fn new() -> (regs: Registers)
        ensures
            regs == Registers::initial(),
            forall|r: int| 0 <= r < 8 ==> #[trigger] regs.reg(r) == 0,
    {
        Registers { r0: 0, r1: 0, r2: 0, r3: 0, r4: 0, r5: 0, r6: 0, r7: 0, pc: PC_START, cond: FL_ZRO }
    }

    /// The value of general-purpose register `r`.
    pub fn get(&self, r: u16) -> (v: u16)
        requires
            r < 8,
        ensures
            v == self.reg(r as int),
    {
        match r {
            0 => self.r0,
            1 => self.r1,
            2 => self.r2,
            3 => self.r3,
            4 => self.r4,
            5 => self.r5,
            6 => self.r6,
            _ => self.r7,
        }
    }

    /// Writes `v` to general-purpose register `r`; nothing else changes.
    pub fn update(&mut self, r: u16, v: u16)
        requires
            r < 8,
        ensures
            *final(self) == old(self).with_reg(r as int, v),
    {
        match r {
            0 => self.r0 = v,
            1 => self.r1 = v,
            2 => self.r2 = v,
            3 => self.r3 = v,
            4 => self.r4 = v,
            5 => self.r5 = v,
            6 => self.r6 = v,
            _ => self.r7 = v,
        }
    }

    /// Sets the condition codes from the sign of register `r`; nothing else changes.
    pub fn update_cond(&mut self, r: u16)
        requires
            r < 8,
        ensures
            *final(self) == old(self).with_cond_from(r as int),
            cond_valid(final(self).cond),
    {
        let v = self.get(r);
        if v == 0 {
            self.cond = FL_ZRO;
        } else if v >= 0x8000 {
            self.cond = FL_NEG;
        } else {
            self.cond = FL_POS;
        }
    }
}

} // verus!
