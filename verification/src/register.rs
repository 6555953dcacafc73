//! The register file of the machine: eight words, four of them with a fixed
//! role.

use vstd::prelude::*;

use crate::MAX_STACK_SIZE;

verus! {

/// A register, by name. `PC`, `SP`, `MP` and `HP` are the registers with the
/// ordinals 0 to 3.
#[derive(Clone, Copy, PartialEq, Eq, PartialOrd, Ord, Debug, Structural)]
pub enum Reg {
    PC,
    SP,
    MP,
    HP,
    R4,
    R5,
    R6,
    R7,
}

impl Reg {
    /// The ordinal of a register, between 0 and 7.
    pub open spec fn spec_ordinal(self) -> int {
        match self {
            Reg::PC => 0,
            Reg::SP => 1,
            Reg::MP => 2,
            Reg::HP => 3,
            Reg::R4 => 4,
            Reg::R5 => 5,
            Reg::R6 => 6,
            Reg::R7 => 7,
        }
    }

    /// The register with the given ordinal, if there is one.
    pub open spec fn spec_from_ordinal(value: int) -> Option<Reg> {
        if value == 0 {
            Some(Reg::PC)
        } else if value == 1 {
            Some(Reg::SP)
        } else if value == 2 {
            Some(Reg::MP)
        } else if value == 3 {
            Some(Reg::HP)
        } else if value == 4 {
            Some(Reg::R4)
        } else if value == 5 {
            Some(Reg::R5)
        } else if value == 6 {
            Some(Reg::R6)
        } else if value == 7 {
            Some(Reg::R7)
        } else {
            None
        }
    }

    /// The canonical name of a register.
    pub open spec fn spec_name(self) -> Seq<char> {
        match self {
            Reg::PC => "PC"@,
            Reg::SP => "SP"@,
            Reg::MP => "MP"@,
            Reg::HP => "HP"@,
            Reg::R4 => "R4"@,
            Reg::R5 => "R5"@,
            Reg::R6 => "R6"@,
            Reg::R7 => "R7"@,
        }
    }

    /// The ordinal of the register, as it stands in an encoded instruction.
    pub fn ordinal(self) -> (n: i32)
        ensures
            n == self.spec_ordinal(),
            0 <= n < 8,
    {
        match self {
            Reg::PC => 0,
            Reg::SP => 1,
            Reg::MP => 2,
            Reg::HP => 3,
            Reg::R4 => 4,
            Reg::R5 => 5,
            Reg::R6 => 6,
            Reg::R7 => 7,
        }
    }

    /// The register with the given ordinal; `None` for a number outside 0..=7.
    pub fn from_ordinal(value: i32) -> (r: Option<Reg>)
        ensures
            r == Reg::spec_from_ordinal(value as int),
            r is Some <==> 0 <= value < 8,
    {
        match value {
            0 => Some(Reg::PC),
            1 => Some(Reg::SP),
            2 => Some(Reg::MP),
            3 => Some(Reg::HP),
            4 => Some(Reg::R4),
            5 => Some(Reg::R5),
            6 => Some(Reg::R6),
            7 => Some(Reg::R7),
            _ => None,
        }
    }

    /// The canonical name: `PC`, `SP`, `MP`, `HP`, `R4` .. `R7`.
    pub fn name(self) -> (s: &'static str)
        ensures
            s@ == self.spec_name(),
    {
        match self {
            Reg::PC => "PC",
            Reg::SP => "SP",
            Reg::MP => "MP",
            Reg::HP => "HP",
            Reg::R4 => "R4",
            Reg::R5 => "R5",
            Reg::R6 => "R6",
            Reg::R7 => "R7",
        }
    }
}

/// The eight registers of the machine.
#[derive(Clone, Copy, PartialEq, Eq, Debug, Structural)]
pub struct RegisterFile {
    pub pc: i32,
    pub sp: i32,
    pub mp: i32,
    pub hp: i32,
    pub r4: i32,
    pub r5: i32,
    pub r6: i32,
    pub r7: i32,
}

impl RegisterFile {
    /// The value held by a register.
    pub open spec fn spec_get(self, reg: Reg) -> i32 {
        match reg {
            Reg::PC => self.pc,
            Reg::SP => self.sp,
            Reg::MP => self.mp,
            Reg::HP => self.hp,
            Reg::R4 => self.r4,
            Reg::R5 => self.r5,
            Reg::R6 => self.r6,
            Reg::R7 => self.r7,
        }
    }

    /// The register file in which `reg` holds `val` and the others are as
    /// in `self`.
    pub open spec fn spec_set(self, reg: Reg, val: i32) -> RegisterFile {
        match reg {
            Reg::PC => RegisterFile { pc: val, ..self },
            Reg::SP => RegisterFile { sp: val, ..self },
            Reg::MP => RegisterFile { mp: val, ..self },
            Reg::HP => RegisterFile { hp: val, ..self },
            Reg::R4 => RegisterFile { r4: val, ..self },
            Reg::R5 => RegisterFile { r5: val, ..self },
            Reg::R6 => RegisterFile { r6: val, ..self },
            Reg::R7 => RegisterFile { r7: val, ..self },
        }
    }

    /// The state of the registers before a program is loaded.
    pub open spec fn spec_new() -> RegisterFile {
        RegisterFile {
            pc: 0,
            sp: 0,
            mp: 0,
            hp: MAX_STACK_SIZE as i32,
            r4: 0,
            r5: 0,
            r6: 0,
            r7: 0,
        }
    }

    /// All registers zero, but for `HP`, which points at the first heap
    /// address.
    pub fn new() -> (r: Self)
        ensures
            r == RegisterFile::spec_new(),
    {
        RegisterFile { pc: 0, sp: 0, mp: 0, hp: MAX_STACK_SIZE as i32, r4: 0, r5: 0, r6: 0, r7: 0 }
    }

    /// Reads a register.
    pub fn get(&self, reg: Reg) -> (v: i32)
        ensures
            v == self.spec_get(reg),
    {
        match reg {
            Reg::PC => self.pc,
            Reg::SP => self.sp,
            Reg::MP => self.mp,
            Reg::HP => self.hp,
            Reg::R4 => self.r4,
            Reg::R5 => self.r5,
            Reg::R6 => self.r6,
            Reg::R7 => self.r7,
        }
    }

    /// Writes a register.
    pub fn set(&mut self, reg: Reg, val: i32)
        ensures
            *final(self) == old(self).spec_set(reg, val),
    {
        match reg {
            Reg::PC => self.pc = val,
            Reg::SP => self.sp = val,
            Reg::MP => self.mp = val,
            Reg::HP => self.hp = val,
            Reg::R4 => self.r4 = val,
            Reg::R5 => self.r5 = val,
            Reg::R6 => self.r6 = val,
            Reg::R7 => self.r7 = val,
        }
    }

    /// The value of the register with the given ordinal; `None` where the
    /// ordinal names no register.
    pub fn get_ordinal(&self, index: i32) -> (v: Option<i32>)
        ensures
            v == match Reg::spec_from_ordinal(index as int) {
                Some(reg) => Some(self.spec_get(reg)),
                None => None,
            },
    {
        match Reg::from_ordinal(index) {
            Some(reg) => Some(self.get(reg)),
            None => None,
        }
    }

    /// Stores `val` in the register with the given ordinal and returns
    /// `true`; leaves the registers as they are and returns `false` where
    /// the ordinal names no register.
    pub fn set_ordinal(&mut self, index: i32, val: i32) -> (done: bool)
        ensures
            done == Reg::spec_from_ordinal(index as int) is Some,
            *final(self) == match Reg::spec_from_ordinal(index as int) {
                Some(reg) => old(self).spec_set(reg, val),
                None => *old(self),
            },
    {
        match Reg::from_ordinal(index) {
            Some(reg) => {
                self.set(reg, val);
                true
            },
            None => false,
        }
    }
}

impl Default for RegisterFile {
    fn default() -> (r: Self)
        ensures
            r == (RegisterFile { pc: 0, sp: 0, mp: 0, hp: 0, r4: 0, r5: 0, r6: 0, r7: 0 }),
    {
        RegisterFile { pc: 0, sp: 0, mp: 0, hp: 0, r4: 0, r5: 0, r6: 0, r7: 0 }
    }
}

} // verus!
