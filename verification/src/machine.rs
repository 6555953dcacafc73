//! The machine as a mathematical object: registers, the stack region, the
//! heap and what was sent to the trap sink, and what each instruction does
//! to them.

use vstd::prelude::*;

use crate::error::RuntimeError;
use crate::instruction::{decode, InstrView};
use crate::print::{registers_text, words_text};
use crate::register::{Reg, RegisterFile};
use crate::text::decimal;
use crate::MAX_STACK_SIZE;

verus! {

/// The integer `x` as a word: the value in the range of `i32` that differs
/// from `x` by a multiple of 2^32.
pub open spec fn wrap(x: int) -> i32 {
    let r = x % 0x1_0000_0000;
    if r > i32::MAX {
        (r - 0x1_0000_0000) as i32
    } else {
        r as i32
    }
}

/// Sum of two words, wrapping around.
pub open spec fn word_add(a: i32, b: i32) -> i32 {
    wrap(a + b)
}

/// Difference of two words, wrapping around.
pub open spec fn word_sub(a: i32, b: i32) -> i32 {
    wrap(a - b)
}

/// Product of two words, wrapping around.
pub open spec fn word_mul(a: i32, b: i32) -> i32 {
    wrap(a * b)
}

/// The magnitude of an integer.
pub open spec fn magnitude(x: int) -> int {
    if x < 0 {
        -x
    } else {
        x
    }
}

/// The quotient of `a` by `b`, rounded towards zero.
pub open spec fn trunc_div(a: int, b: int) -> int
    recommends
        b != 0,
{
    if (a < 0) == (b < 0) {
        magnitude(a) / magnitude(b)
    } else {
        -(magnitude(a) / magnitude(b))
    }
}

/// The remainder that goes with `trunc_div`: it has the sign of `a`.
pub open spec fn trunc_rem(a: int, b: int) -> int
    recommends
        b != 0,
{
    if a < 0 {
        -(magnitude(a) % magnitude(b))
    } else {
        magnitude(a) % magnitude(b)
    }
}

/// Quotient of two words, rounded towards zero and wrapping around.
pub open spec fn word_div(a: i32, b: i32) -> i32
    recommends
        b != 0,
{
    wrap(trunc_div(a as int, b as int))
}

/// Remainder of the division of two words rounded towards zero.
pub open spec fn word_rem(a: i32, b: i32) -> i32
    recommends
        b != 0,
{
    wrap(trunc_rem(a as int, b as int))
}

/// The word for a truth value: all bits set for true, zero for false.
pub open spec fn flag(b: bool) -> i32 {
    if b {
        -1i32
    } else {
        0i32
    }
}

/// Whether a word is a Unicode scalar value, that is, the number of a
/// character.
pub open spec fn is_scalar(v: i32) -> bool {
    0 <= v <= 0xD7FF || 0xE000 <= v <= 0x10FFFF
}

/// A heap of at least `n` cells: `heap`, with zeros behind it where it is
/// shorter.
pub open spec fn grown(heap: Seq<i32>, n: nat) -> Seq<i32> {
    if heap.len() >= n {
        heap
    } else {
        heap + Seq::new((n - heap.len()) as nat, |i: int| 0i32)
    }
}

/// What a text that reaches the trap sink is.
#[derive(Clone, Copy, PartialEq, Eq, Debug, Structural)]
pub enum OutputKind {
    /// A number, written by trap 0.
    Number,
    /// A character, written by trap 1.
    Character,
    /// A report of the machine on what it does.
    Report,
}

/// A text that reached the trap sink.
#[derive(Clone, PartialEq, Eq, Debug)]
pub struct Output {
    pub kind: OutputKind,
    pub text: String,
}

impl View for Output {
    type V = (OutputKind, Seq<char>);

    open spec fn view(&self) -> (OutputKind, Seq<char>) {
        (self.kind, self.text@)
    }
}

/// The state of the machine.
pub struct Machine {
    /// The register file.
    pub regs: RegisterFile,
    /// The words at the addresses below `MAX_STACK_SIZE`: the program text
    /// and the stack.
    pub stack: Seq<i32>,
    /// The words at the addresses from `MAX_STACK_SIZE` upwards, as far as
    /// they were written.
    pub heap: Seq<i32>,
    /// The texts handed to the trap sink, oldest first, each with its kind.
    pub output: Seq<(OutputKind, Seq<char>)>,
}

impl Machine {
    /// The stack region has its fixed size.
    pub open spec fn wf(self) -> bool {
        self.stack.len() == MAX_STACK_SIZE
    }

    /// The machine before a program is loaded.
    pub open spec fn initial() -> Machine {
        Machine {
            regs: RegisterFile::spec_new(),
            stack: Seq::new(MAX_STACK_SIZE as nat, |i: int| 0i32),
            heap: Seq::empty(),
            output: Seq::empty(),
        }
    }

    /// The machine with a program image at address 0, the stack pointer just
    /// above it and everything else as in a fresh machine. The trap output
    /// is kept.
    pub open spec fn loaded(self, image: Seq<i32>) -> Machine
        recommends
            image.len() <= MAX_STACK_SIZE,
    {
        Machine {
            regs: RegisterFile { sp: image.len() as i32, ..RegisterFile::spec_new() },
            stack: Seq::new(
                MAX_STACK_SIZE as nat,
                |i: int|
                    if i < image.len() {
                        image[i]
                    } else {
                        0i32
                    },
            ),
            heap: Seq::empty(),
            output: self.output,
        }
    }

    /// The word at an address. An address that is on neither the stack nor
    /// the written part of the heap reads as zero.
    pub open spec fn read(self, addr: i32) -> i32 {
        if 0 <= addr < MAX_STACK_SIZE {
            self.stack[addr as int]
        } else if addr >= MAX_STACK_SIZE && addr - MAX_STACK_SIZE < self.heap.len() {
            self.heap[addr - MAX_STACK_SIZE]
        } else {
            0
        }
    }

    /// The machine after `val` was stored at `addr`. Below `MAX_STACK_SIZE`
    /// the stack region is written; from there on the heap, which grows as
    /// far as needed.
    pub open spec fn write(self, addr: i32, val: i32) -> Machine
        recommends
            addr >= 0,
    {
        if addr < MAX_STACK_SIZE {
            Machine { stack: self.stack.update(addr as int, val), ..self }
        } else {
            let slot = addr - MAX_STACK_SIZE;
            Machine { heap: grown(self.heap, (slot + 1) as nat).update(slot, val), ..self }
        }
    }

    /// `write`, which fails below address zero.
    pub open spec fn store(self, addr: i32, val: i32) -> Result<Machine, RuntimeError> {
        if addr < 0 {
            Err(RuntimeError::InvalidAddress(addr))
        } else {
            Ok(self.write(addr, val))
        }
    }

    /// The machine with `val` in register `reg`.
    pub open spec fn with_reg(self, reg: Reg, val: i32) -> Machine {
        Machine { regs: self.regs.spec_set(reg, val), ..self }
    }

    /// The value of a register.
    pub open spec fn reg(self, reg: Reg) -> i32 {
        self.regs.spec_get(reg)
    }

    /// The stack pointer moves up by one, and `val` is stored where it then
    /// points.
    pub open spec fn push(self, val: i32) -> Result<Machine, RuntimeError> {
        let sp = word_add(self.regs.sp, 1);
        self.with_reg(Reg::SP, sp).store(sp, val)
    }

    /// The word at the stack pointer, and the machine with the stack pointer
    /// moved down by one.
    pub open spec fn pop(self) -> (Machine, i32) {
        (self.with_reg(Reg::SP, word_sub(self.regs.sp, 1)), self.read(self.regs.sp))
    }

    /// The machine with one more text in the trap output.
    pub open spec fn emit(self, kind: OutputKind, text: Seq<char>) -> Machine {
        Machine { output: self.output.push((kind, text)), ..self }
    }

    /// What a binary operator does: the second operand is popped first.
    pub open spec fn binary(self, op: spec_fn(i32, i32) -> i32) -> Result<Machine, RuntimeError> {
        let (m1, b) = self.pop();
        let (m2, a) = m1.pop();
        m2.push(op(a, b))
    }

    /// What a unary operator does.
    pub open spec fn unary(self, op: spec_fn(i32) -> i32) -> Result<Machine, RuntimeError> {
        let (m1, a) = self.pop();
        m1.push(op(a))
    }

    /// The effect of one instruction on a machine whose program counter is
    /// already behind that instruction. `Ok` holds the new state; `Err`
    /// means that the instruction cannot be carried out.
    pub open spec fn effect(self, i: InstrView) -> Result<Machine, RuntimeError> {
        match i {
            InstrView::STR(r) => {
                let (m, v) = self.pop();
                Ok(m.with_reg(r, v))
            },
            InstrView::STL(rel) => {
                let (m, v) = self.pop();
                m.store(word_add(self.regs.mp, rel), v)
            },
            InstrView::STS(rel) => {
                let (m, v) = self.pop();
                m.store(word_add(self.regs.sp, rel), v)
            },
            InstrView::STA(rel) => {
                let (m1, addr) = self.pop();
                let (m2, v) = m1.pop();
                m2.store(word_add(addr, rel), v)
            },
            InstrView::LDR(r) => self.push(self.reg(r)),
            InstrView::LDL(rel) => self.push(self.read(word_add(self.regs.mp, rel))),
            InstrView::LDS(rel) => self.push(self.read(word_add(self.regs.sp, rel))),
            InstrView::LDA(rel) | InstrView::LDH(rel) => {
                let (m, addr) = self.pop();
                m.push(m.read(word_add(addr, rel)))
            },
            InstrView::LDC(n) => self.push(n),
            InstrView::LDLA(rel) => self.push(word_add(self.regs.mp, rel)),
            InstrView::LDSA(rel) => self.push(word_add(self.regs.sp, rel)),
            InstrView::LDAA(rel) => self.unary(|a: i32| word_add(a, rel)),
            InstrView::BRA(rel) => Ok(self.with_reg(Reg::PC, word_add(self.regs.pc, rel))),
            InstrView::BRF(rel) => {
                let (m, c) = self.pop();
                if c == 0 {
                    Ok(m.with_reg(Reg::PC, word_add(self.regs.pc, rel)))
                } else {
                    Ok(m)
                }
            },
            InstrView::BRT(rel) => {
                let (m, c) = self.pop();
                if c != 0 {
                    Ok(m.with_reg(Reg::PC, word_add(self.regs.pc, rel)))
                } else {
                    Ok(m)
                }
            },
            InstrView::BSR(rel) => match self.push(self.regs.pc) {
                Ok(m) => Ok(m.with_reg(Reg::PC, word_add(self.regs.pc, rel))),
                Err(e) => Err(e),
            },
            InstrView::JSR => {
                let (m1, target) = self.pop();
                match m1.push(self.regs.pc) {
                    Ok(m2) => Ok(m2.with_reg(Reg::PC, target)),
                    Err(e) => Err(e),
                }
            },
            InstrView::RET => {
                let (m, target) = self.pop();
                Ok(m.with_reg(Reg::PC, target))
            },
            InstrView::LINK(n) => match self.push(self.regs.mp) {
                Ok(m) => Ok(
                    m.with_reg(Reg::MP, m.regs.sp).with_reg(Reg::SP, word_add(m.regs.sp, n)),
                ),
                Err(e) => Err(e),
            },
            InstrView::UNLINK => {
                let (m, v) = self.with_reg(Reg::SP, self.regs.mp).pop();
                Ok(m.with_reg(Reg::MP, v))
            },
            InstrView::AJS(rel) => Ok(self.with_reg(Reg::SP, word_add(self.regs.sp, rel))),
            InstrView::SWP => {
                let (m1, a) = self.pop();
                let (m2, b) = m1.pop();
                match m2.push(a) {
                    Ok(m3) => m3.push(b),
                    Err(e) => Err(e),
                }
            },
            InstrView::SWPR(r) => {
                let (m1, a) = self.pop();
                match m1.push(m1.reg(r)) {
                    Ok(m2) => Ok(m2.with_reg(r, a)),
                    Err(e) => Err(e),
                }
            },
            InstrView::SWPRR(r, q) => Ok(
                self.with_reg(r, self.reg(q)).with_reg(q, self.reg(r)),
            ),
            InstrView::LDRR(dest, src) => Ok(self.with_reg(dest, self.reg(src))),
            InstrView::ADD => self.binary(|a: i32, b: i32| word_add(a, b)),
            InstrView::SUB => self.binary(|a: i32, b: i32| word_sub(a, b)),
            InstrView::MUL => self.binary(|a: i32, b: i32| word_mul(a, b)),
            InstrView::DIV => if self.read(self.regs.sp) == 0 {
                Err(RuntimeError::DivisionByZero)
            } else {
                self.binary(|a: i32, b: i32| word_div(a, b))
            },
            InstrView::MOD => if self.read(self.regs.sp) == 0 {
                Err(RuntimeError::DivisionByZero)
            } else {
                self.binary(|a: i32, b: i32| word_rem(a, b))
            },
            InstrView::EQ => self.binary(|a: i32, b: i32| flag(a == b)),
            InstrView::NE => self.binary(|a: i32, b: i32| flag(a != b)),
            InstrView::LT => self.binary(|a: i32, b: i32| flag(a < b)),
            InstrView::LE => self.binary(|a: i32, b: i32| flag(a <= b)),
            InstrView::GT => self.binary(|a: i32, b: i32| flag(a > b)),
            InstrView::GE => self.binary(|a: i32, b: i32| flag(a >= b)),
            InstrView::AND => self.binary(|a: i32, b: i32| a & b),
            InstrView::OR => self.binary(|a: i32, b: i32| a | b),
            InstrView::XOR => self.binary(|a: i32, b: i32| a ^ b),
            InstrView::NEG => self.unary(|a: i32| word_sub(0, a)),
            InstrView::NOT => self.unary(|a: i32| flag(a == 0)),
            InstrView::TRAP(n) => if n == 0 {
                let (m, v) = self.pop();
                Ok(m.emit(OutputKind::Number, decimal(v as int)))
            } else if n == 1 {
                let (m, v) = self.pop();
                if is_scalar(v) {
                    Ok(m.emit(OutputKind::Character, seq![v as char]))
                } else {
                    Ok(m)
                }
            } else {
                Err(RuntimeError::UnknownTrap(n))
            },
            InstrView::NOP | InstrView::HALT => Ok(self),
            InstrView::STH => {
                let (m1, v) = self.pop();
                match m1.push(m1.regs.hp) {
                    Ok(m2) => match m2.store(m2.regs.hp, v) {
                        Ok(m3) => Ok(m3.with_reg(Reg::HP, word_add(m3.regs.hp, 1))),
                        Err(e) => Err(e),
                    },
                    Err(e) => Err(e),
                }
            },
            InstrView::STMA(_, _) | InstrView::STMH(_) | InstrView::STML(_, _) | InstrView::STMS(
                _,
                _,
            ) | InstrView::LDMA(_, _) | InstrView::LDMH(_, _) | InstrView::LDML(_, _)
            | InstrView::LDMS(_, _) => Err(RuntimeError::UnsupportedInstruction(i.opcode())),
            InstrView::Bra(_) | InstrView::Brf(_) | InstrView::Brt(_) | InstrView::Bsr(_)
            | InstrView::LABEL(_) | InstrView::ANNOTE(_, _, _, _, _) => Ok(self),
        }
    }

    /// The instruction at the program counter.
    pub open spec fn fetch(self) -> Result<InstrView, RuntimeError> {
        let pc = self.regs.pc;
        decode(self.read(pc), self.read(word_add(pc, 1)), self.read(word_add(pc, 2)))
    }

    /// The machine with the program counter behind the instruction `i`.
    pub open spec fn advance(self, i: InstrView) -> Machine {
        self.with_reg(Reg::PC, word_add(self.regs.pc, i.size() as i32))
    }

    /// The occupied part of the stack region: the words at the addresses
    /// from 0 to the stack pointer, as far as they lie in the region.
    pub open spec fn occupied(self) -> Seq<i32> {
        if self.regs.sp < 0 {
            Seq::empty()
        } else if self.regs.sp >= MAX_STACK_SIZE {
            self.stack
        } else {
            self.stack.take(self.regs.sp + 1)
        }
    }

    /// The machine with the report on the instruction `i` that it is about
    /// to execute: nothing at verbosity 0; the instruction from verbosity 1
    /// on; before it, from verbosity 2 on, the registers and the occupied
    /// part of the stack region.
    pub open spec fn traced(self, verbosity: u8, i: InstrView) -> Machine {
        let dumped = if verbosity > 1 {
            self.emit(OutputKind::Report, "Registers: "@ + registers_text(self.regs)).emit(
                OutputKind::Report,
                "Memory: "@ + words_text(self.occupied()),
            )
        } else {
            self
        };
        if verbosity > 0 {
            dumped.emit(OutputKind::Report, "Executing "@ + i.trace_text())
        } else {
            dumped
        }
    }

    /// What the machine does with the instruction `i` that it has fetched:
    /// the instruction is reported, the program counter moves behind it,
    /// and the instruction is carried out. The result says whether the
    /// machine goes on, which it does until `HALT`. Where the instruction
    /// cannot be carried out, only the report is added.
    pub open spec fn execute(self, verbosity: u8, i: InstrView) -> (
        Machine,
        Result<bool, RuntimeError>,
    ) {
        let reported = self.traced(verbosity, i);
        match reported.advance(i).effect(i) {
            Ok(m) => (m, Ok(!(i is HALT))),
            Err(e) => (reported, Err(e)),
        }
    }

    /// One step of the machine: the instruction at the program counter is
    /// fetched and executed. Where no instruction can be fetched, the
    /// machine stays as it is.
    pub open spec fn step(self, verbosity: u8) -> (Machine, Result<bool, RuntimeError>) {
        match self.fetch() {
            Err(e) => (self, Err(e)),
            Ok(i) => self.execute(verbosity, i),
        }
    }
}

} // verus!
