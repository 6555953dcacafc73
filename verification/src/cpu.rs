//! The processor: it owns the memory, the heap and the registers, fetches
//! one instruction at a time and carries it out.

use vstd::prelude::*;
use vstd::slice::slice_subrange;

use crate::error::{LinkError, RuntimeError};
use crate::instruction::{views, Instr};
use crate::linker::{
    convert_code, first_undefined, fix_jumps, image, lemma_program, program, remove_annote,
    target_label, total_size,
};
use crate::machine::{
    flag, grown, word_add, word_div, word_mul, word_rem, word_sub, Machine, Output, OutputKind,
};
use crate::print::{registers_text, registers_to_string, words_text, words_to_string};
use crate::register::{Reg, RegisterFile};
use crate::text::{decimal_string, push_str};
use crate::{Code, MAX_STACK_SIZE};

verus! {

/// What a list of texts for the trap sink holds.
pub open spec fn outputs(lines: Seq<Output>) -> Seq<(OutputKind, Seq<char>)> {
    lines.map_values(|o: Output| o@)
}

/// `a + b` on words.
pub fn add_words(a: i32, b: i32) -> (r: i32)
    ensures
        r == word_add(a, b),
{
    a.wrapping_add(b)
}

/// `a - b` on words.
pub fn sub_words(a: i32, b: i32) -> (r: i32)
    ensures
        r == word_sub(a, b),
{
    a.wrapping_sub(b)
}

/// `a * b` on words.
pub fn mul_words(a: i32, b: i32) -> (r: i32)
    ensures
        r == word_mul(a, b),
{
    a.wrapping_mul(b)
}

/// `a / b` on words, rounded towards zero.
pub fn div_words(a: i32, b: i32) -> (r: i32)
    requires
        b != 0,
    ensures
        r == word_div(a, b),
{
    match a.checked_div(b) {
        Some(q) => q,
        None => i32::MIN,
    }
}

/// The remainder of `a / b` on words; it has the sign of `a`.
pub fn rem_words(a: i32, b: i32) -> (r: i32)
    requires
        b != 0,
    ensures
        r == word_rem(a, b),
{
    match a.checked_rem(b) {
        Some(q) => q,
        None => 0,
    }
}

/// The word for a truth value.
pub fn flag_word(b: bool) -> (r: i32)
    ensures
        r == flag(b),
{
    if b {
        -1
    } else {
        0
    }
}

/// The virtual processor.
///
/// What the program sends to the trap sink is collected in the processor;
/// the host takes it from there with `take_output`.
#[derive(Debug)]
pub struct Cpu {
    memory: [i32; MAX_STACK_SIZE],
    registers: RegisterFile,
    verbosity: u8,
    heap: Vec<i32>,
    output: Vec<Output>,
}

impl View for Cpu {
    type V = Machine;

    closed spec fn view(&self) -> Machine {
        Machine {
            regs: self.registers,
            stack: self.memory@,
            heap: self.heap@,
            output: outputs(self.output@),
        }
    }
}

impl Cpu {
    /// How much the processor reports of what it does: 0, 1 or 2.
    pub closed spec fn spec_verbosity(&self) -> u8 {
        self.verbosity
    }

    /// The stack region of a processor has its fixed size.
    pub proof fn lemma_wf(&self)
        ensures
            self@.wf(),
    {
    }

    /// A processor with zeroed memory, an empty heap and no trap output.
    pub fn new(verbosity: u8) -> (cpu: Cpu)
        ensures
            cpu@ == Machine::initial(),
            cpu@.wf(),
            cpu.spec_verbosity() == verbosity,
    {
        let cpu = Cpu {
            memory: [0; MAX_STACK_SIZE],
            registers: RegisterFile::new(),
            verbosity,
            heap: Vec::new(),
            output: Vec::new(),
        };
        assert(cpu@.stack =~= Machine::initial().stack);
        assert(cpu@.output =~= Machine::initial().output);
        cpu
    }

    /// The verbosity that the processor was made with.
    pub fn verbosity(&self) -> (v: u8)
        ensures
            v == self.spec_verbosity(),
    {
        self.verbosity
    }

    /// Reads a register.
    pub fn get_reg(&self, reg: Reg) -> (v: i32)
        ensures
            v == self@.reg(reg),
    {
        self.registers.get(reg)
    }

    /// Writes a register.
    pub fn set_reg(&mut self, reg: Reg, val: i32)
        ensures
            final(self)@ == old(self)@.with_reg(reg, val),
            final(self).spec_verbosity() == old(self).spec_verbosity(),
    {
        self.registers.set(reg, val);
    }

    /// Adds `val` to a register, wrapping around.
    pub fn adjust_reg(&mut self, reg: Reg, val: i32)
        ensures
            final(self)@ == old(self)@.with_reg(reg, word_add(old(self)@.reg(reg), val)),
            final(self).spec_verbosity() == old(self).spec_verbosity(),
    {
        let v = add_words(self.registers.get(reg), val);
        self.registers.set(reg, v);
    }

    /// Makes the heap at least `size` cells long, with zeros in the new
    /// cells.
    pub fn reserve_heap(&mut self, size: usize)
        ensures
            final(self)@ == (Machine { heap: grown(old(self)@.heap, size as nat), ..old(self)@ }),
            final(self).spec_verbosity() == old(self).spec_verbosity(),
    {
        if self.heap.len() < size {
            self.heap.resize(size, 0);
            assert(self.heap@ =~= grown(old(self).heap@, size as nat));
        }
    }

    /// The word at an address; zero where nothing was ever stored.
    pub fn get_mem(&self, addr: i32) -> (v: i32)
        ensures
            v == self@.read(addr),
    {
        if addr < 0 {
            0
        } else if (addr as usize) < MAX_STACK_SIZE {
            self.memory[addr as usize]
        } else {
            let slot = addr as usize - MAX_STACK_SIZE;
            if slot < self.heap.len() {
                self.heap[slot]
            } else {
                0
            }
        }
    }

    /// Stores a word at an address. An address below zero is refused, and
    /// nothing changes.
    pub fn set_mem(&mut self, addr: i32, val: i32) -> (r: Result<(), RuntimeError>)
        ensures
            final(self)@.wf(),
            final(self).spec_verbosity() == old(self).spec_verbosity(),
            match old(self)@.store(addr, val) {
                Ok(m) => r is Ok && final(self)@ == m,
                Err(e) => r == Err::<(), RuntimeError>(e) && final(self)@ == old(self)@,
            },
    {
        if addr < 0 {
            Err(RuntimeError::InvalidAddress(addr))
        } else if (addr as usize) < MAX_STACK_SIZE {
            self.memory[addr as usize] = val;
            Ok(())
        } else {
            let slot = addr as usize - MAX_STACK_SIZE;
            self.reserve_heap(slot + 1);
            self.heap.set(slot, val);
            Ok(())
        }
    }

    /// Stores a word at the address that a register holds.
    pub fn set_mem_reg(&mut self, reg: Reg, val: i32) -> (r: Result<(), RuntimeError>)
        ensures
            final(self)@.wf(),
            final(self).spec_verbosity() == old(self).spec_verbosity(),
            match old(self)@.store(old(self)@.reg(reg), val) {
                Ok(m) => r is Ok && final(self)@ == m,
                Err(e) => r == Err::<(), RuntimeError>(e) && final(self)@ == old(self)@,
            },
    {
        let addr = self.get_reg(reg);
        self.set_mem(addr, val)
    }

    /// The word at the address that a register holds.
    pub fn get_mem_reg(&self, reg: Reg) -> (v: i32)
        ensures
            v == self@.read(self@.reg(reg)),
    {
        self.get_mem(self.get_reg(reg))
    }

    /// The stack region: the words at the addresses below `MAX_STACK_SIZE`.
    pub fn read_memory(&self) -> (words: &[i32])
        ensures
            words@ == self@.stack,
    {
        self.memory.as_slice()
    }

    /// The register file.
    pub fn read_registers(&self) -> (regs: &RegisterFile)
        ensures
            *regs == self@.regs,
    {
        &self.registers
    }

    /// The heap, as far as it was written.
    pub fn read_heap(&self) -> (words: &[i32])
        ensures
            words@ == self@.heap,
    {
        self.heap.as_slice()
    }

    /// The texts that were sent to the trap sink and not yet taken.
    pub fn read_output(&self) -> (lines: &Vec<Output>)
        ensures
            outputs(lines@) == self@.output,
    {
        &self.output
    }

    /// Hands out the texts that were sent to the trap sink, oldest first,
    /// and empties the sink.
    pub fn take_output(&mut self) -> (lines: Vec<Output>)
        ensures
            outputs(lines@) == old(self)@.output,
            final(self)@ == (Machine { output: Seq::empty(), ..old(self)@ }),
            final(self).spec_verbosity() == old(self).spec_verbosity(),
    {
        let mut lines: Vec<Output> = Vec::new();
        std::mem::swap(&mut lines, &mut self.output);
        assert(outputs(self.output@) =~= Seq::<(OutputKind, Seq<char>)>::empty());
        lines
    }

    /// Pushes a word: the stack pointer goes up by one and the word is
    /// stored where it then points. Where that address is below zero,
    /// nothing changes.
    pub fn push_stack(&mut self, value: i32) -> (r: Result<(), RuntimeError>)
        ensures
            final(self)@.wf(),
            final(self).spec_verbosity() == old(self).spec_verbosity(),
            match old(self)@.push(value) {
                Ok(m) => r is Ok && final(self)@ == m,
                Err(e) => r == Err::<(), RuntimeError>(e) && final(self)@ == old(self)@,
            },
    {
        let sp = add_words(self.registers.sp, 1);
        if sp < 0 {
            return Err(RuntimeError::InvalidAddress(sp));
        }
        self.registers.sp = sp;
        self.set_mem(sp, value)
    }

    /// Pops a word: the word at the stack pointer, which then goes down by
    /// one.
    pub fn pop_stack(&mut self) -> (v: i32)
        ensures
            final(self)@.wf(),
            final(self).spec_verbosity() == old(self).spec_verbosity(),
            (final(self)@, v) == old(self)@.pop(),
    {
        let v = self.get_mem(self.registers.sp);
        self.registers.sp = sub_words(self.registers.sp, 1);
        v
    }

    /// Hands a text to the trap sink.
    fn emit(&mut self, kind: OutputKind, text: String)
        ensures
            final(self)@ == old(self)@.emit(kind, text@),
            final(self).spec_verbosity() == old(self).spec_verbosity(),
    {
        self.output.push(Output { kind, text });
        assert(outputs(self.output@) =~= outputs(old(self).output@).push((kind, text@)));
    }

    /// Pops the right operand, then the left one, and returns them in the
    /// order left, right.
    fn pop_operands(&mut self) -> (ab: (i32, i32))
        ensures
            final(self)@.wf(),
            final(self).spec_verbosity() == old(self).spec_verbosity(),
            (final(self)@, ab.0) == old(self)@.pop().0.pop(),
            ab.1 == old(self)@.pop().1,
    {
        let b = self.pop_stack();
        let a = self.pop_stack();
        (a, b)
    }

    /// The instructions that pop a word and store it.
    fn run_store(&mut self, i: &Instr) -> (r: Result<(), RuntimeError>)
        requires
            i@ is STR || i@ is STL || i@ is STS || i@ is STA,
        ensures
            final(self)@.wf(),
            final(self).spec_verbosity() == old(self).spec_verbosity(),
            match old(self)@.effect(i@) {
                Ok(m) => r is Ok && final(self)@ == m,
                Err(e) => r == Err::<(), RuntimeError>(e) && final(self)@ == (Machine {
                    regs: final(self)@.regs,
                    ..old(self)@
                }),
            },
    {
        match i {
            Instr::STR(r) => {
                let v = self.pop_stack();
                self.set_reg(*r, v);
                Ok(())
            },
            Instr::STL(rel) => {
                let addr = add_words(self.registers.mp, *rel);
                let v = self.pop_stack();
                self.set_mem(addr, v)
            },
            Instr::STS(rel) => {
                let addr = add_words(self.registers.sp, *rel);
                let v = self.pop_stack();
                self.set_mem(addr, v)
            },
            Instr::STA(rel) => {
                let addr = self.pop_stack();
                let v = self.pop_stack();
                self.set_mem(add_words(addr, *rel), v)
            },
            _ => Ok(()),
        }
    }

    /// The instructions that push a word.
    fn run_load(&mut self, i: &Instr) -> (r: Result<(), RuntimeError>)
        requires
            i@ is LDR || i@ is LDL || i@ is LDS || i@ is LDA || i@ is LDC || i@ is LDLA
                || i@ is LDSA || i@ is LDAA || i@ is LDH,
        ensures
            final(self)@.wf(),
            final(self).spec_verbosity() == old(self).spec_verbosity(),
            match old(self)@.effect(i@) {
                Ok(m) => r is Ok && final(self)@ == m,
                Err(e) => r == Err::<(), RuntimeError>(e) && final(self)@ == (Machine {
                    regs: final(self)@.regs,
                    ..old(self)@
                }),
            },
    {
        match i {
            Instr::LDR(r) => {
                let v = self.get_reg(*r);
                self.push_stack(v)
            },
            Instr::LDL(rel) => {
                let v = self.get_mem(add_words(self.registers.mp, *rel));
                self.push_stack(v)
            },
            Instr::LDS(rel) => {
                let v = self.get_mem(add_words(self.registers.sp, *rel));
                self.push_stack(v)
            },
            Instr::LDA(rel) | Instr::LDH(rel) => {
                let addr = self.pop_stack();
                let v = self.get_mem(add_words(addr, *rel));
                self.push_stack(v)
            },
            Instr::LDC(n) => self.push_stack(*n),
            Instr::LDLA(rel) => {
                let addr = add_words(self.registers.mp, *rel);
                self.push_stack(addr)
            },
            Instr::LDSA(rel) => {
                let addr = add_words(self.registers.sp, *rel);
                self.push_stack(addr)
            },
            Instr::LDAA(rel) => {
                let addr = self.pop_stack();
                self.push_stack(add_words(addr, *rel))
            },
            _ => Ok(()),
        }
    }

    /// The instructions that change the program counter.
    fn run_jump(&mut self, i: &Instr) -> (r: Result<(), RuntimeError>)
        requires
            i@ is BRA || i@ is BRF || i@ is BRT || i@ is BSR || i@ is JSR || i@ is RET,
        ensures
            final(self)@.wf(),
            final(self).spec_verbosity() == old(self).spec_verbosity(),
            match old(self)@.effect(i@) {
                Ok(m) => r is Ok && final(self)@ == m,
                Err(e) => r == Err::<(), RuntimeError>(e) && final(self)@ == (Machine {
                    regs: final(self)@.regs,
                    ..old(self)@
                }),
            },
    {
        let pc = self.registers.pc;
        match i {
            Instr::BRA(rel) => {
                self.registers.pc = add_words(pc, *rel);
                Ok(())
            },
            Instr::BRF(rel) => {
                let cond = self.pop_stack();
                if cond == 0 {
                    self.registers.pc = add_words(pc, *rel);
                }
                Ok(())
            },
            Instr::BRT(rel) => {
                let cond = self.pop_stack();
                if cond != 0 {
                    self.registers.pc = add_words(pc, *rel);
                }
                Ok(())
            },
            Instr::BSR(rel) => match self.push_stack(pc) {
                Ok(()) => {
                    self.registers.pc = add_words(pc, *rel);
                    Ok(())
                },
                Err(e) => Err(e),
            },
            Instr::JSR => {
                let target = self.pop_stack();
                match self.push_stack(pc) {
                    Ok(()) => {
                        self.registers.pc = target;
                        Ok(())
                    },
                    Err(e) => Err(e),
                }
            },
            Instr::RET => {
                let target = self.pop_stack();
                self.registers.pc = target;
                Ok(())
            },
            _ => Ok(()),
        }
    }

    /// The instructions that move the stack pointer and the mark pointer, and the swaps.
    fn run_frame(&mut self, i: &Instr) -> (r: Result<(), RuntimeError>)
        requires
            i@ is LINK || i@ is UNLINK || i@ is AJS || i@ is SWP || i@ is SWPR || i@ is SWPRR
                || i@ is LDRR,
        ensures
            final(self)@.wf(),
            final(self).spec_verbosity() == old(self).spec_verbosity(),
            match old(self)@.effect(i@) {
                Ok(m) => r is Ok && final(self)@ == m,
                Err(e) => r == Err::<(), RuntimeError>(e) && final(self)@ == (Machine {
                    regs: final(self)@.regs,
                    ..old(self)@
                }),
            },
    {
        match i {
            Instr::LINK(n) => {
                let mp = self.registers.mp;
                match self.push_stack(mp) {
                    Ok(()) => {
                        let sp = self.registers.sp;
                        self.registers.mp = sp;
                        self.registers.sp = add_words(sp, *n);
                        Ok(())
                    },
                    Err(e) => Err(e),
                }
            },
            Instr::UNLINK => {
                self.registers.sp = self.registers.mp;
                let v = self.pop_stack();
                self.registers.mp = v;
                Ok(())
            },
            Instr::AJS(rel) => {
                self.registers.sp = add_words(self.registers.sp, *rel);
                Ok(())
            },
            Instr::SWP => {
                let a = self.pop_stack();
                let b = self.pop_stack();
                let first = add_words(self.registers.sp, 1);
                let second = add_words(first, 1);
                if first < 0 {
                    Err(RuntimeError::InvalidAddress(first))
                } else if second < 0 {
                    Err(RuntimeError::InvalidAddress(second))
                } else {
                    let _ = self.push_stack(a);
                    self.push_stack(b)
                }
            },
            Instr::SWPR(r) => {
                let a = self.pop_stack();
                let b = self.get_reg(*r);
                match self.push_stack(b) {
                    Ok(()) => {
                        self.set_reg(*r, a);
                        Ok(())
                    },
                    Err(e) => Err(e),
                }
            },
            Instr::SWPRR(r, q) => {
                let a = self.get_reg(*r);
                let b = self.get_reg(*q);
                self.set_reg(*r, b);
                self.set_reg(*q, a);
                Ok(())
            },
            Instr::LDRR(dest, src) => {
                let v = self.get_reg(*src);
                self.set_reg(*dest, v);
                Ok(())
            },
            _ => Ok(()),
        }
    }

    /// The arithmetic instructions.
    fn run_arith(&mut self, i: &Instr) -> (r: Result<(), RuntimeError>)
        requires
            i@ is ADD || i@ is SUB || i@ is MUL || i@ is DIV || i@ is MOD || i@ is NEG,
        ensures
            final(self)@.wf(),
            final(self).spec_verbosity() == old(self).spec_verbosity(),
            match old(self)@.effect(i@) {
                Ok(m) => r is Ok && final(self)@ == m,
                Err(e) => r == Err::<(), RuntimeError>(e) && final(self)@ == (Machine {
                    regs: final(self)@.regs,
                    ..old(self)@
                }),
            },
    {
        match i {
            Instr::ADD => {
                let (a, b) = self.pop_operands();
                self.push_stack(add_words(a, b))
            },
            Instr::SUB => {
                let (a, b) = self.pop_operands();
                self.push_stack(sub_words(a, b))
            },
            Instr::MUL => {
                let (a, b) = self.pop_operands();
                self.push_stack(mul_words(a, b))
            },
            Instr::DIV => {
                let (a, b) = self.pop_operands();
                if b == 0 {
                    Err(RuntimeError::DivisionByZero)
                } else {
                    self.push_stack(div_words(a, b))
                }
            },
            Instr::MOD => {
                let (a, b) = self.pop_operands();
                if b == 0 {
                    Err(RuntimeError::DivisionByZero)
                } else {
                    self.push_stack(rem_words(a, b))
                }
            },
            Instr::NEG => {
                let a = self.pop_stack();
                self.push_stack(sub_words(0, a))
            },
            _ => Ok(()),
        }
    }

    /// The comparisons and the bitwise instructions.
    fn run_logic(&mut self, i: &Instr) -> (r: Result<(), RuntimeError>)
        requires
            i@ is EQ || i@ is NE || i@ is LT || i@ is LE || i@ is GT || i@ is GE || i@ is AND
                || i@ is OR || i@ is XOR || i@ is NOT,
        ensures
            final(self)@.wf(),
            final(self).spec_verbosity() == old(self).spec_verbosity(),
            match old(self)@.effect(i@) {
                Ok(m) => r is Ok && final(self)@ == m,
                Err(e) => r == Err::<(), RuntimeError>(e) && final(self)@ == (Machine {
                    regs: final(self)@.regs,
                    ..old(self)@
                }),
            },
    {
        match i {
            Instr::EQ => {
                let (a, b) = self.pop_operands();
                self.push_stack(flag_word(a == b))
            },
            Instr::NE => {
                let (a, b) = self.pop_operands();
                self.push_stack(flag_word(a != b))
            },
            Instr::LT => {
                let (a, b) = self.pop_operands();
                self.push_stack(flag_word(a < b))
            },
            Instr::LE => {
                let (a, b) = self.pop_operands();
                self.push_stack(flag_word(a <= b))
            },
            Instr::GT => {
                let (a, b) = self.pop_operands();
                self.push_stack(flag_word(a > b))
            },
            Instr::GE => {
                let (a, b) = self.pop_operands();
                self.push_stack(flag_word(a >= b))
            },
            Instr::AND => {
                let (a, b) = self.pop_operands();
                self.push_stack(a & b)
            },
            Instr::OR => {
                let (a, b) = self.pop_operands();
                self.push_stack(a | b)
            },
            Instr::XOR => {
                let (a, b) = self.pop_operands();
                self.push_stack(a ^ b)
            },
            Instr::NOT => {
                let a = self.pop_stack();
                self.push_stack(flag_word(a == 0))
            },
            _ => Ok(()),
        }
    }

    /// The traps, and the instructions that stand alone.
    fn run_trap(&mut self, i: &Instr) -> (r: Result<(), RuntimeError>)
        requires
            i@ is TRAP || i@ is NOP || i@ is HALT || i@ is STH,
        ensures
            final(self)@.wf(),
            final(self).spec_verbosity() == old(self).spec_verbosity(),
            match old(self)@.effect(i@) {
                Ok(m) => r is Ok && final(self)@ == m,
                Err(e) => r == Err::<(), RuntimeError>(e) && final(self)@ == (Machine {
                    regs: final(self)@.regs,
                    ..old(self)@
                }),
            },
    {
        match i {
            Instr::TRAP(n) => {
                if *n == 0 {
                    let v = self.pop_stack();
                    self.emit(OutputKind::Number, decimal_string(v));
                    Ok(())
                } else if *n == 1 {
                    let v = self.pop_stack();
                    if v >= 0 {
                        match char::from_u32(v as u32) {
                            Some(c) => {
                                let mut line = String::new();
                                line.push(c);
                                assert(line@ =~= seq![v as char]);
                                self.emit(OutputKind::Character, line);
                            },
                            None => {},
                        }
                    }
                    Ok(())
                } else {
                    Err(RuntimeError::UnknownTrap(*n))
                }
            },
            Instr::NOP => Ok(()),
            Instr::HALT => Ok(()),
            Instr::STH => {
                let v = self.pop_stack();
                let hp = self.registers.hp;
                let top = add_words(self.registers.sp, 1);
                if top < 0 {
                    Err(RuntimeError::InvalidAddress(top))
                } else if hp < 0 {
                    Err(RuntimeError::InvalidAddress(hp))
                } else {
                    let _ = self.push_stack(hp);
                    let _ = self.set_mem(hp, v);
                    self.registers.hp = add_words(hp, 1);
                    Ok(())
                }
            },
            _ => Ok(()),
        }
    }

    /// The instructions that are reserved: they fail and change nothing.
    fn run_reserved(&self, i: &Instr) -> (r: Result<(), RuntimeError>)
        requires
            i@ is STMA || i@ is STMH || i@ is STML || i@ is STMS || i@ is LDMA || i@ is LDMH
                || i@ is LDML || i@ is LDMS,
        ensures
            r is Err,
            self@.effect(i@) == Err::<Machine, RuntimeError>(r->Err_0),
    {
        match i {
            Instr::STMA(_, _) => Err(RuntimeError::UnsupportedInstruction(0x2E)),
            Instr::STMH(_) => Err(RuntimeError::UnsupportedInstruction(0x2F)),
            Instr::STML(_, _) => Err(RuntimeError::UnsupportedInstruction(0x30)),
            Instr::STMS(_, _) => Err(RuntimeError::UnsupportedInstruction(0x31)),
            Instr::LDMA(_, _) => Err(RuntimeError::UnsupportedInstruction(0x32)),
            Instr::LDMH(_, _) => Err(RuntimeError::UnsupportedInstruction(0x33)),
            Instr::LDML(_, _) => Err(RuntimeError::UnsupportedInstruction(0x34)),
            Instr::LDMS(_, _) => Err(RuntimeError::UnsupportedInstruction(0x35)),
            _ => Err(RuntimeError::UnsupportedInstruction(0x35)),
        }
    }

    /// Carries out one instruction, the program counter being behind it
    /// already. Where the instruction fails, the memory, the heap and the
    /// trap output are as before; the registers may have changed.
    fn run(&mut self, i: &Instr) -> (r: Result<(), RuntimeError>)
        requires
            i@.is_resolved(),
        ensures
            final(self)@.wf(),
            final(self).spec_verbosity() == old(self).spec_verbosity(),
            match old(self)@.effect(i@) {
                Ok(m) => r is Ok && final(self)@ == m,
                Err(e) => r == Err::<(), RuntimeError>(e) && final(self)@ == (Machine {
                    regs: final(self)@.regs,
                    ..old(self)@
                }),
            },
    {
        match i {
            Instr::STR(_) | Instr::STL(_) | Instr::STS(_) | Instr::STA(_) => self.run_store(i),
            Instr::LDR(_) | Instr::LDL(_) | Instr::LDS(_) | Instr::LDA(_) | Instr::LDC(_)
                | Instr::LDLA(_) | Instr::LDSA(_) | Instr::LDAA(_)
                | Instr::LDH(_) => self.run_load(i),
            Instr::BRA(_) | Instr::BRF(_) | Instr::BRT(_) | Instr::BSR(_) | Instr::JSR
                | Instr::RET => self.run_jump(i),
            Instr::LINK(_) | Instr::UNLINK | Instr::AJS(_) | Instr::SWP | Instr::SWPR(_)
                | Instr::SWPRR(_, _) | Instr::LDRR(_, _) => self.run_frame(i),
            Instr::ADD | Instr::SUB | Instr::MUL | Instr::DIV | Instr::MOD
                | Instr::NEG => self.run_arith(i),
            Instr::EQ | Instr::NE | Instr::LT | Instr::LE | Instr::GT | Instr::GE | Instr::AND
                | Instr::OR | Instr::XOR | Instr::NOT => self.run_logic(i),
            Instr::TRAP(_) | Instr::NOP | Instr::HALT | Instr::STH => self.run_trap(i),
            Instr::STMA(_, _) | Instr::STMH(_) | Instr::STML(_, _) | Instr::STMS(_, _)
                | Instr::LDMA(_, _) | Instr::LDMH(_, _) | Instr::LDML(_, _)
                | Instr::LDMS(_, _) => self.run_reserved(i),
            _ => Ok(()),
        }
    }

    /// Carries out one instruction, the program counter being behind it
    /// already, and says whether the machine goes on: `false` after `HALT`.
    /// Where the instruction cannot be carried out, the machine is left as
    /// it was.
    pub fn exec(&mut self, i: &Instr) -> (r: Result<bool, RuntimeError>)
        requires
            i@.is_resolved(),
        ensures
            final(self)@.wf(),
            final(self).spec_verbosity() == old(self).spec_verbosity(),
            match old(self)@.effect(i@) {
                Ok(m) => r == Ok::<bool, RuntimeError>(!(i@ is HALT)) && final(self)@ == m,
                Err(e) => r == Err::<bool, RuntimeError>(e) && final(self)@ == old(self)@,
            },
    {
        let saved = self.registers;
        match self.run(i) {
            Ok(()) => match i {
                Instr::HALT => Ok(false),
                _ => Ok(true),
            },
            Err(e) => {
                self.registers = saved;
                Err(e)
            },
        }
    }

    /// Sends the report on the instruction that is about to be executed to
    /// the trap sink, as far as the verbosity asks for it.
    fn trace(&mut self, i: &Instr)
        ensures
            final(self)@ == old(self)@.traced(old(self).spec_verbosity(), i@),
            final(self).spec_verbosity() == old(self).spec_verbosity(),
    {
        if self.verbosity > 1 {
            let mut line = String::new();
            push_str(&mut line, "Registers: ");
            push_str(&mut line, registers_to_string(&self.registers).as_str());
            assert(line@ =~= "Registers: "@ + registers_text(self.registers));
            self.emit(OutputKind::Report, line);
            let sp = self.registers.sp;
            let end: usize = if sp < 0 {
                0
            } else if sp as usize >= MAX_STACK_SIZE {
                MAX_STACK_SIZE
            } else {
                sp as usize + 1
            };
            let dump = words_to_string(slice_subrange(self.memory.as_slice(), 0, end));
            assert(self.memory@.subrange(0, end as int) =~= self@.occupied());
            let mut line = String::new();
            push_str(&mut line, "Memory: ");
            push_str(&mut line, dump.as_str());
            assert(line@ =~= "Memory: "@ + words_text(self@.occupied()));
            self.emit(OutputKind::Report, line);
        }
        if self.verbosity > 0 {
            let mut line = String::new();
            push_str(&mut line, "Executing ");
            push_str(&mut line, i.trace_string().as_str());
            assert(line@ =~= "Executing "@ + i@.trace_text());
            self.emit(OutputKind::Report, line);
        }
    }

    /// Executes the instruction at the program counter and says whether the
    /// machine goes on: `Ok(false)` after `HALT`, `Ok(true)` after any other
    /// instruction.
    ///
    /// The step fails where the word at the program counter is no opcode or
    /// a register operand names no register, on a division by zero, on an
    /// unknown trap, on a reserved instruction and on a write below address
    /// zero. The machine is then as it was, but for the report on an
    /// instruction that was fetched.
    pub fn step(&mut self) -> (r: Result<bool, RuntimeError>)
        ensures
            final(self)@.wf(),
            final(self).spec_verbosity() == old(self).spec_verbosity(),
            (final(self)@, r) == old(self)@.step(old(self).spec_verbosity()),
    {
        let pc = self.registers.pc;
        let w0 = self.get_mem(pc);
        let w1 = self.get_mem(add_words(pc, 1));
        let w2 = self.get_mem(add_words(pc, 2));
        let instr = match Instr::decode(w0, w1, w2) {
            Ok(i) => i,
            Err(e) => {
                return Err(e);
            },
        };
        self.trace(&instr);
        self.registers.pc = add_words(pc, instr.instr_size() as i32);
        match self.exec(&instr) {
            Ok(running) => Ok(running),
            Err(e) => {
                self.registers.pc = pc;
                Err(e)
            },
        }
    }

    /// Links and encodes a program and loads it: the memory is zeroed, the
    /// image stands at address 0, the heap is empty, the program counter is
    /// 0, the stack pointer is the length of the image, and the other
    /// registers are as in a new processor.
    ///
    /// A program of more words than the memory holds is refused, and then a
    /// program with a branch to a label that it does not define. The
    /// processor is then as it was.
    pub fn load_code(&mut self, code: Code) -> (r: Result<(), LinkError>)
        ensures
            final(self)@.wf(),
            final(self).spec_verbosity() == old(self).spec_verbosity(),
            match r {
                Ok(()) => {
                    &&& total_size(views(code@)) <= MAX_STACK_SIZE
                    &&& first_undefined(views(code@)) is None
                    &&& final(self)@ == old(self)@.loaded(image(program(views(code@))))
                    &&& final(self)@.stack.take(total_size(views(code@))) == image(
                        program(views(code@)),
                    )
                    &&& final(self)@.regs.pc == 0
                    &&& final(self)@.regs.sp == total_size(views(code@))
                },
                Err(LinkError::ProgramTooLarge) => {
                    &&& total_size(views(code@)) > MAX_STACK_SIZE
                    &&& final(self)@ == old(self)@
                },
                Err(LinkError::UndefinedLabel(name)) => {
                    &&& total_size(views(code@)) <= MAX_STACK_SIZE
                    &&& first_undefined(views(code@)) matches Some(k)
                    &&& target_label(views(code@)[k]) == Some(name@)
                    &&& final(self)@ == old(self)@
                },
            },
    {
        let mut code = code;
        let ghost v = views(code@);
        match fix_jumps(&mut code) {
            Ok(()) => {},
            Err(e) => {
                return Err(e);
            },
        }
        remove_annote(&mut code);
        proof {
            lemma_program(v);
        }
        let words = convert_code(&code);
        let mut memory: [i32; MAX_STACK_SIZE] = [0; MAX_STACK_SIZE];
        let mut k: usize = 0;
        while k < words.len()
            invariant
                k <= words@.len() <= MAX_STACK_SIZE,
                forall|j: int|
                    0 <= j < MAX_STACK_SIZE ==> #[trigger] memory@[j] == if j < k {
                        words@[j]
                    } else {
                        0i32
                    },
            decreases words@.len() - k,
        {
            memory[k] = words[k];
            k = k + 1;
        }
        self.memory = memory;
        self.heap = Vec::new();
        self.registers = RegisterFile::new();
        self.registers.sp = words.len() as i32;
        proof {
            let m = old(self)@.loaded(words@);
            assert(self@.stack =~= m.stack);
            assert(self@.stack.take(words@.len() as int) =~= words@);
            assert(self@.heap =~= m.heap);
        }
        Ok(())
    }
}

} // verus!
