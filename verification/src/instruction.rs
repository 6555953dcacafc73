//! The instruction set: every opcode of the machine, the symbolic forms that
//! only exist before linking, and the encoding of instructions as words.

use vstd::prelude::*;

use crate::error::RuntimeError;
use crate::register::Reg;

verus! {

/// The colour of an annotation.
#[derive(Debug, Clone, Copy, PartialEq, Eq, Structural)]
pub enum Color {
    Black,
    Blue,
    Cyan,
    DarkGray,
    Gray,
    Green,
    LightGray,
    Magenta,
    Orange,
    Pink,
    Red,
    Yellow,
}

/// One line of a program.
///
/// The variants in capitals with operands are the instructions that the
/// machine executes. `Bra`, `Brf`, `Brt` and `Bsr` are branches to a label,
/// which linking turns into `BRA`, `BRF`, `BRT` and `BSR` with a
/// displacement. `LABEL` and `ANNOTE` take no room in the image.
#[derive(Clone, PartialEq, Eq, Debug)]
pub enum Instr {
    STR(Reg),
    STL(i32),
    STS(i32),
    STA(i32),
    LDR(Reg),
    LDL(i32),
    LDS(i32),
    LDA(i32),
    LDC(i32),
    LDLA(i32),
    LDSA(i32),
    LDAA(i32),
    BRA(i32),
    Bra(String),
    BRF(i32),
    Brf(String),
    BRT(i32),
    Brt(String),
    BSR(i32),
    Bsr(String),
    ADD,
    SUB,
    MUL,
    DIV,
    MOD,
    EQ,
    NE,
    LT,
    LE,
    GT,
    GE,
    AND,
    OR,
    XOR,
    NEG,
    NOT,
    RET,
    UNLINK,
    LINK(i32),
    AJS(i32),
    SWP,
    SWPR(Reg),
    SWPRR(Reg, Reg),
    LDRR(Reg, Reg),
    JSR,
    TRAP(i32),
    NOP,
    HALT,
    STH,
    LDH(i32),
    STMA(i32, i32),
    STMH(i32),
    STML(i32, i32),
    STMS(i32, i32),
    LDMA(i32, i32),
    LDMH(i32, i32),
    LDML(i32, i32),
    LDMS(i32, i32),
    LABEL(String),
    ANNOTE(Reg, i32, i32, Color, String),
}

/// What an instruction is, with the text it carries as a sequence of
/// characters.
pub enum InstrView {
    STR(Reg),
    STL(i32),
    STS(i32),
    STA(i32),
    LDR(Reg),
    LDL(i32),
    LDS(i32),
    LDA(i32),
    LDC(i32),
    LDLA(i32),
    LDSA(i32),
    LDAA(i32),
    BRA(i32),
    Bra(Seq<char>),
    BRF(i32),
    Brf(Seq<char>),
    BRT(i32),
    Brt(Seq<char>),
    BSR(i32),
    Bsr(Seq<char>),
    ADD,
    SUB,
    MUL,
    DIV,
    MOD,
    EQ,
    NE,
    LT,
    LE,
    GT,
    GE,
    AND,
    OR,
    XOR,
    NEG,
    NOT,
    RET,
    UNLINK,
    LINK(i32),
    AJS(i32),
    SWP,
    SWPR(Reg),
    SWPRR(Reg, Reg),
    LDRR(Reg, Reg),
    JSR,
    TRAP(i32),
    NOP,
    HALT,
    STH,
    LDH(i32),
    STMA(i32, i32),
    STMH(i32),
    STML(i32, i32),
    STMS(i32, i32),
    LDMA(i32, i32),
    LDMH(i32, i32),
    LDML(i32, i32),
    LDMS(i32, i32),
    LABEL(Seq<char>),
    ANNOTE(Reg, i32, i32, Color, Seq<char>),
}

impl View for Instr {
    type V = InstrView;

    open spec fn view(&self) -> InstrView {
        match *self {
            Instr::STR(r) => InstrView::STR(r),
            Instr::STL(n) => InstrView::STL(n),
            Instr::STS(n) => InstrView::STS(n),
            Instr::STA(n) => InstrView::STA(n),
            Instr::LDR(r) => InstrView::LDR(r),
            Instr::LDL(n) => InstrView::LDL(n),
            Instr::LDS(n) => InstrView::LDS(n),
            Instr::LDA(n) => InstrView::LDA(n),
            Instr::LDC(n) => InstrView::LDC(n),
            Instr::LDLA(n) => InstrView::LDLA(n),
            Instr::LDSA(n) => InstrView::LDSA(n),
            Instr::LDAA(n) => InstrView::LDAA(n),
            Instr::BRA(n) => InstrView::BRA(n),
            Instr::Bra(s) => InstrView::Bra(s@),
            Instr::BRF(n) => InstrView::BRF(n),
            Instr::Brf(s) => InstrView::Brf(s@),
            Instr::BRT(n) => InstrView::BRT(n),
            Instr::Brt(s) => InstrView::Brt(s@),
            Instr::BSR(n) => InstrView::BSR(n),
            Instr::Bsr(s) => InstrView::Bsr(s@),
            Instr::ADD => InstrView::ADD,
            Instr::SUB => InstrView::SUB,
            Instr::MUL => InstrView::MUL,
            Instr::DIV => InstrView::DIV,
            Instr::MOD => InstrView::MOD,
            Instr::EQ => InstrView::EQ,
            Instr::NE => InstrView::NE,
            Instr::LT => InstrView::LT,
            Instr::LE => InstrView::LE,
            Instr::GT => InstrView::GT,
            Instr::GE => InstrView::GE,
            Instr::AND => InstrView::AND,
            Instr::OR => InstrView::OR,
            Instr::XOR => InstrView::XOR,
            Instr::NEG => InstrView::NEG,
            Instr::NOT => InstrView::NOT,
            Instr::RET => InstrView::RET,
            Instr::UNLINK => InstrView::UNLINK,
            Instr::LINK(n) => InstrView::LINK(n),
            Instr::AJS(n) => InstrView::AJS(n),
            Instr::SWP => InstrView::SWP,
            Instr::SWPR(r) => InstrView::SWPR(r),
            Instr::SWPRR(r, q) => InstrView::SWPRR(r, q),
            Instr::LDRR(r, q) => InstrView::LDRR(r, q),
            Instr::JSR => InstrView::JSR,
            Instr::TRAP(n) => InstrView::TRAP(n),
            Instr::NOP => InstrView::NOP,
            Instr::HALT => InstrView::HALT,
            Instr::STH => InstrView::STH,
            Instr::LDH(n) => InstrView::LDH(n),
            Instr::STMA(n, m) => InstrView::STMA(n, m),
            Instr::STMH(n) => InstrView::STMH(n),
            Instr::STML(n, m) => InstrView::STML(n, m),
            Instr::STMS(n, m) => InstrView::STMS(n, m),
            Instr::LDMA(n, m) => InstrView::LDMA(n, m),
            Instr::LDMH(n, m) => InstrView::LDMH(n, m),
            Instr::LDML(n, m) => InstrView::LDML(n, m),
            Instr::LDMS(n, m) => InstrView::LDMS(n, m),
            Instr::LABEL(s) => InstrView::LABEL(s@),
            Instr::ANNOTE(r, n, m, c, s) => InstrView::ANNOTE(r, n, m, c, s@),
        }
    }
}

/// A program as a sequence of instruction values.
pub open spec fn views(code: Seq<Instr>) -> Seq<InstrView> {
    code.map_values(|i: Instr| i@)
}

/// The word that stands for a register in an encoded instruction.
pub open spec fn reg_word(r: Reg) -> i32 {
    r.spec_ordinal() as i32
}

impl InstrView {
    /// A branch to a label, which has no displacement yet.
    pub open spec fn is_symbolic(self) -> bool {
        self is Bra || self is Brf || self is Brt || self is Bsr
    }

    /// A label or an annotation: a line that takes no room in the image.
    pub open spec fn is_layout(self) -> bool {
        self is LABEL || self is ANNOTE
    }

    /// An instruction that the machine can hold: neither symbolic nor
    /// layout.
    pub open spec fn is_resolved(self) -> bool {
        !self.is_symbolic() && !self.is_layout()
    }

    /// The opcode of a resolved instruction: the first word of its
    /// encoding. For the other instructions, -1.
    pub open spec fn opcode(self) -> i32 {
        match self {
            InstrView::STR(_) => 0x00,
            InstrView::STL(_) => 0x01,
            InstrView::STS(_) => 0x02,
            InstrView::STA(_) => 0x03,
            InstrView::LDR(_) => 0x04,
            InstrView::LDL(_) => 0x05,
            InstrView::LDS(_) => 0x06,
            InstrView::LDA(_) => 0x07,
            InstrView::LDC(_) => 0x08,
            InstrView::LDLA(_) => 0x09,
            InstrView::LDSA(_) => 0x0A,
            InstrView::LDAA(_) => 0x0B,
            InstrView::BRA(_) => 0x0C,
            InstrView::BRF(_) => 0x0D,
            InstrView::BRT(_) => 0x0E,
            InstrView::BSR(_) => 0x0F,
            InstrView::ADD => 0x10,
            InstrView::SUB => 0x11,
            InstrView::MUL => 0x12,
            InstrView::DIV => 0x13,
            InstrView::MOD => 0x14,
            InstrView::EQ => 0x15,
            InstrView::NE => 0x16,
            InstrView::LT => 0x17,
            InstrView::LE => 0x18,
            InstrView::GT => 0x19,
            InstrView::GE => 0x1A,
            InstrView::AND => 0x29,
            InstrView::OR => 0x2A,
            InstrView::XOR => 0x2B,
            InstrView::NEG => 0x1B,
            InstrView::NOT => 0x1C,
            InstrView::RET => 0x1D,
            InstrView::UNLINK => 0x1E,
            InstrView::LINK(_) => 0x1F,
            InstrView::AJS(_) => 0x20,
            InstrView::SWP => 0x21,
            InstrView::SWPR(_) => 0x22,
            InstrView::SWPRR(_, _) => 0x23,
            InstrView::LDRR(_, _) => 0x24,
            InstrView::JSR => 0x25,
            InstrView::TRAP(_) => 0x26,
            InstrView::NOP => 0x27,
            InstrView::HALT => 0x28,
            InstrView::STH => 0x2C,
            InstrView::LDH(_) => 0x2D,
            InstrView::STMA(_, _) => 0x2E,
            InstrView::STMH(_) => 0x2F,
            InstrView::STML(_, _) => 0x30,
            InstrView::STMS(_, _) => 0x31,
            InstrView::LDMA(_, _) => 0x32,
            InstrView::LDMH(_, _) => 0x33,
            InstrView::LDML(_, _) => 0x34,
            InstrView::LDMS(_, _) => 0x35,
            _ => -1i32,
        }
    }

    /// The words of a resolved instruction: the opcode, then the operands in
    /// the order in which they are written. For the other instructions, the
    /// empty sequence.
    pub open spec fn encode(self) -> Seq<i32> {
        match self {
            InstrView::STR(r) => seq![0x00i32, reg_word(r)],
            InstrView::STL(n) => seq![0x01i32, n],
            InstrView::STS(n) => seq![0x02i32, n],
            InstrView::STA(n) => seq![0x03i32, n],
            InstrView::LDR(r) => seq![0x04i32, reg_word(r)],
            InstrView::LDL(n) => seq![0x05i32, n],
            InstrView::LDS(n) => seq![0x06i32, n],
            InstrView::LDA(n) => seq![0x07i32, n],
            InstrView::LDC(n) => seq![0x08i32, n],
            InstrView::LDLA(n) => seq![0x09i32, n],
            InstrView::LDSA(n) => seq![0x0Ai32, n],
            InstrView::LDAA(n) => seq![0x0Bi32, n],
            InstrView::BRA(n) => seq![0x0Ci32, n],
            InstrView::BRF(n) => seq![0x0Di32, n],
            InstrView::BRT(n) => seq![0x0Ei32, n],
            InstrView::BSR(n) => seq![0x0Fi32, n],
            InstrView::ADD => seq![0x10i32],
            InstrView::SUB => seq![0x11i32],
            InstrView::MUL => seq![0x12i32],
            InstrView::DIV => seq![0x13i32],
            InstrView::MOD => seq![0x14i32],
            InstrView::EQ => seq![0x15i32],
            InstrView::NE => seq![0x16i32],
            InstrView::LT => seq![0x17i32],
            InstrView::LE => seq![0x18i32],
            InstrView::GT => seq![0x19i32],
            InstrView::GE => seq![0x1Ai32],
            InstrView::AND => seq![0x29i32],
            InstrView::OR => seq![0x2Ai32],
            InstrView::XOR => seq![0x2Bi32],
            InstrView::NEG => seq![0x1Bi32],
            InstrView::NOT => seq![0x1Ci32],
            InstrView::RET => seq![0x1Di32],
            InstrView::UNLINK => seq![0x1Ei32],
            InstrView::LINK(n) => seq![0x1Fi32, n],
            InstrView::AJS(n) => seq![0x20i32, n],
            InstrView::SWP => seq![0x21i32],
            InstrView::SWPR(r) => seq![0x22i32, reg_word(r)],
            InstrView::SWPRR(r, q) => seq![0x23i32, reg_word(r), reg_word(q)],
            InstrView::LDRR(r, q) => seq![0x24i32, reg_word(r), reg_word(q)],
            InstrView::JSR => seq![0x25i32],
            InstrView::TRAP(n) => seq![0x26i32, n],
            InstrView::NOP => seq![0x27i32],
            InstrView::HALT => seq![0x28i32],
            InstrView::STH => seq![0x2Ci32],
            InstrView::LDH(n) => seq![0x2Di32, n],
            InstrView::STMA(n, m) => seq![0x2Ei32, n, m],
            InstrView::STMH(n) => seq![0x2Fi32, n],
            InstrView::STML(n, m) => seq![0x30i32, n, m],
            InstrView::STMS(n, m) => seq![0x31i32, n, m],
            InstrView::LDMA(n, m) => seq![0x32i32, n, m],
            InstrView::LDMH(n, m) => seq![0x33i32, n, m],
            InstrView::LDML(n, m) => seq![0x34i32, n, m],
            InstrView::LDMS(n, m) => seq![0x35i32, n, m],
            _ => Seq::empty(),
        }
    }

    /// The number of words that the instruction takes in the image: one
    /// for the opcode and one for each operand. A symbolic branch counts as
    /// the branch it becomes; a label and an annotation take no room.
    pub open spec fn size(self) -> nat {
        match self {
            InstrView::STR(_) => 2,
            InstrView::STL(_) => 2,
            InstrView::STS(_) => 2,
            InstrView::STA(_) => 2,
            InstrView::LDR(_) => 2,
            InstrView::LDL(_) => 2,
            InstrView::LDS(_) => 2,
            InstrView::LDA(_) => 2,
            InstrView::LDC(_) => 2,
            InstrView::LDLA(_) => 2,
            InstrView::LDSA(_) => 2,
            InstrView::LDAA(_) => 2,
            InstrView::BRA(_) => 2,
            InstrView::Bra(_) => 2,
            InstrView::BRF(_) => 2,
            InstrView::Brf(_) => 2,
            InstrView::BRT(_) => 2,
            InstrView::Brt(_) => 2,
            InstrView::BSR(_) => 2,
            InstrView::Bsr(_) => 2,
            InstrView::ADD => 1,
            InstrView::SUB => 1,
            InstrView::MUL => 1,
            InstrView::DIV => 1,
            InstrView::MOD => 1,
            InstrView::EQ => 1,
            InstrView::NE => 1,
            InstrView::LT => 1,
            InstrView::LE => 1,
            InstrView::GT => 1,
            InstrView::GE => 1,
            InstrView::AND => 1,
            InstrView::OR => 1,
            InstrView::XOR => 1,
            InstrView::NEG => 1,
            InstrView::NOT => 1,
            InstrView::RET => 1,
            InstrView::UNLINK => 1,
            InstrView::LINK(_) => 2,
            InstrView::AJS(_) => 2,
            InstrView::SWP => 1,
            InstrView::SWPR(_) => 2,
            InstrView::SWPRR(_, _) => 3,
            InstrView::LDRR(_, _) => 3,
            InstrView::JSR => 1,
            InstrView::TRAP(_) => 2,
            InstrView::NOP => 1,
            InstrView::HALT => 1,
            InstrView::STH => 1,
            InstrView::LDH(_) => 2,
            InstrView::STMA(_, _) => 3,
            InstrView::STMH(_) => 2,
            InstrView::STML(_, _) => 3,
            InstrView::STMS(_, _) => 3,
            InstrView::LDMA(_, _) => 3,
            InstrView::LDMH(_, _) => 3,
            InstrView::LDML(_, _) => 3,
            InstrView::LDMS(_, _) => 3,
            InstrView::LABEL(_) => 0,
            InstrView::ANNOTE(_, _, _, _, _) => 0,
        }
    }
}

/// The instruction that starts with the opcode `w0`, with `w1` and `w2` as
/// the words that follow it. Words that the instruction does not use are
/// ignored.
pub open spec fn decode(w0: i32, w1: i32, w2: i32) -> Result<InstrView, RuntimeError> {
    let r1 = Reg::spec_from_ordinal(w1 as int);
    let r2 = Reg::spec_from_ordinal(w2 as int);
    if w0 == 0x00 {
        match r1 {
            Some(r) => Ok(InstrView::STR(r)),
            None => Err(RuntimeError::InvalidRegister(w1)),
        }
    } else if w0 == 0x01 {
        Ok(InstrView::STL(w1))
    } else if w0 == 0x02 {
        Ok(InstrView::STS(w1))
    } else if w0 == 0x03 {
        Ok(InstrView::STA(w1))
    } else if w0 == 0x04 {
        match r1 {
            Some(r) => Ok(InstrView::LDR(r)),
            None => Err(RuntimeError::InvalidRegister(w1)),
        }
    } else if w0 == 0x05 {
        Ok(InstrView::LDL(w1))
    } else if w0 == 0x06 {
        Ok(InstrView::LDS(w1))
    } else if w0 == 0x07 {
        Ok(InstrView::LDA(w1))
    } else if w0 == 0x08 {
        Ok(InstrView::LDC(w1))
    } else if w0 == 0x09 {
        Ok(InstrView::LDLA(w1))
    } else if w0 == 0x0A {
        Ok(InstrView::LDSA(w1))
    } else if w0 == 0x0B {
        Ok(InstrView::LDAA(w1))
    } else if w0 == 0x0C {
        Ok(InstrView::BRA(w1))
    } else if w0 == 0x0D {
        Ok(InstrView::BRF(w1))
    } else if w0 == 0x0E {
        Ok(InstrView::BRT(w1))
    } else if w0 == 0x0F {
        Ok(InstrView::BSR(w1))
    } else if w0 == 0x10 {
        Ok(InstrView::ADD)
    } else if w0 == 0x11 {
        Ok(InstrView::SUB)
    } else if w0 == 0x12 {
        Ok(InstrView::MUL)
    } else if w0 == 0x13 {
        Ok(InstrView::DIV)
    } else if w0 == 0x14 {
        Ok(InstrView::MOD)
    } else if w0 == 0x15 {
        Ok(InstrView::EQ)
    } else if w0 == 0x16 {
        Ok(InstrView::NE)
    } else if w0 == 0x17 {
        Ok(InstrView::LT)
    } else if w0 == 0x18 {
        Ok(InstrView::LE)
    } else if w0 == 0x19 {
        Ok(InstrView::GT)
    } else if w0 == 0x1A {
        Ok(InstrView::GE)
    } else if w0 == 0x1B {
        Ok(InstrView::NEG)
    } else if w0 == 0x1C {
        Ok(InstrView::NOT)
    } else if w0 == 0x1D {
        Ok(InstrView::RET)
    } else if w0 == 0x1E {
        Ok(InstrView::UNLINK)
    } else if w0 == 0x1F {
        Ok(InstrView::LINK(w1))
    } else if w0 == 0x20 {
        Ok(InstrView::AJS(w1))
    } else if w0 == 0x21 {
        Ok(InstrView::SWP)
    } else if w0 == 0x22 {
        match r1 {
            Some(r) => Ok(InstrView::SWPR(r)),
            None => Err(RuntimeError::InvalidRegister(w1)),
        }
    } else if w0 == 0x23 {
        match r1 {
            Some(r) => match r2 {
                Some(q) => Ok(InstrView::SWPRR(r, q)),
                None => Err(RuntimeError::InvalidRegister(w2)),
            },
            None => Err(RuntimeError::InvalidRegister(w1)),
        }
    } else if w0 == 0x24 {
        match r1 {
            Some(r) => match r2 {
                Some(q) => Ok(InstrView::LDRR(r, q)),
                None => Err(RuntimeError::InvalidRegister(w2)),
            },
            None => Err(RuntimeError::InvalidRegister(w1)),
        }
    } else if w0 == 0x25 {
        Ok(InstrView::JSR)
    } else if w0 == 0x26 {
        Ok(InstrView::TRAP(w1))
    } else if w0 == 0x27 {
        Ok(InstrView::NOP)
    } else if w0 == 0x28 {
        Ok(InstrView::HALT)
    } else if w0 == 0x29 {
        Ok(InstrView::AND)
    } else if w0 == 0x2A {
        Ok(InstrView::OR)
    } else if w0 == 0x2B {
        Ok(InstrView::XOR)
    } else if w0 == 0x2C {
        Ok(InstrView::STH)
    } else if w0 == 0x2D {
        Ok(InstrView::LDH(w1))
    } else if w0 == 0x2E {
        Ok(InstrView::STMA(w1, w2))
    } else if w0 == 0x2F {
        Ok(InstrView::STMH(w1))
    } else if w0 == 0x30 {
        Ok(InstrView::STML(w1, w2))
    } else if w0 == 0x31 {
        Ok(InstrView::STMS(w1, w2))
    } else if w0 == 0x32 {
        Ok(InstrView::LDMA(w1, w2))
    } else if w0 == 0x33 {
        Ok(InstrView::LDMH(w1, w2))
    } else if w0 == 0x34 {
        Ok(InstrView::LDML(w1, w2))
    } else if w0 == 0x35 {
        Ok(InstrView::LDMS(w1, w2))
    } else {
        Err(RuntimeError::InvalidOpcode(w0))
    }
}

impl Instr {
    /// The words of the instruction: the opcode, then the operands.
    ///
    /// Only a resolved instruction has an encoding: labels, annotations and
    /// branches to a label must be gone before a program is encoded.
    pub fn convert(&self) -> (words: Vec<i32>)
        requires
            self@.is_resolved(),
        ensures
            words@ == self@.encode(),
    {
        let words = match self {
            Instr::STR(r) => vec![0x00, r.ordinal()],
            Instr::STL(n) => vec![0x01, *n],
            Instr::STS(n) => vec![0x02, *n],
            Instr::STA(n) => vec![0x03, *n],
            Instr::LDR(r) => vec![0x04, r.ordinal()],
            Instr::LDL(n) => vec![0x05, *n],
            Instr::LDS(n) => vec![0x06, *n],
            Instr::LDA(n) => vec![0x07, *n],
            Instr::LDC(n) => vec![0x08, *n],
            Instr::LDLA(n) => vec![0x09, *n],
            Instr::LDSA(n) => vec![0x0A, *n],
            Instr::LDAA(n) => vec![0x0B, *n],
            Instr::BRA(n) => vec![0x0C, *n],
            Instr::BRF(n) => vec![0x0D, *n],
            Instr::BRT(n) => vec![0x0E, *n],
            Instr::BSR(n) => vec![0x0F, *n],
            Instr::ADD => vec![0x10],
            Instr::SUB => vec![0x11],
            Instr::MUL => vec![0x12],
            Instr::DIV => vec![0x13],
            Instr::MOD => vec![0x14],
            Instr::EQ => vec![0x15],
            Instr::NE => vec![0x16],
            Instr::LT => vec![0x17],
            Instr::LE => vec![0x18],
            Instr::GT => vec![0x19],
            Instr::GE => vec![0x1A],
            Instr::AND => vec![0x29],
            Instr::OR => vec![0x2A],
            Instr::XOR => vec![0x2B],
            Instr::NEG => vec![0x1B],
            Instr::NOT => vec![0x1C],
            Instr::RET => vec![0x1D],
            Instr::UNLINK => vec![0x1E],
            Instr::LINK(n) => vec![0x1F, *n],
            Instr::AJS(n) => vec![0x20, *n],
            Instr::SWP => vec![0x21],
            Instr::SWPR(r) => vec![0x22, r.ordinal()],
            Instr::SWPRR(r, q) => vec![0x23, r.ordinal(), q.ordinal()],
            Instr::LDRR(r, q) => vec![0x24, r.ordinal(), q.ordinal()],
            Instr::JSR => vec![0x25],
            Instr::TRAP(n) => vec![0x26, *n],
            Instr::NOP => vec![0x27],
            Instr::HALT => vec![0x28],
            Instr::STH => vec![0x2C],
            Instr::LDH(n) => vec![0x2D, *n],
            Instr::STMA(n, m) => vec![0x2E, *n, *m],
            Instr::STMH(n) => vec![0x2F, *n],
            Instr::STML(n, m) => vec![0x30, *n, *m],
            Instr::STMS(n, m) => vec![0x31, *n, *m],
            Instr::LDMA(n, m) => vec![0x32, *n, *m],
            Instr::LDMH(n, m) => vec![0x33, *n, *m],
            Instr::LDML(n, m) => vec![0x34, *n, *m],
            Instr::LDMS(n, m) => vec![0x35, *n, *m],
            _ => Vec::new(),
        };
        assert(words@ =~= self@.encode());
        words
    }

    /// The number of words that the instruction takes in the image: none
    /// for a label or an annotation, two for a branch to a label.
    pub fn instr_size(&self) -> (n: usize)
        ensures
            n == self@.size(),
            n <= 3,
    {
        match self {
            Instr::STR(_) => 2,
            Instr::STL(_) => 2,
            Instr::STS(_) => 2,
            Instr::STA(_) => 2,
            Instr::LDR(_) => 2,
            Instr::LDL(_) => 2,
            Instr::LDS(_) => 2,
            Instr::LDA(_) => 2,
            Instr::LDC(_) => 2,
            Instr::LDLA(_) => 2,
            Instr::LDSA(_) => 2,
            Instr::LDAA(_) => 2,
            Instr::BRA(_) => 2,
            Instr::Bra(_) => 2,
            Instr::BRF(_) => 2,
            Instr::Brf(_) => 2,
            Instr::BRT(_) => 2,
            Instr::Brt(_) => 2,
            Instr::BSR(_) => 2,
            Instr::Bsr(_) => 2,
            Instr::ADD => 1,
            Instr::SUB => 1,
            Instr::MUL => 1,
            Instr::DIV => 1,
            Instr::MOD => 1,
            Instr::EQ => 1,
            Instr::NE => 1,
            Instr::LT => 1,
            Instr::LE => 1,
            Instr::GT => 1,
            Instr::GE => 1,
            Instr::AND => 1,
            Instr::OR => 1,
            Instr::XOR => 1,
            Instr::NEG => 1,
            Instr::NOT => 1,
            Instr::RET => 1,
            Instr::UNLINK => 1,
            Instr::LINK(_) => 2,
            Instr::AJS(_) => 2,
            Instr::SWP => 1,
            Instr::SWPR(_) => 2,
            Instr::SWPRR(_, _) => 3,
            Instr::LDRR(_, _) => 3,
            Instr::JSR => 1,
            Instr::TRAP(_) => 2,
            Instr::NOP => 1,
            Instr::HALT => 1,
            Instr::STH => 1,
            Instr::LDH(_) => 2,
            Instr::STMA(_, _) => 3,
            Instr::STMH(_) => 2,
            Instr::STML(_, _) => 3,
            Instr::STMS(_, _) => 3,
            Instr::LDMA(_, _) => 3,
            Instr::LDMH(_, _) => 3,
            Instr::LDML(_, _) => 3,
            Instr::LDMS(_, _) => 3,
            Instr::LABEL(_) => 0,
            Instr::ANNOTE(_, _, _, _, _) => 0,
        }
    }

    /// A copy of the instruction.
    pub fn copy(&self) -> (c: Instr)
        ensures
            c@ == self@,
    {
        match self {
            Instr::STR(r) => Instr::STR(*r),
            Instr::STL(n) => Instr::STL(*n),
            Instr::STS(n) => Instr::STS(*n),
            Instr::STA(n) => Instr::STA(*n),
            Instr::LDR(r) => Instr::LDR(*r),
            Instr::LDL(n) => Instr::LDL(*n),
            Instr::LDS(n) => Instr::LDS(*n),
            Instr::LDA(n) => Instr::LDA(*n),
            Instr::LDC(n) => Instr::LDC(*n),
            Instr::LDLA(n) => Instr::LDLA(*n),
            Instr::LDSA(n) => Instr::LDSA(*n),
            Instr::LDAA(n) => Instr::LDAA(*n),
            Instr::BRA(n) => Instr::BRA(*n),
            Instr::Bra(s) => Instr::Bra(s.clone()),
            Instr::BRF(n) => Instr::BRF(*n),
            Instr::Brf(s) => Instr::Brf(s.clone()),
            Instr::BRT(n) => Instr::BRT(*n),
            Instr::Brt(s) => Instr::Brt(s.clone()),
            Instr::BSR(n) => Instr::BSR(*n),
            Instr::Bsr(s) => Instr::Bsr(s.clone()),
            Instr::ADD => Instr::ADD,
            Instr::SUB => Instr::SUB,
            Instr::MUL => Instr::MUL,
            Instr::DIV => Instr::DIV,
            Instr::MOD => Instr::MOD,
            Instr::EQ => Instr::EQ,
            Instr::NE => Instr::NE,
            Instr::LT => Instr::LT,
            Instr::LE => Instr::LE,
            Instr::GT => Instr::GT,
            Instr::GE => Instr::GE,
            Instr::AND => Instr::AND,
            Instr::OR => Instr::OR,
            Instr::XOR => Instr::XOR,
            Instr::NEG => Instr::NEG,
            Instr::NOT => Instr::NOT,
            Instr::RET => Instr::RET,
            Instr::UNLINK => Instr::UNLINK,
            Instr::LINK(n) => Instr::LINK(*n),
            Instr::AJS(n) => Instr::AJS(*n),
            Instr::SWP => Instr::SWP,
            Instr::SWPR(r) => Instr::SWPR(*r),
            Instr::SWPRR(r, q) => Instr::SWPRR(*r, *q),
            Instr::LDRR(r, q) => Instr::LDRR(*r, *q),
            Instr::JSR => Instr::JSR,
            Instr::TRAP(n) => Instr::TRAP(*n),
            Instr::NOP => Instr::NOP,
            Instr::HALT => Instr::HALT,
            Instr::STH => Instr::STH,
            Instr::LDH(n) => Instr::LDH(*n),
            Instr::STMA(n, m) => Instr::STMA(*n, *m),
            Instr::STMH(n) => Instr::STMH(*n),
            Instr::STML(n, m) => Instr::STML(*n, *m),
            Instr::STMS(n, m) => Instr::STMS(*n, *m),
            Instr::LDMA(n, m) => Instr::LDMA(*n, *m),
            Instr::LDMH(n, m) => Instr::LDMH(*n, *m),
            Instr::LDML(n, m) => Instr::LDML(*n, *m),
            Instr::LDMS(n, m) => Instr::LDMS(*n, *m),
            Instr::LABEL(s) => Instr::LABEL(s.clone()),
            Instr::ANNOTE(r, n, m, c, s) => Instr::ANNOTE(*r, *n, *m, *c, s.clone()),
        }
    }

    /// Reads the instruction that starts with the opcode `w0`; `w1` and `w2`
    /// are the two words that follow it in memory. Fails on a word that is
    /// no opcode, and on an operand that should name a register and does
    /// not.
    pub fn decode(w0: i32, w1: i32, w2: i32) -> (r: Result<Instr, RuntimeError>)
        ensures
            match r {
                Ok(i) => decode(w0, w1, w2) == Ok::<InstrView, RuntimeError>(i@)
                    && i@.is_resolved(),
                Err(e) => decode(w0, w1, w2) == Err::<InstrView, RuntimeError>(e),
            },
    {
        match w0 {
            0x00 => match Reg::from_ordinal(w1) {
                Some(r) => Ok(Instr::STR(r)),
                None => Err(RuntimeError::InvalidRegister(w1)),
            },
            0x01 => Ok(Instr::STL(w1)),
            0x02 => Ok(Instr::STS(w1)),
            0x03 => Ok(Instr::STA(w1)),
            0x04 => match Reg::from_ordinal(w1) {
                Some(r) => Ok(Instr::LDR(r)),
                None => Err(RuntimeError::InvalidRegister(w1)),
            },
            0x05 => Ok(Instr::LDL(w1)),
            0x06 => Ok(Instr::LDS(w1)),
            0x07 => Ok(Instr::LDA(w1)),
            0x08 => Ok(Instr::LDC(w1)),
            0x09 => Ok(Instr::LDLA(w1)),
            0x0A => Ok(Instr::LDSA(w1)),
            0x0B => Ok(Instr::LDAA(w1)),
            0x0C => Ok(Instr::BRA(w1)),
            0x0D => Ok(Instr::BRF(w1)),
            0x0E => Ok(Instr::BRT(w1)),
            0x0F => Ok(Instr::BSR(w1)),
            0x10 => Ok(Instr::ADD),
            0x11 => Ok(Instr::SUB),
            0x12 => Ok(Instr::MUL),
            0x13 => Ok(Instr::DIV),
            0x14 => Ok(Instr::MOD),
            0x15 => Ok(Instr::EQ),
            0x16 => Ok(Instr::NE),
            0x17 => Ok(Instr::LT),
            0x18 => Ok(Instr::LE),
            0x19 => Ok(Instr::GT),
            0x1A => Ok(Instr::GE),
            0x1B => Ok(Instr::NEG),
            0x1C => Ok(Instr::NOT),
            0x1D => Ok(Instr::RET),
            0x1E => Ok(Instr::UNLINK),
            0x1F => Ok(Instr::LINK(w1)),
            0x20 => Ok(Instr::AJS(w1)),
            0x21 => Ok(Instr::SWP),
            0x22 => match Reg::from_ordinal(w1) {
                Some(r) => Ok(Instr::SWPR(r)),
                None => Err(RuntimeError::InvalidRegister(w1)),
            },
            0x23 => match Reg::from_ordinal(w1) {
                Some(r) => match Reg::from_ordinal(w2) {
                    Some(q) => Ok(Instr::SWPRR(r, q)),
                    None => Err(RuntimeError::InvalidRegister(w2)),
                },
                None => Err(RuntimeError::InvalidRegister(w1)),
            },
            0x24 => match Reg::from_ordinal(w1) {
                Some(r) => match Reg::from_ordinal(w2) {
                    Some(q) => Ok(Instr::LDRR(r, q)),
                    None => Err(RuntimeError::InvalidRegister(w2)),
                },
                None => Err(RuntimeError::InvalidRegister(w1)),
            },
            0x25 => Ok(Instr::JSR),
            0x26 => Ok(Instr::TRAP(w1)),
            0x27 => Ok(Instr::NOP),
            0x28 => Ok(Instr::HALT),
            0x29 => Ok(Instr::AND),
            0x2A => Ok(Instr::OR),
            0x2B => Ok(Instr::XOR),
            0x2C => Ok(Instr::STH),
            0x2D => Ok(Instr::LDH(w1)),
            0x2E => Ok(Instr::STMA(w1, w2)),
            0x2F => Ok(Instr::STMH(w1)),
            0x30 => Ok(Instr::STML(w1, w2)),
            0x31 => Ok(Instr::STMS(w1, w2)),
            0x32 => Ok(Instr::LDMA(w1, w2)),
            0x33 => Ok(Instr::LDMH(w1, w2)),
            0x34 => Ok(Instr::LDML(w1, w2)),
            0x35 => Ok(Instr::LDMS(w1, w2)),
            _ => Err(RuntimeError::InvalidOpcode(w0)),
        }
    }
}

/// What `decode` reads at the start of a sequence of words; words that are
/// missing count as zero.
pub open spec fn decode_at(words: Seq<i32>, at: int) -> Result<InstrView, RuntimeError> {
    decode(
        words[at],
        if at + 1 < words.len() { words[at + 1] } else { 0 },
        if at + 2 < words.len() { words[at + 2] } else { 0 },
    )
}

/// Decoding the words of a resolved instruction gives the instruction
/// again, whatever follows those words.
pub proof fn lemma_decode_encode(i: InstrView, rest: Seq<i32>)
    requires
        i.is_resolved(),
    ensures
        1 <= i.size() <= 3,
        i.encode().len() == i.size(),
        decode_at(i.encode() + rest, 0) == Ok::<InstrView, RuntimeError>(i),
{
    let w = i.encode() + rest;
    assert(forall|k: int| 0 <= k < i.encode().len() ==> w[k] == i.encode()[k]);
    assert(forall|r: Reg|
        0 <= r.spec_ordinal() < 8 && Reg::spec_from_ordinal(r.spec_ordinal()) == Some(r));
}

/// What decodes without error is a resolved instruction, and encoding it
/// gives back the opcode and the operands that it uses.
pub proof fn lemma_encode_decode(w0: i32, w1: i32, w2: i32)
    ensures
        decode(w0, w1, w2) matches Ok(i) ==> {
            &&& i.is_resolved()
            &&& i.encode() =~= seq![w0, w1, w2].take(i.size() as int)
        },
{
}

} // verus!
