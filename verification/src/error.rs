//! The ways in which parsing, linking and running a program can fail.

use vstd::prelude::*;

verus! {

/// Why a text is not a program.
#[derive(Debug, Clone, Copy, PartialEq, Eq, Structural)]
pub enum ParseErrorKind {
    /// Where an instruction should start there is no known mnemonic and no
    /// label definition.
    UnknownMnemonic,
    /// An integer operand is missing or does not fit in a word.
    BadOperand,
    /// A register operand is missing or names no register.
    UnknownRegister,
    /// The colour of an annotation is none of the known colours.
    UnknownColor,
    /// A quoted text has no closing quote on its line.
    UnterminatedString,
}

/// A parse failure, with the index of the character at which it was found.
#[derive(Debug, Clone, Copy, PartialEq, Eq, Structural)]
pub struct ParseError {
    pub kind: ParseErrorKind,
    pub position: usize,
}

/// Why a program cannot be linked and loaded.
#[derive(Debug, Clone, PartialEq, Eq)]
pub enum LinkError {
    /// A branch names a label that the program does not define.
    UndefinedLabel(String),
    /// The program has more words than the memory of the machine.
    ProgramTooLarge,
}

/// Why the machine stopped other than by `HALT`.
#[derive(Debug, Clone, Copy, PartialEq, Eq, Structural)]
pub enum RuntimeError {
    /// The word at the program counter is no opcode.
    InvalidOpcode(i32),
    /// An operand that should name a register is no register ordinal.
    InvalidRegister(i32),
    /// `DIV` or `MOD` with a zero divisor.
    DivisionByZero,
    /// The instruction is reserved and has no effect defined; the word is
    /// its opcode.
    UnsupportedInstruction(i32),
    /// `TRAP` with a number that names no trap.
    UnknownTrap(i32),
    /// A write to an address below zero.
    InvalidAddress(i32),
}

} // verus!
