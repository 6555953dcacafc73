//! The mnemonics: which opcode each of them names and how its operands are
//! written.

use vstd::prelude::*;

use crate::grammar::Shape;
use crate::instruction::{reg_word, InstrView};
use crate::register::Reg;
use crate::text::decimal;

verus! {

/// The opcode that a mnemonic in capitals names.
pub open spec fn opcode_of(word: Seq<char>) -> Option<i32> {    if word == "STR"@ {
        Some(0x00i32)
    } else if word == "STL"@ {
        Some(0x01i32)
    } else if word == "STS"@ {
        Some(0x02i32)
    } else if word == "STA"@ {
        Some(0x03i32)
    } else if word == "LDR"@ {
        Some(0x04i32)
    } else if word == "LDL"@ {
        Some(0x05i32)
    } else if word == "LDS"@ {
        Some(0x06i32)
    } else if word == "LDA"@ {
        Some(0x07i32)
    } else if word == "LDC"@ {
        Some(0x08i32)
    } else if word == "LDLA"@ {
        Some(0x09i32)
    } else if word == "LDSA"@ {
        Some(0x0Ai32)
    } else if word == "LDAA"@ {
        Some(0x0Bi32)
    } else if word == "BRA"@ {
        Some(0x0Ci32)
    } else if word == "BRF"@ {
        Some(0x0Di32)
    } else if word == "BRT"@ {
        Some(0x0Ei32)
    } else if word == "BSR"@ {
        Some(0x0Fi32)
    } else if word == "ADD"@ {
        Some(0x10i32)
    } else if word == "SUB"@ {
        Some(0x11i32)
    } else if word == "MUL"@ {
        Some(0x12i32)
    } else if word == "DIV"@ {
        Some(0x13i32)
    } else if word == "MOD"@ {
        Some(0x14i32)
    } else if word == "EQ"@ {
        Some(0x15i32)
    } else if word == "NE"@ {
        Some(0x16i32)
    } else if word == "LT"@ {
        Some(0x17i32)
    } else if word == "LE"@ {
        Some(0x18i32)
    } else if word == "GT"@ {
        Some(0x19i32)
    } else if word == "GE"@ {
        Some(0x1Ai32)
    } else if word == "NEG"@ {
        Some(0x1Bi32)
    } else if word == "NOT"@ {
        Some(0x1Ci32)
    } else if word == "RET"@ {
        Some(0x1Di32)
    } else if word == "UNLINK"@ {
        Some(0x1Ei32)
    } else if word == "LINK"@ {
        Some(0x1Fi32)
    } else if word == "AJS"@ {
        Some(0x20i32)
    } else if word == "SWP"@ {
        Some(0x21i32)
    } else if word == "SWPR"@ {
        Some(0x22i32)
    } else if word == "SWPRR"@ {
        Some(0x23i32)
    } else if word == "LDRR"@ {
        Some(0x24i32)
    } else if word == "JSR"@ {
        Some(0x25i32)
    } else if word == "TRAP"@ {
        Some(0x26i32)
    } else if word == "NOP"@ {
        Some(0x27i32)
    } else if word == "HALT"@ {
        Some(0x28i32)
    } else if word == "AND"@ {
        Some(0x29i32)
    } else if word == "OR"@ {
        Some(0x2Ai32)
    } else if word == "XOR"@ {
        Some(0x2Bi32)
    } else if word == "STH"@ {
        Some(0x2Ci32)
    } else if word == "LDH"@ {
        Some(0x2Di32)
    } else if word == "STMA"@ {
        Some(0x2Ei32)
    } else if word == "STMH"@ {
        Some(0x2Fi32)
    } else if word == "STML"@ {
        Some(0x30i32)
    } else if word == "STMS"@ {
        Some(0x31i32)
    } else if word == "LDMA"@ {
        Some(0x32i32)
    } else if word == "LDMH"@ {
        Some(0x33i32)
    } else if word == "LDML"@ {
        Some(0x34i32)
    } else if word == "LDMS"@ {
        Some(0x35i32)
    } else {
        None
    }
}

/// How the operands of the instruction with the given opcode are written.
/// The four branches take a label or an integer.
pub open spec fn shape_of(op: i32) -> Shape {
    if 0x0C <= op <= 0x0F {
        Shape::Branch
    } else if op == 0x00 || op == 0x04 || op == 0x22 {
        Shape::Reg
    } else if op == 0x23 || op == 0x24 {
        Shape::RegReg
    } else if op == 0x2E || op == 0x30 || op == 0x31 || op == 0x32 || op == 0x33 || op == 0x34
        || op == 0x35 {
        Shape::IntInt
    } else if op == 0x01 || op == 0x02 || op == 0x03 || op == 0x05 || op == 0x06 || op == 0x07
        || op == 0x08 || op == 0x09 || op == 0x0A || op == 0x0B || op == 0x1F
        || op == 0x20 || op == 0x26 || op == 0x2D || op == 0x2F {
        Shape::Int
    } else {
        Shape::Plain
    }
}

/// Whether the characters of `word` are those of `name`.
pub fn word_is(word: &Vec<char>, name: &str) -> (r: bool)
    ensures
        r == (word@ == name@),
{
    let mut k: usize = 0;
    for c in it: name.chars()
        invariant
            k == it.index(),
            k <= word@.len(),
            it.seq() == name@,
            word@.take(k as int) == name@.take(k as int),
    {
        if k >= word.len() || word[k] != c {
            proof {
                if k < word@.len() {
                    assert(word@[k as int] != name@[k as int]);
                }
            }
            return false;
        }
        proof {
            assert(word@.take(k + 1) =~= word@.take(k as int).push(word@[k as int]));
            assert(name@.take(k + 1) =~= name@.take(k as int).push(name@[k as int]));
        }
        k = k + 1;
    }
    proof {
        assert(name@.take(k as int) =~= name@);
        if k == word@.len() {
            assert(word@.take(k as int) =~= word@);
        }
    }
    k == word.len()
}

/// The opcode that a mnemonic in capitals names.
pub fn lookup(word: &Vec<char>) -> (r: Option<i32>)
    ensures
        r == opcode_of(word@),
{    if word_is(word, "STR") {
        Some(0x00)
    } else if word_is(word, "STL") {
        Some(0x01)
    } else if word_is(word, "STS") {
        Some(0x02)
    } else if word_is(word, "STA") {
        Some(0x03)
    } else if word_is(word, "LDR") {
        Some(0x04)
    } else if word_is(word, "LDL") {
        Some(0x05)
    } else if word_is(word, "LDS") {
        Some(0x06)
    } else if word_is(word, "LDA") {
        Some(0x07)
    } else if word_is(word, "LDC") {
        Some(0x08)
    } else if word_is(word, "LDLA") {
        Some(0x09)
    } else if word_is(word, "LDSA") {
        Some(0x0A)
    } else if word_is(word, "LDAA") {
        Some(0x0B)
    } else if word_is(word, "BRA") {
        Some(0x0C)
    } else if word_is(word, "BRF") {
        Some(0x0D)
    } else if word_is(word, "BRT") {
        Some(0x0E)
    } else if word_is(word, "BSR") {
        Some(0x0F)
    } else if word_is(word, "ADD") {
        Some(0x10)
    } else if word_is(word, "SUB") {
        Some(0x11)
    } else if word_is(word, "MUL") {
        Some(0x12)
    } else if word_is(word, "DIV") {
        Some(0x13)
    } else if word_is(word, "MOD") {
        Some(0x14)
    } else if word_is(word, "EQ") {
        Some(0x15)
    } else if word_is(word, "NE") {
        Some(0x16)
    } else if word_is(word, "LT") {
        Some(0x17)
    } else if word_is(word, "LE") {
        Some(0x18)
    } else if word_is(word, "GT") {
        Some(0x19)
    } else if word_is(word, "GE") {
        Some(0x1A)
    } else if word_is(word, "NEG") {
        Some(0x1B)
    } else if word_is(word, "NOT") {
        Some(0x1C)
    } else if word_is(word, "RET") {
        Some(0x1D)
    } else if word_is(word, "UNLINK") {
        Some(0x1E)
    } else if word_is(word, "LINK") {
        Some(0x1F)
    } else if word_is(word, "AJS") {
        Some(0x20)
    } else if word_is(word, "SWP") {
        Some(0x21)
    } else if word_is(word, "SWPR") {
        Some(0x22)
    } else if word_is(word, "SWPRR") {
        Some(0x23)
    } else if word_is(word, "LDRR") {
        Some(0x24)
    } else if word_is(word, "JSR") {
        Some(0x25)
    } else if word_is(word, "TRAP") {
        Some(0x26)
    } else if word_is(word, "NOP") {
        Some(0x27)
    } else if word_is(word, "HALT") {
        Some(0x28)
    } else if word_is(word, "AND") {
        Some(0x29)
    } else if word_is(word, "OR") {
        Some(0x2A)
    } else if word_is(word, "XOR") {
        Some(0x2B)
    } else if word_is(word, "STH") {
        Some(0x2C)
    } else if word_is(word, "LDH") {
        Some(0x2D)
    } else if word_is(word, "STMA") {
        Some(0x2E)
    } else if word_is(word, "STMH") {
        Some(0x2F)
    } else if word_is(word, "STML") {
        Some(0x30)
    } else if word_is(word, "STMS") {
        Some(0x31)
    } else if word_is(word, "LDMA") {
        Some(0x32)
    } else if word_is(word, "LDMH") {
        Some(0x33)
    } else if word_is(word, "LDML") {
        Some(0x34)
    } else if word_is(word, "LDMS") {
        Some(0x35)
    } else {
        None
    }
}

/// How the operands of the instruction with the given opcode are written.
pub fn shape(op: i32) -> (r: Shape)
    ensures
        r == shape_of(op),
{
    if 0x0C <= op && op <= 0x0F {
        Shape::Branch
    } else if op == 0x00 || op == 0x04 || op == 0x22 {
        Shape::Reg
    } else if op == 0x23 || op == 0x24 {
        Shape::RegReg
    } else if op == 0x2E || op == 0x30 || op == 0x31 || op == 0x32 || op == 0x33 || op == 0x34
        || op == 0x35 {
        Shape::IntInt
    } else if op == 0x01 || op == 0x02 || op == 0x03 || op == 0x05 || op == 0x06 || op == 0x07
        || op == 0x08 || op == 0x09 || op == 0x0A || op == 0x0B || op == 0x1F
        || op == 0x20 || op == 0x26 || op == 0x2D || op == 0x2F {
        Shape::Int
    } else {
        Shape::Plain
    }
}


/// Whether a text consists of capital letters.
pub open spec fn is_capitals(word: Seq<char>) -> bool {
    forall|k: int| 0 <= k < word.len() ==> 'A' <= #[trigger] word[k] <= 'Z'
}

/// How each mnemonic is spelt.
proof fn lemma_spelling()
    ensures
        "STR"@.len() == 3 && "STR"@[0] == 'S' && "STR"@[1] == 'T' && "STR"@[2] == 'R',
        "STL"@.len() == 3 && "STL"@[0] == 'S' && "STL"@[1] == 'T' && "STL"@[2] == 'L',
        "STS"@.len() == 3 && "STS"@[0] == 'S' && "STS"@[1] == 'T' && "STS"@[2] == 'S',
        "STA"@.len() == 3 && "STA"@[0] == 'S' && "STA"@[1] == 'T' && "STA"@[2] == 'A',
        "LDR"@.len() == 3 && "LDR"@[0] == 'L' && "LDR"@[1] == 'D' && "LDR"@[2] == 'R',
        "LDL"@.len() == 3 && "LDL"@[0] == 'L' && "LDL"@[1] == 'D' && "LDL"@[2] == 'L',
        "LDS"@.len() == 3 && "LDS"@[0] == 'L' && "LDS"@[1] == 'D' && "LDS"@[2] == 'S',
        "LDA"@.len() == 3 && "LDA"@[0] == 'L' && "LDA"@[1] == 'D' && "LDA"@[2] == 'A',
        "LDC"@.len() == 3 && "LDC"@[0] == 'L' && "LDC"@[1] == 'D' && "LDC"@[2] == 'C',
        "LDLA"@.len() == 4 && "LDLA"@[0] == 'L' && "LDLA"@[1] == 'D' && "LDLA"@[2] == 'L'
            && "LDLA"@[3] == 'A',
        "LDSA"@.len() == 4 && "LDSA"@[0] == 'L' && "LDSA"@[1] == 'D' && "LDSA"@[2] == 'S'
            && "LDSA"@[3] == 'A',
        "LDAA"@.len() == 4 && "LDAA"@[0] == 'L' && "LDAA"@[1] == 'D' && "LDAA"@[2] == 'A'
            && "LDAA"@[3] == 'A',
        "BRA"@.len() == 3 && "BRA"@[0] == 'B' && "BRA"@[1] == 'R' && "BRA"@[2] == 'A',
        "BRF"@.len() == 3 && "BRF"@[0] == 'B' && "BRF"@[1] == 'R' && "BRF"@[2] == 'F',
        "BRT"@.len() == 3 && "BRT"@[0] == 'B' && "BRT"@[1] == 'R' && "BRT"@[2] == 'T',
        "BSR"@.len() == 3 && "BSR"@[0] == 'B' && "BSR"@[1] == 'S' && "BSR"@[2] == 'R',
        "ADD"@.len() == 3 && "ADD"@[0] == 'A' && "ADD"@[1] == 'D' && "ADD"@[2] == 'D',
        "SUB"@.len() == 3 && "SUB"@[0] == 'S' && "SUB"@[1] == 'U' && "SUB"@[2] == 'B',
        "MUL"@.len() == 3 && "MUL"@[0] == 'M' && "MUL"@[1] == 'U' && "MUL"@[2] == 'L',
        "DIV"@.len() == 3 && "DIV"@[0] == 'D' && "DIV"@[1] == 'I' && "DIV"@[2] == 'V',
        "MOD"@.len() == 3 && "MOD"@[0] == 'M' && "MOD"@[1] == 'O' && "MOD"@[2] == 'D',
        "EQ"@.len() == 2 && "EQ"@[0] == 'E' && "EQ"@[1] == 'Q',
        "NE"@.len() == 2 && "NE"@[0] == 'N' && "NE"@[1] == 'E',
        "LT"@.len() == 2 && "LT"@[0] == 'L' && "LT"@[1] == 'T',
        "LE"@.len() == 2 && "LE"@[0] == 'L' && "LE"@[1] == 'E',
        "GT"@.len() == 2 && "GT"@[0] == 'G' && "GT"@[1] == 'T',
        "GE"@.len() == 2 && "GE"@[0] == 'G' && "GE"@[1] == 'E',
        "NEG"@.len() == 3 && "NEG"@[0] == 'N' && "NEG"@[1] == 'E' && "NEG"@[2] == 'G',
        "NOT"@.len() == 3 && "NOT"@[0] == 'N' && "NOT"@[1] == 'O' && "NOT"@[2] == 'T',
        "RET"@.len() == 3 && "RET"@[0] == 'R' && "RET"@[1] == 'E' && "RET"@[2] == 'T',
        "UNLINK"@.len() == 6 && "UNLINK"@[0] == 'U' && "UNLINK"@[1] == 'N'
            && "UNLINK"@[2] == 'L' && "UNLINK"@[3] == 'I' && "UNLINK"@[4] == 'N'
            && "UNLINK"@[5] == 'K',
        "LINK"@.len() == 4 && "LINK"@[0] == 'L' && "LINK"@[1] == 'I' && "LINK"@[2] == 'N'
            && "LINK"@[3] == 'K',
        "AJS"@.len() == 3 && "AJS"@[0] == 'A' && "AJS"@[1] == 'J' && "AJS"@[2] == 'S',
        "SWP"@.len() == 3 && "SWP"@[0] == 'S' && "SWP"@[1] == 'W' && "SWP"@[2] == 'P',
        "SWPR"@.len() == 4 && "SWPR"@[0] == 'S' && "SWPR"@[1] == 'W' && "SWPR"@[2] == 'P'
            && "SWPR"@[3] == 'R',
        "SWPRR"@.len() == 5 && "SWPRR"@[0] == 'S' && "SWPRR"@[1] == 'W' && "SWPRR"@[2] == 'P'
            && "SWPRR"@[3] == 'R' && "SWPRR"@[4] == 'R',
        "LDRR"@.len() == 4 && "LDRR"@[0] == 'L' && "LDRR"@[1] == 'D' && "LDRR"@[2] == 'R'
            && "LDRR"@[3] == 'R',
        "JSR"@.len() == 3 && "JSR"@[0] == 'J' && "JSR"@[1] == 'S' && "JSR"@[2] == 'R',
        "TRAP"@.len() == 4 && "TRAP"@[0] == 'T' && "TRAP"@[1] == 'R' && "TRAP"@[2] == 'A'
            && "TRAP"@[3] == 'P',
        "NOP"@.len() == 3 && "NOP"@[0] == 'N' && "NOP"@[1] == 'O' && "NOP"@[2] == 'P',
        "HALT"@.len() == 4 && "HALT"@[0] == 'H' && "HALT"@[1] == 'A' && "HALT"@[2] == 'L'
            && "HALT"@[3] == 'T',
        "AND"@.len() == 3 && "AND"@[0] == 'A' && "AND"@[1] == 'N' && "AND"@[2] == 'D',
        "OR"@.len() == 2 && "OR"@[0] == 'O' && "OR"@[1] == 'R',
        "XOR"@.len() == 3 && "XOR"@[0] == 'X' && "XOR"@[1] == 'O' && "XOR"@[2] == 'R',
        "STH"@.len() == 3 && "STH"@[0] == 'S' && "STH"@[1] == 'T' && "STH"@[2] == 'H',
        "LDH"@.len() == 3 && "LDH"@[0] == 'L' && "LDH"@[1] == 'D' && "LDH"@[2] == 'H',
        "STMA"@.len() == 4 && "STMA"@[0] == 'S' && "STMA"@[1] == 'T' && "STMA"@[2] == 'M'
            && "STMA"@[3] == 'A',
        "STMH"@.len() == 4 && "STMH"@[0] == 'S' && "STMH"@[1] == 'T' && "STMH"@[2] == 'M'
            && "STMH"@[3] == 'H',
        "STML"@.len() == 4 && "STML"@[0] == 'S' && "STML"@[1] == 'T' && "STML"@[2] == 'M'
            && "STML"@[3] == 'L',
        "STMS"@.len() == 4 && "STMS"@[0] == 'S' && "STMS"@[1] == 'T' && "STMS"@[2] == 'M'
            && "STMS"@[3] == 'S',
        "LDMA"@.len() == 4 && "LDMA"@[0] == 'L' && "LDMA"@[1] == 'D' && "LDMA"@[2] == 'M'
            && "LDMA"@[3] == 'A',
        "LDMH"@.len() == 4 && "LDMH"@[0] == 'L' && "LDMH"@[1] == 'D' && "LDMH"@[2] == 'M'
            && "LDMH"@[3] == 'H',
        "LDML"@.len() == 4 && "LDML"@[0] == 'L' && "LDML"@[1] == 'D' && "LDML"@[2] == 'M'
            && "LDML"@[3] == 'L',
        "LDMS"@.len() == 4 && "LDMS"@[0] == 'L' && "LDMS"@[1] == 'D' && "LDMS"@[2] == 'M'
            && "LDMS"@[3] == 'S',
{
    reveal_strlit("STR");
    reveal_strlit("STL");
    reveal_strlit("STS");
    reveal_strlit("STA");
    reveal_strlit("LDR");
    reveal_strlit("LDL");
    reveal_strlit("LDS");
    reveal_strlit("LDA");
    reveal_strlit("LDC");
    reveal_strlit("LDLA");
    reveal_strlit("LDSA");
    reveal_strlit("LDAA");
    reveal_strlit("BRA");
    reveal_strlit("BRF");
    reveal_strlit("BRT");
    reveal_strlit("BSR");
    reveal_strlit("ADD");
    reveal_strlit("SUB");
    reveal_strlit("MUL");
    reveal_strlit("DIV");
    reveal_strlit("MOD");
    reveal_strlit("EQ");
    reveal_strlit("NE");
    reveal_strlit("LT");
    reveal_strlit("LE");
    reveal_strlit("GT");
    reveal_strlit("GE");
    reveal_strlit("NEG");
    reveal_strlit("NOT");
    reveal_strlit("RET");
    reveal_strlit("UNLINK");
    reveal_strlit("LINK");
    reveal_strlit("AJS");
    reveal_strlit("SWP");
    reveal_strlit("SWPR");
    reveal_strlit("SWPRR");
    reveal_strlit("LDRR");
    reveal_strlit("JSR");
    reveal_strlit("TRAP");
    reveal_strlit("NOP");
    reveal_strlit("HALT");
    reveal_strlit("AND");
    reveal_strlit("OR");
    reveal_strlit("XOR");
    reveal_strlit("STH");
    reveal_strlit("LDH");
    reveal_strlit("STMA");
    reveal_strlit("STMH");
    reveal_strlit("STML");
    reveal_strlit("STMS");
    reveal_strlit("LDMA");
    reveal_strlit("LDMH");
    reveal_strlit("LDML");
    reveal_strlit("LDMS");
}

/// The mnemonic of a resolved instruction consists of two or more capital
/// letters and names the opcode of the instruction.
pub proof fn lemma_mnemonic(i: InstrView)
    requires
        i.is_resolved(),
    ensures
        i.mnemonic().len() >= 2,
        is_capitals(i.mnemonic()),
        opcode_of(i.mnemonic()) == Some(i.opcode()),
{
    lemma_spelling();
}

/// The word that an operand text stands for, given how it is written.
pub open spec fn is_operand(text: Seq<char>, word: i32, register: bool) -> bool {
    if register {
        exists|r: Reg| text == r.spec_name() && word == reg_word(r)
    } else {
        text == decimal(word as int)
    }
}

/// The operands of a resolved instruction are written as its shape says,
/// and they stand for the words that follow the opcode in the encoding.
pub proof fn lemma_shape(i: InstrView)
    requires
        i.is_resolved(),
    ensures
        i.encode().len() == 1 + i.operands().len(),
        i.encode()[0] == i.opcode(),
        match shape_of(i.opcode()) {
            Shape::Plain => i.operands().len() == 0,
            Shape::Int | Shape::Branch => i.operands().len() == 1 && is_operand(
                i.operands()[0],
                i.encode()[1],
                false,
            ),
            Shape::Reg => i.operands().len() == 1 && is_operand(
                i.operands()[0],
                i.encode()[1],
                true,
            ),
            Shape::RegReg => i.operands().len() == 2 && is_operand(
                i.operands()[0],
                i.encode()[1],
                true,
            ) && is_operand(i.operands()[1], i.encode()[2], true),
            Shape::IntInt => i.operands().len() == 2 && is_operand(
                i.operands()[0],
                i.encode()[1],
                false,
            ) && is_operand(i.operands()[1], i.encode()[2], false),
        },
{
    match i {
        InstrView::STR(r) => {
            assert(is_operand(r.spec_name(), reg_word(r), true));
        },
        InstrView::LDR(r) => {
            assert(is_operand(r.spec_name(), reg_word(r), true));
        },
        InstrView::SWPR(r) => {
            assert(is_operand(r.spec_name(), reg_word(r), true));
        },
        InstrView::SWPRR(r, q) => {
            assert(is_operand(r.spec_name(), reg_word(r), true));
            assert(is_operand(q.spec_name(), reg_word(q), true));
        },
        InstrView::LDRR(r, q) => {
            assert(is_operand(r.spec_name(), reg_word(r), true));
            assert(is_operand(q.spec_name(), reg_word(q), true));
        },
        _ => {},
    }
}

} // verus!
