//! The grammar of the assembly text, as functions on sequences of
//! characters.
//!
//! A program is a sequence of instructions and label definitions. White
//! space and comments may stand before, between and behind them; a comment
//! starts with `//` or `;` and runs to the end of its line. Between a
//! mnemonic and its operands, and between operands, only white space may
//! stand.

use vstd::prelude::*;

use crate::error::{ParseError, ParseErrorKind};
use crate::instruction::{decode, reg_word, Color, InstrView};
use crate::mnemonic::{opcode_of, shape_of};
use crate::register::Reg;

verus! {

/// The classes of characters that the grammar tells apart.
#[derive(Clone, Copy, PartialEq, Eq, Debug, Structural)]
pub enum CharClass {
    /// White space.
    Space,
    /// What an identifier may continue with: an ASCII letter, an ASCII digit
    /// or an underscore.
    IdentPart,
    /// A decimal digit.
    Digit,
    /// What may stand in a quoted text: anything but a double quote, a line
    /// feed and a carriage return.
    Quoted,
    /// What may stand in a text without quotes: what may stand in a quoted
    /// text, but for the space.
    Bare,
    /// What a comment runs over: anything but a line break.
    Comment,
}

/// How the operands of a mnemonic are written.
#[derive(Clone, Copy, PartialEq, Eq, Debug, Structural)]
pub enum Shape {
    /// No operand.
    Plain,
    /// One integer.
    Int,
    /// One register.
    Reg,
    /// Two registers.
    RegReg,
    /// Two integers.
    IntInt,
    /// A label or an integer.
    Branch,
}

/// White space: the characters with the Unicode property `White_Space`.
pub open spec fn is_space(c: char) -> bool {
    let n = c as u32;
    (9 <= n <= 13) || n == 0x20 || n == 0x85 || n == 0xA0 || n == 0x1680 || (0x2000 <= n
        <= 0x200A) || n == 0x2028 || n == 0x2029 || n == 0x202F || n == 0x205F || n == 0x3000
}

/// A line break: line feed, carriage return, vertical tab, form feed, next
/// line, line separator or paragraph separator.
pub open spec fn is_line_break(c: char) -> bool {
    let n = c as u32;
    (10 <= n <= 13) || n == 0x85 || n == 0x2028 || n == 0x2029
}

/// A decimal digit.
pub open spec fn is_digit(c: char) -> bool {
    '0' <= c <= '9'
}

/// What an identifier may start with: an ASCII letter or an underscore.
pub open spec fn is_ident_start(c: char) -> bool {
    ('a' <= c <= 'z') || ('A' <= c <= 'Z') || c == '_'
}

/// Whether a character belongs to a class.
pub open spec fn in_class(class: CharClass, c: char) -> bool {
    match class {
        CharClass::Space => is_space(c),
        CharClass::IdentPart => is_ident_start(c) || is_digit(c),
        CharClass::Digit => is_digit(c),
        CharClass::Quoted => c != '"' && c != '\n' && c != '\r',
        CharClass::Bare => c != '"' && c != '\n' && c != '\r' && c != ' ',
        CharClass::Comment => !is_line_break(c),
    }
}

/// A letter in upper case; any other character as it is.
pub open spec fn upper_char(c: char) -> char {
    if 'a' <= c <= 'z' {
        ((c as u32) - 32) as char
    } else {
        c
    }
}

/// A text with its ASCII letters in upper case.
pub open spec fn upper(word: Seq<char>) -> Seq<char> {
    word.map_values(|c: char| upper_char(c))
}

/// The first position from `pos` on at which no character of the class
/// stands.
pub open spec fn skip_while(s: Seq<char>, pos: int, class: CharClass) -> int
    decreases s.len() - pos,
{
    if 0 <= pos < s.len() && in_class(class, s[pos]) {
        skip_while(s, pos + 1, class)
    } else {
        pos
    }
}

/// Whether a comment starts at `pos`: with a semicolon or with two slashes.
pub open spec fn comment_starts(s: Seq<char>, pos: int) -> bool {
    0 <= pos < s.len() && (s[pos] == ';' || (s[pos] == '/' && pos + 1 < s.len() && s[pos + 1]
        == '/'))
}

/// The first position from `pos` on that lies neither in white space nor in
/// a comment. With `in_comment`, `pos` lies in a comment already.
pub open spec fn skip_pad(s: Seq<char>, pos: int, in_comment: bool) -> int
    decreases s.len() - pos, (if in_comment { 1int } else { 0int }),
{
    if pos < 0 || pos >= s.len() {
        pos
    } else if in_comment {
        if is_line_break(s[pos]) {
            skip_pad(s, pos, false)
        } else {
            skip_pad(s, pos + 1, true)
        }
    } else if is_space(s[pos]) {
        skip_pad(s, pos + 1, false)
    } else if comment_starts(s, pos) {
        skip_pad(s, pos + 1, true)
    } else {
        pos
    }
}

/// The number that a sequence of digits stands for.
pub open spec fn digits_value(d: Seq<char>) -> nat
    decreases d.len(),
{
    if d.len() == 0 {
        0
    } else {
        digits_value(d.drop_last()) * 10 + ((d.last() as u32) - 48) as nat
    }
}

/// Where the digits of an integer end that start at `pos`: a zero stands
/// alone, any other digit is followed by as many digits as there are.
pub open spec fn digits_end(s: Seq<char>, pos: int) -> int {
    if s[pos] == '0' {
        pos + 1
    } else {
        skip_while(s, pos, CharClass::Digit)
    }
}

/// The integer at `pos` and the position behind it: an optional minus sign
/// and digits. `None` where no digit stands there or the number does not
/// fit in a word.
pub open spec fn parse_int(s: Seq<char>, pos: int) -> Option<(i32, int)> {
    let negative = 0 <= pos < s.len() && s[pos] == '-';
    let first = if negative {
        pos + 1
    } else {
        pos
    };
    if 0 <= first < s.len() && is_digit(s[first]) {
        let end = digits_end(s, first);
        let magnitude = digits_value(s.subrange(first, end)) as int;
        let value = if negative {
            -magnitude
        } else {
            magnitude
        };
        if i32::MIN <= value <= i32::MAX {
            Some((value as i32, end))
        } else {
            None
        }
    } else {
        None
    }
}

/// The register that two characters name: one of `PC`, `SP`, `MP`, `HP`,
/// `RR` for `R5`, or `R` and an ordinal.
pub open spec fn register_named(a: char, b: char) -> Option<Reg> {
    if a == 'P' && b == 'C' {
        Some(Reg::PC)
    } else if a == 'S' && b == 'P' {
        Some(Reg::SP)
    } else if a == 'M' && b == 'P' {
        Some(Reg::MP)
    } else if a == 'H' && b == 'P' {
        Some(Reg::HP)
    } else if a == 'R' && b == 'R' {
        Some(Reg::R5)
    } else if a == 'R' && '0' <= b <= '7' {
        Reg::spec_from_ordinal((b as u32) - 48)
    } else {
        None
    }
}

/// The register at `pos` and the position behind it.
pub open spec fn parse_reg(s: Seq<char>, pos: int) -> Option<(Reg, int)> {
    if 0 <= pos && pos + 1 < s.len() {
        match register_named(s[pos], s[pos + 1]) {
            Some(r) => Some((r, pos + 2)),
            None => None,
        }
    } else {
        None
    }
}

/// The colour with the given name. Upper and lower case are told apart.
pub open spec fn color_named(word: Seq<char>) -> Option<Color> {
    if word == "black"@ {
        Some(Color::Black)
    } else if word == "blue"@ {
        Some(Color::Blue)
    } else if word == "cyan"@ {
        Some(Color::Cyan)
    } else if word == "darkGray"@ {
        Some(Color::DarkGray)
    } else if word == "gray"@ {
        Some(Color::Gray)
    } else if word == "green"@ {
        Some(Color::Green)
    } else if word == "lightGray"@ {
        Some(Color::LightGray)
    } else if word == "magenta"@ {
        Some(Color::Magenta)
    } else if word == "orange"@ {
        Some(Color::Orange)
    } else if word == "pink"@ {
        Some(Color::Pink)
    } else if word == "red"@ {
        Some(Color::Red)
    } else if word == "yellow"@ {
        Some(Color::Yellow)
    } else {
        None
    }
}

/// The colour at `pos` and the position behind it: an identifier that is
/// the name of a colour.
pub open spec fn parse_color(s: Seq<char>, pos: int) -> Option<(Color, int)> {
    if 0 <= pos < s.len() && is_ident_start(s[pos]) {
        let end = skip_while(s, pos, CharClass::IdentPart);
        match color_named(s.subrange(pos, end)) {
            Some(c) => Some((c, end)),
            None => None,
        }
    } else {
        None
    }
}

/// The text of an annotation at `pos` and the position behind it. A text in
/// double quotes ends at the closing quote, which must stand on the same
/// line; any other text ends before the first space, quote or end of line,
/// and may be empty.
pub open spec fn parse_text(s: Seq<char>, pos: int) -> Option<(Seq<char>, int)> {
    if 0 <= pos < s.len() && s[pos] == '"' {
        let end = skip_while(s, pos + 1, CharClass::Quoted);
        if end < s.len() && s[end] == '"' {
            Some((s.subrange(pos + 1, end), end + 1))
        } else {
            None
        }
    } else {
        let end = skip_while(s, pos, CharClass::Bare);
        Some((s.subrange(pos, end), end))
    }
}

/// The position behind the white space at `pos`.
pub open spec fn skip_space(s: Seq<char>, pos: int) -> int {
    skip_while(s, pos, CharClass::Space)
}

/// An error of the given kind at a position.
pub open spec fn error_at(kind: ParseErrorKind, pos: int) -> ParseError {
    ParseError { kind, position: pos as usize }
}

/// The annotation whose operands start behind the mnemonic at `pos`: a
/// register, two integers, a colour and a text, with white space between
/// them.
pub open spec fn parse_annote(s: Seq<char>, pos: int) -> Result<(InstrView, int), ParseError> {
    let p1 = skip_space(s, pos);
    match parse_reg(s, p1) {
        None => Err(error_at(ParseErrorKind::UnknownRegister, p1)),
        Some((r, e1)) => {
            let p2 = skip_space(s, e1);
            match parse_int(s, p2) {
                None => Err(error_at(ParseErrorKind::BadOperand, p2)),
                Some((n, e2)) => {
                    let p3 = skip_space(s, e2);
                    match parse_int(s, p3) {
                        None => Err(error_at(ParseErrorKind::BadOperand, p3)),
                        Some((m, e3)) => {
                            let p4 = skip_space(s, e3);
                            match parse_color(s, p4) {
                                None => Err(error_at(ParseErrorKind::UnknownColor, p4)),
                                Some((c, e4)) => {
                                    let p5 = skip_space(s, e4);
                                    match parse_text(s, p5) {
                                        None => Err(
                                            error_at(ParseErrorKind::UnterminatedString, p5),
                                        ),
                                        Some((t, e5)) => Ok(
                                            (InstrView::ANNOTE(r, n, m, c, t), e5),
                                        ),
                                    }
                                },
                            }
                        },
                    }
                },
            }
        },
    }
}

/// The instruction with the given opcode and operand words.
pub open spec fn instr_of(op: i32, a: i32, b: i32) -> InstrView {
    match decode(op, a, b) {
        Ok(i) => i,
        Err(_) => InstrView::NOP,
    }
}

/// The branch to a label that belongs to the opcode of a branch.
pub open spec fn symbolic_of(op: i32, name: Seq<char>) -> InstrView {
    if op == 0x0C {
        InstrView::Bra(name)
    } else if op == 0x0D {
        InstrView::Brf(name)
    } else if op == 0x0E {
        InstrView::Brt(name)
    } else {
        InstrView::Bsr(name)
    }
}

/// The instruction with the opcode `op` whose mnemonic ends at `pos`, and
/// the position behind its operands.
pub open spec fn parse_operands(s: Seq<char>, op: i32, pos: int) -> Result<
    (InstrView, int),
    ParseError,
> {
    let p1 = skip_space(s, pos);
    match shape_of(op) {
        Shape::Plain => Ok((instr_of(op, 0, 0), pos)),
        Shape::Int => match parse_int(s, p1) {
            None => Err(error_at(ParseErrorKind::BadOperand, p1)),
            Some((n, e1)) => Ok((instr_of(op, n, 0), e1)),
        },
        Shape::Reg => match parse_reg(s, p1) {
            None => Err(error_at(ParseErrorKind::UnknownRegister, p1)),
            Some((r, e1)) => Ok((instr_of(op, reg_word(r), 0), e1)),
        },
        Shape::RegReg => match parse_reg(s, p1) {
            None => Err(error_at(ParseErrorKind::UnknownRegister, p1)),
            Some((r, e1)) => {
                let p2 = skip_space(s, e1);
                match parse_reg(s, p2) {
                    None => Err(error_at(ParseErrorKind::UnknownRegister, p2)),
                    Some((q, e2)) => Ok((instr_of(op, reg_word(r), reg_word(q)), e2)),
                }
            },
        },
        Shape::IntInt => match parse_int(s, p1) {
            None => Err(error_at(ParseErrorKind::BadOperand, p1)),
            Some((n, e1)) => {
                let p2 = skip_space(s, e1);
                match parse_int(s, p2) {
                    None => Err(error_at(ParseErrorKind::BadOperand, p2)),
                    Some((m, e2)) => Ok((instr_of(op, n, m), e2)),
                }
            },
        },
        Shape::Branch => if 0 <= p1 < s.len() && is_ident_start(s[p1]) {
            let e1 = skip_while(s, p1, CharClass::IdentPart);
            Ok((symbolic_of(op, s.subrange(p1, e1)), e1))
        } else {
            match parse_int(s, p1) {
                None => Err(error_at(ParseErrorKind::BadOperand, p1)),
                Some((n, e1)) => Ok((instr_of(op, n, 0), e1)),
            }
        },
    }
}

/// The instruction or label definition that starts at `pos`, and the
/// position behind it.
///
/// An identifier with a colon directly behind it defines a label. Any other
/// identifier must be a mnemonic, in upper or lower case, and is followed by
/// its operands.
pub open spec fn parse_instr(s: Seq<char>, pos: int) -> Result<(InstrView, int), ParseError> {
    if 0 <= pos < s.len() && is_ident_start(s[pos]) {
        let end = skip_while(s, pos, CharClass::IdentPart);
        let word = s.subrange(pos, end);
        if end < s.len() && s[end] == ':' {
            Ok((InstrView::LABEL(word), end + 1))
        } else {
            match opcode_of(upper(word)) {
                Some(op) => parse_operands(s, op, end),
                None => if upper(word) == "ANNOTE"@ {
                    parse_annote(s, end)
                } else {
                    Err(error_at(ParseErrorKind::UnknownMnemonic, pos))
                },
            }
        }
    } else {
        Err(error_at(ParseErrorKind::UnknownMnemonic, pos))
    }
}

/// The instructions from `pos` to the end of the text, or the first error.
pub open spec fn parse_from(s: Seq<char>, pos: int) -> Result<Seq<InstrView>, ParseError>
    decreases s.len() - pos,
    via parse_from_decreases
{
    let start = skip_pad(s, pos, false);
    if pos < 0 || start >= s.len() {
        Ok(Seq::empty())
    } else {
        match parse_instr(s, start) {
            Err(e) => Err(e),
            Ok((i, end)) => match parse_from(s, end) {
                Err(e) => Err(e),
                Ok(rest) => Ok(seq![i] + rest),
            },
        }
    }
}

/// The program that a text stands for, or the first error in it.
pub open spec fn parse_program(s: Seq<char>) -> Result<Seq<InstrView>, ParseError> {
    parse_from(s, 0)
}

/// Skipping the characters of a class ends between `pos` and the end of the
/// text, behind characters of the class only and before a character that is
/// not of the class.
pub proof fn lemma_skip_while(s: Seq<char>, pos: int, class: CharClass)
    requires
        0 <= pos <= s.len(),
    ensures
        pos <= skip_while(s, pos, class) <= s.len(),
        forall|k: int| pos <= k < skip_while(s, pos, class) ==> in_class(class, #[trigger] s[k]),
        skip_while(s, pos, class) < s.len() ==> !in_class(class, s[skip_while(s, pos, class)]),
    decreases s.len() - pos,
{
    if pos < s.len() && in_class(class, s[pos]) {
        lemma_skip_while(s, pos + 1, class);
    }
}

/// Skipping white space and comments goes forward and stays in the text.
pub proof fn lemma_skip_pad(s: Seq<char>, pos: int, in_comment: bool)
    requires
        0 <= pos <= s.len(),
    ensures
        pos <= skip_pad(s, pos, in_comment) <= s.len(),
    decreases s.len() - pos, (if in_comment { 1int } else { 0int }),
{
    if pos < s.len() {
        if in_comment {
            if is_line_break(s[pos]) {
                lemma_skip_pad(s, pos, false);
            } else {
                lemma_skip_pad(s, pos + 1, true);
            }
        } else if is_space(s[pos]) {
            lemma_skip_pad(s, pos + 1, false);
        } else if comment_starts(s, pos) {
            lemma_skip_pad(s, pos + 1, true);
        }
    }
}

/// An integer that was read ends behind its start and in the text.
pub proof fn lemma_parse_int(s: Seq<char>, pos: int)
    requires
        0 <= pos <= s.len(),
    ensures
        parse_int(s, pos) matches Some((_, end)) ==> pos < end <= s.len(),
{
    if pos < s.len() {
        let first = if s[pos] == '-' {
            pos + 1
        } else {
            pos
        };
        if first < s.len() {
            lemma_skip_while(s, first, CharClass::Digit);
        }
    }
}

/// A colour that was read ends behind its start and in the text.
pub proof fn lemma_parse_color(s: Seq<char>, pos: int)
    requires
        0 <= pos <= s.len(),
    ensures
        parse_color(s, pos) matches Some((_, end)) ==> pos < end <= s.len(),
{
    if pos < s.len() && is_ident_start(s[pos]) {
        lemma_skip_while(s, pos, CharClass::IdentPart);
    }
}

/// A text that was read ends in the text, not before its start.
pub proof fn lemma_parse_text(s: Seq<char>, pos: int)
    requires
        0 <= pos <= s.len(),
    ensures
        parse_text(s, pos) matches Some((_, end)) ==> pos <= end <= s.len(),
{
    if pos < s.len() && s[pos] == '"' {
        lemma_skip_while(s, pos + 1, CharClass::Quoted);
    } else {
        lemma_skip_while(s, pos, CharClass::Bare);
    }
}

/// What was read behind a mnemonic ends in the text, not before the end of
/// the mnemonic.
pub proof fn lemma_parse_operands(s: Seq<char>, op: i32, pos: int)
    requires
        0 <= pos <= s.len(),
    ensures
        parse_operands(s, op, pos) matches Ok((_, end)) ==> pos <= end <= s.len(),
{
    lemma_skip_while(s, pos, CharClass::Space);
    let p1 = skip_space(s, pos);
    lemma_parse_int(s, p1);
    if p1 < s.len() {
        lemma_skip_while(s, p1, CharClass::IdentPart);
    }
    match parse_reg(s, p1) {
        Some((_, e1)) => {
            lemma_skip_while(s, e1, CharClass::Space);
        },
        None => {},
    }
    match parse_int(s, p1) {
        Some((_, e1)) => {
            lemma_skip_while(s, e1, CharClass::Space);
            lemma_parse_int(s, skip_space(s, e1));
        },
        None => {},
    }
}

/// An annotation that was read ends in the text, behind the end of its
/// mnemonic.
pub proof fn lemma_parse_annote(s: Seq<char>, pos: int)
    requires
        0 <= pos <= s.len(),
    ensures
        parse_annote(s, pos) matches Ok((_, end)) ==> pos < end <= s.len(),
{
    lemma_skip_while(s, pos, CharClass::Space);
    let p1 = skip_space(s, pos);
    match parse_reg(s, p1) {
        Some((_, e1)) => {
            lemma_skip_while(s, e1, CharClass::Space);
            let p2 = skip_space(s, e1);
            lemma_parse_int(s, p2);
            match parse_int(s, p2) {
                Some((_, e2)) => {
                    lemma_skip_while(s, e2, CharClass::Space);
                    let p3 = skip_space(s, e2);
                    lemma_parse_int(s, p3);
                    match parse_int(s, p3) {
                        Some((_, e3)) => {
                            lemma_skip_while(s, e3, CharClass::Space);
                            let p4 = skip_space(s, e3);
                            lemma_parse_color(s, p4);
                            match parse_color(s, p4) {
                                Some((_, e4)) => {
                                    lemma_skip_while(s, e4, CharClass::Space);
                                    lemma_parse_text(s, skip_space(s, e4));
                                },
                                None => {},
                            }
                        },
                        None => {},
                    }
                },
                None => {},
            }
        },
        None => {},
    }
}

/// An instruction that was read ends behind its start and in the text.
pub proof fn lemma_parse_instr(s: Seq<char>, pos: int)
    requires
        0 <= pos <= s.len(),
    ensures
        parse_instr(s, pos) matches Ok((_, end)) ==> pos < end <= s.len(),
{
    if pos < s.len() && is_ident_start(s[pos]) {
        lemma_skip_while(s, pos, CharClass::IdentPart);
        let end = skip_while(s, pos, CharClass::IdentPart);
        lemma_parse_annote(s, end);
        match opcode_of(upper(s.subrange(pos, end))) {
            Some(op) => {
                lemma_parse_operands(s, op, end);
            },
            None => {},
        }
    }
}

#[via_fn]
proof fn parse_from_decreases(s: Seq<char>, pos: int) {
    if 0 <= pos <= s.len() {
        lemma_skip_pad(s, pos, false);
        lemma_parse_instr(s, skip_pad(s, pos, false));
    }
}

} // verus!
