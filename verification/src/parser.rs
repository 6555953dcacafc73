//! The parser: from assembly text to a list of instructions.

use vstd::prelude::*;

use crate::error::{ParseError, ParseErrorKind};
use crate::grammar::{
    color_named, digits_end, digits_value, error_at, in_class, instr_of, is_digit,
    is_ident_start, is_line_break, is_space, lemma_parse_instr, lemma_skip_pad,
    lemma_skip_while, parse_annote, parse_color, parse_from, parse_instr, parse_int,
    parse_operands, parse_program, parse_reg, parse_text, register_named, skip_pad, skip_while,
    symbolic_of, upper, upper_char, CharClass, Shape,
};
use crate::instruction::{views, Color, Instr, InstrView};
use crate::mnemonic::{lookup, shape, word_is};
use crate::register::Reg;

verus! {

/// The characters of a text.
pub fn to_chars(s: &str) -> (chars: Vec<char>)
    ensures
        chars@ == s@,
{
    let mut chars: Vec<char> = Vec::new();
    for c in it: s.chars()
        invariant
            it.seq() == s@,
            chars@ == s@.take(it.index() as int),
    {
        proof {
            assert(s@.take(it.index() + 1) =~= s@.take(it.index() as int).push(c));
        }
        chars.push(c);
    }
    proof {
        assert(s@.take(s@.len() as int) =~= s@);
    }
    chars
}

/// The characters from `from` to `to` as a string.
pub fn string_of(chars: &Vec<char>, from: usize, to: usize) -> (s: String)
    requires
        from <= to <= chars@.len(),
    ensures
        s@ == chars@.subrange(from as int, to as int),
{
    let mut s = String::new();
    let mut k: usize = from;
    while k < to
        invariant
            from <= k <= to,
            to <= chars@.len(),
            s@ == chars@.subrange(from as int, k as int),
        decreases to - k,
    {
        s.push(chars[k]);
        proof {
            assert(chars@.subrange(from as int, k + 1) =~= chars@.subrange(
                from as int,
                k as int,
            ).push(chars@[k as int]));
        }
        k = k + 1;
    }
    s
}

/// The characters from `from` to `to`, letters in upper case.
pub fn upper_of(chars: &Vec<char>, from: usize, to: usize) -> (word: Vec<char>)
    requires
        from <= to <= chars@.len(),
    ensures
        word@ == upper(chars@.subrange(from as int, to as int)),
{
    let mut word: Vec<char> = Vec::new();
    let mut k: usize = from;
    while k < to
        invariant
            from <= k <= to,
            to <= chars@.len(),
            word@ == upper(chars@.subrange(from as int, k as int)),
        decreases to - k,
    {
        let c = chars[k];
        let u = if 'a' <= c && c <= 'z' {
            ((c as u8) - 32) as char
        } else {
            c
        };
        assert(u == upper_char(c));
        word.push(u);
        proof {
            assert(chars@.subrange(from as int, k + 1) =~= chars@.subrange(
                from as int,
                k as int,
            ).push(c));
            assert(word@ =~= upper(chars@.subrange(from as int, k + 1)));
        }
        k = k + 1;
    }
    word
}

/// Whether a character is white space.
pub fn space(c: char) -> (r: bool)
    ensures
        r == is_space(c),
{
    let n = c as u32;
    (9 <= n && n <= 13) || n == 0x20 || n == 0x85 || n == 0xA0 || n == 0x1680 || (0x2000 <= n
        && n <= 0x200A) || n == 0x2028 || n == 0x2029 || n == 0x202F || n == 0x205F || n
        == 0x3000
}

/// Whether a character is a line break.
pub fn line_break(c: char) -> (r: bool)
    ensures
        r == is_line_break(c),
{
    let n = c as u32;
    (10 <= n && n <= 13) || n == 0x85 || n == 0x2028 || n == 0x2029
}

/// Whether an identifier may start with the character.
pub fn ident_start(c: char) -> (r: bool)
    ensures
        r == is_ident_start(c),
{
    ('a' <= c && c <= 'z') || ('A' <= c && c <= 'Z') || c == '_'
}

/// Whether a character belongs to a class.
pub fn of_class(class: CharClass, c: char) -> (r: bool)
    ensures
        r == in_class(class, c),
{
    match class {
        CharClass::Space => space(c),
        CharClass::IdentPart => ident_start(c) || ('0' <= c && c <= '9'),
        CharClass::Digit => '0' <= c && c <= '9',
        CharClass::Quoted => c != '"' && c != '\n' && c != '\r',
        CharClass::Bare => c != '"' && c != '\n' && c != '\r' && c != ' ',
        CharClass::Comment => !line_break(c),
    }
}

/// The first position from `pos` on at which no character of the class
/// stands.
pub fn scan(chars: &Vec<char>, pos: usize, class: CharClass) -> (end: usize)
    requires
        pos <= chars@.len(),
    ensures
        end == skip_while(chars@, pos as int, class),
        pos <= end <= chars@.len(),
{
    let mut k: usize = pos;
    while k < chars.len() && of_class(class, chars[k])
        invariant
            pos <= k <= chars@.len(),
            skip_while(chars@, pos as int, class) == skip_while(chars@, k as int, class),
        decreases chars@.len() - k,
    {
        k = k + 1;
    }
    k
}

/// The first position from `pos` on that lies neither in white space nor in
/// a comment.
pub fn pad(chars: &Vec<char>, pos: usize) -> (end: usize)
    requires
        pos <= chars@.len(),
    ensures
        end == skip_pad(chars@, pos as int, false),
        pos <= end <= chars@.len(),
{
    let mut k: usize = pos;
    let mut in_comment = false;
    proof {
        lemma_skip_pad(chars@, pos as int, false);
    }
    loop
        invariant
            pos <= k <= chars@.len(),
            skip_pad(chars@, pos as int, false) == skip_pad(chars@, k as int, in_comment),
        ensures
            pos <= k <= chars@.len(),
            k == skip_pad(chars@, pos as int, false),
        decreases chars@.len() - k, (if in_comment { 1int } else { 0int }),
    {
        if k >= chars.len() {
            break;
        }
        let c = chars[k];
        if in_comment {
            if line_break(c) {
                in_comment = false;
            } else {
                k = k + 1;
            }
        } else if space(c) {
            k = k + 1;
        } else if c == ';' || (c == '/' && k + 1 < chars.len() && chars[k + 1] == '/') {
            in_comment = true;
            k = k + 1;
        } else {
            break;
        }
    }
    k
}

/// A longer run of digits stands for a number that is at least as great.
pub proof fn lemma_digits_value_prefix(s: Seq<char>, a: int, b: int, c: int)
    requires
        0 <= a <= b <= c <= s.len(),
        forall|k: int| a <= k < c ==> is_digit(#[trigger] s[k]),
    ensures
        digits_value(s.subrange(a, b)) <= digits_value(s.subrange(a, c)),
    decreases c - b,
{
    if b < c {
        lemma_digits_value_prefix(s, a, b, c - 1);
        assert(s.subrange(a, c).drop_last() =~= s.subrange(a, c - 1));
        assert(s.subrange(a, c).last() == s[c - 1]);
    }
}

/// The integer at `pos` and the position behind it.
#[verifier::loop_isolation(false)]
pub fn read_int(chars: &Vec<char>, pos: usize) -> (r: Option<(i32, usize)>)
    requires
        pos <= chars@.len(),
    ensures
        match r {
            Some((v, end)) => parse_int(chars@, pos as int) == Some((v, end as int)) && pos < end
                <= chars@.len(),
            None => parse_int(chars@, pos as int) is None,
        },
{
    let negative = pos < chars.len() && chars[pos] == '-';
    let first: usize = if negative {
        pos + 1
    } else {
        pos
    };
    if !(first < chars.len() && '0' <= chars[first] && chars[first] <= '9') {
        return None;
    }
    let ghost s = chars@;
    let ghost end = digits_end(s, first as int);
    proof {
        lemma_skip_while(s, first as int, CharClass::Digit);
    }
    let mut magnitude: u64 = 0;
    let mut k: usize = first;
    if chars[first] == '0' {
        k = first + 1;
        proof {
            assert(s.subrange(first as int, first + 1).drop_last() =~= Seq::<char>::empty());
            assert(s.subrange(first as int, first + 1).last() == '0');
            reveal_with_fuel(digits_value, 2);
        }
    } else {
        proof {
            assert(s.subrange(first as int, first as int) =~= Seq::<char>::empty());
        }
        while k < chars.len() && '0' <= chars[k] && chars[k] <= '9'
            invariant
                first <= k <= end <= s.len(),
                s == chars@,
                end == skip_while(s, first as int, CharClass::Digit),
                end == skip_while(s, k as int, CharClass::Digit),
                forall|j: int| first <= j < end ==> is_digit(#[trigger] s[j]),
                magnitude == digits_value(s.subrange(first as int, k as int)),
                magnitude <= 0x8000_0000,
            decreases s.len() - k,
        {
            let d = (chars[k] as u32 - 48) as u64;
            let next = magnitude * 10 + d;
            proof {
                lemma_skip_while(s, k + 1, CharClass::Digit);
                assert(s.subrange(first as int, k + 1).drop_last() =~= s.subrange(
                    first as int,
                    k as int,
                ));
                assert(s.subrange(first as int, k + 1).last() == s[k as int]);
                assert(next == digits_value(s.subrange(first as int, k + 1)));
            }
            if next > 0x8000_0000 {
                proof {
                    lemma_digits_value_prefix(s, first as int, k + 1, end);
                }
                return None;
            }
            magnitude = next;
            k = k + 1;
        }
    }
    if negative {
        Some(((-(magnitude as i64)) as i32, k))
    } else if magnitude <= 0x7FFF_FFFF {
        Some((magnitude as i32, k))
    } else {
        None
    }
}

/// The register at `pos` and the position behind it.
pub fn read_reg(chars: &Vec<char>, pos: usize) -> (r: Option<(Reg, usize)>)
    requires
        pos <= chars@.len(),
    ensures
        match r {
            Some((reg, end)) => parse_reg(chars@, pos as int) == Some((reg, end as int)) && end
                == pos + 2 && end <= chars@.len(),
            None => parse_reg(chars@, pos as int) is None,
        },
{
    if chars.len() - pos < 2 {
        return None;
    }
    let a = chars[pos];
    let b = chars[pos + 1];
    let reg = if a == 'P' && b == 'C' {
        Some(Reg::PC)
    } else if a == 'S' && b == 'P' {
        Some(Reg::SP)
    } else if a == 'M' && b == 'P' {
        Some(Reg::MP)
    } else if a == 'H' && b == 'P' {
        Some(Reg::HP)
    } else if a == 'R' && b == 'R' {
        Some(Reg::R5)
    } else if a == 'R' && '0' <= b && b <= '7' {
        Reg::from_ordinal((b as u32 - 48) as i32)
    } else {
        None
    };
    assert(reg == register_named(a, b));
    match reg {
        Some(r) => Some((r, pos + 2)),
        None => None,
    }
}

/// The colour with the given name.
pub fn color_of(word: &Vec<char>) -> (r: Option<Color>)
    ensures
        r == color_named(word@),
{
    if word_is(word, "black") {
        Some(Color::Black)
    } else if word_is(word, "blue") {
        Some(Color::Blue)
    } else if word_is(word, "cyan") {
        Some(Color::Cyan)
    } else if word_is(word, "darkGray") {
        Some(Color::DarkGray)
    } else if word_is(word, "gray") {
        Some(Color::Gray)
    } else if word_is(word, "green") {
        Some(Color::Green)
    } else if word_is(word, "lightGray") {
        Some(Color::LightGray)
    } else if word_is(word, "magenta") {
        Some(Color::Magenta)
    } else if word_is(word, "orange") {
        Some(Color::Orange)
    } else if word_is(word, "pink") {
        Some(Color::Pink)
    } else if word_is(word, "red") {
        Some(Color::Red)
    } else if word_is(word, "yellow") {
        Some(Color::Yellow)
    } else {
        None
    }
}

/// The characters from `from` to `to`.
pub fn word_of(chars: &Vec<char>, from: usize, to: usize) -> (word: Vec<char>)
    requires
        from <= to <= chars@.len(),
    ensures
        word@ == chars@.subrange(from as int, to as int),
{
    let mut word: Vec<char> = Vec::new();
    let mut k: usize = from;
    while k < to
        invariant
            from <= k <= to,
            to <= chars@.len(),
            word@ == chars@.subrange(from as int, k as int),
        decreases to - k,
    {
        word.push(chars[k]);
        proof {
            assert(chars@.subrange(from as int, k + 1) =~= chars@.subrange(
                from as int,
                k as int,
            ).push(chars@[k as int]));
        }
        k = k + 1;
    }
    word
}

/// The colour at `pos` and the position behind it.
pub fn read_color(chars: &Vec<char>, pos: usize) -> (r: Option<(Color, usize)>)
    requires
        pos <= chars@.len(),
    ensures
        match r {
            Some((c, end)) => parse_color(chars@, pos as int) == Some((c, end as int)) && pos
                < end <= chars@.len(),
            None => parse_color(chars@, pos as int) is None,
        },
{
    if !(pos < chars.len() && ident_start(chars[pos])) {
        return None;
    }
    let end = scan(chars, pos, CharClass::IdentPart);
    proof {
        lemma_skip_while(chars@, pos as int, CharClass::IdentPart);
    }
    let word = word_of(chars, pos, end);
    match color_of(&word) {
        Some(c) => Some((c, end)),
        None => None,
    }
}

/// The text of an annotation at `pos` and the position behind it.
pub fn read_text(chars: &Vec<char>, pos: usize) -> (r: Option<(String, usize)>)
    requires
        pos <= chars@.len(),
    ensures
        match r {
            Some((t, end)) => parse_text(chars@, pos as int) == Some((t@, end as int)) && pos
                <= end <= chars@.len(),
            None => parse_text(chars@, pos as int) is None,
        },
{
    if pos < chars.len() && chars[pos] == '"' {
        let end = scan(chars, pos + 1, CharClass::Quoted);
        if end < chars.len() && chars[end] == '"' {
            Some((string_of(chars, pos + 1, end), end + 1))
        } else {
            None
        }
    } else {
        let end = scan(chars, pos, CharClass::Bare);
        Some((string_of(chars, pos, end), end))
    }
}

/// An error of the given kind at a position.
pub fn failure(kind: ParseErrorKind, pos: usize) -> (e: ParseError)
    ensures
        e == error_at(kind, pos as int),
{
    ParseError { kind, position: pos }
}

/// The operands of an annotation, behind the mnemonic that ends at `pos`.
pub fn read_annote(chars: &Vec<char>, pos: usize) -> (r: Result<(Instr, usize), ParseError>)
    requires
        pos <= chars@.len(),
    ensures
        match r {
            Ok((i, end)) => parse_annote(chars@, pos as int) == Ok::<
                (InstrView, int),
                ParseError,
            >((i@, end as int)) && pos <= end <= chars@.len(),
            Err(e) => parse_annote(chars@, pos as int) == Err::<(InstrView, int), ParseError>(e),
        },
{
    let p1 = scan(chars, pos, CharClass::Space);
    let (r, e1) = match read_reg(chars, p1) {
        Some(x) => x,
        None => {
            return Err(failure(ParseErrorKind::UnknownRegister, p1));
        },
    };
    let p2 = scan(chars, e1, CharClass::Space);
    let (n, e2) = match read_int(chars, p2) {
        Some(x) => x,
        None => {
            return Err(failure(ParseErrorKind::BadOperand, p2));
        },
    };
    let p3 = scan(chars, e2, CharClass::Space);
    let (m, e3) = match read_int(chars, p3) {
        Some(x) => x,
        None => {
            return Err(failure(ParseErrorKind::BadOperand, p3));
        },
    };
    let p4 = scan(chars, e3, CharClass::Space);
    let (c, e4) = match read_color(chars, p4) {
        Some(x) => x,
        None => {
            return Err(failure(ParseErrorKind::UnknownColor, p4));
        },
    };
    let p5 = scan(chars, e4, CharClass::Space);
    let (t, e5) = match read_text(chars, p5) {
        Some(x) => x,
        None => {
            return Err(failure(ParseErrorKind::UnterminatedString, p5));
        },
    };
    Ok((Instr::ANNOTE(r, n, m, c, t), e5))
}

/// The instruction with the given opcode and operand words.
fn build(op: i32, a: i32, b: i32) -> (i: Instr)
    ensures
        i@ == instr_of(op, a, b),
{
    match Instr::decode(op, a, b) {
        Ok(i) => i,
        Err(_) => Instr::NOP,
    }
}

/// The branch to a label that belongs to the opcode of a branch.
fn build_symbolic(op: i32, name: String) -> (i: Instr)
    ensures
        i@ == symbolic_of(op, name@),
{
    if op == 0x0C {
        Instr::Bra(name)
    } else if op == 0x0D {
        Instr::Brf(name)
    } else if op == 0x0E {
        Instr::Brt(name)
    } else {
        Instr::Bsr(name)
    }
}

/// The instruction with the opcode `op` whose mnemonic ends at `pos`.
pub fn read_operands(chars: &Vec<char>, op: i32, pos: usize) -> (r: Result<
    (Instr, usize),
    ParseError,
>)
    requires
        pos <= chars@.len(),
    ensures
        match r {
            Ok((i, end)) => parse_operands(chars@, op, pos as int) == Ok::<
                (InstrView, int),
                ParseError,
            >((i@, end as int)) && pos <= end <= chars@.len(),
            Err(e) => parse_operands(chars@, op, pos as int) == Err::<
                (InstrView, int),
                ParseError,
            >(e),
        },
{
    let p1 = scan(chars, pos, CharClass::Space);
    match shape(op) {
        Shape::Plain => Ok((build(op, 0, 0), pos)),
        Shape::Int => match read_int(chars, p1) {
            None => Err(failure(ParseErrorKind::BadOperand, p1)),
            Some((n, e1)) => Ok((build(op, n, 0), e1)),
        },
        Shape::Reg => match read_reg(chars, p1) {
            None => Err(failure(ParseErrorKind::UnknownRegister, p1)),
            Some((r, e1)) => Ok((build(op, r.ordinal(), 0), e1)),
        },
        Shape::RegReg => match read_reg(chars, p1) {
            None => Err(failure(ParseErrorKind::UnknownRegister, p1)),
            Some((r, e1)) => {
                let p2 = scan(chars, e1, CharClass::Space);
                match read_reg(chars, p2) {
                    None => Err(failure(ParseErrorKind::UnknownRegister, p2)),
                    Some((q, e2)) => Ok((build(op, r.ordinal(), q.ordinal()), e2)),
                }
            },
        },
        Shape::IntInt => match read_int(chars, p1) {
            None => Err(failure(ParseErrorKind::BadOperand, p1)),
            Some((n, e1)) => {
                let p2 = scan(chars, e1, CharClass::Space);
                match read_int(chars, p2) {
                    None => Err(failure(ParseErrorKind::BadOperand, p2)),
                    Some((m, e2)) => Ok((build(op, n, m), e2)),
                }
            },
        },
        Shape::Branch => if p1 < chars.len() && ident_start(chars[p1]) {
            let e1 = scan(chars, p1, CharClass::IdentPart);
            Ok((build_symbolic(op, string_of(chars, p1, e1)), e1))
        } else {
            match read_int(chars, p1) {
                None => Err(failure(ParseErrorKind::BadOperand, p1)),
                Some((n, e1)) => Ok((build(op, n, 0), e1)),
            }
        },
    }
}

/// The instruction or label definition that starts at `pos`.
pub fn read_instr(chars: &Vec<char>, pos: usize) -> (r: Result<(Instr, usize), ParseError>)
    requires
        pos <= chars@.len(),
    ensures
        match r {
            Ok((i, end)) => parse_instr(chars@, pos as int) == Ok::<(InstrView, int), ParseError>(
                (i@, end as int),
            ) && pos < end <= chars@.len(),
            Err(e) => parse_instr(chars@, pos as int) == Err::<(InstrView, int), ParseError>(e),
        },
{
    proof {
        lemma_parse_instr(chars@, pos as int);
    }
    if !(pos < chars.len() && ident_start(chars[pos])) {
        return Err(failure(ParseErrorKind::UnknownMnemonic, pos));
    }
    let end = scan(chars, pos, CharClass::IdentPart);
    if end < chars.len() && chars[end] == ':' {
        return Ok((Instr::LABEL(string_of(chars, pos, end)), end + 1));
    }
    let word = upper_of(chars, pos, end);
    match lookup(&word) {
        Some(op) => read_operands(chars, op, end),
        None => if word_is(&word, "ANNOTE") {
            read_annote(chars, end)
        } else {
            Err(failure(ParseErrorKind::UnknownMnemonic, pos))
        },
    }
}

/// What parsing gives where `done` was read already and `rest` is what the
/// remaining text gives.
pub open spec fn after(done: Seq<InstrView>, rest: Result<Seq<InstrView>, ParseError>) -> Result<
    Seq<InstrView>,
    ParseError,
> {
    match rest {
        Ok(more) => Ok(done + more),
        Err(e) => Err(e),
    }
}

/// Parses a program from its characters.
pub fn parse_chars(chars: &Vec<char>) -> (r: Result<Vec<Instr>, ParseError>)
    ensures
        match r {
            Ok(code) => parse_program(chars@) == Ok::<Seq<InstrView>, ParseError>(views(code@)),
            Err(e) => parse_program(chars@) == Err::<Seq<InstrView>, ParseError>(e),
        },
{
    let mut code: Vec<Instr> = Vec::new();
    let mut pos: usize = 0;
    proof {
        assert(after(views(code@), parse_from(chars@, 0)) == parse_from(chars@, 0)) by {
            match parse_from(chars@, 0) {
                Ok(more) => {
                    assert(views(code@) + more =~= more);
                },
                Err(_) => {},
            }
        }
    }
    loop
        invariant
            pos <= chars@.len(),
            parse_program(chars@) == after(views(code@), parse_from(chars@, pos as int)),
        decreases chars@.len() - pos,
    {
        let start = pad(chars, pos);
        if start >= chars.len() {
            proof {
                assert(views(code@) + Seq::<InstrView>::empty() =~= views(code@));
            }
            return Ok(code);
        }
        let ghost done = views(code@);
        match read_instr(chars, start) {
            Err(e) => {
                return Err(e);
            },
            Ok((i, end)) => {
                code.push(i);
                proof {
                    assert(views(code@) =~= done.push(i@));
                    match parse_from(chars@, end as int) {
                        Ok(more) => {
                            assert(done + (seq![i@] + more) =~= done.push(i@) + more);
                        },
                        Err(_) => {},
                    }
                }
                pos = end;
            },
        }
    }
}

/// Parses a program.
///
/// The result is the list of the instructions and label definitions of the
/// text in their order, or the first error with the index of the character
/// at which it was found.
pub fn parse(input: &str) -> (r: Result<Vec<Instr>, ParseError>)
    ensures
        match r {
            Ok(code) => parse_program(input@) == Ok::<Seq<InstrView>, ParseError>(views(code@)),
            Err(e) => parse_program(input@) == Err::<Seq<InstrView>, ParseError>(e),
        },
{
    let chars = to_chars(input);
    parse_chars(&chars)
}

} // verus!
