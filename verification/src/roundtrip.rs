//! Printing a program and parsing the text gives the program back.

use vstd::prelude::*;

use crate::error::ParseError;
use crate::grammar::{
    digits_end, digits_value, in_class, instr_of, is_digit, is_ident_start, is_space,
    lemma_skip_pad, parse_from, parse_instr, parse_int, parse_operands, parse_program, parse_reg,
    register_named, skip_pad, skip_space, skip_while, upper, CharClass, Shape,
};
use crate::instruction::{lemma_decode_encode, reg_word, InstrView};
use crate::linker::all_resolved;
use crate::mnemonic::{is_operand, lemma_mnemonic, lemma_shape, shape_of};
use crate::print::{listing, spaced};
use crate::register::Reg;
use crate::text::{decimal, digit_char, digits};

verus! {

/// Skipping the characters of a class ends exactly where the first character
/// stands that is not of the class.
pub proof fn lemma_skip_while_to(s: Seq<char>, pos: int, end: int, class: CharClass)
    requires
        0 <= pos <= end <= s.len(),
        forall|k: int| pos <= k < end ==> in_class(class, #[trigger] s[k]),
        end < s.len() ==> !in_class(class, s[end]),
    ensures
        skip_while(s, pos, class) == end,
    decreases end - pos,
{
    if pos < end {
        lemma_skip_while_to(s, pos + 1, end, class);
    }
}

/// The digits of a number are digits, they do not start with a zero unless
/// the number is below ten, and they stand for the number.
pub proof fn lemma_digits(n: nat)
    ensures
        digits(n).len() >= 1,
        forall|k: int| 0 <= k < digits(n).len() ==> is_digit(#[trigger] digits(n)[k]),
        n >= 1 ==> digits(n)[0] != '0',
        n == 0 ==> digits(n) == seq!['0'],
        digits_value(digits(n)) == n,
    decreases n,
{
    if n < 10 {
        let d = digits(n);
        assert(d.drop_last() =~= Seq::<char>::empty());
        assert(d.last() == digit_char(n));
        reveal_with_fuel(digits_value, 2);
    } else {
        lemma_digits(n / 10);
        let d = digits(n);
        assert(d.drop_last() =~= digits(n / 10));
        assert(d.last() == digit_char(n % 10));
        assert(d[0] == digits(n / 10)[0]);
    }
}

/// Reading a number where its decimal text stands gives the number and
/// ends behind the text, if no further digit follows.
pub proof fn lemma_parse_decimal(s: Seq<char>, pos: int, n: i32)
    requires
        0 <= pos,
        pos + decimal(n as int).len() <= s.len(),
        s.subrange(pos, pos + decimal(n as int).len()) == decimal(n as int),
        pos + decimal(n as int).len() < s.len() ==> !is_digit(s[pos + decimal(n as int).len()]),
    ensures
        parse_int(s, pos) == Some((n, pos + decimal(n as int).len())),
        decimal(n as int).len() >= 1,
        !is_space(s[pos]),
        !is_ident_start(s[pos]),
{
    let text = decimal(n as int);
    let end = pos + text.len();
    let m: nat = if n < 0 {
        (-n) as nat
    } else {
        n as nat
    };
    lemma_digits(m);
    let first = if n < 0 {
        pos + 1
    } else {
        pos
    };
    assert(forall|k: int| 0 <= k < text.len() ==> s[pos + k] == s.subrange(pos, end)[k]);
    assert(s[pos] == text[0]);
    assert forall|k: int| first <= k < end implies in_class(CharClass::Digit, #[trigger] s[k]) by {
        assert(s[k] == text[k - pos]);
        assert(text[k - pos] == digits(m)[k - first]);
    }
    assert(s[first] == digits(m)[0]) by {
        assert(s[first] == text[first - pos]);
    }
    assert(s.subrange(first, end) =~= digits(m)) by {
        assert forall|k: int| 0 <= k < end - first implies s.subrange(first, end)[k] == digits(
            m,
        )[k] by {
            assert(s[first + k] == text[first + k - pos]);
        }
    }
    if m == 0 {
        assert(digits_end(s, first) == end);
    } else {
        lemma_skip_while_to(s, first, end, CharClass::Digit);
    }
}

/// The name of a register has two characters, which name the register.
pub proof fn lemma_register_name(r: Reg)
    ensures
        r.spec_name().len() == 2,
        register_named(r.spec_name()[0], r.spec_name()[1]) == Some(r),
        !is_space(r.spec_name()[0]),
{
    reveal_strlit("PC");
    reveal_strlit("SP");
    reveal_strlit("MP");
    reveal_strlit("HP");
    reveal_strlit("R4");
    reveal_strlit("R5");
    reveal_strlit("R6");
    reveal_strlit("R7");
}

/// Reading a register where its name stands gives the register.
pub proof fn lemma_parse_register(s: Seq<char>, pos: int, r: Reg)
    requires
        0 <= pos,
        pos + 2 <= s.len(),
        s.subrange(pos, pos + 2) == r.spec_name(),
    ensures
        parse_reg(s, pos) == Some((r, pos + 2)),
        !is_space(s[pos]),
{
    lemma_register_name(r);
    assert(s[pos] == s.subrange(pos, pos + 2)[0]);
    assert(s[pos + 1] == s.subrange(pos, pos + 2)[1]);
}

/// White space of one space: where a space stands before a character that
/// is no white space, skipping white space passes the space and stops.
pub proof fn lemma_skip_one_space(s: Seq<char>, pos: int)
    requires
        0 <= pos,
        pos + 1 < s.len(),
        s[pos] == ' ',
        !is_space(s[pos + 1]),
    ensures
        skip_space(s, pos) == pos + 1,
{
    lemma_skip_while_to(s, pos, pos + 1, CharClass::Space);
}

/// One or two operands behind spaces, written out.
pub proof fn lemma_spaced(parts: Seq<Seq<char>>)
    ensures
        parts.len() == 0 ==> spaced(parts) == Seq::<char>::empty(),
        parts.len() == 1 ==> spaced(parts) == seq![' '] + parts[0],
        parts.len() == 2 ==> spaced(parts) == seq![' '] + parts[0] + seq![' '] + parts[1],
{
    reveal_with_fuel(spaced, 3);
    if parts.len() == 1 {
        assert(spaced(parts.drop_last()) =~= Seq::<char>::empty());
        assert(spaced(parts) =~= seq![' '] + parts[0]);
    } else if parts.len() == 2 {
        let one = parts.drop_last();
        assert(spaced(one.drop_last()) =~= Seq::<char>::empty());
        assert(spaced(one) =~= seq![' '] + parts[0]);
    }
}

/// An operand that stands behind a space is read as the word it stands for:
/// reading at the space gives the word and ends behind the text of the
/// operand. `stop` is the character behind the operand, which is a space or
/// a line feed.
pub proof fn lemma_parse_operand(s: Seq<char>, pos: int, text: Seq<char>, word: i32, register: bool)
    requires
        0 <= pos,
        pos + 1 + text.len() < s.len(),
        s[pos] == ' ',
        s.subrange(pos + 1, pos + 1 + text.len()) == text,
        s[pos + 1 + text.len()] == ' ' || s[pos + 1 + text.len()] == '\n',
        is_operand(text, word, register),
    ensures
        text.len() >= 1,
        skip_space(s, pos) == pos + 1,
        !is_ident_start(s[pos + 1]) || register,
        register ==> exists|r: Reg|
            word == reg_word(r) && parse_reg(s, pos + 1) == Some((r, pos + 1 + text.len())),
        !register ==> parse_int(s, pos + 1) == Some((word, pos + 1 + text.len())),
{
    if register {
        let r = choose|r: Reg| text == r.spec_name() && word == reg_word(r);
        lemma_register_name(r);
        lemma_parse_register(s, pos + 1, r);
    } else {
        lemma_parse_decimal(s, pos + 1, word);
    }
    lemma_skip_one_space(s, pos);
}

/// Reading the operands of a resolved instruction where they stand, behind
/// the mnemonic and before a line feed, gives the instruction.
pub proof fn lemma_parse_operands_text(s: Seq<char>, pos: int, i: InstrView)
    requires
        i.is_resolved(),
        0 <= pos,
        pos + spaced(i.operands()).len() < s.len(),
        s.subrange(pos, pos + spaced(i.operands()).len()) == spaced(i.operands()),
        s[pos + spaced(i.operands()).len()] == '\n',
    ensures
        parse_operands(s, i.opcode(), pos) == Ok::<(InstrView, int), ParseError>(
            (i, pos + spaced(i.operands()).len()),
        ),
{
    let ops = i.operands();
    let tail = spaced(ops);
    let end = pos + tail.len();
    let op = i.opcode();
    lemma_shape(i);
    lemma_spaced(ops);
    let words = i.encode();
    assert(forall|k: int| 0 <= k < tail.len() ==> s[pos + k] == s.subrange(pos, end)[k]);
    if ops.len() == 0 {
        lemma_decode_encode(i, seq![0i32, 0i32]);
        let w = words + seq![0i32, 0i32];
        assert(w[0] == op && w[1] == 0 && w[2] == 0);
        assert(instr_of(op, 0, 0) == i);
    } else if ops.len() == 1 {
        let t0 = ops[0];
        let register = shape_of(op) == Shape::Reg;
        assert(s[pos] == tail[0]);
        assert(s.subrange(pos + 1, pos + 1 + t0.len()) =~= t0) by {
            assert forall|k: int| 0 <= k < t0.len() implies s[pos + 1 + k] == t0[k] by {
                assert(s[pos + 1 + k] == tail[1 + k]);
            }
        }
        lemma_parse_operand(s, pos, t0, words[1], register);
        lemma_decode_encode(i, seq![0i32]);
        let w = words + seq![0i32];
        assert(w[0] == op && w[1] == words[1] && w[2] == 0);
        assert(instr_of(op, words[1], 0) == i);
    } else {
        let t0 = ops[0];
        let t1 = ops[1];
        let register = shape_of(op) == Shape::RegReg;
        let mid = pos + 1 + t0.len();
        assert(s[pos] == tail[0]);
        assert(s[mid] == tail[mid - pos]);
        assert(s.subrange(pos + 1, mid) =~= t0) by {
            assert forall|k: int| 0 <= k < t0.len() implies s[pos + 1 + k] == t0[k] by {
                assert(s[pos + 1 + k] == tail[1 + k]);
            }
        }
        assert(s.subrange(mid + 1, mid + 1 + t1.len()) =~= t1) by {
            assert forall|k: int| 0 <= k < t1.len() implies s[mid + 1 + k] == t1[k] by {
                assert(s[mid + 1 + k] == tail[2 + t0.len() + k]);
            }
        }
        lemma_parse_operand(s, pos, t0, words[1], register);
        lemma_parse_operand(s, mid, t1, words[2], register);
        lemma_decode_encode(i, Seq::<i32>::empty());
        let w = words + Seq::<i32>::empty();
        assert(w[0] == op && w[1] == words[1] && w[2] == words[2]);
        assert(instr_of(op, words[1], words[2]) == i);
    }
}

/// Reading a resolved instruction where its text stands, before a line
/// feed, gives the instruction and ends behind the text. Nothing is skipped
/// before it.
pub proof fn lemma_parse_instr_text(s: Seq<char>, pos: int, i: InstrView)
    requires
        i.is_resolved(),
        0 <= pos,
        pos + i.text().len() < s.len(),
        s.subrange(pos, pos + i.text().len()) == i.text(),
        s[pos + i.text().len()] == '\n',
    ensures
        skip_pad(s, pos, false) == pos,
        parse_instr(s, pos) == Ok::<(InstrView, int), ParseError>((i, pos + i.text().len())),
{
    let name = i.mnemonic();
    let tail = spaced(i.operands());
    let text = i.text();
    let mid = pos + name.len();
    let end = pos + text.len();
    lemma_mnemonic(i);
    lemma_shape(i);
    lemma_spaced(i.operands());
    assert(text == name + tail);
    assert(forall|k: int| 0 <= k < text.len() ==> s[pos + k] == s.subrange(pos, end)[k]);
    assert forall|k: int| pos <= k < mid implies in_class(
        CharClass::IdentPart,
        #[trigger] s[k],
    ) && 'A' <= s[k] <= 'Z' by {
        assert(s[k] == text[k - pos]);
        assert(text[k - pos] == name[k - pos]);
    }
    assert(s[mid] == ' ' || s[mid] == '\n') by {
        if tail.len() > 0 {
            assert(s[mid] == text[name.len() as int]);
            assert(text[name.len() as int] == tail[0]);
        }
    }
    lemma_skip_while_to(s, pos, mid, CharClass::IdentPart);
    assert(s.subrange(pos, mid) =~= name) by {
        assert forall|k: int| 0 <= k < name.len() implies s[pos + k] == name[k] by {
            assert(s[pos + k] == text[k]);
        }
    }
    assert(upper(name) =~= name);
    assert(s.subrange(mid, end) =~= tail) by {
        assert forall|k: int| 0 <= k < tail.len() implies s[mid + k] == tail[k] by {
            assert(s[mid + k] == text[name.len() + k]);
        }
    }
    lemma_parse_operands_text(s, mid, i);
    assert(s[pos] == name[0]);
}

/// What parsing gives from a position at which a line feed stands is what
/// it gives from the position behind the line feed.
pub proof fn lemma_parse_after_line_feed(s: Seq<char>, pos: int)
    requires
        0 <= pos < s.len(),
        s[pos] == '\n',
    ensures
        parse_from(s, pos) == parse_from(s, pos + 1),
{
    lemma_skip_pad(s, pos + 1, false);
}

/// Parsing the listing of a program of resolved instructions, wherever it
/// stands at the end of a text, gives the program.
pub proof fn lemma_parse_listing_at(s: Seq<char>, pos: int, code: Seq<InstrView>)
    requires
        all_resolved(code),
        0 <= pos <= s.len(),
        s.skip(pos) == listing(code),
    ensures
        parse_from(s, pos) == Ok::<Seq<InstrView>, ParseError>(code),
    decreases code.len(),
{
    if code.len() == 0 {
        assert(s.skip(pos).len() == 0);
        lemma_skip_pad(s, pos, false);
        assert(code =~= Seq::<InstrView>::empty());
    } else {
        let first = code[0];
        let rest = code.drop_first();
        let text = first.text();
        let end = pos + text.len();
        let tail = s.skip(pos);
        assert(tail == text + seq!['\n'] + listing(rest));
        assert(forall|k: int| 0 <= k < tail.len() ==> s[pos + k] == tail[k]);
        assert(s[end] == '\n') by {
            assert(s[end] == tail[text.len() as int]);
        }
        assert(s.subrange(pos, end) =~= text) by {
            assert forall|k: int| 0 <= k < text.len() implies s[pos + k] == text[k] by {
                assert(s[pos + k] == tail[k]);
            }
        }
        assert(first.is_resolved());
        lemma_parse_instr_text(s, pos, first);
        lemma_parse_after_line_feed(s, end);
        assert(s.skip(end + 1) =~= listing(rest)) by {
            assert forall|k: int| 0 <= k < listing(rest).len() implies s[end + 1 + k] == listing(
                rest,
            )[k] by {
                assert(s[end + 1 + k] == tail[text.len() + 1 + k]);
            }
        }
        assert(all_resolved(rest)) by {
            assert forall|k: int| 0 <= k < rest.len() implies (#[trigger] rest[k]).is_resolved(
            ) by {
                assert(rest[k] == code[k + 1]);
            }
        }
        lemma_parse_listing_at(s, end + 1, rest);
        assert(seq![first] + rest =~= code);
    }
}

/// Parsing after printing is the identity: the listing of a program of
/// resolved instructions parses as that program.
pub proof fn lemma_parse_listing(code: Seq<InstrView>)
    requires
        all_resolved(code),
    ensures
        parse_program(listing(code)) == Ok::<Seq<InstrView>, ParseError>(code),
{
    assert(listing(code).skip(0) =~= listing(code));
    lemma_parse_listing_at(listing(code), 0, code);
}

} // verus!
