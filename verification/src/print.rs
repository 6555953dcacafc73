//! Instructions, registers and memory as text.

use vstd::prelude::*;

use crate::instruction::{views, Color, Instr, InstrView};
use crate::register::{Reg, RegisterFile};
use crate::text::{decimal, decimal_string, push_decimal, push_str, texts};

verus! {

impl Color {
    /// The name of the colour, as it is written in a program.
    pub open spec fn spec_name(self) -> Seq<char> {
        match self {
            Color::Black => "black"@,
            Color::Blue => "blue"@,
            Color::Cyan => "cyan"@,
            Color::DarkGray => "darkGray"@,
            Color::Gray => "gray"@,
            Color::Green => "green"@,
            Color::LightGray => "lightGray"@,
            Color::Magenta => "magenta"@,
            Color::Orange => "orange"@,
            Color::Pink => "pink"@,
            Color::Red => "red"@,
            Color::Yellow => "yellow"@,
        }
    }

    /// The name of the colour, as it is written in a program.
    pub fn name(self) -> (s: &'static str)
        ensures
            s@ == self.spec_name(),
    {
        match self {
            Color::Black => "black",
            Color::Blue => "blue",
            Color::Cyan => "cyan",
            Color::DarkGray => "darkGray",
            Color::Gray => "gray",
            Color::Green => "green",
            Color::LightGray => "lightGray",
            Color::Magenta => "magenta",
            Color::Orange => "orange",
            Color::Pink => "pink",
            Color::Red => "red",
            Color::Yellow => "yellow",
        }
    }

    /// The name of the colour as a string.
    pub fn to_string(&self) -> (s: String)
        ensures
            s@ == self.spec_name(),
    {
        self.name().to_owned()
    }
}

impl Reg {
    /// The canonical name of the register as a string.
    pub fn to_string(&self) -> (s: String)
        ensures
            s@ == self.spec_name(),
    {
        self.name().to_owned()
    }
}

/// The texts of a list, each behind a space.
pub open spec fn spaced(parts: Seq<Seq<char>>) -> Seq<char>
    decreases parts.len(),
{
    if parts.len() == 0 {
        Seq::empty()
    } else {
        spaced(parts.drop_last()) + seq![' '] + parts.last()
    }
}

/// The texts of a list with a comma and a space between them.
pub open spec fn listed(parts: Seq<Seq<char>>) -> Seq<char>
    decreases parts.len(),
{
    if parts.len() == 0 {
        Seq::empty()
    } else if parts.len() == 1 {
        parts[0]
    } else {
        listed(parts.drop_last()) + seq![',', ' '] + parts.last()
    }
}

/// The decimal texts of a sequence of words.
pub open spec fn decimals(words: Seq<i32>) -> Seq<Seq<char>> {
    words.map_values(|w: i32| decimal(w as int))
}

/// A sequence of words as a list in square brackets.
pub open spec fn words_text(words: Seq<i32>) -> Seq<char> {
    seq!['['] + listed(decimals(words)) + seq![']']
}

/// The register file as text: each register with its lower-case name.
pub open spec fn registers_text(regs: RegisterFile) -> Seq<char> {
    "RegisterFile { pc: "@ + decimal(regs.pc as int) + ", sp: "@ + decimal(regs.sp as int)
        + ", mp: "@ + decimal(regs.mp as int) + ", hp: "@ + decimal(regs.hp as int) + ", r4: "@
        + decimal(regs.r4 as int) + ", r5: "@ + decimal(regs.r5 as int) + ", r6: "@ + decimal(
        regs.r6 as int,
    ) + ", r7: "@ + decimal(regs.r7 as int) + " }"@
}

impl InstrView {
    /// The mnemonic of the instruction, in capitals. A symbolic branch has
    /// the mnemonic of the branch it becomes.
    pub open spec fn mnemonic(self) -> Seq<char> {
        match self {
            InstrView::STR(_) => "STR"@,
            InstrView::STL(_) => "STL"@,
            InstrView::STS(_) => "STS"@,
            InstrView::STA(_) => "STA"@,
            InstrView::LDR(_) => "LDR"@,
            InstrView::LDL(_) => "LDL"@,
            InstrView::LDS(_) => "LDS"@,
            InstrView::LDA(_) => "LDA"@,
            InstrView::LDC(_) => "LDC"@,
            InstrView::LDLA(_) => "LDLA"@,
            InstrView::LDSA(_) => "LDSA"@,
            InstrView::LDAA(_) => "LDAA"@,
            InstrView::BRA(_) => "BRA"@,
            InstrView::Bra(_) => "BRA"@,
            InstrView::BRF(_) => "BRF"@,
            InstrView::Brf(_) => "BRF"@,
            InstrView::BRT(_) => "BRT"@,
            InstrView::Brt(_) => "BRT"@,
            InstrView::BSR(_) => "BSR"@,
            InstrView::Bsr(_) => "BSR"@,
            InstrView::ADD => "ADD"@,
            InstrView::SUB => "SUB"@,
            InstrView::MUL => "MUL"@,
            InstrView::DIV => "DIV"@,
            InstrView::MOD => "MOD"@,
            InstrView::EQ => "EQ"@,
            InstrView::NE => "NE"@,
            InstrView::LT => "LT"@,
            InstrView::LE => "LE"@,
            InstrView::GT => "GT"@,
            InstrView::GE => "GE"@,
            InstrView::AND => "AND"@,
            InstrView::OR => "OR"@,
            InstrView::XOR => "XOR"@,
            InstrView::NEG => "NEG"@,
            InstrView::NOT => "NOT"@,
            InstrView::RET => "RET"@,
            InstrView::UNLINK => "UNLINK"@,
            InstrView::LINK(_) => "LINK"@,
            InstrView::AJS(_) => "AJS"@,
            InstrView::SWP => "SWP"@,
            InstrView::SWPR(_) => "SWPR"@,
            InstrView::SWPRR(_, _) => "SWPRR"@,
            InstrView::LDRR(_, _) => "LDRR"@,
            InstrView::JSR => "JSR"@,
            InstrView::TRAP(_) => "TRAP"@,
            InstrView::NOP => "NOP"@,
            InstrView::HALT => "HALT"@,
            InstrView::STH => "STH"@,
            InstrView::LDH(_) => "LDH"@,
            InstrView::STMA(_, _) => "STMA"@,
            InstrView::STMH(_) => "STMH"@,
            InstrView::STML(_, _) => "STML"@,
            InstrView::STMS(_, _) => "STMS"@,
            InstrView::LDMA(_, _) => "LDMA"@,
            InstrView::LDMH(_, _) => "LDMH"@,
            InstrView::LDML(_, _) => "LDML"@,
            InstrView::LDMS(_, _) => "LDMS"@,
            InstrView::LABEL(_) => "LABEL"@,
            InstrView::ANNOTE(_, _, _, _, _) => "ANNOTE"@,
        }
    }

    /// The name under which the instruction is listed: the mnemonic, but for
    /// the symbolic branches, which are listed as `Bra`, `Brf`, `Brt` and
    /// `Bsr`.
    pub open spec fn tag(self) -> Seq<char> {
        match self {
            InstrView::Bra(_) => "Bra"@,
            InstrView::Brf(_) => "Brf"@,
            InstrView::Brt(_) => "Brt"@,
            InstrView::Bsr(_) => "Bsr"@,
            _ => self.mnemonic(),
        }
    }

    /// The operands as texts, in the order in which they are written: an
    /// integer in decimal, a register and a colour by name, a label and the
    /// text of an annotation as they are.
    pub open spec fn operands(self) -> Seq<Seq<char>> {
        match self {
            InstrView::STR(r) => seq![r.spec_name()],
            InstrView::STL(n) => seq![decimal(n as int)],
            InstrView::STS(n) => seq![decimal(n as int)],
            InstrView::STA(n) => seq![decimal(n as int)],
            InstrView::LDR(r) => seq![r.spec_name()],
            InstrView::LDL(n) => seq![decimal(n as int)],
            InstrView::LDS(n) => seq![decimal(n as int)],
            InstrView::LDA(n) => seq![decimal(n as int)],
            InstrView::LDC(n) => seq![decimal(n as int)],
            InstrView::LDLA(n) => seq![decimal(n as int)],
            InstrView::LDSA(n) => seq![decimal(n as int)],
            InstrView::LDAA(n) => seq![decimal(n as int)],
            InstrView::BRA(n) => seq![decimal(n as int)],
            InstrView::Bra(s) => seq![s],
            InstrView::BRF(n) => seq![decimal(n as int)],
            InstrView::Brf(s) => seq![s],
            InstrView::BRT(n) => seq![decimal(n as int)],
            InstrView::Brt(s) => seq![s],
            InstrView::BSR(n) => seq![decimal(n as int)],
            InstrView::Bsr(s) => seq![s],
            InstrView::ADD => Seq::empty(),
            InstrView::SUB => Seq::empty(),
            InstrView::MUL => Seq::empty(),
            InstrView::DIV => Seq::empty(),
            InstrView::MOD => Seq::empty(),
            InstrView::EQ => Seq::empty(),
            InstrView::NE => Seq::empty(),
            InstrView::LT => Seq::empty(),
            InstrView::LE => Seq::empty(),
            InstrView::GT => Seq::empty(),
            InstrView::GE => Seq::empty(),
            InstrView::AND => Seq::empty(),
            InstrView::OR => Seq::empty(),
            InstrView::XOR => Seq::empty(),
            InstrView::NEG => Seq::empty(),
            InstrView::NOT => Seq::empty(),
            InstrView::RET => Seq::empty(),
            InstrView::UNLINK => Seq::empty(),
            InstrView::LINK(n) => seq![decimal(n as int)],
            InstrView::AJS(n) => seq![decimal(n as int)],
            InstrView::SWP => Seq::empty(),
            InstrView::SWPR(r) => seq![r.spec_name()],
            InstrView::SWPRR(r, q) => seq![r.spec_name(), q.spec_name()],
            InstrView::LDRR(r, q) => seq![r.spec_name(), q.spec_name()],
            InstrView::JSR => Seq::empty(),
            InstrView::TRAP(n) => seq![decimal(n as int)],
            InstrView::NOP => Seq::empty(),
            InstrView::HALT => Seq::empty(),
            InstrView::STH => Seq::empty(),
            InstrView::LDH(n) => seq![decimal(n as int)],
            InstrView::STMA(n, m) => seq![decimal(n as int), decimal(m as int)],
            InstrView::STMH(n) => seq![decimal(n as int)],
            InstrView::STML(n, m) => seq![decimal(n as int), decimal(m as int)],
            InstrView::STMS(n, m) => seq![decimal(n as int), decimal(m as int)],
            InstrView::LDMA(n, m) => seq![decimal(n as int), decimal(m as int)],
            InstrView::LDMH(n, m) => seq![decimal(n as int), decimal(m as int)],
            InstrView::LDML(n, m) => seq![decimal(n as int), decimal(m as int)],
            InstrView::LDMS(n, m) => seq![decimal(n as int), decimal(m as int)],
            InstrView::LABEL(s) => seq![s],
            InstrView::ANNOTE(r, n, m, c, s) => seq![
                r.spec_name(),
                decimal(n as int),
                decimal(m as int),
                c.spec_name(),
                s,
            ],
        }
    }

    /// The instruction as it is written in a program: the mnemonic and the
    /// operands with a space before each; a label definition as the name
    /// and a colon.
    pub open spec fn text(self) -> Seq<char> {
        match self {
            InstrView::LABEL(s) => s + seq![':'],
            _ => self.mnemonic() + spaced(self.operands()),
        }
    }

    /// The instruction as it is reported when it is executed: the mnemonic,
    /// and the operands in round brackets where there are any.
    pub open spec fn trace_text(self) -> Seq<char> {
        if self.operands().len() == 0 {
            self.mnemonic()
        } else {
            self.mnemonic() + seq!['('] + listed(self.operands()) + seq![')']
        }
    }

    /// The tag, followed by the operands.
    pub open spec fn name_and_params(self) -> Seq<Seq<char>> {
        seq![self.tag()] + self.operands()
    }
}

/// The listing of a program: the text of each instruction, each followed by
/// a line feed.
pub open spec fn listing(code: Seq<InstrView>) -> Seq<char>
    decreases code.len(),
{
    if code.len() == 0 {
        Seq::empty()
    } else {
        code[0].text() + seq!['\n'] + listing(code.drop_first())
    }
}

/// The listing of a program: one instruction on each line.
pub fn print_code(code: &Vec<Instr>) -> (s: String)
    ensures
        s@ == listing(views(code@)),
{
    let ghost v = views(code@);
    let mut s = String::new();
    let mut k: usize = 0;
    proof {
        assert(v.skip(0) =~= v);
        assert(s@ + listing(v) =~= listing(v));
    }
    while k < code.len()
        invariant
            k <= code@.len(),
            v == views(code@),
            listing(v) == s@ + listing(v.skip(k as int)),
        decreases code@.len() - k,
    {
        let ghost before = s@;
        let line = code[k].to_string();
        push_str(&mut s, line.as_str());
        s.push('\n');
        proof {
            let rest = v.skip(k as int);
            assert(rest[0] == code@[k as int]@);
            assert(rest.drop_first() =~= v.skip(k + 1));
            assert(before + (rest[0].text() + seq!['\n'] + listing(v.skip(k + 1))) =~= s@
                + listing(v.skip(k + 1)));
        }
        k = k + 1;
    }
    proof {
        assert(s@ + listing(v.skip(k as int)) =~= s@);
    }
    s
}

/// Appends the texts of a list, each behind a space.
pub fn push_spaced(s: &mut String, parts: &Vec<String>)
    ensures
        final(s)@ == old(s)@ + spaced(texts(parts@)),
{
    let ghost t = texts(parts@);
    let mut k: usize = 0;
    proof {
        assert(t.take(0) =~= Seq::<Seq<char>>::empty());
        assert(old(s)@ + spaced(t.take(0)) =~= old(s)@);
    }
    while k < parts.len()
        invariant
            k <= parts@.len(),
            t == texts(parts@),
            s@ == old(s)@ + spaced(t.take(k as int)),
        decreases parts@.len() - k,
    {
        proof {
            assert(t.take(k + 1).drop_last() =~= t.take(k as int));
            assert(t.take(k + 1).last() == parts@[k as int]@);
            assert((old(s)@ + spaced(t.take(k as int))).push(' ') + parts@[k as int]@ =~= old(s)@
                + spaced(t.take(k + 1)));
        }
        s.push(' ');
        push_str(s, parts[k].as_str());
        k = k + 1;
    }
    proof {
        assert(t.take(k as int) =~= t);
    }
}

/// Appends the texts of a list with a comma and a space between them.
pub fn push_listed(s: &mut String, parts: &Vec<String>)
    ensures
        final(s)@ == old(s)@ + listed(texts(parts@)),
{
    let ghost t = texts(parts@);
    let mut k: usize = 0;
    proof {
        assert(t.take(0) =~= Seq::<Seq<char>>::empty());
        assert(old(s)@ + listed(t.take(0)) =~= old(s)@);
    }
    while k < parts.len()
        invariant
            k <= parts@.len(),
            t == texts(parts@),
            s@ == old(s)@ + listed(t.take(k as int)),
        decreases parts@.len() - k,
    {
        proof {
            assert(t.take(k + 1).drop_last() =~= t.take(k as int));
            assert(t.take(k + 1).last() == parts@[k as int]@);
        }
        if k > 0 {
            s.push(',');
            s.push(' ');
            proof {
                assert((old(s)@ + listed(t.take(k as int))).push(',').push(' ') + parts@[k as int]@
                    =~= old(s)@ + (listed(t.take(k as int)) + seq![',', ' '] + parts@[k as int]@));
            }
        } else {
            proof {
                assert(t.take(1)[0] == parts@[0]@);
                assert(old(s)@ + listed(t.take(0)) + parts@[0]@ =~= old(s)@ + listed(t.take(1)));
            }
        }
        push_str(s, parts[k].as_str());
        k = k + 1;
    }
    proof {
        assert(t.take(k as int) =~= t);
    }
}

/// A sequence of words as a list in square brackets.
pub fn words_to_string(words: &[i32]) -> (s: String)
    ensures
        s@ == words_text(words@),
{
    let mut parts: Vec<String> = Vec::new();
    let mut k: usize = 0;
    while k < words.len()
        invariant
            k <= words@.len(),
            texts(parts@) == decimals(words@.take(k as int)),
        decreases words@.len() - k,
    {
        let ghost before = texts(parts@);
        parts.push(decimal_string(words[k]));
        proof {
            assert(texts(parts@) =~= before.push(decimal(words@[k as int] as int)));
            assert(decimals(words@.take(k + 1)) =~= decimals(words@.take(k as int)).push(
                decimal(words@[k as int] as int),
            ));
        }
        k = k + 1;
    }
    proof {
        assert(words@.take(k as int) =~= words@);
    }
    let mut s = String::new();
    s.push('[');
    push_listed(&mut s, &parts);
    s.push(']');
    proof {
        assert(s@ =~= words_text(words@));
    }
    s
}

/// The register file as text.
pub fn registers_to_string(regs: &RegisterFile) -> (s: String)
    ensures
        s@ == registers_text(*regs),
{
    let mut s = String::new();
    push_str(&mut s, "RegisterFile { pc: ");
    push_decimal(&mut s, regs.pc);
    push_str(&mut s, ", sp: ");
    push_decimal(&mut s, regs.sp);
    push_str(&mut s, ", mp: ");
    push_decimal(&mut s, regs.mp);
    push_str(&mut s, ", hp: ");
    push_decimal(&mut s, regs.hp);
    push_str(&mut s, ", r4: ");
    push_decimal(&mut s, regs.r4);
    push_str(&mut s, ", r5: ");
    push_decimal(&mut s, regs.r5);
    push_str(&mut s, ", r6: ");
    push_decimal(&mut s, regs.r6);
    push_str(&mut s, ", r7: ");
    push_decimal(&mut s, regs.r7);
    push_str(&mut s, " }");
    proof {
        assert(s@ =~= registers_text(*regs));
    }
    s
}

impl Instr {
    /// The mnemonic of the instruction, in capitals.
    pub fn mnemonic(&self) -> (s: &'static str)
        ensures
            s@ == self@.mnemonic(),
    {
        match self {
            Instr::STR(_) => "STR",
            Instr::STL(_) => "STL",
            Instr::STS(_) => "STS",
            Instr::STA(_) => "STA",
            Instr::LDR(_) => "LDR",
            Instr::LDL(_) => "LDL",
            Instr::LDS(_) => "LDS",
            Instr::LDA(_) => "LDA",
            Instr::LDC(_) => "LDC",
            Instr::LDLA(_) => "LDLA",
            Instr::LDSA(_) => "LDSA",
            Instr::LDAA(_) => "LDAA",
            Instr::BRA(_) => "BRA",
            Instr::Bra(_) => "BRA",
            Instr::BRF(_) => "BRF",
            Instr::Brf(_) => "BRF",
            Instr::BRT(_) => "BRT",
            Instr::Brt(_) => "BRT",
            Instr::BSR(_) => "BSR",
            Instr::Bsr(_) => "BSR",
            Instr::ADD => "ADD",
            Instr::SUB => "SUB",
            Instr::MUL => "MUL",
            Instr::DIV => "DIV",
            Instr::MOD => "MOD",
            Instr::EQ => "EQ",
            Instr::NE => "NE",
            Instr::LT => "LT",
            Instr::LE => "LE",
            Instr::GT => "GT",
            Instr::GE => "GE",
            Instr::AND => "AND",
            Instr::OR => "OR",
            Instr::XOR => "XOR",
            Instr::NEG => "NEG",
            Instr::NOT => "NOT",
            Instr::RET => "RET",
            Instr::UNLINK => "UNLINK",
            Instr::LINK(_) => "LINK",
            Instr::AJS(_) => "AJS",
            Instr::SWP => "SWP",
            Instr::SWPR(_) => "SWPR",
            Instr::SWPRR(_, _) => "SWPRR",
            Instr::LDRR(_, _) => "LDRR",
            Instr::JSR => "JSR",
            Instr::TRAP(_) => "TRAP",
            Instr::NOP => "NOP",
            Instr::HALT => "HALT",
            Instr::STH => "STH",
            Instr::LDH(_) => "LDH",
            Instr::STMA(_, _) => "STMA",
            Instr::STMH(_) => "STMH",
            Instr::STML(_, _) => "STML",
            Instr::STMS(_, _) => "STMS",
            Instr::LDMA(_, _) => "LDMA",
            Instr::LDMH(_, _) => "LDMH",
            Instr::LDML(_, _) => "LDML",
            Instr::LDMS(_, _) => "LDMS",
            Instr::LABEL(_) => "LABEL",
            Instr::ANNOTE(_, _, _, _, _) => "ANNOTE",
        }
    }

    /// The name under which the instruction is listed.
    pub fn tag(&self) -> (s: &'static str)
        ensures
            s@ == self@.tag(),
    {
        match self {
            Instr::Bra(_) => "Bra",
            Instr::Brf(_) => "Brf",
            Instr::Brt(_) => "Brt",
            Instr::Bsr(_) => "Bsr",
            _ => self.mnemonic(),
        }
    }

    /// The operands as texts, in the order in which they are written.
    pub fn operand_texts(&self) -> (parts: Vec<String>)
        ensures
            texts(parts@) == self@.operands(),
    {
        let mut parts: Vec<String> = Vec::new();
        match self {
            Instr::STR(r) => {
                parts.push(r.to_string());
            },
            Instr::STL(n) => {
                parts.push(decimal_string(*n));
            },
            Instr::STS(n) => {
                parts.push(decimal_string(*n));
            },
            Instr::STA(n) => {
                parts.push(decimal_string(*n));
            },
            Instr::LDR(r) => {
                parts.push(r.to_string());
            },
            Instr::LDL(n) => {
                parts.push(decimal_string(*n));
            },
            Instr::LDS(n) => {
                parts.push(decimal_string(*n));
            },
            Instr::LDA(n) => {
                parts.push(decimal_string(*n));
            },
            Instr::LDC(n) => {
                parts.push(decimal_string(*n));
            },
            Instr::LDLA(n) => {
                parts.push(decimal_string(*n));
            },
            Instr::LDSA(n) => {
                parts.push(decimal_string(*n));
            },
            Instr::LDAA(n) => {
                parts.push(decimal_string(*n));
            },
            Instr::BRA(n) => {
                parts.push(decimal_string(*n));
            },
            Instr::Bra(s) => {
                parts.push(s.clone());
            },
            Instr::BRF(n) => {
                parts.push(decimal_string(*n));
            },
            Instr::Brf(s) => {
                parts.push(s.clone());
            },
            Instr::BRT(n) => {
                parts.push(decimal_string(*n));
            },
            Instr::Brt(s) => {
                parts.push(s.clone());
            },
            Instr::BSR(n) => {
                parts.push(decimal_string(*n));
            },
            Instr::Bsr(s) => {
                parts.push(s.clone());
            },
            Instr::LINK(n) => {
                parts.push(decimal_string(*n));
            },
            Instr::AJS(n) => {
                parts.push(decimal_string(*n));
            },
            Instr::SWPR(r) => {
                parts.push(r.to_string());
            },
            Instr::SWPRR(r, q) => {
                parts.push(r.to_string());
                parts.push(q.to_string());
            },
            Instr::LDRR(r, q) => {
                parts.push(r.to_string());
                parts.push(q.to_string());
            },
            Instr::TRAP(n) => {
                parts.push(decimal_string(*n));
            },
            Instr::LDH(n) => {
                parts.push(decimal_string(*n));
            },
            Instr::STMA(n, m) => {
                parts.push(decimal_string(*n));
                parts.push(decimal_string(*m));
            },
            Instr::STMH(n) => {
                parts.push(decimal_string(*n));
            },
            Instr::STML(n, m) => {
                parts.push(decimal_string(*n));
                parts.push(decimal_string(*m));
            },
            Instr::STMS(n, m) => {
                parts.push(decimal_string(*n));
                parts.push(decimal_string(*m));
            },
            Instr::LDMA(n, m) => {
                parts.push(decimal_string(*n));
                parts.push(decimal_string(*m));
            },
            Instr::LDMH(n, m) => {
                parts.push(decimal_string(*n));
                parts.push(decimal_string(*m));
            },
            Instr::LDML(n, m) => {
                parts.push(decimal_string(*n));
                parts.push(decimal_string(*m));
            },
            Instr::LDMS(n, m) => {
                parts.push(decimal_string(*n));
                parts.push(decimal_string(*m));
            },
            Instr::LABEL(s) => {
                parts.push(s.clone());
            },
            Instr::ANNOTE(r, n, m, c, s) => {
                parts.push(r.to_string());
                parts.push(decimal_string(*n));
                parts.push(decimal_string(*m));
                parts.push(c.to_string());
                parts.push(s.clone());
            },
            _ => {},
        }
        proof {
            assert(texts(parts@) =~= self@.operands());
        }
        parts
    }

    /// The tag of the instruction, followed by its operands as texts.
    pub fn name_and_params(&self) -> (parts: Vec<String>)
        ensures
            texts(parts@) == self@.name_and_params(),
    {
        let mut parts: Vec<String> = Vec::new();
        parts.push(self.tag().to_owned());
        let mut operands = self.operand_texts();
        parts.append(&mut operands);
        proof {
            assert(texts(parts@) =~= self@.name_and_params());
        }
        parts
    }

    /// The instruction as it is written in a program.
    pub fn to_string(&self) -> (s: String)
        ensures
            s@ == self@.text(),
    {
        match self {
            Instr::LABEL(name) => {
                let mut s = name.clone();
                s.push(':');
                s
            },
            _ => {
                let mut s = self.mnemonic().to_owned();
                let operands = self.operand_texts();
                push_spaced(&mut s, &operands);
                s
            },
        }
    }

    /// The instruction as it is reported when it is executed.
    pub fn trace_string(&self) -> (s: String)
        ensures
            s@ == self@.trace_text(),
    {
        let mut s = self.mnemonic().to_owned();
        let operands = self.operand_texts();
        if operands.len() > 0 {
            s.push('(');
            push_listed(&mut s, &operands);
            s.push(')');
        }
        proof {
            assert(texts(operands@).len() == operands@.len());
            assert(s@ =~= self@.trace_text());
        }
        s
    }
}

} // verus!
