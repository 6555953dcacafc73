use ssmrs::error::{ParseError, ParseErrorKind};
use ssmrs::{parse, Color, Instr, Reg};

fn error(kind: ParseErrorKind, position: usize) -> Result<Vec<Instr>, ParseError> {
    Err(ParseError { kind, position })
}

#[test]
fn test_single_instr() {
    let input = "NOP";
    let result = parse(input);
    assert_eq!(result, Ok(vec![Instr::NOP]));
}

#[test]
fn test_multiple_instr() {
    let code = r#"
main:
        LDC 41
        LDC 1
        ADD
        TRAP 0
        HALT
        "#;
    let result = parse(code);
    assert_eq!(
        result,
        Ok(vec![
            Instr::LABEL("main".to_string()),
            Instr::LDC(41),
            Instr::LDC(1),
            Instr::ADD,
            Instr::TRAP(0),
            Instr::HALT,
        ])
    );
}

#[test]
fn annote_test() {
    let code = r#"
        ANNOTE R0 1 2 black "test2"
        "#;
    let result = parse(code);
    assert_eq!(
        result,
        Ok(vec![Instr::ANNOTE(
            Reg::PC,
            1,
            2,
            Color::Black,
            "test2".to_string()
        ),])
    );

    let code = r#"
        ANNOTE R0 1 2 black "test2 abc"
        "#;
    let result = parse(code);
    assert_eq!(
        result,
        Ok(vec![Instr::ANNOTE(
            Reg::PC,
            1,
            2,
            Color::Black,
            "test2 abc".to_string()
        ),])
    );

    let code = r#"
        ANNOTE R0 1 2 black test2
        "#;
    let result = parse(code);
    assert_eq!(
        result,
        Ok(vec![Instr::ANNOTE(
            Reg::PC,
            1,
            2,
            Color::Black,
            "test2".to_string()
        ),])
    );
}

#[test]
fn empty_text_is_the_empty_program() {
    assert_eq!(parse(""), Ok(vec![]));
    assert_eq!(parse("  \n\t \r\n"), Ok(vec![]));
    assert_eq!(parse("// nothing here\n; nor here"), Ok(vec![]));
}

#[test]
fn mnemonics_in_any_case() {
    assert_eq!(
        parse("ldc 5 Ldc -7 hAlT"),
        Ok(vec![Instr::LDC(5), Instr::LDC(-7), Instr::HALT])
    );
}

#[test]
fn several_instructions_on_one_line() {
    assert_eq!(
        parse("LDC 41  LDC 1  ADD  TRAP 0  HALT"),
        Ok(vec![
            Instr::LDC(41),
            Instr::LDC(1),
            Instr::ADD,
            Instr::TRAP(0),
            Instr::HALT
        ])
    );
}

#[test]
fn comments_run_to_the_end_of_the_line() {
    let code = "// header\nLDC 1 ; one\n  // more\nADD // sum\nHALT ;done";
    assert_eq!(
        parse(code),
        Ok(vec![Instr::LDC(1), Instr::ADD, Instr::HALT])
    );
}

#[test]
fn a_single_slash_is_no_comment() {
    assert_eq!(
        parse("NOP / NOP"),
        error(ParseErrorKind::UnknownMnemonic, 4)
    );
}

#[test]
fn every_zero_operand_mnemonic() {
    let code = "ADD SUB MUL DIV MOD EQ NE LT LE GT GE NEG NOT RET UNLINK SWP JSR NOP HALT AND OR XOR STH";
    assert_eq!(
        parse(code),
        Ok(vec![
            Instr::ADD,
            Instr::SUB,
            Instr::MUL,
            Instr::DIV,
            Instr::MOD,
            Instr::EQ,
            Instr::NE,
            Instr::LT,
            Instr::LE,
            Instr::GT,
            Instr::GE,
            Instr::NEG,
            Instr::NOT,
            Instr::RET,
            Instr::UNLINK,
            Instr::SWP,
            Instr::JSR,
            Instr::NOP,
            Instr::HALT,
            Instr::AND,
            Instr::OR,
            Instr::XOR,
            Instr::STH,
        ])
    );
}

#[test]
fn every_integer_mnemonic() {
    let code = "STL 1 STS 2 STA 3 LDL 4 LDS 5 LDA 6 LDC 7 LDLA 8 LDSA 9 LDAA 10 LDH 11 LINK 12 AJS 13 TRAP 14 STMH 15";
    assert_eq!(
        parse(code),
        Ok(vec![
            Instr::STL(1),
            Instr::STS(2),
            Instr::STA(3),
            Instr::LDL(4),
            Instr::LDS(5),
            Instr::LDA(6),
            Instr::LDC(7),
            Instr::LDLA(8),
            Instr::LDSA(9),
            Instr::LDAA(10),
            Instr::LDH(11),
            Instr::LINK(12),
            Instr::AJS(13),
            Instr::TRAP(14),
            Instr::STMH(15),
        ])
    );
}

#[test]
fn register_mnemonics_and_register_names() {
    let code = "STR PC LDR SP SWPR MP STR HP STR RR STR R0 STR R1 STR R2 STR R3 STR R4 STR R5 STR R6 STR R7";
    assert_eq!(
        parse(code),
        Ok(vec![
            Instr::STR(Reg::PC),
            Instr::LDR(Reg::SP),
            Instr::SWPR(Reg::MP),
            Instr::STR(Reg::HP),
            Instr::STR(Reg::R5),
            Instr::STR(Reg::PC),
            Instr::STR(Reg::SP),
            Instr::STR(Reg::MP),
            Instr::STR(Reg::HP),
            Instr::STR(Reg::R4),
            Instr::STR(Reg::R5),
            Instr::STR(Reg::R6),
            Instr::STR(Reg::R7),
        ])
    );
}

#[test]
fn two_operand_mnemonics() {
    let code = "SWPRR R4 R5 LDRR R6 PC STMA 1 2 STML 3 4 STMS 5 6 LDMA 7 8 LDMH 9 10 LDML 11 12 LDMS 13 -14";
    assert_eq!(
        parse(code),
        Ok(vec![
            Instr::SWPRR(Reg::R4, Reg::R5),
            Instr::LDRR(Reg::R6, Reg::PC),
            Instr::STMA(1, 2),
            Instr::STML(3, 4),
            Instr::STMS(5, 6),
            Instr::LDMA(7, 8),
            Instr::LDMH(9, 10),
            Instr::LDML(11, 12),
            Instr::LDMS(13, -14),
        ])
    );
}

#[test]
fn branches_take_a_label_or_a_number() {
    assert_eq!(
        parse("BRA loop BRF done BRT _x1 BSR f BRA 4 BRF -2 BRT 0 BSR 17"),
        Ok(vec![
            Instr::Bra("loop".to_string()),
            Instr::Brf("done".to_string()),
            Instr::Brt("_x1".to_string()),
            Instr::Bsr("f".to_string()),
            Instr::BRA(4),
            Instr::BRF(-2),
            Instr::BRT(0),
            Instr::BSR(17),
        ])
    );
}

#[test]
fn a_label_may_stand_before_an_instruction() {
    assert_eq!(
        parse("start: LDC 1\nend:"),
        Ok(vec![
            Instr::LABEL("start".to_string()),
            Instr::LDC(1),
            Instr::LABEL("end".to_string()),
        ])
    );
}

#[test]
fn a_mnemonic_with_a_colon_is_a_label() {
    assert_eq!(
        parse("halt: HALT"),
        Ok(vec![Instr::LABEL("halt".to_string()), Instr::HALT])
    );
}

#[test]
fn integers_at_the_limits_of_a_word() {
    assert_eq!(
        parse("LDC 2147483647 LDC -2147483648 LDC 0 LDC -0"),
        Ok(vec![
            Instr::LDC(i32::MAX),
            Instr::LDC(i32::MIN),
            Instr::LDC(0),
            Instr::LDC(0)
        ])
    );
    assert_eq!(
        parse("LDC 2147483648"),
        error(ParseErrorKind::BadOperand, 4)
    );
    assert_eq!(
        parse("LDC -2147483649"),
        error(ParseErrorKind::BadOperand, 4)
    );
    assert_eq!(
        parse("LDC 99999999999999999999999999999999"),
        error(ParseErrorKind::BadOperand, 4)
    );
}

#[test]
fn a_zero_stands_alone() {
    assert_eq!(
        parse("LDC 007"),
        error(ParseErrorKind::UnknownMnemonic, 5)
    );
}

#[test]
fn unknown_mnemonic_is_an_error() {
    assert_eq!(parse("FOO"), error(ParseErrorKind::UnknownMnemonic, 0));
    assert_eq!(
        parse("NOP\n  JUMP 3"),
        error(ParseErrorKind::UnknownMnemonic, 6)
    );
    assert_eq!(parse("42"), error(ParseErrorKind::UnknownMnemonic, 0));
    assert_eq!(parse("ADDSUB"), error(ParseErrorKind::UnknownMnemonic, 0));
}

#[test]
fn missing_or_wrong_operand_is_an_error() {
    assert_eq!(parse("LDC"), error(ParseErrorKind::BadOperand, 3));
    assert_eq!(parse("LDC x"), error(ParseErrorKind::BadOperand, 4));
    assert_eq!(parse("LDC -"), error(ParseErrorKind::BadOperand, 4));
    assert_eq!(parse("STMA 1"), error(ParseErrorKind::BadOperand, 6));
    assert_eq!(parse("BRA \"x\""), error(ParseErrorKind::BadOperand, 4));
}

#[test]
fn unknown_register_is_an_error() {
    assert_eq!(parse("STR R8"), error(ParseErrorKind::UnknownRegister, 4));
    assert_eq!(parse("STR pc"), error(ParseErrorKind::UnknownRegister, 4));
    assert_eq!(parse("STR 1"), error(ParseErrorKind::UnknownRegister, 4));
    assert_eq!(parse("STR P"), error(ParseErrorKind::UnknownRegister, 4));
    assert_eq!(
        parse("SWPRR R4 5"),
        error(ParseErrorKind::UnknownRegister, 9)
    );
}

#[test]
fn unknown_colour_is_an_error() {
    assert_eq!(
        parse("ANNOTE SP 0 0 purple x"),
        error(ParseErrorKind::UnknownColor, 14)
    );
    assert_eq!(
        parse("ANNOTE SP 0 0 Black x"),
        error(ParseErrorKind::UnknownColor, 14)
    );
}

#[test]
fn every_colour() {
    let names = [
        ("black", Color::Black),
        ("blue", Color::Blue),
        ("cyan", Color::Cyan),
        ("darkGray", Color::DarkGray),
        ("gray", Color::Gray),
        ("green", Color::Green),
        ("lightGray", Color::LightGray),
        ("magenta", Color::Magenta),
        ("orange", Color::Orange),
        ("pink", Color::Pink),
        ("red", Color::Red),
        ("yellow", Color::Yellow),
    ];
    for (name, color) in names {
        let code = format!("annote MP -1 0 {} note", name);
        assert_eq!(
            parse(&code),
            Ok(vec![Instr::ANNOTE(
                Reg::MP,
                -1,
                0,
                color,
                "note".to_string()
            )])
        );
    }
}

#[test]
fn unterminated_text_is_an_error() {
    assert_eq!(
        parse("ANNOTE SP 0 0 red \"open"),
        error(ParseErrorKind::UnterminatedString, 18)
    );
    assert_eq!(
        parse("ANNOTE SP 0 0 red \"open\nHALT\""),
        error(ParseErrorKind::UnterminatedString, 18)
    );
}

#[test]
fn text_of_an_annotation_may_hold_any_character() {
    assert_eq!(
        parse("ANNOTE SP 0 0 red \"größe: 3 µm\" HALT"),
        Ok(vec![
            Instr::ANNOTE(Reg::SP, 0, 0, Color::Red, "größe: 3 µm".to_string()),
            Instr::HALT
        ])
    );
    assert_eq!(
        parse("ANNOTE SP 0 0 red"),
        Ok(vec![Instr::ANNOTE(
            Reg::SP,
            0,
            0,
            Color::Red,
            String::new()
        )])
    );
}

#[test]
fn position_counts_characters() {
    assert_eq!(
        parse("ANNOTE SP 0 0 red \"é\" ?"),
        error(ParseErrorKind::UnknownMnemonic, 22)
    );
}

#[test]
fn no_partial_program_on_error() {
    assert!(parse("LDC 1 LDC 2 BOGUS").is_err());
}

#[test]
fn white_space_of_any_kind_separates() {
    assert_eq!(
        parse("LDC\t1\r\nLDC\u{00A0}2\u{2028}ADD\u{3000}HALT\u{000B}"),
        Ok(vec![Instr::LDC(1), Instr::LDC(2), Instr::ADD, Instr::HALT])
    );
}

#[test]
fn an_operand_may_stand_on_the_next_line() {
    assert_eq!(
        parse("LDC\n  5\nSWPRR R4\nR5"),
        Ok(vec![Instr::LDC(5), Instr::SWPRR(Reg::R4, Reg::R5)])
    );
}

#[test]
fn no_comment_between_mnemonic_and_operand() {
    assert_eq!(
        parse("LDC ; five\n 5"),
        error(ParseErrorKind::BadOperand, 4)
    );
}

#[test]
fn a_comment_ends_at_any_line_break() {
    assert_eq!(
        parse("; one\rLDC 1 // two\u{0085}LDC 2 ; three\u{2029}HALT"),
        Ok(vec![Instr::LDC(1), Instr::LDC(2), Instr::HALT])
    );
}

#[test]
fn operands_need_no_space_where_none_is_needed() {
    assert_eq!(
        parse("LDC-5 LDC 1LDC 2"),
        Ok(vec![Instr::LDC(-5), Instr::LDC(1), Instr::LDC(2)])
    );
    assert_eq!(
        parse("SWPRR R4R5"),
        Ok(vec![Instr::SWPRR(Reg::R4, Reg::R5)])
    );
}

#[test]
fn a_colon_apart_from_the_name_defines_no_label() {
    assert_eq!(
        parse("main :"),
        error(ParseErrorKind::UnknownMnemonic, 0)
    );
    assert_eq!(parse("NOP :"), error(ParseErrorKind::UnknownMnemonic, 4));
}

#[test]
fn a_bare_text_may_hold_a_tab_but_no_space() {
    assert_eq!(
        parse("ANNOTE SP 0 0 red a\tb c:"),
        Ok(vec![
            Instr::ANNOTE(Reg::SP, 0, 0, Color::Red, "a\tb".to_string()),
            Instr::LABEL("c".to_string())
        ])
    );
}
