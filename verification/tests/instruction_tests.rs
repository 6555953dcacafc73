use ssmrs::error::{LinkError, RuntimeError};
use ssmrs::linker::{convert_code, find_label, fix_jumps, layout, remove_annote};
use ssmrs::text::decimal_string;
use ssmrs::{parse, Color, Cpu, Instr, Reg, RegisterFile, MAX_STACK_SIZE};

fn resolved_samples() -> Vec<Instr> {
    vec![
        Instr::STR(Reg::R7),
        Instr::STL(-1),
        Instr::STS(2),
        Instr::STA(3),
        Instr::LDR(Reg::MP),
        Instr::LDL(5),
        Instr::LDS(-6),
        Instr::LDA(7),
        Instr::LDC(i32::MIN),
        Instr::LDLA(9),
        Instr::LDSA(10),
        Instr::LDAA(11),
        Instr::BRA(-12),
        Instr::BRF(13),
        Instr::BRT(14),
        Instr::BSR(15),
        Instr::ADD,
        Instr::SUB,
        Instr::MUL,
        Instr::DIV,
        Instr::MOD,
        Instr::EQ,
        Instr::NE,
        Instr::LT,
        Instr::LE,
        Instr::GT,
        Instr::GE,
        Instr::AND,
        Instr::OR,
        Instr::XOR,
        Instr::NEG,
        Instr::NOT,
        Instr::RET,
        Instr::UNLINK,
        Instr::LINK(3),
        Instr::AJS(-2),
        Instr::SWP,
        Instr::SWPR(Reg::HP),
        Instr::SWPRR(Reg::R4, Reg::R5),
        Instr::LDRR(Reg::PC, Reg::SP),
        Instr::JSR,
        Instr::TRAP(1),
        Instr::NOP,
        Instr::HALT,
        Instr::STH,
        Instr::LDH(4),
        Instr::STMA(1, 2),
        Instr::STMH(3),
        Instr::STML(4, 5),
        Instr::STMS(6, 7),
        Instr::LDMA(8, 9),
        Instr::LDMH(10, 11),
        Instr::LDML(12, 13),
        Instr::LDMS(14, i32::MAX),
    ]
}

#[test]
fn opcodes_follow_the_table() {
    let expected: Vec<Vec<i32>> = vec![
        vec![0x00, 7],
        vec![0x01, -1],
        vec![0x02, 2],
        vec![0x03, 3],
        vec![0x04, 2],
        vec![0x05, 5],
        vec![0x06, -6],
        vec![0x07, 7],
        vec![0x08, i32::MIN],
        vec![0x09, 9],
        vec![0x0A, 10],
        vec![0x0B, 11],
        vec![0x0C, -12],
        vec![0x0D, 13],
        vec![0x0E, 14],
        vec![0x0F, 15],
        vec![0x10],
        vec![0x11],
        vec![0x12],
        vec![0x13],
        vec![0x14],
        vec![0x15],
        vec![0x16],
        vec![0x17],
        vec![0x18],
        vec![0x19],
        vec![0x1A],
        vec![0x29],
        vec![0x2A],
        vec![0x2B],
        vec![0x1B],
        vec![0x1C],
        vec![0x1D],
        vec![0x1E],
        vec![0x1F, 3],
        vec![0x20, -2],
        vec![0x21],
        vec![0x22, 3],
        vec![0x23, 4, 5],
        vec![0x24, 0, 1],
        vec![0x25],
        vec![0x26, 1],
        vec![0x27],
        vec![0x28],
        vec![0x2C],
        vec![0x2D, 4],
        vec![0x2E, 1, 2],
        vec![0x2F, 3],
        vec![0x30, 4, 5],
        vec![0x31, 6, 7],
        vec![0x32, 8, 9],
        vec![0x33, 10, 11],
        vec![0x34, 12, 13],
        vec![0x35, 14, i32::MAX],
    ];
    let samples = resolved_samples();
    assert_eq!(samples.len(), expected.len());
    for (i, words) in samples.iter().zip(expected.iter()) {
        assert_eq!(&i.convert(), words);
        assert_eq!(i.instr_size(), words.len());
    }
}

#[test]
fn decode_after_encode_is_identity() {
    for i in resolved_samples() {
        let mut words = i.convert();
        words.push(-77);
        words.push(-78);
        assert_eq!(Instr::decode(words[0], words[1], words[2]), Ok(i.clone()));
        assert_eq!(i.copy(), i);
    }
}

#[test]
fn decode_rejects_what_is_no_instruction() {
    assert_eq!(Instr::decode(0x36, 0, 0), Err(RuntimeError::InvalidOpcode(0x36)));
    assert_eq!(Instr::decode(-1, 0, 0), Err(RuntimeError::InvalidOpcode(-1)));
    assert_eq!(Instr::decode(0x00, 8, 0), Err(RuntimeError::InvalidRegister(8)));
    assert_eq!(Instr::decode(0x23, 9, -1), Err(RuntimeError::InvalidRegister(9)));
    assert_eq!(Instr::decode(0x24, 1, -1), Err(RuntimeError::InvalidRegister(-1)));
    assert_eq!(Instr::decode(0x10, 99, 99), Ok(Instr::ADD));
}

#[test]
fn sizes_of_pseudo_instructions() {
    assert_eq!(Instr::LABEL("x".to_string()).instr_size(), 0);
    assert_eq!(
        Instr::ANNOTE(Reg::SP, 0, 0, Color::Red, "t".to_string()).instr_size(),
        0
    );
    assert_eq!(Instr::Bra("x".to_string()).instr_size(), 2);
    assert_eq!(Instr::Brf("x".to_string()).instr_size(), 2);
    assert_eq!(Instr::Brt("x".to_string()).instr_size(), 2);
    assert_eq!(Instr::Bsr("x".to_string()).instr_size(), 2);
}

#[test]
fn name_and_params_lists_tag_and_operands() {
    assert_eq!(Instr::ADD.name_and_params(), vec!["ADD"]);
    assert_eq!(Instr::LDC(-41).name_and_params(), vec!["LDC", "-41"]);
    assert_eq!(Instr::STR(Reg::R5).name_and_params(), vec!["STR", "R5"]);
    assert_eq!(
        Instr::SWPRR(Reg::PC, Reg::R7).name_and_params(),
        vec!["SWPRR", "PC", "R7"]
    );
    assert_eq!(
        Instr::Bra("loop".to_string()).name_and_params(),
        vec!["Bra", "loop"]
    );
    assert_eq!(Instr::BRA(3).name_and_params(), vec!["BRA", "3"]);
    assert_eq!(
        Instr::Bsr("f".to_string()).name_and_params(),
        vec!["Bsr", "f"]
    );
    assert_eq!(
        Instr::LABEL("main".to_string()).name_and_params(),
        vec!["LABEL", "main"]
    );
    assert_eq!(
        Instr::ANNOTE(Reg::MP, 1, -2, Color::DarkGray, "note".to_string()).name_and_params(),
        vec!["ANNOTE", "MP", "1", "-2", "darkGray", "note"]
    );
}

#[test]
fn instructions_as_text() {
    assert_eq!(Instr::HALT.to_string(), "HALT");
    assert_eq!(Instr::LDC(41).to_string(), "LDC 41");
    assert_eq!(Instr::AJS(-2).to_string(), "AJS -2");
    assert_eq!(Instr::LDR(Reg::HP).to_string(), "LDR HP");
    assert_eq!(Instr::LDRR(Reg::R4, Reg::SP).to_string(), "LDRR R4 SP");
    assert_eq!(Instr::Brt("again".to_string()).to_string(), "BRT again");
    assert_eq!(Instr::LABEL("again".to_string()).to_string(), "again:");
    assert_eq!(
        Instr::ANNOTE(Reg::SP, 0, 1, Color::LightGray, "x y".to_string()).to_string(),
        "ANNOTE SP 0 1 lightGray x y"
    );
    assert_eq!(Instr::LDMS(1, 2).trace_string(), "LDMS(1, 2)");
    assert_eq!(Instr::NOP.trace_string(), "NOP");
    assert_eq!(Instr::LDC(5).mnemonic(), "LDC");
    assert_eq!(Instr::Brf("x".to_string()).mnemonic(), "BRF");
}

#[test]
fn printing_then_parsing_gives_the_program_back() {
    let code = resolved_samples();
    let mut text = String::new();
    for i in &code {
        text.push_str(&i.to_string());
        text.push('\n');
    }
    assert_eq!(parse(&text), Ok(code));
}

#[test]
fn decimal_text() {
    assert_eq!(decimal_string(0), "0");
    assert_eq!(decimal_string(7), "7");
    assert_eq!(decimal_string(10), "10");
    assert_eq!(decimal_string(-1), "-1");
    assert_eq!(decimal_string(1203), "1203");
    assert_eq!(decimal_string(i32::MAX), "2147483647");
    assert_eq!(decimal_string(i32::MIN), "-2147483648");
}

#[test]
fn registers_by_name_and_ordinal() {
    let all = [
        Reg::PC,
        Reg::SP,
        Reg::MP,
        Reg::HP,
        Reg::R4,
        Reg::R5,
        Reg::R6,
        Reg::R7,
    ];
    let names = ["PC", "SP", "MP", "HP", "R4", "R5", "R6", "R7"];
    for (n, r) in all.iter().enumerate() {
        assert_eq!(r.ordinal(), n as i32);
        assert_eq!(Reg::from_ordinal(n as i32), Some(*r));
        assert_eq!(r.name(), names[n]);
        assert_eq!(r.to_string(), names[n]);
    }
    assert_eq!(Reg::from_ordinal(8), None);
    assert_eq!(Reg::from_ordinal(-1), None);
}

#[test]
fn register_file_starts_with_hp_at_the_heap() {
    let regs = RegisterFile::new();
    assert_eq!(
        regs,
        RegisterFile {
            pc: 0,
            sp: 0,
            mp: 0,
            hp: MAX_STACK_SIZE as i32,
            r4: 0,
            r5: 0,
            r6: 0,
            r7: 0
        }
    );
    assert_eq!(RegisterFile::default().hp, 0);
}

#[test]
fn register_file_by_name_and_ordinal() {
    let mut regs = RegisterFile::new();
    regs.set(Reg::R6, 66);
    regs.set(Reg::PC, 11);
    assert_eq!(regs.r6, 66);
    assert_eq!(regs.get(Reg::R6), 66);
    assert_eq!(regs.get(Reg::PC), 11);
    assert_eq!(regs.get(Reg::HP), 2000);
    assert_eq!(regs.get_ordinal(6), Some(66));
    assert_eq!(regs.get_ordinal(3), Some(2000));
    assert_eq!(regs.get_ordinal(8), None);
    assert_eq!(regs.get_ordinal(-1), None);
    assert!(regs.set_ordinal(7, 77));
    assert_eq!(regs.r7, 77);
    let before = regs;
    assert!(!regs.set_ordinal(8, 1));
    assert_eq!(regs, before);
}

#[test]
fn colours_by_name() {
    assert_eq!(Color::DarkGray.name(), "darkGray");
    assert_eq!(Color::Yellow.to_string(), "yellow");
}

#[test]
fn linking_resolves_forward_and_backward() {
    let mut code = parse(
        "LDC 0 start: LDC 1 ADD LDS 0 LDC 3 LT BRT start BRA end LDS 0 end: TRAP 0 HALT",
    )
    .unwrap();
    fix_jumps(&mut code).unwrap();
    assert_eq!(
        code,
        vec![
            Instr::LDC(0),
            Instr::LDC(1),
            Instr::ADD,
            Instr::LDS(0),
            Instr::LDC(3),
            Instr::LT,
            Instr::BRT(-10),
            Instr::BRA(2),
            Instr::LDS(0),
            Instr::TRAP(0),
            Instr::HALT,
        ]
    );
}

#[test]
fn linking_each_kind_of_branch() {
    let mut code = parse("a: BRA a BRF a BRT a BSR a").unwrap();
    fix_jumps(&mut code).unwrap();
    assert_eq!(
        code,
        vec![
            Instr::BRA(-2),
            Instr::BRF(-4),
            Instr::BRT(-6),
            Instr::BSR(-8)
        ]
    );
}

#[test]
fn linking_keeps_annotations_and_their_removal_keeps_the_rest() {
    let mut code = parse("BRA e ANNOTE SP 0 0 red x e: HALT").unwrap();
    fix_jumps(&mut code).unwrap();
    assert_eq!(
        code,
        vec![
            Instr::BRA(0),
            Instr::ANNOTE(Reg::SP, 0, 0, Color::Red, "x".to_string()),
            Instr::HALT
        ]
    );
    remove_annote(&mut code);
    assert_eq!(code, vec![Instr::BRA(0), Instr::HALT]);
}

#[test]
fn the_last_definition_of_a_label_counts() {
    let mut code = parse("x: NOP x: NOP BRA x").unwrap();
    assert_eq!(find_label(&code, &"x".to_string()), Some(2));
    assert_eq!(find_label(&code, &"y".to_string()), None);
    fix_jumps(&mut code).unwrap();
    assert_eq!(code, vec![Instr::NOP, Instr::NOP, Instr::BRA(-3)]);
}

#[test]
fn undefined_label_is_a_link_error() {
    let original = parse("l: BRA l BRF nowhere BRT elsewhere").unwrap();
    let mut code = original.clone();
    assert_eq!(
        fix_jumps(&mut code),
        Err(LinkError::UndefinedLabel("nowhere".to_string()))
    );
    assert_eq!(code, original);
    let mut cpu = Cpu::new(0);
    assert_eq!(
        cpu.load_code(original),
        Err(LinkError::UndefinedLabel("nowhere".to_string()))
    );
    assert_eq!(cpu.read_registers().sp, 0);
}

#[test]
fn a_program_larger_than_the_memory_is_refused() {
    let mut code: Vec<Instr> = Vec::new();
    for _ in 0..1000 {
        code.push(Instr::LDC(1));
    }
    assert!(layout(&code).is_some());
    let mut cpu = Cpu::new(0);
    assert_eq!(cpu.load_code(code.clone()), Ok(()));
    assert_eq!(cpu.read_registers().sp, 2000);
    code.push(Instr::NOP);
    assert!(layout(&code).is_none());
    assert_eq!(fix_jumps(&mut code), Err(LinkError::ProgramTooLarge));
    assert_eq!(code.len(), 1001);
    code.push(Instr::Bra("nowhere".to_string()));
    assert_eq!(cpu.load_code(code), Err(LinkError::ProgramTooLarge));
    assert_eq!(cpu.read_registers().sp, 2000);
}

#[test]
fn layout_gives_the_address_of_each_instruction() {
    let code = parse("BSR f HALT f: LDC 7 TRAP 0 RET").unwrap();
    assert_eq!(layout(&code), Some(vec![0, 2, 3, 3, 5, 7, 8]));
}

#[test]
fn the_image_is_as_long_as_the_sizes_add_up_to() {
    let code = resolved_samples();
    let total: usize = code.iter().map(|i| i.instr_size()).sum();
    let words = convert_code(&code);
    assert_eq!(words.len(), total);
    assert_eq!(&words[0..6], &[0x00, 7, 0x01, -1, 0x02, 2]);
}

#[test]
fn the_listing_of_a_program_parses_as_the_program() {
    let code = resolved_samples();
    let text = ssmrs::print::print_code(&code);
    assert!(text.starts_with("STR R7\nSTL -1\nSTS 2\n"));
    assert!(text.ends_with("LDMS 14 2147483647\n"));
    assert_eq!(parse(&text), Ok(code));
    assert_eq!(ssmrs::print::print_code(&Vec::new()), "");
}

#[test]
fn a_branch_lands_on_its_label() {
    let code = parse("LDC 1 a: NOP BRA c b: HALT c: BSR b HALT").unwrap();
    let starts = layout(&code).unwrap();
    let mut cpu = Cpu::new(0);
    cpu.load_code(code.clone()).unwrap();
    assert_eq!(cpu.step(), Ok(true));
    assert_eq!(cpu.step(), Ok(true));
    assert_eq!(cpu.read_registers().pc as usize, starts[3]);
    assert_eq!(cpu.step(), Ok(true));
    assert_eq!(cpu.read_registers().pc as usize, starts[find_label(&code, &"c".to_string()).unwrap()]);
    assert_eq!(cpu.step(), Ok(true));
    assert_eq!(cpu.read_registers().pc as usize, starts[find_label(&code, &"b".to_string()).unwrap()]);
    assert_eq!(cpu.step(), Ok(false));
}
