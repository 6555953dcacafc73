use ssmrs::error::RuntimeError;
use ssmrs::{parse, Cpu, Instr, Output, OutputKind, MAX_STACK_SIZE};

fn texts(lines: &[Output]) -> Vec<String> {
    lines.iter().map(|line| line.text.clone()).collect()
}

/// Parses, loads and runs a program for at most `limit` steps. Returns what
/// reached the trap sink and whether the program halted.
fn run_for(source: &str, limit: usize) -> (Vec<String>, bool, Cpu) {
    let code = parse(source).unwrap();
    let mut cpu = Cpu::new(0);
    cpu.load_code(code).unwrap();
    let mut halted = false;
    for _ in 0..limit {
        if !cpu.step().unwrap() {
            halted = true;
            break;
        }
    }
    let out = texts(&cpu.take_output());
    (out, halted, cpu)
}

fn run(source: &str) -> Vec<String> {
    let (out, halted, _) = run_for(source, 100_000);
    assert!(halted);
    out
}

#[test]
fn adding_prints_the_sum() {
    assert_eq!(run("LDC 41  LDC 1  ADD  TRAP 0  HALT"), vec!["42"]);
}

#[test]
fn trap_1_prints_a_character() {
    assert_eq!(run("LDC 65  TRAP 1  HALT"), vec!["A"]);
}

#[test]
fn subtraction_takes_the_second_pop_as_left_operand() {
    assert_eq!(run("LDC 5  LDC 3  SUB  TRAP 0  HALT"), vec!["2"]);
}

#[test]
fn less_than_gives_minus_one_for_true() {
    assert_eq!(run("LDC 1  LDC 2  LT  TRAP 0  HALT"), vec!["-1"]);
}

#[test]
fn a_loop_counts_to_three() {
    let source = "LDC 0 start: LDC 1 ADD LDS 0 LDC 3 LT BRT start LDS 0 TRAP 0 HALT";
    assert_eq!(run(source), vec!["3"]);
}

#[test]
fn a_loop_that_reads_below_its_counter_never_ends() {
    let source = "LDC 0 start: LDC 1 ADD LDS -1 LDC 3 LT BRT start LDS -1 TRAP 0 HALT";
    let (out, halted, cpu) = run_for(source, 10_000);
    assert!(!halted);
    assert!(out.is_empty());
    // the counter went on counting; the cell below it was never written
    assert!(cpu.read_memory()[18] > 3);
    assert_eq!(cpu.read_memory()[17], 0);
}

#[test]
fn call_and_return() {
    assert_eq!(run("BSR f HALT f: LDC 7 TRAP 0 RET"), vec!["7"]);
}

#[test]
fn after_load_pc_is_zero_and_sp_is_the_length() {
    let code = parse("LDC 41 LDC 1 ADD TRAP 0 HALT").unwrap();
    let mut cpu = Cpu::new(0);
    cpu.load_code(code).unwrap();
    assert_eq!(cpu.read_registers().pc, 0);
    assert_eq!(cpu.read_registers().sp, 8);
    assert_eq!(cpu.read_registers().mp, 0);
    assert_eq!(cpu.read_registers().hp, MAX_STACK_SIZE as i32);
    assert_eq!(&cpu.read_memory()[0..9], &[8, 41, 8, 1, 0x10, 0x26, 0, 0x28, 0]);
    assert_eq!(cpu.read_memory().len(), MAX_STACK_SIZE);
}

#[test]
fn load_resets_the_machine() {
    let mut cpu = Cpu::new(0);
    cpu.load_code(parse("LDC 9 STH LDC 1 LDC 2 HALT").unwrap()).unwrap();
    while cpu.step().unwrap() {}
    assert!(!cpu.read_heap().is_empty());
    cpu.load_code(vec![Instr::HALT]).unwrap();
    assert_eq!(cpu.read_registers().pc, 0);
    assert_eq!(cpu.read_registers().sp, 1);
    assert_eq!(cpu.read_registers().hp, MAX_STACK_SIZE as i32);
    assert!(cpu.read_heap().is_empty());
    assert_eq!(cpu.read_memory()[0], 0x28);
    assert!(cpu.read_memory()[1..].iter().all(|w| *w == 0));
}

#[test]
fn branch_to_the_next_instruction() {
    assert_eq!(run("BRA next next: LDC 1 TRAP 0 HALT"), vec!["1"]);
    let mut code = parse("BRA next next: HALT").unwrap();
    ssmrs::linker::fix_jumps(&mut code).unwrap();
    assert_eq!(code, vec![Instr::BRA(0), Instr::HALT]);
}

#[test]
fn ajs_with_negative_operand_shrinks_the_stack() {
    let (out, halted, cpu) = run_for("LDC 1 LDC 2 LDC 3 AJS -2 TRAP 0 HALT", 100);
    assert!(halted);
    assert_eq!(out, vec!["1"]);
    assert_eq!(cpu.read_registers().sp, 11);
}

#[test]
fn link_zero_then_unlink_restores_the_frame() {
    let (_, halted, cpu) = run_for("LDC 5 STR MP LINK 0 UNLINK HALT", 100);
    assert!(halted);
    assert_eq!(cpu.read_registers().mp, 5);
    assert_eq!(cpu.read_registers().sp, 8);
}

#[test]
fn link_reserves_locals() {
    let (_, halted, cpu) = run_for("LINK 3 HALT", 100);
    assert!(halted);
    assert_eq!(cpu.read_registers().mp, 4);
    assert_eq!(cpu.read_registers().sp, 7);
    assert_eq!(cpu.read_memory()[4], 0);
}

#[test]
fn trap_1_with_invalid_scalar_is_dropped() {
    assert_eq!(run("LDC 55296 TRAP 1 LDC -1 TRAP 1 LDC 1114112 TRAP 1 HALT"), Vec::<String>::new());
    assert_eq!(run("LDC 55295 TRAP 1 LDC 57344 TRAP 1 LDC 1114111 TRAP 1 HALT"),
        vec!["\u{D7FF}", "\u{E000}", "\u{10FFFF}"]);
}

#[test]
fn sth_then_ldh_gives_the_value_back() {
    let (out, halted, cpu) = run_for("LDC 99 STH LDH 0 TRAP 0 HALT", 100);
    assert!(halted);
    assert_eq!(out, vec!["99"]);
    assert_eq!(cpu.read_registers().hp, MAX_STACK_SIZE as i32 + 1);
    assert_eq!(cpu.read_heap(), &[99]);
}

#[test]
fn sth_pushes_the_address() {
    assert_eq!(run("LDC 99 STH TRAP 0 LDC 98 STH TRAP 0 HALT"), vec!["2000", "2001"]);
}

#[test]
fn reading_the_heap_beyond_its_extent_gives_zero() {
    assert_eq!(run("LDC 5000 LDA 0 TRAP 0 LDC -3 LDA 0 TRAP 0 HALT"), vec!["0", "0"]);
}

#[test]
fn writing_far_into_the_heap_fills_with_zeros() {
    let (out, _, cpu) = run_for("LDC 7 LDC 2010 STA 0 LDC 2005 LDA 0 TRAP 0 LDC 2010 LDA 0 TRAP 0 HALT", 100);
    assert_eq!(out, vec!["0", "7"]);
    assert_eq!(cpu.read_heap().len(), 11);
}

#[test]
fn arithmetic() {
    assert_eq!(run("LDC 6 LDC 7 MUL TRAP 0 HALT"), vec!["42"]);
    assert_eq!(run("LDC 7 LDC 2 DIV TRAP 0 HALT"), vec!["3"]);
    assert_eq!(run("LDC -7 LDC 2 DIV TRAP 0 HALT"), vec!["-3"]);
    assert_eq!(run("LDC 7 LDC -2 DIV TRAP 0 HALT"), vec!["-3"]);
    assert_eq!(run("LDC -7 LDC -2 DIV TRAP 0 HALT"), vec!["3"]);
    assert_eq!(run("LDC 7 LDC 2 MOD TRAP 0 HALT"), vec!["1"]);
    assert_eq!(run("LDC -7 LDC 2 MOD TRAP 0 HALT"), vec!["-1"]);
    assert_eq!(run("LDC 7 LDC -2 MOD TRAP 0 HALT"), vec!["1"]);
    assert_eq!(run("LDC 5 NEG TRAP 0 HALT"), vec!["-5"]);
}

#[test]
fn arithmetic_wraps_around() {
    assert_eq!(run("LDC 2147483647 LDC 1 ADD TRAP 0 HALT"), vec!["-2147483648"]);
    assert_eq!(run("LDC -2147483648 LDC 1 SUB TRAP 0 HALT"), vec!["2147483647"]);
    assert_eq!(run("LDC 65536 LDC 65536 MUL TRAP 0 HALT"), vec!["0"]);
    assert_eq!(run("LDC -2147483648 NEG TRAP 0 HALT"), vec!["-2147483648"]);
    assert_eq!(run("LDC -2147483648 LDC -1 DIV TRAP 0 HALT"), vec!["-2147483648"]);
    assert_eq!(run("LDC -2147483648 LDC -1 MOD TRAP 0 HALT"), vec!["0"]);
}

#[test]
fn comparisons_give_zero_or_minus_one() {
    assert_eq!(run("LDC 2 LDC 2 EQ TRAP 0 LDC 2 LDC 3 EQ TRAP 0 HALT"), vec!["-1", "0"]);
    assert_eq!(run("LDC 2 LDC 2 NE TRAP 0 LDC 2 LDC 3 NE TRAP 0 HALT"), vec!["0", "-1"]);
    assert_eq!(run("LDC 2 LDC 1 LT TRAP 0 LDC 2 LDC 2 LE TRAP 0 HALT"), vec!["0", "-1"]);
    assert_eq!(run("LDC 2 LDC 1 GT TRAP 0 LDC 1 LDC 2 GE TRAP 0 HALT"), vec!["-1", "0"]);
    assert_eq!(run("LDC 0 NOT TRAP 0 LDC 7 NOT TRAP 0 HALT"), vec!["-1", "0"]);
}

#[test]
fn logic_is_bitwise() {
    assert_eq!(run("LDC 12 LDC 10 AND TRAP 0 HALT"), vec!["8"]);
    assert_eq!(run("LDC 12 LDC 10 OR TRAP 0 HALT"), vec!["14"]);
    assert_eq!(run("LDC 12 LDC 10 XOR TRAP 0 HALT"), vec!["6"]);
    assert_eq!(run("LDC -1 LDC 5 AND TRAP 0 HALT"), vec!["5"]);
}

#[test]
fn stores_and_loads() {
    // STS addresses from the stack pointer as it is before the pop
    assert_eq!(run("LDC 1 LDC 2 LDC 9 STS -2 TRAP 0 TRAP 0 HALT"), vec!["2", "9"]);
    assert_eq!(run("LDC 4 LDC 1500 STA 1 LDC 1501 LDA 0 TRAP 0 HALT"), vec!["4"]);
    assert_eq!(run("LDR SP STR MP LDC 8 STL 5 LDL 5 TRAP 0 LDLA 5 TRAP 0 HALT"), vec!["8", "22"]);
    assert_eq!(run("LDC 3 LDS 0 ADD TRAP 0 HALT"), vec!["6"]);
    assert_eq!(run("LDSA 0 TRAP 0 LDC 10 LDAA 5 TRAP 0 HALT"), vec!["11", "15"]);
}

#[test]
fn swaps_and_register_moves() {
    assert_eq!(run("LDC 1 LDC 2 SWP TRAP 0 TRAP 0 HALT"), vec!["1", "2"]);
    assert_eq!(run("LDC 5 STR R4 LDC 6 SWPR R4 TRAP 0 LDR R4 TRAP 0 HALT"), vec!["5", "6"]);
    assert_eq!(
        run("LDC 5 STR R4 LDC 6 STR R5 SWPRR R4 R5 LDR R4 TRAP 0 LDR R5 TRAP 0 HALT"),
        vec!["6", "5"]
    );
    assert_eq!(run("LDC 5 STR R4 LDRR R6 R4 LDR R6 TRAP 0 HALT"), vec!["5"]);
}

#[test]
fn conditional_branches() {
    assert_eq!(run("LDC 0 BRF yes LDC 1 TRAP 0 yes: LDC 2 TRAP 0 HALT"), vec!["2"]);
    assert_eq!(run("LDC 5 BRF yes LDC 1 TRAP 0 yes: LDC 2 TRAP 0 HALT"), vec!["1", "2"]);
    assert_eq!(run("LDC 5 BRT yes LDC 1 TRAP 0 yes: LDC 2 TRAP 0 HALT"), vec!["2"]);
    assert_eq!(run("LDC 0 BRT yes LDC 1 TRAP 0 yes: LDC 2 TRAP 0 HALT"), vec!["1", "2"]);
}

#[test]
fn jsr_jumps_to_the_popped_address() {
    assert_eq!(run("LDC 4 JSR HALT LDC 7 TRAP 0 RET"), vec!["7"]);
}

#[test]
fn division_by_zero_is_a_fault() {
    let mut cpu = Cpu::new(0);
    cpu.load_code(parse("LDC 1 LDC 0 DIV HALT").unwrap()).unwrap();
    assert_eq!(cpu.step(), Ok(true));
    assert_eq!(cpu.step(), Ok(true));
    let before = *cpu.read_registers();
    assert_eq!(cpu.step(), Err(RuntimeError::DivisionByZero));
    assert_eq!(*cpu.read_registers(), before);
    cpu.load_code(parse("LDC 1 LDC 0 MOD HALT").unwrap()).unwrap();
    assert_eq!(cpu.step(), Ok(true));
    assert_eq!(cpu.step(), Ok(true));
    assert_eq!(cpu.step(), Err(RuntimeError::DivisionByZero));
}

#[test]
fn invalid_opcode_is_a_fault() {
    let mut cpu = Cpu::new(0);
    cpu.load_code(vec![Instr::LDC(77), Instr::STR(ssmrs::Reg::PC)]).unwrap();
    assert_eq!(cpu.step(), Ok(true));
    assert_eq!(cpu.step(), Ok(true));
    assert_eq!(cpu.read_registers().pc, 77);
    cpu.set_mem(77, 0x36).unwrap();
    assert_eq!(cpu.step(), Err(RuntimeError::InvalidOpcode(0x36)));
    cpu.set_mem(77, -1).unwrap();
    assert_eq!(cpu.step(), Err(RuntimeError::InvalidOpcode(-1)));
    assert_eq!(cpu.read_registers().pc, 77);
}

#[test]
fn invalid_register_is_a_fault() {
    let mut cpu = Cpu::new(0);
    cpu.load_code(vec![Instr::HALT]).unwrap();
    cpu.set_mem(0, 0x04).unwrap();
    cpu.set_mem(1, 8).unwrap();
    assert_eq!(cpu.step(), Err(RuntimeError::InvalidRegister(8)));
    cpu.set_mem(0, 0x23).unwrap();
    cpu.set_mem(1, 7).unwrap();
    cpu.set_mem(2, -1).unwrap();
    assert_eq!(cpu.step(), Err(RuntimeError::InvalidRegister(-1)));
}

#[test]
fn unknown_trap_is_a_fault() {
    let mut cpu = Cpu::new(0);
    cpu.load_code(parse("LDC 1 TRAP 2 HALT").unwrap()).unwrap();
    assert_eq!(cpu.step(), Ok(true));
    assert_eq!(cpu.step(), Err(RuntimeError::UnknownTrap(2)));
    assert_eq!(cpu.read_registers().pc, 2);
    assert_eq!(cpu.read_registers().sp, 6);
}

#[test]
fn reserved_instructions_are_unsupported() {
    let cases = [
        ("STMA 1 2", 0x2E),
        ("STMH 1", 0x2F),
        ("STML 1 2", 0x30),
        ("STMS 1 2", 0x31),
        ("LDMA 1 2", 0x32),
        ("LDMH 1 2", 0x33),
        ("LDML 1 2", 0x34),
        ("LDMS 1 2", 0x35),
    ];
    for (source, opcode) in cases {
        let mut cpu = Cpu::new(0);
        cpu.load_code(parse(source).unwrap()).unwrap();
        assert_eq!(
            cpu.step(),
            Err(RuntimeError::UnsupportedInstruction(opcode))
        );
        assert_eq!(cpu.read_registers().pc, 0);
    }
}

#[test]
fn writing_below_address_zero_is_a_fault() {
    let mut cpu = Cpu::new(0);
    cpu.load_code(parse("LDC 1 LDC -5 STA 0 HALT").unwrap()).unwrap();
    assert_eq!(cpu.step(), Ok(true));
    assert_eq!(cpu.step(), Ok(true));
    let before = *cpu.read_registers();
    assert_eq!(cpu.step(), Err(RuntimeError::InvalidAddress(-5)));
    assert_eq!(*cpu.read_registers(), before);
    assert_eq!(cpu.set_mem(-1, 3), Err(RuntimeError::InvalidAddress(-1)));
}

#[test]
fn push_then_pop_gives_the_value_and_the_stack_back() {
    let mut cpu = Cpu::new(0);
    cpu.load_code(vec![Instr::HALT]).unwrap();
    let before = *cpu.read_registers();
    cpu.push_stack(1234).unwrap();
    assert_eq!(cpu.read_registers().sp, before.sp + 1);
    assert_eq!(cpu.pop_stack(), 1234);
    assert_eq!(*cpu.read_registers(), before);
}

#[test]
fn the_stack_may_grow_into_the_heap() {
    let mut cpu = Cpu::new(0);
    cpu.load_code(vec![Instr::HALT]).unwrap();
    cpu.set_reg(ssmrs::Reg::SP, MAX_STACK_SIZE as i32 - 1);
    cpu.push_stack(5).unwrap();
    assert_eq!(cpu.read_heap(), &[5]);
    assert_eq!(cpu.pop_stack(), 5);
}

#[test]
fn verbosity_one_reports_each_instruction() {
    let mut cpu = Cpu::new(1);
    cpu.load_code(parse("LDC 41 STR R4 SWPRR R4 R5 HALT").unwrap()).unwrap();
    while cpu.step().unwrap() {}
    assert_eq!(
        texts(&cpu.take_output()),
        vec![
            "Executing LDC(41)",
            "Executing STR(R4)",
            "Executing SWPRR(R4, R5)",
            "Executing HALT"
        ]
    );
    assert!(cpu.take_output().is_empty());
}

#[test]
fn verbosity_two_dumps_registers_and_stack() {
    let mut cpu = Cpu::new(2);
    assert_eq!(cpu.verbosity(), 2);
    cpu.load_code(parse("LDC -3 HALT").unwrap()).unwrap();
    assert_eq!(cpu.step(), Ok(true));
    assert_eq!(
        texts(cpu.read_output()),
        vec![
            "Registers: RegisterFile { pc: 0, sp: 3, mp: 0, hp: 2000, r4: 0, r5: 0, r6: 0, r7: 0 }",
            "Memory: [8, -3, 40, 0]",
            "Executing LDC(-3)",
        ]
    );
    assert!(cpu
        .read_output()
        .iter()
        .all(|line| line.kind == OutputKind::Report));
}

#[test]
fn the_report_stays_when_the_instruction_fails() {
    let mut cpu = Cpu::new(1);
    cpu.load_code(parse("LDC 0 LDC 0 DIV").unwrap()).unwrap();
    assert_eq!(cpu.step(), Ok(true));
    assert_eq!(cpu.step(), Ok(true));
    assert_eq!(cpu.step(), Err(RuntimeError::DivisionByZero));
    assert_eq!(
        texts(&cpu.take_output()),
        vec!["Executing LDC(0)", "Executing LDC(0)", "Executing DIV"]
    );
}

#[test]
fn new_cpu_is_zeroed() {
    let cpu = Cpu::new(0);
    assert_eq!(cpu.verbosity(), 0);
    assert_eq!(cpu.read_memory().len(), MAX_STACK_SIZE);
    assert!(cpu.read_memory().iter().all(|w| *w == 0));
    assert_eq!(cpu.read_registers().hp, 2000);
    assert_eq!(cpu.read_registers().pc, 0);
    assert_eq!(cpu.get_reg(ssmrs::Reg::HP), 2000);
    assert_eq!(cpu.get_mem(5), 0);
    assert_eq!(cpu.get_mem_reg(ssmrs::Reg::HP), 0);
}

#[test]
fn register_and_memory_access() {
    let mut cpu = Cpu::new(0);
    cpu.set_reg(ssmrs::Reg::R6, 40);
    cpu.adjust_reg(ssmrs::Reg::R6, 2);
    assert_eq!(cpu.get_reg(ssmrs::Reg::R6), 42);
    cpu.adjust_reg(ssmrs::Reg::R6, i32::MAX);
    assert_eq!(cpu.get_reg(ssmrs::Reg::R6), i32::MIN + 41);
    cpu.set_reg(ssmrs::Reg::R7, 10);
    cpu.set_mem_reg(ssmrs::Reg::R7, 77).unwrap();
    assert_eq!(cpu.get_mem(10), 77);
    assert_eq!(cpu.get_mem_reg(ssmrs::Reg::R7), 77);
    cpu.reserve_heap(3);
    assert_eq!(cpu.read_heap(), &[0, 0, 0]);
    cpu.reserve_heap(1);
    assert_eq!(cpu.read_heap().len(), 3);
}

#[test]
fn trap_output_carries_its_kind() {
    let mut cpu = Cpu::new(1);
    cpu.load_code(parse("LDC 41 TRAP 0 LDC 65 TRAP 1 HALT").unwrap())
        .unwrap();
    while cpu.step().unwrap() {}
    let out = cpu.take_output();
    let seen: Vec<(OutputKind, &str)> = out
        .iter()
        .map(|line| (line.kind, line.text.as_str()))
        .collect();
    assert_eq!(
        seen,
        vec![
            (OutputKind::Report, "Executing LDC(41)"),
            (OutputKind::Report, "Executing TRAP(0)"),
            (OutputKind::Number, "41"),
            (OutputKind::Report, "Executing LDC(65)"),
            (OutputKind::Report, "Executing TRAP(1)"),
            (OutputKind::Character, "A"),
            (OutputKind::Report, "Executing HALT"),
        ]
    );
}
