use asmcore::instruction::{
    AddRegRule, EncodingRule, Expression, ImmRule, Instruction, ModRmRule, OperandSize, OperandType,
};
use asmcore::line::{Line, Relocation};
use asmcore::register::Register;

fn example_table() -> Vec<Instruction> {
    vec![
        Instruction::new(
            EncodingRule::new(&[0xb8], None, Some(ImmRule::Iq), Some(AddRegRule::Rq), OperandSize::Oq),
            Expression::new("mov", [Some(OperandType::R64), Some(OperandType::Imm64)]),
        ),
        Instruction::new(
            EncodingRule::new(&[0x50], None, None, Some(AddRegRule::Rq), OperandSize::Oq),
            Expression::new("push", [Some(OperandType::R64), None]),
        ),
        Instruction::new(
            EncodingRule::new(&[0xe9], None, Some(ImmRule::Id), None, OperandSize::Od),
            Expression::new("jmp", [Some(OperandType::Rel32), None]),
        ),
        Instruction::new(
            EncodingRule::new(&[0x01], Some(ModRmRule::R), None, None, OperandSize::Oq),
            Expression::new("add", [Some(OperandType::Rm64), Some(OperandType::R64)]),
        ),
    ]
}

fn reg(size: OperandSize, num: u8) -> Register {
    Register { size, num }
}

#[test]
fn push_register_scenario() {
    let table = example_table();
    let line = Line::Instruction("push rax");
    let ins = line.get_instruction(&table).unwrap();
    assert_eq!("push", ins.mnemonic());
    assert_eq!(vec![0x50], ins.opecode());
    assert_eq!(Some(AddRegRule::Rq), ins.encoding().addreg_rule());
    assert_eq!(Some(reg(OperandSize::Oq, 0)), line.register_operand(&table));
}

#[test]
fn mov_immediate_scenario() {
    let table = example_table();
    let line = Line::Instruction("mov rax 1000");
    let ins = line.get_instruction(&table).unwrap();
    assert_eq!("mov", ins.mnemonic());
    assert_eq!(Some(ImmRule::Iq), ins.encoding().imm_rule());
    assert_eq!(OperandSize::Oq, ins.encoding().default_operand_size());
    assert_eq!(Some(reg(OperandSize::Oq, 0)), line.register_operand(&table));
    assert_eq!(Some(Relocation::Value(1000)), line.imm_operand(&table));
}

#[test]
fn jmp_relative_scenario() {
    let table = example_table();
    let line = Line::Instruction("jmp -100");
    let ins = line.get_instruction(&table).unwrap();
    assert_eq!("jmp", ins.mnemonic());
    assert_eq!(Some(Relocation::Value(-100)), line.imm_operand(&table));
    // A non-numeric target does not satisfy `Rel32`, so the line matches no
    // table entry at all.
    let label_line = Line::Instruction("jmp loop_start");
    assert!(label_line.get_instruction(&table).is_none());
    assert!(!label_line.is_valid_instruction(&table));
}

#[test]
fn add_memory_scenario() {
    let table = example_table();
    let line = Line::Instruction("add -8[rbp,rdi,4] rcx");
    let ins = line.get_instruction(&table).unwrap();
    assert_eq!("add", ins.mnemonic());
    assert_eq!(Some(ModRmRule::R), ins.encoding().modrm_rule());
    let (disp, base, index, tag) = line.rm_ref_operand(&table).unwrap();
    assert_eq!(Relocation::Value(-8), disp);
    assert_eq!(reg(OperandSize::Oq, 5), base);
    assert_eq!(Some((reg(OperandSize::Oq, 7), 4)), index);
    assert_eq!('q', tag);
    assert_eq!(Some(reg(OperandSize::Oq, 1)), line.register_operand(&table));
}

#[test]
fn rm_register_scenario() {
    let table = example_table();
    let line = Line::Instruction("add rbx rcx");
    assert!(line.is_valid_instruction(&table));
    assert_eq!(Some(reg(OperandSize::Oq, 3)), line.rm_register_operand(&table));
    // The same slot read as a memory reference fails, since the token is a
    // bare register.
    assert_eq!(None, line.rm_ref_operand(&table));
}

#[test]
fn three_operand_line_fails_to_split() {
    let table = example_table();
    let line = Line::Instruction("mov rax rbx rcx");
    assert_eq!(None, line.split_instruction());
    assert!(line.get_instruction(&table).is_none());
    assert!(!line.is_valid_instruction(&table));
}

#[test]
fn bad_scale_matches_no_entry() {
    let table = example_table();
    let line = Line::Instruction("add 0[rax,rbx,5] rcx");
    assert!(line.get_instruction(&table).is_none());
}

#[test]
fn lookup_is_deterministic_and_first_match_wins() {
    let overlapping = vec![
        Instruction::new(
            EncodingRule::new(&[0x6a], None, Some(ImmRule::Ib), None, OperandSize::Od),
            Expression::new("push", [Some(OperandType::Imm8), None]),
        ),
        Instruction::new(
            EncodingRule::new(&[0x68], None, Some(ImmRule::Id), None, OperandSize::Od),
            Expression::new("push", [Some(OperandType::Imm32), None]),
        ),
    ];
    let line = Line::Instruction("push 5");
    let first = line.get_instruction(&overlapping).unwrap();
    let second = line.get_instruction(&overlapping).unwrap();
    assert_eq!(vec![0x6a], first.opecode());
    assert_eq!(vec![0x6a], second.opecode());
    // A value only `Imm32` accepts skips the earlier entry.
    let wide = Line::Instruction("push 300");
    assert_eq!(vec![0x68], wide.get_instruction(&overlapping).unwrap().opecode());
}

#[test]
fn rm_width_tag_follows_the_slot() {
    let narrow = vec![Instruction::new(
        EncodingRule::new(&[0x83], Some(ModRmRule::FixedDigit(0)), Some(ImmRule::Ib), None, OperandSize::Od),
        Expression::new("add", [Some(OperandType::Rm32), Some(OperandType::Imm8)]),
    )];
    let line = Line::Instruction("add 4[ecx] 7");
    let (disp, base, index, tag) = line.rm_ref_operand(&narrow).unwrap();
    assert_eq!(Relocation::Value(4), disp);
    assert_eq!(reg(OperandSize::Od, 1), base);
    assert_eq!(None, index);
    assert_eq!('d', tag);
    assert_eq!(Some(Relocation::Value(7)), line.imm_operand(&narrow));
}

#[test]
fn tokens_split_on_single_spaces_only() {
    // A double space yields an empty middle token, which no operand type
    // accepts.
    let line = Line::Instruction("mov  rax");
    assert_eq!(Some(("mov", [Some(""), Some("rax")])), line.split_instruction());
    let table = example_table();
    assert!(line.get_instruction(&table).is_none());
}

#[test]
fn only_instruction_lines_split() {
    assert!(Line::Blank.split_instruction().is_none());
    assert!(Line::Label("loop_start").split_instruction().is_none());
    assert!(Line::AsmCommand("global main").split_instruction().is_none());
    assert!(Line::Unknown("???").split_instruction().is_none());
    let line = Line::Instruction("  mov rax 1  ");
    let (m, ops) = line.split_instruction().unwrap();
    assert_eq!("mov", m);
    assert_eq!([Some("rax"), Some("1")], ops);
    assert_eq!(Some("mov"), line.mnemonic());
    assert_eq!(Some([Some("rax"), Some("1")]), line.operands());
    let bare = Line::Instruction("ret");
    assert_eq!(Some(("ret", [None, None])), bare.split_instruction());
}

#[test]
fn expression_exposes_its_parts() {
    let e = Expression::new("mov", [Some(OperandType::R64), Some(OperandType::Imm64)]);
    assert_eq!("mov", e.mnemonic());
    assert_eq!([Some(OperandType::R64), Some(OperandType::Imm64)], e.operands());
    assert_eq!(Some(0), e.get_operand_index_by_type(OperandType::R64));
    assert_eq!(Some(1), e.get_operand_index_by_type(OperandType::Imm64));
    assert_eq!(None, e.get_operand_index_by_type(OperandType::Rm64));
    assert!(e.match_with(&Line::Instruction("mov rax 3")));
    assert!(!e.match_with(&Line::Instruction("mov rax xyz")));
    assert!(!e.match_with(&Line::Instruction("add rax 3")));
}

#[test]
fn encoding_rule_exposes_its_parts() {
    let r = EncodingRule::new(
        &[0x0f, 0x05],
        Some(ModRmRule::FixedDigit(2)),
        None,
        None,
        OperandSize::Od,
    );
    assert_eq!(vec![0x0f, 0x05], r.opecode());
    assert_eq!(Some(ModRmRule::FixedDigit(2)), r.modrm_rule());
    assert_eq!(None, r.imm_rule());
    assert_eq!(None, r.addreg_rule());
    assert_eq!(OperandSize::Od, r.default_operand_size());
    let i = Instruction::new(r, Expression::new("syscall", [None, None]));
    assert_eq!(vec![0x0f, 0x05], i.opecode());
    assert_eq!("syscall", i.expression().mnemonic());
    assert_eq!(Some(ModRmRule::FixedDigit(2)), i.encoding().modrm_rule());
}
