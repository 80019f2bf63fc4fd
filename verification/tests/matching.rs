use asmcore::instruction::{parse_rm, OperandSize, OperandType};
use asmcore::register::{parse_register, Register};

fn reg(size: OperandSize, num: u8) -> Register {
    Register { size, num }
}

#[test]
fn registers_parse_with_their_width() {
    assert_eq!(Some(reg(OperandSize::Oq, 0)), parse_register("rax"));
    assert_eq!(Some(reg(OperandSize::Oq, 5)), parse_register("rbp"));
    assert_eq!(Some(reg(OperandSize::Oq, 7)), parse_register("rdi"));
    assert_eq!(Some(reg(OperandSize::Oq, 13)), parse_register("r13"));
    assert_eq!(Some(reg(OperandSize::Od, 0)), parse_register("eax"));
    assert_eq!(Some(reg(OperandSize::Od, 9)), parse_register("r9d"));
    assert_eq!(Some(reg(OperandSize::Ow, 3)), parse_register("bx"));
    assert_eq!(Some(reg(OperandSize::Ow, 12)), parse_register("r12w"));
    assert_eq!(Some(reg(OperandSize::Ob, 0)), parse_register("al"));
    assert_eq!(Some(reg(OperandSize::Ob, 4)), parse_register("spl"));
    assert_eq!(Some(reg(OperandSize::Ob, 15)), parse_register("r15b"));
    assert_eq!(None, parse_register("RAX"));
    assert_eq!(None, parse_register("rix"));
    assert_eq!(None, parse_register(""));
    assert!(parse_register("rax").unwrap().is_64bit());
    assert!(parse_register("cl").unwrap().is_8bit());
    assert!(parse_register("cx").unwrap().is_16bit());
    assert!(parse_register("ecx").unwrap().is_32bit());
}

#[test]
fn imm8_boundaries() {
    assert!(OperandType::Imm8.match_with("-128"));
    assert!(OperandType::Imm8.match_with("255"));
    assert!(!OperandType::Imm8.match_with("256"));
    assert!(!OperandType::Imm8.match_with("-129"));
}

#[test]
fn imm16_boundaries() {
    assert!(OperandType::Imm16.match_with("-32768"));
    assert!(OperandType::Imm16.match_with("65535"));
    assert!(!OperandType::Imm16.match_with("65536"));
    assert!(!OperandType::Imm16.match_with("-32769"));
}

#[test]
fn imm32_boundaries() {
    assert!(OperandType::Imm32.match_with("-2147483648"));
    assert!(OperandType::Imm32.match_with("4294967295"));
    assert!(!OperandType::Imm32.match_with("4294967296"));
    assert!(!OperandType::Imm32.match_with("-2147483649"));
}

#[test]
fn imm64_boundaries() {
    assert!(OperandType::Imm64.match_with("-9223372036854775808"));
    assert!(OperandType::Imm64.match_with("18446744073709551615"));
    assert!(!OperandType::Imm64.match_with("18446744073709551616"));
    assert!(!OperandType::Imm64.match_with("-9223372036854775809"));
}

#[test]
fn rel32_boundaries() {
    assert!(OperandType::Rel32.match_with("2147483647"));
    assert!(OperandType::Rel32.match_with("-2147483648"));
    assert!(!OperandType::Rel32.match_with("2147483648"));
    assert!(!OperandType::Rel32.match_with("loop_start"));
}

#[test]
fn rm32_accepts_registers_and_memory_of_its_width() {
    assert!(OperandType::Rm32.match_with("eax"));
    assert!(OperandType::Rm32.match_with("0[eax,ebx,4]"));
    assert!(!OperandType::Rm32.match_with("rax"));
    assert!(!OperandType::Rm32.match_with("0[eax,ebx,3]"));
    // The width test applies to base and index registers as well: a memory
    // operand built on 64-bit registers does not satisfy `Rm32`.
    assert!(!OperandType::Rm32.match_with("0[rax,rbx,4]"));
}

#[test]
fn rm64_accepts_registers_and_memory_of_its_width() {
    assert!(OperandType::Rm64.match_with("rax"));
    assert!(OperandType::Rm64.match_with("0[rax,rbx,4]"));
    assert!(OperandType::Rm64.match_with("-8[rbp,rdi,4]"));
    assert!(!OperandType::Rm64.match_with("eax"));
}

#[test]
fn rm8_displacement_fits_the_signed_width() {
    assert!(OperandType::Rm8.match_with("127[al]"));
    assert!(!OperandType::Rm8.match_with("128[al]"));
    assert!(OperandType::Rm8.match_with("-128[al]"));
    assert!(!OperandType::Rm8.match_with("-129[al]"));
}

#[test]
fn operand_sizes_are_ordered_and_assigned() {
    assert_eq!(OperandSize::Ob, OperandType::Imm8.size());
    assert_eq!(OperandSize::Ow, OperandType::R16.size());
    assert_eq!(OperandSize::Od, OperandType::Rel32.size());
    assert_eq!(OperandSize::Oq, OperandType::Rm64.size());
    assert!(OperandSize::Ob < OperandSize::Ow);
    assert!(OperandSize::Ow < OperandSize::Od);
    assert!(OperandSize::Od < OperandSize::Oq);
    assert!(OperandSize::Oq <= OperandSize::Oq);
}

#[test]
fn memory_operands_round_trip() {
    assert_eq!(
        Some((-8, reg(OperandSize::Oq, 5), Some((reg(OperandSize::Oq, 7), 4)))),
        parse_rm("-8[rbp,rdi,4]")
    );
    assert_eq!(Some((0, reg(OperandSize::Oq, 0), None)), parse_rm("[rax]"));
    assert_eq!(Some((0, reg(OperandSize::Oq, 0), None)), parse_rm("0[rax]"));
    assert_eq!(
        Some((7, reg(OperandSize::Od, 1), Some((reg(OperandSize::Od, 2), 1)))),
        parse_rm("7[ecx,edx]")
    );
    assert_eq!(
        Some((9223372036854775807, reg(OperandSize::Oq, 0), None)),
        parse_rm("9223372036854775807[rax]")
    );
}

#[test]
fn memory_operands_reject_bad_syntax() {
    assert_eq!(None, parse_rm("0[rax,rbx,3]"));
    assert_eq!(None, parse_rm("0[rax,rbx,6]"));
    assert_eq!(None, parse_rm("0[rax"));
    assert_eq!(None, parse_rm("rax]"));
    assert_eq!(None, parse_rm("0[xyz]"));
    assert_eq!(None, parse_rm("0[rax,xyz]"));
    assert_eq!(None, parse_rm("x[rax]"));
    assert_eq!(None, parse_rm("0[rax,rbx,4,1]"));
    assert_eq!(None, parse_rm("9223372036854775808[rax]"));
}
