use lc3::isa::Instruction::{AddImm, AddReg};
use lc3::{program, Addr, Instruction, Reg, Word};
use lc3::isa::Reg::{R0, R1, R2, R3, R4, R5, R6, R7};
use core::convert::TryInto;

#[test]
fn test_regs() {
    assert_eq!(Reg::R0, Reg::R0);
    assert_eq!(Reg::R1, Reg::R1);
    assert_eq!(Reg::R2, Reg::R2);
    assert_eq!(Reg::R3, Reg::R3);
    assert_eq!(Reg::R4, Reg::R4);
    assert_eq!(Reg::R5, Reg::R5);
    assert_eq!(Reg::R6, Reg::R6);
    assert_eq!(Reg::R7, Reg::R7);

    assert_eq!(TryInto::<Reg>::try_into(7).unwrap(), Reg::R7);
}

#[test]
fn comments() {
    assert_eq!(Instruction::new_add_reg(R0, R0, R0), Instruction::new_add_reg(R0, R0, R0));
    assert_eq!(Instruction::new_add_reg(R0, R0, R0), Instruction::new_add_reg(R0, R0, R0));
    assert_eq!(Instruction::new_add_reg(R0, R0, R0), Instruction::new_add_reg(R0, R0, R0));
    assert_eq!(Instruction::new_add_reg(R0, R0, R0), Instruction::new_add_reg(R0, R0, R0));
}

#[test]
fn misc() {
    let insn = Instruction::new_and_reg(R0, R0, R0);

    assert_eq!(insn, Instruction::new_and_reg(R0, R0, R0));

    let _: Word = Into::<Word>::into(0x3000 as Word);
}

#[test]
fn add_reg() {
    assert_eq!(Instruction::new_add_reg(R0, R1, R2), AddReg { dr: R0, sr1: R1, sr2: R2 });
    assert_eq!(Instruction::new_add_reg(R3, R0, R7), AddReg { dr: R3, sr1: R0, sr2: R7 });

    assert_eq!(Instruction::new_add_reg(R3, R4, R5), Instruction::new_add_reg(R3, R4, R5));
    assert_ne!(Instruction::new_add_reg(R3, R4, R5), Instruction::new_add_reg(R3, R4, R4));
}

#[test]
fn add_imm() {
    assert_eq!(Instruction::new_add_imm(R6, R7, 15), AddImm { dr: R6, sr1: R7, imm5: 15 });
    assert_eq!(Instruction::new_add_imm(R6, R7, -16), AddImm { dr: R6, sr1: R7, imm5: -16 });
    assert_eq!(Instruction::new_add_imm(R6, R0, 0xF), AddImm { dr: R6, sr1: R0, imm5: 15 });
}

#[test]
fn word() {
    assert_eq!(
        Word::from(Instruction::new_add_reg(R0, R1, R2)),
        AddReg { dr: R0, sr1: R1, sr2: R2 }.into()
    );
    let _empty: Word = 0; // Empty words are fine.
}

#[test]
fn program_empty() {
    let prog: Vec<(Addr, Word)> = program(0x3000, &[]);

    assert_eq!(prog, []);
}
