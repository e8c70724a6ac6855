use lc3::isa::Instruction::{
    AddImm, AddReg, AndImm, AndReg, Br, Jmp, Jsr, Jsrr, Ld, Ldi, Ldr, Lea, Not, Ret, Rti, St, Sti,
    Str, Trap,
};
use lc3::isa::Reg::{R0, R1, R2, R3, R4, R5, R6, R7};
use lc3::{program, Instruction, PseudoOp, Reg, Word};
use core::convert::TryFrom;

fn w(i: Instruction) -> Word {
    Word::from(i)
}

#[test]
fn encodes_operate_instructions() {
    assert_eq!(w(Instruction::new_add_reg(R0, R1, R2)), 0x1042);
    assert_eq!(w(Instruction::new_add_imm(R6, R7, -16)), 0x1DF0);
    assert_eq!(w(Instruction::new_add_imm(R1, R1, 0)), 0x1260);
    assert_eq!(w(Instruction::new_and_reg(R1, R2, R3)), 0x5283);
    assert_eq!(w(Instruction::new_and_imm(R4, R5, -0xF)), 0x5971);
    assert_eq!(w(Instruction::new_not(R2, R3)), 0x94FF);
}

#[test]
fn encodes_control_instructions() {
    assert_eq!(w(Instruction::new_br(true, true, true, -1)), 0x0FFF);
    assert_eq!(w(Instruction::new_br(false, true, false, 5)), 0x0405);
    assert_eq!(w(Instruction::new_jmp(R6)), 0xC180);
    assert_eq!(w(Instruction::new_jsr(-1024)), 0x4C00);
    assert_eq!(w(Instruction::new_jsrr(R2)), 0x4080);
    assert_eq!(w(Instruction::new_ret()), 0xC1C0);
    assert_eq!(w(Instruction::new_ret()), w(Instruction::new_jmp(R7)));
    assert_eq!(w(Instruction::new_rti()), 0x8000);
    assert_eq!(w(Instruction::new_trap(0x25)), 0xF025);
}

#[test]
fn encodes_memory_instructions() {
    assert_eq!(w(Instruction::new_ld(R7, -1)), 0x2FFF);
    assert_eq!(w(Instruction::new_ldi(R4, 255)), 0xA8FF);
    assert_eq!(w(Instruction::new_ldr(R0, R1, 31)), 0x605F);
    assert_eq!(w(Instruction::new_lea(R0, 12)), 0xE00C);
    assert_eq!(w(Instruction::new_st(R2, -45)), 0x35D3);
    assert_eq!(w(Instruction::new_sti(R7, 3)), 0xBE03);
    assert_eq!(w(Instruction::new_str(R2, R0, -32)), 0x7420);
}

#[test]
fn out_of_range_offsets_keep_their_low_bits() {
    let i = Instruction::Ldr { dr: R0, base: R0, offset6: 511 };
    assert_eq!(w(i), 0x603F);
}

#[test]
fn pseudo_ops_are_traps_and_a_branch() {
    assert_eq!(PseudoOp::Getc.instruction(), Instruction::Trap { trapvec: 0x20 });
    assert_eq!(w(PseudoOp::Out.instruction()), 0xF021);
    assert_eq!(w(PseudoOp::Puts.instruction()), 0xF022);
    assert_eq!(w(PseudoOp::In.instruction()), 0xF023);
    assert_eq!(w(PseudoOp::Halt.instruction()), 0xF025);
    assert_eq!(PseudoOp::Nop.instruction(), Instruction::new_br(true, true, true, 0));
    assert_eq!(w(PseudoOp::Nop.instruction()), 0x0E00);
}

#[test]
fn registers_by_number() {
    let all = [R0, R1, R2, R3, R4, R5, R6, R7];
    for (n, r) in all.iter().enumerate() {
        assert_eq!(Reg::try_from(n as u8), Ok(*r));
        assert_eq!(u8::from(*r), n as u8);
    }
    assert_eq!(Reg::try_from(8u8), Err(()));
    assert_eq!(Reg::NUM_REGS, 8);
}

#[test]
fn program_lays_words_out_from_the_origin() {
    let words = [
        w(Instruction::new_add_reg(R0, R0, R1)),
        w(PseudoOp::Halt.instruction()),
        0x23,
    ];
    let prog = program(0x3000, &words);
    assert_eq!(prog, vec![(0x3000, 0x1001), (0x3001, 0xF025), (0x3002, 0x23)]);
}

/// A full program listing, every instruction kind and alias laid out from
/// 0x3000. The word at 0x300A is that of `LDR R0, R1, #31` (0x605F); the
/// value `Ldr { dr: R0, base: R0, offset6: 511 }` encodes to 0x603F and does
/// not stand for that instruction.
#[test]
fn program_full_words() {
    let words: Vec<Word> = vec![
        w(Instruction::new_add_reg(R0, R0, R1)),
        w(Instruction::new_add_imm(R1, R1, 0)),
        w(Instruction::new_and_reg(R1, R2, R3)),
        w(Instruction::new_and_imm(R4, R5, -0xF)),
        w(Instruction::new_br(true, true, true, -1)),
        w(Instruction::new_jmp(R6)),
        w(Instruction::new_jsr(-1024)),
        w(Instruction::new_jsrr(R2)),
        w(Instruction::new_ld(R7, -1)),
        w(Instruction::new_ldi(R4, 255)),
        w(Instruction::new_ldr(R0, R1, 31)),
        w(Instruction::new_lea(R0, 12)),
        w(Instruction::new_not(R2, R3)),
        w(Instruction::new_ret()),
        w(Instruction::new_rti()),
        w(Instruction::new_st(R2, -45)),
        w(Instruction::new_sti(R7, 3)),
        w(Instruction::new_str(R2, R0, -32)),
        w(Instruction::new_trap(0x25)),
        w(Instruction::new_add_imm(R0, R2, 0)),
        w(PseudoOp::Out.instruction()),
        w(PseudoOp::Puts.instruction()),
        w(Instruction::new_and_imm(R0, R0, 0)),
        w(PseudoOp::Getc.instruction()),
        w(Instruction::new_and_imm(R0, R0, 0)),
        w(PseudoOp::In.instruction()),
        w(PseudoOp::Halt.instruction()),
        0x23 as Word,
    ];
    let prog = program(0x3000, &words);

    assert_eq!(prog.len(), 28);
    assert_eq!(prog, [
        (0x3000, AddReg { dr: R0, sr1: R0, sr2: R1 }.into()),
        (0x3001, AddImm { dr: R1, sr1: R1, imm5: 0 }.into()),
        (0x3002, AndReg { dr: R1, sr1: R2, sr2: R3 }.into()),
        (0x3003, AndImm { dr: R4, sr1: R5, imm5: -0xF }.into()),
        (0x3004, Br { n: true, z: true, p: true, offset9: -1 }.into()),
        (0x3005, Jmp { base: R6 }.into()),
        (0x3006, Jsr { offset11: -1024 }.into()),
        (0x3007, Jsrr { base: R2}.into()),
        (0x3008, Ld { dr: R7, offset9: -1 }.into()),
        (0x3009, Ldi { dr: R4, offset9: 255 }.into()),
        (0x300A, Ldr { dr: R0, base: R1, offset6: 31 }.into()),
        (0x300B, Lea { dr: R0, offset9: 12 }.into()),
        (0x300C, Not { dr: R2, sr: R3 }.into()),
        (0x300D, Ret.into()),
        (0x300E, Rti.into()),
        (0x300F, St { sr: R2, offset9: -45 }.into()),
        (0x3010, Sti { sr: R7, offset9: 3 }.into()),
        (0x3011, Str { sr: R2, base: R0, offset6: -32 }.into()),
        (0x3012, Trap { trapvec: 0x25 }.into()),
        (0x3013, AddImm { dr: R0, sr1: R2, imm5: 0 }.into()),
        (0x3014, Trap { trapvec: 0x21 }.into()),
        (0x3015, Trap { trapvec: 0x22 }.into()),
        (0x3016, AndImm { dr: R0, sr1: R0, imm5: 0 }.into()),
        (0x3017, Trap { trapvec: 0x20 }.into()),
        (0x3018, AndImm { dr: R0, sr1: R0, imm5: 0 }.into()),
        (0x3019, Trap { trapvec: 0x23 }.into()),
        (0x301A, Trap { trapvec: 0x25 }.into()),
        (0x301B, 0x23),
    ]);
}
