//! The LC-3 instruction set: registers, instructions and their constructors,
//! the 16-bit encoding of instructions, and the assembly-level helpers (trap
//! aliases, laying a program out in memory) built on them.

use vstd::prelude::*;
use vstd::arithmetic::div_mod::lemma_fundamental_div_mod_converse;
use core::convert::TryFrom;

verus! {

/// An LC-3 machine word.
pub type Word = u16;

/// An LC-3 memory address.
pub type Addr = u16;

/// A general-purpose register.
#[derive(Debug, Copy, Clone, PartialEq, Eq, Structural, Hash)]
pub enum Reg {
    R0,
    R1,
    R2,
    R3,
    R4,
    R5,
    R6,
    R7,
}

impl Reg {
    pub const NUM_REGS: usize = 8;
}

/// The number of a register.
pub open spec fn reg_num(r: Reg) -> u8 {
    match r {
        Reg::R0 => 0,
        Reg::R1 => 1,
        Reg::R2 => 2,
        Reg::R3 => 3,
        Reg::R4 => 4,
        Reg::R5 => 5,
        Reg::R6 => 6,
        Reg::R7 => 7,
    }
}

impl From<Reg> for u8 {
    fn from(r: Reg) -> (n: u8) {
        match r {
            Reg::R0 => 0,
            Reg::R1 => 1,
            Reg::R2 => 2,
            Reg::R3 => 3,
            Reg::R4 => 4,
            Reg::R5 => 5,
            Reg::R6 => 6,
            Reg::R7 => 7,
        }
    }
}

impl vstd::std_specs::convert::FromSpecImpl<Reg> for u8 {
    open spec fn obeys_from_spec() -> bool {
        true
    }

    open spec fn from_spec(r: Reg) -> u8 {
        reg_num(r)
    }
}

/// The register numbered `n`, for `n < 8`.
pub open spec fn reg_numbered(n: u8) -> Result<Reg, ()> {
    if n == 0 {
        Ok(Reg::R0)
    } else if n == 1 {
        Ok(Reg::R1)
    } else if n == 2 {
        Ok(Reg::R2)
    } else if n == 3 {
        Ok(Reg::R3)
    } else if n == 4 {
        Ok(Reg::R4)
    } else if n == 5 {
        Ok(Reg::R5)
    } else if n == 6 {
        Ok(Reg::R6)
    } else if n == 7 {
        Ok(Reg::R7)
    } else {
        Err(())
    }
}

/// Registers are numbered R0 = 0 through R7 = 7; numbering a register and
/// looking a number up are inverse, and only the numbers 0 to 7 name a
/// register.
pub proof fn law_reg_numbering(r: Reg, n: u8)
    ensures
        reg_num(Reg::R0) == 0 && reg_num(Reg::R1) == 1 && reg_num(Reg::R2) == 2 && reg_num(Reg::R3)
            == 3 && reg_num(Reg::R4) == 4 && reg_num(Reg::R5) == 5 && reg_num(Reg::R6) == 6
            && reg_num(Reg::R7) == 7,
        reg_num(r) < 8,
        reg_numbered(reg_num(r)) == Ok::<Reg, ()>(r),
        n < 8 ==> (reg_numbered(n) matches Ok(q) && reg_num(q) == n),
        n >= 8 ==> reg_numbered(n) is Err,
{
}

impl TryFrom<u8> for Reg {
    type Error = ();

    /// The register numbered `n`; fails for `n >= 8`.
    fn try_from(n: u8) -> (r: Result<Reg, ()>) {
        match n {
            0 => Ok(Reg::R0),
            1 => Ok(Reg::R1),
            2 => Ok(Reg::R2),
            3 => Ok(Reg::R3),
            4 => Ok(Reg::R4),
            5 => Ok(Reg::R5),
            6 => Ok(Reg::R6),
            7 => Ok(Reg::R7),
            _ => Err(()),
        }
    }
}

impl vstd::std_specs::convert::TryFromSpecImpl<u8> for Reg {
    open spec fn obeys_try_from_spec() -> bool {
        true
    }

    open spec fn try_from_spec(n: u8) -> Result<Reg, ()> {
        reg_numbered(n)
    }
}

/// An LC-3 instruction. Immediates and offsets are signed; the constructors
/// keep each within the width of its field.
#[derive(Debug, Copy, Clone, PartialEq, Eq, Structural, Hash)]
pub enum Instruction {
    AddReg { dr: Reg, sr1: Reg, sr2: Reg },
    AddImm { dr: Reg, sr1: Reg, imm5: i16 },
    AndReg { dr: Reg, sr1: Reg, sr2: Reg },
    AndImm { dr: Reg, sr1: Reg, imm5: i16 },
    Br { n: bool, z: bool, p: bool, offset9: i16 },
    Jmp { base: Reg },
    Jsr { offset11: i16 },
    Jsrr { base: Reg },
    Ld { dr: Reg, offset9: i16 },
    Ldi { dr: Reg, offset9: i16 },
    Ldr { dr: Reg, base: Reg, offset6: i16 },
    Lea { dr: Reg, offset9: i16 },
    Not { dr: Reg, sr: Reg },
    Ret,
    Rti,
    St { sr: Reg, offset9: i16 },
    Sti { sr: Reg, offset9: i16 },
    Str { sr: Reg, base: Reg, offset6: i16 },
    Trap { trapvec: u8 },
}

impl Instruction {
    pub fn new_add_reg(dr: Reg, sr1: Reg, sr2: Reg) -> (r: Self)
        ensures
            r == (Instruction::AddReg { dr, sr1, sr2 }),
    {
        Instruction::AddReg { dr, sr1, sr2 }
    }

    pub fn new_add_imm(dr: Reg, sr1: Reg, imm5: i16) -> (r: Self)
        requires
            -16 <= imm5 <= 15,
        ensures
            r == (Instruction::AddImm { dr, sr1, imm5 }),
    {
        Instruction::AddImm { dr, sr1, imm5 }
    }

    pub fn new_and_reg(dr: Reg, sr1: Reg, sr2: Reg) -> (r: Self)
        ensures
            r == (Instruction::AndReg { dr, sr1, sr2 }),
    {
        Instruction::AndReg { dr, sr1, sr2 }
    }

    pub fn new_and_imm(dr: Reg, sr1: Reg, imm5: i16) -> (r: Self)
        requires
            -16 <= imm5 <= 15,
        ensures
            r == (Instruction::AndImm { dr, sr1, imm5 }),
    {
        Instruction::AndImm { dr, sr1, imm5 }
    }

    /// A branch taken when the condition codes match `n`, `z` or `p`.
    pub fn new_br(n: bool, z: bool, p: bool, offset9: i16) -> (r: Self)
        requires
            -256 <= offset9 <= 255,
        ensures
            r == (Instruction::Br { n, z, p, offset9 }),
    {
        Instruction::Br { n, z, p, offset9 }
    }

    pub fn new_jmp(base: Reg) -> (r: Self)
        ensures
            r == (Instruction::Jmp { base }),
    {
        Instruction::Jmp { base }
    }

    pub fn new_jsr(offset11: i16) -> (r: Self)
        requires
            -1024 <= offset11 <= 1023,
        ensures
            r == (Instruction::Jsr { offset11 }),
    {
        Instruction::Jsr { offset11 }
    }

    pub fn new_jsrr(base: Reg) -> (r: Self)
        ensures
            r == (Instruction::Jsrr { base }),
    {
        Instruction::Jsrr { base }
    }

    pub fn new_ld(dr: Reg, offset9: i16) -> (r: Self)
        requires
            -256 <= offset9 <= 255,
        ensures
            r == (Instruction::Ld { dr, offset9 }),
    {
        Instruction::Ld { dr, offset9 }
    }

    pub fn new_ldi(dr: Reg, offset9: i16) -> (r: Self)
        requires
            -256 <= offset9 <= 255,
        ensures
            r == (Instruction::Ldi { dr, offset9 }),
    {
        Instruction::Ldi { dr, offset9 }
    }

    pub fn new_ldr(dr: Reg, base: Reg, offset6: i16) -> (r: Self)
        requires
            -32 <= offset6 <= 31,
        ensures
            r == (Instruction::Ldr { dr, base, offset6 }),
    {
        Instruction::Ldr { dr, base, offset6 }
    }

    pub fn new_lea(dr: Reg, offset9: i16) -> (r: Self)
        requires
            -256 <= offset9 <= 255,
        ensures
            r == (Instruction::Lea { dr, offset9 }),
    {
        Instruction::Lea { dr, offset9 }
    }

    pub fn new_not(dr: Reg, sr: Reg) -> (r: Self)
        ensures
            r == (Instruction::Not { dr, sr }),
    {
        Instruction::Not { dr, sr }
    }

    pub fn new_ret() -> (r: Self)
        ensures
            r == Instruction::Ret,
    {
        Instruction::Ret
    }

    pub fn new_rti() -> (r: Self)
        ensures
            r == Instruction::Rti,
    {
        Instruction::Rti
    }

    pub fn new_st(sr: Reg, offset9: i16) -> (r: Self)
        requires
            -256 <= offset9 <= 255,
        ensures
            r == (Instruction::St { sr, offset9 }),
    {
        Instruction::St { sr, offset9 }
    }

    pub fn new_sti(sr: Reg, offset9: i16) -> (r: Self)
        requires
            -256 <= offset9 <= 255,
        ensures
            r == (Instruction::Sti { sr, offset9 }),
    {
        Instruction::Sti { sr, offset9 }
    }

    pub fn new_str(sr: Reg, base: Reg, offset6: i16) -> (r: Self)
        requires
            -32 <= offset6 <= 31,
        ensures
            r == (Instruction::Str { sr, base, offset6 }),
    {
        Instruction::Str { sr, base, offset6 }
    }

    pub fn new_trap(trapvec: u8) -> (r: Self)
        ensures
            r == (Instruction::Trap { trapvec }),
    {
        Instruction::Trap { trapvec }
    }
}

/// `x` modulo `m`: the low bits of `x` in two's complement, for a field
/// width `m` that divides 2^16.
#[verifier::opaque]
pub open spec fn field(x: int, m: int) -> int {
    x % m
}

/// The machine word of an instruction: the opcode in bits 15-12, then the
/// operand fields; signed fields hold their value modulo 2 to the field's
/// width (two's complement).
pub open spec fn instruction_word(i: Instruction) -> int {
    match i {
        Instruction::AddReg { dr, sr1, sr2 } => 0x1000 + reg_num(dr) * 0x200 + reg_num(sr1) * 0x40
            + reg_num(sr2),
        Instruction::AddImm { dr, sr1, imm5 } => 0x1000 + reg_num(dr) * 0x200 + reg_num(sr1) * 0x40
            + 0x20 + field(imm5 as int, 32),
        Instruction::AndReg { dr, sr1, sr2 } => 0x5000 + reg_num(dr) * 0x200 + reg_num(sr1) * 0x40
            + reg_num(sr2),
        Instruction::AndImm { dr, sr1, imm5 } => 0x5000 + reg_num(dr) * 0x200 + reg_num(sr1) * 0x40
            + 0x20 + field(imm5 as int, 32),
        Instruction::Br { n, z, p, offset9 } => (if n {
            0x800int
        } else {
            0
        }) + (if z {
            0x400int
        } else {
            0
        }) + (if p {
            0x200int
        } else {
            0
        }) + field(offset9 as int, 512),
        Instruction::Jmp { base } => 0xC000 + reg_num(base) * 0x40,
        Instruction::Jsr { offset11 } => 0x4800 + field(offset11 as int, 2048),
        Instruction::Jsrr { base } => 0x4000 + reg_num(base) * 0x40,
        Instruction::Ld { dr, offset9 } => 0x2000 + reg_num(dr) * 0x200 + field(offset9 as int, 512),
        Instruction::Ldi { dr, offset9 } => 0xA000 + reg_num(dr) * 0x200 + field(offset9 as int, 512),
        Instruction::Ldr { dr, base, offset6 } => 0x6000 + reg_num(dr) * 0x200 + reg_num(base) * 0x40
            + field(offset6 as int, 64),
        Instruction::Lea { dr, offset9 } => 0xE000 + reg_num(dr) * 0x200 + field(offset9 as int, 512),
        Instruction::Not { dr, sr } => 0x9000 + reg_num(dr) * 0x200 + reg_num(sr) * 0x40 + 0x3F,
        Instruction::Ret => 0xC1C0,
        Instruction::Rti => 0x8000,
        Instruction::St { sr, offset9 } => 0x3000 + reg_num(sr) * 0x200 + field(offset9 as int, 512),
        Instruction::Sti { sr, offset9 } => 0xB000 + reg_num(sr) * 0x200 + field(offset9 as int, 512),
        Instruction::Str { sr, base, offset6 } => 0x7000 + reg_num(sr) * 0x200 + reg_num(base) * 0x40
            + field(offset6 as int, 64),
        Instruction::Trap { trapvec } => 0xF000 + trapvec,
    }
}

/// `w` split at 4096, 512 and 64: an opcode, two register fields and six
/// low bits.
proof fn lemma_unpack(op: int, hi: int, mid: int, low: int)
    requires
        0 <= op < 16,
        0 <= hi < 8,
        0 <= mid < 8,
        0 <= low < 64,
    ensures
        ({
            let w = op * 4096 + hi * 512 + mid * 64 + low;
            &&& w / 4096 == op
            &&& (w / 512) % 8 == hi
            &&& (w / 64) % 8 == mid
            &&& w % 64 == low
        }),
{
    let w = op * 4096 + hi * 512 + mid * 64 + low;
    lemma_fundamental_div_mod_converse(w, 4096, op, hi * 512 + mid * 64 + low);
    lemma_fundamental_div_mod_converse(w, 512, op * 8 + hi, mid * 64 + low);
    lemma_fundamental_div_mod_converse(op * 8 + hi, 8, op, hi);
    lemma_fundamental_div_mod_converse(w, 64, op * 64 + hi * 8 + mid, low);
    lemma_fundamental_div_mod_converse(op * 64 + hi * 8 + mid, 8, op * 8 + hi, mid);
}

/// `w` split at 4096 and 512: an opcode, a register field and nine low bits.
proof fn lemma_unpack9(op: int, hi: int, low: int)
    requires
        0 <= op < 16,
        0 <= hi < 8,
        0 <= low < 512,
    ensures
        ({
            let w = op * 4096 + hi * 512 + low;
            &&& w / 4096 == op
            &&& (w / 512) % 8 == hi
            &&& w % 512 == low
        }),
{
    let w = op * 4096 + hi * 512 + low;
    lemma_fundamental_div_mod_converse(w, 4096, op, hi * 512 + low);
    lemma_fundamental_div_mod_converse(w, 512, op * 8 + hi, low);
    lemma_fundamental_div_mod_converse(op * 8 + hi, 8, op, hi);
}

/// `w` split into its top four bits, three single bits and nine low bits.
proof fn lemma_unpack_bits(op: int, b11: int, b10: int, b9: int, low: int)
    requires
        0 <= op < 16,
        0 <= b11 < 2,
        0 <= b10 < 2,
        0 <= b9 < 2,
        0 <= low < 512,
    ensures
        ({
            let w = op * 4096 + b11 * 2048 + b10 * 1024 + b9 * 512 + low;
            &&& w / 4096 == op
            &&& (w / 2048) % 2 == b11
            &&& (w / 1024) % 2 == b10
            &&& (w / 512) % 2 == b9
            &&& w % 512 == low
        }),
{
    let w = op * 4096 + b11 * 2048 + b10 * 1024 + b9 * 512 + low;
    lemma_fundamental_div_mod_converse(w, 4096, op, b11 * 2048 + b10 * 1024 + b9 * 512 + low);
    lemma_fundamental_div_mod_converse(w, 2048, op * 2 + b11, b10 * 1024 + b9 * 512 + low);
    lemma_fundamental_div_mod_converse(op * 2 + b11, 2, op, b11);
    lemma_fundamental_div_mod_converse(w, 1024, op * 4 + b11 * 2 + b10, b9 * 512 + low);
    lemma_fundamental_div_mod_converse(op * 4 + b11 * 2 + b10, 2, op * 2 + b11, b10);
    lemma_fundamental_div_mod_converse(w, 512, op * 8 + b11 * 4 + b10 * 2 + b9, low);
    lemma_fundamental_div_mod_converse(op * 8 + b11 * 4 + b10 * 2 + b9, 2, op * 4 + b11 * 2 + b10, b9);
}

/// 1 for a set flag, 0 for a clear one.
pub open spec fn flag_bit(b: bool) -> int {
    if b {
        1
    } else {
        0
    }
}

/// Where each operand of an operate instruction (ADD, AND, NOT) sits in its
/// machine word, following the LC-3 instruction formats: the opcode in bits
/// 15-12; a destination (or source for stores) register in bits 11-9; a first
/// source or base register in bits 8-6; the condition flags n, z, p of a branch
/// in bits 11, 10, 9; and immediates and offsets in the low bits, as their
/// value modulo the field's width. Reading these fields back recovers every
/// operand.
pub proof fn law_operate_fields(i: Instruction)
    requires
        i is AddReg || i is AddImm || i is AndReg || i is AndImm || i is Not,
    ensures
        0 <= instruction_word(i) < 0x10000,
        ({
            let w = instruction_word(i);
            match i {
                Instruction::AddReg { dr, sr1, sr2 } => w / 4096 == 1 && (w / 512) % 8 == reg_num(dr)
                    && (w / 64) % 8 == reg_num(sr1) && w % 64 == reg_num(sr2),
                Instruction::AddImm { dr, sr1, imm5 } => w / 4096 == 1 && (w / 512) % 8 == reg_num(
                    dr,
                ) && (w / 64) % 8 == reg_num(sr1) && w % 64 == 32 + (imm5 as int) % 32,
                Instruction::AndReg { dr, sr1, sr2 } => w / 4096 == 5 && (w / 512) % 8 == reg_num(dr)
                    && (w / 64) % 8 == reg_num(sr1) && w % 64 == reg_num(sr2),
                Instruction::AndImm { dr, sr1, imm5 } => w / 4096 == 5 && (w / 512) % 8 == reg_num(
                    dr,
                ) && (w / 64) % 8 == reg_num(sr1) && w % 64 == 32 + (imm5 as int) % 32,
                Instruction::Not { dr, sr } => w / 4096 == 9 && (w / 512) % 8 == reg_num(dr) && (w
                    / 64) % 8 == reg_num(sr) && w % 64 == 63,
                _ => true,
            }
        }),
{
    reveal(field);
    match i {
        Instruction::AddReg { dr, sr1, sr2 } => {
            lemma_unpack(1, reg_num(dr) as int, reg_num(sr1) as int, reg_num(sr2) as int);
        },
        Instruction::AddImm { dr, sr1, imm5 } => {
            lemma_unpack(1, reg_num(dr) as int, reg_num(sr1) as int, 32 + (imm5 as int) % 32);
        },
        Instruction::AndReg { dr, sr1, sr2 } => {
            lemma_unpack(5, reg_num(dr) as int, reg_num(sr1) as int, reg_num(sr2) as int);
        },
        Instruction::AndImm { dr, sr1, imm5 } => {
            lemma_unpack(5, reg_num(dr) as int, reg_num(sr1) as int, 32 + (imm5 as int) % 32);
        },
        Instruction::Not { dr, sr } => {
            lemma_unpack(9, reg_num(dr) as int, reg_num(sr) as int, 63);
        },
        _ => {},
    }
}

/// Where each operand of a control-flow instruction (BR, JMP, JSR, JSRR, RET,
/// RTI, TRAP) sits in its machine word, following the LC-3 instruction formats:
/// the opcode in bits 15-12; a destination (or source for stores) register in
/// bits 11-9; a first source or base register in bits 8-6; the condition flags
/// n, z, p of a branch in bits 11, 10, 9; and immediates and offsets in the low
/// bits, as their value modulo the field's width. Reading these fields back
/// recovers every operand.
pub proof fn law_control_fields(i: Instruction)
    requires
        i is Br || i is Jmp || i is Jsr || i is Jsrr || i is Ret || i is Rti || i is Trap,
    ensures
        0 <= instruction_word(i) < 0x10000,
        ({
            let w = instruction_word(i);
            match i {
                Instruction::Br { n, z, p, offset9 } => w / 4096 == 0 && (w / 2048) % 2 == flag_bit(n)
                    && (w / 1024) % 2 == flag_bit(z) && (w / 512) % 2 == flag_bit(p) && w % 512
                    == (offset9 as int) % 512,
                Instruction::Jmp { base } => w / 4096 == 12 && (w / 512) % 8 == 0 && (w / 64) % 8
                    == reg_num(base) && w % 64 == 0,
                Instruction::Jsr { offset11 } => w / 4096 == 4 && (w / 2048) % 2 == 1 && w % 2048
                    == (offset11 as int) % 2048,
                Instruction::Jsrr { base } => w / 4096 == 4 && (w / 512) % 8 == 0 && (w / 64) % 8
                    == reg_num(base) && w % 64 == 0,
                Instruction::Ret => w / 4096 == 12 && (w / 512) % 8 == 0 && (w / 64) % 8 == 7 && w
                    % 64 == 0,
                Instruction::Rti => w / 4096 == 8 && w % 4096 == 0,
                Instruction::Trap { trapvec } => w / 4096 == 15 && (w / 256) % 16 == 0 && w % 256
                    == trapvec,
                _ => true,
            }
        }),
{
    reveal(field);
    match i {
        Instruction::Br { n, z, p, offset9 } => {
            lemma_unpack_bits(0, flag_bit(n), flag_bit(z), flag_bit(p), (offset9 as int) % 512);
        },
        Instruction::Jmp { base } => {
            lemma_unpack(12, 0, reg_num(base) as int, 0);
        },
        Instruction::Jsr { offset11 } => {
            let w = 0x4800 + (offset11 as int) % 2048;
            lemma_fundamental_div_mod_converse(w, 4096, 4, 2048 + (offset11 as int) % 2048);
            lemma_fundamental_div_mod_converse(w, 2048, 9, (offset11 as int) % 2048);
            lemma_fundamental_div_mod_converse(9, 2, 4, 1);
        },
        Instruction::Jsrr { base } => {
            lemma_unpack(4, 0, reg_num(base) as int, 0);
        },
        Instruction::Ret => {
            lemma_unpack(12, 0, 7, 0);
        },
        Instruction::Rti => {},
        Instruction::Trap { trapvec } => {
            let w = 0xF000 + trapvec as int;
            lemma_fundamental_div_mod_converse(w, 4096, 15, trapvec as int);
            lemma_fundamental_div_mod_converse(w, 256, 240, trapvec as int);
            lemma_fundamental_div_mod_converse(240, 16, 15, 0);
        },
        _ => {},
    }
}

/// Where each operand of a load, store or LEA instruction sits in its machine
/// word, following the LC-3 instruction formats: the opcode in bits 15-12; a
/// destination (or source for stores) register in bits 11-9; a first source or
/// base register in bits 8-6; the condition flags n, z, p of a branch in bits
/// 11, 10, 9; and immediates and offsets in the low bits, as their value modulo
/// the field's width. Reading these fields back recovers every operand.
pub proof fn law_memory_fields(i: Instruction)
    requires
        i is Ld || i is Ldi || i is Ldr || i is Lea || i is St || i is Sti || i is Str,
    ensures
        0 <= instruction_word(i) < 0x10000,
        ({
            let w = instruction_word(i);
            match i {
                Instruction::Ld { dr, offset9 } => w / 4096 == 2 && (w / 512) % 8 == reg_num(dr) && w
                    % 512 == (offset9 as int) % 512,
                Instruction::Ldi { dr, offset9 } => w / 4096 == 10 && (w / 512) % 8 == reg_num(dr)
                    && w % 512 == (offset9 as int) % 512,
                Instruction::Ldr { dr, base, offset6 } => w / 4096 == 6 && (w / 512) % 8 == reg_num(
                    dr,
                ) && (w / 64) % 8 == reg_num(base) && w % 64 == (offset6 as int) % 64,
                Instruction::Lea { dr, offset9 } => w / 4096 == 14 && (w / 512) % 8 == reg_num(dr)
                    && w % 512 == (offset9 as int) % 512,
                Instruction::St { sr, offset9 } => w / 4096 == 3 && (w / 512) % 8 == reg_num(sr) && w
                    % 512 == (offset9 as int) % 512,
                Instruction::Sti { sr, offset9 } => w / 4096 == 11 && (w / 512) % 8 == reg_num(sr)
                    && w % 512 == (offset9 as int) % 512,
                Instruction::Str { sr, base, offset6 } => w / 4096 == 7 && (w / 512) % 8 == reg_num(
                    sr,
                ) && (w / 64) % 8 == reg_num(base) && w % 64 == (offset6 as int) % 64,
                _ => true,
            }
        }),
{
    reveal(field);
    match i {
        Instruction::Ld { dr, offset9 } => {
            lemma_unpack9(2, reg_num(dr) as int, (offset9 as int) % 512);
        },
        Instruction::Ldi { dr, offset9 } => {
            lemma_unpack9(10, reg_num(dr) as int, (offset9 as int) % 512);
        },
        Instruction::Ldr { dr, base, offset6 } => {
            lemma_unpack(6, reg_num(dr) as int, reg_num(base) as int, (offset6 as int) % 64);
        },
        Instruction::Lea { dr, offset9 } => {
            lemma_unpack9(14, reg_num(dr) as int, (offset9 as int) % 512);
        },
        Instruction::St { sr, offset9 } => {
            lemma_unpack9(3, reg_num(sr) as int, (offset9 as int) % 512);
        },
        Instruction::Sti { sr, offset9 } => {
            lemma_unpack9(11, reg_num(sr) as int, (offset9 as int) % 512);
        },
        Instruction::Str { sr, base, offset6 } => {
            lemma_unpack(7, reg_num(sr) as int, reg_num(base) as int, (offset6 as int) % 64);
        },
        _ => {},
    }
}

/// `x` modulo `m`, for a field width `m` that divides 2^16.
fn low_bits(x: i16, m: u16) -> (r: u16)
    requires
        m == 32 || m == 64 || m == 512 || m == 2048,
    ensures
        r as int == field(x as int, m as int),
        r < m,
{
    reveal(field);
    let wide: u32 = ((x as i32) + 65536) as u32;
    proof {
        let k: int = 65536int / (m as int);
        assert(m as int * k == 65536) by {
            if m == 32 {
            } else if m == 64 {
            } else if m == 512 {
            } else {
            }
        }
        vstd::arithmetic::div_mod::lemma_mod_multiples_vanish(k, x as int, m as int);
    }
    (wide % (m as u32)) as u16
}

fn reg_bits(r: Reg) -> (n: u16)
    ensures
        n == reg_num(r),
{
    u8::from(r) as u16
}

/// Packs an opcode (already shifted to bits 15-12) with a register in bits
/// 11-9, a register in bits 8-6 and the low six bits.
fn pack(op: u16, hi: u16, mid: u16, low: u16) -> (w: u16)
    requires
        op <= 0xF000,
        hi < 8,
        mid < 8,
        low < 0x40,
    ensures
        w == op + hi * 0x200 + mid * 0x40 + low,
{
    op + hi * 0x200 + mid * 0x40 + low
}

/// The machine word of an operate instruction (ADD, AND, NOT).
fn encode_operate(i: Instruction) -> (w: Word)
    requires
        i is AddReg || i is AddImm || i is AndReg || i is AndImm || i is Not,
    ensures
        w as int == instruction_word(i),
{
    match i {
            Instruction::AddReg { dr, sr1, sr2 } => pack(0x1000, reg_bits(dr), reg_bits(sr1), reg_bits(sr2)),
            Instruction::AddImm { dr, sr1, imm5 } => pack(0x1000, reg_bits(dr), reg_bits(sr1), 0x20 + low_bits(imm5, 32)),
            Instruction::AndReg { dr, sr1, sr2 } => pack(0x5000, reg_bits(dr), reg_bits(sr1), reg_bits(sr2)),
            Instruction::AndImm { dr, sr1, imm5 } => pack(0x5000, reg_bits(dr), reg_bits(sr1), 0x20 + low_bits(imm5, 32)),
            Instruction::Not { dr, sr } => pack(0x9000, reg_bits(dr), reg_bits(sr), 0x3F),
            _ => 0,
    }
}

/// The machine word of a control-flow instruction (BR, JMP, JSR, JSRR, RET, RTI, TRAP).
fn encode_control(i: Instruction) -> (w: Word)
    requires
        i is Br || i is Jmp || i is Jsr || i is Jsrr || i is Ret || i is Rti || i is Trap,
    ensures
        w as int == instruction_word(i),
{
    match i {
            Instruction::Br { n, z, p, offset9 } => {
                let nb: u16 = if n {
                    0x800
                } else {
                    0
                };
                let zb: u16 = if z {
                    0x400
                } else {
                    0
                };
                let pb: u16 = if p {
                    0x200
                } else {
                    0
                };
                nb + zb + pb + low_bits(offset9, 512)
            },
            Instruction::Jmp { base } => pack(0xC000, 0, reg_bits(base), 0),
            Instruction::Jsr { offset11 } => 0x4800 + low_bits(offset11, 2048),
            Instruction::Jsrr { base } => pack(0x4000, 0, reg_bits(base), 0),
            Instruction::Ret => 0xC1C0,
            Instruction::Rti => 0x8000,
            Instruction::Trap { trapvec } => 0xF000 + trapvec as u16,
            _ => 0,
    }
}

/// The machine word of a load, store or LEA instruction.
fn encode_memory(i: Instruction) -> (w: Word)
    requires
        i is Ld || i is Ldi || i is Ldr || i is Lea || i is St || i is Sti || i is Str,
    ensures
        w as int == instruction_word(i),
{
    match i {
            Instruction::Ld { dr, offset9 } => 0x2000 + reg_bits(dr) * 0x200 + low_bits(offset9, 512),
            Instruction::Ldi { dr, offset9 } => 0xA000 + reg_bits(dr) * 0x200 + low_bits(offset9, 512),
            Instruction::Ldr { dr, base, offset6 } => pack(0x6000, reg_bits(dr), reg_bits(base), low_bits(offset6, 64)),
            Instruction::Lea { dr, offset9 } => 0xE000 + reg_bits(dr) * 0x200 + low_bits(offset9, 512),
            Instruction::St { sr, offset9 } => 0x3000 + reg_bits(sr) * 0x200 + low_bits(offset9, 512),
            Instruction::Sti { sr, offset9 } => 0xB000 + reg_bits(sr) * 0x200 + low_bits(offset9, 512),
            Instruction::Str { sr, base, offset6 } => pack(0x7000, reg_bits(sr), reg_bits(base), low_bits(offset6, 64)),
            _ => 0,
    }
}

/// The machine word of `i`.
fn encode(i: Instruction) -> (w: Word)
    ensures
        w as int == instruction_word(i),
{
    match i {
        Instruction::AddReg { .. } | Instruction::AddImm { .. } | Instruction::AndReg { .. }
        | Instruction::AndImm { .. } | Instruction::Not { .. } => encode_operate(i),
        Instruction::Ld { .. } | Instruction::Ldi { .. } | Instruction::Ldr { .. }
        | Instruction::Lea { .. } | Instruction::St { .. } | Instruction::Sti { .. }
        | Instruction::Str { .. } => encode_memory(i),
        _ => encode_control(i),
    }
}

impl From<Instruction> for Word {
    fn from(i: Instruction) -> (w: Word) {
        encode(i)
    }
}

impl vstd::std_specs::convert::FromSpecImpl<Instruction> for Word {
    open spec fn obeys_from_spec() -> bool {
        true
    }

    open spec fn from_spec(i: Instruction) -> Word {
        instruction_word(i) as Word
    }
}

/// The assembler's aliases for common instructions.
#[derive(Debug, Copy, Clone, PartialEq, Eq, Structural, Hash)]
pub enum PseudoOp {
    /// `TRAP x20`: read a character.
    Getc,
    /// `TRAP x21`: write a character.
    Out,
    /// `TRAP x22`: write a string.
    Puts,
    /// `TRAP x23`: prompt for and read a character.
    In,
    /// `TRAP x25`: halt.
    Halt,
    /// `BR #0`: an unconditional branch to the next instruction.
    Nop,
}

impl PseudoOp {
    /// The instruction the alias stands for.
    pub fn instruction(self) -> (r: Instruction)
        ensures
            r == match self {
                PseudoOp::Getc => Instruction::Trap { trapvec: 0x20 },
                PseudoOp::Out => Instruction::Trap { trapvec: 0x21 },
                PseudoOp::Puts => Instruction::Trap { trapvec: 0x22 },
                PseudoOp::In => Instruction::Trap { trapvec: 0x23 },
                PseudoOp::Halt => Instruction::Trap { trapvec: 0x25 },
                PseudoOp::Nop => Instruction::Br { n: true, z: true, p: true, offset9: 0 },
            },
    {
        match self {
            PseudoOp::Getc => Instruction::new_trap(0x20),
            PseudoOp::Out => Instruction::new_trap(0x21),
            PseudoOp::Puts => Instruction::new_trap(0x22),
            PseudoOp::In => Instruction::new_trap(0x23),
            PseudoOp::Halt => Instruction::new_trap(0x25),
            PseudoOp::Nop => Instruction::new_br(true, true, true, 0),
        }
    }
}

/// Lays `words` out in memory from `orig` on: the `i`th word goes to address
/// `orig + i`.
pub fn program(orig: Addr, words: &[Word]) -> (r: Vec<(Addr, Word)>)
    requires
        orig + words@.len() <= 0xFFFF,
    ensures
        r@.len() == words@.len(),
        forall|i: int| 0 <= i < words@.len() ==> #[trigger] r@[i] == (((orig + i) as Addr), words@[i]),
{
    let mut out: Vec<(Addr, Word)> = Vec::new();
    let mut addr: Addr = orig;
    let mut i: usize = 0;
    while i < words.len()
        invariant
            orig + words@.len() <= 0xFFFF,
            0 <= i <= words@.len(),
            addr == orig + i,
            out@.len() == i,
            forall|j: int| 0 <= j < i ==> #[trigger] out@[j] == (((orig + j) as Addr), words@[j]),
        decreases words@.len() - i,
    {
        out.push((addr, words[i]));
        addr += 1;
        i += 1;
    }
    out
}

} // verus!
