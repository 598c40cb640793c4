//! Instruction decoding: the opcode in the top four bits, and the operand
//! fields below it.

use crate::word::{sign_extend, sign_extended};
use vstd::prelude::*;

verus! {

/// The sixteen opcodes, and `Unknown` for a code that does not fit in four bits.
#[derive(Clone, Copy, Debug, PartialEq, Eq, Structural)]
pub enum Op {
    BR,
    ADD,
    LD,
    ST,
    JSR,
    AND,
    LDR,
    STR,
    RTI,
    NOT,
    LDI,
    STI,
    JMP,
    RES,
    LEA,
    TRAP,
    Unknown,
}

/// The opcode that a code stands for.
pub open spec fn op_of(op_code: u16) -> Op {
    if op_code == 0 {
        Op::BR
    } else if op_code == 1 {
        Op::ADD
    } else if op_code == 2 {
        Op::LD
    } else if op_code == 3 {
        Op::ST
    } else if op_code == 4 {
        Op::JSR
    } else if op_code == 5 {
        Op::AND
    } else if op_code == 6 {
        Op::LDR
    } else if op_code == 7 {
        Op::STR
    } else if op_code == 8 {
        Op::RTI
    } else if op_code == 9 {
        Op::NOT
    } else if op_code == 10 {
        Op::LDI
    } else if op_code == 11 {
        Op::STI
    } else if op_code == 12 {
        Op::JMP
    } else if op_code == 13 {
        Op::RES
    } else if op_code == 14 {
        Op::LEA
    } else if op_code == 15 {
        Op::TRAP
    } else {
        Op::Unknown
    }
}

/// Bits 15..12 of an instruction: its opcode's code.
pub open spec fn opcode(instr: u16) -> u16 {
    instr >> 12
}

/// Bits 11..9: the destination register, or the source register of a store.
pub open spec fn dr(instr: u16) -> u16 {
    (instr >> 9) & 0x7
}

/// Bits 8..6: the first source register, or the base register.
pub open spec fn sr1(instr: u16) -> u16 {
    (instr >> 6) & 0x7
}

/// Bits 2..0: the second source register.
pub open spec fn sr2(instr: u16) -> u16 {
    instr & 0x7
}

/// Bit 5 of ADD and AND: whether the second operand is an immediate.
pub open spec fn imm_mode(instr: u16) -> bool {
    (instr >> 5) & 0x1 != 0
}

/// Bits 4..0 as a sign-extended immediate.
pub open spec fn imm5(instr: u16) -> u16 {
    sign_extended(instr & 0x1f, 5)
}

/// Bits 5..0 as a sign-extended offset.
pub open spec fn offset6(instr: u16) -> u16 {
    sign_extended(instr & 0x3f, 6)
}

/// Bits 8..0 as a sign-extended offset.
pub open spec fn offset9(instr: u16) -> u16 {
    sign_extended(instr & 0x1ff, 9)
}

/// Bits 10..0 as a sign-extended offset.
pub open spec fn offset11(instr: u16) -> u16 {
    sign_extended(instr & 0x7ff, 11)
}

/// Bits 11..9 of a branch: the mask that is held against the condition
/// register.
pub open spec fn nzp(instr: u16) -> u16 {
    (instr >> 9) & 0x7
}

/// Bit 11 of JSR: whether the target is an offset from the program counter.
pub open spec fn jsr_mode(instr: u16) -> bool {
    (instr >> 11) & 0x1 != 0
}

/// Bits 7..0 of a trap: its vector.
pub open spec fn trap_vector(instr: u16) -> u16 {
    instr & 0xff
}

/// The register fields of an instruction name general registers, and its
/// opcode's code is one of the sixteen.
pub proof fn lemma_fields_in_range(instr: u16)
    ensures
        dr(instr) < 8,
        sr1(instr) < 8,
        sr2(instr) < 8,
        opcode(instr) < 16,
        op_of(opcode(instr)) != Op::Unknown,
{
    assert((instr >> 9) & 0x7 < 8) by (bit_vector);
    assert((instr >> 6) & 0x7 < 8) by (bit_vector);
    assert(instr & 0x7 < 8) by (bit_vector);
    assert(instr >> 12 < 16) by (bit_vector);
}

/// The fields of an instruction as numbers: each is a quotient of the
/// instruction word, taken modulo the size of the field.
pub proof fn lemma_fields_as_numbers(instr: u16)
    ensures
        opcode(instr) == instr / 0x1000,
        dr(instr) == (instr / 0x200) % 8,
        sr1(instr) == (instr / 0x40) % 8,
        sr2(instr) == instr % 8,
        imm_mode(instr) <==> (instr / 0x20) % 2 == 1,
        jsr_mode(instr) <==> (instr / 0x800) % 2 == 1,
        trap_vector(instr) == instr % 0x100,
{
    assert(instr >> 12 == instr / 0x1000) by (bit_vector);
    assert((instr >> 9) & 0x7 == (instr / 0x200) % 8) by (bit_vector);
    assert((instr >> 6) & 0x7 == (instr / 0x40) % 8) by (bit_vector);
    assert(instr & 0x7 == instr % 8) by (bit_vector);
    assert((instr >> 5) & 0x1 == (instr / 0x20) % 2) by (bit_vector);
    assert((instr >> 11) & 0x1 == (instr / 0x800) % 2) by (bit_vector);
    assert(instr & 0xff == instr % 0x100) by (bit_vector);
}

/// Maps a code to its opcode.
pub fn get_op(op_code: u16) -> (op: Op)
    ensures
        op == op_of(op_code),
{
    match op_code {
        0 => Op::BR,
        1 => Op::ADD,
        2 => Op::LD,
        3 => Op::ST,
        4 => Op::JSR,
        5 => Op::AND,
        6 => Op::LDR,
        7 => Op::STR,
        8 => Op::RTI,
        9 => Op::NOT,
        10 => Op::LDI,
        11 => Op::STI,
        12 => Op::JMP,
        13 => Op::RES,
        14 => Op::LEA,
        15 => Op::TRAP,
        _ => Op::Unknown,
    }
}

/// The opcode of an instruction, which is never `Unknown`.
pub(crate) fn op_of_instr(instr: u16) -> (op: Op)
    ensures
        op == op_of(opcode(instr)),
        op != Op::Unknown,
{
    assert(instr >> 12 < 16) by (bit_vector);
    get_op(instr >> 12)
}

/// The register number in bits 11..9.
pub(crate) fn field_dr(instr: u16) -> (r: u16)
    ensures
        r == dr(instr),
        r < 8,
{
    assert((instr >> 9) & 0x7 < 8) by (bit_vector);
    (instr >> 9) & 0x7
}

/// The register number in bits 8..6.
pub(crate) fn field_sr1(instr: u16) -> (r: u16)
    ensures
        r == sr1(instr),
        r < 8,
{
    assert((instr >> 6) & 0x7 < 8) by (bit_vector);
    (instr >> 6) & 0x7
}

/// The register number in bits 2..0.
pub(crate) fn field_sr2(instr: u16) -> (r: u16)
    ensures
        r == sr2(instr),
        r < 8,
{
    assert(instr & 0x7 < 8) by (bit_vector);
    instr & 0x7
}

/// The mask of a branch in bits 11..9.
pub(crate) fn field_nzp(instr: u16) -> (r: u16)
    ensures
        r == nzp(instr),
{
    (instr >> 9) & 0x7
}

/// The sign-extended offset in bits 8..0.
pub(crate) fn field_offset9(instr: u16) -> (r: u16)
    ensures
        r == offset9(instr),
{
    sign_extend(instr & 0x1ff, 9)
}

/// The sign-extended offset in bits 5..0.
pub(crate) fn field_offset6(instr: u16) -> (r: u16)
    ensures
        r == offset6(instr),
{
    sign_extend(instr & 0x3f, 6)
}

} // verus!
