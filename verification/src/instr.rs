//! The executors of the fourteen instructions that are not traps.
//!
//! Each takes the machine as it stands after the fetch, with the program
//! counter already on the next instruction, and the instruction word. Those
//! that read memory also take what the keyboard holds, for a read that falls on
//! the keyboard status register.

use crate::decode::{
    dr, field_dr, field_nzp, field_offset6, field_offset9, field_sr1, field_sr2, imm5, imm_mode,
    jsr_mode, nzp, offset11, offset6, offset9, sr1, sr2,
};
use crate::vm::{flag_of, one_hot, Machine, RegisterType, REG_COUNT, VM};
use crate::word::{sign_extend, wrap_add};
use vstd::prelude::*;

verus! {

impl Machine {
    /// The machine after general register `r` has received `v` and the
    /// condition register the sign of `v`.
    pub open spec fn with_result(self, r: u16, v: u16) -> Machine {
        self.set_reg(r as int, v).flagged(v)
    }

    /// The address that an instruction forms from the program counter and its
    /// nine-bit offset.
    pub open spec fn pc_relative(self, instr: u16) -> u16 {
        wrap_add(self.pc(), offset9(instr))
    }

    /// The address that an instruction forms from its base register and its
    /// six-bit offset.
    pub open spec fn base_relative(self, instr: u16) -> u16 {
        wrap_add(self.regs[sr1(instr) as int], offset6(instr))
    }

    /// The second operand of ADD and AND: the immediate, or the second source
    /// register.
    pub open spec fn operand(self, instr: u16) -> u16 {
        if imm_mode(instr) {
            imm5(instr)
        } else {
            self.regs[sr2(instr) as int]
        }
    }
}

/// BR: where the mask in bits 11..9 and the condition register have a bit in
/// common, the program counter moves by the offset; otherwise nothing
/// changes.
pub open spec fn after_br(m: Machine, instr: u16) -> Machine {
    if nzp(instr) & m.cond() != 0 {
        m.set_pc(m.pc_relative(instr))
    } else {
        m
    }
}

/// ADD: the destination receives the sum modulo 2^16.
pub open spec fn after_add(m: Machine, instr: u16) -> Machine {
    m.with_result(dr(instr), wrap_add(m.regs[sr1(instr) as int], m.operand(instr)))
}

/// AND: the destination receives the bitwise conjunction.
pub open spec fn after_and(m: Machine, instr: u16) -> Machine {
    m.with_result(dr(instr), m.regs[sr1(instr) as int] & m.operand(instr))
}

/// NOT: the destination receives the bitwise complement.
pub open spec fn after_not(m: Machine, instr: u16) -> Machine {
    m.with_result(dr(instr), !m.regs[sr1(instr) as int])
}

/// LD: the destination receives the word at the PC-relative address.
pub open spec fn after_ld(m: Machine, instr: u16, key: Option<u8>) -> Machine {
    let address = m.pc_relative(instr);
    m.touched(address, key).with_result(dr(instr), m.load(address, key))
}

/// LDR: the destination receives the word at the base-relative address.
pub open spec fn after_ldr(m: Machine, instr: u16, key: Option<u8>) -> Machine {
    let address = m.base_relative(instr);
    m.touched(address, key).with_result(dr(instr), m.load(address, key))
}

/// LDI: the destination receives the word whose address is the word at the
/// PC-relative address.
pub open spec fn after_ldi(m: Machine, instr: u16, key: Option<u8>) -> Machine {
    let pointer = m.pc_relative(instr);
    let m1 = m.touched(pointer, key);
    let address = m.load(pointer, key);
    m1.touched(address, key).with_result(dr(instr), m1.load(address, key))
}

/// LEA: the destination receives the PC-relative address itself.
pub open spec fn after_lea(m: Machine, instr: u16) -> Machine {
    m.with_result(dr(instr), m.pc_relative(instr))
}

/// ST: the word at the PC-relative address receives the source register.
pub open spec fn after_st(m: Machine, instr: u16) -> Machine {
    m.store(m.pc_relative(instr), m.regs[dr(instr) as int])
}

/// STR: the word at the base-relative address receives the source register.
pub open spec fn after_str(m: Machine, instr: u16) -> Machine {
    m.store(m.base_relative(instr), m.regs[dr(instr) as int])
}

/// STI: the word whose address is the word at the PC-relative address
/// receives the source register.
pub open spec fn after_sti(m: Machine, instr: u16, key: Option<u8>) -> Machine {
    let pointer = m.pc_relative(instr);
    m.touched(pointer, key).store(m.load(pointer, key), m.regs[dr(instr) as int])
}

/// JSR and JSRR: R7 receives the program counter, which then moves by the
/// eleven-bit offset, or to what the base register holds once R7 is written.
pub open spec fn after_jsr(m: Machine, instr: u16) -> Machine {
    let linked = m.set_reg(RegisterType::R7.index(), m.pc());
    if jsr_mode(instr) {
        linked.set_pc(wrap_add(m.pc(), offset11(instr)))
    } else {
        linked.set_pc(linked.regs[sr1(instr) as int])
    }
}

/// JMP and RET: the program counter moves to what the base register holds.
pub open spec fn after_jmp(m: Machine, instr: u16) -> Machine {
    m.set_pc(m.regs[sr1(instr) as int])
}

/// Carries out BR: moves the program counter by the offset where the mask
/// in bits 11..9 and the condition register have a bit in common.
pub fn br(vm: &mut VM, instr: u16)
    ensures
        final(vm)@ == after_br(old(vm)@, instr),
        final(vm)@.pc() == if nzp(instr) & old(vm)@.cond() != 0 {
            wrap_add(old(vm)@.pc(), offset9(instr))
        } else {
            old(vm)@.pc()
        },
        final(vm)@.mem == old(vm)@.mem,
        forall|i: int|
            0 <= i < REG_COUNT && i != RegisterType::PC.index() ==> final(vm)@.regs[i]
                == #[trigger] old(vm)@.regs[i],
{
    proof {
        use_type_invariant(&*vm);
    }
    let flags: u16 = field_nzp(instr);
    let pc_offset: u16 = field_offset9(instr);
    if (flags & vm.read_reg(RegisterType::COND)) != 0 {
        let pc_val: u16 = vm.read_pc();
        vm.write_reg(RegisterType::PC, pc_val.wrapping_add(pc_offset));
    }
}

/// Carries out ADD, with a register or an immediate as the second operand.
pub fn add(vm: &mut VM, instr: u16)
    ensures
        final(vm)@ == after_add(old(vm)@, instr),
        final(vm)@.cond() == flag_of(final(vm)@.regs[dr(instr) as int]),
        one_hot(final(vm)@.cond()),
{
    proof {
        use_type_invariant(&*vm);
    }
    let r0: u16 = field_dr(instr);
    let r1: u16 = field_sr1(instr);
    let imm5_flag: u16 = (instr >> 5) & 0x1;
    if imm5_flag == 0 {
        let r2: u16 = field_sr2(instr);
        let val1: u16 = vm.read_reg_by_index(r1);
        let val2: u16 = vm.read_reg_by_index(r2);
        vm.write_reg_by_index(r0, val1.wrapping_add(val2));
    } else {
        let imm5: u16 = sign_extend(instr & 0x1f, 5);
        let val1: u16 = vm.read_reg_by_index(r1);
        vm.write_reg_by_index(r0, val1.wrapping_add(imm5));
    }
    vm.update_flags_by_index(r0);
}

/// Carries out LD.
pub fn ld(vm: &mut VM, instr: u16, key: Option<u8>)
    ensures
        final(vm)@ == after_ld(old(vm)@, instr, key),
        final(vm)@.cond() == flag_of(final(vm)@.regs[dr(instr) as int]),
        one_hot(final(vm)@.cond()),
{
    proof {
        use_type_invariant(&*vm);
    }
    let r0: u16 = field_dr(instr);
    let pc_offset: u16 = field_offset9(instr);
    let mem_add: u16 = vm.read_pc().wrapping_add(pc_offset);
    let mem_val: u16 = vm.read_memory(mem_add, key);
    vm.write_reg_by_index(r0, mem_val);
    vm.update_flags_by_index(r0);
}

/// Carries out ST.
pub fn st(vm: &mut VM, instr: u16)
    ensures
        final(vm)@ == after_st(old(vm)@, instr),
{
    proof {
        use_type_invariant(&*vm);
    }
    let r0: u16 = field_dr(instr);
    let pc_offset: u16 = field_offset9(instr);
    let mem_add: u16 = vm.read_pc().wrapping_add(pc_offset);
    let val: u16 = vm.read_reg_by_index(r0);
    vm.write_memory(mem_add, val);
}

/// Carries out JSR or JSRR, by bit 11 of the instruction.
pub fn jsr(vm: &mut VM, instr: u16)
    ensures
        final(vm)@ == after_jsr(old(vm)@, instr),
{
    proof {
        use_type_invariant(&*vm);
    }
    let pc_val: u16 = vm.read_reg(RegisterType::PC);
    vm.write_reg(RegisterType::R7, pc_val);
    let flag: u16 = (instr >> 11) & 0x1;
    if flag == 0 {
        let base_r: u16 = field_sr1(instr);
        let target: u16 = vm.read_reg_by_index(base_r);
        vm.write_reg(RegisterType::PC, target);
    } else {
        let pc_offset: u16 = sign_extend(instr & 0x7ff, 11);
        vm.write_reg(RegisterType::PC, pc_val.wrapping_add(pc_offset));
    }
}

/// Carries out AND, with a register or an immediate as the second operand.
pub fn and(vm: &mut VM, instr: u16)
    ensures
        final(vm)@ == after_and(old(vm)@, instr),
        final(vm)@.cond() == flag_of(final(vm)@.regs[dr(instr) as int]),
        one_hot(final(vm)@.cond()),
{
    proof {
        use_type_invariant(&*vm);
    }
    let r0: u16 = field_dr(instr);
    let r1: u16 = field_sr1(instr);
    let imm5_flag: u16 = (instr >> 5) & 0x1;
    if imm5_flag == 0 {
        let r2: u16 = field_sr2(instr);
        let val: u16 = vm.read_reg_by_index(r1) & vm.read_reg_by_index(r2);
        vm.write_reg_by_index(r0, val);
    } else {
        let imm5: u16 = sign_extend(instr & 0x1f, 5);
        let val: u16 = vm.read_reg_by_index(r1) & imm5;
        vm.write_reg_by_index(r0, val);
    }
    vm.update_flags_by_index(r0);
}

/// Carries out LDR.
pub fn ldr(vm: &mut VM, instr: u16, key: Option<u8>)
    ensures
        final(vm)@ == after_ldr(old(vm)@, instr, key),
        final(vm)@.cond() == flag_of(final(vm)@.regs[dr(instr) as int]),
        one_hot(final(vm)@.cond()),
{
    proof {
        use_type_invariant(&*vm);
    }
    let r0: u16 = field_dr(instr);
    let r1: u16 = field_sr1(instr);
    let offset: u16 = field_offset6(instr);
    let mem_add: u16 = vm.read_reg_by_index(r1).wrapping_add(offset);
    let mem_val: u16 = vm.read_memory(mem_add, key);
    vm.write_reg_by_index(r0, mem_val);
    vm.update_flags_by_index(r0);
}

/// Carries out STR.
pub fn str(vm: &mut VM, instr: u16)
    ensures
        final(vm)@ == after_str(old(vm)@, instr),
{
    proof {
        use_type_invariant(&*vm);
    }
    let r0: u16 = field_dr(instr);
    let r1: u16 = field_sr1(instr);
    let offset: u16 = field_offset6(instr);
    let mem_add: u16 = vm.read_reg_by_index(r1).wrapping_add(offset);
    let val: u16 = vm.read_reg_by_index(r0);
    vm.write_memory(mem_add, val);
}

/// Carries out NOT.
pub fn not(vm: &mut VM, instr: u16)
    ensures
        final(vm)@ == after_not(old(vm)@, instr),
        final(vm)@.cond() == flag_of(final(vm)@.regs[dr(instr) as int]),
        one_hot(final(vm)@.cond()),
{
    proof {
        use_type_invariant(&*vm);
    }
    let r0: u16 = field_dr(instr);
    let r1: u16 = field_sr1(instr);
    let val: u16 = !vm.read_reg_by_index(r1);
    vm.write_reg_by_index(r0, val);
    vm.update_flags_by_index(r0);
}

/// Carries out LDI.
pub fn ldi(vm: &mut VM, instr: u16, key: Option<u8>)
    ensures
        final(vm)@ == after_ldi(old(vm)@, instr, key),
        final(vm)@.cond() == flag_of(final(vm)@.regs[dr(instr) as int]),
        one_hot(final(vm)@.cond()),
{
    proof {
        use_type_invariant(&*vm);
    }
    let r0: u16 = field_dr(instr);
    let pc_offset: u16 = field_offset9(instr);
    let first_mem_add: u16 = vm.read_pc().wrapping_add(pc_offset);
    let second_mem_add: u16 = vm.read_memory(first_mem_add, key);
    let res: u16 = vm.read_memory(second_mem_add, key);
    vm.write_reg_by_index(r0, res);
    vm.update_flags_by_index(r0);
}

/// Carries out STI.
pub fn sti(vm: &mut VM, instr: u16, key: Option<u8>)
    ensures
        final(vm)@ == after_sti(old(vm)@, instr, key),
{
    proof {
        use_type_invariant(&*vm);
    }
    let r0: u16 = field_dr(instr);
    let pc_offset: u16 = field_offset9(instr);
    let read_mem_add: u16 = vm.read_pc().wrapping_add(pc_offset);
    let write_mem_add: u16 = vm.read_memory(read_mem_add, key);
    let val: u16 = vm.read_reg_by_index(r0);
    vm.write_memory(write_mem_add, val);
}

/// Carries out JMP; RET is JMP through R7.
pub fn jmp(vm: &mut VM, instr: u16)
    ensures
        final(vm)@ == after_jmp(old(vm)@, instr),
{
    proof {
        use_type_invariant(&*vm);
    }
    let r0: u16 = field_sr1(instr);
    let target: u16 = vm.read_reg_by_index(r0);
    vm.write_reg(RegisterType::PC, target);
}

/// Carries out LEA, which reads no memory and writes none.
pub fn lea(vm: &mut VM, instr: u16)
    ensures
        final(vm)@ == after_lea(old(vm)@, instr),
        final(vm)@.cond() == flag_of(final(vm)@.regs[dr(instr) as int]),
        one_hot(final(vm)@.cond()),
        final(vm)@.mem == old(vm)@.mem,
{
    proof {
        use_type_invariant(&*vm);
    }
    let r0: u16 = field_dr(instr);
    let pc_offset: u16 = field_offset9(instr);
    let val: u16 = vm.read_pc().wrapping_add(pc_offset);
    vm.write_reg_by_index(r0, val);
    vm.update_flags_by_index(r0);
}

} // verus!
