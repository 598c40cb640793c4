//! The fetch-decode-execute cycle, one instruction at a time.
//!
//! The caller runs the loop and owns the console. Before each instruction it
//! asks with `request` what the instruction wants from the input, gets it, and
//! hands it to `step`, which carries the instruction out and returns what
//! belongs on the output.

use crate::decode::{
    field_offset6, field_offset9, field_sr1, op_of, op_of_instr, opcode, trap_vector, Op,
};
use crate::instr::{
    after_add, after_and, after_br, after_jmp, after_jsr, after_ld, after_ldi, after_ldr,
    after_lea, after_not, after_st, after_sti, after_str, br, jmp, jsr, ld, ldi, ldr, lea, not, st,
    sti, str,
};
use crate::trap::{
    after_trap, awaits_key, prompt_text, trap, trap_output, trap_status, Outcome, Status,
    SCAN_LIMIT, TRAP_GETC, TRAP_IN, TRAP_PUTS, TRAP_PUTSP,
};
use crate::vm::{Machine, RegisterType, MR_KBSR, VM};
use crate::word::{high, high_byte, low, low_byte, wrap_add};
use vstd::prelude::*;

verus! {

/// What an instruction wants from the input before it can be carried out.
#[derive(Clone, Copy, Debug, PartialEq, Eq, Structural)]
pub enum Need {
    /// Nothing: the instruction does not look at the input.
    Nothing,
    /// A look at the keyboard that does not wait: the keystroke that is
    /// there, or none.
    Poll,
    /// One character, waited for.
    Key,
}

/// What the caller is to do before the next `step`.
#[derive(Debug)]
pub struct Request {
    /// What to get from the input and hand to `step`.
    pub need: Need,
    /// Bytes to write to the output before the input is read.
    pub prompt: Vec<u8>,
}

impl Machine {
    /// The instruction that the next step carries out.
    pub open spec fn fetched(self, key: Option<u8>) -> u16 {
        self.load(self.pc(), key)
    }

    /// The machine after the fetch: the word at the program counter has been
    /// read, and the program counter stands on the next word.
    pub open spec fn advanced(self, key: Option<u8>) -> Machine {
        self.touched(self.pc(), key).set_pc(wrap_add(self.pc(), 1))
    }
}

/// The machine after `instr` has been carried out on `m`, the machine after
/// the fetch. RTI and the reserved opcode do nothing.
pub open spec fn executed(m: Machine, instr: u16, key: Option<u8>) -> Machine {
    match op_of(opcode(instr)) {
        Op::BR => after_br(m, instr),
        Op::ADD => after_add(m, instr),
        Op::LD => after_ld(m, instr, key),
        Op::ST => after_st(m, instr),
        Op::JSR => after_jsr(m, instr),
        Op::AND => after_and(m, instr),
        Op::LDR => after_ldr(m, instr, key),
        Op::STR => after_str(m, instr),
        Op::NOT => after_not(m, instr),
        Op::LDI => after_ldi(m, instr, key),
        Op::STI => after_sti(m, instr, key),
        Op::JMP => after_jmp(m, instr),
        Op::LEA => after_lea(m, instr),
        Op::TRAP => after_trap(m, instr, key),
        Op::RTI | Op::RES | Op::Unknown => m,
    }
}

/// Whether the next instruction is a trap that reads a character.
pub open spec fn reads_key(m: Machine) -> bool {
    let instr = m.mem[m.pc() as int];
    m.pc() != MR_KBSR && op_of(opcode(instr)) == Op::TRAP && awaits_key(instr)
}

/// The machine after one step. An instruction that reads a character and is
/// given none leaves the machine as it was, the program counter too.
pub open spec fn after_step(m: Machine, key: Option<u8>) -> Machine {
    if reads_key(m) && key is None {
        m
    } else {
        executed(m.advanced(key), m.fetched(key), key)
    }
}

/// The bytes that one step writes to the output: those of the trap, where the
/// instruction is one.
pub open spec fn step_output(m: Machine, key: Option<u8>) -> Seq<u8> {
    if op_of(opcode(m.fetched(key))) == Op::TRAP {
        trap_output(m.advanced(key), m.fetched(key), key)
    } else {
        Seq::empty()
    }
}

/// Whether the machine goes on after one step.
pub open spec fn step_status(m: Machine, key: Option<u8>) -> Status {
    if op_of(opcode(m.fetched(key))) == Op::TRAP {
        trap_status(m.fetched(key), key)
    } else {
        Status::Running
    }
}

/// Whether PUTS from `address` on, reading at most `limit` words of `mem`,
/// comes to the keyboard status register before it comes to the end of its
/// string.
pub open spec fn puts_reaches_keyboard(mem: Seq<u16>, address: u16, limit: nat) -> bool
    decreases limit,
{
    limit > 0 && (address == MR_KBSR || (mem[address as int] != 0 && puts_reaches_keyboard(
        mem,
        wrap_add(address, 1),
        (limit - 1) as nat,
    )))
}

/// Whether PUTSP from `address` on, reading at most `limit` words of `mem`,
/// comes to the keyboard status register before it comes to the end of its
/// string.
pub open spec fn putsp_reaches_keyboard(mem: Seq<u16>, address: u16, limit: nat) -> bool
    decreases limit,
{
    let word = mem[address as int];
    limit > 0 && (address == MR_KBSR || (low_byte(word) != 0 && high_byte(word) != 0
        && putsp_reaches_keyboard(mem, wrap_add(address, 1), (limit - 1) as nat)))
}

/// Whether the instruction `instr`, on `m`, the machine after the fetch,
/// reads the keyboard status register.
pub open spec fn reads_keyboard(m: Machine, instr: u16) -> bool {
    let start = m.reg(RegisterType::R0);
    let vector = trap_vector(instr);
    match op_of(opcode(instr)) {
        Op::LD => m.pc_relative(instr) == MR_KBSR,
        Op::LDR => m.base_relative(instr) == MR_KBSR,
        Op::LDI => m.pc_relative(instr) == MR_KBSR || m.mem[m.pc_relative(instr) as int]
            == MR_KBSR,
        Op::STI => m.pc_relative(instr) == MR_KBSR,
        Op::TRAP => (vector == TRAP_PUTS && puts_reaches_keyboard(m.mem, start, SCAN_LIMIT as nat))
            || (vector == TRAP_PUTSP && putsp_reaches_keyboard(m.mem, start, SCAN_LIMIT as nat)),
        _ => false,
    }
}

/// What the next instruction wants from the input: a character for GETC and
/// IN, a look at the keyboard where the fetch or the instruction reads the
/// keyboard status register, and nothing otherwise.
pub open spec fn need_of(m: Machine) -> Need {
    let instr = m.mem[m.pc() as int];
    if reads_key(m) {
        Need::Key
    } else if m.pc() == MR_KBSR || reads_keyboard(m.set_pc(wrap_add(m.pc(), 1)), instr) {
        Need::Poll
    } else {
        Need::Nothing
    }
}

/// The bytes that go to the output before the input is read: the prompt of
/// the IN trap.
pub open spec fn prompt_of(m: Machine) -> Seq<u8> {
    if reads_key(m) && trap_vector(m.mem[m.pc() as int]) == TRAP_IN {
        prompt_text()
    } else {
        Seq::empty()
    }
}

/// Whether PUTS from `start` would read the keyboard status register.
fn puts_polls(vm: &VM, start: u16) -> (found: bool)
    ensures
        found == puts_reaches_keyboard(vm@.mem, start, SCAN_LIMIT as nat),
{
    let ghost whole = puts_reaches_keyboard(vm@.mem, start, SCAN_LIMIT as nat);
    let mut address: u16 = start;
    let mut left: u32 = SCAN_LIMIT;
    let mut found: bool = false;
    loop
        invariant_except_break
            !found,
            whole == puts_reaches_keyboard(vm@.mem, address, left as nat),
        ensures
            found == whole,
        decreases left,
    {
        if left == 0 {
            break ;
        }
        if address == MR_KBSR {
            found = true;
            break ;
        }
        if vm.peek(address) == 0 {
            break ;
        }
        address = address.wrapping_add(1);
        left = left - 1;
    }
    found
}

/// Whether PUTSP from `start` would read the keyboard status register.
fn putsp_polls(vm: &VM, start: u16) -> (found: bool)
    ensures
        found == putsp_reaches_keyboard(vm@.mem, start, SCAN_LIMIT as nat),
{
    let ghost whole = putsp_reaches_keyboard(vm@.mem, start, SCAN_LIMIT as nat);
    let mut address: u16 = start;
    let mut left: u32 = SCAN_LIMIT;
    let mut found: bool = false;
    loop
        invariant_except_break
            !found,
            whole == putsp_reaches_keyboard(vm@.mem, address, left as nat),
        ensures
            found == whole,
        decreases left,
    {
        if left == 0 {
            break ;
        }
        if address == MR_KBSR {
            found = true;
            break ;
        }
        let c: u16 = vm.peek(address);
        if low(c) == 0 || high(c) == 0 {
            break ;
        }
        address = address.wrapping_add(1);
        left = left - 1;
    }
    found
}

/// The prompt of the IN trap.
fn prompt() -> (text: Vec<u8>)
    ensures
        text@ == prompt_text(),
{
    vec![
        'E' as u8,
        'n' as u8,
        't' as u8,
        'e' as u8,
        'r' as u8,
        ' ' as u8,
        'a' as u8,
        ' ' as u8,
        'c' as u8,
        'h' as u8,
        'a' as u8,
        'r' as u8,
        'a' as u8,
        'c' as u8,
        't' as u8,
        'e' as u8,
        'r' as u8,
        ':' as u8,
        ' ' as u8,
    ]
}

/// Says what the next instruction wants from the input, and what is to be
/// written to the output before the input is read. The machine is not
/// changed.
pub fn request(vm: &VM) -> (r: Request)
    ensures
        r.need == need_of(vm@),
        r.prompt@ == prompt_of(vm@),
{
    proof {
        use_type_invariant(vm);
    }
    let pc_val: u16 = vm.read_pc();
    if pc_val == MR_KBSR {
        return Request { need: Need::Poll, prompt: Vec::new() };
    }
    let instr: u16 = vm.peek(pc_val);
    let next: u16 = pc_val.wrapping_add(1);
    let polls: bool = match op_of_instr(instr) {
        Op::LD => next.wrapping_add(field_offset9(instr)) == MR_KBSR,
        Op::LDR => vm.read_reg_by_index(field_sr1(instr)).wrapping_add(field_offset6(instr))
            == MR_KBSR,
        Op::LDI => {
            let pointer: u16 = next.wrapping_add(field_offset9(instr));
            pointer == MR_KBSR || vm.peek(pointer) == MR_KBSR
        },
        Op::STI => next.wrapping_add(field_offset9(instr)) == MR_KBSR,
        Op::TRAP => {
            let vector: u16 = instr & 0xff;
            if vector == TRAP_GETC {
                return Request { need: Need::Key, prompt: Vec::new() };
            }
            if vector == TRAP_IN {
                return Request { need: Need::Key, prompt: prompt() };
            }
            let start: u16 = vm.read_reg(RegisterType::R0);
            (vector == TRAP_PUTS && puts_polls(vm, start)) || (vector == TRAP_PUTSP && putsp_polls(
                vm,
                start,
            ))
        },
        _ => false,
    };
    if polls {
        Request { need: Need::Poll, prompt: Vec::new() }
    } else {
        Request { need: Need::Nothing, prompt: Vec::new() }
    }
}

/// Carries out the instruction at the program counter: fetches it, moves the
/// program counter to the next word, and dispatches on the opcode. `key` is
/// what the input gave in answer to `request`: the character read, or what a
/// look at the keyboard found.
pub fn step(vm: &mut VM, key: Option<u8>) -> (outcome: Outcome)
    ensures
        final(vm)@ == after_step(old(vm)@, key),
        outcome.output@ == step_output(old(vm)@, key),
        outcome.status == step_status(old(vm)@, key),
{
    proof {
        use_type_invariant(&*vm);
    }
    let pc_val: u16 = vm.read_pc();
    if key.is_none() && pc_val != MR_KBSR {
        let waiting: u16 = vm.peek(pc_val);
        let vector: u16 = waiting & 0xff;
        if op_of_instr(waiting) == Op::TRAP && (vector == TRAP_GETC || vector == TRAP_IN) {
            return Outcome { output: Vec::new(), status: Status::Blocked };
        }
    }
    let instr: u16 = vm.read_memory(pc_val, key);
    vm.add_pc();
    match op_of_instr(instr) {
        Op::BR => br(vm, instr),
        Op::ADD => crate::instr::add(vm, instr),
        Op::LD => ld(vm, instr, key),
        Op::ST => st(vm, instr),
        Op::JSR => jsr(vm, instr),
        Op::AND => crate::instr::and(vm, instr),
        Op::LDR => ldr(vm, instr, key),
        Op::STR => str(vm, instr),
        Op::NOT => not(vm, instr),
        Op::LDI => ldi(vm, instr, key),
        Op::STI => sti(vm, instr, key),
        Op::JMP => jmp(vm, instr),
        Op::LEA => lea(vm, instr),
        Op::TRAP => {
            return trap(vm, instr, key);
        },
        _ => {},
    }
    Outcome { output: Vec::new(), status: Status::Running }
}

} // verus!
