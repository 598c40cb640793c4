//! The trap service routines: console input and output, and halt.
//!
//! Nothing here touches a console. A routine hands back the bytes that belong
//! on the output, and takes the byte that came from the input as an argument.

use crate::decode::trap_vector;
use crate::vm::{Machine, RegisterType, VM};
use crate::word::{high, high_byte, low, low_byte, wrap_add};
use vstd::prelude::*;

verus! {

/// Trap vector: read one character into R0.
pub const TRAP_GETC: u16 = 0x20;

/// Trap vector: write the character in R0.
pub const TRAP_OUT: u16 = 0x21;

/// Trap vector: write the string of words that R0 points to.
pub const TRAP_PUTS: u16 = 0x22;

/// Trap vector: prompt for one character, echo it and leave it in R0.
pub const TRAP_IN: u16 = 0x23;

/// Trap vector: write the string of packed bytes that R0 points to.
pub const TRAP_PUTSP: u16 = 0x24;

/// Trap vector: stop the machine.
pub const TRAP_HALT: u16 = 0x25;

/// The most words that one string routine reads: each word of memory once.
pub const SCAN_LIMIT: u32 = 0x1_0000;

/// What became of an instruction.
#[derive(Clone, Copy, Debug, PartialEq, Eq, Structural)]
pub enum Status {
    /// The instruction was carried out and the machine goes on.
    Running,
    /// The instruction wants a character from the input and none was given:
    /// the machine stands as it stood before.
    Blocked,
    /// The instruction was HALT.
    Halted,
}

/// The visible result of an instruction: the bytes it wrote to the output, in
/// order, and whether the machine goes on.
#[derive(Debug)]
pub struct Outcome {
    pub output: Vec<u8>,
    pub status: Status,
}

/// The bytes of `HALT!` and a newline.
pub open spec fn halt_text() -> Seq<u8> {
    seq!['H' as u8, 'A' as u8, 'L' as u8, 'T' as u8, '!' as u8, '\n' as u8]
}

/// The bytes of the prompt `Enter a character: `.
pub open spec fn prompt_text() -> Seq<u8> {
    seq![
        'E' as u8,
        'n' as u8,
        't' as u8,
        'e' as u8,
        'r' as u8,
        ' ' as u8,
        'a' as u8,
        ' ' as u8,
        'c' as u8,
        'h' as u8,
        'a' as u8,
        'r' as u8,
        'a' as u8,
        'c' as u8,
        't' as u8,
        'e' as u8,
        'r' as u8,
        ':' as u8,
        ' ' as u8,
    ]
}

/// What reading a string leaves behind: the bytes written and the machine.
pub ghost struct Scan {
    pub text: Seq<u8>,
    pub machine: Machine,
}

/// PUTS from `address` on, reading at most `limit` words: the low byte of each
/// word up to the first word that is zero. Each word is read as any other read
/// of memory is, so the one at the keyboard status register looks at the
/// keyboard first.
pub open spec fn puts_scan(m: Machine, key: Option<u8>, address: u16, limit: nat) -> Scan
    decreases limit,
{
    let word = m.load(address, key);
    let read = m.touched(address, key);
    if limit == 0 {
        Scan { text: Seq::empty(), machine: m }
    } else if word == 0 {
        Scan { text: Seq::empty(), machine: read }
    } else {
        let rest = puts_scan(read, key, wrap_add(address, 1), (limit - 1) as nat);
        Scan { text: seq![low_byte(word)] + rest.text, machine: rest.machine }
    }
}

/// PUTSP from `address` on, reading at most `limit` words: of each word the
/// low byte and then the high byte, up to the first byte that is zero.
pub open spec fn putsp_scan(m: Machine, key: Option<u8>, address: u16, limit: nat) -> Scan
    decreases limit,
{
    let word = m.load(address, key);
    let read = m.touched(address, key);
    if limit == 0 {
        Scan { text: Seq::empty(), machine: m }
    } else if low_byte(word) == 0 {
        Scan { text: Seq::empty(), machine: read }
    } else if high_byte(word) == 0 {
        Scan { text: seq![low_byte(word)], machine: read }
    } else {
        let rest = putsp_scan(read, key, wrap_add(address, 1), (limit - 1) as nat);
        Scan { text: seq![low_byte(word), high_byte(word)] + rest.text, machine: rest.machine }
    }
}

/// Whether the trap reads a character from the input: GETC and IN do.
pub open spec fn awaits_key(instr: u16) -> bool {
    trap_vector(instr) == TRAP_GETC || trap_vector(instr) == TRAP_IN
}

/// The machine after a trap. A trap that reads a character and is given none
/// changes nothing. Every other trap saves the program counter in R7; GETC
/// and IN then put the character in R0 and its sign in the condition
/// register, and the string routines leave what their reads left.
pub open spec fn after_trap(m: Machine, instr: u16, key: Option<u8>) -> Machine {
    let linked = m.set_reg(RegisterType::R7.index(), m.pc());
    let start = linked.reg(RegisterType::R0);
    if awaits_key(instr) {
        match key {
            Some(k) => linked.with_result(0, k as u16),
            None => m,
        }
    } else if trap_vector(instr) == TRAP_PUTS {
        puts_scan(linked, key, start, SCAN_LIMIT as nat).machine
    } else if trap_vector(instr) == TRAP_PUTSP {
        putsp_scan(linked, key, start, SCAN_LIMIT as nat).machine
    } else {
        linked
    }
}

/// The bytes that a trap writes to the output. Of IN that is the echo of the
/// character: its prompt goes out before the character is read.
pub open spec fn trap_output(m: Machine, instr: u16, key: Option<u8>) -> Seq<u8> {
    let start = m.reg(RegisterType::R0);
    let linked = m.set_reg(RegisterType::R7.index(), m.pc());
    if trap_vector(instr) == TRAP_OUT {
        seq![low_byte(start)]
    } else if trap_vector(instr) == TRAP_PUTS {
        puts_scan(linked, key, start, SCAN_LIMIT as nat).text
    } else if trap_vector(instr) == TRAP_IN {
        match key {
            Some(k) => seq![k],
            None => Seq::empty(),
        }
    } else if trap_vector(instr) == TRAP_PUTSP {
        putsp_scan(linked, key, start, SCAN_LIMIT as nat).text
    } else if trap_vector(instr) == TRAP_HALT {
        halt_text()
    } else {
        Seq::empty()
    }
}

/// Whether the machine goes on after a trap.
pub open spec fn trap_status(instr: u16, key: Option<u8>) -> Status {
    if awaits_key(instr) && key is None {
        Status::Blocked
    } else if trap_vector(instr) == TRAP_HALT {
        Status::Halted
    } else {
        Status::Running
    }
}

/// Reads the string at `start` for PUTS and returns its bytes.
fn puts(vm: &mut VM, key: Option<u8>, start: u16) -> (text: Vec<u8>)
    ensures
        text@ == puts_scan(old(vm)@, key, start, SCAN_LIMIT as nat).text,
        final(vm)@ == puts_scan(old(vm)@, key, start, SCAN_LIMIT as nat).machine,
{
    let ghost whole = puts_scan(vm@, key, start, SCAN_LIMIT as nat);
    let mut text: Vec<u8> = Vec::new();
    let mut address: u16 = start;
    let mut left: u32 = SCAN_LIMIT;
    proof {
        use_type_invariant(&*vm);
    }
    loop
        invariant_except_break
            whole.text == text@ + puts_scan(vm@, key, address, left as nat).text,
            whole.machine == puts_scan(vm@, key, address, left as nat).machine,
        invariant
            vm@.wf(),
        ensures
            whole.text == text@,
            whole.machine == vm@,
        decreases left,
    {
        if left == 0 {
            break ;
        }
        let c: u16 = vm.read_memory(address, key);
        if c == 0 {
            break ;
        }
        text.push(low(c));
        address = address.wrapping_add(1);
        left = left - 1;
        proof {
            let rest = puts_scan(vm@, key, address, left as nat).text;
            assert(text@ + rest == text@.drop_last() + (seq![low_byte(c)] + rest));
        }
    }
    text
}

/// Reads the string at `start` for PUTSP and returns its bytes.
fn putsp(vm: &mut VM, key: Option<u8>, start: u16) -> (text: Vec<u8>)
    ensures
        text@ == putsp_scan(old(vm)@, key, start, SCAN_LIMIT as nat).text,
        final(vm)@ == putsp_scan(old(vm)@, key, start, SCAN_LIMIT as nat).machine,
{
    let ghost whole = putsp_scan(vm@, key, start, SCAN_LIMIT as nat);
    let mut text: Vec<u8> = Vec::new();
    let mut address: u16 = start;
    let mut left: u32 = SCAN_LIMIT;
    proof {
        use_type_invariant(&*vm);
    }
    loop
        invariant_except_break
            whole.text == text@ + putsp_scan(vm@, key, address, left as nat).text,
            whole.machine == putsp_scan(vm@, key, address, left as nat).machine,
        invariant
            vm@.wf(),
        ensures
            whole.text == text@,
            whole.machine == vm@,
        decreases left,
    {
        if left == 0 {
            break ;
        }
        let c: u16 = vm.read_memory(address, key);
        let c1: u8 = low(c);
        if c1 == 0 {
            break ;
        }
        text.push(c1);
        let c2: u8 = high(c);
        if c2 == 0 {
            assert(text@ == text@.drop_last() + seq![c1]);
            break ;
        }
        text.push(c2);
        address = address.wrapping_add(1);
        left = left - 1;
        proof {
            let rest = putsp_scan(vm@, key, address, left as nat).text;
            assert(text@ + rest == text@.drop_last().drop_last() + (seq![c1, c2] + rest));
        }
    }
    text
}

/// Carries out a trap instruction. `key` is the character that the input
/// gave for this trap, or what the keyboard holds where a string routine
/// reads the keyboard status register.
pub fn trap(vm: &mut VM, instr: u16, key: Option<u8>) -> (outcome: Outcome)
    ensures
        final(vm)@ == after_trap(old(vm)@, instr, key),
        outcome.output@ == trap_output(old(vm)@, instr, key),
        outcome.status == trap_status(instr, key),
{
    proof {
        use_type_invariant(&*vm);
    }
    let vector: u16 = instr & 0xff;
    let pc_val: u16 = vm.read_pc();
    let mut output: Vec<u8> = Vec::new();
    if vector == TRAP_GETC || vector == TRAP_IN {
        match key {
            Some(c) => {
                vm.write_reg(RegisterType::R7, pc_val);
                vm.write_reg(RegisterType::R0, c as u16);
                vm.update_flags(RegisterType::R0);
                if vector == TRAP_IN {
                    output.push(c);
                }
            },
            None => {
                return Outcome { output, status: Status::Blocked };
            },
        }
    } else if vector == TRAP_OUT {
        vm.write_reg(RegisterType::R7, pc_val);
        let c: u8 = low(vm.read_reg(RegisterType::R0));
        output.push(c);
    } else if vector == TRAP_PUTS {
        vm.write_reg(RegisterType::R7, pc_val);
        let start: u16 = vm.read_reg(RegisterType::R0);
        output = puts(vm, key, start);
    } else if vector == TRAP_PUTSP {
        vm.write_reg(RegisterType::R7, pc_val);
        let start: u16 = vm.read_reg(RegisterType::R0);
        output = putsp(vm, key, start);
    } else if vector == TRAP_HALT {
        vm.write_reg(RegisterType::R7, pc_val);
        output = vec!['H' as u8, 'A' as u8, 'L' as u8, 'T' as u8, '!' as u8, '\n' as u8];
        return Outcome { output, status: Status::Halted };
    } else {
        vm.write_reg(RegisterType::R7, pc_val);
    }
    Outcome { output, status: Status::Running }
}

} // verus!
