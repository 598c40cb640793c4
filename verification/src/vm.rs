//! The machine state: ten registers and 65,536 words of memory, two of which
//! are the keyboard's status and data registers.
//!
//! The emulator core never touches a terminal. Wherever the machine would look
//! at the keyboard, the caller hands in what the keyboard held at that moment
//! as an `Option<u8>`: the keystroke that was waiting, or `None`.

use vstd::prelude::*;

verus! {

/// Number of words of memory.
pub const MEMORY_MAX: usize = 0x1_0000;

/// Number of registers: eight general ones, the program counter and the
/// condition register.
pub const REG_COUNT: usize = 10;

/// Where the program counter stands after a reset.
pub const PC_START: u16 = 0x3000;

/// Address of the keyboard status register.
pub const MR_KBSR: u16 = 0xFE00;

/// Address of the keyboard data register.
pub const MR_KBDR: u16 = 0xFE02;

/// Condition flag: the last result was negative.
pub const FL_NEG: u16 = 1;

/// Condition flag: the last result was zero.
pub const FL_ZRO: u16 = 2;

/// Condition flag: the last result was positive.
pub const FL_POS: u16 = 4;

/// Names of the ten registers.
#[derive(Clone, Copy, Debug, PartialEq, Eq, Structural)]
pub enum RegisterType {
    R0,
    R1,
    R2,
    R3,
    R4,
    R5,
    R6,
    R7,
    PC,
    COND,
}

impl RegisterType {
    /// Position of the register in the register file.
    pub open spec fn index(self) -> int {
        match self {
            RegisterType::R0 => 0,
            RegisterType::R1 => 1,
            RegisterType::R2 => 2,
            RegisterType::R3 => 3,
            RegisterType::R4 => 4,
            RegisterType::R5 => 5,
            RegisterType::R6 => 6,
            RegisterType::R7 => 7,
            RegisterType::PC => 8,
            RegisterType::COND => 9,
        }
    }
}

/// The one-hot condition flag that stands for the sign of `val`, read as a
/// two's-complement number.
pub open spec fn flag_of(val: u16) -> u16 {
    if val == 0 {
        FL_ZRO
    } else if val >= 0x8000 {
        FL_NEG
    } else {
        FL_POS
    }
}

/// Exactly one of the three condition flags.
pub open spec fn one_hot(cond: u16) -> bool {
    cond == FL_NEG || cond == FL_ZRO || cond == FL_POS
}

/// The mathematical model of a machine: its register file and its memory.
pub ghost struct Machine {
    pub regs: Seq<u16>,
    pub mem: Seq<u16>,
}

impl Machine {
    /// Ten registers and 2^16 words of memory.
    pub open spec fn wf(self) -> bool {
        self.regs.len() == REG_COUNT && self.mem.len() == MEMORY_MAX
    }

    /// The machine after a reset: everything zero but the program counter.
    pub open spec fn reset() -> Machine {
        Machine {
            regs: Seq::new(
                REG_COUNT as nat,
                |i: int|
                    if i == RegisterType::PC.index() {
                        PC_START
                    } else {
                        0u16
                    },
            ),
            mem: Seq::new(MEMORY_MAX as nat, |a: int| 0u16),
        }
    }

    /// What the register `t` holds.
    pub open spec fn reg(self, t: RegisterType) -> u16 {
        self.regs[t.index()]
    }

    /// What the program counter holds.
    pub open spec fn pc(self) -> u16 {
        self.reg(RegisterType::PC)
    }

    /// What the condition register holds.
    pub open spec fn cond(self) -> u16 {
        self.reg(RegisterType::COND)
    }

    /// The same machine with register `i` holding `v`.
    pub open spec fn set_reg(self, i: int, v: u16) -> Machine {
        Machine { regs: self.regs.update(i, v), mem: self.mem }
    }

    /// The same machine with the program counter at `v`.
    pub open spec fn set_pc(self, v: u16) -> Machine {
        self.set_reg(RegisterType::PC.index(), v)
    }

    /// The same machine with the word at `address` holding `val`.
    pub open spec fn store(self, address: u16, val: u16) -> Machine {
        Machine { regs: self.regs, mem: self.mem.update(address as int, val) }
    }

    /// The same machine with the condition register showing the sign of `val`.
    pub open spec fn flagged(self, val: u16) -> Machine {
        self.set_reg(RegisterType::COND.index(), flag_of(val))
    }

    /// The machine after it has looked at the keyboard. With a keystroke
    /// waiting, the status register gets its high bit and the data register the
    /// keystroke; with none, the status register is cleared.
    pub open spec fn polled(self, key: Option<u8>) -> Machine {
        match key {
            Some(k) => self.store(MR_KBSR, 0x8000).store(MR_KBDR, k as u16),
            None => self.store(MR_KBSR, 0),
        }
    }

    /// The machine after a read of `address`: reading the keyboard status
    /// register looks at the keyboard, reading anything else changes nothing.
    pub open spec fn touched(self, address: u16, key: Option<u8>) -> Machine {
        if address == MR_KBSR {
            self.polled(key)
        } else {
            self
        }
    }

    /// The word that a read of `address` returns.
    pub open spec fn load(self, address: u16, key: Option<u8>) -> u16 {
        self.touched(address, key).mem[address as int]
    }
}

/// An LC-3 machine.
pub struct VM {
    regs: Vec<u16>,
    memory: Vec<u16>,
}

impl View for VM {
    type V = Machine;

    closed spec fn view(&self) -> Machine {
        Machine { regs: self.regs@, mem: self.memory@ }
    }
}

impl VM {
    /// Every machine has ten registers and 2^16 words of memory.
    #[verifier::type_invariant]
    pub open spec fn inv(self) -> bool {
        self@.wf()
    }

    /// A machine after a reset.
    pub fn new() -> (vm: VM)
        ensures
            vm@ == Machine::reset(),
    {
        let mut vm = VM { regs: vec![0u16; REG_COUNT], memory: vec![0u16; MEMORY_MAX] };
        vm.write_reg(RegisterType::PC, PC_START);
        proof {
            assert(vm@.regs =~= Machine::reset().regs);
            assert(vm@.mem =~= Machine::reset().mem);
        }
        vm
    }

    /// Position of a register in the register file.
    pub fn get_index(t: RegisterType) -> (i: usize)
        ensures
            i == t.index(),
            i < REG_COUNT,
    {
        match t {
            RegisterType::R0 => 0,
            RegisterType::R1 => 1,
            RegisterType::R2 => 2,
            RegisterType::R3 => 3,
            RegisterType::R4 => 4,
            RegisterType::R5 => 5,
            RegisterType::R6 => 6,
            RegisterType::R7 => 7,
            RegisterType::PC => 8,
            RegisterType::COND => 9,
        }
    }

    /// Reads a register by name.
    pub fn read_reg(&self, t: RegisterType) -> (v: u16)
        ensures
            v == self@.reg(t),
    {
        proof {
            use_type_invariant(self);
        }
        self.regs[Self::get_index(t)]
    }

    /// Writes a register by name.
    pub fn write_reg(&mut self, t: RegisterType, v: u16)
        ensures
            final(self)@ == old(self)@.set_reg(t.index(), v),
    {
        proof {
            use_type_invariant(&*self);
        }
        let i: usize = Self::get_index(t);
        self.regs[i] = v;
    }

    /// Reads a register by its position in the register file.
    pub fn read_reg_by_index(&self, i: u16) -> (v: u16)
        requires
            i < REG_COUNT,
        ensures
            v == self@.regs[i as int],
    {
        proof {
            use_type_invariant(self);
        }
        self.regs[i as usize]
    }

    /// Writes a register by its position in the register file.
    pub fn write_reg_by_index(&mut self, i: u16, v: u16)
        requires
            i < REG_COUNT,
        ensures
            final(self)@ == old(self)@.set_reg(i as int, v),
    {
        proof {
            use_type_invariant(&*self);
        }
        self.regs[i as usize] = v;
    }

    /// Reads the program counter.
    pub fn read_pc(&self) -> (v: u16)
        ensures
            v == self@.pc(),
    {
        self.read_reg(RegisterType::PC)
    }

    /// Moves the program counter to the next word; after 0xFFFF comes 0.
    pub fn add_pc(&mut self)
        ensures
            final(self)@ == old(self)@.set_pc(((old(self)@.pc() + 1) % 0x1_0000) as u16),
    {
        let pc: u16 = self.read_reg(RegisterType::PC);
        self.write_reg(RegisterType::PC, pc.wrapping_add(1));
    }

    /// The word at `address` as it stands, without looking at the keyboard.
    pub fn peek(&self, address: u16) -> (val: u16)
        ensures
            val == self@.mem[address as int],
    {
        proof {
            use_type_invariant(self);
        }
        self.memory[address as usize]
    }

    /// Reads the word at `address`. A read of the keyboard status register
    /// first looks at the keyboard, where `key` is what was waiting there.
    pub fn read_memory(&mut self, address: u16, key: Option<u8>) -> (val: u16)
        ensures
            final(self)@ == old(self)@.touched(address, key),
            val == old(self)@.load(address, key),
    {
        proof {
            use_type_invariant(&*self);
        }
        if address == MR_KBSR {
            match key {
                Some(k) => {
                    self.write_memory(MR_KBSR, 0x8000);
                    self.write_memory(MR_KBDR, k as u16);
                },
                None => {
                    self.write_memory(MR_KBSR, 0);
                },
            }
        }
        self.memory[address as usize]
    }

    /// Stores `val` at `address`.
    pub fn write_memory(&mut self, address: u16, val: u16)
        ensures
            final(self)@ == old(self)@.store(address, val),
    {
        proof {
            use_type_invariant(&*self);
        }
        self.memory[address as usize] = val;
    }

    /// Sets the condition register to the sign of `val`.
    pub fn update_flags_by_val(&mut self, val: u16)
        ensures
            final(self)@ == old(self)@.flagged(val),
            final(self)@.cond() == flag_of(val),
            one_hot(final(self)@.cond()),
    {
        proof {
            use_type_invariant(&*self);
        }
        assert((val >> 15) & 0x1 == 1 <==> val >= 0x8000) by (bit_vector);
        if val == 0 {
            self.write_reg(RegisterType::COND, FL_ZRO);
        } else if (val >> 15) & 0x1 == 1 {
            self.write_reg(RegisterType::COND, FL_NEG);
        } else {
            self.write_reg(RegisterType::COND, FL_POS);
        }
    }

    /// Sets the condition register to the sign of the register at position `i`.
    pub fn update_flags_by_index(&mut self, i: u16)
        requires
            i < REG_COUNT,
        ensures
            final(self)@ == old(self)@.flagged(old(self)@.regs[i as int]),
    {
        let val: u16 = self.read_reg_by_index(i);
        self.update_flags_by_val(val);
    }

    /// Sets the condition register to the sign of the register `t`.
    pub fn update_flags(&mut self, t: RegisterType)
        ensures
            final(self)@ == old(self)@.flagged(old(self)@.reg(t)),
    {
        let val: u16 = self.read_reg(t);
        self.update_flags_by_val(val);
    }
}

} // verus!
