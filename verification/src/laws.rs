//! What holds of every step of every machine.

use crate::decode::{dr, jsr_mode, lemma_fields_in_range, nzp, op_of, opcode, sr1, Op};
use crate::driver::{
    after_step, need_of, puts_reaches_keyboard, putsp_reaches_keyboard, reads_key, step_output,
    step_status, Need,
};
use crate::instr::after_br;
use crate::trap::{awaits_key, puts_scan, putsp_scan, Status, SCAN_LIMIT};
use crate::vm::{
    flag_of, one_hot, Machine, RegisterType, FL_NEG, FL_POS, FL_ZRO, MR_KBDR, MR_KBSR,
};
use crate::word::{
    high_byte, lemma_offset_moves_by_signed_value, low_byte, signed_value, wrap_add,
};
use vstd::prelude::*;

verus! {

/// Whether the opcode is one that loads a general register and sets the
/// condition register from it.
pub open spec fn writes_result(op: Op) -> bool {
    op == Op::ADD || op == Op::AND || op == Op::NOT || op == Op::LD || op == Op::LDI
        || op == Op::LDR || op == Op::LEA
}

/// Whether the next step sets the condition register: its instruction loads a
/// general register, or is GETC or IN and has its character.
pub open spec fn sets_flags(m: Machine, key: Option<u8>) -> bool {
    let instr = m.fetched(key);
    writes_result(op_of(opcode(instr))) || (op_of(opcode(instr)) == Op::TRAP
        && awaits_key(instr) && key is Some)
}

/// The machine after one step for each entry of `keys`, in order.
pub open spec fn after_steps(m: Machine, keys: Seq<Option<u8>>) -> Machine
    decreases keys.len(),
{
    if keys.len() == 0 {
        m
    } else {
        after_step(after_steps(m, keys.drop_last()), keys.last())
    }
}

/// The word that stands `i` words after `start`, round the end of memory.
pub open spec fn word_after(m: Machine, start: u16, i: int) -> u16 {
    m.mem[(start + i) % 0x1_0000]
}

/// Whether the `i`-th word after `start` is the keyboard status register.
pub open spec fn keyboard_after(start: u16, i: int) -> bool {
    (start + i) % 0x1_0000 == MR_KBSR
}

/// The bytes of `n` packed words from `start` on: of each word the low byte
/// and then the high byte.
pub open spec fn packed_bytes(m: Machine, start: u16, n: nat) -> Seq<u8> {
    Seq::new(
        2 * n,
        |j: int|
            if j % 2 == 0 {
                low_byte(word_after(m, start, j / 2))
            } else {
                high_byte(word_after(m, start, j / 2))
            },
    )
}

/// What PUTSP writes of the word that ends a packed string: its low byte,
/// unless that is zero.
pub open spec fn packed_tail(word: u16) -> Seq<u8> {
    if low_byte(word) == 0 {
        Seq::empty()
    } else {
        seq![low_byte(word)]
    }
}

/// Looking at the keyboard twice with the same keystroke is looking once, and
/// looking at it leaves the registers alone.
pub proof fn lemma_polled_twice(m: Machine, key: Option<u8>)
    requires
        m.wf(),
    ensures
        m.polled(key).polled(key) == m.polled(key),
        m.polled(key).wf(),
        m.polled(key).regs == m.regs,
{
    assert(m.polled(key).polled(key).mem =~= m.polled(key).mem);
}

/// PUTS changes the machine only by looking at the keyboard, and does that
/// exactly when its string runs into the keyboard status register.
pub proof fn lemma_puts_scan_machine(m: Machine, key: Option<u8>, address: u16, limit: nat)
    requires
        m.wf(),
    ensures
        puts_scan(m, key, address, limit).machine == if puts_reaches_keyboard(
            m.mem,
            address,
            limit,
        ) {
            m.polled(key)
        } else {
            m
        },
    decreases limit,
{
    if limit > 0 {
        lemma_polled_twice(m, key);
        lemma_puts_scan_machine(
            m.touched(address, key),
            key,
            wrap_add(address, 1),
            (limit - 1) as nat,
        );
    }
}

/// PUTSP changes the machine only by looking at the keyboard, and does that
/// exactly when its string runs into the keyboard status register.
pub proof fn lemma_putsp_scan_machine(m: Machine, key: Option<u8>, address: u16, limit: nat)
    requires
        m.wf(),
    ensures
        putsp_scan(m, key, address, limit).machine == if putsp_reaches_keyboard(
            m.mem,
            address,
            limit,
        ) {
            m.polled(key)
        } else {
            m
        },
    decreases limit,
{
    if limit > 0 {
        lemma_polled_twice(m, key);
        lemma_putsp_scan_machine(
            m.touched(address, key),
            key,
            wrap_add(address, 1),
            (limit - 1) as nat,
        );
    }
}

/// A string that does not run into the keyboard status register is written
/// the same whatever the keyboard holds.
pub proof fn lemma_puts_scan_without_keyboard(
    m: Machine,
    k1: Option<u8>,
    k2: Option<u8>,
    address: u16,
    limit: nat,
)
    requires
        !puts_reaches_keyboard(m.mem, address, limit),
    ensures
        puts_scan(m, k1, address, limit) == puts_scan(m, k2, address, limit),
    decreases limit,
{
    if limit > 0 && m.mem[address as int] != 0 {
        lemma_puts_scan_without_keyboard(m, k1, k2, wrap_add(address, 1), (limit - 1) as nat);
    }
}

/// A packed string that does not run into the keyboard status register is
/// written the same whatever the keyboard holds.
pub proof fn lemma_putsp_scan_without_keyboard(
    m: Machine,
    k1: Option<u8>,
    k2: Option<u8>,
    address: u16,
    limit: nat,
)
    requires
        !putsp_reaches_keyboard(m.mem, address, limit),
    ensures
        putsp_scan(m, k1, address, limit) == putsp_scan(m, k2, address, limit),
    decreases limit,
{
    let word = m.mem[address as int];
    if limit > 0 && low_byte(word) != 0 && high_byte(word) != 0 {
        lemma_putsp_scan_without_keyboard(m, k1, k2, wrap_add(address, 1), (limit - 1) as nat);
    }
}

/// What PUTS writes for a string of `n` words that are not zero, followed by
/// a zero word, all clear of the keyboard status register: the low byte of
/// each of the `n` words, in order. The machine is not changed.
pub proof fn lemma_puts_text(m: Machine, key: Option<u8>, start: u16, n: nat, limit: nat)
    requires
        m.wf(),
        n < limit,
        forall|i: int| 0 <= i <= n ==> !#[trigger] keyboard_after(start, i),
        forall|i: int| 0 <= i < n ==> #[trigger] word_after(m, start, i) != 0,
        word_after(m, start, n as int) == 0,
    ensures
        puts_scan(m, key, start, limit).text == Seq::new(
            n,
            |i: int| low_byte(word_after(m, start, i)),
        ),
        puts_scan(m, key, start, limit).machine == m,
    decreases n,
{
    let next = wrap_add(start, 1);
    let text = Seq::new(n, |i: int| low_byte(word_after(m, start, i)));
    assert(!keyboard_after(start, 0));
    if n == 0 {
        assert(puts_scan(m, key, start, limit).text =~= text);
    } else {
        assert(word_after(m, start, 0) != 0);
        assert forall|i: int| 0 <= i <= n - 1 implies !#[trigger] keyboard_after(next, i) by {
            assert(!keyboard_after(start, i + 1));
        }
        assert forall|i: int| 0 <= i < n - 1 implies #[trigger] word_after(m, next, i) != 0 by {
            assert(word_after(m, start, i + 1) != 0);
        }
        assert(word_after(m, next, n - 1) == word_after(m, start, n as int));
        lemma_puts_text(m, key, next, (n - 1) as nat, (limit - 1) as nat);
        let rest = Seq::new((n - 1) as nat, |i: int| low_byte(word_after(m, next, i)));
        assert(seq![low_byte(word_after(m, start, 0))] + rest =~= text) by {
            assert forall|i: int| 0 <= i < n - 1 implies rest[i] == text[i + 1] by {
                assert(word_after(m, next, i) == word_after(m, start, i + 1));
            }
        }
    }
}

/// What PUTSP writes for a string of `n` words with no byte zero, followed by
/// a word with a zero byte, all clear of the keyboard status register: the
/// low and then the high byte of each of the `n` words, in order, and then
/// the low byte of the last word where only its high byte is zero. The
/// machine is not changed.
pub proof fn lemma_putsp_text(m: Machine, key: Option<u8>, start: u16, n: nat, limit: nat)
    requires
        m.wf(),
        n < limit,
        forall|i: int| 0 <= i <= n ==> !#[trigger] keyboard_after(start, i),
        forall|i: int|
            0 <= i < n ==> low_byte(#[trigger] word_after(m, start, i)) != 0
                && high_byte(word_after(m, start, i)) != 0,
        low_byte(word_after(m, start, n as int)) == 0
            || high_byte(word_after(m, start, n as int)) == 0,
    ensures
        putsp_scan(m, key, start, limit).text == packed_bytes(m, start, n) + packed_tail(
            word_after(m, start, n as int),
        ),
        putsp_scan(m, key, start, limit).machine == m,
    decreases n,
{
    let next = wrap_add(start, 1);
    let last = word_after(m, start, n as int);
    assert(!keyboard_after(start, 0));
    if n == 0 {
        assert(putsp_scan(m, key, start, limit).text =~= packed_bytes(m, start, 0) + packed_tail(
            last,
        ));
    } else {
        let first = word_after(m, start, 0);
        assert(low_byte(first) != 0 && high_byte(first) != 0);
        assert forall|i: int| 0 <= i <= n - 1 implies !#[trigger] keyboard_after(next, i) by {
            assert(!keyboard_after(start, i + 1));
        }
        assert forall|i: int| 0 <= i < n - 1 implies low_byte(#[trigger] word_after(m, next, i))
            != 0 && high_byte(word_after(m, next, i)) != 0 by {
            assert(word_after(m, next, i) == word_after(m, start, i + 1));
        }
        assert(word_after(m, next, n - 1) == last);
        lemma_putsp_text(m, key, next, (n - 1) as nat, (limit - 1) as nat);
        let head = seq![low_byte(first), high_byte(first)];
        let rest = packed_bytes(m, next, (n - 1) as nat);
        let whole = packed_bytes(m, start, n);
        assert(whole =~= head + rest) by {
            assert forall|j: int| 0 <= j < 2 * (n - 1) implies #[trigger] rest[j] == whole[j
                + 2] by {
                assert((j + 2) / 2 == j / 2 + 1);
                assert((j + 2) % 2 == j % 2);
                assert(word_after(m, next, j / 2) == word_after(m, start, j / 2 + 1));
            }
        }
        assert(whole + packed_tail(last) =~= head + (rest + packed_tail(last)));
    }
}

/// With a one-hot condition register a branch is taken exactly when the
/// mask has the bit of the flag that is set. The mask is held against the
/// condition register bit for bit, so bit 9 of the instruction stands against
/// the negative flag, bit 10 against the zero flag and bit 11 against the
/// positive flag.
pub proof fn lemma_branch_taken(instr: u16, cond: u16)
    requires
        one_hot(cond),
    ensures
        nzp(instr) & cond != 0 <==> (cond == FL_NEG && (instr >> 9) & 1 == 1)
            || (cond == FL_ZRO && (instr >> 10) & 1 == 1)
            || (cond == FL_POS && (instr >> 11) & 1 == 1),
{
    assert(((instr >> 9) & 0x7) & 1 != 0 <==> (instr >> 9) & 1 == 1) by (bit_vector);
    assert(((instr >> 9) & 0x7) & 2 != 0 <==> (instr >> 10) & 1 == 1) by (bit_vector);
    assert(((instr >> 9) & 0x7) & 4 != 0 <==> (instr >> 11) & 1 == 1) by (bit_vector);
}

/// A branch whose mask is zero is never taken, and one whose mask and
/// condition register have no bit in common leaves the machine as it was.
pub proof fn lemma_branch_not_taken(m: Machine, instr: u16)
    ensures
        nzp(instr) == 0 ==> after_br(m, instr) == m,
        nzp(instr) & m.cond() == 0 ==> after_br(m, instr) == m,
{
    let cond = m.cond();
    assert(0u16 & cond == 0) by (bit_vector);
}

/// The word fetched from the keyboard status register is no trap and loads
/// no register: it is a branch that is never taken, or RTI. So the step does
/// no more than the fetch.
pub proof fn lemma_keyboard_status_as_instruction(m: Machine, key: Option<u8>)
    requires
        m.wf(),
        m.pc() == MR_KBSR,
    ensures
        op_of(opcode(m.fetched(key))) == Op::BR || op_of(opcode(m.fetched(key))) == Op::RTI,
        op_of(opcode(m.fetched(key))) == Op::BR ==> nzp(m.fetched(key)) == 0,
        after_step(m, key) == m.advanced(key),
{
    assert(0x8000u16 >> 12 == 8) by (bit_vector);
    assert(0u16 >> 12 == 0) by (bit_vector);
    assert((0u16 >> 9) & 0x7 == 0) by (bit_vector);
    assert(forall|c: u16| 0u16 & c == 0) by (bit_vector);
}

/// A step leaves a machine of ten registers and 2^16 words of memory.
pub proof fn lemma_step_keeps_shape(m: Machine, key: Option<u8>)
    requires
        m.wf(),
    ensures
        after_step(m, key).wf(),
{
    let m1 = m.advanced(key);
    let linked = m1.set_reg(RegisterType::R7.index(), m1.pc());
    let start = linked.reg(RegisterType::R0);
    lemma_fields_in_range(m.fetched(key));
    lemma_polled_twice(m, key);
    lemma_polled_twice(m1, key);
    lemma_polled_twice(linked, key);
    lemma_puts_scan_machine(linked, key, start, SCAN_LIMIT as nat);
    lemma_putsp_scan_machine(linked, key, start, SCAN_LIMIT as nat);
}

/// Any number of steps leaves a machine of ten registers and 2^16 words of
/// memory.
pub proof fn lemma_steps_keep_shape(m: Machine, keys: Seq<Option<u8>>)
    requires
        m.wf(),
    ensures
        after_steps(m, keys).wf(),
    decreases keys.len(),
{
    if keys.len() > 0 {
        lemma_steps_keep_shape(m, keys.drop_last());
        lemma_step_keeps_shape(after_steps(m, keys.drop_last()), keys.last());
    }
}

/// A step that sets the condition register leaves it one-hot.
pub proof fn lemma_flag_update_is_one_hot(m: Machine, key: Option<u8>)
    requires
        m.wf(),
        sets_flags(m, key),
    ensures
        one_hot(after_step(m, key).cond()),
{
    lemma_fields_in_range(m.fetched(key));
    lemma_polled_twice(m, key);
    if m.pc() == MR_KBSR {
        lemma_keyboard_status_as_instruction(m, key);
    }
}

/// No step takes the one-hot condition register away.
pub proof fn lemma_step_keeps_one_hot(m: Machine, key: Option<u8>)
    requires
        m.wf(),
        one_hot(m.cond()),
    ensures
        one_hot(after_step(m, key).cond()),
{
    let m1 = m.advanced(key);
    let linked = m1.set_reg(RegisterType::R7.index(), m1.pc());
    let start = linked.reg(RegisterType::R0);
    lemma_fields_in_range(m.fetched(key));
    lemma_polled_twice(m, key);
    lemma_polled_twice(linked, key);
    lemma_puts_scan_machine(linked, key, start, SCAN_LIMIT as nat);
    lemma_putsp_scan_machine(linked, key, start, SCAN_LIMIT as nat);
}

/// Once a step has set the condition register, it is one-hot after that
/// step and after every step that follows: step `i` of the run sets it, and
/// it is one-hot at the end of the run.
pub proof fn lemma_flags_one_hot_ever_after(m: Machine, keys: Seq<Option<u8>>, i: int)
    requires
        m.wf(),
        0 <= i < keys.len(),
        sets_flags(after_steps(m, keys.take(i)), keys[i]),
    ensures
        one_hot(after_steps(m, keys).cond()),
    decreases keys.len(),
{
    let before = keys.drop_last();
    lemma_steps_keep_shape(m, before);
    if i == keys.len() - 1 {
        assert(keys.take(i) =~= before);
        lemma_flag_update_is_one_hot(after_steps(m, before), keys.last());
    } else {
        assert(before.take(i) =~= keys.take(i));
        lemma_flags_one_hot_ever_after(m, before, i);
        lemma_step_keeps_one_hot(after_steps(m, before), keys.last());
    }
}

/// After ADD, AND, NOT, LD, LDI, LDR and LEA the condition register shows
/// the sign of what the destination register now holds.
pub proof fn lemma_flags_show_sign_of_result(m: Machine, key: Option<u8>)
    requires
        m.wf(),
        writes_result(op_of(opcode(m.fetched(key)))),
    ensures
        after_step(m, key).cond() == flag_of(after_step(m, key).regs[dr(m.fetched(key)) as int]),
{
    lemma_fields_in_range(m.fetched(key));
    lemma_polled_twice(m, key);
    if m.pc() == MR_KBSR {
        lemma_keyboard_status_as_instruction(m, key);
    }
}

/// A step whose instruction is LEA does not touch memory.
pub proof fn lemma_lea_keeps_memory(m: Machine, key: Option<u8>)
    requires
        m.wf(),
        op_of(opcode(m.fetched(key))) == Op::LEA,
    ensures
        after_step(m, key).mem == m.mem,
{
    if m.pc() == MR_KBSR {
        lemma_keyboard_status_as_instruction(m, key);
    }
}

/// A step that is blocked changes nothing and writes nothing, and a step is
/// blocked exactly when the instruction is a trap that reads a character and
/// none is given.
pub proof fn lemma_blocked_step_changes_nothing(m: Machine, key: Option<u8>)
    requires
        m.wf(),
    ensures
        step_status(m, key) == Status::Blocked <==> reads_key(m) && key is None,
        step_status(m, key) == Status::Blocked ==> after_step(m, key) == m
            && step_output(m, key) == Seq::<u8>::empty(),
{
    if m.pc() == MR_KBSR {
        lemma_keyboard_status_as_instruction(m, key);
    }
}

/// Where the program counter stands after a step. It stays where it was when
/// the step is blocked; JMP, and JSR through a register, take it from the
/// register; a branch that is taken and JSR by offset move it from the next
/// word by the number that the offset spells; everything else leaves it on
/// the next word. All of it modulo 2^16.
pub proof fn lemma_step_program_counter(m: Machine, key: Option<u8>)
    requires
        m.wf(),
    ensures
        ({
            let instr = m.fetched(key);
            let op = op_of(opcode(instr));
            let next = (m.pc() + 1) % 0x1_0000;
            let after = after_step(m, key).pc() as int;
            if step_status(m, key) == Status::Blocked {
                after == m.pc()
            } else if op == Op::BR && nzp(instr) & m.cond() != 0 {
                after == (m.pc() + 1 + signed_value((instr & 0x1ff) as int, 9)) % 0x1_0000
            } else if op == Op::JSR && jsr_mode(instr) {
                after == (m.pc() + 1 + signed_value((instr & 0x7ff) as int, 11)) % 0x1_0000
            } else if op == Op::JSR && sr1(instr) == 7 {
                after == next
            } else if op == Op::JSR || op == Op::JMP {
                after == m.regs[sr1(instr) as int]
            } else {
                after == next
            }
        }),
{
    let instr = m.fetched(key);
    let m1 = m.advanced(key);
    let linked = m1.set_reg(RegisterType::R7.index(), m1.pc());
    let start = linked.reg(RegisterType::R0);
    lemma_fields_in_range(instr);
    lemma_polled_twice(m, key);
    lemma_polled_twice(linked, key);
    lemma_blocked_step_changes_nothing(m, key);
    lemma_puts_scan_machine(linked, key, start, SCAN_LIMIT as nat);
    lemma_putsp_scan_machine(linked, key, start, SCAN_LIMIT as nat);
    assert(instr & 0x1ff < 0x200) by (bit_vector);
    assert(instr & 0x7ff < 0x800) by (bit_vector);
    vstd::arithmetic::power2::lemma2_to64();
    lemma_offset_moves_by_signed_value(m1.pc(), instr & 0x1ff, 9);
    lemma_offset_moves_by_signed_value(m1.pc(), instr & 0x7ff, 11);
    if m.pc() == MR_KBSR {
        lemma_keyboard_status_as_instruction(m, key);
    }
}

/// Where `request` asks for a look at the keyboard, the step takes it: a
/// keystroke that was waiting stands in the keyboard data register after the
/// step, with the high bit of the status register set, and with none waiting
/// the status register is clear.
pub proof fn lemma_requested_poll_is_taken(m: Machine, key: Option<u8>)
    requires
        m.wf(),
        need_of(m) == Need::Poll,
    ensures
        match key {
            Some(k) => after_step(m, key).mem[MR_KBSR as int] == 0x8000
                && after_step(m, key).mem[MR_KBDR as int] == k,
            None => after_step(m, key).mem[MR_KBSR as int] == 0,
        },
{
    let m1 = m.set_pc(wrap_add(m.pc(), 1));
    let linked = m1.set_reg(RegisterType::R7.index(), m1.pc());
    let start = linked.reg(RegisterType::R0);
    lemma_fields_in_range(m.mem[m.pc() as int]);
    lemma_polled_twice(m, key);
    lemma_polled_twice(m1, key);
    if m.pc() == MR_KBSR {
        lemma_keyboard_status_as_instruction(m, key);
    } else {
        lemma_puts_scan_machine(linked, key, start, SCAN_LIMIT as nat);
        lemma_putsp_scan_machine(linked, key, start, SCAN_LIMIT as nat);
    }
}

/// Where `request` asks for a character and the step is given one, the
/// character stands in R0 after the step, the condition register shows its
/// sign, the program counter has moved on, and memory is as it was.
pub proof fn lemma_requested_key_is_taken(m: Machine, k: u8)
    requires
        m.wf(),
        need_of(m) == Need::Key,
    ensures
        after_step(m, Some(k)).reg(RegisterType::R0) == k,
        after_step(m, Some(k)).cond() == flag_of(k as u16),
        after_step(m, Some(k)).pc() == (m.pc() + 1) % 0x1_0000,
        after_step(m, Some(k)).mem == m.mem,
        step_status(m, Some(k)) == Status::Running,
{
}

/// Where `request` asks for nothing, the step does not depend on what it is
/// given: the machine, the output and the status come out the same.
pub proof fn lemma_unrequested_key_is_ignored(m: Machine, k1: Option<u8>, k2: Option<u8>)
    requires
        m.wf(),
        need_of(m) == Need::Nothing,
    ensures
        after_step(m, k1) == after_step(m, k2),
        step_output(m, k1) == step_output(m, k2),
        step_status(m, k1) == step_status(m, k2),
{
    let m1 = m.set_pc(wrap_add(m.pc(), 1));
    let linked = m1.set_reg(RegisterType::R7.index(), m1.pc());
    let start = linked.reg(RegisterType::R0);
    lemma_fields_in_range(m.mem[m.pc() as int]);
    if !puts_reaches_keyboard(linked.mem, start, SCAN_LIMIT as nat) {
        lemma_puts_scan_without_keyboard(linked, k1, k2, start, SCAN_LIMIT as nat);
    }
    if !putsp_reaches_keyboard(linked.mem, start, SCAN_LIMIT as nat) {
        lemma_putsp_scan_without_keyboard(linked, k1, k2, start, SCAN_LIMIT as nat);
    }
}

} // verus!
