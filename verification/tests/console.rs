use lc3::driver::{request, step, Need};
use lc3::trap::{trap, Status};
use lc3::vm::{RegisterType, VM, FL_NEG, FL_POS, FL_ZRO, MR_KBDR, MR_KBSR};

fn machine_with(program: &[(u16, u16)]) -> VM {
    let mut vm = VM::new();
    for &(address, word) in program {
        vm.write_memory(address, word);
    }
    vm
}

#[test]
fn getc_reads_one_character() {
    let mut vm = machine_with(&[(0x3000, 0xF020)]);
    let wanted = request(&vm);
    assert_eq!(wanted.need, Need::Key);
    assert!(wanted.prompt.is_empty());
    let outcome = step(&mut vm, Some(b'a'));
    assert_eq!(outcome.status, Status::Running);
    assert!(outcome.output.is_empty());
    assert_eq!(vm.read_reg(RegisterType::R0), 0x61);
    assert_eq!(vm.read_reg(RegisterType::COND), FL_POS);
    assert_eq!(vm.read_reg(RegisterType::R7), 0x3001);
    assert_eq!(vm.read_pc(), 0x3001);
}

#[test]
fn getc_of_a_zero_byte_sets_the_zero_flag() {
    let mut vm = machine_with(&[(0x3000, 0xF020)]);
    vm.write_reg(RegisterType::R0, 0x1234);
    step(&mut vm, Some(0));
    assert_eq!(vm.read_reg(RegisterType::R0), 0);
    assert_eq!(vm.read_reg(RegisterType::COND), FL_ZRO);
}

#[test]
fn getc_of_a_high_byte_is_zero_extended() {
    let mut vm = machine_with(&[(0x3000, 0xF020)]);
    step(&mut vm, Some(0xFF));
    assert_eq!(vm.read_reg(RegisterType::R0), 0x00FF);
    assert_eq!(vm.read_reg(RegisterType::COND), FL_POS);
}

#[test]
fn getc_without_a_character_is_blocked() {
    let mut vm = machine_with(&[(0x3000, 0xF020)]);
    vm.write_reg(RegisterType::R0, 0x1234);
    vm.write_reg(RegisterType::R7, 0x0777);
    let outcome = step(&mut vm, None);
    assert_eq!(outcome.status, Status::Blocked);
    assert!(outcome.output.is_empty());
    assert_eq!(vm.read_pc(), 0x3000);
    assert_eq!(vm.read_reg(RegisterType::R0), 0x1234);
    assert_eq!(vm.read_reg(RegisterType::R7), 0x0777);
    assert_eq!(vm.read_reg(RegisterType::COND), 0);
    let outcome = step(&mut vm, Some(b'z'));
    assert_eq!(outcome.status, Status::Running);
    assert_eq!(vm.read_reg(RegisterType::R0), 0x7A);
    assert_eq!(vm.read_pc(), 0x3001);
}

#[test]
fn in_prompts_reads_and_echoes() {
    let mut vm = machine_with(&[(0x3000, 0xF023)]);
    let wanted = request(&vm);
    assert_eq!(wanted.need, Need::Key);
    assert_eq!(wanted.prompt, b"Enter a character: ".to_vec());
    let outcome = step(&mut vm, Some(b'q'));
    assert_eq!(outcome.output, vec![b'q']);
    assert_eq!(outcome.status, Status::Running);
    assert_eq!(vm.read_reg(RegisterType::R0), 0x71);
    assert_eq!(vm.read_reg(RegisterType::COND), FL_POS);
    assert_eq!(vm.read_reg(RegisterType::R7), 0x3001);
}

#[test]
fn in_without_a_character_is_blocked() {
    let mut vm = machine_with(&[(0x3000, 0xF023)]);
    let outcome = step(&mut vm, None);
    assert_eq!(outcome.status, Status::Blocked);
    assert!(outcome.output.is_empty());
    assert_eq!(vm.read_pc(), 0x3000);
    assert_eq!(vm.read_reg(RegisterType::R7), 0);
}

#[test]
fn out_writes_the_low_byte() {
    let mut vm = machine_with(&[(0x3000, 0xF021)]);
    vm.write_reg(RegisterType::R0, 0x1241);
    assert_eq!(request(&vm).need, Need::Nothing);
    let outcome = step(&mut vm, None);
    assert_eq!(outcome.output, vec![0x41]);
    assert_eq!(outcome.status, Status::Running);
    assert_eq!(vm.read_reg(RegisterType::R0), 0x1241);
    assert_eq!(vm.read_reg(RegisterType::COND), 0);
    assert_eq!(vm.read_reg(RegisterType::R7), 0x3001);
}

#[test]
fn puts_writes_low_bytes_up_to_a_zero_word() {
    let mut vm = machine_with(&[
        (0x3000, 0xF022),
        (0x4000, 0x0148),
        (0x4001, 0xFF00),
        (0x4002, 0x0069),
        (0x4003, 0x0000),
        (0x4004, 0x0021),
    ]);
    vm.write_reg(RegisterType::R0, 0x4000);
    let outcome = step(&mut vm, None);
    assert_eq!(outcome.output, vec![0x48, 0x00, 0x69]);
    assert_eq!(vm.read_reg(RegisterType::R0), 0x4000);
}

#[test]
fn puts_of_an_empty_string() {
    let mut vm = machine_with(&[(0x3000, 0xF022)]);
    vm.write_reg(RegisterType::R0, 0x4000);
    let outcome = step(&mut vm, None);
    assert!(outcome.output.is_empty());
    assert_eq!(outcome.status, Status::Running);
}

#[test]
fn puts_wraps_round_the_end_of_memory() {
    let mut vm = machine_with(&[(0x3000, 0xF022), (0xFFFF, 0x0041), (0x0000, 0x0042)]);
    vm.write_reg(RegisterType::R0, 0xFFFF);
    let outcome = step(&mut vm, None);
    assert_eq!(outcome.output, b"AB".to_vec());
}

#[test]
fn putsp_terminating_on_high_byte_zero() {
    let mut vm = machine_with(&[
        (0x3000, 0xF024),
        (0x4000, 0x6548),
        (0x4001, 0x006C),
        (0x4002, 0x6F6C),
    ]);
    vm.write_reg(RegisterType::R0, 0x4000);
    let outcome = step(&mut vm, None);
    assert_eq!(outcome.output, b"Hel".to_vec());
    assert_eq!(outcome.status, Status::Running);
}

#[test]
fn putsp_terminating_on_a_zero_word() {
    let mut vm = machine_with(&[
        (0x3000, 0xF024),
        (0x4000, 0x6548),
        (0x4001, 0x6C6C),
        (0x4002, 0x0000),
        (0x4003, 0x4141),
    ]);
    vm.write_reg(RegisterType::R0, 0x4000);
    let outcome = step(&mut vm, None);
    assert_eq!(outcome.output, b"Hell".to_vec());
}

#[test]
fn putsp_terminating_on_low_byte_zero() {
    let mut vm = machine_with(&[(0x3000, 0xF024), (0x4000, 0x6948), (0x4001, 0x4100)]);
    vm.write_reg(RegisterType::R0, 0x4000);
    let outcome = step(&mut vm, None);
    assert_eq!(outcome.output, b"Hi".to_vec());
}

#[test]
fn unknown_trap_vector_only_saves_the_counter() {
    let mut vm = machine_with(&[(0x3000, 0xF0FF)]);
    vm.write_reg(RegisterType::R0, 0x0041);
    assert_eq!(request(&vm).need, Need::Nothing);
    let outcome = step(&mut vm, Some(b'x'));
    assert!(outcome.output.is_empty());
    assert_eq!(outcome.status, Status::Running);
    assert_eq!(vm.read_reg(RegisterType::R7), 0x3001);
    assert_eq!(vm.read_reg(RegisterType::R0), 0x0041);
    assert_eq!(vm.read_pc(), 0x3001);
    assert_eq!(vm.read_reg(RegisterType::COND), 0);
}

#[test]
fn trap_called_directly() {
    let mut vm = VM::new();
    vm.write_reg(RegisterType::R0, 0x0141);
    let outcome = trap(&mut vm, 0xF021, None);
    assert_eq!(outcome.output, vec![0x41]);
    assert_eq!(vm.read_reg(RegisterType::R7), 0x3000);
    let outcome = trap(&mut vm, 0xF025, None);
    assert_eq!(outcome.output, b"HALT!\n".to_vec());
    assert_eq!(outcome.status, Status::Halted);
    let outcome = trap(&mut vm, 0xF020, None);
    assert_eq!(outcome.status, Status::Blocked);
    let outcome = trap(&mut vm, 0xF020, Some(0x80));
    assert_eq!(outcome.status, Status::Running);
    assert_eq!(vm.read_reg(RegisterType::R0), 0x0080);
    assert_eq!(vm.read_reg(RegisterType::COND), FL_POS);
}

#[test]
fn reading_the_status_register_with_a_key_waiting() {
    let mut vm = VM::new();
    let status = vm.read_memory(MR_KBSR, Some(b'k'));
    assert_eq!(status, 0x8000);
    assert_eq!(vm.peek(MR_KBSR), 0x8000);
    assert_eq!(vm.peek(MR_KBDR), 0x006B);
    assert_eq!(vm.read_memory(MR_KBDR, Some(b'j')), 0x006B);
}

#[test]
fn reading_the_status_register_with_no_key_waiting() {
    let mut vm = VM::new();
    vm.write_memory(MR_KBSR, 0x8000);
    vm.write_memory(MR_KBDR, 0x0055);
    let status = vm.read_memory(MR_KBSR, None);
    assert_eq!(status, 0);
    assert_eq!(vm.peek(MR_KBSR), 0);
    assert_eq!(vm.peek(MR_KBDR), 0x0055);
}

#[test]
fn reading_elsewhere_does_not_look_at_the_keyboard() {
    let mut vm = VM::new();
    vm.write_memory(0x1234, 0xABCD);
    assert_eq!(vm.read_memory(0x1234, Some(b'k')), 0xABCD);
    assert_eq!(vm.peek(MR_KBSR), 0);
    assert_eq!(vm.peek(MR_KBDR), 0);
    assert_eq!(vm.read_memory(MR_KBDR, Some(b'k')), 0);
    assert_eq!(vm.peek(MR_KBSR), 0);
}

#[test]
fn ldi_polls_the_keyboard() {
    // LDI R0, #1 with the pointer at the status register;
    // LDR R1, R2, #0 with R2 at the data register
    let mut vm = machine_with(&[(0x3000, 0xA001), (0x3001, 0x6280), (0x3002, 0xFE00)]);
    vm.write_reg(RegisterType::R2, 0xFE02);
    assert_eq!(request(&vm).need, Need::Poll);
    step(&mut vm, Some(b'!'));
    assert_eq!(vm.read_reg(RegisterType::R0), 0x8000);
    assert_eq!(vm.read_reg(RegisterType::COND), FL_NEG);
    assert_eq!(request(&vm).need, Need::Nothing);
    step(&mut vm, None);
    assert_eq!(vm.read_reg(RegisterType::R1), 0x0021);
    assert_eq!(vm.read_reg(RegisterType::COND), FL_POS);
}

#[test]
fn ldi_polls_with_no_key() {
    let mut vm = machine_with(&[(0x3000, 0xA001), (0x3002, 0xFE00), (0xFE00, 0x8000)]);
    assert_eq!(request(&vm).need, Need::Poll);
    step(&mut vm, None);
    assert_eq!(vm.read_reg(RegisterType::R0), 0);
    assert_eq!(vm.read_reg(RegisterType::COND), FL_ZRO);
}

#[test]
fn ld_ldr_sti_poll_when_they_read_the_status_register() {
    // LD R0, #-1 at 0xFE00
    let mut vm = machine_with(&[(0xFE00, 0x21FF)]);
    vm.write_reg(RegisterType::PC, 0xFE00);
    assert_eq!(request(&vm).need, Need::Poll);

    // LD R0, #-2 at 0xFE01 reads 0xFE00
    let mut vm = machine_with(&[(0xFE01, 0x21FE)]);
    vm.write_reg(RegisterType::PC, 0xFE01);
    assert_eq!(request(&vm).need, Need::Poll);
    step(&mut vm, Some(7));
    assert_eq!(vm.read_reg(RegisterType::R0), 0x8000);
    assert_eq!(vm.peek(MR_KBDR), 7);

    // LDR R1, R2, #-1 with R2 = 0xFE01
    let mut vm = machine_with(&[(0x3000, 0x62BF)]);
    vm.write_reg(RegisterType::R2, 0xFE01);
    assert_eq!(request(&vm).need, Need::Poll);
    vm.write_reg(RegisterType::R2, 0xFE02);
    assert_eq!(request(&vm).need, Need::Nothing);

    // STI R3, #-2 at 0xFE01: the pointer is the status register
    let mut vm = machine_with(&[(0xFE01, 0xB7FE)]);
    vm.write_reg(RegisterType::PC, 0xFE01);
    vm.write_reg(RegisterType::R3, 0x0BAD);
    assert_eq!(request(&vm).need, Need::Poll);
    step(&mut vm, Some(1));
    assert_eq!(vm.peek(0x8000), 0x0BAD);
    assert_eq!(vm.peek(MR_KBSR), 0x8000);
}

#[test]
fn fetching_from_the_status_register_polls() {
    let mut vm = VM::new();
    vm.write_reg(RegisterType::PC, 0xFE00);
    vm.write_memory(0xFE00, 0xF025);
    assert_eq!(request(&vm).need, Need::Poll);
    let outcome = step(&mut vm, Some(b'x'));
    assert_eq!(outcome.status, Status::Running);
    assert!(outcome.output.is_empty());
    assert_eq!(vm.read_pc(), 0xFE01);
    assert_eq!(vm.peek(0xFE00), 0x8000);
    assert_eq!(vm.peek(0xFE02), 0x0078);
    for i in 0..8u16 {
        assert_eq!(vm.read_reg_by_index(i), 0);
    }
    assert_eq!(vm.read_reg(RegisterType::COND), 0);
}

#[test]
fn puts_that_runs_into_the_keyboard() {
    let mut vm = machine_with(&[
        (0x3000, 0xF022),
        (0xFDFF, 0x0041),
        (0xFE00, 0x0042),
        (0xFE01, 0x0043),
        (0xFE02, 0x0000),
    ]);
    vm.write_reg(RegisterType::R0, 0xFDFF);
    assert_eq!(request(&vm).need, Need::Poll);

    let mut none = machine_with(&[(0x3000, 0xF022), (0xFDFF, 0x0041), (0xFE00, 0x0042)]);
    none.write_reg(RegisterType::R0, 0xFDFF);
    let outcome = step(&mut none, None);
    assert_eq!(outcome.output, b"A".to_vec());
    assert_eq!(none.peek(0xFE00), 0);

    let outcome = step(&mut vm, Some(b'D'));
    assert_eq!(outcome.output, vec![0x41, 0x00, 0x43, 0x44]);
    assert_eq!(vm.peek(0xFE00), 0x8000);
    assert_eq!(vm.peek(0xFE02), 0x0044);
}

#[test]
fn puts_that_stops_before_the_keyboard_asks_for_nothing() {
    let mut vm = machine_with(&[(0x3000, 0xF022), (0xFDFE, 0x0041), (0xFDFF, 0x0000)]);
    vm.write_reg(RegisterType::R0, 0xFDFE);
    assert_eq!(request(&vm).need, Need::Nothing);
    let with_key = step(&mut vm, Some(b'k'));
    assert_eq!(with_key.output, b"A".to_vec());
    assert_eq!(vm.peek(0xFE00), 0);
    assert_eq!(vm.peek(0xFE02), 0);
}

#[test]
fn putsp_that_runs_into_the_keyboard() {
    let mut vm = machine_with(&[(0x3000, 0xF024), (0xFDFF, 0x4241)]);
    vm.write_reg(RegisterType::R0, 0xFDFF);
    assert_eq!(request(&vm).need, Need::Poll);
    let outcome = step(&mut vm, Some(b'k'));
    assert_eq!(outcome.output, b"AB".to_vec());
    assert_eq!(vm.peek(0xFE00), 0x8000);
    assert_eq!(vm.peek(0xFE02), 0x006B);

    let mut vm = machine_with(&[(0x3000, 0xF024), (0xFDFF, 0x0041)]);
    vm.write_reg(RegisterType::R0, 0xFDFF);
    assert_eq!(request(&vm).need, Need::Nothing);
}

#[test]
fn a_string_that_fills_memory_is_written_once() {
    let mut vm = VM::new();
    for address in 0..=0xFFFFu16 {
        vm.write_memory(address, 0x0041);
    }
    vm.write_memory(0x3000, 0xF022);
    vm.write_reg(RegisterType::R0, 0x3001);
    assert_eq!(request(&vm).need, Need::Poll);
    let outcome = step(&mut vm, Some(b'k'));
    assert_eq!(outcome.output.len(), 0x1_0000);
    assert_eq!(outcome.output[0], 0x41);
    assert_eq!(outcome.output[0xFE00 - 0x3001], 0x00);
    assert_eq!(outcome.output[0xFE02 - 0x3001], b'k');
    assert_eq!(outcome.output[0xFFFF], 0x22);
}

#[test]
fn a_step_that_asks_for_nothing_ignores_the_key() {
    let program = [(0x3000u16, 0x1021u16), (0x3001, 0x2202), (0x3002, 0xF021)];
    let mut with_key = machine_with(&program);
    let mut without = machine_with(&program);
    for _ in 0..3 {
        assert_eq!(request(&with_key).need, Need::Nothing);
        let a = step(&mut with_key, Some(b'k'));
        let b = step(&mut without, None);
        assert_eq!(a.output, b.output);
        assert_eq!(a.status, b.status);
        for i in 0..10u16 {
            assert_eq!(with_key.read_reg_by_index(i), without.read_reg_by_index(i));
        }
        assert_eq!(with_key.peek(MR_KBSR), 0);
        assert_eq!(with_key.peek(MR_KBDR), 0);
    }
}
