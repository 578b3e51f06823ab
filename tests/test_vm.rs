use yamini::binread::{decode, decode_number, digits_within, DecodeError};
use yamini::instructions::InstructionSet;
use yamini::memory::data::{ArithError, ArithOp};
use yamini::memory::{DataMemory, InnerData, ProgramMemory, Stack};
use yamini::processor::{stack_events, write_display, Processor, RuntimeError, StackEvent};

fn run(program: Vec<InstructionSet>) -> (Result<(), RuntimeError>, Stack, DataMemory, String) {
    let mut memory = ProgramMemory::new();
    memory.load_program(program);
    let mut processor = Processor::new();
    let mut data_memory = DataMemory::new();
    let mut stack = Stack::new();
    let mut call_stack = Stack::new();
    let mut out = Vec::new();
    let r = processor.execute_program(memory, &mut data_memory, &mut stack, &mut call_stack, &mut out);
    (r, stack, data_memory, String::from_utf8(out).unwrap())
}

fn exec_on(instruction: InstructionSet, values: Vec<InnerData>) -> (Result<(), RuntimeError>, Stack) {
    let mut stack = Stack::new();
    for v in values {
        stack.push(v);
    }
    let mut processor = Processor::new();
    let r = processor.execute(&instruction, &mut DataMemory::new(), &mut stack, &mut Stack::new(), &mut Vec::new());
    (r, stack)
}

fn text(s: &str) -> Vec<u8> {
    s.as_bytes().to_vec()
}

#[test]
fn scenario_add_and_show() {
    let (r, stack, _, out) = run(vec![
        InstructionSet::LOAD(InnerData::INT(3), 2),
        InstructionSet::LOAD(InnerData::INT(4), 2),
        InstructionSet::ADD,
        InstructionSet::SHOW,
        InstructionSet::HALT,
    ]);
    assert_eq!(r, Ok(()));
    assert_eq!(out, "7\n");
    assert_eq!(stack.head(), 0);
}

#[test]
fn scenario_register_round_trip() {
    let (r, _, _, out) = run(vec![
        InstructionSet::LOAD(InnerData::INT(5), 2),
        InstructionSet::POP(InnerData::INT(0), 1),
        InstructionSet::LOAD(InnerData::INT(0), 1),
        InstructionSet::SHOW,
        InstructionSet::HALT,
    ]);
    assert_eq!(r, Ok(()));
    assert_eq!(out, "5\n");
}

#[test]
fn scenario_variable_write_then_read() {
    let (r, _, data_memory, out) = run(vec![
        InstructionSet::LOAD(InnerData::INT(7), 4),
        InstructionSet::SHOW,
        InstructionSet::LOAD(InnerData::INT(3), 2),
        InstructionSet::POP(InnerData::INT(7), 4),
        InstructionSet::LOAD(InnerData::INT(7), 4),
        InstructionSet::SHOW,
        InstructionSet::HALT,
    ]);
    assert_eq!(r, Ok(()));
    assert_eq!(out, "0\n3\n");
    assert_eq!(data_memory.get_var_value(7), &InnerData::INT(3));
}

#[test]
fn scenario_call_returns_after_call() {
    let (r, _, _, out) = run(vec![
        InstructionSet::CALL(InnerData::INT(3)),
        InstructionSet::LOAD(InnerData::INT(1), 2),
        InstructionSet::SHOW,
        InstructionSet::HALT,
        InstructionSet::LOAD(InnerData::INT(9), 2),
        InstructionSet::SHOW,
        InstructionSet::RET,
    ]);
    assert_eq!(r, Ok(()));
    assert_eq!(out, "9\n1\n");
}

#[test]
fn scenario_boundary_digits() {
    assert!(digits_within(b"128", b"128"));
    assert!(!digits_within(b"129", b"128"));
    assert!(!digits_within(b"12", b"128"));
    // judged in range, so read as an 8-bit integer, which 128 is not
    assert_eq!(decode_number(&text("128")), Err(DecodeError::InvalidLiteral));
    assert_eq!(decode_number(&text("127")), Ok(InnerData::INT(127)));
    assert_eq!(decode_number(&text("129")), Ok(InnerData::INT16(129)));
}

#[test]
fn promotion_at_each_width() {
    assert_eq!(InnerData::INT(90) + InnerData::INT(80), InnerData::INT16(170));
    assert_eq!(InnerData::INT(-128) / InnerData::INT(-1), InnerData::INT16(128));
    assert_eq!(InnerData::INT(-128) % InnerData::INT(-1), InnerData::INT16(0));
    assert_eq!(InnerData::INT16(300) * InnerData::INT16(300), InnerData::INT32(90000));
    assert_eq!(
        InnerData::apply(ArithOp::Add, InnerData::INT32(2147483647), InnerData::INT32(1)),
        Err(ArithError::Overflow)
    );
    assert_eq!(
        InnerData::apply(ArithOp::Div, InnerData::INT(1), InnerData::INT(0)),
        Err(ArithError::DivideByZero)
    );
}

#[test]
fn mixed_widths_meet_at_the_wider() {
    assert_eq!(InnerData::INT(5) + InnerData::INT16(1000), InnerData::INT16(1005));
    assert_eq!(InnerData::INT32(7) - InnerData::INT(10), InnerData::INT32(-3));
    assert_eq!(InnerData::INT(-7) / InnerData::INT(2), InnerData::INT(-3));
    assert_eq!(InnerData::INT(-7) % InnerData::INT(2), InnerData::INT(-1));
}

#[test]
fn string_operators() {
    let ab = || InnerData::STR("ab".to_string());
    assert_eq!(ab() + InnerData::STR("c".to_string()), InnerData::STR("abc".to_string()));
    assert_eq!(ab() * InnerData::INT(3), InnerData::STR("ababab".to_string()));
    assert_eq!(InnerData::INT(2) * ab(), InnerData::STR("abab".to_string()));
    assert_eq!(ab() * InnerData::INT(-2), InnerData::STR(String::new()));
    assert_eq!(
        InnerData::apply(ArithOp::Sub, ab(), InnerData::INT(1)),
        Err(ArithError::IllegalOperands)
    );
    assert_eq!(
        InnerData::apply(ArithOp::Add, ab(), InnerData::INT(1)),
        Err(ArithError::IllegalOperands)
    );
}

#[test]
fn default_read_is_zero() {
    let mut memory = DataMemory::new();
    memory.set_var_value(1, InnerData::INT(9));
    memory.set_var_value(200, InnerData::STR("x".to_string()));
    assert_eq!(memory.get_var_value(42), &InnerData::INT(0));
    assert_eq!(memory.get_var_value(255), &InnerData::INT(0));
}

#[test]
fn stack_is_last_in_first_out() {
    let mut stack = Stack::new();
    for v in [1, 2, 3] {
        stack.push(InnerData::INT(v));
        assert_eq!(stack.head(), stack.data().len());
    }
    assert_eq!(stack.pop(), Some(InnerData::INT(3)));
    assert_eq!(stack.pop(), Some(InnerData::INT(2)));
    assert_eq!(stack.head(), 1);
    assert_eq!(stack.pop(), Some(InnerData::INT(1)));
    assert_eq!(stack.pop(), None);
    assert_eq!(stack.head(), 0);
}

#[test]
fn literal_length_table() {
    assert_eq!(decode_number(&text("7")), Ok(InnerData::INT(7)));
    assert_eq!(decode_number(&text("99")), Ok(InnerData::INT(99)));
    assert_eq!(decode_number(&text("1234")), Ok(InnerData::INT16(1234)));
    assert_eq!(decode_number(&text("32767")), Ok(InnerData::INT16(32767)));
    assert_eq!(decode_number(&text("32768")), Ok(InnerData::INT32(32768)));
    assert_eq!(decode_number(&text("123456")), Ok(InnerData::INT32(123456)));
    assert_eq!(decode_number(&text("999999999")), Ok(InnerData::INT32(999999999)));
    assert_eq!(decode_number(&text("2147483647")), Ok(InnerData::INT32(2147483647)));
    assert_eq!(decode_number(&text("2147483648")), Err(DecodeError::LiteralOverflow));
    assert_eq!(decode_number(&text("")), Err(DecodeError::InvalidLiteral));
    assert_eq!(decode_number(&text("12345678901")), Err(DecodeError::InvalidLiteral));
    assert_eq!(decode_number(&text("1x")), Err(DecodeError::InvalidLiteral));
    assert_eq!(decode_number(&text("-5")), Ok(InnerData::INT(-5)));
    // a sign is a large pseudo-digit, so a signed boundary literal widens
    assert_eq!(decode_number(&text("-12")), Ok(InnerData::INT16(-12)));
}

#[test]
fn decode_operand_bytes() {
    let program = decode(&[0, 3, 2, 0, 4, 2, 1, 14, 5]).unwrap();
    assert_eq!(
        program,
        vec![
            InstructionSet::LOAD(InnerData::INT(3), 2),
            InstructionSet::LOAD(InnerData::INT(4), 2),
            InstructionSet::ADD,
            InstructionSet::SHOW,
            InstructionSet::HALT,
        ]
    );
    let program = decode(&[16, 7, 8, 200, 15]).unwrap();
    assert_eq!(
        program,
        vec![
            InstructionSet::CALL(InnerData::INT(7)),
            InstructionSet::JMP(InnerData::INT(-56)),
            InstructionSet::RET,
        ]
    );
}

#[test]
fn decode_inline_literals() {
    let program = decode(&[0, 2, 12, b'4', b'2', 13, 0, 3, 12, b'h', b'i', 13, 14, 5]).unwrap();
    assert_eq!(
        program,
        vec![
            InstructionSet::LOAD(InnerData::INT(42), 2),
            InstructionSet::LOAD(InnerData::STR("hi".to_string()), 3),
            InstructionSet::SHOW,
            InstructionSet::HALT,
        ]
    );
    let program = decode(&[9, 2, 12, b'3', b'0', b'0', 13, 5]).unwrap();
    assert_eq!(program[0], InstructionSet::POP(InnerData::INT16(300), 2));
}

#[test]
fn decode_errors() {
    assert_eq!(decode(&[]), Err(DecodeError::EmptyProgram));
    assert_eq!(decode(&[20]), Err(DecodeError::UnknownOpcode(20)));
    assert_eq!(decode(&[8]), Err(DecodeError::MissingOperand(8)));
    assert_eq!(decode(&[0, 5, 2]), Err(DecodeError::MissingOperand(0)));
    assert_eq!(decode(&[17, 5]), Err(DecodeError::MissingOperand(17)));
    assert_eq!(decode(&[0, 1]), Err(DecodeError::Truncated));
    assert_eq!(decode(&[0, 2, 12, b'1']), Err(DecodeError::UnterminatedLiteral));
    assert_eq!(decode(&[0, 2, 12, 13, 5]), Err(DecodeError::InvalidLiteral));
}

#[test]
fn decoded_program_runs() {
    let program = decode(&[0, 2, 12, b'9', b'0', 13, 0, 2, 12, b'8', b'0', 13, 1, 14, 5]).unwrap();
    let (r, _, _, out) = run(program);
    assert_eq!(r, Ok(()));
    assert_eq!(out, "170\n");
}

#[test]
fn runtime_errors() {
    assert_eq!(exec_on(InstructionSet::ADD, vec![InnerData::INT(1)]).0, Err(RuntimeError::StackEmpty));
    assert_eq!(exec_on(InstructionSet::SHOW, vec![]).0, Err(RuntimeError::StackEmpty));
    assert_eq!(
        exec_on(InstructionSet::LOAD(InnerData::INT(10), 1), vec![]).0,
        Err(RuntimeError::RegisterOutOfBounds)
    );
    assert_eq!(
        exec_on(InstructionSet::LOAD(InnerData::INT(1), 9), vec![]).0,
        Err(RuntimeError::InvalidTag(9))
    );
    assert_eq!(
        exec_on(InstructionSet::JMP(InnerData::INT16(1)), vec![]).0,
        Err(RuntimeError::IllegalOperandType)
    );
    assert_eq!(
        exec_on(InstructionSet::NEG, vec![InnerData::STR("a".to_string())]).0,
        Err(RuntimeError::IllegalOperandType)
    );
    assert_eq!(
        exec_on(InstructionSet::MUL, vec![InnerData::INT32(65536), InnerData::INT32(65536)]).0,
        Err(RuntimeError::Arithmetic(ArithError::Overflow))
    );
    assert_eq!(
        exec_on(InstructionSet::MOD, vec![InnerData::INT(1), InnerData::INT(0)]).0,
        Err(RuntimeError::Arithmetic(ArithError::DivideByZero))
    );
    let (r, _, _, _) = run(vec![InstructionSet::LOAD(InnerData::INT(1), 2)]);
    assert_eq!(r, Err(RuntimeError::ProgramCounterOutOfBounds));
}

#[test]
fn negate_and_dereference() {
    let (r, stack) = exec_on(InstructionSet::NEG, vec![InnerData::INT(-128)]);
    assert_eq!(r, Ok(()));
    assert_eq!(stack.data(), &[InnerData::INT16(128)]);
    let (_, stack) = exec_on(InstructionSet::NEG, vec![InnerData::INT32(5)]);
    assert_eq!(stack.data(), &[InnerData::INT32(-5)]);
    let (r, _, data_memory, out) = run(vec![
        InstructionSet::LOAD(InnerData::INT(5), 2),
        InstructionSet::POP(InnerData::INT(3), 4),
        InstructionSet::LOAD(InnerData::INT(3), 5),
        InstructionSet::SHOW,
        InstructionSet::LOAD(InnerData::INT(3), 5),
        InstructionSet::DEREF,
        InstructionSet::SHOW,
        InstructionSet::LOAD(InnerData::INT(2), 5),
        InstructionSet::POP(InnerData::INT(1), 4),
        InstructionSet::LOAD(InnerData::STR("v".to_string()), 3),
        InstructionSet::POP(InnerData::INT(1), 6),
        InstructionSet::HALT,
    ]);
    assert_eq!(r, Ok(()));
    assert_eq!(out, "24\n5\n");
    assert_eq!(data_memory.get_var_value(2), &InnerData::STR("v".to_string()));
}

#[test]
fn flags_drive_conditional_jumps() {
    let (r, _, _, out) = run(vec![
        InstructionSet::LOAD(InnerData::INT(0), 2),
        InstructionSet::JZ(InnerData::INT(3)),
        InstructionSet::LOAD(InnerData::INT(1), 2),
        InstructionSet::SHOW,
        InstructionSet::LOAD(InnerData::INT(-4), 2),
        InstructionSet::JN(InnerData::INT(6)),
        InstructionSet::SHOW,
        InstructionSet::SHOW,
        InstructionSet::HALT,
    ]);
    assert_eq!(r, Ok(()));
    assert_eq!(out, "-4\n");
    let mut processor = Processor::new();
    let mut stack = Stack::new();
    stack.push(InnerData::INT(-2));
    processor
        .execute(&InstructionSet::LABEL, &mut DataMemory::new(), &mut stack, &mut Stack::new(), &mut Vec::new())
        .unwrap();
    assert!(processor.flags().negative);
    assert!(!processor.flags().zero);
}

#[test]
fn equality_instruction() {
    let (_, stack) = exec_on(InstructionSet::EQU(InnerData::STR("a".to_string()), 3), vec![InnerData::STR("a".to_string())]);
    assert_eq!(stack.data(), &[InnerData::STR("a".to_string()), InnerData::INT(1)]);
    let (_, stack) = exec_on(InstructionSet::EQU(InnerData::INT(7), 2), vec![InnerData::INT16(7)]);
    assert_eq!(stack.top(), &InnerData::INT(1));
    let (_, stack) = exec_on(InstructionSet::EQU(InnerData::INT(7), 2), vec![InnerData::STR("7".to_string())]);
    assert_eq!(stack.top(), &InnerData::INT(0));
}

#[test]
fn show_formats_values() {
    let (_, _, _, out) = run(vec![
        InstructionSet::LOAD(InnerData::INT(-12), 2),
        InstructionSet::SHOW,
        InstructionSet::LOAD(InnerData::INT32(-2147483648), 2),
        InstructionSet::SHOW,
        InstructionSet::LOAD(InnerData::STR("héllo".to_string()), 3),
        InstructionSet::SHOW,
        InstructionSet::HALT,
    ]);
    assert_eq!(out, "-12\n-2147483648\nhéllo\n");
}

#[test]
fn values_by_name() {
    assert_eq!(InnerData::from("42", "INT"), Some(InnerData::INT(42)));
    assert_eq!(InnerData::from("-300", "INT16"), Some(InnerData::INT16(-300)));
    assert_eq!(InnerData::from("+70000", "INT32"), Some(InnerData::INT32(70000)));
    assert_eq!(InnerData::from("300", "INT"), None);
    assert_eq!(InnerData::from("ab", "STR"), Some(InnerData::STR("ab".to_string())));
    assert_eq!(InnerData::from("1", "FLOAT"), None);
    assert_eq!(InnerData::INT(1).get_type(), "i8");
    assert_eq!(InnerData::INT16(1).get_type(), "i16");
    assert_eq!(InnerData::INT32(1).get_type(), "i32");
    assert_eq!(InnerData::STR(String::new()).get_type(), "str");
}

#[test]
fn program_memory_indices() {
    let mut memory = ProgramMemory::new();
    assert_eq!(memory.add_instruction(InstructionSet::ADD), 0);
    assert_eq!(memory.add_instruction(InstructionSet::SUB), 1);
    assert_eq!(memory.get_instruction(1), &InstructionSet::SUB);
    let mut plain = yamini::memory::memory::Memory::new();
    assert_eq!(plain.add_value(InstructionSet::HALT), 0);
    plain.set_value(0, InstructionSet::RET);
    assert_eq!(plain.get_value(0), &InstructionSet::RET);
}

#[test]
fn trace_events_follow_the_opcode() {
    assert_eq!(stack_events(&InstructionSet::ADD), (vec![StackEvent::Pop, StackEvent::Pop, StackEvent::Push], vec![]));
    assert_eq!(stack_events(&InstructionSet::CALL(InnerData::INT(1))), (vec![], vec![StackEvent::Push]));
    assert_eq!(stack_events(&InstructionSet::RET), (vec![], vec![StackEvent::Pop]));
    assert_eq!(stack_events(&InstructionSet::HALT), (vec![], vec![]));
}

#[test]
fn display_bytes_of_values() {
    let mut out = Vec::new();
    write_display(&mut out, &InnerData::INT16(-305));
    write_display(&mut out, &InnerData::STR("ok".to_string()));
    write_display(&mut out, &InnerData::INT(0));
    assert_eq!(out, b"-305ok0".to_vec());
}

#[test]
fn stack_lifo_over_many_values() {
    let mut stack = Stack::new();
    for v in 0..200i32 {
        stack.push(InnerData::INT32(v));
        assert_eq!(stack.head(), (v + 1) as usize);
        assert_eq!(stack.head(), stack.data().len());
    }
    for v in (0..200i32).rev() {
        assert_eq!(stack.pop(), Some(InnerData::INT32(v)));
        assert_eq!(stack.head(), v as usize);
        assert_eq!(stack.head(), stack.data().len());
    }
    assert_eq!(stack.pop(), None);
}

#[test]
fn literal_images_decode_by_length() {
    let image = |d: &str| {
        let mut b = vec![0u8, 2, 12];
        b.extend_from_slice(d.as_bytes());
        b.extend_from_slice(&[13, 5]);
        b
    };
    assert_eq!(decode(&image("42")).unwrap()[0], InstructionSet::LOAD(InnerData::INT(42), 2));
    assert_eq!(decode(&image("0042")).unwrap()[0], InstructionSet::LOAD(InnerData::INT16(42), 2));
    assert_eq!(decode(&image("000042")).unwrap()[0], InstructionSet::LOAD(InnerData::INT32(42), 2));
    assert_eq!(decode(&image("32768")).unwrap()[0], InstructionSet::LOAD(InnerData::INT32(32768), 2));
    assert_eq!(decode(&image("9999999999")), Err(DecodeError::LiteralOverflow));
    assert_eq!(decode(&image("42")).unwrap()[1], InstructionSet::HALT);
}

#[test]
fn failed_instruction_leaves_registers_and_variables() {
    let mut processor = Processor::new();
    let mut data_memory = DataMemory::new();
    let mut stack = Stack::new();
    stack.push(InnerData::INT(4));
    let r = processor.execute(
        &InstructionSet::POP(InnerData::INT(10), 1),
        &mut data_memory,
        &mut stack,
        &mut Stack::new(),
        &mut Vec::new(),
    );
    assert_eq!(r, Err(RuntimeError::RegisterOutOfBounds));
    assert_eq!(processor.registers(), [0i8; 10]);
    let r = processor.execute(
        &InstructionSet::POP(InnerData::INT(3), 9),
        &mut data_memory,
        &mut stack,
        &mut Stack::new(),
        &mut Vec::new(),
    );
    assert_eq!(r, Err(RuntimeError::InvalidTag(9)));
    assert_eq!(data_memory.get_var_value(3), &InnerData::INT(0));
}

#[test]
fn equality_pushes_one_value_in_the_trace() {
    assert_eq!(stack_events(&InstructionSet::EQU(InnerData::INT(1), 2)), (vec![StackEvent::Push], vec![]));
}
