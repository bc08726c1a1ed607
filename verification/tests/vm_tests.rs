use rulox::chunk::{Chunk, OpCode};
use rulox::value::Value;
use rulox::vm::{RuntimeError, VmError, VM};

fn num(x: f64) -> Value {
    Value::Number(x.to_bits())
}

fn output_as_f64(vm: &VM) -> f64 {
    match vm.output().expect("a value should have been emitted") {
        Value::Number(bits) => f64::from_bits(bits),
    }
}

#[test]
fn constant_then_return_emits_the_constant() {
    let mut chunk = Chunk::new();
    chunk.write_constant(num(1.2), 1).unwrap();
    chunk.write_opcode(OpCode::Return, 2);
    let mut vm = VM::new(false);
    assert!(vm.interpret(&chunk).is_ok());
    let out = vm.output().unwrap();
    assert_eq!(out, num(1.2));
    assert_eq!(out.text(), "1.2");
}

#[test]
fn add_emits_the_sum() {
    let mut chunk = Chunk::new();
    chunk.write_constant(num(1.2), 1).unwrap();
    chunk.write_constant(num(3.4), 1).unwrap();
    chunk.write_opcode(OpCode::Add, 1);
    chunk.write_opcode(OpCode::Return, 1);
    let mut vm = VM::new(false);
    assert!(vm.interpret(&chunk).is_ok());
    assert_eq!(output_as_f64(&vm), 1.2 + 3.4);
}

#[test]
fn add_works_through_long_constant_loads() {
    let mut chunk = Chunk::new();
    // Fill the pool so the loads below need the wide encoding.
    for _ in 0..300 {
        chunk.write_constant(num(0.0), 1).unwrap();
    }
    chunk.write_constant(num(2.5), 1).unwrap();
    chunk.write_constant(num(4.25), 1).unwrap();
    chunk.write_opcode(OpCode::Add, 1);
    chunk.write_opcode(OpCode::Return, 1);
    let mut vm = VM::new(false);
    assert!(vm.interpret(&chunk).is_ok());
    assert_eq!(output_as_f64(&vm), 6.75);
}

#[test]
fn subtract_is_left_minus_right() {
    let mut chunk = Chunk::new();
    chunk.write_constant(num(10.0), 1).unwrap();
    chunk.write_constant(num(4.5), 1).unwrap();
    chunk.write_opcode(OpCode::Subtract, 1);
    chunk.write_opcode(OpCode::Return, 1);
    let mut vm = VM::new(false);
    assert!(vm.interpret(&chunk).is_ok());
    assert_eq!(output_as_f64(&vm), 5.5);
}

#[test]
fn multiply_and_negate() {
    let mut chunk = Chunk::new();
    chunk.write_constant(num(2.5), 1).unwrap();
    chunk.write_constant(num(4.0), 1).unwrap();
    chunk.write_opcode(OpCode::Multiply, 1);
    chunk.write_opcode(OpCode::Negate, 1);
    chunk.write_opcode(OpCode::Return, 1);
    let mut vm = VM::new(false);
    assert!(vm.interpret(&chunk).is_ok());
    assert_eq!(output_as_f64(&vm), -10.0);
}

#[test]
fn full_expression_scenario() {
    // -((1.2 + 3.4) / 5.6)
    let mut chunk = Chunk::new();
    chunk.write_constant(num(1.2), 1).unwrap();
    chunk.write_constant(num(3.4), 1).unwrap();
    chunk.write_opcode(OpCode::Add, 1);
    chunk.write_constant(num(5.6), 1).unwrap();
    chunk.write_opcode(OpCode::Divide, 1);
    chunk.write_opcode(OpCode::Negate, 1);
    chunk.write_opcode(OpCode::Return, 100);
    let mut vm = VM::new(false);
    assert!(vm.interpret(&chunk).is_ok());
    let expected = -((1.2 + 3.4) / 5.6);
    assert_eq!(output_as_f64(&vm), expected);
    assert_eq!(output_as_f64(&vm), -0.8214285714285714);
    assert_eq!(vm.output().unwrap().text(), "-0.8214285714285714");
}

#[test]
fn return_on_empty_stack_fails_with_popped_empty_stack() {
    let mut chunk = Chunk::new();
    chunk.write_opcode(OpCode::Return, 1);
    let mut vm = VM::new(false);
    let r = vm.interpret(&chunk);
    assert_eq!(r, Err(VmError::Runtime(RuntimeError::PoppedEmptyStack)));
    assert_eq!(vm.output(), None);
}

#[test]
fn binary_op_underflow_fails_with_popped_empty_stack() {
    let mut chunk = Chunk::new();
    chunk.write_constant(num(1.0), 1).unwrap();
    chunk.write_opcode(OpCode::Add, 1);
    chunk.write_opcode(OpCode::Return, 1);
    let mut vm = VM::new(false);
    let r = vm.interpret(&chunk);
    assert_eq!(r, Err(VmError::Runtime(RuntimeError::PoppedEmptyStack)));
}

#[test]
fn invalid_opcode_fails_with_the_byte() {
    let mut chunk = Chunk::new();
    chunk.write(42, 1);
    let mut vm = VM::new(false);
    let r = vm.interpret(&chunk);
    assert_eq!(r, Err(VmError::Runtime(RuntimeError::InvalidOpCode(42))));
}

#[test]
fn division_by_zero_follows_ieee_754() {
    let mut chunk = Chunk::new();
    chunk.write_constant(num(1.0), 1).unwrap();
    chunk.write_constant(num(0.0), 1).unwrap();
    chunk.write_opcode(OpCode::Divide, 1);
    chunk.write_opcode(OpCode::Return, 1);
    let mut vm = VM::new(false);
    assert!(vm.interpret(&chunk).is_ok());
    let out = output_as_f64(&vm);
    assert!(out.is_infinite() && out.is_sign_positive());
}

#[test]
fn zero_divided_by_zero_is_nan() {
    let mut chunk = Chunk::new();
    chunk.write_constant(num(0.0), 1).unwrap();
    chunk.write_constant(num(0.0), 1).unwrap();
    chunk.write_opcode(OpCode::Divide, 1);
    chunk.write_opcode(OpCode::Return, 1);
    let mut vm = VM::new(false);
    assert!(vm.interpret(&chunk).is_ok());
    assert!(output_as_f64(&vm).is_nan());
}

#[test]
fn each_run_starts_from_a_fresh_stack() {
    let mut chunk = Chunk::new();
    chunk.write_constant(num(7.5), 1).unwrap();
    chunk.write_opcode(OpCode::Return, 1);
    let mut vm = VM::new(false);
    assert!(vm.interpret(&chunk).is_ok());
    assert!(vm.interpret(&chunk).is_ok());
    assert_eq!(output_as_f64(&vm), 7.5);

    // A chunk that leaves garbage behind does not pollute the next run.
    let mut noisy = Chunk::new();
    noisy.write_constant(num(1.0), 1).unwrap();
    noisy.write_constant(num(2.0), 1).unwrap();
    noisy.write_constant(num(3.0), 1).unwrap();
    noisy.write_opcode(OpCode::Return, 1);
    assert!(vm.interpret(&noisy).is_ok());
    assert_eq!(output_as_f64(&vm), 3.0);
    let mut empty = Chunk::new();
    empty.write_opcode(OpCode::Return, 1);
    let r = vm.interpret(&empty);
    assert_eq!(r, Err(VmError::Runtime(RuntimeError::PoppedEmptyStack)));
}

#[test]
fn trace_channel_records_stack_and_instructions() {
    let mut chunk = Chunk::new();
    chunk.write_constant(num(1.2), 1).unwrap();
    chunk.write_opcode(OpCode::Return, 2);
    let mut vm = VM::new(true);
    assert!(vm.interpret(&chunk).is_ok());
    let expected = format!(
        "          \n{:04} {:4} {:16} {:4} '{}'\n          [ {} ]\n{:04} {:4} {}\n",
        0, 1, "OP_CONSTANT", 0, "1.2", "1.2", 2, 2, "OP_RETURN"
    );
    assert_eq!(vm.trace_text(), &expected);
}

#[test]
fn disabled_trace_stays_empty_and_result_is_identical() {
    let mut chunk = Chunk::new();
    chunk.write_constant(num(1.2), 1).unwrap();
    chunk.write_constant(num(3.4), 1).unwrap();
    chunk.write_opcode(OpCode::Add, 1);
    chunk.write_opcode(OpCode::Return, 1);
    let mut quiet = VM::new(false);
    let mut loud = VM::new(true);
    let a = quiet.interpret(&chunk);
    let b = loud.interpret(&chunk);
    assert_eq!(a, b);
    assert_eq!(quiet.output(), loud.output());
    assert!(quiet.trace_text().is_empty());
    assert!(!loud.trace_text().is_empty());
}

#[test]
fn error_messages() {
    assert_eq!(VmError::Compilation.message(), "Compilation error");
    assert_eq!(
        VmError::Runtime(RuntimeError::InvalidOpCode(42)).message(),
        "Runtime error: Invalid opcode: 42"
    );
    assert_eq!(
        RuntimeError::PoppedEmptyStack.message(),
        "Attempt to pop value from empty stack"
    );
    assert_eq!(RuntimeError::TypeError.message(), "Type error");
    assert_eq!(RuntimeError::Io.message(), "Input/Output failure");
}

#[test]
fn value_conversions_are_fallible_by_design() {
    let v = num(2.25);
    assert_eq!(v.as_number(), Ok(2.25f64.to_bits()));
    assert_eq!(Value::from_bits(5.0f64.to_bits()), num(5.0));
    assert_eq!(v.bits(), 2.25f64.to_bits());
}
