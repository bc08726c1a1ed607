use rulox::chunk::{Chunk, CompileError, OpCode};
use rulox::value::Value;

fn num(x: f64) -> Value {
    Value::Number(x.to_bits())
}

#[test]
fn opcode_bytes_are_contiguous_from_zero() {
    let all = [
        OpCode::Constant,
        OpCode::ConstantLong,
        OpCode::Add,
        OpCode::Subtract,
        OpCode::Multiply,
        OpCode::Divide,
        OpCode::Negate,
        OpCode::Return,
    ];
    for (i, op) in all.iter().enumerate() {
        assert_eq!(op.as_byte() as usize, i);
        assert_eq!(OpCode::from_byte(i as u8), Some(*op));
    }
    for byte in 8..=255u8 {
        assert_eq!(OpCode::from_byte(byte), None);
    }
}

#[test]
fn write_appends_bytes_and_lines() {
    let mut chunk = Chunk::new();
    assert_eq!(chunk.len(), 0);
    chunk.write(42, 7);
    chunk.write_opcode(OpCode::Return, 7);
    assert_eq!(chunk.len(), 2);
    assert_eq!(chunk.read(0), 42);
    assert_eq!(chunk.read(1), OpCode::Return.as_byte());
}

#[test]
fn small_constant_uses_short_form() {
    let mut chunk = Chunk::new();
    chunk.write_constant(num(1.2), 1).unwrap();
    assert_eq!(chunk.len(), 2);
    assert_eq!(chunk.read(0), OpCode::Constant.as_byte());
    assert_eq!(chunk.read(1), 0);
    assert_eq!(chunk.constants.len(), 1);
    assert_eq!(chunk.constants[0], num(1.2));
}

#[test]
fn boundary_index_255_still_uses_short_form() {
    let mut chunk = Chunk::new();
    for i in 0..=255 {
        chunk.write_constant(num(i as f64), 1).unwrap();
    }
    // The value at index 255 is the 256th: opcode plus one operand byte.
    let n = chunk.len();
    assert_eq!(chunk.read(n - 2), OpCode::Constant.as_byte());
    assert_eq!(chunk.read(n - 1), 255);
}

#[test]
fn large_constant_uses_long_form_big_endian() {
    let mut chunk = Chunk::new();
    for i in 0..0x123 {
        chunk.write_constant(num(i as f64), 1).unwrap();
    }
    let before = chunk.len();
    chunk.write_constant(num(99.5), 9).unwrap();
    // Index 0x123 needs the long form: opcode, then three bytes,
    // most significant first.
    assert_eq!(chunk.len(), before + 4);
    assert_eq!(chunk.read(before), OpCode::ConstantLong.as_byte());
    assert_eq!(chunk.read(before + 1), 0x00);
    assert_eq!(chunk.read(before + 2), 0x01);
    assert_eq!(chunk.read(before + 3), 0x23);
    assert_eq!(chunk.constants[0x123], num(99.5));
}

#[test]
fn pool_capacity_is_exactly_two_to_the_24() {
    let mut chunk = Chunk::new();
    for i in 0..(1usize << 24) {
        assert!(chunk.write_constant(num(0.5), 1).is_ok(), "call {} failed", i);
    }
    assert_eq!(chunk.constants.len(), 1 << 24);
    let code_before = chunk.len();
    let r = chunk.write_constant(num(0.5), 1);
    assert!(matches!(r, Err(CompileError::TooManyConstants)));
    // The failing call leaves the chunk unmodified.
    assert_eq!(chunk.constants.len(), 1 << 24);
    assert_eq!(chunk.len(), code_before);
}

#[test]
fn compile_error_message() {
    assert_eq!(CompileError::TooManyConstants.message(), "Too many constants");
}

#[test]
fn disassembly_advances_to_exactly_the_end() {
    let mut chunk = Chunk::new();
    chunk.write_constant(num(1.5), 1).unwrap();
    chunk.write_constant(num(2.5), 1).unwrap();
    chunk.write_opcode(OpCode::Add, 2);
    chunk.write_opcode(OpCode::Negate, 2);
    chunk.write_opcode(OpCode::Return, 3);
    let mut offset = 0;
    while offset < chunk.len() {
        let (_, next) = chunk.disassemble_instruction(offset);
        assert!(next > offset);
        assert!(next <= chunk.len());
        offset = next;
    }
    assert_eq!(offset, chunk.len());
}

#[test]
fn disassembly_of_malformed_code_resynchronizes() {
    let mut chunk = Chunk::new();
    chunk.write(255, 1); // unknown opcode
    chunk.write(254, 1); // unknown opcode
    chunk.write_opcode(OpCode::Constant, 2); // operand byte missing: truncated
    let mut offset = 0;
    let mut steps = 0;
    while offset < chunk.len() {
        let (text, next) = chunk.disassemble_instruction(offset);
        assert!(!text.is_empty());
        assert!(next > offset && next <= chunk.len());
        offset = next;
        steps += 1;
    }
    assert_eq!(offset, chunk.len());
    assert_eq!(steps, 3);
}

#[test]
fn disassembly_text_matches_expected_format() {
    let mut chunk = Chunk::new();
    chunk.write_constant(num(1.2), 1).unwrap();
    chunk.write_opcode(OpCode::Return, 2);
    let text = chunk.disassemble("test");
    let expected = format!(
        "== test ==\n{:04} {:4} {:16} {:4} '{}'\n{:04} {:4} {}\n",
        0, 1, "OP_CONSTANT", 0, "1.2", 2, 2, "OP_RETURN"
    );
    assert_eq!(text, expected);
}

#[test]
fn disassembly_suppresses_repeated_lines() {
    let mut chunk = Chunk::new();
    chunk.write_opcode(OpCode::Add, 5);
    chunk.write_opcode(OpCode::Return, 5);
    let text = chunk.disassemble("same");
    let expected = format!(
        "== same ==\n{:04} {:4} {}\n{:04} {} {}\n",
        0, 5, "OP_ADD", 1, "   |", "OP_RETURN"
    );
    assert_eq!(text, expected);
}

#[test]
fn unknown_opcode_prints_diagnostic() {
    let mut chunk = Chunk::new();
    chunk.write(200, 1);
    let (text, next) = chunk.disassemble_instruction(0);
    assert!(text.ends_with("Unknown opcode 200\n"));
    assert_eq!(next, 1);
}

#[test]
fn default_chunk_is_empty() {
    let chunk = Chunk::default();
    assert_eq!(chunk.len(), 0);
    assert_eq!(chunk.constants.len(), 0);
}
