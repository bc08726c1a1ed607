//! The bytecode container.
//!
//! A [`Chunk`] is an append-only unit of compiled bytecode: an encoded
//! instruction stream, a parallel line-number table with one entry per
//! code byte, and a constant pool. A constant-pool index always fits in
//! 24 bits; exceeding that is a construction-time failure, never a
//! runtime one.

use vstd::prelude::*;
use vstd::string::StringExecFns;

use crate::text::{decimal, pad_left, pad_right, spec_dec, spec_pad_left, spec_pad_right,
    spec_zero_pad, zero_pad};
use crate::value::{number_text, Value};
use crate::MAX_CONSTANTS;

verus! {

/// A single-byte instruction tag. Byte values are stable and contiguous
/// starting at 0, in declaration order.
#[derive(Clone, Copy, Debug, PartialEq, Eq, Structural)]
pub enum OpCode {
    Constant,
    ConstantLong,
    Add,
    Subtract,
    Multiply,
    Divide,
    Negate,
    Return,
}

impl OpCode {
    /// The byte that encodes this opcode.
    pub open spec fn spec_byte(self) -> u8 {
        match self {
            OpCode::Constant => 0,
            OpCode::ConstantLong => 1,
            OpCode::Add => 2,
            OpCode::Subtract => 3,
            OpCode::Multiply => 4,
            OpCode::Divide => 5,
            OpCode::Negate => 6,
            OpCode::Return => 7,
        }
    }

    /// The opcode a byte decodes to, if any. Decoding an out-of-range
    /// byte is a recoverable condition, never undefined behaviour.
    pub open spec fn spec_from_byte(byte: u8) -> Option<OpCode> {
        if byte == 0 {
            Some(OpCode::Constant)
        } else if byte == 1 {
            Some(OpCode::ConstantLong)
        } else if byte == 2 {
            Some(OpCode::Add)
        } else if byte == 3 {
            Some(OpCode::Subtract)
        } else if byte == 4 {
            Some(OpCode::Multiply)
        } else if byte == 5 {
            Some(OpCode::Divide)
        } else if byte == 6 {
            Some(OpCode::Negate)
        } else if byte == 7 {
            Some(OpCode::Return)
        } else {
            None
        }
    }

    /// Encode this opcode as its instruction byte.
    pub fn as_byte(self) -> (byte: u8)
        ensures
            byte == self.spec_byte(),
            Self::spec_from_byte(byte) == Some(self),
    {
        match self {
            OpCode::Constant => 0,
            OpCode::ConstantLong => 1,
            OpCode::Add => 2,
            OpCode::Subtract => 3,
            OpCode::Multiply => 4,
            OpCode::Divide => 5,
            OpCode::Negate => 6,
            OpCode::Return => 7,
        }
    }

    /// Decode a byte back to an opcode, failing on a byte no opcode
    /// encodes to.
    pub fn from_byte(byte: u8) -> (r: Option<OpCode>)
        ensures
            r == Self::spec_from_byte(byte),
    {
        match byte {
            0 => Some(OpCode::Constant),
            1 => Some(OpCode::ConstantLong),
            2 => Some(OpCode::Add),
            3 => Some(OpCode::Subtract),
            4 => Some(OpCode::Multiply),
            5 => Some(OpCode::Divide),
            6 => Some(OpCode::Negate),
            7 => Some(OpCode::Return),
            _ => None,
        }
    }
}

/// Errors that can occur while a chunk is being built.
#[derive(Clone, Copy, Debug, PartialEq, Eq, Structural)]
pub enum CompileError {
    /// The constant pool already holds the largest number of entries a
    /// 24-bit index can address.
    TooManyConstants,
}

impl CompileError {
    /// A human-readable description of this error.
    pub fn message(&self) -> (r: String)
        ensures
            r@ == "Too many constants"@,
    {
        "Too many constants".to_owned()
    }
}

/// The mathematical content of a chunk.
pub struct ChunkData {
    /// The instruction stream.
    pub code: Seq<u8>,
    /// The source line of each code byte.
    pub lines: Seq<usize>,
    /// The constant pool.
    pub constants: Seq<Value>,
}

impl ChunkData {
    /// The line table covers the instruction stream byte for byte.
    pub open spec fn wf(self) -> bool {
        self.lines.len() == self.code.len()
    }
}

/// An append-only unit of compiled bytecode.
pub struct Chunk {
    code: Vec<u8>,
    lines: Vec<usize>,
    /// The ordered pool of literal values instructions load by index.
    pub constants: Vec<Value>,
}

impl View for Chunk {
    type V = ChunkData;

    closed spec fn view(&self) -> ChunkData {
        ChunkData { code: self.code@, lines: self.lines@, constants: self.constants@ }
    }
}

impl Chunk {
    /// Make an empty chunk.
    pub fn new() -> (c: Chunk)
        ensures
            c@.code == Seq::<u8>::empty(),
            c@.lines == Seq::<usize>::empty(),
            c@.constants == Seq::<Value>::empty(),
            c@.wf(),
    {
        Chunk { code: Vec::new(), lines: Vec::new(), constants: Vec::new() }
    }

    /// Raw indexed access into the instruction stream. Callers are
    /// responsible for staying in bounds.
    pub fn read(&self, idx: usize) -> (byte: u8)
        requires
            idx < self@.code.len(),
        ensures
            byte == self@.code[idx as int],
    {
        self.code[idx]
    }

    /// The constant-pool entry at `idx`.
    pub fn constant(&self, idx: usize) -> (v: Value)
        requires
            idx < self@.constants.len(),
        ensures
            v == self@.constants[idx as int],
    {
        self.constants[idx]
    }

    /// The number of entries in the constant pool.
    pub fn constants_len(&self) -> (n: usize)
        ensures
            n == self@.constants.len(),
    {
        self.constants.len()
    }

    /// The number of bytes in the instruction stream.
    pub fn len(&self) -> (n: usize)
        ensures
            n == self@.code.len(),
    {
        self.code.len()
    }

    /// Append one raw byte and its source line. No validation: callers
    /// are trusted to keep opcode/operand pairs well formed.
    pub fn write(&mut self, byte: u8, line: usize)
        ensures
            final(self)@.code == old(self)@.code.push(byte),
            final(self)@.lines == old(self)@.lines.push(line),
            final(self)@.constants == old(self)@.constants,
            old(self)@.wf() ==> final(self)@.wf(),
    {
        self.code.push(byte);
        self.lines.push(line);
    }

    /// Append an opcode byte and its source line.
    pub fn write_opcode(&mut self, opcode: OpCode, line: usize)
        ensures
            final(self)@.code == old(self)@.code.push(opcode.spec_byte()),
            final(self)@.lines == old(self)@.lines.push(line),
            final(self)@.constants == old(self)@.constants,
            old(self)@.wf() ==> final(self)@.wf(),
    {
        let byte = opcode.as_byte();
        self.write(byte, line);
    }

    /// Intern a value in the constant pool, failing once the pool is at
    /// its 24-bit capacity and leaving the pool unmodified in that case.
    fn add_constant(&mut self, value: Value) -> (r: Result<usize, CompileError>)
        ensures
            old(self)@.constants.len() >= MAX_CONSTANTS ==> {
                &&& r == Err::<usize, CompileError>(CompileError::TooManyConstants)
                &&& final(self)@ == old(self)@
            },
            old(self)@.constants.len() < MAX_CONSTANTS ==> {
                &&& r == Ok::<usize, CompileError>(old(self)@.constants.len() as usize)
                &&& final(self)@.constants == old(self)@.constants.push(value)
                &&& final(self)@.code == old(self)@.code
                &&& final(self)@.lines == old(self)@.lines
            },
    {
        if self.constants.len() >= MAX_CONSTANTS {
            return Err(CompileError::TooManyConstants);
        }
        let idx = self.constants.len();
        self.constants.push(value);
        Ok(idx)
    }

    /// The bytes `write_constant` appends for a value interned at
    /// `index`: the shortest correct load instruction. An index that fits
    /// in one byte gets `Constant` and that byte; a larger one gets
    /// `ConstantLong` and three operand bytes, most significant first.
    pub open spec fn spec_constant_encoding(index: int) -> Seq<u8> {
        if index <= 255 {
            seq![OpCode::Constant.spec_byte(), index as u8]
        } else {
            seq![
                OpCode::ConstantLong.spec_byte(),
                (index / 0x10000) as u8,
                ((index / 0x100) % 0x100) as u8,
                (index % 0x100) as u8,
            ]
        }
    }

    /// Intern `value` in the constant pool and emit the shortest correct
    /// load instruction for its index, every emitted byte tagged with
    /// `line`. Fails with `TooManyConstants`, leaving the chunk
    /// unmodified, exactly when the pool is at its 24-bit capacity.
    pub fn write_constant(&mut self, value: Value, line: usize) -> (r: Result<(), CompileError>)
        ensures
            old(self)@.constants.len() >= MAX_CONSTANTS ==> {
                &&& r == Err::<(), CompileError>(CompileError::TooManyConstants)
                &&& final(self)@ == old(self)@
            },
            old(self)@.constants.len() < MAX_CONSTANTS ==> {
                &&& r == Ok::<(), CompileError>(())
                &&& final(self)@.constants == old(self)@.constants.push(value)
                &&& final(self)@.code == old(self)@.code
                    + Self::spec_constant_encoding(old(self)@.constants.len() as int)
                &&& final(self)@.lines == old(self)@.lines
                    + Seq::new(Self::spec_constant_encoding(old(self)@.constants.len() as int).len(), |i: int| line)
            },
            old(self)@.wf() ==> final(self)@.wf(),
    {
        let index = match self.add_constant(value) {
            Ok(index) => index,
            Err(e) => {
                return Err(e);
            },
        };
        if index <= 255 {
            self.write_opcode(OpCode::Constant, line);
            self.write(index as u8, line);
            assert(self@.code =~= old(self)@.code + Self::spec_constant_encoding(index as int));
            assert(self@.lines =~= old(self)@.lines + Seq::new(2, |i: int| line));
        } else {
            self.write_opcode(OpCode::ConstantLong, line);
            let high = (index / 0x10000) as u8;
            let mid = ((index / 0x100) % 0x100) as u8;
            let low = (index % 0x100) as u8;
            self.write(high, line);
            self.write(mid, line);
            self.write(low, line);
            assert(self@.code =~= old(self)@.code + Self::spec_constant_encoding(index as int));
            assert(self@.lines =~= old(self)@.lines + Seq::new(4, |i: int| line));
        }
        Ok(())
    }
}

impl Chunk {
    /// Where the instruction at `offset` ends and the next one begins:
    /// one byte for the opcode, plus the operand bytes its kind calls
    /// for, clamped to the end of a truncated stream. An unrecognized
    /// byte advances exactly one byte, so disassembly resynchronizes
    /// itself on malformed input.
    pub open spec fn spec_next_offset(c: ChunkData, offset: int) -> int {
        match OpCode::spec_from_byte(c.code[offset]) {
            Some(OpCode::Constant) => if offset + 2 <= c.code.len() {
                offset + 2
            } else {
                c.code.len() as int
            },
            Some(OpCode::ConstantLong) => if offset + 4 <= c.code.len() {
                offset + 4
            } else {
                c.code.len() as int
            },
            _ => offset + 1,
        }
    }

    /// The display form of the constant at `idx`, or a placeholder for
    /// an index outside the pool.
    pub open spec fn spec_constant_display(c: ChunkData, idx: int) -> Seq<char> {
        if 0 <= idx < c.constants.len() {
            number_text(c.constants[idx].spec_bits())
        } else {
            "???"@
        }
    }

    /// The text of the instruction at `offset`, mnemonic and operands,
    /// ending in a newline.
    pub open spec fn spec_instruction_text(c: ChunkData, offset: int) -> Seq<char> {
        let byte = c.code[offset];
        match OpCode::spec_from_byte(byte) {
            None => "Unknown opcode "@ + spec_dec(byte as int) + "\n"@,
            Some(OpCode::Constant) => if offset + 2 <= c.code.len() {
                let idx = c.code[offset + 1] as int;
                spec_pad_right("OP_CONSTANT"@, 16) + " "@ + spec_pad_left(spec_dec(idx), 4)
                    + " '"@ + Self::spec_constant_display(c, idx) + "'\n"@
            } else {
                "OP_CONSTANT\n"@
            },
            Some(OpCode::ConstantLong) => if offset + 4 <= c.code.len() {
                let idx = (c.code[offset + 1] as int) * 0x10000 + (c.code[offset + 2] as int)
                    * 0x100 + (c.code[offset + 3] as int);
                spec_pad_right("OP_CONSTANT_LONG"@, 16) + " "@ + spec_pad_left(spec_dec(idx), 8)
                    + " '"@ + Self::spec_constant_display(c, idx) + "'\n"@
            } else {
                "OP_CONSTANT_LONG\n"@
            },
            Some(OpCode::Add) => "OP_ADD\n"@,
            Some(OpCode::Subtract) => "OP_SUBTRACT\n"@,
            Some(OpCode::Multiply) => "OP_MULTIPLY\n"@,
            Some(OpCode::Divide) => "OP_DIVIDE\n"@,
            Some(OpCode::Negate) => "OP_NEGATE\n"@,
            Some(OpCode::Return) => "OP_RETURN\n"@,
        }
    }

    /// One disassembled line: the zero-padded offset, the source line
    /// (shown as a placeholder when it repeats the previous byte's
    /// line), and the instruction text.
    pub open spec fn spec_disasm_line(c: ChunkData, offset: int) -> Seq<char> {
        spec_zero_pad(spec_dec(offset), 4) + " "@ + (if offset > 0 && c.lines[offset]
            == c.lines[offset - 1] {
            "   | "@
        } else {
            spec_pad_left(spec_dec(c.lines[offset] as int), 4) + " "@
        }) + Self::spec_instruction_text(c, offset)
    }

    /// The disassembly of everything from `offset` to the end of the
    /// code.
    pub open spec fn spec_disassembly_from(c: ChunkData, offset: int) -> Seq<char>
        decreases c.code.len() - offset,
    {
        if offset < 0 || offset >= c.code.len() {
            Seq::empty()
        } else {
            Self::spec_disasm_line(c, offset) + Self::spec_disassembly_from(
                c,
                Self::spec_next_offset(c, offset),
            )
        }
    }

    /// Disassembly always advances: from any offset inside the code the
    /// next offset is strictly greater and never beyond the end, so a
    /// disassembly walk terminates after visiting every instruction,
    /// however malformed the stream is.
    pub proof fn lemma_disassembly_advances(c: ChunkData, offset: int)
        requires
            0 <= offset < c.code.len(),
        ensures
            offset < Self::spec_next_offset(c, offset) <= c.code.len(),
    {
    }

    /// Disassemble the instruction at `offset`: its text, and the
    /// offset where the next instruction begins.
    #[verifier::rlimit(60)]
    pub fn disassemble_instruction(&self, offset: usize) -> (r: (String, usize))
        requires
            self@.wf(),
            offset < self@.code.len(),
        ensures
            r.0@ == Self::spec_disasm_line(self@, offset as int),
            r.1 == Self::spec_next_offset(self@, offset as int),
            offset < r.1 <= self@.code.len(),
    {
        let n = self.code.len();
        let mut text = zero_pad(decimal(offset), 4);
        text.append(" ");
        let line = self.lines[offset];
        if offset > 0 && line == self.lines[offset - 1] {
            text.append("   | ");
        } else {
            let line_text = pad_left(decimal(line), 4);
            text.append(line_text.as_str());
            text.append(" ");
        }
        let instruction = self.code[offset];
        match OpCode::from_byte(instruction) {
            None => {
                text.append("Unknown opcode ");
                let byte_text = decimal(instruction as usize);
                text.append(byte_text.as_str());
                text.append("\n");
                assert(text@ =~= Self::spec_disasm_line(self@, offset as int));
                (text, offset + 1)
            },
            Some(OpCode::Constant) => {
                if n - offset >= 2 {
                    let idx = self.code[offset + 1] as usize;
                    self.append_constant_operand(&mut text, "OP_CONSTANT", idx, 4);
                    assert(text@ =~= Self::spec_disasm_line(self@, offset as int));
                    (text, offset + 2)
                } else {
                    text.append("OP_CONSTANT\n");
                    assert(text@ =~= Self::spec_disasm_line(self@, offset as int));
                    (text, n)
                }
            },
            Some(OpCode::ConstantLong) => {
                if n - offset >= 4 {
                    let high = self.code[offset + 1] as usize;
                    let mid = self.code[offset + 2] as usize;
                    let low = self.code[offset + 3] as usize;
                    let idx = high * 0x10000 + mid * 0x100 + low;
                    self.append_constant_operand(&mut text, "OP_CONSTANT_LONG", idx, 8);
                    assert(text@ =~= Self::spec_disasm_line(self@, offset as int));
                    (text, offset + 4)
                } else {
                    text.append("OP_CONSTANT_LONG\n");
                    assert(text@ =~= Self::spec_disasm_line(self@, offset as int));
                    (text, n)
                }
            },
            Some(OpCode::Add) => {
                text.append("OP_ADD\n");
                assert(text@ =~= Self::spec_disasm_line(self@, offset as int));
                (text, offset + 1)
            },
            Some(OpCode::Subtract) => {
                text.append("OP_SUBTRACT\n");
                assert(text@ =~= Self::spec_disasm_line(self@, offset as int));
                (text, offset + 1)
            },
            Some(OpCode::Multiply) => {
                text.append("OP_MULTIPLY\n");
                assert(text@ =~= Self::spec_disasm_line(self@, offset as int));
                (text, offset + 1)
            },
            Some(OpCode::Divide) => {
                text.append("OP_DIVIDE\n");
                assert(text@ =~= Self::spec_disasm_line(self@, offset as int));
                (text, offset + 1)
            },
            Some(OpCode::Negate) => {
                text.append("OP_NEGATE\n");
                assert(text@ =~= Self::spec_disasm_line(self@, offset as int));
                (text, offset + 1)
            },
            Some(OpCode::Return) => {
                text.append("OP_RETURN\n");
                assert(text@ =~= Self::spec_disasm_line(self@, offset as int));
                (text, offset + 1)
            },
        }
    }

    /// Append a constant-loading instruction's mnemonic, its operand
    /// index in a column of `width`, and the constant's display form.
    fn append_constant_operand(&self, text: &mut String, name: &str, idx: usize, width: usize)
        ensures
            final(text)@ == old(text)@ + spec_pad_right(name@, 16) + " "@ + spec_pad_left(
                spec_dec(idx as int),
                width as int,
            ) + " '"@ + Self::spec_constant_display(self@, idx as int) + "'\n"@,
    {
        let name_text = pad_right(name.to_owned(), 16);
        text.append(name_text.as_str());
        text.append(" ");
        let idx_text = pad_left(decimal(idx), width);
        text.append(idx_text.as_str());
        text.append(" '");
        if idx < self.constants.len() {
            let value_text = self.constants[idx].text();
            text.append(value_text.as_str());
        } else {
            text.append("???");
        }
        text.append("'\n");
        assert(text@ =~= old(text)@ + spec_pad_right(name@, 16) + " "@ + spec_pad_left(
            spec_dec(idx as int),
            width as int,
        ) + " '"@ + Self::spec_constant_display(self@, idx as int) + "'\n"@);
    }

    /// Produce the whole chunk's human-readable disassembly, under a
    /// header naming it.
    pub fn disassemble(&self, name: &str) -> (r: String)
        requires
            self@.wf(),
        ensures
            r@ == "== "@ + name@ + " ==\n"@ + Self::spec_disassembly_from(self@, 0),
    {
        let mut text = "== ".to_owned();
        text.append(name);
        text.append(" ==\n");
        let ghost header = text@;
        let mut offset: usize = 0;
        while offset < self.code.len()
            invariant
                self@.wf(),
                offset <= self@.code.len(),
                header == "== "@ + name@ + " ==\n"@,
                text@ + Self::spec_disassembly_from(self@, offset as int) == header
                    + Self::spec_disassembly_from(self@, 0),
            decreases self@.code.len() - offset,
        {
            let (line_text, next) = self.disassemble_instruction(offset);
            text.append(line_text.as_str());
            assert(text@ + Self::spec_disassembly_from(self@, next as int) =~= header
                + Self::spec_disassembly_from(self@, 0));
            offset = next;
        }
        assert(text@ =~= header + Self::spec_disassembly_from(self@, 0));
        text
    }
}

impl Default for Chunk {
    /// An empty chunk.
    fn default() -> (c: Chunk)
        ensures
            c@.code == Seq::<u8>::empty(),
            c@.lines == Seq::<usize>::empty(),
            c@.constants == Seq::<Value>::empty(),
            c@.wf(),
    {
        Chunk::new()
    }
}

} // verus!
