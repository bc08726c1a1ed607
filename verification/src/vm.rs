//! The stack-based virtual machine.
//!
//! [`VM::interpret`] executes a chunk from offset 0 against a fresh,
//! empty operand stack, synchronously, until a `Return` halts it or an
//! error aborts it. Its contract ties the outcome, the emitted value,
//! the final stack and the optional execution trace to [`spec_run`], a
//! mathematical small-step execution of the bytecode.

use vstd::prelude::*;
use vstd::string::StringExecFns;

use crate::chunk::{Chunk, ChunkData, OpCode};
use crate::text::{decimal, spec_dec};
use crate::value::{
    add_bits, diff_bits, div_bits, mul_bits, neg_bits, negate_bits, number_text, prod_bits,
    quot_bits, sub_bits, sum_bits, Value,
};

verus! {

/// Errors that can occur during execution of a chunk. Each kind is
/// distinguishable so a caller can branch without string matching.
#[derive(Clone, Copy, Debug, PartialEq, Eq, Structural)]
pub enum RuntimeError {
    /// A byte was decoded that no opcode encodes to; carries the byte.
    InvalidOpCode(u8),
    /// A value was popped from an empty operand stack.
    PoppedEmptyStack,
    /// An operand had the wrong kind of value.
    TypeError,
    /// Writing to the output sink failed. The machine itself never
    /// produces this: it is raised by the surrounding program when it
    /// forwards an emitted value to a sink.
    Io,
}

impl RuntimeError {
    /// A human-readable description of this error.
    pub open spec fn spec_message(self) -> Seq<char> {
        match self {
            RuntimeError::InvalidOpCode(byte) => "Invalid opcode: "@ + spec_dec(byte as int),
            RuntimeError::PoppedEmptyStack => "Attempt to pop value from empty stack"@,
            RuntimeError::TypeError => "Type error"@,
            RuntimeError::Io => "Input/Output failure"@,
        }
    }

    /// A human-readable description of this error.
    pub fn message(&self) -> (r: String)
        ensures
            r@ == self.spec_message(),
    {
        match self {
            RuntimeError::InvalidOpCode(byte) => {
                let mut text = "Invalid opcode: ".to_owned();
                let byte_text = decimal(*byte as usize);
                text.append(byte_text.as_str());
                text
            },
            RuntimeError::PoppedEmptyStack => "Attempt to pop value from empty stack".to_owned(),
            RuntimeError::TypeError => "Type error".to_owned(),
            RuntimeError::Io => "Input/Output failure".to_owned(),
        }
    }
}

/// Errors that can surface from interpreting a program. A runtime
/// failure is always wrapped in `Runtime`; `Compilation` is reserved for
/// the compiler stage and is never produced by the machine itself.
#[derive(Clone, Copy, Debug, PartialEq, Eq, Structural)]
pub enum VmError {
    Compilation,
    Runtime(RuntimeError),
}

impl VmError {
    /// A human-readable description of this error.
    pub open spec fn spec_message(self) -> Seq<char> {
        match self {
            VmError::Compilation => "Compilation error"@,
            VmError::Runtime(error) => "Runtime error: "@ + error.spec_message(),
        }
    }

    /// A human-readable description of this error.
    pub fn message(&self) -> (r: String)
        ensures
            r@ == self.spec_message(),
    {
        match self {
            VmError::Compilation => "Compilation error".to_owned(),
            VmError::Runtime(error) => {
                let mut text = "Runtime error: ".to_owned();
                let error_text = error.message();
                text.append(error_text.as_str());
                text
            },
        }
    }
}

/// How a mathematical execution of a chunk ends.
pub enum ExecOutcome {
    /// A `Return` popped `value` and halted, leaving `stack`.
    Halt { value: Value, stack: Seq<Value> },
    /// Execution aborted with `error`, leaving `stack`: mutations made
    /// before the failure are not rolled back.
    Fail { error: RuntimeError, stack: Seq<Value> },
    /// Execution ran off the end of the code or outside the constant
    /// pool. A real machine would read out of bounds here: callers are
    /// responsible for keeping bytecode well formed, and the
    /// interpreter refuses such programs by precondition.
    Stuck,
}

/// A mathematical execution: how it ends, and the text its trace
/// channel shows on the way.
pub struct ExecResult {
    pub outcome: ExecOutcome,
    pub trace: Seq<char>,
}

/// The bit pattern a binary arithmetic opcode computes from the bit
/// patterns of its left and right operands.
pub open spec fn spec_binary_bits(op: OpCode, left: u64, right: u64) -> u64 {
    if op == OpCode::Add {
        sum_bits(left, right)
    } else if op == OpCode::Subtract {
        diff_bits(left, right)
    } else if op == OpCode::Multiply {
        prod_bits(left, right)
    } else if op == OpCode::Divide {
        quot_bits(left, right)
    } else {
        arbitrary()
    }
}

/// Whether an opcode is one of the binary arithmetic instructions.
pub open spec fn spec_is_binary(op: OpCode) -> bool {
    op == OpCode::Add || op == OpCode::Subtract || op == OpCode::Multiply || op == OpCode::Divide
}

/// The operand stack as the trace shows it: bottom to top, each value
/// bracketed.
pub open spec fn spec_stack_text(stack: Seq<Value>) -> Seq<char>
    decreases stack.len(),
{
    if stack.len() == 0 {
        Seq::empty()
    } else {
        "[ "@ + number_text(stack.first().spec_bits()) + " ]"@ + spec_stack_text(
            stack.drop_first(),
        )
    }
}

/// One stack line of the trace channel.
pub open spec fn spec_stack_line(stack: Seq<Value>) -> Seq<char> {
    "          "@ + spec_stack_text(stack) + "\n"@
}

/// What the trace channel shows before one instruction executes: the
/// stack contents, then the disassembly of the instruction.
pub open spec fn spec_trace_step(c: ChunkData, stack: Seq<Value>, ip: int) -> Seq<char> {
    spec_stack_line(stack) + Chunk::spec_disasm_line(c, ip)
}

/// Mathematical execution of `c` from instruction offset `ip` against
/// `stack`. One step decodes the opcode byte at `ip`, advances past the
/// opcode and its operands, and applies the effect: constant loads push
/// a pool entry; binary arithmetic pops the right then the left operand
/// and pushes the result; `Negate` pops and pushes; `Return` pops the
/// emitted value and halts. Popping an empty stack and decoding an
/// unassigned byte end in ordinary failures; reading past the end of
/// the code or outside the pool is `Stuck`.
pub open spec fn spec_run(c: ChunkData, stack: Seq<Value>, ip: nat) -> ExecResult
    decreases c.code.len() - ip,
{
    if ip >= c.code.len() {
        ExecResult { outcome: ExecOutcome::Stuck, trace: Seq::empty() }
    } else {
        let pre = spec_trace_step(c, stack, ip as int);
        let byte = c.code[ip as int];
        match OpCode::spec_from_byte(byte) {
            None => ExecResult {
                outcome: ExecOutcome::Fail { error: RuntimeError::InvalidOpCode(byte), stack },
                trace: pre,
            },
            Some(op) => if op == OpCode::Return {
                if stack.len() == 0 {
                    ExecResult {
                        outcome: ExecOutcome::Fail {
                            error: RuntimeError::PoppedEmptyStack,
                            stack,
                        },
                        trace: pre,
                    }
                } else {
                    ExecResult {
                        outcome: ExecOutcome::Halt {
                            value: stack.last(),
                            stack: stack.drop_last(),
                        },
                        trace: pre,
                    }
                }
            } else if op == OpCode::Constant {
                if ip + 2 <= c.code.len() && (c.code[ip as int + 1] as int) < c.constants.len() {
                    let rest = spec_run(
                        c,
                        stack.push(c.constants[c.code[ip as int + 1] as int]),
                        ip + 2,
                    );
                    ExecResult { outcome: rest.outcome, trace: pre + rest.trace }
                } else {
                    ExecResult { outcome: ExecOutcome::Stuck, trace: pre }
                }
            } else if op == OpCode::ConstantLong {
                let idx = (c.code[ip as int + 1] as int) * 0x10000 + (c.code[ip as int + 2] as int) * 0x100 + (
                c.code[ip as int + 3] as int);
                if ip + 4 <= c.code.len() && idx < c.constants.len() {
                    let rest = spec_run(c, stack.push(c.constants[idx]), ip + 4);
                    ExecResult { outcome: rest.outcome, trace: pre + rest.trace }
                } else {
                    ExecResult { outcome: ExecOutcome::Stuck, trace: pre }
                }
            } else if op == OpCode::Negate {
                if stack.len() == 0 {
                    ExecResult {
                        outcome: ExecOutcome::Fail {
                            error: RuntimeError::PoppedEmptyStack,
                            stack,
                        },
                        trace: pre,
                    }
                } else {
                    let rest = spec_run(
                        c,
                        stack.drop_last().push(
                            Value::Number(neg_bits(stack.last().spec_bits())),
                        ),
                        ip + 1,
                    );
                    ExecResult { outcome: rest.outcome, trace: pre + rest.trace }
                }
            } else {
                // Binary arithmetic: the right operand is popped first.
                if stack.len() == 0 {
                    ExecResult {
                        outcome: ExecOutcome::Fail {
                            error: RuntimeError::PoppedEmptyStack,
                            stack,
                        },
                        trace: pre,
                    }
                } else if stack.len() == 1 {
                    ExecResult {
                        outcome: ExecOutcome::Fail {
                            error: RuntimeError::PoppedEmptyStack,
                            stack: stack.drop_last(),
                        },
                        trace: pre,
                    }
                } else {
                    let left = stack[stack.len() - 2];
                    let right = stack[stack.len() - 1];
                    let rest = spec_run(
                        c,
                        stack.drop_last().drop_last().push(
                            Value::Number(
                                spec_binary_bits(op, left.spec_bits(), right.spec_bits()),
                            ),
                        ),
                        ip + 1,
                    );
                    ExecResult { outcome: rest.outcome, trace: pre + rest.trace }
                }
            },
        }
    }
}

/// Whether execution from offset `ip` with `depth` values on the stack
/// decodes cleanly to its end: it never runs off the end of the code
/// and never loads a constant from outside a pool of `n_constants`
/// entries. Whether a program gets stuck depends only on its shape,
/// never on the values it computes, so this is what `interpret` asks of
/// its callers.
pub open spec fn spec_decodes(code: Seq<u8>, n_constants: nat, depth: nat, ip: nat) -> bool
    decreases code.len() - ip,
{
    if ip >= code.len() {
        false
    } else {
        match OpCode::spec_from_byte(code[ip as int]) {
            None => true,
            Some(op) => if op == OpCode::Return {
                true
            } else if op == OpCode::Constant {
                ip + 2 <= code.len() && (code[ip as int + 1] as int) < n_constants && spec_decodes(
                    code,
                    n_constants,
                    depth + 1,
                    ip + 2,
                )
            } else if op == OpCode::ConstantLong {
                ip + 4 <= code.len() && (code[ip as int + 1] as int) * 0x10000 + (code[ip as int + 2] as int)
                    * 0x100 + (code[ip as int + 3] as int) < n_constants && spec_decodes(
                    code,
                    n_constants,
                    depth + 1,
                    ip + 4,
                )
            } else if op == OpCode::Negate {
                depth == 0 || spec_decodes(code, n_constants, depth, ip + 1)
            } else {
                depth <= 1 || spec_decodes(code, n_constants, (depth - 1) as nat, ip + 1)
            },
        }
    }
}

/// Getting stuck is a matter of program shape alone: execution decodes
/// cleanly if and only if the mathematical run does not get stuck,
/// whatever values the stack holds.
pub proof fn lemma_decodes_iff_not_stuck(c: ChunkData, stack: Seq<Value>, ip: nat)
    ensures
        spec_decodes(c.code, c.constants.len(), stack.len(), ip) <==> !(spec_run(
            c,
            stack,
            ip,
        ).outcome is Stuck),
    decreases c.code.len() - ip,
{
    if ip < c.code.len() {
        match OpCode::spec_from_byte(c.code[ip as int]) {
            None => {},
            Some(op) => {
                if op == OpCode::Constant {
                    if ip + 2 <= c.code.len() && (c.code[ip as int + 1] as int) < c.constants.len() {
                        let stack2 = stack.push(c.constants[c.code[ip as int + 1] as int]);
                        lemma_decodes_iff_not_stuck(c, stack2, ip + 2);
                    }
                } else if op == OpCode::ConstantLong {
                    let idx = (c.code[ip as int + 1] as int) * 0x10000 + (c.code[ip as int + 2] as int) * 0x100
                        + (c.code[ip as int + 3] as int);
                    if ip + 4 <= c.code.len() && idx < c.constants.len() {
                        let stack2 = stack.push(c.constants[idx]);
                        lemma_decodes_iff_not_stuck(c, stack2, ip + 4);
                    }
                } else if op == OpCode::Negate {
                    if stack.len() > 0 {
                        let stack2 = stack.drop_last().push(
                            Value::Number(neg_bits(stack.last().spec_bits())),
                        );
                        lemma_decodes_iff_not_stuck(c, stack2, ip + 1);
                    }
                } else if spec_is_binary(op) {
                    if stack.len() >= 2 {
                        let left = stack[stack.len() - 2];
                        let right = stack[stack.len() - 1];
                        let stack2 = stack.drop_last().drop_last().push(
                            Value::Number(
                                spec_binary_bits(op, left.spec_bits(), right.spec_bits()),
                            ),
                        );
                        assert(stack2.len() == stack.len() - 1);
                        lemma_decodes_iff_not_stuck(c, stack2, ip + 1);
                    }
                }
            },
        }
    }
}

/// The mathematical content of a virtual machine.
pub struct VmData {
    /// The operand stack, bottom first.
    pub stack: Seq<Value>,
    /// The value the last successful run emitted.
    pub output: Option<Value>,
    /// The text the trace channel collected.
    pub trace: Seq<char>,
    /// Whether the trace channel is on.
    pub trace_enabled: bool,
}

/// A virtual machine: an operand stack, the emitted output, and an
/// optional execution-trace channel. The trace is a pure side channel:
/// no part of the outcome depends on whether it is on.
pub struct VM {
    stack: Vec<Value>,
    output: Option<Value>,
    trace: String,
    trace_enabled: bool,
}

impl View for VM {
    type V = VmData;

    closed spec fn view(&self) -> VmData {
        VmData {
            stack: self.stack@,
            output: self.output,
            trace: self.trace@,
            trace_enabled: self.trace_enabled,
        }
    }
}

impl VM {
    /// A fresh machine with an empty stack. `trace_enabled` turns the
    /// diagnostic trace channel on; it never alters execution.
    pub fn new(trace_enabled: bool) -> (vm: VM)
        ensures
            vm@.stack == Seq::<Value>::empty(),
            vm@.output == None::<Value>,
            vm@.trace == Seq::<char>::empty(),
            vm@.trace_enabled == trace_enabled,
    {
        VM { stack: Vec::new(), output: None, trace: String::new(), trace_enabled }
    }

    /// The value the last successful run emitted, if any.
    pub fn output(&self) -> (r: Option<Value>)
        ensures
            r == self@.output,
    {
        self.output
    }

    /// The text the trace channel collected during the last run.
    pub fn trace_text(&self) -> (r: &String)
        ensures
            r@ == self@.trace,
    {
        &self.trace
    }

    /// Pop the top of the operand stack, failing with a catchable
    /// `PoppedEmptyStack` on an empty stack rather than crashing.
    fn pop_stack(&mut self) -> (r: Result<Value, VmError>)
        ensures
            old(self)@.stack.len() == 0 ==> {
                &&& r == Err::<Value, VmError>(VmError::Runtime(RuntimeError::PoppedEmptyStack))
                &&& final(self)@ == old(self)@
            },
            old(self)@.stack.len() > 0 ==> {
                &&& r == Ok::<Value, VmError>(old(self)@.stack.last())
                &&& final(self)@.stack == old(self)@.stack.drop_last()
                &&& final(self)@.output == old(self)@.output
                &&& final(self)@.trace == old(self)@.trace
                &&& final(self)@.trace_enabled == old(self)@.trace_enabled
            },
    {
        if let Some(value) = self.stack.pop() {
            Ok(value)
        } else {
            Err(VmError::Runtime(RuntimeError::PoppedEmptyStack))
        }
    }

    /// One stack line of the trace channel, for the current stack.
    fn stack_text_line(&self) -> (r: String)
        ensures
            r@ == spec_stack_line(self@.stack),
    {
        let ghost stack = self.stack@;
        let mut line = "          ".to_owned();
        let n = self.stack.len();
        assert(stack.skip(0) =~= stack);
        let mut i: usize = 0;
        while i < n
            invariant
                i <= n,
                n == stack.len(),
                stack == self.stack@,
                line@ + spec_stack_text(stack.skip(i as int)) == "          "@ + spec_stack_text(
                    stack,
                ),
            decreases n - i,
        {
            line.append("[ ");
            let value_text = self.stack[i].text();
            line.append(value_text.as_str());
            line.append(" ]");
            proof {
                assert(stack.skip(i as int).first() == stack[i as int]);
                assert(stack.skip(i as int).drop_first() =~= stack.skip(i as int + 1));
                assert(line@ + spec_stack_text(stack.skip(i as int + 1)) =~= "          "@
                    + spec_stack_text(stack));
            }
            i = i + 1;
        }
        line.append("\n");
        assert(stack.skip(n as int) =~= Seq::empty());
        assert(line@ =~= spec_stack_line(stack));
        line
    }

    /// Apply a binary arithmetic opcode to two number values.
    fn binary_result(op: OpCode, left: Value, right: Value) -> (r: Result<Value, VmError>)
        requires
            spec_is_binary(op),
        ensures
            r == Ok::<Value, VmError>(
                Value::Number(spec_binary_bits(op, left.spec_bits(), right.spec_bits())),
            ),
    {
        let right_bits = match right.as_number() {
            Ok(bits) => bits,
            Err(e) => {
                return Err(VmError::Runtime(e));
            },
        };
        let left_bits = match left.as_number() {
            Ok(bits) => bits,
            Err(e) => {
                return Err(VmError::Runtime(e));
            },
        };
        match op {
            OpCode::Add => Ok(Value::Number(add_bits(left_bits, right_bits))),
            OpCode::Subtract => Ok(Value::Number(sub_bits(left_bits, right_bits))),
            OpCode::Multiply => Ok(Value::Number(mul_bits(left_bits, right_bits))),
            OpCode::Divide => Ok(Value::Number(div_bits(left_bits, right_bits))),
            _ => {
                proof {
                    assert(false);
                }
                Err(VmError::Runtime(RuntimeError::TypeError))
            },
        }
    }

    /// Execute `chunk` from offset 0 against a fresh, empty operand
    /// stack, until a `Return` halts it or an error aborts it. On
    /// success the value the `Return` popped is emitted as the output;
    /// on failure the error comes back wrapped as a runtime error, with
    /// the stack left as the failure found it. With the trace channel
    /// on, the machine collects the stack contents and the disassembled
    /// instruction before each step, without altering the outcome.
    ///
    /// Callers keep the bytecode well formed: execution must not run
    /// off the end of the code or load from outside the constant pool.
    #[verifier::rlimit(100)]
    pub fn interpret(&mut self, chunk: &Chunk) -> (r: Result<(), VmError>)
        requires
            chunk@.wf(),
            spec_decodes(chunk@.code, chunk@.constants.len(), 0, 0),
        ensures
            ({
                let result = spec_run(chunk@, Seq::empty(), 0);
                &&& match r {
                    Ok(_) => result.outcome matches ExecOutcome::Halt { value, stack }
                        && final(self)@.output == Some(value) && final(self)@.stack == stack,
                    Err(e) => result.outcome matches ExecOutcome::Fail { error, stack } && e
                        == VmError::Runtime(error) && final(self)@.output == None::<Value>
                        && final(self)@.stack == stack,
                }
                &&& final(self)@.trace == if old(self)@.trace_enabled {
                    result.trace
                } else {
                    Seq::<char>::empty()
                }
                &&& final(self)@.trace_enabled == old(self)@.trace_enabled
            }),
    {
        let ghost c = chunk@;
        self.stack = Vec::new();
        self.output = None;
        self.trace = String::new();
        proof {
            lemma_decodes_iff_not_stuck(c, Seq::empty(), 0);
        }
        let n = chunk.len();
        let mut ip: usize = 0;
        loop
            invariant
                c == chunk@,
                c.wf(),
                n == c.code.len(),
                ip <= n,
                self@.output == None::<Value>,
                self@.trace_enabled == old(self)@.trace_enabled,
                !(spec_run(c, Seq::empty(), 0).outcome is Stuck),
                spec_run(c, self@.stack, ip as nat).outcome == spec_run(c, Seq::empty(), 0).outcome,
                old(self)@.trace_enabled ==> self@.trace + spec_run(c, self@.stack, ip as nat).trace
                    == spec_run(c, Seq::empty(), 0).trace,
                !old(self)@.trace_enabled ==> self@.trace == Seq::<char>::empty(),
            decreases n - ip,
        {
            proof {
                if ip >= n {
                    assert(spec_run(c, self@.stack, ip as nat).outcome is Stuck);
                }
            }
            let ghost stack0 = self@.stack;
            let ghost trace_in = self@.trace;
            let ghost total = spec_run(c, Seq::empty(), 0);
            let ghost here = spec_run(c, stack0, ip as nat);
            let ghost pre = spec_trace_step(c, stack0, ip as int);
            if self.trace_enabled {
                let stack_line = self.stack_text_line();
                self.trace.append(stack_line.as_str());
                let (instr_line, _next) = chunk.disassemble_instruction(ip);
                self.trace.append(instr_line.as_str());
                proof {
                    assert(self@.trace =~= trace_in + pre);
                }
            }
            let instruction = chunk.read(ip);
            match OpCode::from_byte(instruction) {
                None => {
                    proof {
                        assert(here.outcome == (ExecOutcome::Fail {
                            error: RuntimeError::InvalidOpCode(instruction),
                            stack: stack0,
                        }));
                        assert(here.trace == pre);
                    }
                    return Err(VmError::Runtime(RuntimeError::InvalidOpCode(instruction)));
                },
                Some(OpCode::Return) => {
                    proof {
                        assert(here.trace == pre);
                    }
                    let value = match self.pop_stack() {
                        Ok(value) => value,
                        Err(e) => {
                            return Err(e);
                        },
                    };
                    self.output = Some(value);
                    return Ok(());
                },
                Some(OpCode::Constant) => {
                    proof {
                        assert(!(here.outcome is Stuck));
                        assert(ip + 2 <= n && (c.code[ip as int + 1] as int) < c.constants.len());
                    }
                    let idx = chunk.read(ip + 1) as usize;
                    let value = chunk.constant(idx);
                    self.stack.push(value);
                    proof {
                        assert(self@.stack =~= stack0.push(c.constants[idx as int]));
                        let rest = spec_run(c, self@.stack, ip as nat + 2);
                        assert(here.outcome == rest.outcome && here.trace == pre + rest.trace);
                        if old(self)@.trace_enabled {
                            assert(self@.trace + rest.trace =~= trace_in + here.trace);
                        }
                    }
                    ip = ip + 2;
                },
                Some(OpCode::ConstantLong) => {
                    proof {
                        assert(!(here.outcome is Stuck));
                        assert(ip + 4 <= n);
                    }
                    let high = chunk.read(ip + 1) as usize;
                    let mid = chunk.read(ip + 2) as usize;
                    let low = chunk.read(ip + 3) as usize;
                    let idx = high * 0x10000 + mid * 0x100 + low;
                    proof {
                        assert((idx as int) < c.constants.len());
                    }
                    let value = chunk.constant(idx);
                    self.stack.push(value);
                    proof {
                        assert(self@.stack =~= stack0.push(c.constants[idx as int]));
                        let rest = spec_run(c, self@.stack, ip as nat + 4);
                        assert(here.outcome == rest.outcome && here.trace == pre + rest.trace);
                        if old(self)@.trace_enabled {
                            assert(self@.trace + rest.trace =~= trace_in + here.trace);
                        }
                    }
                    ip = ip + 4;
                },
                Some(OpCode::Negate) => {
                    proof {
                        if stack0.len() == 0 {
                            assert(here.trace == pre);
                        }
                    }
                    let value = match self.pop_stack() {
                        Ok(value) => value,
                        Err(e) => {
                            return Err(e);
                        },
                    };
                    let bits = match value.as_number() {
                        Ok(bits) => bits,
                        Err(e) => {
                            return Err(VmError::Runtime(e));
                        },
                    };
                    self.stack.push(Value::from_bits(negate_bits(bits)));
                    proof {
                        assert(self@.stack =~= stack0.drop_last().push(
                            Value::Number(neg_bits(stack0.last().spec_bits())),
                        ));
                        let rest = spec_run(c, self@.stack, ip as nat + 1);
                        assert(here.outcome == rest.outcome && here.trace == pre + rest.trace);
                        if old(self)@.trace_enabled {
                            assert(self@.trace + rest.trace =~= trace_in + here.trace);
                        }
                    }
                    ip = ip + 1;
                },
                Some(op) => {
                    proof {
                        assert(spec_is_binary(op));
                        if stack0.len() <= 1 {
                            assert(here.trace == pre);
                        }
                    }
                    let right = match self.pop_stack() {
                        Ok(value) => value,
                        Err(e) => {
                            return Err(e);
                        },
                    };
                    let left = match self.pop_stack() {
                        Ok(value) => value,
                        Err(e) => {
                            proof {
                                assert(here.outcome == (ExecOutcome::Fail {
                                    error: RuntimeError::PoppedEmptyStack,
                                    stack: stack0.drop_last(),
                                }));
                            }
                            return Err(e);
                        },
                    };
                    let value = match Self::binary_result(op, left, right) {
                        Ok(value) => value,
                        Err(e) => {
                            return Err(e);
                        },
                    };
                    self.stack.push(value);
                    proof {
                        assert(left == stack0[stack0.len() - 2] && right == stack0[stack0.len()
                            - 1]);
                        assert(self@.stack =~= stack0.drop_last().drop_last().push(
                            Value::Number(
                                spec_binary_bits(
                                    op,
                                    stack0[stack0.len() - 2].spec_bits(),
                                    stack0[stack0.len() - 1].spec_bits(),
                                ),
                            ),
                        ));
                        let rest = spec_run(c, self@.stack, ip as nat + 1);
                        assert(here.outcome == rest.outcome && here.trace == pre + rest.trace);
                        if old(self)@.trace_enabled {
                            assert(self@.trace + rest.trace =~= trace_in + here.trace);
                        }
                    }
                    ip = ip + 1;
                },
            }
        }
    }

}

/// Whether the code of `c` at offset `ip` is a single constant-load
/// instruction, of either width, that pushes a pool entry equal to `v`
/// and ends at `next`.
pub open spec fn spec_loads_constant(c: ChunkData, ip: nat, v: Value, next: nat) -> bool {
    ||| {
        &&& ip + 2 <= c.code.len()
        &&& c.code[ip as int] == OpCode::Constant.spec_byte()
        &&& (c.code[ip as int + 1] as int) < c.constants.len()
        &&& c.constants[c.code[ip as int + 1] as int] == v
        &&& next == ip + 2
    }
    ||| {
        &&& ip + 4 <= c.code.len()
        &&& c.code[ip as int] == OpCode::ConstantLong.spec_byte()
        &&& (c.code[ip as int + 1] as int) * 0x10000 + (c.code[ip as int + 2] as int) * 0x100 + (
        c.code[ip as int + 3] as int) < c.constants.len()
        &&& c.constants[(c.code[ip as int + 1] as int) * 0x10000 + (c.code[ip as int + 2] as int) * 0x100 + (
        c.code[ip as int + 3] as int)] == v
        &&& next == ip + 4
    }
}

/// Law: a program that pushes numbers `a` and `b` with constant loads
/// of either width, adds them, and returns, halts with exactly the
/// value whose bit pattern is the IEEE-754 sum of the two operands'
/// patterns, on an empty final stack.
pub proof fn lemma_push_push_add_return(c: ChunkData, a: Value, b: Value, i: nat, j: nat)
    requires
        spec_loads_constant(c, 0, a, i),
        spec_loads_constant(c, i, b, j),
        j + 1 < c.code.len(),
        c.code[j as int] == OpCode::Add.spec_byte(),
        c.code[j as int + 1] == OpCode::Return.spec_byte(),
    ensures
        spec_run(c, Seq::empty(), 0).outcome == (ExecOutcome::Halt {
            value: Value::Number(sum_bits(a.spec_bits(), b.spec_bits())),
            stack: Seq::<Value>::empty(),
        }),
{
    let s0 = Seq::<Value>::empty();
    let s1 = s0.push(a);
    let s2 = s1.push(b);
    assert(spec_run(c, s0, 0).outcome == spec_run(c, s1, i).outcome);
    assert(spec_run(c, s1, i).outcome == spec_run(c, s2, j).outcome);
    let sum = Value::Number(sum_bits(a.spec_bits(), b.spec_bits()));
    let s3 = s2.drop_last().drop_last().push(sum);
    assert(s2[s2.len() - 2] == a && s2[s2.len() - 1] == b);
    assert(spec_run(c, s2, j).outcome == spec_run(c, s3, j + 1).outcome);
    assert(s3.last() == sum);
    assert(s3.drop_last() =~= Seq::<Value>::empty());
}

/// Law: `Return` executed on an empty stack fails with
/// `PoppedEmptyStack`, an ordinary catchable outcome, never a crash.
pub proof fn lemma_return_on_empty_stack(c: ChunkData)
    requires
        0 < c.code.len(),
        c.code[0] == OpCode::Return.spec_byte(),
    ensures
        spec_run(c, Seq::empty(), 0).outcome == (ExecOutcome::Fail {
            error: RuntimeError::PoppedEmptyStack,
            stack: Seq::<Value>::empty(),
        }),
{
}

} // verus!
