//! The disassembler: reads the instructions of a chunk back, one line for each.

use vstd::prelude::*;
use crate::chunk::Chunk;
use crate::chunk::ChunkView;
use crate::chunk::OpCode;
use crate::code::closure_target;
use crate::code::decodes;
use crate::code::instruction_len;
use crate::compiler_model::CompilerView;
use crate::text::decimal;
use crate::text::left_aligned;
use crate::text::padded;
use crate::text::push_decimal;
use crate::text::push_left_aligned;
use crate::text::push_padded;
use crate::text::push_text;
use crate::value::Function;
use crate::value::FunctionView;
use crate::value::UpvalueDescriptor;
use crate::value::Value;
use crate::value::ValueView;
use crate::value::functions_view;
use crate::vm_model::operand_bytes;
use crate::vm_model::short_of;

verus! {

/// What follows the operation in a line of the disassembly.
#[derive(Debug)]
pub enum Operand {
    /// Nothing.
    Absent,
    /// The index of a constant, and the constant if the pool has it.
    Constant(u8, Option<Value>),
    /// A slot, an upvalue index or a number of arguments.
    Byte(u8),
    /// The distance of a jump.
    Jump(u16),
    /// The index of the constant of a function, the index of the function, and how many
    /// variables it captures.
    Closure(u8, usize, usize),
}

/// The mathematical content of an [`Operand`].
pub enum OperandView {
    Absent,
    Constant(u8, Option<ValueView>),
    Byte(u8),
    Jump(u16),
    Closure(u8, usize, usize),
}

impl View for Operand {
    type V = OperandView;

    open spec fn view(&self) -> OperandView {
        match self {
            Operand::Absent => OperandView::Absent,
            Operand::Constant(i, v) => OperandView::Constant(
                *i,
                match v {
                    Some(v) => Some(v@),
                    None => None,
                },
            ),
            Operand::Byte(b) => OperandView::Byte(*b),
            Operand::Jump(d) => OperandView::Jump(*d),
            Operand::Closure(i, f, n) => OperandView::Closure(*i, *f, *n),
        }
    }
}

/// One instruction of a chunk, as the disassembly shows it.
#[derive(Debug)]
pub struct Line {
    /// Where the instruction begins.
    pub offset: usize,
    /// The source line of the instruction, unless it is that of the byte before.
    pub line: Option<usize>,
    pub op: OpCode,
    pub operand: Operand,
}

/// The mathematical content of a [`Line`].
pub struct LineView {
    pub offset: usize,
    pub line: Option<usize>,
    pub op: OpCode,
    pub operand: OperandView,
}

impl View for Line {
    type V = LineView;

    open spec fn view(&self) -> LineView {
        LineView { offset: self.offset, line: self.line, op: self.op, operand: self.operand@ }
    }
}

/// The views of a sequence of lines.
pub open spec fn lines_view(s: Seq<Line>) -> Seq<LineView> {
    Seq::new(s.len(), |i: int| s[i]@)
}

/// The name under which the disassembly shows an operation.
pub open spec fn mnemonic(op: OpCode) -> Seq<char> {
    match op {
        OpCode::Return => "OP_RETURN"@,
        OpCode::Constant => "OP_CONSTANT"@,
        OpCode::Negate => "OP_NEGATE"@,
        OpCode::Add => "OP_ADD"@,
        OpCode::Subtract => "OP_SUBTRACT"@,
        OpCode::Multiply => "OP_MULTIPLY"@,
        OpCode::Divide => "OP_DIVIDE"@,
        OpCode::Nil => "OP_NIL"@,
        OpCode::True => "OP_TRUE"@,
        OpCode::False => "OP_FALSE"@,
        OpCode::Not => "OP_NOT"@,
        OpCode::Equal => "OP_EQUAL"@,
        OpCode::Greater => "OP_GREATER"@,
        OpCode::Less => "OP_LESS"@,
        OpCode::Print => "OP_PRINT"@,
        OpCode::Pop => "OP_POP"@,
        OpCode::DefineGlobal => "OP_DEFINE_GLOBAL"@,
        OpCode::GetGlobal => "OP_GET_GLOBAL"@,
        OpCode::SetGlobal => "OP_SET_GLOBAL"@,
        OpCode::GetLocal => "OP_GET_LOCAL"@,
        OpCode::SetLocal => "OP_SET_LOCAL"@,
        OpCode::JumpIfFalse => "OP_JUMP_IF_FALSE"@,
        OpCode::Jump => "OP_JUMP"@,
        OpCode::Loop => "OP_LOOP"@,
        OpCode::Call => "OP_CALL"@,
        OpCode::Closure => "OP_CLOSURE"@,
        OpCode::SetUpvalue => "OP_SET_UPVALUE"@,
        OpCode::GetUpvalue => "OP_GET_UPVALUE"@,
        OpCode::CloseUpvalue => "OP_CLOSE_UPVALUE"@,
    }
}

/// The name under which the disassembly shows an operation.
pub fn op_name(op: OpCode) -> (r: &'static str)
    ensures
        r@ == mnemonic(op),
{
    match op {
        OpCode::Return => "OP_RETURN",
        OpCode::Constant => "OP_CONSTANT",
        OpCode::Negate => "OP_NEGATE",
        OpCode::Add => "OP_ADD",
        OpCode::Subtract => "OP_SUBTRACT",
        OpCode::Multiply => "OP_MULTIPLY",
        OpCode::Divide => "OP_DIVIDE",
        OpCode::Nil => "OP_NIL",
        OpCode::True => "OP_TRUE",
        OpCode::False => "OP_FALSE",
        OpCode::Not => "OP_NOT",
        OpCode::Equal => "OP_EQUAL",
        OpCode::Greater => "OP_GREATER",
        OpCode::Less => "OP_LESS",
        OpCode::Print => "OP_PRINT",
        OpCode::Pop => "OP_POP",
        OpCode::DefineGlobal => "OP_DEFINE_GLOBAL",
        OpCode::GetGlobal => "OP_GET_GLOBAL",
        OpCode::SetGlobal => "OP_SET_GLOBAL",
        OpCode::GetLocal => "OP_GET_LOCAL",
        OpCode::SetLocal => "OP_SET_LOCAL",
        OpCode::JumpIfFalse => "OP_JUMP_IF_FALSE",
        OpCode::Jump => "OP_JUMP",
        OpCode::Loop => "OP_LOOP",
        OpCode::Call => "OP_CALL",
        OpCode::Closure => "OP_CLOSURE",
        OpCode::SetUpvalue => "OP_SET_UPVALUE",
        OpCode::GetUpvalue => "OP_GET_UPVALUE",
        OpCode::CloseUpvalue => "OP_CLOSE_UPVALUE",
    }
}

/// The source line of the byte at `offset`; 0 for a byte without a line.
pub open spec fn line_at(chunk: ChunkView, offset: int) -> usize {
    if 0 <= offset < chunk.lines.len() {
        chunk.lines[offset]
    } else {
        0
    }
}

/// What the disassembly shows of the instruction at `offset`, where a complete instruction
/// begins.
pub open spec fn line_of(chunk: ChunkView, functions: Seq<FunctionView>, offset: int) -> LineView {
    let op = OpCode::of_byte(chunk.code[offset])->0;
    LineView {
        offset: offset as usize,
        line: if offset > 0 && line_at(chunk, offset) == line_at(chunk, offset - 1) {
            None
        } else {
            Some(line_at(chunk, offset))
        },
        op,
        operand: match op {
            OpCode::Constant | OpCode::DefineGlobal | OpCode::GetGlobal | OpCode::SetGlobal => {
                let idx = chunk.code[offset + 1];
                OperandView::Constant(
                    idx,
                    if idx < chunk.constants.len() {
                        Some(chunk.constants[idx as int])
                    } else {
                        None
                    },
                )
            },
            OpCode::GetLocal
            | OpCode::SetLocal
            | OpCode::GetUpvalue
            | OpCode::SetUpvalue
            | OpCode::Call => OperandView::Byte(chunk.code[offset + 1]),
            OpCode::Jump | OpCode::JumpIfFalse | OpCode::Loop => OperandView::Jump(
                short_of(chunk.code[offset + 1], chunk.code[offset + 2]) as u16,
            ),
            OpCode::Closure => {
                let f = closure_target(chunk, functions, offset)->0;
                OperandView::Closure(
                    chunk.code[offset + 1],
                    f,
                    functions[f as int].upvalues.len() as usize,
                )
            },
            _ => OperandView::Absent,
        },
    }
}

/// The lines of the instructions from `offset` on, up to the end of the code or to the first
/// place where no complete instruction begins.
pub open spec fn lines_from(chunk: ChunkView, functions: Seq<FunctionView>, offset: int) -> Seq<
    LineView,
>
    decreases chunk.code.len() - offset,
{
    match instruction_len(chunk, functions, offset) {
        Some(n) => if n > 0 {
            seq![line_of(chunk, functions, offset)] + lines_from(chunk, functions, offset + n)
        } else {
            Seq::empty()
        },
        None => Seq::empty(),
    }
}

/// Where the disassembly that begins at `offset` ends: behind the last of the whole
/// instructions that follow one another from `offset` on.
pub open spec fn end_of_lines(chunk: ChunkView, functions: Seq<FunctionView>, offset: int) -> int
    decreases chunk.code.len() - offset,
{
    match instruction_len(chunk, functions, offset) {
        Some(n) => if n > 0 {
            end_of_lines(chunk, functions, offset + n)
        } else {
            offset
        },
        None => offset,
    }
}

/// The disassembly of code that is made of whole instructions reaches the end of the code: it
/// has a line for every instruction, and steps over every byte.
pub proof fn lemma_disassembly_is_complete(
    chunk: ChunkView,
    functions: Seq<FunctionView>,
    offset: int,
)
    requires
        0 <= offset,
        decodes(chunk, functions, offset, chunk.code.len() as int),
    ensures
        end_of_lines(chunk, functions, offset) == chunk.code.len(),
    decreases chunk.code.len() - offset,
{
    if offset < chunk.code.len() {
        let n = instruction_len(chunk, functions, offset)->0;
        lemma_disassembly_is_complete(chunk, functions, offset + n);
    }
}

/// Every instruction takes its operation, the operands that the machine reads for it and, for
/// `Closure`, two bytes for each captured variable: the disassembler steps over exactly the
/// bytes that the machine steps over.
pub proof fn lemma_instruction_len(chunk: ChunkView, functions: Seq<FunctionView>, offset: int)
    requires
        instruction_len(chunk, functions, offset) is Some,
    ensures
        OpCode::of_byte(chunk.code[offset]) is Some,
        ({
            let op = OpCode::of_byte(chunk.code[offset])->0;
            let n = instruction_len(chunk, functions, offset)->0;
            &&& offset + n <= chunk.code.len()
            &&& op != OpCode::Closure ==> n == 1 + operand_bytes(op)
            &&& op == OpCode::Closure ==> n == 2 + 2 * functions[closure_target(
                chunk,
                functions,
                offset,
            )->0 as int].upvalues.len()
        }),
{
}

/// Where the jump of a line lands: behind the jump and its distance on for `Jump` and
/// `JumpIfFalse`, back for `Loop`. `None` where that is no offset.
pub open spec fn jump_target(line: LineView, distance: u16) -> Option<usize> {
    if line.op == OpCode::Loop {
        if distance <= line.offset + 3 <= usize::MAX {
            Some((line.offset + 3 - distance) as usize)
        } else {
            None
        }
    } else {
        if line.offset + 3 + distance <= usize::MAX {
            Some((line.offset + 3 + distance) as usize)
        } else {
            None
        }
    }
}

/// The text of a line: the offset in four digits, the source line in a column of four (or a
/// bar where it is that of the byte before), the name of the operation and, for an operation
/// with an operand, the name filled up to sixteen characters and the operand in four digits. A
/// jump shows its own offset and, behind an arrow, where it lands.
pub open spec fn render_line(line: LineView) -> Seq<char> {
    let head = padded(line.offset as nat, 4, '0') + " "@ + match line.line {
        Some(n) => padded(n as nat, 4, ' ') + " "@,
        None => "   | "@,
    };
    match line.operand {
        OperandView::Absent => head + mnemonic(line.op),
        OperandView::Constant(i, _) => head + left_aligned(mnemonic(line.op), 16) + " "@ + padded(
            i as nat,
            4,
            '0',
        ),
        OperandView::Byte(b) => head + left_aligned(mnemonic(line.op), 16) + " "@ + padded(
            b as nat,
            4,
            '0',
        ),
        OperandView::Jump(d) => head + left_aligned(mnemonic(line.op), 16) + " "@ + padded(
            line.offset as nat,
            4,
            '0',
        ) + " -> "@ + match jump_target(line, d) {
            Some(target) => decimal(target as nat),
            None => "?"@,
        },
        OperandView::Closure(i, f, n) => head + left_aligned(mnemonic(line.op), 16) + " "@
            + padded(i as nat, 4, '0') + " "@ + decimal(n as nat),
    }
}

impl Line {
    /// Where a jump of the given distance lands, if this line is a jump.
    pub fn target(&self, distance: u16) -> (r: Option<usize>)
        ensures
            r == jump_target(self@, distance),
    {
        let d = distance as usize;
        match self.op {
            OpCode::Loop => {
                if self.offset <= usize::MAX - 3 && d <= self.offset + 3 {
                    Some(self.offset + 3 - d)
                } else {
                    None
                }
            },
            _ => {
                if self.offset <= usize::MAX - 3 - d {
                    Some(self.offset + 3 + d)
                } else {
                    None
                }
            },
        }
    }

    /// The text of the line.
    pub fn render(&self) -> (r: String)
        ensures
            r@ == render_line(self@),
    {
        let mut out = String::new();
        push_padded(&mut out, self.offset, 4, '0');
        push_text(&mut out, " ");
        match self.line {
            Some(n) => {
                push_padded(&mut out, n, 4, ' ');
                push_text(&mut out, " ");
            },
            None => {
                push_text(&mut out, "   | ");
            },
        }
        let name = op_name(self.op);
        match &self.operand {
            Operand::Absent => {
                push_text(&mut out, name);
            },
            Operand::Constant(i, _) => {
                push_left_aligned(&mut out, name, 16);
                push_text(&mut out, " ");
                push_padded(&mut out, *i as usize, 4, '0');
            },
            Operand::Byte(b) => {
                push_left_aligned(&mut out, name, 16);
                push_text(&mut out, " ");
                push_padded(&mut out, *b as usize, 4, '0');
            },
            Operand::Jump(d) => {
                push_left_aligned(&mut out, name, 16);
                push_text(&mut out, " ");
                push_padded(&mut out, self.offset, 4, '0');
                push_text(&mut out, " -> ");
                match self.target(*d) {
                    Some(target) => push_decimal(&mut out, target),
                    None => push_text(&mut out, "?"),
                }
            },
            Operand::Closure(i, _, n) => {
                push_left_aligned(&mut out, name, 16);
                push_text(&mut out, " ");
                push_padded(&mut out, *i as usize, 4, '0');
                push_text(&mut out, " ");
                push_decimal(&mut out, *n);
            },
        }
        assert(out@ =~= render_line(self@));
        out
    }
}

fn operand_count(op: OpCode) -> (r: usize)
    ensures
        r == operand_bytes(op),
{
    match op {
        OpCode::Constant
        | OpCode::DefineGlobal
        | OpCode::GetGlobal
        | OpCode::SetGlobal
        | OpCode::GetLocal
        | OpCode::SetLocal
        | OpCode::GetUpvalue
        | OpCode::SetUpvalue
        | OpCode::Call
        | OpCode::Closure => 1,
        OpCode::Jump | OpCode::JumpIfFalse | OpCode::Loop => 2,
        _ => 0,
    }
}

fn simple_instruction(offset: usize) -> (r: (Operand, usize))
    requires
        offset < usize::MAX,
    ensures
        r.0@ == OperandView::Absent,
        r.1 == offset + 1,
{
    (Operand::Absent, offset + 1)
}

fn constant_instruction(chunk: &Chunk, offset: usize) -> (r: (Operand, usize))
    requires
        offset + 2 <= chunk@.code.len(),
    ensures
        r.0@ == OperandView::Constant(
            chunk@.code[offset + 1],
            if chunk@.code[offset + 1] < chunk@.constants.len() {
                Some(chunk@.constants[chunk@.code[offset + 1] as int])
            } else {
                None
            },
        ),
        r.1 == offset + 2,
{
    let _ = chunk.code.len();
    let constant_idx = chunk.code[offset + 1];
    let value = if (constant_idx as usize) < chunk.constants.values.len() {
        Some(chunk.constants.values[constant_idx as usize].clone())
    } else {
        None
    };
    (Operand::Constant(constant_idx, value), offset + 2)
}

/// An instruction whose operand is a slot, an upvalue index or a number of arguments.
fn byte_instruction(chunk: &Chunk, offset: usize) -> (r: (Operand, usize))
    requires
        offset + 2 <= chunk@.code.len(),
    ensures
        r.0@ == OperandView::Byte(chunk@.code[offset + 1]),
        r.1 == offset + 2,
{
    let _ = chunk.code.len();
    let slot = chunk.code[offset + 1];
    (Operand::Byte(slot), offset + 2)
}

fn jump_instruction(chunk: &Chunk, offset: usize) -> (r: (Operand, usize))
    requires
        offset + 3 <= chunk@.code.len(),
    ensures
        r.0@ == OperandView::Jump(
            short_of(chunk@.code[offset + 1], chunk@.code[offset + 2]) as u16,
        ),
        r.1 == offset + 3,
{
    let _ = chunk.code.len();
    let jump: u16 = chunk.code[offset + 1] as u16 * 256 + chunk.code[offset + 2] as u16;
    (Operand::Jump(jump), offset + 3)
}

/// Disassembles the instruction at `offset` and returns it with the offset of the next
/// instruction; instructions differ in size. `functions` are the functions that the constants
/// of the chunk name. Returns `None` where no complete instruction begins at `offset`.
pub fn disassemble_instruction(chunk: &Chunk, functions: &Vec<Function>, offset: usize) -> (r:
    Option<(Line, usize)>)
    ensures
        match r {
            Some((line, next)) => {
                &&& instruction_len(chunk@, functions_view(functions@), offset as int) == Some(
                    next - offset,
                )
                &&& line@ == line_of(chunk@, functions_view(functions@), offset as int)
                &&& offset < next <= chunk@.code.len()
            },
            None => instruction_len(chunk@, functions_view(functions@), offset as int) is None,
        },
{
    let len = chunk.code.len();
    if offset >= len {
        return None;
    }
    let op = match OpCode::from_byte(chunk.code[offset]) {
        Some(op) => op,
        None => {
            return None;
        },
    };
    if len - offset - 1 < operand_count(op) {
        return None;
    }
    let known = chunk.lines.len();
    let here = if offset < known {
        chunk.lines[offset]
    } else {
        0
    };
    let line = if offset > 0 && here == (if offset - 1 < known {
        chunk.lines[offset - 1]
    } else {
        0
    }) {
        // an instruction that comes from the same source line as the byte before
        None
    } else {
        Some(here)
    };
    let (operand, next) = match op {
        OpCode::Constant | OpCode::DefineGlobal | OpCode::GetGlobal | OpCode::SetGlobal => {
            constant_instruction(chunk, offset)
        },
        OpCode::GetLocal
        | OpCode::SetLocal
        | OpCode::GetUpvalue
        | OpCode::SetUpvalue
        | OpCode::Call => byte_instruction(chunk, offset),
        OpCode::Jump | OpCode::JumpIfFalse | OpCode::Loop => jump_instruction(chunk, offset),
        OpCode::Closure => {
            let constant_idx = chunk.code[offset + 1];
            if constant_idx as usize >= chunk.constants.values.len() {
                return None;
            }
            let f = match &chunk.constants.values[constant_idx as usize] {
                Value::Func(f) => *f,
                _ => {
                    return None;
                },
            };
            if f >= functions.len() {
                return None;
            }
            let count = functions[f].upvalues.len();
            if count > (len - offset - 2) / 2 {
                return None;
            }
            (Operand::Closure(constant_idx, f, count), offset + 2 + 2 * count)
        },
        _ => simple_instruction(offset),
    };
    Some((Line { offset, line, op, operand }, next))
}

/// Disassembles the instructions of a chunk, from the first on, up to the end of the code or
/// to the first place where no complete instruction begins.
pub fn disassemble_chunk(chunk: &Chunk, functions: &Vec<Function>) -> (r: Vec<Line>)
    ensures
        lines_view(r@) == lines_from(chunk@, functions_view(functions@), 0),
{
    let mut out: Vec<Line> = Vec::new();
    let mut idx: usize = 0;
    let ghost all = lines_from(chunk@, functions_view(functions@), 0);
    loop
        invariant
            lines_view(out@) + lines_from(chunk@, functions_view(functions@), idx as int) == all,
            all == lines_from(chunk@, functions_view(functions@), 0),
        decreases chunk@.code.len() - idx,
    {
        let ghost before = lines_view(out@);
        match disassemble_instruction(chunk, functions, idx) {
            Some((line, next)) => {
                let ghost shown = line@;
                out.push(line);
                assert(lines_view(out@) =~= before + seq![shown]);
                assert(lines_view(out@) + lines_from(chunk@, functions_view(functions@), next as int)
                    =~= before + (seq![shown] + lines_from(
                    chunk@,
                    functions_view(functions@),
                    next as int,
                )));
                idx = next;
            },
            None => {
                assert(lines_view(out@) + Seq::<LineView>::empty() =~= lines_view(out@));
                return out;
            },
        }
    }
}

/// An operation without operands that the compiler emits is read back as an instruction of
/// one byte.
pub proof fn lemma_emitted_op_is_read_back(c: CompilerView, functions: Seq<FunctionView>, op: OpCode)
    requires
        c.states.len() >= 1,
        operand_bytes(op) == 0,
    ensures
        c.emit_op(op).chunk().code == c.chunk().code.push(op.byte()),
        instruction_len(c.emit_op(op).chunk(), functions, c.chunk().code.len() as int) == Some(
            1int,
        ),
{
    reveal(CompilerView::emit_op);
    reveal(CompilerView::emit_byte);
    OpCode::lemma_byte_round_trip(op);
}

/// An operation with one operand that the compiler emits is read back as an instruction of
/// two bytes. (The `Closure` operation is longer: see
/// [`lemma_emitted_closure_is_read_back`].)
pub proof fn lemma_emitted_bytes_are_read_back(
    c: CompilerView,
    functions: Seq<FunctionView>,
    op: OpCode,
    operand: u8,
)
    requires
        c.states.len() >= 1,
        operand_bytes(op) == 1,
        op != OpCode::Closure,
    ensures
        c.emit_bytes(op.byte(), operand).chunk().code == c.chunk().code.push(op.byte()).push(
            operand,
        ),
        instruction_len(
            c.emit_bytes(op.byte(), operand).chunk(),
            functions,
            c.chunk().code.len() as int,
        ) == Some(2int),
{
    reveal(CompilerView::emit_bytes);
    reveal(CompilerView::emit_byte);
    OpCode::lemma_byte_round_trip(op);
}

/// A forward jump that the compiler emits is read back as an instruction of three bytes, and
/// the offset that the compiler keeps for patching is that of its first operand byte.
pub proof fn lemma_emitted_jump_is_read_back(c: CompilerView, functions: Seq<FunctionView>, op: OpCode)
    requires
        c.states.len() >= 1,
        operand_bytes(op) == 2,
    ensures
        c.emit_jump(op).0.chunk().code == c.chunk().code.push(op.byte()).push(0xff).push(0xff),
        c.emit_jump(op).1 == c.chunk().code.len() + 1,
        instruction_len(c.emit_jump(op).0.chunk(), functions, c.chunk().code.len() as int)
            == Some(3int),
{
    reveal(CompilerView::emit_jump);
    reveal(CompilerView::emit_op);
    reveal(CompilerView::emit_byte);
    OpCode::lemma_byte_round_trip(op);
}

/// Patching a jump changes the two bytes of the placeholder and nothing else.
pub proof fn lemma_patch_keeps_the_rest(c: CompilerView, offset: int, i: int)
    requires
        c.states.len() >= 1,
        0 <= offset,
        offset + 2 <= c.chunk().code.len(),
        0 <= i < c.chunk().code.len(),
        i != offset,
        i != offset + 1,
    ensures
        c.patch_jump(offset).chunk().code.len() == c.chunk().code.len(),
        c.patch_jump(offset).chunk().code[i] == c.chunk().code[i],
        c.patch_jump(offset).chunk().lines == c.chunk().lines,
        c.patch_jump(offset).chunk().constants == c.chunk().constants,
{
    reveal(CompilerView::patch_jump);
    reveal(CompilerView::error);
    reveal(CompilerView::error_at);
}

/// A backward jump that the compiler emits is read back as an instruction of three bytes.
pub proof fn lemma_emitted_loop_is_read_back(
    c: CompilerView,
    functions: Seq<FunctionView>,
    loop_start: int,
)
    requires
        c.states.len() >= 1,
    ensures
        c.emit_loop(loop_start).chunk().code.len() == c.chunk().code.len() + 3,
        c.emit_loop(loop_start).chunk().code[c.chunk().code.len() as int]
            == OpCode::Loop.byte(),
        instruction_len(
            c.emit_loop(loop_start).chunk(),
            functions,
            c.chunk().code.len() as int,
        ) == Some(3int),
{
    reveal(CompilerView::emit_loop);
    reveal(CompilerView::emit_op);
    reveal(CompilerView::emit_byte);
    reveal(CompilerView::error);
    reveal(CompilerView::error_at);
}

/// The bytes for the captured variables, which the compiler emits behind a `Closure`
/// instruction, are two for each variable, and nothing else changes.
pub proof fn lemma_emitted_upvalues(c: CompilerView, upvalues: Seq<UpvalueDescriptor>, i: int)
    requires
        c.states.len() >= 1,
        0 <= i <= upvalues.len(),
    ensures
        c.emit_upvalues(upvalues, i).states.len() == c.states.len(),
        c.emit_upvalues(upvalues, i).chunk().code.len() == c.chunk().code.len() + 2 * (
        upvalues.len() - i),
        c.emit_upvalues(upvalues, i).chunk().code.take(c.chunk().code.len() as int)
            == c.chunk().code,
        c.emit_upvalues(upvalues, i).chunk().constants == c.chunk().constants,
    decreases upvalues.len() - i,
{
    reveal(CompilerView::emit_byte);
    if i < upvalues.len() {
        let next = c.emit_byte(
            if upvalues[i].is_local {
                1
            } else {
                0
            },
        ).emit_byte(upvalues[i].index);
        lemma_emitted_upvalues(next, upvalues, i + 1);
        assert(c.emit_upvalues(upvalues, i).chunk().code.take(c.chunk().code.len() as int)
            =~= c.chunk().code);
    } else {
        assert(c.chunk().code.take(c.chunk().code.len() as int) =~= c.chunk().code);
    }
}

/// A `Closure` instruction that the compiler emits for a function, with the bytes for the
/// variables that the function captures, is read back as one instruction of all these bytes.
pub proof fn lemma_emitted_closure_is_read_back(
    c: CompilerView,
    functions: Seq<FunctionView>,
    constant: u8,
    f: usize,
)
    requires
        c.states.len() >= 1,
        constant < c.chunk().constants.len(),
        c.chunk().constants[constant as int] == ValueView::Func(f),
        f < functions.len(),
    ensures
        instruction_len(
            c.emit_bytes(OpCode::Closure.byte(), constant).emit_upvalues(
                functions[f as int].upvalues,
                0,
            ).chunk(),
            functions,
            c.chunk().code.len() as int,
        ) == Some((2 + 2 * functions[f as int].upvalues.len()) as int),
{
    reveal(CompilerView::emit_bytes);
    reveal(CompilerView::emit_byte);
    let emitted = c.emit_bytes(OpCode::Closure.byte(), constant);
    let upvalues = functions[f as int].upvalues;
    lemma_emitted_upvalues(emitted, upvalues, 0);
    let whole = emitted.emit_upvalues(upvalues, 0).chunk();
    let start = c.chunk().code.len() as int;
    assert(whole.code[start] == emitted.chunk().code.take(emitted.chunk().code.len() as int)[start]);
    assert(whole.code[start + 1] == emitted.chunk().code.take(
        emitted.chunk().code.len() as int,
    )[start + 1]);
}

} // verus!
