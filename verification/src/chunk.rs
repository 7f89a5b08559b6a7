//! Bytecode chunks: the instruction set, the code bytes, the constant pool and the line map.

use vstd::prelude::*;
use crate::value::Value;
use crate::value::ValueArray;
use crate::value::ValueView;

verus! {

/// The operation codes of the virtual machine.
#[derive(Debug, Clone, Copy, PartialEq, Eq, Structural)]
pub enum OpCode {
    /// Return from the current function.
    Return,
    /// Push a constant from the pool.
    Constant,
    /// Negate the number on top of the stack.
    Negate,
    Add,
    Subtract,
    Multiply,
    Divide,
    Nil,
    True,
    False,
    Not,
    Equal,
    Greater,
    Less,
    Print,
    Pop,
    DefineGlobal,
    GetGlobal,
    SetGlobal,
    GetLocal,
    SetLocal,
    JumpIfFalse,
    /// Unconditional forward jump.
    Jump,
    /// Unconditional backward jump.
    Loop,
    Call,
    Closure,
    SetUpvalue,
    GetUpvalue,
    CloseUpvalue,
}

impl OpCode {
    /// The byte that stands for this operation in a chunk.
    pub open spec fn byte(self) -> u8 {
        match self {
            OpCode::Return => 0,
            OpCode::Constant => 1,
            OpCode::Negate => 2,
            OpCode::Add => 3,
            OpCode::Subtract => 4,
            OpCode::Multiply => 5,
            OpCode::Divide => 6,
            OpCode::Nil => 7,
            OpCode::True => 8,
            OpCode::False => 9,
            OpCode::Not => 10,
            OpCode::Equal => 11,
            OpCode::Greater => 12,
            OpCode::Less => 13,
            OpCode::Print => 14,
            OpCode::Pop => 15,
            OpCode::DefineGlobal => 16,
            OpCode::GetGlobal => 17,
            OpCode::SetGlobal => 18,
            OpCode::GetLocal => 19,
            OpCode::SetLocal => 20,
            OpCode::JumpIfFalse => 21,
            OpCode::Jump => 22,
            OpCode::Loop => 23,
            OpCode::Call => 24,
            OpCode::Closure => 25,
            OpCode::SetUpvalue => 26,
            OpCode::GetUpvalue => 27,
            OpCode::CloseUpvalue => 28,
        }
    }

    /// The operation that a byte stands for, if any.
    pub open spec fn of_byte(b: u8) -> Option<OpCode> {
        if b == 0 { Some(OpCode::Return) }
        else if b == 1 { Some(OpCode::Constant) }
        else if b == 2 { Some(OpCode::Negate) }
        else if b == 3 { Some(OpCode::Add) }
        else if b == 4 { Some(OpCode::Subtract) }
        else if b == 5 { Some(OpCode::Multiply) }
        else if b == 6 { Some(OpCode::Divide) }
        else if b == 7 { Some(OpCode::Nil) }
        else if b == 8 { Some(OpCode::True) }
        else if b == 9 { Some(OpCode::False) }
        else if b == 10 { Some(OpCode::Not) }
        else if b == 11 { Some(OpCode::Equal) }
        else if b == 12 { Some(OpCode::Greater) }
        else if b == 13 { Some(OpCode::Less) }
        else if b == 14 { Some(OpCode::Print) }
        else if b == 15 { Some(OpCode::Pop) }
        else if b == 16 { Some(OpCode::DefineGlobal) }
        else if b == 17 { Some(OpCode::GetGlobal) }
        else if b == 18 { Some(OpCode::SetGlobal) }
        else if b == 19 { Some(OpCode::GetLocal) }
        else if b == 20 { Some(OpCode::SetLocal) }
        else if b == 21 { Some(OpCode::JumpIfFalse) }
        else if b == 22 { Some(OpCode::Jump) }
        else if b == 23 { Some(OpCode::Loop) }
        else if b == 24 { Some(OpCode::Call) }
        else if b == 25 { Some(OpCode::Closure) }
        else if b == 26 { Some(OpCode::SetUpvalue) }
        else if b == 27 { Some(OpCode::GetUpvalue) }
        else if b == 28 { Some(OpCode::CloseUpvalue) }
        else { None }
    }

    /// Decodes a byte; `None` for a byte that is no operation.
    pub fn from_byte(b: u8) -> (r: Option<OpCode>)
        ensures
            r == OpCode::of_byte(b),
            r is Some <==> b <= 28,
            r is Some ==> r->0.byte() == b,
    {
        match b {
            0 => Some(OpCode::Return),
            1 => Some(OpCode::Constant),
            2 => Some(OpCode::Negate),
            3 => Some(OpCode::Add),
            4 => Some(OpCode::Subtract),
            5 => Some(OpCode::Multiply),
            6 => Some(OpCode::Divide),
            7 => Some(OpCode::Nil),
            8 => Some(OpCode::True),
            9 => Some(OpCode::False),
            10 => Some(OpCode::Not),
            11 => Some(OpCode::Equal),
            12 => Some(OpCode::Greater),
            13 => Some(OpCode::Less),
            14 => Some(OpCode::Print),
            15 => Some(OpCode::Pop),
            16 => Some(OpCode::DefineGlobal),
            17 => Some(OpCode::GetGlobal),
            18 => Some(OpCode::SetGlobal),
            19 => Some(OpCode::GetLocal),
            20 => Some(OpCode::SetLocal),
            21 => Some(OpCode::JumpIfFalse),
            22 => Some(OpCode::Jump),
            23 => Some(OpCode::Loop),
            24 => Some(OpCode::Call),
            25 => Some(OpCode::Closure),
            26 => Some(OpCode::SetUpvalue),
            27 => Some(OpCode::GetUpvalue),
            28 => Some(OpCode::CloseUpvalue),
            _ => None,
        }
    }

    /// Every operation is decoded back from its own byte.
    pub proof fn lemma_byte_round_trip(op: OpCode)
        ensures
            OpCode::of_byte(op.byte()) == Some(op),
            op.byte() <= 28,
    {
    }
}

impl From<OpCode> for u8 {
    fn from(value: OpCode) -> (r: u8) {
        match value {
            OpCode::Return => 0,
            OpCode::Constant => 1,
            OpCode::Negate => 2,
            OpCode::Add => 3,
            OpCode::Subtract => 4,
            OpCode::Multiply => 5,
            OpCode::Divide => 6,
            OpCode::Nil => 7,
            OpCode::True => 8,
            OpCode::False => 9,
            OpCode::Not => 10,
            OpCode::Equal => 11,
            OpCode::Greater => 12,
            OpCode::Less => 13,
            OpCode::Print => 14,
            OpCode::Pop => 15,
            OpCode::DefineGlobal => 16,
            OpCode::GetGlobal => 17,
            OpCode::SetGlobal => 18,
            OpCode::GetLocal => 19,
            OpCode::SetLocal => 20,
            OpCode::JumpIfFalse => 21,
            OpCode::Jump => 22,
            OpCode::Loop => 23,
            OpCode::Call => 24,
            OpCode::Closure => 25,
            OpCode::SetUpvalue => 26,
            OpCode::GetUpvalue => 27,
            OpCode::CloseUpvalue => 28,
        }
    }
}

impl vstd::std_specs::convert::FromSpecImpl<OpCode> for u8 {
    open spec fn obeys_from_spec() -> bool {
        true
    }

    open spec fn from_spec(value: OpCode) -> u8 {
        value.byte()
    }
}

/// A series of instructions with the constants they use and the source line of each byte.
#[derive(Debug)]
pub struct Chunk {
    pub code: Vec<u8>,
    pub constants: ValueArray,
    pub lines: Vec<usize>,
}

/// The mathematical content of a [`Chunk`].
pub struct ChunkView {
    pub code: Seq<u8>,
    pub constants: Seq<ValueView>,
    pub lines: Seq<usize>,
}

impl ChunkView {
    pub open spec fn empty() -> ChunkView {
        ChunkView { code: Seq::empty(), constants: Seq::empty(), lines: Seq::empty() }
    }

    /// The chunk with one more byte, recorded as coming from `line`.
    pub open spec fn write(self, byte: u8, line: usize) -> ChunkView {
        ChunkView { code: self.code.push(byte), lines: self.lines.push(line), ..self }
    }

    /// The chunk with one more constant.
    pub open spec fn add_constant(self, val: ValueView) -> ChunkView {
        ChunkView { constants: self.constants.push(val), ..self }
    }

    /// Every byte of code has its line.
    pub open spec fn aligned(self) -> bool {
        self.lines.len() == self.code.len()
    }
}

impl View for Chunk {
    type V = ChunkView;

    open spec fn view(&self) -> ChunkView {
        ChunkView { code: self.code@, constants: self.constants@, lines: self.lines@ }
    }
}

impl Chunk {
    pub fn new() -> (r: Chunk)
        ensures
            r@ == ChunkView::empty(),
    {
        Chunk { code: Vec::new(), constants: ValueArray::new(), lines: Vec::new() }
    }

    /// Appends a byte of code and the source line it comes from.
    pub fn write(&mut self, byte: u8, line: usize)
        ensures
            final(self)@ == old(self)@.write(byte, line),
    {
        self.code.push(byte);
        self.lines.push(line);
    }

    /// Appends a constant and returns its index in the pool.
    pub fn add_constant(&mut self, val: Value) -> (index: usize)
        ensures
            final(self)@ == old(self)@.add_constant(val@),
            index == old(self)@.constants.len(),
    {
        let index = self.constants.values.len();
        self.constants.write(val);
        index
    }
}

} // verus!
