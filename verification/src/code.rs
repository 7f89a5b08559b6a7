//! The layout of code: how long each instruction is, and what it means that a stretch of code
//! is made of whole instructions.

use vstd::prelude::*;
use crate::chunk::ChunkView;
use crate::chunk::OpCode;
use crate::value::FunctionView;
use crate::value::ValueView;
use crate::vm_model::operand_bytes;

verus! {

/// The function that the `Closure` instruction at `offset` makes a closure of, if its operand
/// is the index of a constant that is a function of `functions`.
pub open spec fn closure_target(chunk: ChunkView, functions: Seq<FunctionView>, offset: int) -> Option<
    usize,
> {
    let idx = chunk.code[offset + 1];
    if idx < chunk.constants.len() {
        match chunk.constants[idx as int] {
            ValueView::Func(f) => if f < functions.len() {
                Some(f)
            } else {
                None
            },
            _ => None,
        }
    } else {
        None
    }
}

/// How many bytes the instruction at `offset` takes: its operation, the operands of the
/// operation and, for `Closure`, two more bytes for each variable that the function captures.
/// `None` where no complete instruction begins at `offset`.
pub open spec fn instruction_len(chunk: ChunkView, functions: Seq<FunctionView>, offset: int) -> Option<
    int,
> {
    if 0 <= offset < chunk.code.len() {
        match OpCode::of_byte(chunk.code[offset]) {
            None => None,
            Some(op) => {
                let plain = 1 + operand_bytes(op);
                if offset + plain > chunk.code.len() {
                    None
                } else if op == OpCode::Closure {
                    match closure_target(chunk, functions, offset) {
                        Some(f) => {
                            let whole = plain + 2 * functions[f as int].upvalues.len();
                            if offset + whole <= chunk.code.len() {
                                Some(whole)
                            } else {
                                None
                            }
                        },
                        None => None,
                    }
                } else {
                    Some(plain)
                }
            },
        }
    } else {
        None
    }
}

/// Is the code from `from` up to `to` made of whole instructions?
pub open spec fn decodes(chunk: ChunkView, functions: Seq<FunctionView>, from: int, to: int) -> bool
    decreases to - from,
{
    if from >= to {
        from == to
    } else {
        match instruction_len(chunk, functions, from) {
            Some(n) => n > 0 && from + n <= to && decodes(chunk, functions, from + n, to),
            None => false,
        }
    }
}

/// Is all the code of the chunk made of whole instructions?
pub open spec fn well_formed(chunk: ChunkView, functions: Seq<FunctionView>) -> bool {
    decodes(chunk, functions, 0, chunk.code.len() as int)
}

/// Does `after` hold everything that `before` holds, at the same places: the code up to
/// `to`, the constants and the functions?
pub open spec fn keeps(
    after: ChunkView,
    after_functions: Seq<FunctionView>,
    before: ChunkView,
    before_functions: Seq<FunctionView>,
    from: int,
    to: int,
) -> bool {
    &&& to <= before.code.len()
    &&& to <= after.code.len()
    &&& forall|i: int| from <= i < to ==> #[trigger] after.code[i] == before.code[i]
    &&& before.constants.len() <= after.constants.len()
    &&& forall|i: int|
        0 <= i < before.constants.len() ==> #[trigger] after.constants[i] == before.constants[i]
    &&& before_functions.len() <= after_functions.len()
    &&& forall|i: int|
        0 <= i < before_functions.len() ==> #[trigger] after_functions[i] == before_functions[i]
}

/// An instruction that lies in a stretch of code is the same instruction wherever the stretch
/// is kept.
pub proof fn lemma_instruction_is_kept(
    after: ChunkView,
    after_functions: Seq<FunctionView>,
    before: ChunkView,
    before_functions: Seq<FunctionView>,
    from: int,
    to: int,
    offset: int,
)
    requires
        keeps(after, after_functions, before, before_functions, from, to),
        0 <= from <= offset,
        instruction_len(before, before_functions, offset) is Some,
        offset + instruction_len(before, before_functions, offset)->0 <= to,
    ensures
        instruction_len(after, after_functions, offset) == instruction_len(
            before,
            before_functions,
            offset,
        ),
{
    let op = OpCode::of_byte(before.code[offset])->0;
    assert(after.code[offset] == before.code[offset]);
    if operand_bytes(op) >= 1 {
        assert(after.code[offset + 1] == before.code[offset + 1]);
    }
}

/// A stretch of code that is made of whole instructions is so wherever it is kept.
pub proof fn lemma_decodes_is_kept(
    after: ChunkView,
    after_functions: Seq<FunctionView>,
    before: ChunkView,
    before_functions: Seq<FunctionView>,
    from: int,
    to: int,
)
    requires
        keeps(after, after_functions, before, before_functions, from, to),
        0 <= from,
        decodes(before, before_functions, from, to),
    ensures
        decodes(after, after_functions, from, to),
    decreases to - from,
{
    if from < to {
        let n = instruction_len(before, before_functions, from)->0;
        lemma_instruction_is_kept(after, after_functions, before, before_functions, from, to, from);
        lemma_decodes_is_kept(after, after_functions, before, before_functions, from + n, to);
    }
}

/// Two stretches of whole instructions, one behind the other, are one.
pub proof fn lemma_decodes_joins(
    chunk: ChunkView,
    functions: Seq<FunctionView>,
    from: int,
    middle: int,
    to: int,
)
    requires
        decodes(chunk, functions, from, middle),
        decodes(chunk, functions, middle, to),
    ensures
        decodes(chunk, functions, from, to),
    decreases middle - from,
{
    if from < middle {
        let n = instruction_len(chunk, functions, from)->0;
        lemma_decodes_joins(chunk, functions, from + n, middle, to);
    }
}

/// A stretch of whole instructions that begins with a stretch of whole instructions ends
/// with one.
pub proof fn lemma_decodes_splits(
    chunk: ChunkView,
    functions: Seq<FunctionView>,
    from: int,
    middle: int,
    to: int,
)
    requires
        decodes(chunk, functions, from, middle),
        decodes(chunk, functions, from, to),
        middle <= to,
    ensures
        decodes(chunk, functions, middle, to),
    decreases middle - from,
{
    if from < middle {
        let n = instruction_len(chunk, functions, from)->0;
        lemma_decodes_splits(chunk, functions, from + n, middle, to);
    }
}

/// Is the byte an operation with two operand bytes: one of the jumps?
pub open spec fn is_jump(byte: u8) -> bool {
    byte == OpCode::Jump.byte() || byte == OpCode::JumpIfFalse.byte() || byte
        == OpCode::Loop.byte()
}

/// A jump is an instruction of three bytes, whatever its operand bytes are.
pub proof fn lemma_jump_len(chunk: ChunkView, functions: Seq<FunctionView>, offset: int)
    requires
        0 <= offset,
        offset + 3 <= chunk.code.len(),
        is_jump(chunk.code[offset]),
    ensures
        instruction_len(chunk, functions, offset) == Some(3int),
{
}

} // verus!
