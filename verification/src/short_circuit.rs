//! How the machine runs the code that the compiler emits for `and` and `or`: the right operand
//! is evaluated only where the left operand does not decide the result.

use vstd::prelude::*;
use crate::chunk::OpCode;
use crate::compiler_model::CompilerView;
use crate::grammar::lemma_and_layout;
use crate::grammar::lemma_or_layout;
use crate::value::is_falsey_spec;
use crate::vm_model::ActionView;
use crate::vm_model::EventView;
use crate::vm_model::VMView;
use crate::vm_model::lemma_and_evaluates_the_right_operand;
use crate::vm_model::lemma_and_short_circuit;
use crate::vm_model::lemma_or_short_circuit;
use crate::vm_model::short_of;

verus! {

/// Does the machine stand, with a value on the stack, at the offset `start` of code that
/// begins with `code`?
pub open spec fn stands_at(vm: VMView, code: Seq<u8>, start: int) -> bool {
    &&& vm.frames.len() > 0
    &&& vm.code().len() <= usize::MAX
    &&& code.len() <= vm.code().len()
    &&& vm.code().take(code.len() as int) == code
    &&& vm.frame().ip == start
    &&& vm.stack.len() > 0
}

/// `and` with a falsey left operand: from behind the left operand one step takes the machine
/// behind the whole expression. The right operand is not evaluated, and the left operand
/// stays on the stack as the value of the expression.
pub proof fn lemma_and_skips_the_right_operand(c: CompilerView, vm: VMView, event: EventView)
    requires
        c.states.len() >= 1,
        stands_at(vm, c.and_().chunk().code, c.chunk().code.len() as int),
        c.and_().chunk().code.len() - c.chunk().code.len() - 3 <= 0xFFFF,
        is_falsey_spec(vm.peek(0)),
    ensures
        vm.step(event).1 == ActionView::Continue,
        vm.step(event).0.stack == vm.stack,
        vm.step(event).0.frame().ip == c.and_().chunk().code.len(),
{
    lemma_and_layout(c);
    let code = c.and_().chunk().code;
    let start = c.chunk().code.len() as int;
    assert forall|i: int| 0 <= i < code.len() implies vm.code()[i] == code[i] by {
        assert(vm.code().take(code.len() as int)[i] == code[i]);
    }
    assert(vm.code()[start] == code[start]);
    assert(vm.code()[start + 1] == code[start + 1]);
    assert(vm.code()[start + 2] == code[start + 2]);
    assert(vm.decode() == Some(OpCode::JumpIfFalse));
    assert(vm.jump_distance() == short_of(code[start + 1], code[start + 2]));
    lemma_and_short_circuit(vm, event);
}

/// `and` with a truthy left operand: from behind the left operand two steps remove the left
/// operand from the stack and take the machine to the code of the right operand.
pub proof fn lemma_and_goes_on_to_the_right_operand(
    c: CompilerView,
    vm: VMView,
    first: EventView,
    second: EventView,
)
    requires
        c.states.len() >= 1,
        stands_at(vm, c.and_().chunk().code, c.chunk().code.len() as int),
        c.and_().chunk().code.len() - c.chunk().code.len() - 3 <= 0xFFFF,
        !is_falsey_spec(vm.peek(0)),
    ensures
        vm.step(first).0.step(second).1 == ActionView::Continue,
        vm.step(first).0.step(second).0.stack == vm.stack.drop_last(),
        vm.step(first).0.step(second).0.frame().ip == c.chunk().code.len() + 4,
{
    lemma_and_layout(c);
    let code = c.and_().chunk().code;
    let start = c.chunk().code.len() as int;
    assert forall|i: int| 0 <= i < code.len() implies vm.code()[i] == code[i] by {
        assert(vm.code().take(code.len() as int)[i] == code[i]);
    }
    assert(vm.code()[start] == code[start]);
    assert(vm.code()[start + 1] == code[start + 1]);
    assert(vm.code()[start + 2] == code[start + 2]);
    assert(vm.code()[start + 3] == code[start + 3]);
    assert(vm.decode() == Some(OpCode::JumpIfFalse));
    assert(vm.jump_distance() == short_of(code[start + 1], code[start + 2]));
    lemma_and_evaluates_the_right_operand(vm, first, second);
}

/// `or` with a truthy left operand: from behind the left operand two steps take the machine
/// behind the whole expression. The right operand is not evaluated, and the left operand
/// stays on the stack as the value of the expression.
pub proof fn lemma_or_skips_the_right_operand(
    c: CompilerView,
    vm: VMView,
    first: EventView,
    second: EventView,
)
    requires
        c.states.len() >= 1,
        stands_at(vm, c.or_().chunk().code, c.chunk().code.len() as int),
        c.or_().chunk().code.len() - c.chunk().code.len() - 6 <= 0xFFFF,
        !is_falsey_spec(vm.peek(0)),
    ensures
        vm.step(first).0.step(second).1 == ActionView::Continue,
        vm.step(first).0.step(second).0.stack == vm.stack,
        vm.step(first).0.step(second).0.frame().ip == c.or_().chunk().code.len(),
{
    lemma_or_layout(c);
    let code = c.or_().chunk().code;
    let start = c.chunk().code.len() as int;
    assert forall|i: int| 0 <= i < code.len() implies vm.code()[i] == code[i] by {
        assert(vm.code().take(code.len() as int)[i] == code[i]);
    }
    assert(vm.code()[start] == code[start]);
    assert(vm.code()[start + 1] == code[start + 1]);
    assert(vm.code()[start + 2] == code[start + 2]);
    assert(vm.code()[start + 3] == code[start + 3]);
    assert(vm.code()[start + 4] == code[start + 4]);
    assert(vm.code()[start + 5] == code[start + 5]);
    assert(vm.decode() == Some(OpCode::JumpIfFalse));
    assert(vm.jump_distance() == 3);
    lemma_or_short_circuit(vm, first, second);
}

/// `or` with a falsey left operand: from behind the left operand two steps remove the left
/// operand from the stack and take the machine to the code of the right operand.
pub proof fn lemma_or_goes_on_to_the_right_operand(
    c: CompilerView,
    vm: VMView,
    first: EventView,
    second: EventView,
)
    requires
        c.states.len() >= 1,
        stands_at(vm, c.or_().chunk().code, c.chunk().code.len() as int),
        is_falsey_spec(vm.peek(0)),
    ensures
        vm.step(first).0.step(second).1 == ActionView::Continue,
        vm.step(first).0.step(second).0.stack == vm.stack.drop_last(),
        vm.step(first).0.step(second).0.frame().ip == c.chunk().code.len() + 7,
{
    lemma_or_layout(c);
    let code = c.or_().chunk().code;
    let start = c.chunk().code.len() as int;
    assert forall|i: int| 0 <= i < code.len() implies vm.code()[i] == code[i] by {
        assert(vm.code().take(code.len() as int)[i] == code[i]);
    }
    assert(vm.code()[start] == code[start]);
    assert(vm.code()[start + 1] == code[start + 1]);
    assert(vm.code()[start + 2] == code[start + 2]);
    assert(vm.code()[start + 6] == code[start + 6]);
    assert(vm.decode() == Some(OpCode::JumpIfFalse));
    assert(vm.jump_distance() == 3);
    let after = vm.step(first).0;
    assert(after.frame().closure == vm.frame().closure);
    assert(after.units == vm.units);
    assert(after.code() == vm.code());
    assert(after.frame().ip == start + 6);
    assert(after.stack == vm.stack);
    assert(after.decode() == Some(OpCode::Pop));
    assert(after.stack.take(after.stack.len() - 1) =~= vm.stack.drop_last());
}

} // verus!
