//! The virtual machine as a mathematical object: its state, and the function from a state and
//! an event of the host to the next state and the action asked of the host.

use vstd::prelude::*;
use crate::chunk::OpCode;
use crate::diagnostic::DiagnosticView;
use crate::globals::GlobalsView;
use crate::text::decimal;
use crate::value::ClosureView;
use crate::value::FunctionView;
use crate::value::ValueView;
use crate::value::is_falsey_spec;
use crate::value::number_less;
use crate::value::number_negated;
use crate::value::values_equal_spec;

verus! {

/// The deepest nesting of calls.
pub const FRAMES_MAX: usize = 64;

/// The mathematical content of a call frame.
pub struct CallFrameView {
    pub closure: ClosureView,
    /// The offset of the next instruction in the code of the closure's function.
    pub ip: usize,
    /// The stack index where the frame's slots begin; slot 0 holds the called closure.
    pub slots: usize,
}

/// The mathematical content of the cell of a captured variable.
pub enum UpvalueView {
    /// The variable still lives in the stack slot with this index.
    Open(usize),
    /// The variable outlived its slot, and the cell owns its value.
    Closed(ValueView),
}

/// The mathematical content of what the host hands to the machine.
pub enum EventView {
    Resume,
    Number(u64),
    Value(ValueView),
}

/// The mathematical content of what the machine asks of the host.
pub enum ActionView {
    Continue,
    Print(Seq<char>),
    PrintNumber(u64),
    Arithmetic(OpCode, u64, u64),
    CallNative(usize, Seq<ValueView>),
    Done,
    Fault(Seq<char>, Seq<Seq<char>>),
    Rejected(Seq<DiagnosticView>),
}

pub open spec fn malformed_message() -> Seq<char> {
    "Malformed bytecode."@
}

pub open spec fn operand_number_message() -> Seq<char> {
    "Operand must be a number."@
}

pub open spec fn operands_numbers_message() -> Seq<char> {
    "Operands must be numbers."@
}

pub open spec fn operands_add_message() -> Seq<char> {
    "Operands must be two numbers or two strings."@
}

pub open spec fn not_callable_message() -> Seq<char> {
    "Can only call functions and classes."@
}

pub open spec fn stack_overflow_message() -> Seq<char> {
    "Stack overflow."@
}

pub open spec fn undefined_variable_message(name: Seq<char>) -> Seq<char> {
    "Undefined variable '"@ + name + "'."@
}

pub open spec fn arity_message(expected: usize, got: usize) -> Seq<char> {
    "Expected "@ + decimal(expected as nat) + " arguments but got "@ + decimal(got as nat) + "."@
}

/// How many operand bytes follow the operation's own byte. The `Closure` operation is followed,
/// after its one operand, by two more bytes for each variable that the function captures.
pub open spec fn operand_bytes(op: OpCode) -> int {
    match op {
        OpCode::Constant
        | OpCode::DefineGlobal
        | OpCode::GetGlobal
        | OpCode::SetGlobal
        | OpCode::GetLocal
        | OpCode::SetLocal
        | OpCode::GetUpvalue
        | OpCode::SetUpvalue
        | OpCode::Call
        | OpCode::Closure => 1,
        OpCode::Jump | OpCode::JumpIfFalse | OpCode::Loop => 2,
        _ => 0,
    }
}

/// The 16-bit number whose big-endian bytes are `high` and `low`.
pub open spec fn short_of(high: u8, low: u8) -> int {
    high as int * 256 + low as int
}

/// The mathematical content of a virtual machine.
pub struct VMView {
    pub frames: Seq<CallFrameView>,
    pub stack: Seq<ValueView>,
    pub globals: GlobalsView,
    /// The functions of each source that was interpreted, in the order of interpretation.
    pub units: Seq<Seq<FunctionView>>,
    /// The cells of all captured variables.
    pub cells: Seq<UpvalueView>,
    /// The indices of the cells that are still open, those of higher slots first.
    pub open_upvalues: Seq<usize>,
}

impl VMView {
    pub open spec fn closure_ok(self, c: ClosureView) -> bool {
        c.unit < self.units.len() && c.function < self.units[c.unit as int].len()
    }

    pub open spec fn function_of(self, c: ClosureView) -> FunctionView {
        self.units[c.unit as int][c.function as int]
    }

    /// The frame runs a function that exists, and its instruction offset is inside the code or
    /// just behind it.
    pub open spec fn frame_ok(self, f: CallFrameView) -> bool {
        self.closure_ok(f.closure) && f.ip <= self.function_of(f.closure).chunk.code.len()
    }

    pub open spec fn wf(self) -> bool {
        &&& self.globals.wf()
        &&& self.stack.len() <= usize::MAX
        &&& self.cells.len() <= usize::MAX
        &&& self.frames.len() <= FRAMES_MAX
        &&& forall|i: int| 0 <= i < self.frames.len() ==> self.frame_ok(#[trigger] self.frames[i])
        &&& forall|i: int|
            0 <= i < self.open_upvalues.len() ==> #[trigger] self.open_upvalues[i]
                < self.cells.len()
    }

    /// The frame of the call that is running.
    pub open spec fn frame(self) -> CallFrameView {
        self.frames.last()
    }

    pub open spec fn function(self) -> FunctionView {
        self.function_of(self.frame().closure)
    }

    pub open spec fn code(self) -> Seq<u8> {
        self.function().chunk.code
    }

    pub open spec fn constants(self) -> Seq<ValueView> {
        self.function().chunk.constants
    }

    /// The `k`-th operand byte of the instruction at the instruction offset.
    pub open spec fn operand(self, k: int) -> u8 {
        self.code()[self.frame().ip + 1 + k]
    }

    /// The machine with the running frame's instruction offset set to `ip`.
    pub open spec fn jump_to(self, ip: int) -> VMView {
        VMView {
            frames: self.frames.update(
                self.frames.len() - 1,
                CallFrameView { ip: ip as usize, ..self.frame() },
            ),
            ..self
        }
    }

    /// The machine with the instruction offset moved behind the operation and its operands.
    pub open spec fn advanced(self, op: OpCode) -> VMView {
        self.jump_to(self.frame().ip + 1 + operand_bytes(op))
    }

    pub open spec fn push(self, v: ValueView) -> VMView {
        VMView { stack: self.stack.push(v), ..self }
    }

    /// The machine without the top `n` values of the stack.
    pub open spec fn drop(self, n: int) -> VMView {
        VMView { stack: self.stack.take(self.stack.len() - n), ..self }
    }

    /// The value `distance` places below the top of the stack.
    pub open spec fn peek(self, distance: int) -> ValueView {
        self.stack[self.stack.len() - 1 - distance]
    }

    /// The text that `print` shows for a value that is no number.
    pub open spec fn display(self, v: ValueView) -> Seq<char> {
        match v {
            ValueView::Bool(b) => if b {
                "true"@
            } else {
                "false"@
            },
            ValueView::Nil => "nil"@,
            ValueView::Number(_) => Seq::empty(),
            ValueView::String(s) => s,
            ValueView::Func(_) => "<fn>"@,
            ValueView::NativeFunc(_) => "<native fn>"@,
            ValueView::Closure(c) => if self.closure_ok(c) {
                "<closure "@ + self.function_of(c).name + ">"@
            } else {
                "<closure>"@
            },
        }
    }

    /// The line of the stack trace for a frame: `[line <N>] in <name>`, with `script` as the
    /// name of top-level code. The line is that of the byte before the frame's instruction
    /// offset.
    pub open spec fn trace_line(self, f: CallFrameView) -> Seq<char> {
        let function = self.function_of(f.closure);
        let line: usize = if 0 < f.ip <= function.chunk.lines.len() {
            function.chunk.lines[f.ip - 1]
        } else {
            0
        };
        "[line "@ + decimal(line as nat) + "] in "@ + if function.name.len() == 0 {
            "script"@
        } else {
            function.name
        }
    }

    /// The stack trace: one line for each frame, the running frame first.
    pub open spec fn trace(self) -> Seq<Seq<char>> {
        Seq::new(
            self.frames.len(),
            |i: int| self.trace_line(self.frames[self.frames.len() - 1 - i]),
        )
    }

    /// The machine after the open cells of the slots at or above `from` are closed: each such
    /// cell at the front of the list of open cells takes over the value of its slot and leaves
    /// the list.
    pub open spec fn close_upvalues(self, from: int) -> VMView
        decreases self.open_upvalues.len(),
    {
        if self.open_upvalues.len() == 0 {
            self
        } else {
            let head = self.open_upvalues[0];
            let rest = VMView { open_upvalues: self.open_upvalues.drop_first(), ..self };
            if head >= self.cells.len() {
                rest.close_upvalues(from)
            } else {
                match self.cells[head as int] {
                    UpvalueView::Closed(_) => rest.close_upvalues(from),
                    UpvalueView::Open(slot) => {
                        if slot >= from {
                            let value = if slot < self.stack.len() {
                                self.stack[slot as int]
                            } else {
                                ValueView::Nil
                            };
                            VMView {
                                cells: self.cells.update(head as int, UpvalueView::Closed(value)),
                                ..rest
                            }.close_upvalues(from)
                        } else {
                            self
                        }
                    },
                }
            }
        }
    }

    /// The machine after a runtime error: every open cell is closed, and the stack and the
    /// frames are cleared. The action carries the message and the stack trace.
    pub open spec fn fault(self, message: Seq<char>) -> (VMView, ActionView) {
        (
            VMView { frames: Seq::empty(), stack: Seq::empty(), ..self.close_upvalues(0) },
            ActionView::Fault(message, self.trace()),
        )
    }

    /// A runtime error in the instruction `op`, reported behind it.
    pub open spec fn fail(self, op: OpCode, message: Seq<char>) -> (VMView, ActionView) {
        self.advanced(op).fault(message)
    }

    /// The first open cell for `slot` in the list of open cells, at or after position `i`.
    pub open spec fn find_open(self, slot: usize, i: int) -> Option<usize>
        decreases self.open_upvalues.len() - i,
    {
        if i < 0 || i >= self.open_upvalues.len() {
            None
        } else {
            let c = self.open_upvalues[i];
            if c < self.cells.len() && self.cells[c as int] == UpvalueView::Open(slot) {
                Some(c)
            } else {
                self.find_open(slot, i + 1)
            }
        }
    }

    /// Where a new open cell for `slot` enters the list of open cells: behind the cells of
    /// higher slots that lead the list from position `i`.
    pub open spec fn insert_position(self, slot: usize, i: int) -> int
        decreases self.open_upvalues.len() - i,
    {
        if i < 0 || i >= self.open_upvalues.len() {
            i
        } else {
            let c = self.open_upvalues[i];
            if c < self.cells.len() && self.cells[c as int] is Open
                && self.cells[c as int]->Open_0 > slot {
                self.insert_position(slot, i + 1)
            } else {
                i
            }
        }
    }

    /// The cell for the variable in `slot`: the open cell that exists for it, or a new one.
    pub open spec fn capture(self, slot: usize) -> (VMView, usize) {
        match self.find_open(slot, 0) {
            Some(c) => (self, c),
            None => (
                VMView {
                    cells: self.cells.push(UpvalueView::Open(slot)),
                    open_upvalues: self.open_upvalues.insert(
                        self.insert_position(slot, 0),
                        self.cells.len() as usize,
                    ),
                    ..self
                },
                self.cells.len() as usize,
            ),
        }
    }

    /// Can the `k`-th pair of bytes at `base` be captured: does it name a slot of the running
    /// frame that is on the stack, or the slot just above the stack, where the closure itself
    /// is about to be (a function that calls itself captures its own slot), or a cell of the
    /// running closure?
    pub open spec fn capture_ok(self, base: int, k: int) -> bool {
        let index = self.code()[base + 2 * k + 1];
        if self.code()[base + 2 * k] != 0 {
            self.frame().slots + index <= self.stack.len()
        } else {
            index < self.frame().closure.upvalues.len()
        }
    }

    /// The machine after the pairs of bytes from the `k`-th to the `count`-th at `base` are
    /// captured, and the cells of `acc` followed by theirs.
    pub open spec fn capture_all(self, base: int, count: int, k: int, acc: Seq<usize>) -> (
        VMView,
        Seq<usize>,
    )
        decreases count - k,
    {
        if k >= count {
            (self, acc)
        } else {
            let index = self.code()[base + 2 * k + 1];
            if self.code()[base + 2 * k] != 0 {
                let (next, cell) = self.capture((self.frame().slots + index) as usize);
                next.capture_all(base, count, k + 1, acc.push(cell))
            } else {
                self.capture_all(
                    base,
                    count,
                    k + 1,
                    acc.push(self.frame().closure.upvalues[index as int]),
                )
            }
        }
    }

    pub open spec fn op_constant(self) -> (VMView, ActionView) {
        let idx = self.operand(0);
        if idx < self.constants().len() {
            (self.advanced(OpCode::Constant).push(self.constants()[idx as int]), ActionView::Continue)
        } else {
            self.fail(OpCode::Constant, malformed_message())
        }
    }

    pub open spec fn op_pop(self) -> (VMView, ActionView) {
        if self.stack.len() > 0 {
            (self.advanced(OpCode::Pop).drop(1), ActionView::Continue)
        } else {
            self.fail(OpCode::Pop, malformed_message())
        }
    }

    pub open spec fn op_get_local(self) -> (VMView, ActionView) {
        let i = self.frame().slots + self.operand(0);
        if i < self.stack.len() {
            (self.advanced(OpCode::GetLocal).push(self.stack[i]), ActionView::Continue)
        } else {
            self.fail(OpCode::GetLocal, malformed_message())
        }
    }

    pub open spec fn op_set_local(self) -> (VMView, ActionView) {
        let i = self.frame().slots + self.operand(0);
        if i < self.stack.len() {
            let next = self.advanced(OpCode::SetLocal);
            (VMView { stack: self.stack.update(i, self.peek(0)), ..next }, ActionView::Continue)
        } else {
            self.fail(OpCode::SetLocal, malformed_message())
        }
    }

    /// The name that the operand of a global-variable instruction stands for, if it is one.
    pub open spec fn global_name(self) -> Option<Seq<char>> {
        let idx = self.operand(0);
        if idx < self.constants().len() {
            match self.constants()[idx as int] {
                ValueView::String(s) => Some(s),
                _ => None,
            }
        } else {
            None
        }
    }

    pub open spec fn op_get_global(self) -> (VMView, ActionView) {
        match self.global_name() {
            Some(name) => if self.globals.contains(name) {
                (
                    self.advanced(OpCode::GetGlobal).push(self.globals.get(name)),
                    ActionView::Continue,
                )
            } else {
                self.fail(OpCode::GetGlobal, undefined_variable_message(name))
            },
            None => self.fail(OpCode::GetGlobal, malformed_message()),
        }
    }

    pub open spec fn op_define_global(self) -> (VMView, ActionView) {
        match self.global_name() {
            Some(name) => if self.stack.len() > 0 {
                let next = self.advanced(OpCode::DefineGlobal).drop(1);
                (
                    VMView { globals: self.globals.insert(name, self.peek(0)), ..next },
                    ActionView::Continue,
                )
            } else {
                self.fail(OpCode::DefineGlobal, malformed_message())
            },
            None => self.fail(OpCode::DefineGlobal, malformed_message()),
        }
    }

    pub open spec fn op_set_global(self) -> (VMView, ActionView) {
        match self.global_name() {
            Some(name) => if self.stack.len() == 0 {
                self.fail(OpCode::SetGlobal, malformed_message())
            } else if self.globals.contains(name) {
                let next = self.advanced(OpCode::SetGlobal);
                (
                    VMView { globals: self.globals.insert(name, self.peek(0)), ..next },
                    ActionView::Continue,
                )
            } else {
                self.fail(OpCode::SetGlobal, undefined_variable_message(name))
            },
            None => self.fail(OpCode::SetGlobal, malformed_message()),
        }
    }

    /// The cell that the operand of an upvalue instruction stands for, if there is one.
    pub open spec fn upvalue_cell(self) -> Option<usize> {
        let idx = self.operand(0);
        let cells = self.frame().closure.upvalues;
        if idx < cells.len() && cells[idx as int] < self.cells.len() {
            Some(cells[idx as int])
        } else {
            None
        }
    }

    pub open spec fn op_get_upvalue(self) -> (VMView, ActionView) {
        match self.upvalue_cell() {
            Some(cell) => match self.cells[cell as int] {
                UpvalueView::Open(slot) => if slot < self.stack.len() {
                    (
                        self.advanced(OpCode::GetUpvalue).push(self.stack[slot as int]),
                        ActionView::Continue,
                    )
                } else {
                    self.fail(OpCode::GetUpvalue, malformed_message())
                },
                UpvalueView::Closed(v) => (
                    self.advanced(OpCode::GetUpvalue).push(v),
                    ActionView::Continue,
                ),
            },
            None => self.fail(OpCode::GetUpvalue, malformed_message()),
        }
    }

    pub open spec fn op_set_upvalue(self) -> (VMView, ActionView) {
        match self.upvalue_cell() {
            Some(cell) => if self.stack.len() == 0 {
                self.fail(OpCode::SetUpvalue, malformed_message())
            } else {
                let next = self.advanced(OpCode::SetUpvalue);
                match self.cells[cell as int] {
                    UpvalueView::Open(slot) => if slot < self.stack.len() {
                        (
                            VMView { stack: self.stack.update(slot as int, self.peek(0)), ..next },
                            ActionView::Continue,
                        )
                    } else {
                        self.fail(OpCode::SetUpvalue, malformed_message())
                    },
                    UpvalueView::Closed(_) => (
                        VMView {
                            cells: self.cells.update(
                                cell as int,
                                UpvalueView::Closed(self.peek(0)),
                            ),
                            ..next
                        },
                        ActionView::Continue,
                    ),
                }
            },
            None => self.fail(OpCode::SetUpvalue, malformed_message()),
        }
    }

    pub open spec fn op_equal(self) -> (VMView, ActionView) {
        if self.stack.len() >= 2 {
            (
                self.advanced(OpCode::Equal).drop(2).push(
                    ValueView::Bool(values_equal_spec(self.peek(1), self.peek(0))),
                ),
                ActionView::Continue,
            )
        } else {
            self.fail(OpCode::Equal, malformed_message())
        }
    }

    /// `Greater` and `Less`: both operands must be numbers.
    pub open spec fn op_compare(self, op: OpCode) -> (VMView, ActionView) {
        if self.stack.len() >= 2 {
            match (self.peek(1), self.peek(0)) {
                (ValueView::Number(a), ValueView::Number(b)) => (
                    self.advanced(op).drop(2).push(
                        ValueView::Bool(
                            if op == OpCode::Greater {
                                number_less(b, a)
                            } else {
                                number_less(a, b)
                            },
                        ),
                    ),
                    ActionView::Continue,
                ),
                _ => self.fail(op, operands_numbers_message()),
            }
        } else {
            self.fail(op, malformed_message())
        }
    }

    /// Arithmetic on two numbers is the host's: without its result the machine stays where it
    /// is and asks for it; with the result it replaces the operands.
    pub open spec fn arithmetic(self, op: OpCode, a: u64, b: u64, event: EventView) -> (
        VMView,
        ActionView,
    ) {
        match event {
            EventView::Number(result) => (
                self.advanced(op).drop(2).push(ValueView::Number(result)),
                ActionView::Continue,
            ),
            _ => (self, ActionView::Arithmetic(op, a, b)),
        }
    }

    pub open spec fn op_add(self, event: EventView) -> (VMView, ActionView) {
        if self.stack.len() >= 2 {
            match (self.peek(1), self.peek(0)) {
                (ValueView::Number(a), ValueView::Number(b)) => self.arithmetic(
                    OpCode::Add,
                    a,
                    b,
                    event,
                ),
                (ValueView::String(a), ValueView::String(b)) => (
                    self.advanced(OpCode::Add).drop(2).push(ValueView::String(a + b)),
                    ActionView::Continue,
                ),
                _ => self.fail(OpCode::Add, operands_add_message()),
            }
        } else {
            self.fail(OpCode::Add, malformed_message())
        }
    }

    /// `Subtract`, `Multiply` and `Divide`: both operands must be numbers.
    pub open spec fn op_arithmetic(self, op: OpCode, event: EventView) -> (VMView, ActionView) {
        if self.stack.len() >= 2 {
            match (self.peek(1), self.peek(0)) {
                (ValueView::Number(a), ValueView::Number(b)) => self.arithmetic(op, a, b, event),
                _ => self.fail(op, operands_numbers_message()),
            }
        } else {
            self.fail(op, malformed_message())
        }
    }

    pub open spec fn op_not(self) -> (VMView, ActionView) {
        if self.stack.len() >= 1 {
            (
                self.advanced(OpCode::Not).drop(1).push(
                    ValueView::Bool(is_falsey_spec(self.peek(0))),
                ),
                ActionView::Continue,
            )
        } else {
            self.fail(OpCode::Not, malformed_message())
        }
    }

    pub open spec fn op_negate(self) -> (VMView, ActionView) {
        if self.stack.len() >= 1 {
            match self.peek(0) {
                ValueView::Number(a) => (
                    self.advanced(OpCode::Negate).drop(1).push(
                        ValueView::Number(number_negated(a)),
                    ),
                    ActionView::Continue,
                ),
                _ => self.fail(OpCode::Negate, operand_number_message()),
            }
        } else {
            self.fail(OpCode::Negate, malformed_message())
        }
    }

    pub open spec fn op_print(self) -> (VMView, ActionView) {
        if self.stack.len() >= 1 {
            let next = self.advanced(OpCode::Print).drop(1);
            match self.peek(0) {
                ValueView::Number(a) => (next, ActionView::PrintNumber(a)),
                v => (next, ActionView::Print(self.display(v))),
            }
        } else {
            self.fail(OpCode::Print, malformed_message())
        }
    }

    /// The distance that the two operand bytes of a jump instruction give.
    pub open spec fn jump_distance(self) -> int {
        short_of(self.operand(0), self.operand(1))
    }

    pub open spec fn op_jump(self) -> (VMView, ActionView) {
        let target = self.frame().ip + 3 + self.jump_distance();
        if target <= self.code().len() {
            (self.jump_to(target), ActionView::Continue)
        } else {
            self.fail(OpCode::Jump, malformed_message())
        }
    }

    pub open spec fn op_jump_if_false(self) -> (VMView, ActionView) {
        let target = self.frame().ip + 3 + self.jump_distance();
        if self.stack.len() == 0 || target > self.code().len() {
            self.fail(OpCode::JumpIfFalse, malformed_message())
        } else if is_falsey_spec(self.peek(0)) {
            (self.jump_to(target), ActionView::Continue)
        } else {
            (self.advanced(OpCode::JumpIfFalse), ActionView::Continue)
        }
    }

    pub open spec fn op_loop(self) -> (VMView, ActionView) {
        let target = self.frame().ip + 3 - self.jump_distance();
        if target >= 0 {
            (self.jump_to(target), ActionView::Continue)
        } else {
            self.fail(OpCode::Loop, malformed_message())
        }
    }

    pub open spec fn op_call(self, event: EventView) -> (VMView, ActionView) {
        let argc = self.operand(0) as int;
        if self.stack.len() < argc + 1 {
            self.fail(OpCode::Call, malformed_message())
        } else {
            match self.peek(argc) {
                ValueView::Closure(c) => {
                    if !self.closure_ok(c) {
                        self.fail(OpCode::Call, malformed_message())
                    } else if self.function_of(c).arity != argc {
                        self.fail(
                            OpCode::Call,
                            arity_message(self.function_of(c).arity, argc as usize),
                        )
                    } else if self.frames.len() >= FRAMES_MAX {
                        self.fail(OpCode::Call, stack_overflow_message())
                    } else {
                        let next = self.advanced(OpCode::Call);
                        (
                            VMView {
                                frames: next.frames.push(
                                    CallFrameView {
                                        closure: c,
                                        ip: 0,
                                        slots: (self.stack.len() - 1 - argc) as usize,
                                    },
                                ),
                                ..next
                            },
                            ActionView::Continue,
                        )
                    }
                },
                ValueView::NativeFunc(native) => match event {
                    EventView::Value(result) => (
                        self.advanced(OpCode::Call).drop(argc + 1).push(result),
                        ActionView::Continue,
                    ),
                    _ => (
                        self,
                        ActionView::CallNative(
                            native,
                            self.stack.subrange(self.stack.len() - argc, self.stack.len() as int),
                        ),
                    ),
                },
                _ => self.fail(OpCode::Call, not_callable_message()),
            }
        }
    }

    /// The function that the operand of a `Closure` instruction stands for, if it is one of the
    /// running unit and all the bytes that tell what it captures are there and can be followed.
    pub open spec fn closure_function(self) -> Option<usize> {
        let idx = self.operand(0);
        let unit = self.frame().closure.unit;
        let base = self.frame().ip + 2;
        if idx < self.constants().len() {
            match self.constants()[idx as int] {
                ValueView::Func(f) => {
                    if f < self.units[unit as int].len() && base + 2
                        * self.units[unit as int][f as int].upvalues.len() <= self.code().len()
                        && (forall|k: int|
                        0 <= k < self.units[unit as int][f as int].upvalues.len()
                            ==> self.capture_ok(base, k)) {
                        Some(f)
                    } else {
                        None
                    }
                },
                _ => None,
            }
        } else {
            None
        }
    }

    pub open spec fn op_closure(self) -> (VMView, ActionView) {
        match self.closure_function() {
            Some(f) => {
                let unit = self.frame().closure.unit;
                let base = self.frame().ip + 2;
                let count = self.units[unit as int][f as int].upvalues.len() as int;
                let (next, cells) = self.capture_all(base, count, 0, Seq::empty());
                (
                    next.jump_to(base + 2 * count).push(
                        ValueView::Closure(ClosureView { unit, function: f, upvalues: cells }),
                    ),
                    ActionView::Continue,
                )
            },
            None => self.fail(OpCode::Closure, malformed_message()),
        }
    }

    pub open spec fn op_close_upvalue(self) -> (VMView, ActionView) {
        if self.stack.len() >= 1 {
            (
                self.advanced(OpCode::CloseUpvalue).close_upvalues(self.stack.len() - 1).drop(1),
                ActionView::Continue,
            )
        } else {
            self.fail(OpCode::CloseUpvalue, malformed_message())
        }
    }

    pub open spec fn op_return(self) -> (VMView, ActionView) {
        let slots = self.frame().slots;
        if self.stack.len() == 0 || slots > self.stack.len() - 1 {
            self.fail(OpCode::Return, malformed_message())
        } else {
            let closed = self.close_upvalues(slots as int);
            let left = VMView {
                frames: closed.frames.drop_last(),
                stack: closed.stack.take(slots as int),
                ..closed
            };
            if left.frames.len() == 0 {
                (left, ActionView::Done)
            } else {
                (left.push(self.peek(0)), ActionView::Continue)
            }
        }
    }

    /// What the instruction `op`, whose operands are in the code, does.
    pub open spec fn execute(self, op: OpCode, event: EventView) -> (VMView, ActionView) {
        match op {
            OpCode::Return => self.op_return(),
            OpCode::Constant => self.op_constant(),
            OpCode::Negate => self.op_negate(),
            OpCode::Add => self.op_add(event),
            OpCode::Subtract | OpCode::Multiply | OpCode::Divide => self.op_arithmetic(op, event),
            OpCode::Nil => (self.advanced(op).push(ValueView::Nil), ActionView::Continue),
            OpCode::True => (self.advanced(op).push(ValueView::Bool(true)), ActionView::Continue),
            OpCode::False => (self.advanced(op).push(ValueView::Bool(false)), ActionView::Continue),
            OpCode::Not => self.op_not(),
            OpCode::Equal => self.op_equal(),
            OpCode::Greater | OpCode::Less => self.op_compare(op),
            OpCode::Print => self.op_print(),
            OpCode::Pop => self.op_pop(),
            OpCode::DefineGlobal => self.op_define_global(),
            OpCode::GetGlobal => self.op_get_global(),
            OpCode::SetGlobal => self.op_set_global(),
            OpCode::GetLocal => self.op_get_local(),
            OpCode::SetLocal => self.op_set_local(),
            OpCode::JumpIfFalse => self.op_jump_if_false(),
            OpCode::Jump => self.op_jump(),
            OpCode::Loop => self.op_loop(),
            OpCode::Call => self.op_call(event),
            OpCode::Closure => self.op_closure(),
            OpCode::SetUpvalue => self.op_set_upvalue(),
            OpCode::GetUpvalue => self.op_get_upvalue(),
            OpCode::CloseUpvalue => self.op_close_upvalue(),
        }
    }

    /// The operation at the instruction offset of the running frame, if there is one with all
    /// its operand bytes.
    pub open spec fn decode(self) -> Option<OpCode> {
        let ip = self.frame().ip as int;
        if ip < self.code().len() {
            match OpCode::of_byte(self.code()[ip]) {
                Some(op) => if ip + 1 + operand_bytes(op) <= self.code().len() {
                    Some(op)
                } else {
                    None
                },
                None => None,
            }
        } else {
            None
        }
    }

    /// The machine made ready to run a compiled source, whose last function is its top-level
    /// code: what was left of an earlier run is cleared away, the functions become a new unit,
    /// and the top-level code is called as a closure that sits in slot 0.
    pub open spec fn load(self, functions: Seq<FunctionView>) -> VMView {
        let closure = ClosureView {
            unit: self.units.len() as usize,
            function: (functions.len() - 1) as usize,
            upvalues: Seq::empty(),
        };
        VMView {
            frames: seq![CallFrameView { closure, ip: 0, slots: 0 }],
            stack: seq![ValueView::Closure(closure)],
            units: self.units.push(functions),
            ..self.close_upvalues(0)
        }
    }

    /// The machine and its first action after it is given what a compilation gave: if the
    /// source compiled, its functions are loaded and the machine can take its first step; if
    /// not, the machine is as it was, and the action hands the diagnostics on.
    pub open spec fn interpret(
        self,
        compiled: Result<Seq<FunctionView>, Seq<DiagnosticView>>,
    ) -> (VMView, ActionView) {
        match compiled {
            Ok(functions) => (self.load(functions), ActionView::Continue),
            Err(diagnostics) => (self, ActionView::Rejected(diagnostics)),
        }
    }

    /// The machine after it ran on its own: steps are taken as long as the action is
    /// `Continue`, at most `fuel` steps after the first. The event is for the first step.
    pub open spec fn run(self, event: EventView, fuel: nat) -> (VMView, ActionView)
        decreases fuel,
    {
        let (next, action) = self.step(event);
        if action == ActionView::Continue && fuel > 0 {
            next.run(EventView::Resume, (fuel - 1) as nat)
        } else {
            (next, action)
        }
    }

    /// One step of the machine: with no frame there is nothing to run; else the instruction at
    /// the instruction offset is executed.
    pub open spec fn step(self, event: EventView) -> (VMView, ActionView) {
        if self.frames.len() == 0 {
            (self, ActionView::Done)
        } else {
            match self.decode() {
                Some(op) => self.execute(op, event),
                None => self.fault(malformed_message()),
            }
        }
    }
}

/// A test of the top of the stack leaves the stack as it is: a conditional jump removes
/// nothing, whether it jumps or not. With a falsey value on top the machine goes on behind the
/// jumped-over code, else with the instruction behind the jump.
pub proof fn lemma_jump_if_false(vm: VMView, event: EventView)
    requires
        vm.frames.len() > 0,
        vm.code().len() <= usize::MAX,
        vm.decode() == Some(OpCode::JumpIfFalse),
        vm.stack.len() > 0,
        vm.frame().ip + 3 + vm.jump_distance() <= vm.code().len(),
    ensures
        vm.step(event).1 == ActionView::Continue,
        vm.step(event).0.stack == vm.stack,
        vm.step(event).0.frames.len() == vm.frames.len(),
        vm.step(event).0.frame().ip == if is_falsey_spec(vm.peek(0)) {
            vm.frame().ip + 3 + vm.jump_distance()
        } else {
            vm.frame().ip + 3
        },
{
}

/// The code of `and` is a conditional jump over a `Pop` and the right operand. Where the left
/// operand is falsey, one step takes the machine behind the right operand, which is not
/// evaluated, and the left operand stays on the stack as the one value of the expression.
pub proof fn lemma_and_short_circuit(vm: VMView, event: EventView)
    requires
        vm.frames.len() > 0,
        vm.code().len() <= usize::MAX,
        vm.decode() == Some(OpCode::JumpIfFalse),
        vm.stack.len() > 0,
        is_falsey_spec(vm.peek(0)),
        vm.frame().ip + 3 + vm.jump_distance() <= vm.code().len(),
    ensures
        vm.step(event).0.stack == vm.stack,
        vm.step(event).0.frame().ip == vm.frame().ip + 3 + vm.jump_distance(),
        vm.step(event).0.code() == vm.code(),
{
}

/// Where the left operand of `and` is truthy, two steps remove it from the stack and take the
/// machine to the right operand, whose value is then the one value of the expression.
pub proof fn lemma_and_evaluates_the_right_operand(vm: VMView, first: EventView, second: EventView)
    requires
        vm.frames.len() > 0,
        vm.code().len() <= usize::MAX,
        vm.decode() == Some(OpCode::JumpIfFalse),
        vm.stack.len() > 0,
        !is_falsey_spec(vm.peek(0)),
        vm.frame().ip + 3 + vm.jump_distance() <= vm.code().len(),
        vm.frame().ip + 3 < vm.code().len(),
        vm.code()[vm.frame().ip + 3] == OpCode::Pop.byte(),
    ensures
        vm.step(first).0.step(second).0.stack == vm.stack.drop_last(),
        vm.step(first).0.step(second).0.frame().ip == vm.frame().ip + 4,
        vm.step(first).0.step(second).1 == ActionView::Continue,
{
    let after = vm.step(first).0;
    assert(after.frame().closure == vm.frame().closure);
    assert(after.units == vm.units);
    assert(after.code() == vm.code());
    assert(after.decode() == Some(OpCode::Pop));
    assert(after.stack.take(after.stack.len() - 1) =~= vm.stack.drop_last());
}

/// The code of `or` is a conditional jump over an unconditional one, which jumps over a `Pop`
/// and the right operand. Where the left operand is truthy, two steps take the machine behind
/// the right operand, which is not evaluated, and the left operand stays on the stack as the
/// one value of the expression.
pub proof fn lemma_or_short_circuit(vm: VMView, first: EventView, second: EventView)
    requires
        vm.frames.len() > 0,
        vm.code().len() <= usize::MAX,
        vm.decode() == Some(OpCode::JumpIfFalse),
        vm.stack.len() > 0,
        !is_falsey_spec(vm.peek(0)),
        vm.frame().ip + 3 + vm.jump_distance() <= vm.code().len(),
        vm.frame().ip + 6 <= vm.code().len(),
        vm.code()[vm.frame().ip + 3] == OpCode::Jump.byte(),
        vm.frame().ip + 6 + short_of(vm.code()[vm.frame().ip + 4], vm.code()[vm.frame().ip + 5])
            <= vm.code().len(),
    ensures
        vm.step(first).0.step(second).0.stack == vm.stack,
        vm.step(first).0.step(second).0.frame().ip == vm.frame().ip + 6 + short_of(
            vm.code()[vm.frame().ip + 4],
            vm.code()[vm.frame().ip + 5],
        ),
        vm.step(first).0.step(second).1 == ActionView::Continue,
{
    let after = vm.step(first).0;
    assert(after.frame().closure == vm.frame().closure);
    assert(after.units == vm.units);
    assert(after.code() == vm.code());
    assert(after.decode() == Some(OpCode::Jump));
}

} // verus!
