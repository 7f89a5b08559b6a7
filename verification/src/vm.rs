//! The stack virtual machine.
//!
//! The machine runs one instruction at a time. What it cannot do itself (arithmetic on
//! doubles, printing, calling the host's own functions) it asks of its host as an [`Action`],
//! and the host answers with an [`Event`].

use vstd::prelude::*;
use crate::chunk::OpCode;
use crate::compiler::Compiler;
use crate::diagnostic::Diagnostic;
use crate::diagnostic::diagnostics_view;
use crate::globals::Globals;
use crate::globals::GlobalsView;
use crate::grammar::compile_spec;
use crate::text::push_decimal;
use crate::text::push_text;
use crate::text::strings_view;
use crate::value::Closure;
use crate::value::ClosureView;
use crate::value::Function;
use crate::value::FunctionType;
use crate::value::FunctionView;
use crate::value::NativeFunction;
use crate::value::Value;
use crate::value::ValueView;
use crate::value::functions_view;
use crate::value::less_than;
use crate::value::values_view;
use crate::vm_model::ActionView;
use crate::vm_model::CallFrameView;
use crate::vm_model::EventView;
use crate::vm_model::FRAMES_MAX;
use crate::vm_model::UpvalueView;
use crate::vm_model::VMView;
use crate::vm_model::operand_bytes;

verus! {

/// How an interpretation ended.
#[derive(Debug, Clone, Copy, PartialEq, Eq, Structural)]
pub enum InterpretResult {
    Success,
    CompileError,
    RuntimeError,
}

/// The execution context of one active call.
#[derive(Debug)]
pub struct CallFrame {
    closure: Closure,
    ip: usize,
    /// Where this frame's slots begin in the stack of the machine.
    slots: usize,
}

impl View for CallFrame {
    type V = CallFrameView;

    closed spec fn view(&self) -> CallFrameView {
        CallFrameView { closure: self.closure@, ip: self.ip, slots: self.slots }
    }
}

impl CallFrame {
    pub fn new(closure: Closure, ip: usize, slots: usize) -> (r: CallFrame)
        ensures
            r@ == (CallFrameView { closure: closure@, ip, slots }),
    {
        CallFrame { closure, ip, slots }
    }

    pub fn closure(&self) -> (r: &Closure)
        ensures
            r@ == self@.closure,
    {
        &self.closure
    }

    pub fn ip(&self) -> (r: usize)
        ensures
            r == self@.ip,
    {
        self.ip
    }

    pub fn slots(&self) -> (r: usize)
        ensures
            r == self@.slots,
    {
        self.slots
    }
}

/// The cell of a captured variable.
#[derive(Debug)]
pub enum Upvalue {
    /// The variable still lives in the stack slot with this index.
    Open(usize),
    /// The variable outlived its slot, and the cell owns its value.
    Closed(Value),
}

impl View for Upvalue {
    type V = UpvalueView;

    open spec fn view(&self) -> UpvalueView {
        match self {
            Upvalue::Open(slot) => UpvalueView::Open(*slot),
            Upvalue::Closed(v) => UpvalueView::Closed(v@),
        }
    }
}

/// What the host hands to the machine with a step.
#[derive(Debug)]
pub enum Event {
    /// Nothing: the machine goes on, or asks again for what it is waiting for.
    Resume,
    /// The result of the arithmetic that the machine asked for.
    Number(u64),
    /// What the host's function returned.
    Value(Value),
}

impl View for Event {
    type V = EventView;

    open spec fn view(&self) -> EventView {
        match self {
            Event::Resume => EventView::Resume,
            Event::Number(n) => EventView::Number(*n),
            Event::Value(v) => EventView::Value(v@),
        }
    }
}

/// What the machine asks of its host after a step.
#[derive(Debug)]
pub enum Action {
    /// Nothing: take the next step.
    Continue,
    /// Write this text and a newline to the output.
    Print(String),
    /// Write this number and a newline to the output.
    PrintNumber(u64),
    /// Compute `Add`, `Subtract`, `Multiply` or `Divide` on the two numbers, the left one
    /// first, and hand the result back as [`Event::Number`].
    Arithmetic(OpCode, u64, u64),
    /// Call the host's function on the arguments and hand the result back as
    /// [`Event::Value`].
    CallNative(NativeFunction, Vec<Value>),
    /// The program ran to its end.
    Done,
    /// The program stopped with a runtime error: the message and the stack trace, the running
    /// call first.
    Fault(String, Vec<String>),
    /// The source did not compile: the diagnostics in the order they were found.
    Rejected(Vec<Diagnostic>),
}

impl View for Action {
    type V = ActionView;

    open spec fn view(&self) -> ActionView {
        match self {
            Action::Continue => ActionView::Continue,
            Action::Print(s) => ActionView::Print(s@),
            Action::PrintNumber(n) => ActionView::PrintNumber(*n),
            Action::Arithmetic(op, a, b) => ActionView::Arithmetic(*op, *a, *b),
            Action::CallNative(f, args) => ActionView::CallNative(f.0, values_view(args@)),
            Action::Done => ActionView::Done,
            Action::Fault(message, trace) => ActionView::Fault(message@, strings_view(trace@)),
            Action::Rejected(diagnostics) => ActionView::Rejected(
                diagnostics_view(diagnostics@),
            ),
        }
    }
}

impl Action {
    /// Does the action ask nothing of the host?
    pub fn is_continue(&self) -> (r: bool)
        ensures
            r == (self@ == ActionView::Continue),
    {
        match self {
            Action::Continue => true,
            _ => false,
        }
    }

    /// How the interpretation ended, if this action ends it.
    pub fn status(&self) -> (r: Option<InterpretResult>)
        ensures
            r == match self@ {
                ActionView::Done => Some(InterpretResult::Success),
                ActionView::Fault(_, _) => Some(InterpretResult::RuntimeError),
                ActionView::Rejected(_) => Some(InterpretResult::CompileError),
                _ => None,
            },
    {
        match self {
            Action::Done => Some(InterpretResult::Success),
            Action::Fault(_, _) => Some(InterpretResult::RuntimeError),
            Action::Rejected(_) => Some(InterpretResult::CompileError),
            _ => None,
        }
    }
}

/// The views of a sequence of call frames.
pub open spec fn frames_view(s: Seq<CallFrame>) -> Seq<CallFrameView> {
    Seq::new(s.len(), |i: int| s[i]@)
}

/// The views of a sequence of cells.
pub open spec fn cells_view(s: Seq<Upvalue>) -> Seq<UpvalueView> {
    Seq::new(s.len(), |i: int| s[i]@)
}

/// The views of a sequence of units.
pub open spec fn units_view(s: Seq<Vec<Function>>) -> Seq<Seq<FunctionView>> {
    Seq::new(s.len(), |i: int| functions_view(s[i]@))
}

/// The number of the host's function `clock`, which returns the seconds since the epoch as a
/// number.
pub const NATIVE_CLOCK: usize = 0;

/// The virtual machine.
#[derive(Debug)]
pub struct VM {
    frames: Vec<CallFrame>,
    stack: Vec<Value>,
    globals: Globals,
    units: Vec<Vec<Function>>,
    cells: Vec<Upvalue>,
    open_upvalues: Vec<usize>,
}

impl View for VM {
    type V = VMView;

    closed spec fn view(&self) -> VMView {
        VMView {
            frames: frames_view(self.frames@),
            stack: values_view(self.stack@),
            globals: self.globals@,
            units: units_view(self.units@),
            cells: cells_view(self.cells@),
            open_upvalues: self.open_upvalues@,
        }
    }
}

/// The machine before anything ran: only the host's function `clock` is defined.
pub open spec fn initial_vm() -> VMView {
    VMView {
        frames: Seq::empty(),
        stack: Seq::empty(),
        globals: GlobalsView::empty().insert("clock"@, ValueView::NativeFunc(NATIVE_CLOCK)),
        units: Seq::empty(),
        cells: Seq::empty(),
        open_upvalues: Seq::empty(),
    }
}

fn operand_count(op: OpCode) -> (r: usize)
    ensures
        r == operand_bytes(op),
{
    match op {
        OpCode::Constant
        | OpCode::DefineGlobal
        | OpCode::GetGlobal
        | OpCode::SetGlobal
        | OpCode::GetLocal
        | OpCode::SetLocal
        | OpCode::GetUpvalue
        | OpCode::SetUpvalue
        | OpCode::Call
        | OpCode::Closure => 1,
        OpCode::Jump | OpCode::JumpIfFalse | OpCode::Loop => 2,
        _ => 0,
    }
}

impl VM {
    pub fn new() -> (r: VM)
        ensures
            r@ == initial_vm(),
            r@.wf(),
    {
        let mut vm = VM {
            frames: Vec::new(),
            stack: Vec::new(),
            globals: Globals::new(),
            units: Vec::new(),
            cells: Vec::new(),
            open_upvalues: Vec::new(),
        };
        vm.define_native("clock", NativeFunction(NATIVE_CLOCK));
        assert(vm@.frames =~= Seq::<CallFrameView>::empty());
        assert(vm@.stack =~= Seq::<ValueView>::empty());
        assert(vm@.units =~= Seq::<Seq<FunctionView>>::empty());
        assert(vm@.cells =~= Seq::<UpvalueView>::empty());
        vm
    }

    /// Binds a global name to a function of the host.
    fn define_native(&mut self, name: &str, native: NativeFunction)
        requires
            old(self)@.globals.wf(),
        ensures
            final(self)@ == (VMView {
                globals: old(self)@.globals.insert(name@, ValueView::NativeFunc(native.0)),
                ..old(self)@
            }),
            final(self)@.globals.wf(),
    {
        self.globals.insert(name.to_owned(), Value::NativeFunc(native));
    }

    /// The frame of the call that is running.
    pub fn current_frame(&self) -> (r: &CallFrame)
        requires
            self@.frames.len() > 0,
        ensures
            r@ == self@.frame(),
    {
        &self.frames[self.frames.len() - 1]
    }

    /// How many values are on the stack.
    pub fn stack_len(&self) -> (r: usize)
        ensures
            r == self@.stack.len(),
    {
        self.stack.len()
    }

    /// How many calls are active.
    pub fn frame_count(&self) -> (r: usize)
        ensures
            r == self@.frames.len(),
    {
        self.frames.len()
    }

    /// The value bound to a global name, if it is bound.
    pub fn global(&self, name: &String) -> (r: Option<Value>)
        requires
            self@.wf(),
        ensures
            r is Some == self@.globals.contains(name@),
            r is Some ==> r->0@ == self@.globals.get(name@),
    {
        self.globals.get(name)
    }

    fn push(&mut self, v: Value)
        requires
            old(self)@.wf(),
        ensures
            final(self)@ == old(self)@.push(v@),
            final(self)@.wf(),
    {
        self.stack.push(v);
        let _ = self.stack.len();
        assert(self@.stack =~= old(self)@.stack.push(v@));
    }

    /// Removes the top `n` values of the stack.
    fn drop_values(&mut self, n: usize)
        requires
            old(self)@.wf(),
            n <= old(self)@.stack.len(),
        ensures
            final(self)@ == old(self)@.drop(n as int),
            final(self)@.wf(),
    {
        let len = self.stack.len() - n;
        self.stack.truncate(len);
        assert(self@.stack =~= old(self)@.stack.take(old(self)@.stack.len() - n));
    }

    /// A copy of the value `distance` places below the top of the stack.
    fn peek(&self, distance: usize) -> (r: Value)
        requires
            distance < self@.stack.len(),
        ensures
            r@ == self@.peek(distance as int),
    {
        self.stack[self.stack.len() - 1 - distance].clone()
    }

    fn set_slot(&mut self, i: usize, v: Value)
        requires
            old(self)@.wf(),
            i < old(self)@.stack.len(),
        ensures
            final(self)@ == (VMView { stack: old(self)@.stack.update(i as int, v@), ..old(self)@ }),
            final(self)@.wf(),
    {
        self.stack[i] = v;
        assert(self@.stack =~= old(self)@.stack.update(i as int, v@));
    }

    fn set_cell(&mut self, i: usize, cell: Upvalue)
        requires
            old(self)@.wf(),
            i < old(self)@.cells.len(),
        ensures
            final(self)@ == (VMView { cells: old(self)@.cells.update(i as int, cell@), ..old(self)@ }),
            final(self)@.wf(),
    {
        self.cells[i] = cell;
        assert(self@.cells =~= old(self)@.cells.update(i as int, cell@));
    }

    /// Sets the instruction offset of the running frame.
    fn set_ip(&mut self, ip: usize)
        requires
            old(self)@.wf(),
            old(self)@.frames.len() > 0,
            ip <= old(self)@.code().len(),
        ensures
            final(self)@ == old(self)@.jump_to(ip as int),
            final(self)@.wf(),
    {
        let n = self.frames.len();
        self.frames[n - 1].ip = ip;
        assert(self@.frames =~= old(self)@.frames.update(
            n - 1,
            CallFrameView { ip, ..old(self)@.frame() },
        ));
        assert forall|i: int| 0 <= i < self@.frames.len() implies self@.frame_ok(
            #[trigger] self@.frames[i],
        ) by {
            assert(old(self)@.frame_ok(old(self)@.frames[i]));
        }
        assert(self@.open_upvalues == old(self)@.open_upvalues);
        assert(self@.cells == old(self)@.cells);
        assert(self@.wf());
    }
}

impl VM {
    /// The operation at the instruction offset, if there is one with all its operand bytes.
    fn decode(&self) -> (r: Option<OpCode>)
        requires
            self@.wf(),
            self@.frames.len() > 0,
        ensures
            r == self@.decode(),
    {
        let frame = &self.frames[self.frames.len() - 1];
        assert(self@.frame_ok(self@.frames[self@.frames.len() - 1]));
        let code = &self.units[frame.closure.unit][frame.closure.function].chunk.code;
        if frame.ip >= code.len() {
            return None;
        }
        match OpCode::from_byte(code[frame.ip]) {
            None => None,
            Some(op) => {
                if code.len() - frame.ip - 1 >= operand_count(op) {
                    Some(op)
                } else {
                    None
                }
            },
        }
    }

    /// The byte at the given distance behind the instruction offset.
    fn read_byte(&self, distance: usize) -> (r: u8)
        requires
            self@.wf(),
            self@.frames.len() > 0,
            self@.frame().ip + distance < self@.code().len(),
        ensures
            r == self@.code()[self@.frame().ip + distance],
    {
        let frame = &self.frames[self.frames.len() - 1];
        assert(self@.frame_ok(self@.frames[self@.frames.len() - 1]));
        let code = &self.units[frame.closure.unit][frame.closure.function].chunk.code;
        let _ = code.len();
        code[frame.ip + distance]
    }

    /// The number that the two operand bytes of a jump give.
    fn read_short(&self) -> (r: usize)
        requires
            self@.wf(),
            self@.frames.len() > 0,
            self@.frame().ip + 2 < self@.code().len(),
        ensures
            r == self@.jump_distance(),
            r <= 0xFFFF,
    {
        let high = self.read_byte(1);
        let low = self.read_byte(2);
        high as usize * 256 + low as usize
    }

    /// A copy of the constant with the given index, if there is one.
    fn read_constant(&self, idx: usize) -> (r: Option<Value>)
        requires
            self@.wf(),
            self@.frames.len() > 0,
        ensures
            r is Some == (idx < self@.constants().len()),
            r is Some ==> r->0@ == self@.constants()[idx as int],
    {
        let frame = &self.frames[self.frames.len() - 1];
        assert(self@.frame_ok(self@.frames[self@.frames.len() - 1]));
        let constants = &self.units[frame.closure.unit][frame.closure.function].chunk.constants;
        if idx < constants.values.len() {
            Some(constants.values[idx].clone())
        } else {
            None
        }
    }

    /// Moves the instruction offset behind the operation and its operands.
    fn advance(&mut self, op: OpCode)
        requires
            old(self)@.wf(),
            old(self)@.frames.len() > 0,
            old(self)@.decode() == Some(op),
        ensures
            final(self)@ == old(self)@.advanced(op),
            final(self)@.wf(),
    {
        let frame = &self.frames[self.frames.len() - 1];
        assert(self@.frame_ok(self@.frames[self@.frames.len() - 1]));
        let ip = frame.ip;
        let _ = self.units[frame.closure.unit][frame.closure.function].chunk.code.len();
        self.set_ip(ip + 1 + operand_count(op));
    }

    /// The line of the stack trace for the frame with the given index.
    fn trace_line(&self, i: usize) -> (r: String)
        requires
            self@.wf(),
            i < self@.frames.len(),
        ensures
            r@ == self@.trace_line(self@.frames[i as int]),
    {
        let frame = &self.frames[i];
        assert(self@.frame_ok(self@.frames[i as int]));
        let function = &self.units[frame.closure.unit][frame.closure.function];
        let line = if 0 < frame.ip && frame.ip <= function.chunk.lines.len() {
            function.chunk.lines[frame.ip - 1]
        } else {
            0
        };
        let mut out = String::new();
        push_text(&mut out, "[line ");
        push_decimal(&mut out, line);
        push_text(&mut out, "] in ");
        if function.name.as_str().is_empty() {
            push_text(&mut out, "script");
        } else {
            push_text(&mut out, function.name.as_str());
        }
        assert(out@ =~= self@.trace_line(self@.frames[i as int]));
        out
    }

    /// The stack trace, the running call first.
    fn trace(&self) -> (r: Vec<String>)
        requires
            self@.wf(),
        ensures
            strings_view(r@) == self@.trace(),
    {
        let mut out: Vec<String> = Vec::new();
        let n = self.frames.len();
        let mut i: usize = 0;
        while i < n
            invariant
                self@.wf(),
                n == self@.frames.len(),
                i <= n,
                out@.len() == i,
                forall|j: int| 0 <= j < i ==> out@[j]@ == self@.trace()[j],
            decreases n - i,
        {
            let line = self.trace_line(n - 1 - i);
            out.push(line);
            i += 1;
        }
        assert(strings_view(out@) =~= self@.trace());
        out
    }

    /// Closes the open cells of the slots at or above `from`.
    fn close_upvalues(&mut self, from: usize)
        requires
            old(self)@.wf(),
        ensures
            final(self)@ == old(self)@.close_upvalues(from as int),
            final(self)@.wf(),
            final(self)@.frames == old(self)@.frames,
            final(self)@.stack == old(self)@.stack,
            final(self)@.units == old(self)@.units,
            final(self)@.globals == old(self)@.globals,
    {
        loop
            invariant
                self@.wf(),
                self@.close_upvalues(from as int) == old(self)@.close_upvalues(from as int),
                self@.frames == old(self)@.frames,
                self@.stack == old(self)@.stack,
                self@.units == old(self)@.units,
                self@.globals == old(self)@.globals,
            decreases self@.open_upvalues.len(),
        {
            if self.open_upvalues.len() == 0 {
                return ;
            }
            let head = self.open_upvalues[0];
            let ghost before = self@;
            let slot = match &self.cells[head] {
                Upvalue::Closed(_) => None,
                Upvalue::Open(slot) => Some(*slot),
            };
            match slot {
                None => {
                    self.open_upvalues.remove(0);
                    assert(self@.open_upvalues =~= before.open_upvalues.drop_first());
                },
                Some(slot) => {
                    if slot >= from {
                        let value = if slot < self.stack.len() {
                            self.stack[slot].clone()
                        } else {
                            Value::Nil
                        };
                        self.set_cell(head, Upvalue::Closed(value));
                        self.open_upvalues.remove(0);
                        assert(self@.open_upvalues =~= before.open_upvalues.drop_first());
                    } else {
                        return ;
                    }
                },
            }
        }
    }

    /// Ends the run with a runtime error.
    fn fault(&mut self, message: String) -> (action: Action)
        requires
            old(self)@.wf(),
        ensures
            (final(self)@, action@) == old(self)@.fault(message@),
            final(self)@.wf(),
    {
        let trace = self.trace();
        self.close_upvalues(0);
        self.stack.clear();
        self.frames.clear();
        assert(self@.stack =~= Seq::<ValueView>::empty());
        assert(self@.frames =~= Seq::<CallFrameView>::empty());
        Action::Fault(message, trace)
    }

    /// Ends the run with a runtime error in the instruction `op`.
    fn fail(&mut self, op: OpCode, message: &str) -> (action: Action)
        requires
            old(self)@.wf(),
            old(self)@.frames.len() > 0,
            old(self)@.decode() == Some(op),
        ensures
            (final(self)@, action@) == old(self)@.fail(op, message@),
            final(self)@.wf(),
    {
        self.advance(op);
        self.fault(message.to_owned())
    }

    /// Ends the run with a runtime error in the instruction `op`.
    fn fail_with(&mut self, op: OpCode, message: String) -> (action: Action)
        requires
            old(self)@.wf(),
            old(self)@.frames.len() > 0,
            old(self)@.decode() == Some(op),
        ensures
            (final(self)@, action@) == old(self)@.fail(op, message@),
            final(self)@.wf(),
    {
        self.advance(op);
        self.fault(message)
    }
}

impl VM {
    fn op_constant(&mut self) -> (action: Action)
        requires
            old(self)@.wf(),
            old(self)@.frames.len() > 0,
            old(self)@.decode() == Some(OpCode::Constant),
        ensures
            (final(self)@, action@) == old(self)@.op_constant(),
            final(self)@.wf(),
    {
        let idx = self.read_byte(1) as usize;
        match self.read_constant(idx) {
            Some(v) => {
                self.advance(OpCode::Constant);
                self.push(v);
                Action::Continue
            },
            None => self.fail(OpCode::Constant, "Malformed bytecode."),
        }
    }

    /// `Nil`, `True` and `False`.
    fn op_literal(&mut self, op: OpCode, v: Value) -> (action: Action)
        requires
            old(self)@.wf(),
            old(self)@.frames.len() > 0,
            old(self)@.decode() == Some(op),
        ensures
            (final(self)@, action@) == (old(self)@.advanced(op).push(v@), ActionView::Continue),
            final(self)@.wf(),
    {
        self.advance(op);
        self.push(v);
        Action::Continue
    }

    fn op_pop(&mut self) -> (action: Action)
        requires
            old(self)@.wf(),
            old(self)@.frames.len() > 0,
            old(self)@.decode() == Some(OpCode::Pop),
        ensures
            (final(self)@, action@) == old(self)@.op_pop(),
            final(self)@.wf(),
    {
        if self.stack.len() > 0 {
            self.advance(OpCode::Pop);
            self.drop_values(1);
            Action::Continue
        } else {
            self.fail(OpCode::Pop, "Malformed bytecode.")
        }
    }

    /// The stack index of the slot that the operand of a local-variable instruction names, if it
    /// is on the stack.
    fn local_index(&self) -> (r: Option<usize>)
        requires
            self@.wf(),
            self@.frames.len() > 0,
            self@.frame().ip + 1 < self@.code().len(),
        ensures
            r is Some == (self@.frame().slots + self@.operand(0) < self@.stack.len()),
            r is Some ==> r->0 == self@.frame().slots + self@.operand(0),
    {
        let slot = self.read_byte(1) as usize;
        let slots = self.frames[self.frames.len() - 1].slots;
        if slots < self.stack.len() && slot < self.stack.len() - slots {
            Some(slots + slot)
        } else {
            None
        }
    }

    fn op_get_local(&mut self) -> (action: Action)
        requires
            old(self)@.wf(),
            old(self)@.frames.len() > 0,
            old(self)@.decode() == Some(OpCode::GetLocal),
        ensures
            (final(self)@, action@) == old(self)@.op_get_local(),
            final(self)@.wf(),
    {
        match self.local_index() {
            Some(i) => {
                let v = self.stack[i].clone();
                self.advance(OpCode::GetLocal);
                self.push(v);
                Action::Continue
            },
            None => self.fail(OpCode::GetLocal, "Malformed bytecode."),
        }
    }

    fn op_set_local(&mut self) -> (action: Action)
        requires
            old(self)@.wf(),
            old(self)@.frames.len() > 0,
            old(self)@.decode() == Some(OpCode::SetLocal),
        ensures
            (final(self)@, action@) == old(self)@.op_set_local(),
            final(self)@.wf(),
    {
        match self.local_index() {
            Some(i) => {
                let v = self.peek(0);
                self.advance(OpCode::SetLocal);
                self.set_slot(i, v);
                Action::Continue
            },
            None => self.fail(OpCode::SetLocal, "Malformed bytecode."),
        }
    }

    /// The name that the operand of a global-variable instruction stands for, if it is one.
    fn global_name(&self) -> (r: Option<String>)
        requires
            self@.wf(),
            self@.frames.len() > 0,
            self@.frame().ip + 1 < self@.code().len(),
        ensures
            r is Some == self@.global_name() is Some,
            r is Some ==> r->0@ == self@.global_name()->0,
    {
        let idx = self.read_byte(1) as usize;
        match self.read_constant(idx) {
            Some(Value::String(name)) => Some(name),
            _ => None,
        }
    }

    fn op_get_global(&mut self) -> (action: Action)
        requires
            old(self)@.wf(),
            old(self)@.frames.len() > 0,
            old(self)@.decode() == Some(OpCode::GetGlobal),
        ensures
            (final(self)@, action@) == old(self)@.op_get_global(),
            final(self)@.wf(),
    {
        match self.global_name() {
            Some(name) => {
                match self.globals.get(&name) {
                    Some(v) => {
                        self.advance(OpCode::GetGlobal);
                        self.push(v);
                        Action::Continue
                    },
                    None => {
                        let message = undefined_variable(&name);
                        self.fail_with(OpCode::GetGlobal, message)
                    },
                }
            },
            None => self.fail(OpCode::GetGlobal, "Malformed bytecode."),
        }
    }

    fn op_define_global(&mut self) -> (action: Action)
        requires
            old(self)@.wf(),
            old(self)@.frames.len() > 0,
            old(self)@.decode() == Some(OpCode::DefineGlobal),
        ensures
            (final(self)@, action@) == old(self)@.op_define_global(),
            final(self)@.wf(),
    {
        match self.global_name() {
            Some(name) => {
                if self.stack.len() > 0 {
                    let v = self.peek(0);
                    self.advance(OpCode::DefineGlobal);
                    self.drop_values(1);
                    self.globals.insert(name, v);
                    Action::Continue
                } else {
                    self.fail(OpCode::DefineGlobal, "Malformed bytecode.")
                }
            },
            None => self.fail(OpCode::DefineGlobal, "Malformed bytecode."),
        }
    }

    fn op_set_global(&mut self) -> (action: Action)
        requires
            old(self)@.wf(),
            old(self)@.frames.len() > 0,
            old(self)@.decode() == Some(OpCode::SetGlobal),
        ensures
            (final(self)@, action@) == old(self)@.op_set_global(),
            final(self)@.wf(),
    {
        match self.global_name() {
            Some(name) => {
                if self.stack.len() == 0 {
                    self.fail(OpCode::SetGlobal, "Malformed bytecode.")
                } else if self.globals.contains_key(&name) {
                    let v = self.peek(0);
                    self.advance(OpCode::SetGlobal);
                    self.globals.insert(name, v);
                    Action::Continue
                } else {
                    let message = undefined_variable(&name);
                    self.fail_with(OpCode::SetGlobal, message)
                }
            },
            None => self.fail(OpCode::SetGlobal, "Malformed bytecode."),
        }
    }

    /// The cell that the operand of an upvalue instruction stands for, if there is one.
    fn upvalue_cell(&self) -> (r: Option<usize>)
        requires
            self@.wf(),
            self@.frames.len() > 0,
            self@.frame().ip + 1 < self@.code().len(),
        ensures
            r == self@.upvalue_cell(),
    {
        let idx = self.read_byte(1) as usize;
        let upvalues = &self.frames[self.frames.len() - 1].closure.upvalues;
        if idx < upvalues.len() && upvalues[idx] < self.cells.len() {
            Some(upvalues[idx])
        } else {
            None
        }
    }

    fn op_get_upvalue(&mut self) -> (action: Action)
        requires
            old(self)@.wf(),
            old(self)@.frames.len() > 0,
            old(self)@.decode() == Some(OpCode::GetUpvalue),
        ensures
            (final(self)@, action@) == old(self)@.op_get_upvalue(),
            final(self)@.wf(),
    {
        match self.upvalue_cell() {
            Some(cell) => {
                let found = match &self.cells[cell] {
                    Upvalue::Open(slot) => {
                        if *slot < self.stack.len() {
                            Some(self.stack[*slot].clone())
                        } else {
                            None
                        }
                    },
                    Upvalue::Closed(v) => Some(v.clone()),
                };
                match found {
                    Some(v) => {
                        self.advance(OpCode::GetUpvalue);
                        self.push(v);
                        Action::Continue
                    },
                    None => self.fail(OpCode::GetUpvalue, "Malformed bytecode."),
                }
            },
            None => self.fail(OpCode::GetUpvalue, "Malformed bytecode."),
        }
    }

    fn op_set_upvalue(&mut self) -> (action: Action)
        requires
            old(self)@.wf(),
            old(self)@.frames.len() > 0,
            old(self)@.decode() == Some(OpCode::SetUpvalue),
        ensures
            (final(self)@, action@) == old(self)@.op_set_upvalue(),
            final(self)@.wf(),
    {
        match self.upvalue_cell() {
            Some(cell) => {
                if self.stack.len() == 0 {
                    self.fail(OpCode::SetUpvalue, "Malformed bytecode.")
                } else {
                    let v = self.peek(0);
                    let slot = match &self.cells[cell] {
                        Upvalue::Open(slot) => Some(*slot),
                        Upvalue::Closed(_) => None,
                    };
                    match slot {
                        Some(slot) => {
                            if slot < self.stack.len() {
                                self.advance(OpCode::SetUpvalue);
                                self.set_slot(slot, v);
                                Action::Continue
                            } else {
                                self.fail(OpCode::SetUpvalue, "Malformed bytecode.")
                            }
                        },
                        None => {
                            self.advance(OpCode::SetUpvalue);
                            self.set_cell(cell, Upvalue::Closed(v));
                            Action::Continue
                        },
                    }
                }
            },
            None => self.fail(OpCode::SetUpvalue, "Malformed bytecode."),
        }
    }

    fn op_equal(&mut self) -> (action: Action)
        requires
            old(self)@.wf(),
            old(self)@.frames.len() > 0,
            old(self)@.decode() == Some(OpCode::Equal),
        ensures
            (final(self)@, action@) == old(self)@.op_equal(),
            final(self)@.wf(),
    {
        if self.stack.len() >= 2 {
            let n = self.stack.len();
            let equal = self.stack[n - 2].values_equal(&self.stack[n - 1]);
            self.advance(OpCode::Equal);
            self.drop_values(2);
            self.push(Value::Bool(equal));
            Action::Continue
        } else {
            self.fail(OpCode::Equal, "Malformed bytecode.")
        }
    }

    /// The two numbers on top of the stack, the lower one first, if both are numbers.
    fn number_operands(&self) -> (r: Option<(u64, u64)>)
        requires
            self@.stack.len() >= 2,
        ensures
            r == match (self@.peek(1), self@.peek(0)) {
                (ValueView::Number(a), ValueView::Number(b)) => Some((a, b)),
                _ => None,
            },
    {
        let n = self.stack.len();
        match (&self.stack[n - 2], &self.stack[n - 1]) {
            (Value::Number(a), Value::Number(b)) => Some((*a, *b)),
            _ => None,
        }
    }

    fn op_compare(&mut self, op: OpCode) -> (action: Action)
        requires
            old(self)@.wf(),
            old(self)@.frames.len() > 0,
            old(self)@.decode() == Some(op),
            op == OpCode::Greater || op == OpCode::Less,
        ensures
            (final(self)@, action@) == old(self)@.op_compare(op),
            final(self)@.wf(),
    {
        if self.stack.len() >= 2 {
            match self.number_operands() {
                Some((a, b)) => {
                    let r = match op {
                        OpCode::Greater => less_than(b, a),
                        _ => less_than(a, b),
                    };
                    self.advance(op);
                    self.drop_values(2);
                    self.push(Value::Bool(r));
                    Action::Continue
                },
                None => self.fail(op, "Operands must be numbers."),
            }
        } else {
            self.fail(op, "Malformed bytecode.")
        }
    }

    /// Arithmetic on the two numbers on top of the stack: asks the host for the result, or
    /// takes it.
    fn arithmetic(&mut self, op: OpCode, a: u64, b: u64, event: Event) -> (action: Action)
        requires
            old(self)@.wf(),
            old(self)@.frames.len() > 0,
            old(self)@.decode() == Some(op),
            old(self)@.stack.len() >= 2,
        ensures
            (final(self)@, action@) == old(self)@.arithmetic(op, a, b, event@),
            final(self)@.wf(),
    {
        match event {
            Event::Number(result) => {
                self.advance(op);
                self.drop_values(2);
                self.push(Value::Number(result));
                Action::Continue
            },
            _ => Action::Arithmetic(op, a, b),
        }
    }

    /// The two strings on top of the stack joined, the lower one first, if both are strings.
    fn joined_operands(&self) -> (r: Option<String>)
        requires
            self@.stack.len() >= 2,
        ensures
            r is Some == (self@.peek(1) is String && self@.peek(0) is String),
            r is Some ==> r->0@ == self@.peek(1)->String_0 + self@.peek(0)->String_0,
    {
        let n = self.stack.len();
        match (&self.stack[n - 2], &self.stack[n - 1]) {
            (Value::String(a), Value::String(b)) => {
                let mut out = a.clone();
                push_text(&mut out, b.as_str());
                Some(out)
            },
            _ => None,
        }
    }

    fn op_add(&mut self, event: Event) -> (action: Action)
        requires
            old(self)@.wf(),
            old(self)@.frames.len() > 0,
            old(self)@.decode() == Some(OpCode::Add),
        ensures
            (final(self)@, action@) == old(self)@.op_add(event@),
            final(self)@.wf(),
    {
        if self.stack.len() >= 2 {
            match self.number_operands() {
                Some((a, b)) => self.arithmetic(OpCode::Add, a, b, event),
                None => {
                    match self.joined_operands() {
                        Some(joined) => {
                            self.advance(OpCode::Add);
                            self.drop_values(2);
                            self.push(Value::String(joined));
                            Action::Continue
                        },
                        None => self.fail(
                            OpCode::Add,
                            "Operands must be two numbers or two strings.",
                        ),
                    }
                },
            }
        } else {
            self.fail(OpCode::Add, "Malformed bytecode.")
        }
    }

    fn op_arithmetic(&mut self, op: OpCode, event: Event) -> (action: Action)
        requires
            old(self)@.wf(),
            old(self)@.frames.len() > 0,
            old(self)@.decode() == Some(op),
        ensures
            (final(self)@, action@) == old(self)@.op_arithmetic(op, event@),
            final(self)@.wf(),
    {
        if self.stack.len() >= 2 {
            match self.number_operands() {
                Some((a, b)) => self.arithmetic(op, a, b, event),
                None => self.fail(op, "Operands must be numbers."),
            }
        } else {
            self.fail(op, "Malformed bytecode.")
        }
    }

    fn op_not(&mut self) -> (action: Action)
        requires
            old(self)@.wf(),
            old(self)@.frames.len() > 0,
            old(self)@.decode() == Some(OpCode::Not),
        ensures
            (final(self)@, action@) == old(self)@.op_not(),
            final(self)@.wf(),
    {
        if self.stack.len() >= 1 {
            let falsey = self.stack[self.stack.len() - 1].is_falsey();
            self.advance(OpCode::Not);
            self.drop_values(1);
            self.push(Value::Bool(falsey));
            Action::Continue
        } else {
            self.fail(OpCode::Not, "Malformed bytecode.")
        }
    }

    fn op_negate(&mut self) -> (action: Action)
        requires
            old(self)@.wf(),
            old(self)@.frames.len() > 0,
            old(self)@.decode() == Some(OpCode::Negate),
        ensures
            (final(self)@, action@) == old(self)@.op_negate(),
            final(self)@.wf(),
    {
        if self.stack.len() >= 1 {
            let v = self.peek(0);
            match v {
                Value::Number(_) => {
                    self.advance(OpCode::Negate);
                    self.drop_values(1);
                    self.push(v.neg());
                    Action::Continue
                },
                _ => self.fail(OpCode::Negate, "Operand must be a number."),
            }
        } else {
            self.fail(OpCode::Negate, "Malformed bytecode.")
        }
    }

    /// The text that `print` shows for a value that is no number.
    fn display(&self, v: &Value) -> (r: String)
        requires
            self@.wf(),
        ensures
            r@ == self@.display(v@),
    {
        match v {
            Value::Bool(b) => {
                if *b {
                    "true".to_owned()
                } else {
                    "false".to_owned()
                }
            },
            Value::Nil => "nil".to_owned(),
            Value::Number(_) => String::new(),
            Value::String(s) => s.clone(),
            Value::Func(_) => "<fn>".to_owned(),
            Value::NativeFunc(_) => "<native fn>".to_owned(),
            Value::Closure(c) => {
                if c.unit < self.units.len() && c.function < self.units[c.unit].len() {
                    let mut out = "<closure ".to_owned();
                    push_text(&mut out, self.units[c.unit][c.function].name.as_str());
                    push_text(&mut out, ">");
                    out
                } else {
                    "<closure>".to_owned()
                }
            },
        }
    }

    fn op_print(&mut self) -> (action: Action)
        requires
            old(self)@.wf(),
            old(self)@.frames.len() > 0,
            old(self)@.decode() == Some(OpCode::Print),
        ensures
            (final(self)@, action@) == old(self)@.op_print(),
            final(self)@.wf(),
    {
        if self.stack.len() >= 1 {
            let v = self.peek(0);
            let action = match v {
                Value::Number(a) => Action::PrintNumber(a),
                _ => Action::Print(self.display(&v)),
            };
            self.advance(OpCode::Print);
            self.drop_values(1);
            action
        } else {
            self.fail(OpCode::Print, "Malformed bytecode.")
        }
    }

    /// Where a forward jump lands, if that is inside the code or just behind it.
    fn jump_target(&self) -> (r: Option<usize>)
        requires
            self@.wf(),
            self@.frames.len() > 0,
            self@.frame().ip + 2 < self@.code().len(),
        ensures
            r is Some == (self@.frame().ip + 3 + self@.jump_distance() <= self@.code().len()),
            r is Some ==> r->0 == self@.frame().ip + 3 + self@.jump_distance(),
    {
        let distance = self.read_short();
        let frame = &self.frames[self.frames.len() - 1];
        assert(self@.frame_ok(self@.frames[self@.frames.len() - 1]));
        let len = self.units[frame.closure.unit][frame.closure.function].chunk.code.len();
        if distance <= len - frame.ip - 3 {
            Some(frame.ip + 3 + distance)
        } else {
            None
        }
    }

    fn op_jump(&mut self) -> (action: Action)
        requires
            old(self)@.wf(),
            old(self)@.frames.len() > 0,
            old(self)@.decode() == Some(OpCode::Jump),
        ensures
            (final(self)@, action@) == old(self)@.op_jump(),
            final(self)@.wf(),
    {
        match self.jump_target() {
            Some(target) => {
                self.set_ip(target);
                Action::Continue
            },
            None => self.fail(OpCode::Jump, "Malformed bytecode."),
        }
    }

    fn op_jump_if_false(&mut self) -> (action: Action)
        requires
            old(self)@.wf(),
            old(self)@.frames.len() > 0,
            old(self)@.decode() == Some(OpCode::JumpIfFalse),
        ensures
            (final(self)@, action@) == old(self)@.op_jump_if_false(),
            final(self)@.wf(),
    {
        match self.jump_target() {
            Some(target) => {
                if self.stack.len() == 0 {
                    self.fail(OpCode::JumpIfFalse, "Malformed bytecode.")
                } else if self.stack[self.stack.len() - 1].is_falsey() {
                    self.set_ip(target);
                    Action::Continue
                } else {
                    self.advance(OpCode::JumpIfFalse);
                    Action::Continue
                }
            },
            None => self.fail(OpCode::JumpIfFalse, "Malformed bytecode."),
        }
    }

    fn op_loop(&mut self) -> (action: Action)
        requires
            old(self)@.wf(),
            old(self)@.frames.len() > 0,
            old(self)@.decode() == Some(OpCode::Loop),
        ensures
            (final(self)@, action@) == old(self)@.op_loop(),
            final(self)@.wf(),
    {
        let distance = self.read_short();
        let frame = &self.frames[self.frames.len() - 1];
        assert(self@.frame_ok(self@.frames[self@.frames.len() - 1]));
        let ip = frame.ip;
        let _ = self.units[frame.closure.unit][frame.closure.function].chunk.code.len();
        if distance <= ip + 3 {
            self.set_ip(ip + 3 - distance);
            Action::Continue
        } else {
            self.fail(OpCode::Loop, "Malformed bytecode.")
        }
    }
}

/// The message for a global variable that is not defined.
fn undefined_variable(name: &String) -> (r: String)
    ensures
        r@ == crate::vm_model::undefined_variable_message(name@),
{
    let mut out = "Undefined variable '".to_owned();
    push_text(&mut out, name.as_str());
    push_text(&mut out, "'.");
    out
}

/// The message for a call with the wrong number of arguments.
fn wrong_arity(expected: usize, got: usize) -> (r: String)
    ensures
        r@ == crate::vm_model::arity_message(expected, got),
{
    let mut out = "Expected ".to_owned();
    push_decimal(&mut out, expected);
    push_text(&mut out, " arguments but got ");
    push_decimal(&mut out, got);
    push_text(&mut out, ".");
    out
}

impl VM {
    fn push_frame(&mut self, frame: CallFrame)
        requires
            old(self)@.wf(),
            old(self)@.frames.len() < FRAMES_MAX,
            old(self)@.frame_ok(frame@),
        ensures
            final(self)@ == (VMView { frames: old(self)@.frames.push(frame@), ..old(self)@ }),
            final(self)@.wf(),
    {
        self.frames.push(frame);
        assert(self@.frames =~= old(self)@.frames.push(frame@));
        assert forall|i: int| 0 <= i < self@.frames.len() implies self@.frame_ok(
            #[trigger] self@.frames[i],
        ) by {
            if i < old(self)@.frames.len() {
                assert(old(self)@.frame_ok(old(self)@.frames[i]));
            }
        }
        assert(self@.open_upvalues == old(self)@.open_upvalues);
        assert(self@.cells == old(self)@.cells);
        assert(self@.wf());
    }

    /// Copies of the top `argc` values of the stack, the lowest first.
    fn arguments(&self, argc: usize) -> (r: Vec<Value>)
        requires
            argc <= self@.stack.len(),
        ensures
            values_view(r@) == self@.stack.subrange(
                self@.stack.len() - argc,
                self@.stack.len() as int,
            ),
    {
        let n = self.stack.len();
        let mut out: Vec<Value> = Vec::new();
        let mut i: usize = n - argc;
        while i < n
            invariant
                n == self@.stack.len(),
                n - argc <= i <= n,
                out@.len() == i - (n - argc),
                forall|j: int| 0 <= j < out@.len() ==> out@[j]@ == self@.stack[n - argc + j],
            decreases n - i,
        {
            out.push(self.stack[i].clone());
            i += 1;
        }
        assert(values_view(out@) =~= self@.stack.subrange(n - argc, n as int));
        out
    }

    fn op_call(&mut self, event: Event) -> (action: Action)
        requires
            old(self)@.wf(),
            old(self)@.frames.len() > 0,
            old(self)@.decode() == Some(OpCode::Call),
        ensures
            (final(self)@, action@) == old(self)@.op_call(event@),
            final(self)@.wf(),
    {
        let argc = self.read_byte(1) as usize;
        let n = self.stack.len();
        if n < argc + 1 {
            return self.fail(OpCode::Call, "Malformed bytecode.");
        }
        let callee = self.peek(argc);
        match callee {
            Value::Closure(c) => {
                if !(c.unit < self.units.len() && c.function < self.units[c.unit].len()) {
                    return self.fail(OpCode::Call, "Malformed bytecode.");
                }
                let arity = self.units[c.unit][c.function].arity;
                if arity != argc {
                    let message = wrong_arity(arity, argc);
                    return self.fail_with(OpCode::Call, message);
                }
                if self.frames.len() >= FRAMES_MAX {
                    return self.fail(OpCode::Call, "Stack overflow.");
                }
                self.advance(OpCode::Call);
                self.push_frame(CallFrame::new(c, 0, n - 1 - argc));
                Action::Continue
            },
            Value::NativeFunc(native) => {
                match event {
                    Event::Value(result) => {
                        self.advance(OpCode::Call);
                        self.drop_values(argc + 1);
                        self.push(result);
                        Action::Continue
                    },
                    _ => Action::CallNative(native, self.arguments(argc)),
                }
            },
            _ => self.fail(OpCode::Call, "Can only call functions and classes."),
        }
    }

    /// The cell for the variable in the stack slot `slot`: the open cell that exists for it, or
    /// a new one, entered in the list of open cells behind the cells of higher slots.
    fn capture(&mut self, slot: usize) -> (cell: usize)
        requires
            old(self)@.wf(),
        ensures
            (final(self)@, cell) == old(self)@.capture(slot),
            final(self)@.wf(),
            final(self)@.frames == old(self)@.frames,
            final(self)@.stack == old(self)@.stack,
            final(self)@.units == old(self)@.units,
            final(self)@.globals == old(self)@.globals,
    {
        let count = self.open_upvalues.len();
        let mut i: usize = 0;
        while i < count
            invariant
                self@ == old(self)@,
                self@.wf(),
                count == self@.open_upvalues.len(),
                i <= count,
                self@.find_open(slot, i as int) == self@.find_open(slot, 0),
            decreases count - i,
        {
            let c = self.open_upvalues[i];
            let found = match &self.cells[c] {
                Upvalue::Open(s) => *s == slot,
                Upvalue::Closed(_) => false,
            };
            if found {
                return c;
            }
            i += 1;
        }
        let mut p: usize = 0;
        let mut searching = true;
        while searching && p < count
            invariant
                self@ == old(self)@,
                self@.wf(),
                count == self@.open_upvalues.len(),
                p <= count,
                self@.insert_position(slot, p as int) == self@.insert_position(slot, 0),
                !searching ==> self@.insert_position(slot, p as int) == p,
            decreases count - p + if searching { 1int } else { 0int },
        {
            let c = self.open_upvalues[p];
            let higher = match &self.cells[c] {
                Upvalue::Open(s) => *s > slot,
                Upvalue::Closed(_) => false,
            };
            if higher {
                p += 1;
            } else {
                searching = false;
            }
        }
        let cell = self.cells.len();
        self.cells.push(Upvalue::Open(slot));
        let _ = self.cells.len();
        self.open_upvalues.insert(p, cell);
        assert(self@.cells =~= old(self)@.cells.push(UpvalueView::Open(slot)));
        assert forall|j: int| 0 <= j < self@.open_upvalues.len() implies #[trigger] self@.open_upvalues[j]
            < self@.cells.len() by {
            if j < p {
                assert(self@.open_upvalues[j] == old(self)@.open_upvalues[j]);
            } else if j > p {
                assert(self@.open_upvalues[j] == old(self)@.open_upvalues[j - 1]);
            }
        }
        assert forall|i: int| 0 <= i < self@.frames.len() implies self@.frame_ok(
            #[trigger] self@.frames[i],
        ) by {
            assert(old(self)@.frame_ok(old(self)@.frames[i]));
        }
        assert(self@.wf());
        cell
    }

    /// Can every pair of bytes that follows the `Closure` instruction be captured?
    fn captures_ok(&self, count: usize) -> (r: bool)
        requires
            self@.wf(),
            self@.frames.len() > 0,
            self@.frame().ip + 2 + 2 * count <= self@.code().len(),
        ensures
            ({
                let base = self@.frame().ip + 2;
                r == (forall|k: int| 0 <= k < count ==> #[trigger] self@.capture_ok(base, k))
            }),
    {
        let frame = &self.frames[self.frames.len() - 1];
        assert(self@.frame_ok(self@.frames[self@.frames.len() - 1]));
        let _ = self.units[frame.closure.unit][frame.closure.function].chunk.code.len();
        let n = self.stack.len();
        let ghost base = self@.frame().ip + 2;
        let mut k: usize = 0;
        while k < count
            invariant
                self@.wf(),
                self@.frames.len() > 0,
                self@.frame().ip + 2 + 2 * count <= self@.code().len() <= usize::MAX,
                frame@ == self@.frame(),
                n == self@.stack.len(),
                k <= count,
                base == self@.frame().ip + 2,
                forall|j: int| 0 <= j < k ==> #[trigger] self@.capture_ok(base, j),
            decreases count - k,
        {
            let is_local = self.read_byte(2 + 2 * k);
            let index = self.read_byte(3 + 2 * k) as usize;
            let ok = if is_local != 0 {
                frame.slots <= n && index <= n - frame.slots
            } else {
                index < frame.closure.upvalues.len()
            };
            if !ok {
                assert(!self@.capture_ok(base, k as int));
                return false;
            }
            k += 1;
        }
        true
    }

    /// The function that the operand of the `Closure` instruction stands for, if everything
    /// that the instruction needs is there.
    fn closure_function(&self) -> (r: Option<usize>)
        requires
            self@.wf(),
            self@.frames.len() > 0,
            self@.decode() == Some(OpCode::Closure),
        ensures
            r == self@.closure_function(),
    {
        let idx = self.read_byte(1) as usize;
        let frame = &self.frames[self.frames.len() - 1];
        assert(self@.frame_ok(self@.frames[self@.frames.len() - 1]));
        let unit = frame.closure.unit;
        let len = self.units[unit][frame.closure.function].chunk.code.len();
        match self.read_constant(idx) {
            Some(Value::Func(f)) => {
                if f >= self.units[unit].len() {
                    return None;
                }
                let count = self.units[unit][f].upvalues.len();
                if count > (len - frame.ip - 2) / 2 {
                    return None;
                }
                if self.captures_ok(count) {
                    Some(f)
                } else {
                    None
                }
            },
            _ => None,
        }
    }

    fn op_closure(&mut self) -> (action: Action)
        requires
            old(self)@.wf(),
            old(self)@.frames.len() > 0,
            old(self)@.decode() == Some(OpCode::Closure),
        ensures
            (final(self)@, action@) == old(self)@.op_closure(),
            final(self)@.wf(),
    {
        match self.closure_function() {
            Some(f) => {
                let frame = &self.frames[self.frames.len() - 1];
                assert(self@.frame_ok(self@.frames[self@.frames.len() - 1]));
                let unit = frame.closure.unit;
                let ip = frame.ip;
                let slots = frame.slots;
                let _ = self.units[unit][frame.closure.function].chunk.code.len();
                let count = self.units[unit][f].upvalues.len();
                let ghost base = ip + 2;
                let mut cells: Vec<usize> = Vec::new();
                let mut k: usize = 0;
                while k < count
                    invariant
                        self@.wf(),
                        self@.frames == old(self)@.frames,
                        self@.stack == old(self)@.stack,
                        self@.units == old(self)@.units,
                        self@.globals == old(self)@.globals,
                        self@.frames.len() > 0,
                        self@.frame().ip == ip,
                        self@.frame().slots == slots,
                        base == ip + 2,
                        base + 2 * count <= self@.code().len() <= usize::MAX,
                        forall|j: int| 0 <= j < count ==> #[trigger] self@.capture_ok(base, j),
                        k <= count,
                        self@.capture_all(base, count as int, k as int, cells@) == old(
                            self,
                        )@.capture_all(base, count as int, 0, Seq::empty()),
                    decreases count - k,
                {
                    let ghost before = self@;
                    assert(self@.capture_ok(base, k as int));
                    let is_local = self.read_byte(2 + 2 * k);
                    let index = self.read_byte(3 + 2 * k) as usize;
                    if is_local != 0 {
                        let cell = self.capture(slots + index);
                        cells.push(cell);
                    } else {
                        let cell = self.frames[self.frames.len() - 1].closure.upvalues[index];
                        cells.push(cell);
                    }
                    k += 1;
                    assert forall|j: int| 0 <= j < count implies #[trigger] self@.capture_ok(
                        base,
                        j,
                    ) by {
                        assert(before.capture_ok(base, j));
                    }
                }
                self.set_ip(ip + 2 + 2 * count);
                self.push(Value::Closure(Closure::new(unit, f, cells)));
                Action::Continue
            },
            None => self.fail(OpCode::Closure, "Malformed bytecode."),
        }
    }

    fn op_close_upvalue(&mut self) -> (action: Action)
        requires
            old(self)@.wf(),
            old(self)@.frames.len() > 0,
            old(self)@.decode() == Some(OpCode::CloseUpvalue),
        ensures
            (final(self)@, action@) == old(self)@.op_close_upvalue(),
            final(self)@.wf(),
    {
        let n = self.stack.len();
        if n >= 1 {
            self.advance(OpCode::CloseUpvalue);
            self.close_upvalues(n - 1);
            self.drop_values(1);
            Action::Continue
        } else {
            self.fail(OpCode::CloseUpvalue, "Malformed bytecode.")
        }
    }

    fn op_return(&mut self) -> (action: Action)
        requires
            old(self)@.wf(),
            old(self)@.frames.len() > 0,
            old(self)@.decode() == Some(OpCode::Return),
        ensures
            (final(self)@, action@) == old(self)@.op_return(),
            final(self)@.wf(),
    {
        let n = self.stack.len();
        let slots = self.frames[self.frames.len() - 1].slots;
        if n == 0 || slots > n - 1 {
            return self.fail(OpCode::Return, "Malformed bytecode.");
        }
        let result = self.peek(0);
        self.close_upvalues(slots);
        let ghost closed = self@;
        self.frames.pop();
        self.stack.truncate(slots);
        assert(self@.frames =~= closed.frames.drop_last());
        assert(self@.stack =~= closed.stack.take(slots as int));
        assert forall|i: int| 0 <= i < self@.frames.len() implies self@.frame_ok(
            #[trigger] self@.frames[i],
        ) by {
            assert(closed.frame_ok(closed.frames[i]));
        }
        assert(self@.open_upvalues == closed.open_upvalues);
        assert(self@.cells == closed.cells);
        assert(self@.wf());
        if self.frames.len() == 0 {
            Action::Done
        } else {
            self.push(result);
            Action::Continue
        }
    }

    /// Runs one instruction.
    ///
    /// `event` is what the host answers to the action of the step before: `Event::Number` to
    /// `Action::Arithmetic`, `Event::Value` to `Action::CallNative`, `Event::Resume` to anything
    /// else. Where the instruction needs an answer that the event does not hold, the machine
    /// stays as it is and asks again. With no call active there is nothing to run.
    pub fn step(&mut self, event: Event) -> (action: Action)
        requires
            old(self)@.wf(),
        ensures
            (final(self)@, action@) == old(self)@.step(event@),
            final(self)@.wf(),
    {
        if self.frames.len() == 0 {
            return Action::Done;
        }
        let op = match self.decode() {
            Some(op) => op,
            None => {
                return self.fault("Malformed bytecode.".to_owned());
            },
        };
        match op {
            OpCode::Return => self.op_return(),
            OpCode::Constant => self.op_constant(),
            OpCode::Negate => self.op_negate(),
            OpCode::Add => self.op_add(event),
            OpCode::Subtract | OpCode::Multiply | OpCode::Divide => self.op_arithmetic(op, event),
            OpCode::Nil => self.op_literal(op, Value::Nil),
            OpCode::True => self.op_literal(op, Value::Bool(true)),
            OpCode::False => self.op_literal(op, Value::Bool(false)),
            OpCode::Not => self.op_not(),
            OpCode::Equal => self.op_equal(),
            OpCode::Greater | OpCode::Less => self.op_compare(op),
            OpCode::Print => self.op_print(),
            OpCode::Pop => self.op_pop(),
            OpCode::DefineGlobal => self.op_define_global(),
            OpCode::GetGlobal => self.op_get_global(),
            OpCode::SetGlobal => self.op_set_global(),
            OpCode::GetLocal => self.op_get_local(),
            OpCode::SetLocal => self.op_set_local(),
            OpCode::JumpIfFalse => self.op_jump_if_false(),
            OpCode::Jump => self.op_jump(),
            OpCode::Loop => self.op_loop(),
            OpCode::Call => self.op_call(event),
            OpCode::Closure => self.op_closure(),
            OpCode::SetUpvalue => self.op_set_upvalue(),
            OpCode::GetUpvalue => self.op_get_upvalue(),
            OpCode::CloseUpvalue => self.op_close_upvalue(),
        }
    }

    /// Runs instructions until the machine asks something of its host or the run ends, at most
    /// `fuel` instructions after the first. `event` is for the first of them. An action
    /// `Continue` is returned only where the fuel ran out.
    pub fn run(&mut self, event: Event, fuel: usize) -> (action: Action)
        requires
            old(self)@.wf(),
        ensures
            (final(self)@, action@) == old(self)@.run(event@, fuel as nat),
            final(self)@.wf(),
    {
        let mut action = self.step(event);
        let mut left = fuel;
        while left > 0 && action.is_continue()
            invariant
                self@.wf(),
                action@ == ActionView::Continue && left > 0 ==> self@.run(
                    EventView::Resume,
                    (left - 1) as nat,
                ) == old(self)@.run(event@, fuel as nat),
                !(action@ == ActionView::Continue && left > 0) ==> (self@, action@) == old(
                    self,
                )@.run(event@, fuel as nat),
            decreases left,
        {
            action = self.step(Event::Resume);
            left -= 1;
        }
        action
    }

    /// Makes the machine ready to run compiled functions, the last of which is the top-level
    /// code.
    pub fn load(&mut self, functions: Vec<Function>)
        requires
            old(self)@.wf(),
            functions@.len() > 0,
        ensures
            final(self)@ == old(self)@.load(functions_view(functions@)),
            final(self)@.wf(),
    {
        self.close_upvalues(0);
        let ghost closed = self@;
        self.stack.clear();
        self.frames.clear();
        let ghost cleared = self@;
        assert(cleared.frames =~= Seq::<CallFrameView>::empty());
        assert(cleared.stack =~= Seq::<ValueView>::empty());
        assert(cleared.cells == closed.cells);
        assert(cleared.open_upvalues == closed.open_upvalues);
        assert(cleared.globals == closed.globals);
        assert(cleared.wf());
        let unit = self.units.len();
        let function = functions.len() - 1;
        let ghost code_len = functions@[function as int]@.chunk.code.len();
        self.units.push(functions);
        let _ = self.units.len();
        assert(self@.units =~= old(self)@.units.push(functions_view(functions@)));
        self.frames.push(CallFrame::new(Closure::new(unit, function, Vec::new()), 0, 0));
        self.stack.push(Value::Closure(Closure::new(unit, function, Vec::new())));
        let ghost closure = ClosureView { unit, function, upvalues: Seq::empty() };
        assert(self@.frames =~= seq![CallFrameView { closure, ip: 0, slots: 0 }]);
        assert(self@.stack =~= seq![ValueView::Closure(closure)]);
        assert(self@.frame_ok(self@.frames[0]));
        assert(self@.open_upvalues == cleared.open_upvalues);
        assert(self@.cells == cleared.cells);
        assert(self@.globals == cleared.globals);
        assert(self@.frames.len() == 1);
        assert(self@.stack.len() == 1);
        assert(self@.wf());
    }
}

impl VM {
    /// Compiles a source and makes the machine ready to run it. `numbers` holds the values of
    /// the number literals of the source, in the order of the source.
    ///
    /// Returns `Action::Continue` if the source compiled: the host then takes steps until an
    /// action ends the run. Returns `Action::Rejected` with the diagnostics if it did not.
    pub fn interpret(&mut self, source: &str, numbers: Vec<u64>) -> (action: Action)
        requires
            old(self)@.wf(),
        ensures
            (final(self)@, action@) == old(self)@.interpret(
                compile_spec(FunctionType::Script, source@, numbers@),
            ),
            final(self)@.wf(),
    {
        let compiler = Compiler::new(FunctionType::Script);
        match compiler.compile(source, numbers) {
            Ok(functions) => {
                self.load(functions);
                Action::Continue
            },
            Err(diagnostics) => Action::Rejected(diagnostics),
        }
    }
}

} // verus!
