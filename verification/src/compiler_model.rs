//! The single-pass compiler as a mathematical object: the state of a compilation and, for each
//! step of the parser and code generator, the function from the state before to the state
//! after.
//!
//! The parser descends recursively. What bounds the descent is the input that remains: the
//! characters that the scanner has not read, and the current token unless it is the end of the
//! input. Where a rule hands the state that a sub-rule returned to another sub-rule, it does so
//! through [`CompilerView::within`], which says of that state what every rule keeps: no more
//! input remains after a rule than before it.

use vstd::prelude::*;
use crate::chunk::ChunkView;
use crate::chunk::OpCode;
use crate::code::decodes;
use crate::code::is_jump;
use crate::code::keeps;
use crate::code::lemma_decodes_is_kept;
use crate::code::lemma_decodes_joins;
use crate::code::lemma_decodes_splits;
use crate::code::lemma_jump_len;
use crate::code::well_formed;
use crate::diagnostic::DiagnosticView;
use crate::scanner::ScannerView;
use crate::scanner::TokenType;
use crate::scanner::TokenView;
use crate::scanner::lemma_scan_token_progress;
use crate::value::FunctionType;
use crate::value::FunctionView;
use crate::value::UpvalueDescriptor;
use crate::value::ValueView;

verus! {

/// The most local slots of one function, the callee's own slot included.
pub const LOCALS_MAX: usize = 256;

/// The most constants of one chunk, and the most variables that one function captures.
pub const BYTE_COUNT: usize = 256;

/// The mathematical content of a local variable of the function that is being compiled.
pub struct LocalView {
    pub name: TokenView,
    /// The depth of the scope that declared the variable; -1 until its initializer is compiled.
    pub depth: i32,
    /// Does a nested function capture the variable?
    pub is_captured: bool,
}

/// The mathematical content of the state of one function under compilation.
pub struct FuncStateView {
    pub function: FunctionView,
    pub function_type: FunctionType,
    pub locals: Seq<LocalView>,
    pub scope_depth: i32,
}

impl FuncStateView {
    /// The state at the beginning of a function: nothing is emitted, and slot 0 is taken by
    /// the callee, under the empty name.
    pub open spec fn new(function_type: FunctionType, name: Seq<char>) -> FuncStateView {
        FuncStateView {
            function: FunctionView {
                name,
                arity: 0,
                chunk: ChunkView::empty(),
                upvalues: Seq::empty(),
            },
            function_type,
            locals: seq![
                LocalView { name: TokenView::end_of_input(0), depth: 0, is_captured: false },
            ],
            scope_depth: 0,
        }
    }

    pub open spec fn wf(self) -> bool {
        &&& function_ok(self.function)
        &&& self.locals.len() <= LOCALS_MAX
        &&& self.scope_depth >= 0
    }
}

/// Every byte of the function's code has its line, and its constants and captured variables
/// can be numbered by one byte.
pub open spec fn function_ok(f: FunctionView) -> bool {
    &&& f.chunk.aligned()
    &&& f.chunk.constants.len() <= BYTE_COUNT
    &&& f.upvalues.len() <= BYTE_COUNT
    &&& f.arity <= 255
}

/// The text that tells where in the line a diagnostic was found.
pub open spec fn location_of(token: TokenView) -> Seq<char> {
    if token.token_type == TokenType::Eof {
        " at end"@
    } else if token.token_type == TokenType::Error {
        Seq::empty()
    } else {
        " at '"@ + token.lexeme + "'"@
    }
}

/// The index of the innermost local with the given name among `locals[0..=i]`.
pub open spec fn find_local(locals: Seq<LocalView>, name: Seq<char>, i: int) -> Option<int>
    decreases i + 1,
{
    if i < 0 || i >= locals.len() {
        None
    } else if locals[i].name.lexeme == name {
        Some(i)
    } else {
        find_local(locals, name, i - 1)
    }
}

/// Is there a local with the given name among `locals[0..=i]` that was declared in the scope
/// of depth `depth`? The search goes from the innermost local outwards and ends at the first
/// local of an enclosing scope.
pub open spec fn declared_in_scope(locals: Seq<LocalView>, name: Seq<char>, depth: i32, i: int) -> bool
    decreases i + 1,
{
    if i < 0 || i >= locals.len() {
        false
    } else if locals[i].depth < depth {
        false
    } else if locals[i].name.lexeme == name {
        true
    } else {
        declared_in_scope(locals, name, depth, i - 1)
    }
}

/// The index of the first descriptor equal to `d` at or after `i`, or the length of the list.
pub open spec fn find_upvalue(upvalues: Seq<UpvalueDescriptor>, d: UpvalueDescriptor, i: int) -> int
    decreases upvalues.len() - i,
{
    if i < 0 || i >= upvalues.len() {
        upvalues.len() as int
    } else if upvalues[i] == d {
        i
    } else {
        find_upvalue(upvalues, d, i + 1)
    }
}

/// The high byte of a 16-bit number.
pub open spec fn high_byte(n: int) -> u8 {
    ((n / 256) % 256) as u8
}

/// The low byte of a 16-bit number.
pub open spec fn low_byte(n: int) -> u8 {
    (n % 256) as u8
}

/// The mathematical content of a compiler.
pub struct CompilerView {
    pub scanner: ScannerView,
    pub current: TokenView,
    pub previous: TokenView,
    pub had_error: bool,
    pub panic_mode: bool,
    /// The diagnostics reported so far.
    pub diagnostics: Seq<DiagnosticView>,
    /// The values of the number literals of the source, in the order of the source.
    pub numbers: Seq<u64>,
    /// How many number literals lie before the current token.
    pub numbers_used: usize,
    /// The functions under compilation, the innermost last.
    pub states: Seq<FuncStateView>,
    /// The functions whose compilation is finished.
    pub functions: Seq<FunctionView>,
}

impl CompilerView {
    /// The compiler before the first token is read.
    pub open spec fn init(function_type: FunctionType, source: Seq<char>, numbers: Seq<u64>) -> CompilerView {
        CompilerView {
            scanner: ScannerView::init(source),
            current: TokenView::end_of_input(0),
            previous: TokenView::end_of_input(0),
            had_error: false,
            panic_mode: false,
            diagnostics: Seq::empty(),
            numbers,
            numbers_used: 0,
            states: seq![FuncStateView::new(function_type, Seq::empty())],
            functions: Seq::empty(),
        }
    }

    pub open spec fn wf(self) -> bool {
        &&& self.scanner.wf()
        &&& self.states.len() >= 1
        &&& self.had_error == (self.diagnostics.len() > 0)
        &&& self.panic_mode ==> self.had_error
        &&& forall|i: int| 0 <= i < self.states.len() ==> (#[trigger] self.states[i]).wf()
        &&& forall|i: int| 0 <= i < self.functions.len() ==> function_ok(#[trigger] self.functions[i])
    }

    /// The input that remains: the characters that the scanner has not read, and the current
    /// token unless it is the end of the input.
    pub open spec fn remaining(self) -> nat {
        let unread = if self.scanner.wf() {
            (self.scanner.source.len() - self.scanner.current) as nat
        } else {
            0
        };
        if self.current.token_type != TokenType::Eof {
            unread + 1
        } else {
            unread
        }
    }

    /// `after`, of which no more input remains than of `self`; a state of which more remains
    /// is no state that a rule returns, and `self` stands in for it.
    #[verifier::opaque]
    pub open spec fn within(self, after: CompilerView) -> CompilerView {
        if after.remaining() <= self.remaining() {
            after
        } else {
            self
        }
    }

    /// Did the compiler get from `before` to `self` by rules of the parser: it is well formed,
    /// it reads the same source with the same numbers, no more input remains, the same
    /// functions are under compilation, the chunks of the enclosing ones are untouched, and
    /// the chunk of the innermost has lost no code.
    pub open spec fn follows(self, before: CompilerView) -> bool {
        &&& self.wf()
        &&& self.remaining() <= before.remaining()
        &&& self.scanner.source == before.scanner.source
        &&& self.numbers == before.numbers
        &&& self.states.len() == before.states.len()
        &&& forall|i: int|
            0 <= i < self.states.len() - 1 ==> (#[trigger] self.states[i]).function.chunk
                == before.states[i].function.chunk
        &&& self.chunk().code.len() >= before.chunk().code.len()
        &&& self.functions.len() >= before.functions.len()
    }

    // ---------------------------------------------------------------- errors

    /// Reports an error at a token, unless the parser is in panic mode already.
    #[verifier::opaque]
    pub open spec fn error_at(self, token: TokenView, message: Seq<char>) -> CompilerView {
        if self.panic_mode {
            self
        } else {
            CompilerView {
                panic_mode: true,
                had_error: true,
                diagnostics: self.diagnostics.push(
                    DiagnosticView { line: token.line, location: location_of(token), message },
                ),
                ..self
            }
        }
    }

    /// Reports an error at the token just consumed.
    #[verifier::opaque]
    pub open spec fn error(self, message: Seq<char>) -> CompilerView {
        self.error_at(self.previous, message)
    }

    #[verifier::opaque]
    pub open spec fn error_at_current(self, message: Seq<char>) -> CompilerView {
        self.error_at(self.current, message)
    }

    // ---------------------------------------------------------------- tokens

    /// Reads tokens until one is no error token, and reports the error tokens.
    pub open spec fn scan_on(self) -> CompilerView
        decreases self.scanner.source.len() - self.scanner.current,
    {
        let (scanner, token) = self.scanner.scan_token();
        let read = CompilerView { scanner, current: token, ..self };
        if token.token_type == TokenType::Error && self.scanner.current < scanner.current
            <= scanner.source.len() && scanner.source == self.scanner.source {
            proof {
                reveal(CompilerView::error_at_current);
                reveal(CompilerView::error_at);
            }
            read.error_at_current(token.lexeme).scan_on()
        } else {
            read
        }
    }

    /// Makes the current token the previous one and reads the next.
    #[verifier::opaque]
    pub open spec fn advance(self) -> CompilerView {
        let moved = CompilerView {
            previous: self.current,
            numbers_used: if self.current.token_type == TokenType::Number && self.numbers_used
                < usize::MAX {
                (self.numbers_used + 1) as usize
            } else {
                self.numbers_used
            },
            ..self
        };
        if self.scanner.wf() {
            moved.scan_on()
        } else {
            CompilerView { current: TokenView::end_of_input(0), ..moved }
        }
    }

    pub open spec fn check(self, expected: TokenType) -> bool {
        self.current.token_type == expected
    }

    /// Consumes the current token if it is of the expected kind.
    #[verifier::opaque]
    pub open spec fn match_token(self, expected: TokenType) -> CompilerView {
        if self.check(expected) {
            self.advance()
        } else {
            self
        }
    }

    /// Consumes the current token if it is of the expected kind, and reports an error if not.
    #[verifier::opaque]
    pub open spec fn consume(self, expected: TokenType, message: Seq<char>) -> CompilerView {
        if self.check(expected) {
            self.advance()
        } else {
            self.error_at_current(message)
        }
    }

    // ---------------------------------------------------------------- emission

    /// The state of the innermost function.
    pub open spec fn state(self) -> FuncStateView {
        self.states.last()
    }

    pub open spec fn with_state(self, state: FuncStateView) -> CompilerView {
        CompilerView { states: self.states.update(self.states.len() - 1, state), ..self }
    }

    /// The chunk that code is emitted into.
    pub open spec fn chunk(self) -> ChunkView {
        self.state().function.chunk
    }

    pub open spec fn with_chunk(self, chunk: ChunkView) -> CompilerView {
        self.with_state(
            FuncStateView {
                function: FunctionView { chunk, ..self.state().function },
                ..self.state()
            },
        )
    }

    pub open spec fn with_locals(self, locals: Seq<LocalView>) -> CompilerView {
        self.with_state(FuncStateView { locals, ..self.state() })
    }

    /// Appends a byte, with the line of the token just consumed.
    #[verifier::opaque]
    pub open spec fn emit_byte(self, byte: u8) -> CompilerView {
        self.with_chunk(self.chunk().write(byte, self.previous.line))
    }

    #[verifier::opaque]
    pub open spec fn emit_op(self, op: OpCode) -> CompilerView {
        self.emit_byte(op.byte())
    }

    #[verifier::opaque]
    pub open spec fn emit_bytes(self, byte1: u8, byte2: u8) -> CompilerView {
        self.emit_byte(byte1).emit_byte(byte2)
    }

    /// Adds a constant to the pool and gives its index; with the pool full, reports an error
    /// and gives 0.
    #[verifier::opaque]
    pub open spec fn make_constant(self, value: ValueView) -> (CompilerView, u8) {
        if self.chunk().constants.len() >= BYTE_COUNT {
            (self.error("Too many constants in one chunk."@), 0)
        } else {
            (
                self.with_chunk(self.chunk().add_constant(value)),
                self.chunk().constants.len() as u8,
            )
        }
    }

    #[verifier::opaque]
    pub open spec fn emit_constant(self, value: ValueView) -> CompilerView {
        let (made, index) = self.make_constant(value);
        made.emit_bytes(OpCode::Constant.byte(), index)
    }

    #[verifier::opaque]
    pub open spec fn identifier_constant(self, name: Seq<char>) -> (CompilerView, u8) {
        self.make_constant(ValueView::String(name))
    }

    /// The implicit return of `nil`.
    #[verifier::opaque]
    pub open spec fn emit_return(self) -> CompilerView {
        self.emit_op(OpCode::Nil).emit_op(OpCode::Return)
    }

    /// Emits a jump with a placeholder for its distance, and gives the offset of the
    /// placeholder.
    #[verifier::opaque]
    pub open spec fn emit_jump(self, op: OpCode) -> (CompilerView, int) {
        (self.emit_op(op).emit_byte(0xff).emit_byte(0xff), (self.chunk().code.len() + 1) as int)
    }

    /// Writes into the placeholder at `offset` the distance from behind it to the end of the
    /// code.
    #[verifier::opaque]
    pub open spec fn patch_jump(self, offset: int) -> CompilerView {
        let jump = self.chunk().code.len() - offset - 2;
        let checked = if jump > 0xFFFF {
            self.error("Too much code to jump over."@)
        } else {
            self
        };
        checked.with_chunk(
            ChunkView {
                code: checked.chunk().code.update(offset, high_byte(jump)).update(
                    offset + 1,
                    low_byte(jump),
                ),
                ..checked.chunk()
            },
        )
    }

    /// Emits a jump back to `loop_start`.
    #[verifier::opaque]
    pub open spec fn emit_loop(self, loop_start: int) -> CompilerView {
        let emitted = self.emit_op(OpCode::Loop);
        let offset = emitted.chunk().code.len() - loop_start + 2;
        let checked = if offset > 0xFFFF {
            emitted.error("Loop body too large."@)
        } else {
            emitted
        };
        checked.emit_byte(high_byte(offset)).emit_byte(low_byte(offset))
    }

    /// After the `Closure` instruction: for each captured variable from the `i`-th on, one
    /// byte that tells whether it is a local of the enclosing function, and one for its index.
    pub open spec fn emit_upvalues(self, upvalues: Seq<UpvalueDescriptor>, i: int) -> CompilerView
        decreases upvalues.len() - i,
    {
        if i < 0 || i >= upvalues.len() {
            self
        } else {
            self.emit_byte(
                if upvalues[i].is_local {
                    1
                } else {
                    0
                },
            ).emit_byte(upvalues[i].index).emit_upvalues(upvalues, i + 1)
        }
    }

    // ---------------------------------------------------------------- scopes and variables

    #[verifier::opaque]
    pub open spec fn begin_scope(self) -> CompilerView {
        let depth = self.state().scope_depth;
        self.with_state(
            FuncStateView {
                scope_depth: if depth < i32::MAX {
                    (depth + 1) as i32
                } else {
                    depth
                },
                ..self.state()
            },
        )
    }

    /// Removes the locals that are deeper than the scope depth, the innermost first, and emits
    /// for each the instruction that removes its value from the stack: `CloseUpvalue` if it is
    /// captured, else `Pop`.
    pub open spec fn pop_locals(self) -> CompilerView
        decreases self.state().locals.len(),
    {
        let locals = self.state().locals;
        if self.states.len() >= 1 && locals.len() > 0 && locals.last().depth
            > self.state().scope_depth {
            proof {
                reveal(CompilerView::emit_op);
                reveal(CompilerView::emit_byte);
            }
            self.emit_op(
                if locals.last().is_captured {
                    OpCode::CloseUpvalue
                } else {
                    OpCode::Pop
                },
            ).with_locals(locals.drop_last()).pop_locals()
        } else {
            self
        }
    }

    #[verifier::opaque]
    pub open spec fn end_scope(self) -> CompilerView {
        let depth = self.state().scope_depth;
        self.with_state(
            FuncStateView {
                scope_depth: if depth > 0 {
                    (depth - 1) as i32
                } else {
                    depth
                },
                ..self.state()
            },
        ).pop_locals()
    }

    #[verifier::opaque]
    pub open spec fn add_local(self, name: TokenView) -> CompilerView {
        if self.state().locals.len() >= LOCALS_MAX {
            self.error("Too many local variables in function."@)
        } else {
            self.with_locals(
                self.state().locals.push(LocalView { name, depth: -1i32, is_captured: false }),
            )
        }
    }

    /// Declares the token just consumed as a local variable, unless the scope is the global
    /// one.
    #[verifier::opaque]
    pub open spec fn declare_variable(self) -> CompilerView {
        if self.state().scope_depth == 0 {
            self
        } else {
            let locals = self.state().locals;
            let checked = if declared_in_scope(
                locals,
                self.previous.lexeme,
                self.state().scope_depth,
                locals.len() - 1,
            ) {
                self.error("Already a variable with this name in this scope."@)
            } else {
                self
            };
            checked.add_local(self.previous)
        }
    }

    #[verifier::opaque]
    pub open spec fn mark_initialized(self) -> CompilerView {
        let locals = self.state().locals;
        if self.state().scope_depth == 0 || locals.len() == 0 {
            self
        } else {
            self.with_locals(
                locals.update(
                    locals.len() - 1,
                    LocalView { depth: self.state().scope_depth, ..locals.last() },
                ),
            )
        }
    }

    #[verifier::opaque]
    pub open spec fn define_variable(self, global: u8) -> CompilerView {
        if self.state().scope_depth > 0 {
            self.mark_initialized()
        } else {
            self.emit_bytes(OpCode::DefineGlobal.byte(), global)
        }
    }

    /// Consumes the name of a variable and declares it. Gives the index of the constant with
    /// the name for a global variable, and 0 for a local one.
    #[verifier::opaque]
    pub open spec fn parse_variable(self, message: Seq<char>) -> (CompilerView, u8) {
        let declared = self.consume(TokenType::Identifier, message).declare_variable();
        if declared.state().scope_depth > 0 {
            (declared, 0)
        } else {
            declared.identifier_constant(declared.previous.lexeme)
        }
    }

    /// The slot of the innermost local with the given name in the function at `level`. A local
    /// whose initializer is not yet compiled is an error.
    #[verifier::opaque]
    pub open spec fn resolve_local(self, level: int, name: Seq<char>) -> (CompilerView, Option<u8>) {
        let locals = self.states[level].locals;
        match find_local(locals, name, locals.len() - 1) {
            None => (self, None),
            Some(i) => (
                if locals[i].depth == -1i32 {
                    self.error("Can't read local variable in its own initializer."@)
                } else {
                    self
                },
                Some(i as u8),
            ),
        }
    }

    /// Marks a local of the function at `level` as captured.
    #[verifier::opaque]
    pub open spec fn capture_local(self, level: int, slot: int) -> CompilerView {
        let state = self.states[level];
        CompilerView {
            states: self.states.update(
                level,
                FuncStateView {
                    locals: state.locals.update(
                        slot,
                        LocalView { is_captured: true, ..state.locals[slot] },
                    ),
                    ..state
                },
            ),
            ..self
        }
    }

    /// The index of the descriptor in the function at `level`: that of an equal one if there
    /// is one, else that of a new one. With 256 descriptors already, reports an error and
    /// gives 0.
    #[verifier::opaque]
    pub open spec fn add_upvalue(self, level: int, index: u8, is_local: bool) -> (CompilerView, u8) {
        let state = self.states[level];
        let upvalues = state.function.upvalues;
        let d = UpvalueDescriptor { index, is_local };
        let found = find_upvalue(upvalues, d, 0);
        if found < upvalues.len() {
            (self, found as u8)
        } else if upvalues.len() >= BYTE_COUNT {
            (self.error("Too many closure variables in function."@), 0)
        } else {
            (
                CompilerView {
                    states: self.states.update(
                        level,
                        FuncStateView {
                            function: FunctionView { upvalues: upvalues.push(d), ..state.function },
                            ..state
                        },
                    ),
                    ..self
                },
                upvalues.len() as u8,
            )
        }
    }

    /// The index of the upvalue of the function at `level` for the variable with the given
    /// name, if an enclosing function has it: as a local, which is then marked as captured, or
    /// as an upvalue of its own.
    pub open spec fn resolve_upvalue(self, level: int, name: Seq<char>) -> (CompilerView, Option<u8>)
        decreases level,
    {
        if level <= 0 || level >= self.states.len() {
            (self, None)
        } else {
            let (searched, local) = self.resolve_local(level - 1, name);
            match local {
                Some(slot) => {
                    let (added, index) = searched.capture_local(level - 1, slot as int).add_upvalue(
                        level,
                        slot,
                        true,
                    );
                    (added, Some(index))
                },
                None => {
                    let (outer, upvalue) = searched.resolve_upvalue(level - 1, name);
                    match upvalue {
                        Some(i) => {
                            let (added, index) = outer.add_upvalue(level, i, false);
                            (added, Some(index))
                        },
                        None => (outer, None),
                    }
                },
            }
        }
    }

    // ---------------------------------------------------------------- functions

    /// Begins the compilation of a nested function.
    #[verifier::opaque]
    pub open spec fn push_state(self, state: FuncStateView) -> CompilerView {
        CompilerView { states: self.states.push(state), ..self }
    }

    /// Ends the compilation of the innermost function with the implicit return, and gives the
    /// index of the function among the finished ones.
    #[verifier::opaque]
    pub open spec fn end_compiler(self) -> (CompilerView, usize) {
        let returned = self.emit_return();
        (
            CompilerView {
                states: returned.states.drop_last(),
                functions: returned.functions.push(returned.state().function),
                ..returned
            },
            self.functions.len() as usize,
        )
    }

    /// In the enclosing function, the instruction that makes the closure of the finished
    /// function with the given index: the constant for the function, the `Closure` instruction
    /// and, for each variable that the function captures, two bytes.
    #[verifier::opaque]
    pub open spec fn closure(self, index: usize) -> CompilerView {
        let (made, constant) = self.make_constant(ValueView::Func(index));
        made.emit_bytes(OpCode::Closure.byte(), constant).emit_upvalues(
            self.functions[index as int].upvalues,
            0,
        )
    }

    /// One more parameter, unless there are 255 already, which is an error at the current
    /// token.
    #[verifier::opaque]
    pub open spec fn count_parameter(self) -> CompilerView {
        let function = self.state().function;
        if function.arity >= 255 {
            self.error_at_current("Can't have more than 255 parameters."@)
        } else {
            self.with_state(
                FuncStateView {
                    function: FunctionView { arity: (function.arity + 1) as usize, ..function },
                    ..self.state()
                },
            )
        }
    }

    /// The parameters of a function, up to the closing parenthesis.
    pub open spec fn parameters(self) -> CompilerView
        decreases self.remaining(),
    {
        let (parsed, constant) = self.count_parameter().parse_variable("Expect parameter name."@);
        let defined = parsed.define_variable(constant);
        if defined.check(TokenType::Comma) && defined.advance().remaining() < self.remaining() {
            defined.advance().parameters()
        } else {
            defined.match_token(TokenType::Comma)
        }
    }

    // ---------------------------------------------------------------- recovery

    /// Skips tokens until the parser is just behind a semicolon, or before a token that begins
    /// a statement, or at the end of the input.
    pub open spec fn skip_to_boundary(self) -> CompilerView
        decreases self.remaining(),
    {
        if self.current.token_type == TokenType::Eof || self.previous.token_type
            == TokenType::Semicolon || begins_statement(self.current.token_type)
            || self.advance().remaining() >= self.remaining() {
            self
        } else {
            self.advance().skip_to_boundary()
        }
    }

    /// Leaves panic mode at the next statement boundary.
    pub open spec fn synchronize(self) -> CompilerView {
        CompilerView { panic_mode: false, ..self }.skip_to_boundary()
    }
}

/// Does a statement or a declaration begin with a token of this kind?
pub open spec fn begins_statement(t: TokenType) -> bool {
    t == TokenType::Class || t == TokenType::Fun || t == TokenType::Var || t == TokenType::For
        || t == TokenType::If || t == TokenType::While || t == TokenType::Print || t
        == TokenType::Return
}

/// The operation of the language's `get` and `set` of a variable, by where the variable lives.
pub enum Access {
    Local,
    Upvalue,
    Global,
}

impl Access {
    pub open spec fn get_op(self) -> OpCode {
        match self {
            Access::Local => OpCode::GetLocal,
            Access::Upvalue => OpCode::GetUpvalue,
            Access::Global => OpCode::GetGlobal,
        }
    }

    pub open spec fn set_op(self) -> OpCode {
        match self {
            Access::Local => OpCode::SetLocal,
            Access::Upvalue => OpCode::SetUpvalue,
            Access::Global => OpCode::SetGlobal,
        }
    }
}

/// The number of arguments after one more; it stops at 255.
pub open spec fn next_count(n: u8) -> u8 {
    if n == 255 {
        n
    } else {
        (n + 1) as u8
    }
}

impl CompilerView {
    // ---------------------------------------------------------------- literals

    /// A number literal: a constant with the value that was handed in for it.
    #[verifier::opaque]
    pub open spec fn number(self) -> CompilerView {
        if 1 <= self.numbers_used <= self.numbers.len() {
            self.emit_constant(ValueView::Number(self.numbers[self.numbers_used - 1]))
        } else {
            self.error("Number literal has no value."@)
        }
    }

    /// A string literal: a constant with the text between the quotes.
    #[verifier::opaque]
    pub open spec fn string(self) -> CompilerView {
        let lexeme = self.previous.lexeme;
        self.emit_constant(
            ValueView::String(
                if lexeme.len() >= 2 {
                    lexeme.subrange(1, lexeme.len() - 1)
                } else {
                    Seq::empty()
                },
            ),
        )
    }

    #[verifier::opaque]
    pub open spec fn literal(self) -> CompilerView {
        match self.previous.token_type {
            TokenType::True => self.emit_op(OpCode::True),
            TokenType::False => self.emit_op(OpCode::False),
            TokenType::Nil => self.emit_op(OpCode::Nil),
            _ => self,
        }
    }

    /// Where the variable with the given name lives, and its slot, upvalue index or constant.
    #[verifier::opaque]
    pub open spec fn resolve(self, name: Seq<char>) -> (CompilerView, Access, u8) {
        let top = self.states.len() - 1;
        let (searched, local) = self.resolve_local(top, name);
        match local {
            Some(slot) => (searched, Access::Local, slot),
            None => {
                let (outer, upvalue) = searched.resolve_upvalue(top, name);
                match upvalue {
                    Some(index) => (outer, Access::Upvalue, index),
                    None => {
                        let (made, constant) = outer.identifier_constant(name);
                        (made, Access::Global, constant)
                    },
                }
            },
        }
    }

    /// The code of the operator of a binary expression, after both operands.
    #[verifier::opaque]
    pub open spec fn binary_operator(self, operator: TokenType) -> CompilerView {
        match operator {
            TokenType::Plus => self.emit_op(OpCode::Add),
            TokenType::Minus => self.emit_op(OpCode::Subtract),
            TokenType::Star => self.emit_op(OpCode::Multiply),
            TokenType::Slash => self.emit_op(OpCode::Divide),
            TokenType::BangEqual => self.emit_op(OpCode::Equal).emit_op(OpCode::Not),
            TokenType::EqualEqual => self.emit_op(OpCode::Equal),
            TokenType::Greater => self.emit_op(OpCode::Greater),
            TokenType::GreaterEqual => self.emit_op(OpCode::Less).emit_op(OpCode::Not),
            TokenType::Less => self.emit_op(OpCode::Less),
            TokenType::LessEqual => self.emit_op(OpCode::Greater).emit_op(OpCode::Not),
            _ => self,
        }
    }
}

impl CompilerView {
    /// Has the innermost function the same locals, at the same scope depth, as in `other`?
    pub open spec fn same_scope(self, other: CompilerView) -> bool {
        &&& self.state().locals == other.state().locals
        &&& self.state().scope_depth == other.state().scope_depth
        &&& self.state().function_type == other.state().function_type
    }

    /// Are the enclosing functions as they are in `other`?
    pub open spec fn same_enclosing(self, other: CompilerView) -> bool {
        &&& self.states.len() == other.states.len()
        &&& forall|i: int|
            0 <= i < self.states.len() - 1 ==> #[trigger] self.states[i] == other.states[i]
    }

    /// Do the two states read the same input at the same place?
    pub open spec fn same_input(self, other: CompilerView) -> bool {
        &&& self.scanner == other.scanner
        &&& self.current == other.current
        &&& self.previous == other.previous
        &&& self.numbers == other.numbers
        &&& self.numbers_used == other.numbers_used
    }
}

/// The rule [`CompilerView::error_at`] reads no input.
pub broadcast proof fn lemma_error_at_input(c: CompilerView, token: TokenView, message: Seq<char>)
    ensures
        #![trigger c.error_at(token, message)]
        c.error_at(token, message).same_input(c),
{
    reveal(CompilerView::error_at);
}

/// The rule [`CompilerView::error`] reads no input.
pub broadcast proof fn lemma_error_input(c: CompilerView, message: Seq<char>)
    ensures
        #![trigger c.error(message)]
        c.error(message).same_input(c),
{
    reveal(CompilerView::error);
    reveal(CompilerView::error_at);
}

/// The rule [`CompilerView::error_at_current`] reads no input.
pub broadcast proof fn lemma_error_at_current_input(c: CompilerView, message: Seq<char>)
    ensures
        #![trigger c.error_at_current(message)]
        c.error_at_current(message).same_input(c),
{
    reveal(CompilerView::error_at);
    reveal(CompilerView::error_at_current);
}

/// The rule [`CompilerView::emit_byte`] reads no input.
pub broadcast proof fn lemma_emit_byte_input(c: CompilerView, byte: u8)
    ensures
        #![trigger c.emit_byte(byte)]
        c.emit_byte(byte).same_input(c),
{
    reveal(CompilerView::emit_byte);
}

/// The rule [`CompilerView::emit_op`] reads no input.
pub broadcast proof fn lemma_emit_op_input(c: CompilerView, op: OpCode)
    ensures
        #![trigger c.emit_op(op)]
        c.emit_op(op).same_input(c),
{
    reveal(CompilerView::emit_byte);
    reveal(CompilerView::emit_op);
}

/// The rule [`CompilerView::emit_bytes`] reads no input.
pub broadcast proof fn lemma_emit_bytes_input(c: CompilerView, byte1: u8, byte2: u8)
    ensures
        #![trigger c.emit_bytes(byte1, byte2)]
        c.emit_bytes(byte1, byte2).same_input(c),
{
    reveal(CompilerView::emit_byte);
    reveal(CompilerView::emit_bytes);
}

/// The rule [`CompilerView::make_constant`] reads no input.
pub broadcast proof fn lemma_make_constant_input(c: CompilerView, value: ValueView)
    ensures
        #![trigger c.make_constant(value)]
        c.make_constant(value).0.same_input(c),
{
    reveal(CompilerView::error);
    reveal(CompilerView::error_at);
    reveal(CompilerView::make_constant);
}

/// The rule [`CompilerView::emit_constant`] reads no input.
pub broadcast proof fn lemma_emit_constant_input(c: CompilerView, value: ValueView)
    ensures
        #![trigger c.emit_constant(value)]
        c.emit_constant(value).same_input(c),
{
    reveal(CompilerView::emit_byte);
    reveal(CompilerView::emit_bytes);
    reveal(CompilerView::emit_constant);
    reveal(CompilerView::error);
    reveal(CompilerView::error_at);
    reveal(CompilerView::make_constant);
}

/// The rule [`CompilerView::identifier_constant`] reads no input.
pub broadcast proof fn lemma_identifier_constant_input(c: CompilerView, name: Seq<char>)
    ensures
        #![trigger c.identifier_constant(name)]
        c.identifier_constant(name).0.same_input(c),
{
    reveal(CompilerView::error);
    reveal(CompilerView::error_at);
    reveal(CompilerView::identifier_constant);
    reveal(CompilerView::make_constant);
}

/// The rule [`CompilerView::emit_return`] reads no input.
pub broadcast proof fn lemma_emit_return_input(c: CompilerView)
    ensures
        #![trigger c.emit_return()]
        c.emit_return().same_input(c),
{
    reveal(CompilerView::emit_byte);
    reveal(CompilerView::emit_op);
    reveal(CompilerView::emit_return);
}

/// The rule [`CompilerView::emit_jump`] reads no input.
pub broadcast proof fn lemma_emit_jump_input(c: CompilerView, op: OpCode)
    ensures
        #![trigger c.emit_jump(op)]
        c.emit_jump(op).0.same_input(c),
{
    reveal(CompilerView::emit_byte);
    reveal(CompilerView::emit_jump);
    reveal(CompilerView::emit_op);
}

/// The rule [`CompilerView::patch_jump`] reads no input.
pub broadcast proof fn lemma_patch_jump_input(c: CompilerView, offset: int)
    ensures
        #![trigger c.patch_jump(offset)]
        c.patch_jump(offset).same_input(c),
{
    reveal(CompilerView::error);
    reveal(CompilerView::error_at);
    reveal(CompilerView::patch_jump);
}

/// The rule [`CompilerView::emit_loop`] reads no input.
pub broadcast proof fn lemma_emit_loop_input(c: CompilerView, loop_start: int)
    ensures
        #![trigger c.emit_loop(loop_start)]
        c.emit_loop(loop_start).same_input(c),
{
    reveal(CompilerView::emit_byte);
    reveal(CompilerView::emit_loop);
    reveal(CompilerView::emit_op);
    reveal(CompilerView::error);
    reveal(CompilerView::error_at);
}

/// The rule [`CompilerView::begin_scope`] reads no input.
pub broadcast proof fn lemma_begin_scope_input(c: CompilerView)
    ensures
        #![trigger c.begin_scope()]
        c.begin_scope().same_input(c),
{
    reveal(CompilerView::begin_scope);
}

/// The rule [`CompilerView::end_scope`] reads no input.
pub broadcast proof fn lemma_end_scope_input(c: CompilerView)
    ensures
        #![trigger c.end_scope()]
        c.end_scope().same_input(c),
{
    reveal(CompilerView::end_scope);
    broadcast use lemma_pop_locals;
}

/// The rule [`CompilerView::add_local`] reads no input.
pub broadcast proof fn lemma_add_local_input(c: CompilerView, name: TokenView)
    ensures
        #![trigger c.add_local(name)]
        c.add_local(name).same_input(c),
{
    reveal(CompilerView::add_local);
    reveal(CompilerView::error);
    reveal(CompilerView::error_at);
}

/// The rule [`CompilerView::declare_variable`] reads no input.
pub broadcast proof fn lemma_declare_variable_input(c: CompilerView)
    ensures
        #![trigger c.declare_variable()]
        c.declare_variable().same_input(c),
{
    reveal(CompilerView::add_local);
    reveal(CompilerView::declare_variable);
    reveal(CompilerView::error);
    reveal(CompilerView::error_at);
}

/// The rule [`CompilerView::mark_initialized`] reads no input.
pub broadcast proof fn lemma_mark_initialized_input(c: CompilerView)
    ensures
        #![trigger c.mark_initialized()]
        c.mark_initialized().same_input(c),
{
    reveal(CompilerView::mark_initialized);
}

/// The rule [`CompilerView::define_variable`] reads no input.
pub broadcast proof fn lemma_define_variable_input(c: CompilerView, global: u8)
    ensures
        #![trigger c.define_variable(global)]
        c.define_variable(global).same_input(c),
{
    reveal(CompilerView::define_variable);
    reveal(CompilerView::emit_byte);
    reveal(CompilerView::emit_bytes);
    reveal(CompilerView::mark_initialized);
}

/// The rule [`CompilerView::resolve_local`] reads no input.
pub broadcast proof fn lemma_resolve_local_input(c: CompilerView, level: int, name: Seq<char>)
    ensures
        #![trigger c.resolve_local(level, name)]
        c.resolve_local(level, name).0.same_input(c),
{
    reveal(CompilerView::error);
    reveal(CompilerView::error_at);
    reveal(CompilerView::resolve_local);
}

/// The rule [`CompilerView::capture_local`] reads no input.
pub broadcast proof fn lemma_capture_local_input(c: CompilerView, level: int, slot: int)
    ensures
        #![trigger c.capture_local(level, slot)]
        c.capture_local(level, slot).same_input(c),
{
    reveal(CompilerView::capture_local);
}

/// The rule [`CompilerView::add_upvalue`] reads no input.
pub broadcast proof fn lemma_add_upvalue_input(c: CompilerView, level: int, index: u8, is_local: bool)
    ensures
        #![trigger c.add_upvalue(level, index, is_local)]
        c.add_upvalue(level, index, is_local).0.same_input(c),
{
    reveal(CompilerView::add_upvalue);
    reveal(CompilerView::error);
    reveal(CompilerView::error_at);
}

/// The rule [`CompilerView::push_state`] reads no input.
pub broadcast proof fn lemma_push_state_input(c: CompilerView, state: FuncStateView)
    ensures
        #![trigger c.push_state(state)]
        c.push_state(state).same_input(c),
{
    reveal(CompilerView::push_state);
}

/// The rule [`CompilerView::end_compiler`] reads no input.
pub broadcast proof fn lemma_end_compiler_input(c: CompilerView)
    ensures
        #![trigger c.end_compiler()]
        c.end_compiler().0.same_input(c),
{
    reveal(CompilerView::emit_byte);
    reveal(CompilerView::emit_op);
    reveal(CompilerView::emit_return);
    reveal(CompilerView::end_compiler);
}

/// The rule [`CompilerView::count_parameter`] reads no input.
pub broadcast proof fn lemma_count_parameter_input(c: CompilerView)
    ensures
        #![trigger c.count_parameter()]
        c.count_parameter().same_input(c),
{
    reveal(CompilerView::count_parameter);
    reveal(CompilerView::error_at);
    reveal(CompilerView::error_at_current);
}

/// Matching a token leaves no more input than there was.
pub broadcast proof fn lemma_match_token(c: CompilerView, expected: TokenType)
    ensures
        #![trigger c.match_token(expected)]
        c.match_token(expected).remaining() <= c.remaining(),
        c.check(expected) && expected != TokenType::Eof ==> c.match_token(expected).remaining()
            < c.remaining(),
{
    reveal(CompilerView::match_token);
    lemma_advance(c);
}

/// Consuming a token leaves no more input than there was.
pub broadcast proof fn lemma_consume(c: CompilerView, expected: TokenType, message: Seq<char>)
    ensures
        #![trigger c.consume(expected, message)]
        c.consume(expected, message).remaining() <= c.remaining(),
{
    reveal(CompilerView::consume);
    reveal(CompilerView::error_at);
    reveal(CompilerView::error_at_current);
    lemma_advance(c);
}

/// Parsing the name of a variable leaves no more input than there was.
pub broadcast proof fn lemma_parse_variable(c: CompilerView, message: Seq<char>)
    ensures
        #![trigger c.parse_variable(message)]
        c.parse_variable(message).0.remaining() <= c.remaining(),
{
    reveal(CompilerView::add_local);
    reveal(CompilerView::consume);
    reveal(CompilerView::declare_variable);
    reveal(CompilerView::error);
    reveal(CompilerView::error_at);
    reveal(CompilerView::error_at_current);
    reveal(CompilerView::identifier_constant);
    reveal(CompilerView::make_constant);
    reveal(CompilerView::parse_variable);
    lemma_advance(c);
}

/// The rule [`CompilerView::number`] reads no input.
pub broadcast proof fn lemma_number_input(c: CompilerView)
    ensures
        #![trigger c.number()]
        c.number().same_input(c),
{
    reveal(CompilerView::emit_byte);
    reveal(CompilerView::emit_bytes);
    reveal(CompilerView::emit_constant);
    reveal(CompilerView::error);
    reveal(CompilerView::error_at);
    reveal(CompilerView::make_constant);
    reveal(CompilerView::number);
    broadcast use lemma_resolve_upvalue;
}

/// The rule [`CompilerView::string`] reads no input.
pub broadcast proof fn lemma_string_input(c: CompilerView)
    ensures
        #![trigger c.string()]
        c.string().same_input(c),
{
    reveal(CompilerView::emit_byte);
    reveal(CompilerView::emit_bytes);
    reveal(CompilerView::emit_constant);
    reveal(CompilerView::error);
    reveal(CompilerView::error_at);
    reveal(CompilerView::make_constant);
    reveal(CompilerView::string);
    broadcast use lemma_resolve_upvalue;
}

/// The rule [`CompilerView::literal`] reads no input.
pub broadcast proof fn lemma_literal_input(c: CompilerView)
    ensures
        #![trigger c.literal()]
        c.literal().same_input(c),
{
    reveal(CompilerView::emit_byte);
    reveal(CompilerView::emit_op);
    reveal(CompilerView::literal);
    broadcast use lemma_resolve_upvalue;
}

/// The rule [`CompilerView::resolve`] reads no input.
pub broadcast proof fn lemma_resolve_input(c: CompilerView, name: Seq<char>)
    ensures
        #![trigger c.resolve(name)]
        c.resolve(name).0.same_input(c),
{
    reveal(CompilerView::error);
    reveal(CompilerView::error_at);
    reveal(CompilerView::identifier_constant);
    reveal(CompilerView::make_constant);
    reveal(CompilerView::resolve);
    reveal(CompilerView::resolve_local);
    broadcast use lemma_resolve_upvalue;
}

/// The rule [`CompilerView::binary_operator`] reads no input.
pub broadcast proof fn lemma_binary_operator_input(c: CompilerView, operator: TokenType)
    ensures
        #![trigger c.binary_operator(operator)]
        c.binary_operator(operator).same_input(c),
{
    reveal(CompilerView::binary_operator);
    reveal(CompilerView::emit_byte);
    reveal(CompilerView::emit_op);
    broadcast use lemma_resolve_upvalue;
}

/// The rule [`CompilerView::closure`] reads no input.
pub broadcast proof fn lemma_closure_input(c: CompilerView, index: usize)
    ensures
        #![trigger c.closure(index)]
        c.closure(index).same_input(c),
{
    reveal(CompilerView::closure);
    reveal(CompilerView::make_constant);
    reveal(CompilerView::error);
    reveal(CompilerView::error_at);
    reveal(CompilerView::emit_bytes);
    reveal(CompilerView::emit_byte);
    broadcast use lemma_emit_upvalues;
}

/// A state that a rule returns passes through `within` unchanged, and whatever passes through
/// leaves no more input than there was.
pub broadcast proof fn lemma_within(c: CompilerView, after: CompilerView)
    ensures
        #![trigger c.within(after)]
        c.within(after).remaining() <= c.remaining(),
        after.remaining() <= c.remaining() ==> c.within(after) == after,
{
    reveal(CompilerView::within);
}

/// Reading on keeps the scanner well formed and the source the same, and ends at a token that
/// is no error token; only diagnostics are added.
pub proof fn lemma_scan_on(c: CompilerView)
    requires
        c.scanner.wf(),
    ensures
        c.scan_on().scanner.wf(),
        c.scan_on().scanner.source == c.scanner.source,
        c.scan_on().scanner.current >= c.scanner.current,
        c.scan_on().current.token_type != TokenType::Error,
        c.scan_on().current.token_type != TokenType::Eof ==> c.scan_on().scanner.current
            > c.scanner.current,
        c.scan_on().previous == c.previous,
        c.scan_on().numbers == c.numbers,
        c.scan_on().numbers_used == c.numbers_used,
        c.scan_on().states == c.states,
        c.scan_on().functions == c.functions,
        c.had_error ==> c.scan_on().had_error,
    decreases c.scanner.source.len() - c.scanner.current,
{
    reveal(CompilerView::error_at);
    reveal(CompilerView::error_at_current);
    lemma_scan_token_progress(c.scanner);
    let (scanner, token) = c.scanner.scan_token();
    let read = CompilerView { scanner, current: token, ..c };
    if token.token_type == TokenType::Error {
        lemma_scan_on(read.error_at_current(token.lexeme));
    }
}

/// Advancing never leaves more input than there was, and leaves less unless the current token
/// was the end of the input. What was the current token becomes the previous one, and the
/// functions under compilation are untouched.
pub broadcast proof fn lemma_advance(c: CompilerView)
    ensures
        #![trigger c.advance()]
        c.advance().remaining() <= c.remaining(),
        c.current.token_type != TokenType::Eof ==> c.advance().remaining() < c.remaining(),
        c.advance().previous == c.current,
        c.advance().current.token_type != TokenType::Error,
        c.advance().states == c.states,
        c.advance().functions == c.functions,
        c.had_error ==> c.advance().had_error,
        c.advance().numbers == c.numbers,
        c.advance().scanner.source == c.scanner.source,
        c.scanner.wf() ==> c.advance().scanner.wf(),
{
    reveal(CompilerView::advance);
    let moved = CompilerView {
        previous: c.current,
        numbers_used: if c.current.token_type == TokenType::Number && c.numbers_used < usize::MAX {
            (c.numbers_used + 1) as usize
        } else {
            c.numbers_used
        },
        ..c
    };
    if c.scanner.wf() {
        lemma_scan_on(moved);
    }
}

/// Removing the locals of a scope reads no input and touches no other function.
pub broadcast proof fn lemma_pop_locals(c: CompilerView)
    ensures
        #![trigger c.pop_locals()]
        c.pop_locals().same_input(c),
        c.pop_locals().remaining() == c.remaining(),
        c.pop_locals().states.len() == c.states.len(),
        c.pop_locals().had_error == c.had_error,
        c.pop_locals().panic_mode == c.panic_mode,
        c.pop_locals().diagnostics == c.diagnostics,
        c.pop_locals().functions == c.functions,
    decreases c.state().locals.len(),
{
    reveal(CompilerView::emit_byte);
    reveal(CompilerView::emit_op);
    let locals = c.state().locals;
    if c.states.len() >= 1 && locals.len() > 0 && locals.last().depth > c.state().scope_depth {
        lemma_pop_locals(
            c.emit_op(
                if locals.last().is_captured {
                    OpCode::CloseUpvalue
                } else {
                    OpCode::Pop
                },
            ).with_locals(locals.drop_last()),
        );
    }
}

/// Emitting the bytes for the captured variables reads no input.
pub broadcast proof fn lemma_emit_upvalues(c: CompilerView, upvalues: Seq<UpvalueDescriptor>, i: int)
    ensures
        #![trigger c.emit_upvalues(upvalues, i)]
        c.emit_upvalues(upvalues, i).same_input(c),
        c.emit_upvalues(upvalues, i).remaining() == c.remaining(),
    decreases upvalues.len() - i,
{
    reveal(CompilerView::emit_byte);
    if 0 <= i < upvalues.len() {
        lemma_emit_upvalues(
            c.emit_byte(
                if upvalues[i].is_local {
                    1
                } else {
                    0
                },
            ).emit_byte(upvalues[i].index),
            upvalues,
            i + 1,
        );
    }
}

/// Resolving an upvalue reads no input.
pub broadcast proof fn lemma_resolve_upvalue(c: CompilerView, level: int, name: Seq<char>)
    ensures
        #![trigger c.resolve_upvalue(level, name)]
        c.resolve_upvalue(level, name).0.same_input(c),
        c.resolve_upvalue(level, name).0.remaining() == c.remaining(),
        c.resolve_upvalue(level, name).0.states.len() == c.states.len(),
    decreases level,
{
    reveal(CompilerView::add_upvalue);
    reveal(CompilerView::capture_local);
    reveal(CompilerView::error);
    reveal(CompilerView::error_at);
    reveal(CompilerView::resolve_local);
    if level > 0 && level < c.states.len() {
        let (searched, local) = c.resolve_local(level - 1, name);
        if local is None {
            lemma_resolve_upvalue(searched, level - 1, name);
        }
    }
}

/// The parameters leave no more input than there was.
pub broadcast proof fn lemma_parameters(c: CompilerView)
    ensures
        #![trigger c.parameters()]
        c.parameters().remaining() <= c.remaining(),
    decreases c.remaining(),
{
    reveal(CompilerView::add_local);
    reveal(CompilerView::consume);
    reveal(CompilerView::count_parameter);
    reveal(CompilerView::declare_variable);
    reveal(CompilerView::define_variable);
    reveal(CompilerView::emit_byte);
    reveal(CompilerView::emit_bytes);
    reveal(CompilerView::error);
    reveal(CompilerView::error_at);
    reveal(CompilerView::error_at_current);
    reveal(CompilerView::identifier_constant);
    reveal(CompilerView::make_constant);
    reveal(CompilerView::mark_initialized);
    reveal(CompilerView::match_token);
    reveal(CompilerView::parse_variable);
    lemma_advance(c);
    let (parsed, constant) = c.count_parameter().parse_variable("Expect parameter name."@);
    lemma_advance(c.count_parameter());
    let defined = parsed.define_variable(constant);
    lemma_advance(defined);
    if defined.check(TokenType::Comma) && defined.advance().remaining() < c.remaining() {
        lemma_parameters(defined.advance());
    }
}

/// Skipping to a statement boundary leaves no more input than there was.
pub broadcast proof fn lemma_skip_to_boundary(c: CompilerView)
    ensures
        #![trigger c.skip_to_boundary()]
        c.skip_to_boundary().remaining() <= c.remaining(),
    decreases c.remaining(),
{
    if !(c.current.token_type == TokenType::Eof || c.previous.token_type == TokenType::Semicolon
        || begins_statement(c.current.token_type) || c.advance().remaining() >= c.remaining()) {
        lemma_skip_to_boundary(c.advance());
    }
}

pub broadcast group group_input {
    lemma_closure_input,
    lemma_number_input,
    lemma_string_input,
    lemma_literal_input,
    lemma_resolve_input,
    lemma_binary_operator_input,
    lemma_error_at_input,
    lemma_error_input,
    lemma_error_at_current_input,
    lemma_emit_byte_input,
    lemma_emit_op_input,
    lemma_emit_bytes_input,
    lemma_make_constant_input,
    lemma_emit_constant_input,
    lemma_identifier_constant_input,
    lemma_emit_return_input,
    lemma_emit_jump_input,
    lemma_patch_jump_input,
    lemma_emit_loop_input,
    lemma_begin_scope_input,
    lemma_end_scope_input,
    lemma_add_local_input,
    lemma_declare_variable_input,
    lemma_mark_initialized_input,
    lemma_define_variable_input,
    lemma_resolve_local_input,
    lemma_capture_local_input,
    lemma_add_upvalue_input,
    lemma_push_state_input,
    lemma_end_compiler_input,
    lemma_count_parameter_input,
    lemma_match_token,
    lemma_consume,
    lemma_parse_variable,
    lemma_within,
    lemma_advance,
    lemma_pop_locals,
    lemma_emit_upvalues,
    lemma_resolve_upvalue,
    lemma_parameters,
    lemma_skip_to_boundary,
}

impl CompilerView {
    /// Unless an error was reported, is every finished function made of whole instructions?
    pub open spec fn sound(self) -> bool {
        !self.had_error ==> forall|i: int|
            0 <= i < self.functions.len() ==> well_formed(
                (#[trigger] self.functions[i]).chunk,
                self.functions,
            )
    }

    /// Did the innermost function grow from what it was in `before`: the code, the constants
    /// and the finished functions of `before` are kept and, unless an error was reported, what
    /// was added to the code is made of whole instructions, and the finished functions are
    /// sound if they were.
    #[verifier::opaque]
    pub open spec fn grows(self, before: CompilerView) -> bool {
        &&& before.had_error ==> self.had_error
        &&& keeps(
            self.chunk(),
            self.functions,
            before.chunk(),
            before.functions,
            0,
            before.chunk().code.len() as int,
        )
        &&& !self.had_error ==> decodes(
            self.chunk(),
            self.functions,
            before.chunk().code.len() as int,
            self.chunk().code.len() as int,
        )
        &&& before.sound() ==> self.sound()
    }

    /// Is `self` what `before` is but for the two bytes at `offset`, which are the operand of
    /// a jump?
    #[verifier::opaque]
    pub open spec fn patches(self, before: CompilerView, offset: int) -> bool {
        &&& before.had_error ==> self.had_error
        &&& self.functions == before.functions
        &&& self.chunk().constants == before.chunk().constants
        &&& self.chunk().code.len() == before.chunk().code.len()
        &&& forall|i: int|
            0 <= i < self.chunk().code.len() && i != offset && i != offset + 1
                ==> #[trigger] self.chunk().code[i] == before.chunk().code[i]
    }

    /// Did the innermost function grow from what it was in `before`, but for a jump whose
    /// operand, at `offset`, is yet to be patched: the jump stands between whole instructions.
    #[verifier::opaque]
    pub open spec fn pending(self, before: CompilerView, offset: int) -> bool {
        &&& before.had_error ==> self.had_error
        &&& keeps(
            self.chunk(),
            self.functions,
            before.chunk(),
            before.functions,
            0,
            before.chunk().code.len() as int,
        )
        &&& before.chunk().code.len() < offset
        &&& offset + 2 <= self.chunk().code.len()
        &&& is_jump(self.chunk().code[offset - 1])
        &&& !self.had_error ==> decodes(
            self.chunk(),
            self.functions,
            before.chunk().code.len() as int,
            offset - 1,
        ) && decodes(self.chunk(), self.functions, offset + 2, self.chunk().code.len() as int)
        &&& before.sound() ==> self.sound()
    }
}

/// What leaves the code and the finished functions as they are, and adds at most to the
/// constants, makes the function grow by no code.
pub broadcast proof fn lemma_grows_by_nothing(after: CompilerView, before: CompilerView)
    ensures
        #![trigger after.grows(before)]
        (before.had_error ==> after.had_error) && after.functions == before.functions
            && after.chunk().code == before.chunk().code && (after.chunk().constants
            == before.chunk().constants || after.chunk().constants.drop_last()
            == before.chunk().constants && after.chunk().constants.len() > 0) ==> after.grows(
            before,
        ),
{
    reveal(CompilerView::grows);
    if after.chunk().constants.len() > 0 && after.chunk().constants.drop_last()
        == before.chunk().constants {
        assert forall|i: int| 0 <= i < before.chunk().constants.len() implies after.chunk().constants[i]
            == #[trigger] before.chunk().constants[i] by {
            assert(after.chunk().constants.drop_last()[i] == after.chunk().constants[i]);
        }
    }
}

/// One whole instruction, added to the code, makes the function grow.
pub proof fn lemma_grows_by_instruction(after: CompilerView, before: CompilerView, n: int)
    requires
        before.had_error ==> after.had_error,
        after.functions == before.functions,
        after.chunk().constants == before.chunk().constants,
        after.chunk().code.len() == before.chunk().code.len() + n,
        after.chunk().code.take(before.chunk().code.len() as int) == before.chunk().code,
        crate::code::instruction_len(
            after.chunk(),
            after.functions,
            before.chunk().code.len() as int,
        ) == Some(n),
        n > 0,
    ensures
        after.grows(before),
{
    reveal(CompilerView::grows);
    let start = before.chunk().code.len() as int;
    assert forall|i: int| 0 <= i < start implies #[trigger] after.chunk().code[i]
        == before.chunk().code[i] by {
        assert(after.chunk().code.take(start)[i] == before.chunk().code[i]);
    }
    assert(decodes(after.chunk(), after.functions, start + n, start + n));
}

/// A jump that is pending behind what grew is pending from where the growth began.
pub proof fn lemma_pending_from(a: CompilerView, b: CompilerView, c: CompilerView, offset: int)
    requires
        b.grows(a),
        c.pending(b, offset),
    ensures
        c.pending(a, offset),
{
    reveal(CompilerView::grows);
    reveal(CompilerView::pending);
    let middle = b.chunk().code.len() as int;
    if !c.had_error {
        lemma_decodes_is_kept(
            c.chunk(),
            c.functions,
            b.chunk(),
            b.functions,
            a.chunk().code.len() as int,
            middle,
        );
        lemma_decodes_joins(c.chunk(), c.functions, a.chunk().code.len() as int, middle, offset - 1);
    }
}

/// Growth goes on: what grew from a state that grew from another grew from that other.
pub broadcast proof fn lemma_grows_on(a: CompilerView, b: CompilerView, c: CompilerView)
    requires
        #[trigger] b.grows(a),
        #[trigger] c.grows(b),
    ensures
        c.grows(a),
{
    reveal(CompilerView::grows);
    let middle = b.chunk().code.len() as int;
    if !c.had_error {
        lemma_decodes_is_kept(
            c.chunk(),
            c.functions,
            b.chunk(),
            b.functions,
            a.chunk().code.len() as int,
            middle,
        );
        lemma_decodes_joins(
            c.chunk(),
            c.functions,
            a.chunk().code.len() as int,
            middle,
            c.chunk().code.len() as int,
        );
    }
}

/// A jump with its placeholder, added to the code, is pending, and makes the function grow.
pub proof fn lemma_pending_begins(before: CompilerView, jumped: CompilerView)
    requires
        before.had_error ==> jumped.had_error,
        jumped.functions == before.functions,
        jumped.chunk().constants == before.chunk().constants,
        jumped.chunk().code.len() == before.chunk().code.len() + 3,
        jumped.chunk().code.take(before.chunk().code.len() as int) == before.chunk().code,
        is_jump(jumped.chunk().code[before.chunk().code.len() as int]),
    ensures
        jumped.pending(before, (before.chunk().code.len() + 1) as int),
        jumped.grows(before),
{
    reveal(CompilerView::pending);
    let start = before.chunk().code.len() as int;
    lemma_jump_len(jumped.chunk(), jumped.functions, start);
    lemma_grows_by_instruction(jumped, before, 3);
    assert forall|i: int| 0 <= i < start implies #[trigger] jumped.chunk().code[i]
        == before.chunk().code[i] by {
        assert(jumped.chunk().code.take(start)[i] == before.chunk().code[i]);
    }
    assert(decodes(jumped.chunk(), jumped.functions, start, start));
    assert(decodes(jumped.chunk(), jumped.functions, start + 3, start + 3));
}

/// A pending jump stays pending while the function grows.
pub proof fn lemma_pending_stays(a: CompilerView, b: CompilerView, c: CompilerView, offset: int)
    requires
        b.pending(a, offset),
        c.grows(b),
    ensures
        c.pending(a, offset),
{
    reveal(CompilerView::grows);
    reveal(CompilerView::pending);
    let middle = b.chunk().code.len() as int;
    assert(c.chunk().code[offset - 1] == b.chunk().code[offset - 1]);
    if !c.had_error {
        lemma_decodes_is_kept(
            c.chunk(),
            c.functions,
            b.chunk(),
            b.functions,
            a.chunk().code.len() as int,
            offset - 1,
        );
        lemma_decodes_is_kept(c.chunk(), c.functions, b.chunk(), b.functions, offset + 2, middle);
        lemma_decodes_joins(
            c.chunk(),
            c.functions,
            offset + 2,
            middle,
            c.chunk().code.len() as int,
        );
    }
}

/// Patching the pending jump makes what the function grew by whole.
pub proof fn lemma_patched_grows(a: CompilerView, b: CompilerView, c: CompilerView, offset: int)
    requires
        b.pending(a, offset),
        c.patches(b, offset),
    ensures
        c.grows(a),
{
    reveal(CompilerView::grows);
    reveal(CompilerView::pending);
    reveal(CompilerView::patches);
    let from = a.chunk().code.len() as int;
    let end = c.chunk().code.len() as int;
    if !c.had_error {
        lemma_decodes_is_kept(c.chunk(), c.functions, b.chunk(), b.functions, from, offset - 1);
        lemma_decodes_is_kept(c.chunk(), c.functions, b.chunk(), b.functions, offset + 2, end);
        lemma_jump_len(c.chunk(), c.functions, offset - 1);
        lemma_decodes_joins(c.chunk(), c.functions, from, offset - 1, end);
    }
}

/// Patching one of two pending jumps, the one that comes first, leaves the other pending.
pub proof fn lemma_patched_pending(
    a: CompilerView,
    b: CompilerView,
    c: CompilerView,
    first: int,
    second: int,
)
    requires
        b.pending(a, first),
        b.pending(a, second),
        first + 2 < second,
        c.patches(b, first),
    ensures
        c.pending(a, second),
{
    reveal(CompilerView::pending);
    reveal(CompilerView::patches);
    let from = a.chunk().code.len() as int;
    let end = c.chunk().code.len() as int;
    if !c.had_error {
        lemma_jump_len(b.chunk(), b.functions, first - 1);
        assert(decodes(b.chunk(), b.functions, first - 1, first + 2)) by {
            assert(decodes(b.chunk(), b.functions, first + 2, first + 2));
        }
        lemma_decodes_joins(b.chunk(), b.functions, from, first - 1, first + 2);
        lemma_decodes_splits(b.chunk(), b.functions, from, first + 2, second - 1);
        lemma_decodes_is_kept(c.chunk(), c.functions, b.chunk(), b.functions, from, first - 1);
        lemma_decodes_is_kept(
            c.chunk(),
            c.functions,
            b.chunk(),
            b.functions,
            first + 2,
            second - 1,
        );
        lemma_decodes_is_kept(c.chunk(), c.functions, b.chunk(), b.functions, second + 2, end);
        lemma_jump_len(c.chunk(), c.functions, first - 1);
        lemma_decodes_joins(c.chunk(), c.functions, from, first - 1, second - 1);
    }
}

/// What grew from a state without code and without finished functions is made of whole
/// instructions, and so are its finished functions.
pub proof fn lemma_grown_from_nothing(before: CompilerView, after: CompilerView)
    requires
        after.grows(before),
        before.chunk().code.len() == 0,
        before.functions.len() == 0,
    ensures
        after.sound(),
        !after.had_error ==> decodes(
            after.chunk(),
            after.functions,
            0,
            after.chunk().code.len() as int,
        ),
{
    reveal(CompilerView::grows);
}

/// What grew from a state without code is made of whole instructions, and its finished
/// functions are sound if they were.
pub proof fn lemma_grown_from_nothing_code(before: CompilerView, after: CompilerView)
    requires
        after.grows(before),
        before.chunk().code.len() == 0,
    ensures
        before.sound() ==> after.sound(),
        before.had_error ==> after.had_error,
        !after.had_error ==> decodes(
            after.chunk(),
            after.functions,
            0,
            after.chunk().code.len() as int,
        ),
        forall|i: int|
            0 <= i < before.functions.len() ==> #[trigger] after.functions[i]
                == before.functions[i],
        before.functions.len() <= after.functions.len(),
{
    reveal(CompilerView::grows);
}

/// A function that ends with the implicit return, and whose code is made of whole
/// instructions before it, is sound among the finished functions, and they stay sound.
pub proof fn lemma_finished_is_sound(
    before: CompilerView,
    returned: CompilerView,
    ended: CompilerView,
)
    requires
        returned.grows(before),
        returned.had_error == before.had_error,
        ended.had_error == returned.had_error,
        ended.functions == returned.functions.push(returned.state().function),
    ensures
        before.sound() && (!before.had_error ==> decodes(
            before.chunk(),
            before.functions,
            0,
            before.chunk().code.len() as int,
        )) ==> ended.sound(),
{
    reveal(CompilerView::grows);
    if before.sound() && !before.had_error && decodes(
        before.chunk(),
        before.functions,
        0,
        before.chunk().code.len() as int,
    ) {
        let middle = before.chunk().code.len() as int;
        let chunk = returned.chunk();
        lemma_decodes_is_kept(chunk, returned.functions, before.chunk(), before.functions, 0, middle);
        lemma_decodes_joins(chunk, returned.functions, 0, middle, chunk.code.len() as int);
        assert forall|i: int| 0 <= i < ended.functions.len() implies well_formed(
            (#[trigger] ended.functions[i]).chunk,
            ended.functions,
        ) by {
            let f = ended.functions[i].chunk;
            if i < returned.functions.len() {
                assert(well_formed(returned.functions[i].chunk, returned.functions));
            }
            lemma_decodes_is_kept(
                f,
                ended.functions,
                f,
                returned.functions,
                0,
                f.code.len() as int,
            );
        }
    }
}

/// The constant and the `Closure` instruction for a finished function, with the bytes for
/// the variables that the function captures, make the function grow by one whole instruction.
pub proof fn lemma_closure_grows(
    before: CompilerView,
    made: CompilerView,
    emitted: CompilerView,
    after: CompilerView,
    constant: u8,
    index: usize,
)
    requires
        index < before.functions.len(),
        made.grows(before),
        made.functions == before.functions,
        made.chunk().code == before.chunk().code,
        !made.had_error ==> constant == before.chunk().constants.len() && made.chunk().constants
            == before.chunk().constants.push(ValueView::Func(index)),
        emitted.functions == made.functions,
        emitted.had_error == made.had_error,
        emitted.chunk().constants == made.chunk().constants,
        emitted.chunk().code == made.chunk().code.push(OpCode::Closure.byte()).push(constant),
        after.functions == emitted.functions,
        after.had_error == emitted.had_error,
        after.chunk().constants == emitted.chunk().constants,
        after.chunk().code.len() == emitted.chunk().code.len() + 2
            * emitted.functions[index as int].upvalues.len(),
        after.chunk().code.take(emitted.chunk().code.len() as int) == emitted.chunk().code,
    ensures
        after.grows(before),
{
    reveal(CompilerView::grows);
    let start = before.chunk().code.len() as int;
    assert forall|i: int| 0 <= i < start + 2 implies #[trigger] after.chunk().code[i]
        == emitted.chunk().code[i] by {
        assert(after.chunk().code.take(start + 2)[i] == emitted.chunk().code[i]);
    }
    if !after.had_error {
        assert(after.chunk().constants[constant as int] == ValueView::Func(index));
        assert(decodes(
            after.chunk(),
            after.functions,
            after.chunk().code.len() as int,
            after.chunk().code.len() as int,
        ));
    }
}

/// A nested function that is finished leaves the enclosing function as it was; unless an
/// error was reported, it is made of whole instructions, as the finished functions before it
/// are.
pub proof fn lemma_nested_grows(
    before: CompilerView,
    pushed: CompilerView,
    body: CompilerView,
    ended: CompilerView,
)
    requires
        pushed.functions == before.functions,
        pushed.had_error == before.had_error,
        pushed.chunk().code.len() == 0,
        body.grows(pushed),
        ended.chunk() == before.chunk(),
        ended.had_error == body.had_error,
        ended.functions.len() == body.functions.len() + 1,
        ended.functions.drop_last() == body.functions,
        body.sound() && (!body.had_error ==> decodes(
            body.chunk(),
            body.functions,
            0,
            body.chunk().code.len() as int,
        )) ==> ended.sound(),
    ensures
        ended.grows(before),
{
    reveal(CompilerView::grows);
    assert forall|i: int| 0 <= i < before.functions.len() implies #[trigger] ended.functions[i]
        == before.functions[i] by {
        assert(ended.functions.drop_last()[i] == ended.functions[i]);
    }
    assert(decodes(
        ended.chunk(),
        ended.functions,
        ended.chunk().code.len() as int,
        ended.chunk().code.len() as int,
    ));
}

pub broadcast group group_growth {
    lemma_grows_by_nothing,
    lemma_grows_on,
}

impl CompilerView {
    /// Is the code of the innermost function what it was in `before`, with more behind it, in
    /// the same nest of functions?
    pub open spec fn appends(self, before: CompilerView) -> bool {
        &&& self.states.len() == before.states.len()
        &&& before.chunk().code.len() <= self.chunk().code.len()
        &&& self.chunk().code.take(before.chunk().code.len() as int) == before.chunk().code
    }
}

/// Appending goes on: what appended to a state that appended to another appended to that
/// other.
pub broadcast proof fn lemma_appends_on(a: CompilerView, b: CompilerView, c: CompilerView)
    requires
        #[trigger] b.appends(a),
        #[trigger] c.appends(b),
    ensures
        c.appends(a),
{
    let n = a.chunk().code.len() as int;
    let m = b.chunk().code.len() as int;
    assert forall|i: int| 0 <= i < n implies c.chunk().code[i] == a.chunk().code[i] by {
        assert(c.chunk().code.take(m)[i] == b.chunk().code[i]);
        assert(b.chunk().code.take(n)[i] == a.chunk().code[i]);
    }
    assert(c.chunk().code.take(n) =~= a.chunk().code);
}

/// What leaves the functions under compilation as they are appends nothing.
pub broadcast proof fn lemma_appends_nothing(after: CompilerView, before: CompilerView)
    ensures
        #![trigger after.appends(before)]
        after.states.len() == before.states.len() && after.chunk().code == before.chunk().code
            ==> after.appends(before),
{
    assert(before.chunk().code.take(before.chunk().code.len() as int) =~= before.chunk().code);
}

/// `within` hands on one of its two states.
pub broadcast proof fn lemma_within_appends(c: CompilerView, after: CompilerView)
    ensures
        #![trigger c.within(after)]
        c.within(after) == after || c.within(after) == c,
{
    reveal(CompilerView::within);
}

/// Reporting an error leaves the functions under compilation as they are.
pub broadcast proof fn lemma_error_at_code(c: CompilerView, token: TokenView, message: Seq<char>)
    ensures
        #![trigger c.error_at(token, message)]
        c.error_at(token, message).states == c.states,
        c.error_at(token, message).functions == c.functions,
{
    reveal(CompilerView::error_at);
}

pub broadcast proof fn lemma_error_code(c: CompilerView, message: Seq<char>)
    ensures
        #![trigger c.error(message)]
        c.error(message).states == c.states,
        c.error(message).functions == c.functions,
{
    reveal(CompilerView::error);
    reveal(CompilerView::error_at);
}

pub broadcast proof fn lemma_error_at_current_code(c: CompilerView, message: Seq<char>)
    ensures
        #![trigger c.error_at_current(message)]
        c.error_at_current(message).states == c.states,
        c.error_at_current(message).functions == c.functions,
{
    reveal(CompilerView::error_at_current);
    reveal(CompilerView::error_at);
}

/// Consuming a token leaves the functions under compilation as they are.
pub broadcast proof fn lemma_consume_code(c: CompilerView, expected: TokenType, message: Seq<char>)
    ensures
        #![trigger c.consume(expected, message)]
        c.consume(expected, message).states == c.states,
{
    reveal(CompilerView::consume);
    reveal(CompilerView::error_at_current);
    reveal(CompilerView::error_at);
    lemma_advance(c);
}

pub broadcast proof fn lemma_match_token_code(c: CompilerView, expected: TokenType)
    ensures
        #![trigger c.match_token(expected)]
        c.match_token(expected).states == c.states,
        c.check(expected) ==> c.match_token(expected) == c.advance(),
        !c.check(expected) ==> c.match_token(expected) == c,
{
    reveal(CompilerView::match_token);
    lemma_advance(c);
}

/// Emitting a byte appends it to the code of the innermost function.
pub broadcast proof fn lemma_emit_byte_code(c: CompilerView, byte: u8)
    requires
        c.states.len() >= 1,
    ensures
        #![trigger c.emit_byte(byte)]
        c.emit_byte(byte).states.len() == c.states.len(),
        c.emit_byte(byte).chunk().code == c.chunk().code.push(byte),
        c.emit_byte(byte).previous == c.previous,
{
    reveal(CompilerView::emit_byte);
}

pub broadcast proof fn lemma_emit_op_code(c: CompilerView, op: OpCode)
    requires
        c.states.len() >= 1,
    ensures
        #![trigger c.emit_op(op)]
        c.emit_op(op).states.len() == c.states.len(),
        c.emit_op(op).chunk().code == c.chunk().code.push(op.byte()),
        c.emit_op(op).appends(c),
{
    reveal(CompilerView::emit_op);
    lemma_emit_byte_code(c, op.byte());
    assert(c.chunk().code.push(op.byte()).take(c.chunk().code.len() as int) =~= c.chunk().code);
}

pub broadcast proof fn lemma_emit_bytes_code(c: CompilerView, byte1: u8, byte2: u8)
    requires
        c.states.len() >= 1,
    ensures
        #![trigger c.emit_bytes(byte1, byte2)]
        c.emit_bytes(byte1, byte2).states.len() == c.states.len(),
        c.emit_bytes(byte1, byte2).chunk().code == c.chunk().code.push(byte1).push(byte2),
        c.emit_bytes(byte1, byte2).appends(c),
{
    reveal(CompilerView::emit_bytes);
    lemma_emit_byte_code(c, byte1);
    lemma_emit_byte_code(c.emit_byte(byte1), byte2);
    assert(c.chunk().code.push(byte1).push(byte2).take(c.chunk().code.len() as int)
        =~= c.chunk().code);
}

/// Adding a constant leaves the code as it is.
pub broadcast proof fn lemma_make_constant_code(c: CompilerView, value: ValueView)
    requires
        c.states.len() >= 1,
    ensures
        #![trigger c.make_constant(value)]
        c.make_constant(value).0.states.len() == c.states.len(),
        c.make_constant(value).0.chunk().code == c.chunk().code,
{
    reveal(CompilerView::make_constant);
    reveal(CompilerView::error);
    reveal(CompilerView::error_at);
}

pub broadcast proof fn lemma_emit_constant_code(c: CompilerView, value: ValueView)
    requires
        c.states.len() >= 1,
    ensures
        #![trigger c.emit_constant(value)]
        c.emit_constant(value).appends(c),
{
    reveal(CompilerView::emit_constant);
    lemma_make_constant_code(c, value);
    let (made, index) = c.make_constant(value);
    lemma_emit_bytes_code(made, OpCode::Constant.byte(), index);
    lemma_appends_nothing(made, c);
    lemma_appends_on(c, made, made.emit_bytes(OpCode::Constant.byte(), index));
}

/// A jump with its placeholder is appended as three bytes; the offset that is kept for
/// patching is that of the first byte of the placeholder.
pub broadcast proof fn lemma_emit_jump_code(c: CompilerView, op: OpCode)
    requires
        c.states.len() >= 1,
    ensures
        #![trigger c.emit_jump(op)]
        c.emit_jump(op).0.states.len() == c.states.len(),
        c.emit_jump(op).0.chunk().code == c.chunk().code.push(op.byte()).push(0xff).push(0xff),
        c.emit_jump(op).1 == c.chunk().code.len() + 1,
        c.emit_jump(op).0.appends(c),
{
    reveal(CompilerView::emit_jump);
    lemma_emit_op_code(c, op);
    lemma_emit_byte_code(c.emit_op(op), 0xff);
    lemma_emit_byte_code(c.emit_op(op).emit_byte(0xff), 0xff);
    assert(c.chunk().code.push(op.byte()).push(0xff).push(0xff).take(
        c.chunk().code.len() as int,
    ) =~= c.chunk().code);
}

/// Patching a jump writes the distance from behind the placeholder to the end of the code
/// into the placeholder, and leaves the rest of the code as it is.
pub broadcast proof fn lemma_patch_jump_code(c: CompilerView, offset: int)
    requires
        c.states.len() >= 1,
        0 <= offset,
        offset + 2 <= c.chunk().code.len(),
    ensures
        #![trigger c.patch_jump(offset)]
        c.patch_jump(offset).states.len() == c.states.len(),
        c.patch_jump(offset).chunk().code == c.chunk().code.update(
            offset,
            high_byte(c.chunk().code.len() - offset - 2),
        ).update(offset + 1, low_byte(c.chunk().code.len() - offset - 2)),
{
    reveal(CompilerView::patch_jump);
    reveal(CompilerView::error);
    reveal(CompilerView::error_at);
}

/// The literal rules and the operator of a binary expression append to the code.
pub broadcast proof fn lemma_number_code(c: CompilerView)
    requires
        c.states.len() >= 1,
    ensures
        #![trigger c.number()]
        c.number().appends(c),
{
    reveal(CompilerView::number);
    if 1 <= c.numbers_used <= c.numbers.len() {
        lemma_emit_constant_code(c, ValueView::Number(c.numbers[c.numbers_used - 1]));
    } else {
        lemma_error_code(c, "Number literal has no value."@);
        lemma_appends_nothing(c.error("Number literal has no value."@), c);
    }
}

pub broadcast proof fn lemma_string_code(c: CompilerView)
    requires
        c.states.len() >= 1,
    ensures
        #![trigger c.string()]
        c.string().appends(c),
{
    reveal(CompilerView::string);
    let lexeme = c.previous.lexeme;
    lemma_emit_constant_code(
        c,
        ValueView::String(
            if lexeme.len() >= 2 {
                lexeme.subrange(1, lexeme.len() - 1)
            } else {
                Seq::empty()
            },
        ),
    );
}

pub broadcast proof fn lemma_literal_code(c: CompilerView)
    requires
        c.states.len() >= 1,
    ensures
        #![trigger c.literal()]
        c.literal().appends(c),
{
    reveal(CompilerView::literal);
    lemma_emit_op_code(c, OpCode::True);
    lemma_emit_op_code(c, OpCode::False);
    lemma_emit_op_code(c, OpCode::Nil);
    lemma_appends_nothing(c, c);
}

pub broadcast proof fn lemma_binary_operator_code(c: CompilerView, operator: TokenType)
    requires
        c.states.len() >= 1,
    ensures
        #![trigger c.binary_operator(operator)]
        c.binary_operator(operator).appends(c),
{
    reveal(CompilerView::binary_operator);
    lemma_appends_nothing(c, c);
    lemma_emit_op_code(c, OpCode::Add);
    lemma_emit_op_code(c, OpCode::Subtract);
    lemma_emit_op_code(c, OpCode::Multiply);
    lemma_emit_op_code(c, OpCode::Divide);
    lemma_emit_op_code(c, OpCode::Equal);
    lemma_emit_op_code(c, OpCode::Greater);
    lemma_emit_op_code(c, OpCode::Less);
    lemma_emit_op_code(c.emit_op(OpCode::Equal), OpCode::Not);
    lemma_emit_op_code(c.emit_op(OpCode::Less), OpCode::Not);
    lemma_emit_op_code(c.emit_op(OpCode::Greater), OpCode::Not);
    lemma_appends_on(c, c.emit_op(OpCode::Equal), c.emit_op(OpCode::Equal).emit_op(OpCode::Not));
    lemma_appends_on(c, c.emit_op(OpCode::Less), c.emit_op(OpCode::Less).emit_op(OpCode::Not));
    lemma_appends_on(
        c,
        c.emit_op(OpCode::Greater),
        c.emit_op(OpCode::Greater).emit_op(OpCode::Not),
    );
}

/// Resolving an upvalue leaves the chunks of all functions as they are.
pub proof fn lemma_resolve_upvalue_code(c: CompilerView, level: int, name: Seq<char>)
    ensures
        c.resolve_upvalue(level, name).0.states.len() == c.states.len(),
        forall|i: int|
            0 <= i < c.states.len() ==> (#[trigger] c.resolve_upvalue(
                level,
                name,
            ).0.states[i]).function.chunk == c.states[i].function.chunk,
    decreases level,
{
    reveal(CompilerView::resolve_local);
    reveal(CompilerView::capture_local);
    reveal(CompilerView::add_upvalue);
    reveal(CompilerView::error);
    reveal(CompilerView::error_at);
    if level > 0 && level < c.states.len() {
        let (searched, local) = c.resolve_local(level - 1, name);
        if local is None {
            lemma_resolve_upvalue_code(searched, level - 1, name);
        }
    }
}

/// Finding out where a variable lives leaves the code as it is.
pub broadcast proof fn lemma_resolve_code(c: CompilerView, name: Seq<char>)
    requires
        c.states.len() >= 1,
    ensures
        #![trigger c.resolve(name)]
        c.resolve(name).0.states.len() == c.states.len(),
        c.resolve(name).0.chunk().code == c.chunk().code,
{
    reveal(CompilerView::resolve);
    reveal(CompilerView::resolve_local);
    reveal(CompilerView::identifier_constant);
    reveal(CompilerView::error);
    reveal(CompilerView::error_at);
    let top = c.states.len() - 1;
    let (searched, local) = c.resolve_local(top, name);
    if local is None {
        lemma_resolve_upvalue_code(searched, top, name);
        let (outer, upvalue) = searched.resolve_upvalue(top, name);
        if upvalue is None {
            lemma_make_constant_code(outer, ValueView::String(name));
        }
    }
}

pub broadcast group group_appends {
    lemma_appends_on,
    lemma_appends_nothing,
    lemma_within_appends,
    lemma_error_at_code,
    lemma_error_code,
    lemma_error_at_current_code,
    lemma_consume_code,
    lemma_match_token_code,
    lemma_emit_op_code,
    lemma_emit_bytes_code,
    lemma_emit_constant_code,
    lemma_emit_jump_code,
    lemma_patch_jump_code,
    lemma_number_code,
    lemma_string_code,
    lemma_literal_code,
    lemma_binary_operator_code,
    lemma_resolve_code,
}

} // verus!
