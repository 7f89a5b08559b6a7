//! The single-pass compiler: a Pratt parser that emits bytecode while it resolves scopes and
//! closures.

use vstd::prelude::*;
use crate::chunk::OpCode;
use crate::code::decodes;
use crate::code::is_jump;
use crate::code::well_formed;
use crate::compiler_model::BYTE_COUNT;
use crate::compiler_model::CompilerView;
use crate::compiler_model::FuncStateView;
use crate::compiler_model::LOCALS_MAX;
use crate::compiler_model::LocalView;
use crate::compiler_model::declared_in_scope;
use crate::compiler_model::find_local;
use crate::compiler_model::find_upvalue;
use crate::compiler_model::function_ok;
use crate::compiler_model::group_growth;
use crate::compiler_model::group_input;
use crate::compiler_model::high_byte;
use crate::compiler_model::lemma_closure_grows;
use crate::compiler_model::lemma_finished_is_sound;
use crate::compiler_model::lemma_grown_from_nothing;
use crate::compiler_model::lemma_grown_from_nothing_code;
use crate::compiler_model::lemma_grows_by_instruction;
use crate::compiler_model::lemma_nested_grows;
use crate::compiler_model::lemma_patched_grows;
use crate::compiler_model::lemma_patched_pending;
use crate::compiler_model::lemma_pending_begins;
use crate::compiler_model::lemma_pending_from;
use crate::compiler_model::lemma_pending_stays;
use crate::compiler_model::lemma_scan_on;
use crate::compiler_model::location_of;
use crate::compiler_model::low_byte;
use crate::diagnostic::Diagnostic;
use crate::diagnostic::DiagnosticView;
use crate::diagnostic::diagnostics_view;
use crate::grammar::compile_spec;
use crate::grammar::lemma_and_;
use crate::grammar::lemma_apply;
use crate::grammar::lemma_argument_list;
use crate::grammar::lemma_arguments;
use crate::grammar::lemma_binary;
use crate::grammar::lemma_block;
use crate::grammar::lemma_block_loop;
use crate::grammar::lemma_call;
use crate::grammar::lemma_declaration;
use crate::grammar::lemma_declarations;
use crate::grammar::lemma_expression;
use crate::grammar::lemma_expression_statement;
use crate::grammar::lemma_for_condition;
use crate::grammar::lemma_for_increment;
use crate::grammar::lemma_for_initializer;
use crate::grammar::lemma_for_loop;
use crate::grammar::lemma_for_statement;
use crate::grammar::lemma_func_declaration;
use crate::grammar::lemma_function;
use crate::grammar::lemma_function_body;
use crate::grammar::lemma_grouping;
use crate::grammar::lemma_if_statement;
use crate::grammar::lemma_infix_loop;
use crate::grammar::lemma_named_variable;
use crate::grammar::lemma_or_;
use crate::grammar::lemma_parse_precedence;
use crate::grammar::lemma_print_statement;
use crate::grammar::lemma_return_statement;
use crate::grammar::lemma_statement;
use crate::grammar::lemma_unary;
use crate::grammar::lemma_var_declaration;
use crate::grammar::lemma_variable;
use crate::grammar::lemma_while_statement;
use crate::rules::ParseFn;
use crate::rules::ParseRule;
use crate::rules::Precedence;
use crate::scanner::Scanner;
use crate::scanner::Token;
use crate::scanner::TokenType;
use crate::scanner::lemma_scan_token_progress;
use crate::text::chars_of;
use crate::text::push_text;
use crate::text::string_of;
use crate::value::Function;
use crate::value::FunctionType;
use crate::value::FunctionView;
use crate::value::UpvalueDescriptor;
use crate::value::Value;
use crate::value::functions_view;
use crate::vm_model::operand_bytes;

verus! {

broadcast use {group_input, group_growth};

#[derive(Debug)]
struct Parser {
    current: Token,
    previous: Token,
    had_error: bool,
    panic_mode: bool,
}

/// A local variable of the function that is being compiled.
#[derive(Debug)]
pub struct Local {
    pub name: Token,
    /// The depth of the scope that declared the variable; -1 until its initializer is compiled.
    pub depth: i32,
    /// Does a nested function capture the variable?
    pub is_captured: bool,
}

impl View for Local {
    type V = LocalView;

    open spec fn view(&self) -> LocalView {
        LocalView { name: self.name@, depth: self.depth, is_captured: self.is_captured }
    }
}

impl Local {
    pub fn new(name: Token, depth: i32) -> (r: Local)
        ensures
            r@ == (LocalView { name: name@, depth, is_captured: false }),
    {
        Local { name, depth, is_captured: false }
    }
}

/// The views of a sequence of locals.
pub open spec fn locals_view(s: Seq<Local>) -> Seq<LocalView> {
    Seq::new(s.len(), |i: int| s[i]@)
}

/// The state of one function under compilation.
#[derive(Debug)]
pub struct CompilerState {
    function: Function,
    function_type: FunctionType,
    locals: Vec<Local>,
    scope_depth: i32,
}

impl View for CompilerState {
    type V = FuncStateView;

    closed spec fn view(&self) -> FuncStateView {
        FuncStateView {
            function: self.function@,
            function_type: self.function_type,
            locals: locals_view(self.locals@),
            scope_depth: self.scope_depth,
        }
    }
}

impl CompilerState {
    /// The state at the beginning of an unnamed function.
    pub fn new(function_type: FunctionType) -> (r: CompilerState)
        ensures
            r@ == FuncStateView::new(function_type, Seq::empty()),
    {
        CompilerState::named(function_type, String::new())
    }

    /// The state at the beginning of a function with the given name.
    pub fn named(function_type: FunctionType, name: String) -> (r: CompilerState)
        ensures
            r@ == FuncStateView::new(function_type, name@),
    {
        let mut function = Function::new();
        function.name = name;
        let mut locals: Vec<Local> = Vec::new();
        locals.push(Local::new(Token::default(), 0));
        let r = CompilerState { function, function_type, locals, scope_depth: 0 };
        assert(r@.locals =~= FuncStateView::new(function_type, name@).locals);
        r
    }
}

/// The views of a sequence of function states.
pub open spec fn states_view(s: Seq<CompilerState>) -> Seq<FuncStateView> {
    Seq::new(s.len(), |i: int| s[i]@)
}

/// The compiler.
#[derive(Debug)]
pub struct Compiler {
    scanner: Scanner,
    parser: Parser,
    diagnostics: Vec<Diagnostic>,
    numbers: Vec<u64>,
    numbers_used: usize,
    states: Vec<CompilerState>,
    functions: Vec<Function>,
}

impl View for Compiler {
    type V = CompilerView;

    closed spec fn view(&self) -> CompilerView {
        CompilerView {
            scanner: self.scanner@,
            current: self.parser.current@,
            previous: self.parser.previous@,
            had_error: self.parser.had_error,
            panic_mode: self.parser.panic_mode,
            diagnostics: diagnostics_view(self.diagnostics@),
            numbers: self.numbers@,
            numbers_used: self.numbers_used,
            states: states_view(self.states@),
            functions: functions_view(self.functions@),
        }
    }
}

/// The text that tells where in the line a diagnostic was found.
fn location(token: &Token) -> (r: String)
    ensures
        r@ == location_of(token@),
{
    match token.token_type {
        TokenType::Eof => " at end".to_owned(),
        TokenType::Error => String::new(),
        _ => {
            let mut out = " at '".to_owned();
            push_text(&mut out, token.lexeme.as_str());
            push_text(&mut out, "'");
            out
        },
    }
}

impl Compiler {
    /// A compiler for a source that is yet to be given.
    pub fn new(function_type: FunctionType) -> (r: Compiler)
        ensures
            r@ == CompilerView::init(function_type, Seq::empty(), Seq::empty()),
            r@.wf(),
    {
        let mut states: Vec<CompilerState> = Vec::new();
        states.push(CompilerState::new(function_type));
        let r = Compiler {
            scanner: Scanner::new(),
            parser: Parser {
                current: Token::default(),
                previous: Token::default(),
                had_error: false,
                panic_mode: false,
            },
            diagnostics: Vec::new(),
            numbers: Vec::new(),
            numbers_used: 0,
            states,
            functions: Vec::new(),
        };
        assert(r@.states =~= seq![FuncStateView::new(function_type, Seq::empty())]);
        assert(r@.diagnostics =~= Seq::<DiagnosticView>::empty());
        assert(r@.functions =~= Seq::<FunctionView>::empty());
        assert(r@.numbers =~= Seq::<u64>::empty());
        r
    }

    /// Reports an error at a token, unless the parser is in panic mode already.
    fn error_at(&mut self, token: &Token, msg: &str)
        requires
            old(self)@.wf(),
        ensures
            final(self)@ == old(self)@.error_at(token@, msg@),
            final(self)@.follows(old(self)@),
            final(self)@.grows(old(self)@),
            final(self)@.had_error,
            final(self)@.same_input(old(self)@),
            final(self)@.functions == old(self)@.functions,
            final(self)@.states == old(self)@.states,
    {
        reveal(CompilerView::error_at);
        // While the panic mode flag is set, we simply suppress any other errors that get detected
        if self.parser.panic_mode {
            return ;
        }
        self.parser.panic_mode = true;
        self.diagnostics.push(
            Diagnostic { line: token.line, location: location(token), message: msg.to_owned() },
        );
        self.parser.had_error = true;
        assert(self@.diagnostics =~= old(self)@.diagnostics.push(
            DiagnosticView { line: token.line, location: location_of(token@), message: msg@ },
        ));
    }

    /// Reports an error at the token just consumed.
    fn error(&mut self, msg: &str)
        requires
            old(self)@.wf(),
        ensures
            final(self)@ == old(self)@.error(msg@),
            final(self)@.follows(old(self)@),
            final(self)@.grows(old(self)@),
            final(self)@.had_error,
            final(self)@.same_input(old(self)@),
            final(self)@.functions == old(self)@.functions,
            final(self)@.states == old(self)@.states,
    {
        reveal(CompilerView::error);
        let token = self.parser.previous.clone();
        self.error_at(&token, msg);
    }

    fn error_at_current(&mut self, msg: &str)
        requires
            old(self)@.wf(),
        ensures
            final(self)@ == old(self)@.error_at_current(msg@),
            final(self)@.follows(old(self)@),
            final(self)@.grows(old(self)@),
            final(self)@.had_error,
            final(self)@.same_input(old(self)@),
            final(self)@.functions == old(self)@.functions,
            final(self)@.states == old(self)@.states,
    {
        reveal(CompilerView::error_at_current);
        let token = self.parser.current.clone();
        self.error_at(&token, msg);
    }

    /// Makes the current token the previous one and reads the next, reporting the tokens that
    /// the scanner could not read.
    fn advance(&mut self)
        requires
            old(self)@.wf(),
        ensures
            final(self)@ == old(self)@.advance(),
            final(self)@.follows(old(self)@),
            final(self)@.grows(old(self)@),
            old(self)@.current.token_type != TokenType::Eof ==> final(self)@.remaining() < old(
                self,
            )@.remaining(),
            final(self)@.states == old(self)@.states,
    {
        if self.parser.current.token_type == TokenType::Number && self.numbers_used < usize::MAX {
            self.numbers_used += 1;
        }
        self.parser.previous = self.parser.current.clone();
        let ghost moved = self@;

        // Keep reading tokens and reporting the errors, until we hit a non-error one or
        // reach the end
        loop
            invariant_except_break
                self@.wf(),
                self@.scan_on() == moved.scan_on(),
                self@.states == old(self)@.states,
                self@.functions == old(self)@.functions,
                old(self)@.had_error ==> self@.had_error,
            ensures
                self@.wf(),
                self@ == moved.scan_on(),
                self@.states == old(self)@.states,
                self@.functions == old(self)@.functions,
                old(self)@.had_error ==> self@.had_error,
            decreases self@.scanner.source.len() - self@.scanner.current,
        {
            proof {
                lemma_scan_token_progress(self@.scanner);
            }
            self.parser.current = self.scanner.scan_token();
            if self.parser.current.token_type != TokenType::Error {
                break ;
            }
            let message = self.parser.current.lexeme.clone();
            self.error_at_current(message.as_str());
        }
        reveal(CompilerView::advance);
        proof {
            lemma_scan_on(moved);
        }
    }

    /// Is the current token of the given kind?
    fn check(&self, expected: TokenType) -> (r: bool)
        ensures
            r == self@.check(expected),
    {
        self.parser.current.token_type == expected
    }

    /// Consumes the current token if it is of the given kind, and tells whether it was.
    fn my_match(&mut self, expected: TokenType) -> (r: bool)
        requires
            old(self)@.wf(),
        ensures
            r == old(self)@.check(expected),
            final(self)@ == old(self)@.match_token(expected),
            r ==> final(self)@ == old(self)@.advance(),
            !r ==> final(self)@ == old(self)@,
            final(self)@.follows(old(self)@),
            final(self)@.grows(old(self)@),
            r && expected != TokenType::Eof ==> final(self)@.remaining() < old(self)@.remaining(),
            final(self)@.states == old(self)@.states,
    {
        reveal(CompilerView::match_token);
        if !self.check(expected) {
            false
        } else {
            self.advance();
            true
        }
    }

    fn consume(&mut self, token_type: TokenType, msg: &str)
        requires
            old(self)@.wf(),
        ensures
            final(self)@ == old(self)@.consume(token_type, msg@),
            final(self)@.follows(old(self)@),
            final(self)@.grows(old(self)@),
            final(self)@.states == old(self)@.states,
    {
        reveal(CompilerView::consume);
        if self.parser.current.token_type == token_type {
            self.advance();
            return ;
        }
        self.error_at_current(msg);
    }
}

impl Compiler {
    /// Appends a byte to the chunk of the innermost function, with the line of the token just
    /// consumed.
    fn emit_byte(&mut self, byte: u8)
        requires
            old(self)@.wf(),
        ensures
            final(self)@ == old(self)@.emit_byte(byte),
            final(self)@.follows(old(self)@),
            final(self)@.chunk().constants == old(self)@.chunk().constants,
            final(self)@.had_error == old(self)@.had_error,
            final(self)@.chunk().code == old(self)@.chunk().code.push(byte),
            final(self)@.same_input(old(self)@),
            final(self)@.state().function.upvalues == old(self)@.state().function.upvalues,
            final(self)@.same_enclosing(old(self)@),
            final(self)@.functions == old(self)@.functions,
            final(self)@.same_scope(old(self)@),
            final(self)@.chunk().code.len() == old(self)@.chunk().code.len() + 1,
    {
        reveal(CompilerView::emit_byte);
        let lineno = self.parser.previous.line;
        let n = self.states.len();
        assert(old(self)@.states[n - 1].wf());
        self.states[n - 1].function.chunk.write(byte, lineno);
        assert(self@.states =~= old(self)@.states.update(
            n - 1,
            FuncStateView {
                function: FunctionView {
                    chunk: old(self)@.chunk().write(byte, lineno),
                    ..old(self)@.state().function
                },
                ..old(self)@.state()
            },
        ));
    }

    fn emit_op(&mut self, op: OpCode)
        requires
            old(self)@.wf(),
        ensures
            final(self)@ == old(self)@.emit_op(op),
            final(self)@.follows(old(self)@),
            final(self)@.chunk().constants == old(self)@.chunk().constants,
            final(self)@.had_error == old(self)@.had_error,
            final(self)@.chunk().code == old(self)@.chunk().code.push(op.byte()),
            operand_bytes(op) == 0 ==> final(self)@.grows(old(self)@),
            final(self)@.same_input(old(self)@),
            final(self)@.state().function.upvalues == old(self)@.state().function.upvalues,
            final(self)@.same_enclosing(old(self)@),
            final(self)@.functions == old(self)@.functions,
            final(self)@.same_scope(old(self)@),
            final(self)@.chunk().code.len() == old(self)@.chunk().code.len() + 1,
    {
        reveal(CompilerView::emit_op);
        self.emit_byte(u8::from(op));
        proof {
            if operand_bytes(op) == 0 {
                OpCode::lemma_byte_round_trip(op);
                assert(self@.chunk().code.take(old(self)@.chunk().code.len() as int) =~= old(
                    self,
                )@.chunk().code);
                lemma_grows_by_instruction(self@, old(self)@, 1);
            }
        }
    }

    /// Writes two bytes: an operation and its operand.
    fn emit_bytes(&mut self, op: OpCode, operand: u8)
        requires
            old(self)@.wf(),
        ensures
            final(self)@ == old(self)@.emit_bytes(op.byte(), operand),
            final(self)@.chunk().code == old(self)@.chunk().code.push(op.byte()).push(operand),
            operand_bytes(op) == 1 && op != OpCode::Closure ==> final(self)@.grows(old(self)@),
            final(self)@.follows(old(self)@),
            final(self)@.chunk().constants == old(self)@.chunk().constants,
            final(self)@.had_error == old(self)@.had_error,
            final(self)@.same_input(old(self)@),
            final(self)@.same_enclosing(old(self)@),
            final(self)@.functions == old(self)@.functions,
    {
        reveal(CompilerView::emit_bytes);
        self.emit_byte(u8::from(op));
        self.emit_byte(operand);
        proof {
            if operand_bytes(op) == 1 && op != OpCode::Closure {
                OpCode::lemma_byte_round_trip(op);
                assert(self@.chunk().code.take(old(self)@.chunk().code.len() as int) =~= old(
                    self,
                )@.chunk().code);
                lemma_grows_by_instruction(self@, old(self)@, 2);
            }
        }
    }

    /// Adds the value to the constants; with too many constants, reports an error and returns 0.
    fn make_constant(&mut self, value: Value) -> (index: u8)
        requires
            old(self)@.wf(),
        ensures
            (final(self)@, index) == old(self)@.make_constant(value@),
            final(self)@.follows(old(self)@),
            final(self)@.grows(old(self)@),
            final(self)@.chunk().code == old(self)@.chunk().code,
            !final(self)@.had_error ==> index == old(self)@.chunk().constants.len(),
            !final(self)@.had_error ==> final(self)@.chunk().constants == old(
                self,
            )@.chunk().constants.push(value@),
            final(self)@.same_input(old(self)@),
            final(self)@.functions == old(self)@.functions,
    {
        reveal(CompilerView::make_constant);
        let n = self.states.len();
        assert(old(self)@.states[n - 1].wf());
        if self.states[n - 1].function.chunk.constants.values.len() >= BYTE_COUNT {
            self.error("Too many constants in one chunk.");
            return 0;
        }
        let index = self.states[n - 1].function.chunk.add_constant(value);
        assert(self@.states =~= old(self)@.states.update(
            n - 1,
            FuncStateView {
                function: FunctionView {
                    chunk: old(self)@.chunk().add_constant(value@),
                    ..old(self)@.state().function
                },
                ..old(self)@.state()
            },
        ));
        assert forall|i: int| 0 <= i < self@.states.len() implies (#[trigger] self@.states[i]).wf() by {
            assert(old(self)@.states[i].wf());
        }
        assert(self@.functions == old(self)@.functions);
        assert(self@.wf());
        assert(self@.chunk().constants.drop_last() =~= old(self)@.chunk().constants);
        index as u8
    }

    fn emit_constant(&mut self, value: Value)
        requires
            old(self)@.wf(),
        ensures
            final(self)@ == old(self)@.emit_constant(value@),
            final(self)@.follows(old(self)@),
            final(self)@.grows(old(self)@),
            final(self)@.same_input(old(self)@),
            final(self)@.functions == old(self)@.functions,
    {
        reveal(CompilerView::emit_constant);
        let index = self.make_constant(value);
        self.emit_bytes(OpCode::Constant, index);
    }

    fn identifier_constant(&mut self, name: String) -> (index: u8)
        requires
            old(self)@.wf(),
        ensures
            (final(self)@, index) == old(self)@.identifier_constant(name@),
            final(self)@.follows(old(self)@),
            final(self)@.grows(old(self)@),
            final(self)@.same_input(old(self)@),
            final(self)@.functions == old(self)@.functions,
    {
        reveal(CompilerView::identifier_constant);
        self.make_constant(Value::String(name))
    }

    fn emit_return(&mut self)
        requires
            old(self)@.wf(),
        ensures
            final(self)@ == old(self)@.emit_return(),
            final(self)@.follows(old(self)@),
            final(self)@.grows(old(self)@),
            final(self)@.same_input(old(self)@),
            final(self)@.state().function.upvalues == old(self)@.state().function.upvalues,
            final(self)@.had_error == old(self)@.had_error,
            final(self)@.same_enclosing(old(self)@),
            final(self)@.functions == old(self)@.functions,
    {
        reveal(CompilerView::emit_return);
        self.emit_op(OpCode::Nil);
        self.emit_op(OpCode::Return);
    }

    /// How many bytes of code the innermost function has.
    fn code_len(&self) -> (r: usize)
        requires
            self@.wf(),
        ensures
            r == self@.chunk().code.len(),
    {
        let n = self.states.len();
        self.states[n - 1].function.chunk.code.len()
    }

    /// Emits a jump with a placeholder for its distance, and returns the offset of the
    /// placeholder.
    fn emit_jump(&mut self, op: OpCode) -> (offset: usize)
        requires
            old(self)@.wf(),
            is_jump(op.byte()),
        ensures
            (final(self)@, offset as int) == old(self)@.emit_jump(op),
            final(self)@.follows(old(self)@),
            final(self)@.grows(old(self)@),
            final(self)@.pending(old(self)@, offset as int),
            offset == old(self)@.chunk().code.len() + 1,
            final(self)@.same_input(old(self)@),
            final(self)@.functions == old(self)@.functions,
            offset + 2 == final(self)@.chunk().code.len(),
    {
        reveal(CompilerView::emit_jump);
        self.emit_op(op);
        self.emit_byte(0xff);
        self.emit_byte(0xff);
        proof {
            assert(self@.chunk().code.take(old(self)@.chunk().code.len() as int) =~= old(
                self,
            )@.chunk().code);
            lemma_pending_begins(old(self)@, self@);
        }
        self.code_len() - 2
    }

    /// Replaces the placeholder at the given offset with the distance to the end of the code.
    fn patch_jump(&mut self, offset: usize)
        requires
            old(self)@.wf(),
            offset + 2 <= old(self)@.chunk().code.len(),
        ensures
            final(self)@ == old(self)@.patch_jump(offset as int),
            final(self)@.follows(old(self)@),
            final(self)@.patches(old(self)@, offset as int),
            final(self)@.same_input(old(self)@),
            final(self)@.functions == old(self)@.functions,
            final(self)@.chunk().code.len() == old(self)@.chunk().code.len(),
    {
        reveal(CompilerView::patch_jump);
        let jump = self.code_len() - offset - 2;
        if jump > 0xFFFF {
            self.error("Too much code to jump over.");
        }
        let ghost checked = self@;
        let n = self.states.len();
        assert(checked.states[n - 1].wf());
        self.states[n - 1].function.chunk.code[offset] = ((jump / 256) % 256) as u8;
        self.states[n - 1].function.chunk.code[offset + 1] = (jump % 256) as u8;
        assert(self@.states =~= checked.states.update(
            n - 1,
            FuncStateView {
                function: FunctionView {
                    chunk: crate::chunk::ChunkView {
                        code: checked.chunk().code.update(
                            offset as int,
                            high_byte(jump as int),
                        ).update(offset + 1, low_byte(jump as int)),
                        ..checked.chunk()
                    },
                    ..checked.state().function
                },
                ..checked.state()
            },
        ));
        reveal(CompilerView::patches);
    }

    /// Emits a jump back to `loop_start`.
    fn emit_loop(&mut self, loop_start: usize)
        requires
            old(self)@.wf(),
            loop_start <= old(self)@.chunk().code.len(),
        ensures
            final(self)@ == old(self)@.emit_loop(loop_start as int),
            final(self)@.follows(old(self)@),
            final(self)@.grows(old(self)@),
            final(self)@.same_input(old(self)@),
            final(self)@.functions == old(self)@.functions,
    {
        reveal(CompilerView::emit_loop);
        self.emit_op(OpCode::Loop);

        // Jump backwards by a given offset
        // + 2 because we also need to consider the operands of the instruction itself
        let offset: u128 = (self.code_len() - loop_start) as u128 + 2;

        if offset > 0xFFFF {
            self.error("Loop body too large.");
        }
        self.emit_byte(((offset / 256) % 256) as u8);
        self.emit_byte((offset % 256) as u8);
        proof {
            assert(self@.chunk().code.take(old(self)@.chunk().code.len() as int) =~= old(
                self,
            )@.chunk().code);
            lemma_pending_begins(old(self)@, self@);
        }
    }

    /// After the `Closure` instruction: two bytes for each variable that the function captures.
    fn emit_upvalues(&mut self, index: usize)
        requires
            old(self)@.wf(),
            index < old(self)@.functions.len(),
        ensures
            final(self)@ == old(self)@.emit_upvalues(
                old(self)@.functions[index as int].upvalues,
                0,
            ),
            final(self)@.follows(old(self)@),
            final(self)@.chunk().constants == old(self)@.chunk().constants,
            final(self)@.had_error == old(self)@.had_error,
            final(self)@.chunk().code.len() == old(self)@.chunk().code.len() + 2 * old(
                self,
            )@.functions[index as int].upvalues.len(),
            final(self)@.chunk().code.take(old(self)@.chunk().code.len() as int) == old(
                self,
            )@.chunk().code,
            final(self)@.same_input(old(self)@),
            final(self)@.functions == old(self)@.functions,
    {
        let count = self.functions[index].upvalues.len();
        let ghost upvalues = old(self)@.functions[index as int].upvalues;
        let mut i: usize = 0;
        assert(self@.chunk().code.take(self@.chunk().code.len() as int) =~= self@.chunk().code);
        while i < count
            invariant
                self@.follows(old(self)@),
                self@.same_input(old(self)@),
                self@.functions == old(self)@.functions,
                index < self@.functions.len(),
                upvalues == self@.functions[index as int].upvalues,
                count == upvalues.len(),
                i <= count,
                self@.emit_upvalues(upvalues, i as int) == old(self)@.emit_upvalues(upvalues, 0),
                self@.chunk().constants == old(self)@.chunk().constants,
                self@.had_error == old(self)@.had_error,
                self@.chunk().code.len() == old(self)@.chunk().code.len() + 2 * i,
                self@.chunk().code.take(old(self)@.chunk().code.len() as int) == old(
                    self,
                )@.chunk().code,
            decreases count - i,
        {
            let d = self.functions[index].upvalues[i];
            self.emit_byte(
                if d.is_local {
                    1
                } else {
                    0
                },
            );
            self.emit_byte(d.index);
            i += 1;
            assert(self@.chunk().code.take(old(self)@.chunk().code.len() as int) =~= old(
                self,
            )@.chunk().code);
        }
    }
}

impl Compiler {
    fn scope_depth(&self) -> (r: i32)
        requires
            self@.wf(),
        ensures
            r == self@.state().scope_depth,
            r >= 0,
    {
        let n = self.states.len();
        assert(self@.states[n - 1].wf());
        self.states[n - 1].scope_depth
    }

    fn set_scope_depth(&mut self, depth: i32)
        requires
            old(self)@.wf(),
            depth >= 0,
        ensures
            final(self)@ == old(self)@.with_state(
                FuncStateView { scope_depth: depth, ..old(self)@.state() },
            ),
            final(self)@.follows(old(self)@),
            final(self)@.grows(old(self)@),
            final(self)@.same_input(old(self)@),
            final(self)@.functions == old(self)@.functions,
    {
        let n = self.states.len();
        assert(old(self)@.states[n - 1].wf());
        self.states[n - 1].scope_depth = depth;
        assert(self@.states =~= old(self)@.states.update(
            n - 1,
            FuncStateView { scope_depth: depth, ..old(self)@.state() },
        ));
    }

    /// Enters a scope.
    fn begin_scope(&mut self)
        requires
            old(self)@.wf(),
        ensures
            final(self)@ == old(self)@.begin_scope(),
            final(self)@.follows(old(self)@),
            final(self)@.grows(old(self)@),
            final(self)@.same_input(old(self)@),
            final(self)@.functions == old(self)@.functions,
    {
        reveal(CompilerView::begin_scope);
        let depth = self.scope_depth();
        if depth < i32::MAX {
            self.set_scope_depth(depth + 1);
        } else {
            self.set_scope_depth(depth);
        }
    }

    /// Removes the innermost local.
    fn pop_local(&mut self)
        requires
            old(self)@.wf(),
            old(self)@.state().locals.len() > 0,
        ensures
            final(self)@ == old(self)@.with_locals(old(self)@.state().locals.drop_last()),
            final(self)@.follows(old(self)@),
            final(self)@.grows(old(self)@),
            final(self)@.same_input(old(self)@),
            final(self)@.functions == old(self)@.functions,
    {
        let n = self.states.len();
        assert(old(self)@.states[n - 1].wf());
        self.states[n - 1].locals.pop();
        assert(self@.states[n - 1].locals =~= old(self)@.state().locals.drop_last());
        assert(self@.states =~= old(self)@.states.update(
            n - 1,
            FuncStateView {
                locals: old(self)@.state().locals.drop_last(),
                ..old(self)@.state()
            },
        ));
    }

    /// Leaves a scope: its locals go, and with each the instruction that removes its value
    /// from the stack.
    fn end_scope(&mut self)
        requires
            old(self)@.wf(),
        ensures
            final(self)@ == old(self)@.end_scope(),
            final(self)@.follows(old(self)@),
            final(self)@.grows(old(self)@),
            final(self)@.same_input(old(self)@),
            final(self)@.functions == old(self)@.functions,
    {
        reveal(CompilerView::end_scope);
        let depth = self.scope_depth();
        if depth > 0 {
            self.set_scope_depth(depth - 1);
        } else {
            self.set_scope_depth(depth);
        }
        let ghost goal = self@.pop_locals();
        loop
            invariant
                self@.follows(old(self)@),
                self@.grows(old(self)@),
                self@.same_input(old(self)@),
                self@.pop_locals() == goal,
                goal == old(self)@.end_scope(),
                self@.functions == old(self)@.functions,
            decreases self@.state().locals.len(),
        {
            let n = self.states.len();
            let count = self.states[n - 1].locals.len();
            if count == 0 {
                return ;
            }
            let local = &self.states[n - 1].locals[count - 1];
            assert(local@ == self@.state().locals.last());
            if local.depth <= self.states[n - 1].scope_depth {
                return ;
            }
            if local.is_captured {
                self.emit_op(OpCode::CloseUpvalue);
            } else {
                self.emit_op(OpCode::Pop);
            }
            self.pop_local();
        }
    }

    /// Adds a local to the list of locals of the innermost function.
    fn add_local(&mut self, token: Token)
        requires
            old(self)@.wf(),
        ensures
            final(self)@ == old(self)@.add_local(token@),
            final(self)@.follows(old(self)@),
            final(self)@.grows(old(self)@),
            final(self)@.same_input(old(self)@),
            final(self)@.functions == old(self)@.functions,
    {
        reveal(CompilerView::add_local);
        let n = self.states.len();
        assert(old(self)@.states[n - 1].wf());
        if self.states[n - 1].locals.len() >= LOCALS_MAX {
            self.error("Too many local variables in function.");
            return ;
        }
        // -1 is a special sentinel value: this local variable is not initialized yet

        self.states[n - 1].locals.push(Local::new(token, -1));
        assert(self@.states[n - 1].locals =~= old(self)@.state().locals.push(
            LocalView { name: token@, depth: -1i32, is_captured: false },
        ));
        assert(self@.states =~= old(self)@.states.update(
            n - 1,
            FuncStateView {
                locals: old(self)@.state().locals.push(
                    LocalView { name: token@, depth: -1i32, is_captured: false },
                ),
                ..old(self)@.state()
            },
        ));
    }

    /// Is a local with the name of the token just consumed declared in the innermost scope?
    fn declared_here(&self) -> (r: bool)
        requires
            self@.wf(),
        ensures
            r == declared_in_scope(
                self@.state().locals,
                self@.previous.lexeme,
                self@.state().scope_depth,
                self@.state().locals.len() - 1,
            ),
    {
        let n = self.states.len();
        let state = &self.states[n - 1];
        let mut i = state.locals.len();
        while i > 0
            invariant
                i <= state.locals@.len(),
                state@ == self@.state(),
                declared_in_scope(
                    self@.state().locals,
                    self@.previous.lexeme,
                    self@.state().scope_depth,
                    i - 1,
                ) == declared_in_scope(
                    self@.state().locals,
                    self@.previous.lexeme,
                    self@.state().scope_depth,
                    self@.state().locals.len() - 1,
                ),
            decreases i,
        {
            let local = &state.locals[i - 1];
            // It is only an error to have two variables with the same name in the same scope
            if local.depth < state.scope_depth {
                return false;
            }
            if local.name.lexeme == self.parser.previous.lexeme {
                return true;
            }
            i -= 1;
        }
        false
    }

    fn declare_variable(&mut self)
        requires
            old(self)@.wf(),
        ensures
            final(self)@ == old(self)@.declare_variable(),
            final(self)@.follows(old(self)@),
            final(self)@.grows(old(self)@),
            final(self)@.same_input(old(self)@),
            final(self)@.functions == old(self)@.functions,
    {
        reveal(CompilerView::declare_variable);
        // Nothing to declare in the global scope
        if self.scope_depth() == 0 {
            return ;
        }
        if self.declared_here() {
            self.error("Already a variable with this name in this scope.");
        }
        let name = self.parser.previous.clone();
        self.add_local(name);
    }

    fn mark_initialized(&mut self)
        requires
            old(self)@.wf(),
        ensures
            final(self)@ == old(self)@.mark_initialized(),
            final(self)@.follows(old(self)@),
            final(self)@.grows(old(self)@),
            final(self)@.same_input(old(self)@),
            final(self)@.functions == old(self)@.functions,
    {
        reveal(CompilerView::mark_initialized);
        let n = self.states.len();
        assert(old(self)@.states[n - 1].wf());
        let depth = self.states[n - 1].scope_depth;
        let count = self.states[n - 1].locals.len();
        // A function declared at the top level is bound to a global variable
        if depth == 0 || count == 0 {
            return ;
        }
        self.states[n - 1].locals[count - 1].depth = depth;
        assert(self@.states[n - 1].locals =~= old(self)@.state().locals.update(
            count - 1,
            LocalView { depth, ..old(self)@.state().locals.last() },
        ));
        assert(self@.states =~= old(self)@.states.update(
            n - 1,
            FuncStateView {
                locals: old(self)@.state().locals.update(
                    count - 1,
                    LocalView { depth, ..old(self)@.state().locals.last() },
                ),
                ..old(self)@.state()
            },
        ));
    }

    /// Makes the variable usable: a local is marked as initialized, for a global the
    /// instruction that defines it is emitted.
    fn define_variable(&mut self, global: u8)
        requires
            old(self)@.wf(),
        ensures
            final(self)@ == old(self)@.define_variable(global),
            final(self)@.follows(old(self)@),
            final(self)@.grows(old(self)@),
            final(self)@.same_input(old(self)@),
            final(self)@.functions == old(self)@.functions,
    {
        reveal(CompilerView::define_variable);
        if self.scope_depth() > 0 {
            self.mark_initialized();
            return ;
        }
        self.emit_bytes(OpCode::DefineGlobal, global);
    }

    /// Consumes the next token, which must be an identifier, and declares it.
    fn parse_variable(&mut self, error_msg: &str) -> (index: u8)
        requires
            old(self)@.wf(),
        ensures
            (final(self)@, index) == old(self)@.parse_variable(error_msg@),
            final(self)@.follows(old(self)@),
            final(self)@.grows(old(self)@),
    {
        reveal(CompilerView::parse_variable);
        self.consume(TokenType::Identifier, error_msg);

        self.declare_variable();
        // A local is not looked up by name at run time
        if self.scope_depth() > 0 {
            return 0;
        }
        let name = self.parser.previous.lexeme.clone();
        self.identifier_constant(name)
    }

    /// The index of the innermost local with the given name among the locals of the function
    /// at `level`.
    fn find_local(&self, level: usize, name: &String) -> (r: Option<usize>)
        requires
            self@.wf(),
            level < self@.states.len(),
        ensures
            match r {
                Some(i) => find_local(
                    self@.states[level as int].locals,
                    name@,
                    self@.states[level as int].locals.len() - 1,
                ) == Some(i as int) && i < self@.states[level as int].locals.len(),
                None => find_local(
                    self@.states[level as int].locals,
                    name@,
                    self@.states[level as int].locals.len() - 1,
                ) is None,
            },
    {
        let state = &self.states[level];
        let mut i = state.locals.len();
        while i > 0
            invariant
                i <= state.locals@.len(),
                state@ == self@.states[level as int],
                find_local(state@.locals, name@, i - 1) == find_local(
                    state@.locals,
                    name@,
                    state@.locals.len() - 1,
                ),
            decreases i,
        {
            if state.locals[i - 1].name.lexeme == *name {
                return Some(i - 1);
            }
            i -= 1;
        }
        None
    }

    /// Looks the name up among the locals of the function at `level`, the innermost first.
    fn resolve_local(&mut self, level: usize, name: &String) -> (r: Option<u8>)
        requires
            old(self)@.wf(),
            level < old(self)@.states.len(),
        ensures
            (final(self)@, r) == old(self)@.resolve_local(level as int, name@),
            final(self)@.follows(old(self)@),
            final(self)@.grows(old(self)@),
            final(self)@.same_input(old(self)@),
            final(self)@.functions == old(self)@.functions,
            final(self)@.states == old(self)@.states,
            r is Some ==> r->0 < old(self)@.states[level as int].locals.len(),
    {
        reveal(CompilerView::resolve_local);
        assert(self@.states[level as int].wf());
        match self.find_local(level, name) {
            None => None,
            Some(i) => {
                if self.states[level].locals[i].depth == -1 {
                    self.error("Can't read local variable in its own initializer.");
                }
                Some(i as u8)
            },
        }
    }

    /// Marks a local of the function at `level` as captured.
    fn capture_local(&mut self, level: usize, slot: usize)
        requires
            old(self)@.wf(),
            level + 1 < old(self)@.states.len(),
            slot < old(self)@.states[level as int].locals.len(),
        ensures
            final(self)@ == old(self)@.capture_local(level as int, slot as int),
            final(self)@.wf(),
            final(self)@.same_input(old(self)@),
            final(self)@.grows(old(self)@),
            final(self)@.states.len() == old(self)@.states.len(),
            forall|i: int|
                0 <= i < final(self)@.states.len() ==> (#[trigger] final(self)@.states[i]).function
                    == old(self)@.states[i].function,
            final(self)@.functions == old(self)@.functions,
    {
        reveal(CompilerView::capture_local);
        assert(old(self)@.states[level as int].wf());
        self.states[level].locals[slot].is_captured = true;
        let ghost state = old(self)@.states[level as int];
        assert(self@.states[level as int].locals =~= state.locals.update(
            slot as int,
            LocalView { is_captured: true, ..state.locals[slot as int] },
        ));
        assert(self@.states =~= old(self)@.states.update(
            level as int,
            FuncStateView {
                locals: state.locals.update(
                    slot as int,
                    LocalView { is_captured: true, ..state.locals[slot as int] },
                ),
                ..state
            },
        ));
        assert forall|i: int| 0 <= i < self@.states.len() implies (#[trigger] self@.states[i]).wf() by {
            assert(old(self)@.states[i].wf());
        }
    }

    /// The index of the descriptor among the upvalues of the function at `level`; a new
    /// descriptor is added unless an equal one is there.
    fn add_upvalue(&mut self, level: usize, index: u8, is_local: bool) -> (r: u8)
        requires
            old(self)@.wf(),
            level < old(self)@.states.len(),
        ensures
            (final(self)@, r) == old(self)@.add_upvalue(level as int, index, is_local),
            final(self)@.wf(),
            final(self)@.same_input(old(self)@),
            final(self)@.grows(old(self)@),
            final(self)@.states.len() == old(self)@.states.len(),
            forall|i: int|
                0 <= i < final(self)@.states.len() ==> (#[trigger] final(self)@.states[i]).function.chunk
                    == old(self)@.states[i].function.chunk,
            forall|i: int|
                0 <= i < level ==> (#[trigger] final(self)@.states[i]).function == old(
                    self,
                )@.states[i].function,
            final(self)@.functions == old(self)@.functions,
    {
        reveal(CompilerView::add_upvalue);
        assert(old(self)@.states[level as int].wf());
        let d = UpvalueDescriptor { index, is_local };
        let count = self.states[level].function.upvalues.len();
        let ghost upvalues = old(self)@.states[level as int].function.upvalues;
        let mut i: usize = 0;
        while i < count
            invariant
                self@ == old(self)@,
                self@.wf(),
                level < self.states@.len(),
                count == upvalues.len(),
                count <= BYTE_COUNT,
                upvalues == self.states@[level as int].function.upvalues@,
                d == (UpvalueDescriptor { index, is_local }),
                i <= count,
                find_upvalue(upvalues, d, i as int) == find_upvalue(upvalues, d, 0),
            decreases count - i,
        {
            reveal(CompilerView::add_upvalue);
            let e = self.states[level].function.upvalues[i];
            assert(e == upvalues[i as int]);
            if e.index == index && e.is_local == is_local {
                assert(e == d);
                return i as u8;
            }
            assert(e != d);
            i += 1;
        }
        if count >= BYTE_COUNT {
            self.error("Too many closure variables in function.");
            return 0;
        }
        self.states[level].function.upvalues.push(d);
        let ghost state = old(self)@.states[level as int];
        assert(self@.states[level as int].locals =~= state.locals);
        assert(self@.states =~= old(self)@.states.update(
            level as int,
            FuncStateView {
                function: FunctionView { upvalues: upvalues.push(d), ..state.function },
                ..state
            },
        ));
        assert forall|i: int| 0 <= i < self@.states.len() implies (#[trigger] self@.states[i]).wf() by {
            assert(old(self)@.states[i].wf());
            if i == level {
                assert(function_ok(self@.states[i].function));
            }
        }
        assert(self@.scanner == old(self)@.scanner);
        assert(self@.functions == old(self)@.functions);
        assert(self@.states.len() >= 1);
        assert forall|i: int| 0 <= i < self@.functions.len() implies function_ok(
            #[trigger] self@.functions[i],
        ) by {
            assert(function_ok(old(self)@.functions[i]));
        }
        assert(self@.wf());
        count as u8
    }

    /// The index of the upvalue of the function at `level` for the variable with the given
    /// name, if an enclosing function has it.
    fn resolve_upvalue(&mut self, level: usize, name: &String) -> (r: Option<u8>)
        requires
            old(self)@.wf(),
            level < old(self)@.states.len(),
        ensures
            (final(self)@, r) == old(self)@.resolve_upvalue(level as int, name@),
            final(self)@.wf(),
            final(self)@.same_input(old(self)@),
            final(self)@.grows(old(self)@),
            final(self)@.states.len() == old(self)@.states.len(),
            forall|i: int|
                0 <= i < final(self)@.states.len() ==> (#[trigger] final(self)@.states[i]).function.chunk
                    == old(self)@.states[i].function.chunk,
            final(self)@.functions == old(self)@.functions,
        decreases level,
    {
        if level == 0 {
            return None;
        }
        match self.resolve_local(level - 1, name) {
            Some(slot) => {
                self.capture_local(level - 1, slot as usize);
                Some(self.add_upvalue(level, slot, true))
            },
            None => {
                match self.resolve_upvalue(level - 1, name) {
                    Some(i) => Some(self.add_upvalue(level, i, false)),
                    None => None,
                }
            },
        }
    }
}

impl Compiler {
    /// Begins the compilation of a nested function.
    fn push_state(&mut self, state: CompilerState)
        requires
            old(self)@.wf(),
            state@.wf(),
        ensures
            final(self)@ == old(self)@.push_state(state@),
            final(self)@.states == old(self)@.states.push(state@),
            final(self)@.had_error == old(self)@.had_error,
            final(self)@.wf(),
            final(self)@.same_input(old(self)@),
            final(self)@.functions == old(self)@.functions,
    {
        reveal(CompilerView::push_state);
        self.states.push(state);
        assert(self@.states =~= old(self)@.states.push(state@));
        assert forall|i: int| 0 <= i < self@.states.len() implies (#[trigger] self@.states[i]).wf() by {
            if i < old(self)@.states.len() {
                assert(old(self)@.states[i].wf());
            }
        }
        assert forall|i: int| 0 <= i < self@.functions.len() implies function_ok(
            #[trigger] self@.functions[i],
        ) by {
            assert(function_ok(old(self)@.functions[i]));
        }
    }

    /// Ends the compilation of the innermost function, which is a nested one, and returns
    /// its index among the finished functions.
    fn end_compiler(&mut self) -> (index: usize)
        requires
            old(self)@.wf(),
            old(self)@.states.len() >= 2,
        ensures
            (final(self)@, index) == old(self)@.end_compiler(),
            final(self)@.wf(),
            final(self)@.same_input(old(self)@),
            final(self)@.states == old(self)@.states.drop_last(),
            final(self)@.functions.len() == old(self)@.functions.len() + 1,
            final(self)@.functions.drop_last() == old(self)@.functions,
            final(self)@.functions.last().upvalues == old(self)@.state().function.upvalues,
            final(self)@.had_error == old(self)@.had_error,
            old(self)@.sound() && (!old(self)@.had_error ==> decodes(
                old(self)@.chunk(),
                old(self)@.functions,
                0,
                old(self)@.chunk().code.len() as int,
            )) ==> final(self)@.sound(),
            index == old(self)@.functions.len(),
    {
        reveal(CompilerView::end_compiler);
        self.emit_return();
        let ghost returned = self@;
        let n = self.states.len();
        assert(returned.states[n - 1].wf());
        let state = self.states.pop().unwrap();
        self.functions.push(state.function);
        assert(self@.states =~= returned.states.drop_last());
        assert(returned.states.drop_last() =~= old(self)@.states.drop_last());
        assert(self@.functions =~= returned.functions.push(returned.state().function));
        assert(self@.functions.drop_last() =~= old(self)@.functions);
        proof {
            lemma_finished_is_sound(old(self)@, returned, self@);
        }
        assert forall|i: int| 0 <= i < self@.states.len() implies (#[trigger] self@.states[i]).wf() by {
            assert(returned.states[i].wf());
        }
        assert forall|i: int| 0 <= i < self@.functions.len() implies function_ok(
            #[trigger] self@.functions[i],
        ) by {
            if i < returned.functions.len() {
                assert(function_ok(returned.functions[i]));
            }
        }
        self.functions.len() - 1
    }

    /// Ends the compilation of the top-level code and hands out the compiled functions.
    fn finish(self) -> (r: Vec<Function>)
        requires
            self@.wf(),
        ensures
            functions_view(r@) == self@.end_compiler().0.functions,
            r@.len() > 0,
            forall|i: int| 0 <= i < r@.len() ==> function_ok(#[trigger] functions_view(r@)[i]),
            self@.sound() && !self@.had_error && decodes(
                self@.chunk(),
                self@.functions,
                0,
                self@.chunk().code.len() as int,
            ) ==> forall|i: int|
                0 <= i < r@.len() ==> well_formed(
                    (#[trigger] functions_view(r@)[i]).chunk,
                    functions_view(r@),
                ),
    {
        reveal(CompilerView::end_compiler);
        let mut compiler = self;
        compiler.emit_return();
        let ghost returned = compiler@;
        let n = compiler.states.len();
        assert(returned.states[n - 1].wf());
        let state = compiler.states.pop().unwrap();
        compiler.functions.push(state.function);
        assert(compiler@.functions =~= returned.functions.push(returned.state().function));
        assert(compiler@.functions.drop_last() =~= self@.functions);
        proof {
            lemma_finished_is_sound(self@, returned, compiler@);
        }
        assert forall|i: int| 0 <= i < compiler@.functions.len() implies function_ok(
            #[trigger] compiler@.functions[i],
        ) by {
            if i < returned.functions.len() {
                assert(function_ok(returned.functions[i]));
            }
        }
        compiler.functions
    }

    /// Counts one more parameter of the innermost function.
    fn count_parameter(&mut self)
        requires
            old(self)@.wf(),
        ensures
            final(self)@ == old(self)@.count_parameter(),
            final(self)@.follows(old(self)@),
            final(self)@.grows(old(self)@),
            final(self)@.same_input(old(self)@),
            final(self)@.functions == old(self)@.functions,
    {
        reveal(CompilerView::count_parameter);
        let n = self.states.len();
        assert(old(self)@.states[n - 1].wf());
        let arity = self.states[n - 1].function.arity;
        if arity >= 255 {
            self.error_at_current("Can't have more than 255 parameters.");
            return ;
        }
        self.states[n - 1].function.arity = arity + 1;
        assert(self@.states =~= old(self)@.states.update(
            n - 1,
            FuncStateView {
                function: FunctionView {
                    arity: (arity + 1) as usize,
                    ..old(self)@.state().function
                },
                ..old(self)@.state()
            },
        ));
    }

    /// The parameters of a function, up to the closing parenthesis.
    fn parameters(&mut self)
        requires
            old(self)@.wf(),
        ensures
            final(self)@ == old(self)@.parameters(),
            final(self)@.follows(old(self)@),
            final(self)@.grows(old(self)@),
    {
        loop
            invariant
                self@.follows(old(self)@),
                self@.grows(old(self)@),
                self@.parameters() == old(self)@.parameters(),
            decreases self@.remaining(),
        {
            self.count_parameter();
            let constant = self.parse_variable("Expect parameter name.");
            self.define_variable(constant);
            if !self.my_match(TokenType::Comma) {
                return ;
            }
        }
    }

    /// Skips tokens until something that looks like a statement boundary is reached.
    fn synchronize(&mut self)
        requires
            old(self)@.wf(),
        ensures
            final(self)@ == old(self)@.synchronize(),
            final(self)@.follows(old(self)@),
            final(self)@.grows(old(self)@),
    {
        self.parser.panic_mode = false;
        let ghost started = self@;

        loop
            invariant
                self@.follows(old(self)@),
                self@.grows(old(self)@),
                self@.skip_to_boundary() == started.skip_to_boundary(),
                started == (CompilerView { panic_mode: false, ..old(self)@ }),
            decreases self@.remaining(),
        {
            if self.parser.current.token_type == TokenType::Eof {
                return ;
            }
            if self.parser.previous.token_type == TokenType::Semicolon {
                return ;
            }
            match self.parser.current.token_type {
                TokenType::Class
                | TokenType::Fun
                | TokenType::Var
                | TokenType::For
                | TokenType::If
                | TokenType::While
                | TokenType::Print
                | TokenType::Return => {
                    return ;
                },
                _ => {},
            }
            self.advance();
        }
    }

    // ---------------------------------------------------------------- literals

    fn number(&mut self)
        requires
            old(self)@.wf(),
        ensures
            final(self)@ == old(self)@.number(),
            final(self)@.follows(old(self)@),
            final(self)@.grows(old(self)@),
            final(self)@.same_input(old(self)@),
            final(self)@.functions == old(self)@.functions,
    {
        reveal(CompilerView::number);
        if 1 <= self.numbers_used && self.numbers_used <= self.numbers.len() {
            let value = self.numbers[self.numbers_used - 1];
            self.emit_constant(Value::Number(value));
        } else {
            self.error("Number literal has no value.");
        }
    }

    fn string(&mut self)
        requires
            old(self)@.wf(),
        ensures
            final(self)@ == old(self)@.string(),
            final(self)@.follows(old(self)@),
            final(self)@.grows(old(self)@),
            final(self)@.same_input(old(self)@),
            final(self)@.functions == old(self)@.functions,
    {
        reveal(CompilerView::string);
        let chars = chars_of(self.parser.previous.lexeme.as_str());
        let text = if chars.len() >= 2 {
            string_of(&chars, 1, chars.len() - 1)
        } else {
            String::new()
        };
        self.emit_constant(Value::String(text));
    }

    fn literal(&mut self)
        requires
            old(self)@.wf(),
        ensures
            final(self)@ == old(self)@.literal(),
            final(self)@.follows(old(self)@),
            final(self)@.grows(old(self)@),
            final(self)@.same_input(old(self)@),
            final(self)@.functions == old(self)@.functions,
    {
        reveal(CompilerView::literal);
        // the keyword token is consumed already
        match self.parser.previous.token_type {
            TokenType::True => self.emit_op(OpCode::True),
            TokenType::False => self.emit_op(OpCode::False),
            TokenType::Nil => self.emit_op(OpCode::Nil),
            _ => {},
        }
    }

    /// Finds out where the variable with the given name lives.
    fn resolve(&mut self, name: String) -> (r: (OpCode, OpCode, u8))
        requires
            old(self)@.wf(),
        ensures
            ({
                let (resolved, access, arg) = old(self)@.resolve(name@);
                &&& final(self)@ == resolved
                &&& r == (access.get_op(), access.set_op(), arg)
            }),
            final(self)@.follows(old(self)@),
            final(self)@.grows(old(self)@),
            final(self)@.same_input(old(self)@),
            final(self)@.functions == old(self)@.functions,
    {
        reveal(CompilerView::resolve);
        let top = self.states.len() - 1;
        if let Some(slot) = self.resolve_local(top, &name) {
            return (OpCode::GetLocal, OpCode::SetLocal, slot);
        }
        if let Some(index) = self.resolve_upvalue(top, &name) {
            return (OpCode::GetUpvalue, OpCode::SetUpvalue, index);
        }
        let constant = self.identifier_constant(name);
        (OpCode::GetGlobal, OpCode::SetGlobal, constant)
    }

    fn binary_operator(&mut self, operator: TokenType)
        requires
            old(self)@.wf(),
        ensures
            final(self)@ == old(self)@.binary_operator(operator),
            final(self)@.follows(old(self)@),
            final(self)@.grows(old(self)@),
            final(self)@.same_input(old(self)@),
            final(self)@.functions == old(self)@.functions,
    {
        reveal(CompilerView::binary_operator);
        match operator {
            TokenType::Plus => self.emit_op(OpCode::Add),
            TokenType::Minus => self.emit_op(OpCode::Subtract),
            TokenType::Star => self.emit_op(OpCode::Multiply),
            TokenType::Slash => self.emit_op(OpCode::Divide),
            TokenType::BangEqual => {
                self.emit_op(OpCode::Equal);
                self.emit_op(OpCode::Not);
            },
            TokenType::EqualEqual => self.emit_op(OpCode::Equal),
            TokenType::Greater => self.emit_op(OpCode::Greater),
            TokenType::GreaterEqual => {
                self.emit_op(OpCode::Less);
                self.emit_op(OpCode::Not);
            },
            TokenType::Less => self.emit_op(OpCode::Less),
            TokenType::LessEqual => {
                self.emit_op(OpCode::Greater);
                self.emit_op(OpCode::Not);
            },
            _ => {},
        }
    }
}

impl Compiler {
    // ---------------------------------------------------------------- expressions

    /// Parses an expression whose operators bind at least as tightly as `precedence`.
    fn parse_precedence(&mut self, precedence: Precedence)
        requires
            old(self)@.wf(),
        ensures
            final(self)@ == old(self)@.parse_precedence(precedence),
            final(self)@.follows(old(self)@),
            final(self)@.grows(old(self)@),
            old(self)@.current.token_type != TokenType::Eof ==> final(self)@.remaining() < old(
                self,
            )@.remaining(),
        decreases old(self)@.remaining(), 4int,
    {
        proof {
            lemma_parse_precedence(self@, precedence);
        }
        // Read the next token and look up the corresponding rule
        self.advance();
        let read_type = self.parser.previous.token_type;

        // The first token always belongs to some kind of prefix expression
        let prefix_rule = match ParseRule::get_rule(read_type).prefix {
            Some(rule) => rule,
            None => {
                self.error("Expect expression.");
                return ;
            },
        };

        let can_assign = precedence.at_most(Precedence::Assignment);
        self.apply(prefix_rule, can_assign);
        let ghost left = self@;

        while precedence != Precedence::Lowest && precedence.at_most(
            ParseRule::get_rule(self.parser.current.token_type).precedence,
        )
            invariant
                self@.follows(old(self)@),
                self@.grows(old(self)@),
                self@.remaining() < old(self)@.remaining(),
                self@.remaining() <= left.remaining(),
                self@.infix_loop(precedence, can_assign) == left.infix_loop(precedence, can_assign),
            decreases self@.remaining(),
        {
            proof {
                lemma_infix_loop(self@, precedence, can_assign);
            }
            self.advance();
            // Look up an infix rule for the token: the expression compiled so far is its
            // left operand
            if let Some(infix_rule) = ParseRule::get_rule(self.parser.previous.token_type).infix {
                self.apply(infix_rule, can_assign);
            }
        }
        proof {
            lemma_infix_loop(self@, precedence, can_assign);
        }

        if can_assign && self.my_match(TokenType::Equal) {
            self.error("Invalid assignment target.")
        }
    }

    /// Runs the rule that a row of the table of parse rules names.
    fn apply(&mut self, rule: ParseFn, can_assign: bool)
        requires
            old(self)@.wf(),
        ensures
            final(self)@ == old(self)@.apply(rule, can_assign),
            final(self)@.follows(old(self)@),
            final(self)@.grows(old(self)@),
        decreases old(self)@.remaining(), 9int,
    {
        proof {
            lemma_apply(self@, rule, can_assign);
        }
        match rule {
            ParseFn::Grouping => self.grouping(),
            ParseFn::Call => self.call(),
            ParseFn::Unary => self.unary(),
            ParseFn::Binary => self.binary(),
            ParseFn::Number => self.number(),
            ParseFn::String => self.string(),
            ParseFn::Literal => self.literal(),
            ParseFn::Variable => self.variable(can_assign),
            ParseFn::And => self.and_(),
            ParseFn::Or => self.or_(),
        }
    }

    fn expression(&mut self)
        requires
            old(self)@.wf(),
        ensures
            final(self)@ == old(self)@.expression(),
            final(self)@.follows(old(self)@),
            final(self)@.grows(old(self)@),
            old(self)@.current.token_type != TokenType::Eof ==> final(self)@.remaining() < old(
                self,
            )@.remaining(),
        decreases old(self)@.remaining(), 5int,
    {
        proof {
            lemma_expression(self@);
        }
        self.parse_precedence(Precedence::Assignment);
    }

    fn grouping(&mut self)
        requires
            old(self)@.wf(),
        ensures
            final(self)@ == old(self)@.grouping(),
            final(self)@.follows(old(self)@),
            final(self)@.grows(old(self)@),
        decreases old(self)@.remaining(), 8int,
    {
        proof {
            lemma_grouping(self@);
        }
        // the initial '(' is consumed already
        self.expression();
        self.consume(TokenType::RightParen, "Expect ')' after expression.");
    }

    fn unary(&mut self)
        requires
            old(self)@.wf(),
        ensures
            final(self)@ == old(self)@.unary(),
            final(self)@.follows(old(self)@),
            final(self)@.grows(old(self)@),
        decreases old(self)@.remaining(), 8int,
    {
        proof {
            lemma_unary(self@);
        }
        let operator_type = self.parser.previous.token_type;

        // Compile the operand
        self.parse_precedence(Precedence::Unary);

        // Emit the operator instruction
        match operator_type {
            TokenType::Bang => self.emit_op(OpCode::Not),
            TokenType::Minus => self.emit_op(OpCode::Negate),
            _ => {},
        }
    }

    fn binary(&mut self)
        requires
            old(self)@.wf(),
        ensures
            final(self)@ == old(self)@.binary(),
            final(self)@.follows(old(self)@),
            final(self)@.grows(old(self)@),
        decreases old(self)@.remaining(), 8int,
    {
        proof {
            lemma_binary(self@);
        }
        let operator_type = self.parser.previous.token_type;
        let rule = ParseRule::get_rule(operator_type);
        let above = match rule.precedence {
            Precedence::Primary => Precedence::Primary,
            precedence => precedence.next(),
        };
        self.parse_precedence(above);
        self.binary_operator(operator_type);
    }

    /// Compiles the arguments of a call and returns their number. Each argument leaves its
    /// value on the stack.
    fn argument_list(&mut self) -> (count: u8)
        requires
            old(self)@.wf(),
        ensures
            (final(self)@, count) == old(self)@.argument_list(),
            final(self)@.follows(old(self)@),
            final(self)@.grows(old(self)@),
        decreases old(self)@.remaining(), 7int,
    {
        proof {
            lemma_argument_list(self@);
        }
        let mut arg_cnt: u8 = 0;
        let mut more = !self.check(TokenType::RightParen);
        let ghost goal = if more {
            old(self)@.arguments(0)
        } else {
            (old(self)@, 0u8)
        };
        while more
            invariant
                self@.follows(old(self)@),
                self@.grows(old(self)@),
                more ==> self@.arguments(arg_cnt) == goal,
                !more ==> (self@, arg_cnt) == goal,
            decreases self@.remaining() + if more { 1nat } else { 0nat },
        {
            proof {
                lemma_arguments(self@, arg_cnt);
            }
            self.expression();
            if arg_cnt == 255 {
                self.error("Can't have more than 255 arguments.");
            } else {
                arg_cnt += 1;
            }
            if !self.my_match(TokenType::Comma) {
                more = false;
            }
        }
        self.consume(TokenType::RightParen, "Expect ')' after arguments.");
        arg_cnt
    }

    fn call(&mut self)
        requires
            old(self)@.wf(),
        ensures
            final(self)@ == old(self)@.call(),
            final(self)@.follows(old(self)@),
            final(self)@.grows(old(self)@),
        decreases old(self)@.remaining(), 8int,
    {
        proof {
            lemma_call(self@);
        }
        let arg_cnt = self.argument_list();
        self.emit_bytes(OpCode::Call, arg_cnt);
    }

    fn and_(&mut self)
        requires
            old(self)@.wf(),
        ensures
            final(self)@ == old(self)@.and_(),
            final(self)@.follows(old(self)@),
            final(self)@.grows(old(self)@),
        decreases old(self)@.remaining(), 8int,
    {
        proof {
            lemma_and_(self@);
        }
        let end_jump = self.emit_jump(OpCode::JumpIfFalse);
        let ghost jumped = self@;

        self.emit_op(OpCode::Pop);
        self.parse_precedence(Precedence::And);
        let ghost grown = self@;

        self.patch_jump(end_jump);
        proof {
            lemma_pending_stays(old(self)@, jumped, grown, end_jump as int);
            lemma_patched_grows(old(self)@, grown, self@, end_jump as int);
        }
    }

    fn or_(&mut self)
        requires
            old(self)@.wf(),
        ensures
            final(self)@ == old(self)@.or_(),
            final(self)@.follows(old(self)@),
            final(self)@.grows(old(self)@),
        decreases old(self)@.remaining(), 8int,
    {
        proof {
            lemma_or_(self@);
        }
        let else_jump = self.emit_jump(OpCode::JumpIfFalse);
        let ghost first = self@;
        let end_jump = self.emit_jump(OpCode::Jump);
        let ghost second = self@;

        self.patch_jump(else_jump);
        let ghost patched = self@;
        proof {
            lemma_pending_from(old(self)@, first, second, end_jump as int);
            lemma_pending_stays(old(self)@, first, second, else_jump as int);
            lemma_patched_pending(old(self)@, second, patched, else_jump as int, end_jump as int);
            lemma_patched_grows(old(self)@, second, patched, else_jump as int);
        }
        self.emit_op(OpCode::Pop);

        self.parse_precedence(Precedence::Or);
        let ghost grown = self@;
        self.patch_jump(end_jump);
        proof {
            lemma_pending_stays(old(self)@, patched, grown, end_jump as int);
            lemma_patched_grows(old(self)@, grown, self@, end_jump as int);
        }
    }

    fn variable(&mut self, can_assign: bool)
        requires
            old(self)@.wf(),
        ensures
            final(self)@ == old(self)@.variable(can_assign),
            final(self)@.follows(old(self)@),
            final(self)@.grows(old(self)@),
        decreases old(self)@.remaining(), 8int,
    {
        proof {
            lemma_variable(self@, can_assign);
        }
        let name = self.parser.previous.lexeme.clone();
        self.named_variable(name, can_assign);
    }

    fn named_variable(&mut self, name: String, can_assign: bool)
        requires
            old(self)@.wf(),
        ensures
            final(self)@ == old(self)@.named_variable(name@, can_assign),
            final(self)@.follows(old(self)@),
            final(self)@.grows(old(self)@),
        decreases old(self)@.remaining(), 7int,
    {
        proof {
            lemma_named_variable(self@, name@, can_assign);
        }
        let (get_op, set_op, arg) = self.resolve(name);

        if can_assign && self.my_match(TokenType::Equal) {
            // an assignment
            self.expression();
            self.emit_bytes(set_op, arg);
        } else {
            // an access
            self.emit_bytes(get_op, arg);
        }
    }

    // ---------------------------------------------------------------- statements

    fn print_statement(&mut self)
        requires
            old(self)@.wf(),
        ensures
            final(self)@ == old(self)@.print_statement(),
            final(self)@.follows(old(self)@),
            final(self)@.grows(old(self)@),
            old(self)@.current.token_type != TokenType::Eof ==> final(self)@.remaining() < old(
                self,
            )@.remaining(),
        decreases old(self)@.remaining(), 10int,
    {
        proof {
            lemma_print_statement(self@);
        }
        self.expression();
        self.consume(TokenType::Semicolon, "Expect ';' after value.");
        self.emit_op(OpCode::Print);
    }

    /// An expression followed by a semicolon.
    fn expression_statement(&mut self)
        requires
            old(self)@.wf(),
        ensures
            final(self)@ == old(self)@.expression_statement(),
            final(self)@.follows(old(self)@),
            final(self)@.grows(old(self)@),
            old(self)@.current.token_type != TokenType::Eof ==> final(self)@.remaining() < old(
                self,
            )@.remaining(),
        decreases old(self)@.remaining(), 10int,
    {
        proof {
            lemma_expression_statement(self@);
        }
        self.expression();
        self.consume(TokenType::Semicolon, "Expect ';' after expression.");
        self.emit_op(OpCode::Pop);
    }

    fn return_statement(&mut self)
        requires
            old(self)@.wf(),
        ensures
            final(self)@ == old(self)@.return_statement(),
            final(self)@.follows(old(self)@),
            final(self)@.grows(old(self)@),
        decreases old(self)@.remaining(), 10int,
    {
        proof {
            lemma_return_statement(self@);
        }
        // There is nothing to return from at the top level
        let n = self.states.len();
        if self.states[n - 1].function_type == FunctionType::Script {
            self.error("Can't return from top-level code.");
        }
        if self.my_match(TokenType::Semicolon) {
            self.emit_return();
        } else {
            self.expression();
            self.consume(TokenType::Semicolon, "Expect ';' after return value.");
            self.emit_op(OpCode::Return);
        }
    }

    fn if_statement(&mut self)
        requires
            old(self)@.wf(),
        ensures
            final(self)@ == old(self)@.if_statement(),
            final(self)@.follows(old(self)@),
            final(self)@.grows(old(self)@),
        decreases old(self)@.remaining(), 15int,
    {
        proof {
            lemma_if_statement(self@);
        }
        self.consume(TokenType::LeftParen, "Expect '(' after 'if'.");
        self.expression();
        self.consume(TokenType::RightParen, "Expect ')' after condition.");

        let ghost condition = self@;
        let then_jump = self.emit_jump(OpCode::JumpIfFalse);
        let ghost first = self@;
        self.emit_op(OpCode::Pop);  // the condition
        self.statement();
        let ghost then_branch = self@;

        let else_jump = self.emit_jump(OpCode::Jump);
        let ghost second = self@;
        // the jump over the then branch lands here
        self.patch_jump(then_jump);
        let ghost patched = self@;
        proof {
            lemma_pending_from(old(self)@, condition, first, then_jump as int);
            lemma_pending_stays(old(self)@, first, second, then_jump as int);
            lemma_pending_from(old(self)@, then_branch, second, else_jump as int);
            lemma_patched_pending(old(self)@, second, patched, then_jump as int, else_jump as int);
            lemma_patched_grows(old(self)@, second, patched, then_jump as int);
        }
        self.emit_op(OpCode::Pop);  // the condition
        if self.my_match(TokenType::Else) {
            self.statement();
        }
        // the jump over the else branch lands here
        let ghost grown = self@;

        self.patch_jump(else_jump);
        proof {
            lemma_pending_stays(old(self)@, patched, grown, else_jump as int);
            lemma_patched_grows(old(self)@, grown, self@, else_jump as int);
        }
    }

    fn while_statement(&mut self)
        requires
            old(self)@.wf(),
        ensures
            final(self)@ == old(self)@.while_statement(),
            final(self)@.follows(old(self)@),
            final(self)@.grows(old(self)@),
        decreases old(self)@.remaining(), 15int,
    {
        proof {
            lemma_while_statement(self@);
        }
        let loop_start = self.code_len();
        self.consume(TokenType::LeftParen, "Expect '(' after 'while'.");
        self.expression();
        self.consume(TokenType::RightParen, "Expect ')' after condition.");

        let ghost condition = self@;
        let exit_jump = self.emit_jump(OpCode::JumpIfFalse);
        let ghost jumped = self@;
        self.emit_op(OpCode::Pop);  // the condition
        self.statement();

        self.emit_loop(loop_start);
        let ghost grown = self@;

        self.patch_jump(exit_jump);
        proof {
            lemma_pending_from(old(self)@, condition, jumped, exit_jump as int);
            lemma_pending_stays(old(self)@, jumped, grown, exit_jump as int);
            lemma_patched_grows(old(self)@, grown, self@, exit_jump as int);
        }
        self.emit_op(OpCode::Pop);  // the condition, where the loop is left
    }

    /// The initializer clause of a `for` statement.
    fn for_initializer(&mut self)
        requires
            old(self)@.wf(),
        ensures
            final(self)@ == old(self)@.for_initializer(),
            final(self)@.follows(old(self)@),
            final(self)@.grows(old(self)@),
        decreases old(self)@.remaining(), 14int,
    {
        proof {
            lemma_for_initializer(self@);
        }
        if self.my_match(TokenType::Semicolon) {
            // no initializer
        } else if self.my_match(TokenType::Var) {
            self.var_declaration();
        } else {
            self.expression_statement();
        }
    }

    /// The condition clause of a `for` statement. Returns the offset of the jump that leaves
    /// the loop, if there is a condition.
    fn for_condition(&mut self) -> (exit_jump: Option<usize>)
        requires
            old(self)@.wf(),
        ensures
            final(self)@ == old(self)@.for_condition().0,
            match exit_jump {
                Some(offset) => old(self)@.for_condition().1 == Some(offset as int) && offset + 2
                    <= final(self)@.chunk().code.len() && final(self)@.pending(
                    old(self)@,
                    offset as int,
                ),
                None => old(self)@.for_condition().1 is None,
            },
            final(self)@.follows(old(self)@),
            final(self)@.grows(old(self)@),
        decreases old(self)@.remaining(), 14int,
    {
        proof {
            lemma_for_condition(self@);
        }
        if self.my_match(TokenType::Semicolon) {
            None
        } else {
            self.expression();
            self.consume(TokenType::Semicolon, "Expect ';' after loop condition.");

            // Jump out of the loop if the condition is false
            let ghost condition = self@;
            let exit_jump = self.emit_jump(OpCode::JumpIfFalse);
            let ghost jumped = self@;
            self.emit_op(OpCode::Pop);  // the condition
            proof {
                lemma_pending_from(old(self)@, condition, jumped, exit_jump as int);
                lemma_pending_stays(old(self)@, jumped, self@, exit_jump as int);
            }
            Some(exit_jump)
        }
    }

    /// The increment clause of a `for` statement. Returns where the body jumps back to: the
    /// increment if there is one, else `loop_start`.
    fn for_increment(&mut self, loop_start: usize) -> (back: usize)
        requires
            old(self)@.wf(),
            loop_start <= old(self)@.chunk().code.len(),
        ensures
            (final(self)@, back as int) == old(self)@.for_increment(loop_start as int),
            back <= final(self)@.chunk().code.len(),
            final(self)@.follows(old(self)@),
            final(self)@.grows(old(self)@),
        decreases old(self)@.remaining(), 14int,
    {
        proof {
            lemma_for_increment(self@, loop_start as int);
        }
        if self.my_match(TokenType::RightParen) {
            loop_start
        } else {
            let body_jump = self.emit_jump(OpCode::Jump);
            let ghost jumped = self@;
            let increment_start = self.code_len();
            // the increment is compiled for its side effect only
            self.expression();
            self.emit_op(OpCode::Pop);
            self.consume(TokenType::RightParen, "Expect ')' after for clauses.");

            // back to the top of the loop
            self.emit_loop(loop_start);
            let ghost grown = self@;
            // the jump behind the body goes to the increment
            self.patch_jump(body_jump);
            proof {
                lemma_pending_stays(old(self)@, jumped, grown, body_jump as int);
                lemma_patched_grows(old(self)@, grown, self@, body_jump as int);
            }
            increment_start
        }
    }

    /// The clauses of a `for` statement behind the initializer, and the body.
    fn for_loop(&mut self)
        requires
            old(self)@.wf(),
        ensures
            final(self)@ == old(self)@.for_loop(),
            final(self)@.follows(old(self)@),
            final(self)@.grows(old(self)@),
        decreases old(self)@.remaining(), 15int,
    {
        proof {
            lemma_for_loop(self@);
        }
        let loop_start = self.code_len();
        let exit_jump = self.for_condition();
        let ghost tested = self@;
        let back = self.for_increment(loop_start);

        self.statement();
        self.emit_loop(back);
        if let Some(offset) = exit_jump {
            let ghost grown = self@;
            self.patch_jump(offset);
            proof {
                lemma_pending_stays(old(self)@, tested, grown, offset as int);
                lemma_patched_grows(old(self)@, grown, self@, offset as int);
            }
            self.emit_op(OpCode::Pop);  // the condition
        }
    }

    fn for_statement(&mut self)
        requires
            old(self)@.wf(),
        ensures
            final(self)@ == old(self)@.for_statement(),
            final(self)@.follows(old(self)@),
            final(self)@.grows(old(self)@),
        decreases old(self)@.remaining(), 16int,
    {
        proof {
            lemma_for_statement(self@);
        }
        self.begin_scope();
        self.consume(TokenType::LeftParen, "Expect '(' after 'for'.");
        self.for_initializer();
        self.for_loop();
        self.end_scope();
    }

    /// Parses declarations and statements up to the closing brace, and consumes it.
    fn block(&mut self)
        requires
            old(self)@.wf(),
        ensures
            final(self)@ == old(self)@.block(),
            final(self)@.follows(old(self)@),
            final(self)@.grows(old(self)@),
        decreases old(self)@.remaining(), 14int,
    {
        proof {
            lemma_block(self@);
        }
        proof {
            lemma_block_loop(self@);
        }
        while !self.check(TokenType::RightBrace) && !self.check(TokenType::Eof)
            invariant
                self@.follows(old(self)@),
                self@.grows(old(self)@),
                self@.block_loop() == old(self)@.block_loop(),
            decreases self@.remaining(),
        {
            proof {
                lemma_block_loop(self@);
            }
            self.declaration()
        }
        proof {
            lemma_block_loop(self@);
        }
        self.consume(TokenType::RightBrace, "Expect '}' after block.");
    }

    fn statement(&mut self)
        requires
            old(self)@.wf(),
        ensures
            final(self)@ == old(self)@.statement(),
            final(self)@.follows(old(self)@),
            final(self)@.grows(old(self)@),
            old(self)@.current.token_type != TokenType::Eof ==> final(self)@.remaining() < old(
                self,
            )@.remaining(),
        decreases old(self)@.remaining(), 11int,
    {
        proof {
            lemma_statement(self@);
        }
        if self.my_match(TokenType::Print) {
            self.print_statement();
        } else if self.my_match(TokenType::If) {
            self.if_statement();
        } else if self.my_match(TokenType::While) {
            self.while_statement();
        } else if self.my_match(TokenType::For) {
            self.for_statement();
        } else if self.my_match(TokenType::Return) {
            self.return_statement();
        } else if self.my_match(TokenType::LeftBrace) {
            self.begin_scope();
            self.block();
            self.end_scope();
        } else {
            self.expression_statement();
        }
    }

    // ---------------------------------------------------------------- declarations

    fn var_declaration(&mut self)
        requires
            old(self)@.wf(),
        ensures
            final(self)@ == old(self)@.var_declaration(),
            final(self)@.follows(old(self)@),
            final(self)@.grows(old(self)@),
        decreases old(self)@.remaining(), 10int,
    {
        proof {
            lemma_var_declaration(self@);
        }
        let global = self.parse_variable("Expect variable name.");

        // look for an initializer
        if self.my_match(TokenType::Equal) {
            self.expression();
        } else {
            // without one the variable is nil
            self.emit_op(OpCode::Nil);
        }

        self.consume(TokenType::Semicolon, "Expect ';' after variable declaration.");

        self.define_variable(global);
    }

    /// Compiles the parameters and the body of a function in a state of its own. Returns the
    /// index of the function among the finished ones.
    fn function_body(&mut self, func_name: String, func_type: FunctionType) -> (index: usize)
        requires
            old(self)@.wf(),
        ensures
            (final(self)@, index) == old(self)@.function_body(func_name@, func_type),
            final(self)@.follows(old(self)@),
            final(self)@.grows(old(self)@),
            final(self)@.chunk() == old(self)@.chunk(),
            index < final(self)@.functions.len(),
        decreases old(self)@.remaining(), 17int,
    {
        proof {
            lemma_function_body(self@, func_name@, func_type);
        }
        self.push_state(CompilerState::named(func_type, func_name));
        let ghost pushed = self@;
        // from here on the new state is the one that code goes to

        self.begin_scope();

        self.consume(TokenType::LeftParen, "Expect '(' after function name.");
        if !self.check(TokenType::RightParen) {
            self.parameters();
        }
        self.consume(TokenType::RightParen, "Expect ')' after parameters.");
        self.consume(TokenType::LeftBrace, "Expect '{' before function body.");
        self.block();
        assert(self@.follows(pushed));
        assert(self@.grows(pushed));
        let ghost body = self@;
        proof {
            lemma_grown_from_nothing_code(pushed, body);
        }

        let index = self.end_compiler();
        assert(self@.chunk() == old(self)@.chunk());
        proof {
            lemma_nested_grows(old(self)@, pushed, body, self@);
        }
        index
    }

    /// Compiles a function and, in the enclosing function, the instruction that makes its
    /// closure.
    fn function(&mut self, func_name: String, func_type: FunctionType)
        requires
            old(self)@.wf(),
        ensures
            final(self)@ == old(self)@.function(func_name@, func_type),
            final(self)@.follows(old(self)@),
            final(self)@.grows(old(self)@),
        decreases old(self)@.remaining(), 18int,
    {
        proof {
            lemma_function(self@, func_name@, func_type);
        }
        let index = self.function_body(func_name, func_type);
        self.closure(index);
    }

    /// Emits the instruction that makes the closure of a finished function.
    fn closure(&mut self, index: usize)
        requires
            old(self)@.wf(),
            index < old(self)@.functions.len(),
        ensures
            final(self)@ == old(self)@.closure(index),
            final(self)@.follows(old(self)@),
            final(self)@.grows(old(self)@),
            final(self)@.same_input(old(self)@),
    {
        reveal(CompilerView::closure);
        let constant = self.make_constant(Value::Func(index));
        let ghost made = self@;
        self.emit_bytes(OpCode::Closure, constant);
        let ghost emitted = self@;
        self.emit_upvalues(index);
        proof {
            lemma_closure_grows(old(self)@, made, emitted, self@, constant, index);
        }
    }

    fn func_declaration(&mut self)
        requires
            old(self)@.wf(),
        ensures
            final(self)@ == old(self)@.func_declaration(),
            final(self)@.follows(old(self)@),
            final(self)@.grows(old(self)@),
        decreases old(self)@.remaining(), 19int,
    {
        proof {
            lemma_func_declaration(self@);
        }
        let global = self.parse_variable("Expect func name");
        self.mark_initialized();
        let name = self.parser.previous.lexeme.clone();
        self.function(name, FunctionType::Function);
        self.define_variable(global);
    }

    fn declaration(&mut self)
        requires
            old(self)@.wf(),
        ensures
            final(self)@ == old(self)@.declaration(),
            final(self)@.follows(old(self)@),
            final(self)@.grows(old(self)@),
            old(self)@.current.token_type != TokenType::Eof ==> final(self)@.remaining() < old(
                self,
            )@.remaining(),
        decreases old(self)@.remaining(), 12int,
    {
        proof {
            lemma_declaration(self@);
        }
        if self.my_match(TokenType::Var) {
            self.var_declaration();
        } else if self.my_match(TokenType::Fun) {
            self.func_declaration();
        } else {
            self.statement();
        }

        if self.parser.panic_mode {
            self.synchronize();
        }
    }

    /// Compiles a source. `numbers` holds the values of the number literals of the source,
    /// in the order of the source; a literal for which it holds none is reported as an error.
    ///
    /// Returns the compiled functions, the top-level code last, or the diagnostics if there
    /// are any. Every compiled function has a line for each byte of its code, at most 256
    /// constants, and code that is made of whole instructions.
    pub fn compile(self, source: &str, numbers: Vec<u64>) -> (r: Result<
        Vec<Function>,
        Vec<Diagnostic>,
    >)
        requires
            self@.is_fresh(),
        ensures
            match r {
                Ok(functions) => compile_spec(self@.state().function_type, source@, numbers@)
                    == Ok::<Seq<FunctionView>, Seq<DiagnosticView>>(functions_view(functions@))
                    && functions@.len() > 0 && forall|i: int|
                    0 <= i < functions@.len() ==> function_ok(
                        #[trigger] functions_view(functions@)[i],
                    ) && well_formed(functions_view(functions@)[i].chunk, functions_view(functions@)),
                Err(diagnostics) => compile_spec(self@.state().function_type, source@, numbers@)
                    == Err::<Seq<FunctionView>, Seq<DiagnosticView>>(
                    diagnostics_view(diagnostics@),
                ) && diagnostics@.len() > 0,
            },
    {
        let mut compiler = self;
        compiler.scanner.init_scanner(source);
        compiler.numbers = numbers;
        let ghost started = compiler@;
        assert(started == CompilerView::init(self@.state().function_type, source@, numbers@));
        compiler.advance();
        let ghost first = compiler@;
        loop
            invariant_except_break
                compiler@.follows(first),
                compiler@.grows(first),
                compiler@.declarations() == first.declarations(),
            ensures
                compiler@.wf(),
                compiler@.grows(first),
                compiler@ == first.declarations(),
            decreases compiler@.remaining(),
        {
            proof {
                lemma_declarations(compiler@);
            }
            if compiler.my_match(TokenType::Eof) {
                break ;
            }
            compiler.declaration();
        }

        proof {
            lemma_grown_from_nothing(started, compiler@);
        }
        if compiler.parser.had_error {
            Err(compiler.diagnostics)
        } else {
            Ok(compiler.finish())
        }
    }
}

impl CompilerView {
    /// Is this the state of a compiler that has not compiled anything yet?
    pub open spec fn is_fresh(self) -> bool {
        self == CompilerView::init(self.state().function_type, Seq::empty(), Seq::empty())
    }
}

} // verus!
