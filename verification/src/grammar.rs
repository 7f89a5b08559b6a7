//! The rules of the grammar, with the code that each emits, as functions on the state of the
//! compiler.

use vstd::prelude::*;
use crate::chunk::OpCode;
use crate::compiler_model::CompilerView;
use crate::compiler_model::FuncStateView;
use crate::compiler_model::group_appends;
use crate::compiler_model::group_input;
use crate::compiler_model::high_byte;
use crate::compiler_model::low_byte;
use crate::compiler_model::next_count;
use crate::diagnostic::DiagnosticView;
use crate::rules::ParseFn;
use crate::rules::Precedence;
use crate::rules::rule_of;
use crate::scanner::TokenType;
use crate::value::FunctionType;
use crate::value::FunctionView;
use crate::vm_model::short_of;

verus! {

broadcast use group_input;

impl CompilerView {
    // ---------------------------------------------------------------- expressions

    /// An expression whose operators bind at least as tightly as `precedence`.
    #[verifier::opaque]
    pub open spec fn parse_precedence(self, precedence: Precedence) -> CompilerView
        decreases self.remaining(), 4int,
    {
        let read = self.advance();
        match rule_of(read.previous.token_type).prefix {
            None => read.error("Expect expression."@),
            Some(prefix) => {
                let can_assign = precedence.level() <= Precedence::Assignment.level();
                let left = read.within(read.apply(prefix, can_assign));
                let whole = left.within(left.infix_loop(precedence, can_assign));
                if can_assign && whole.check(TokenType::Equal) {
                    whole.advance().error("Invalid assignment target."@)
                } else {
                    whole
                }
            },
        }
    }

    /// The operators that follow a left operand, as long as they bind at least as tightly as
    /// `precedence`, each with its right operand.
    #[verifier::opaque]
    pub open spec fn infix_loop(self, precedence: Precedence, can_assign: bool) -> CompilerView
        decreases self.remaining(), 3int,
    {
        if precedence != Precedence::Lowest && precedence.level() <= rule_of(
            self.current.token_type,
        ).precedence.level() {
            let read = self.advance();
            let done = match rule_of(read.previous.token_type).infix {
                Some(infix) => read.within(read.apply(infix, can_assign)),
                None => read,
            };
            if done.remaining() < self.remaining() {
                done.infix_loop(precedence, can_assign)
            } else {
                done
            }
        } else {
            self
        }
    }

    /// The rule that a row of the table of parse rules names.
    #[verifier::opaque]
    pub open spec fn apply(self, rule: ParseFn, can_assign: bool) -> CompilerView
        decreases self.remaining(), 9int,
    {
        match rule {
            ParseFn::Grouping => self.grouping(),
            ParseFn::Call => self.call(),
            ParseFn::Unary => self.unary(),
            ParseFn::Binary => self.binary(),
            ParseFn::Number => self.number(),
            ParseFn::String => self.string(),
            ParseFn::Literal => self.literal(),
            ParseFn::Variable => self.variable(can_assign),
            ParseFn::And => self.and_(),
            ParseFn::Or => self.or_(),
        }
    }

    #[verifier::opaque]
    pub open spec fn expression(self) -> CompilerView
        decreases self.remaining(), 5int,
    {
        self.parse_precedence(Precedence::Assignment)
    }

    /// After `(`: an expression and `)`.
    #[verifier::opaque]
    pub open spec fn grouping(self) -> CompilerView
        decreases self.remaining(), 8int,
    {
        self.within(self.expression()).consume(
            TokenType::RightParen,
            "Expect ')' after expression."@,
        )
    }

    /// After `-` or `!`: the operand, then the operation.
    #[verifier::opaque]
    pub open spec fn unary(self) -> CompilerView
        decreases self.remaining(), 8int,
    {
        let operand = self.within(self.parse_precedence(Precedence::Unary));
        match self.previous.token_type {
            TokenType::Bang => operand.emit_op(OpCode::Not),
            TokenType::Minus => operand.emit_op(OpCode::Negate),
            _ => operand,
        }
    }

    /// After a binary operator: the right operand, one level above the operator, then the
    /// operation.
    #[verifier::opaque]
    pub open spec fn binary(self) -> CompilerView
        decreases self.remaining(), 8int,
    {
        let operator = self.previous.token_type;
        self.within(
            self.parse_precedence(rule_of(operator).precedence.next_spec()),
        ).binary_operator(operator)
    }

    /// After the `(` of a call: the arguments, then the call.
    #[verifier::opaque]
    pub open spec fn call(self) -> CompilerView
        decreases self.remaining(), 8int,
    {
        let (listed, count) = self.argument_list();
        listed.emit_bytes(OpCode::Call.byte(), count)
    }

    /// The arguments of a call up to `)`, and their number.
    #[verifier::opaque]
    pub open spec fn argument_list(self) -> (CompilerView, u8)
        decreases self.remaining(), 7int,
    {
        let (listed, count) = if !self.check(TokenType::RightParen) {
            let (listed, count) = self.arguments(0);
            (self.within(listed), count)
        } else {
            (self, 0u8)
        };
        (listed.consume(TokenType::RightParen, "Expect ')' after arguments."@), count)
    }

    /// One argument and, after a comma, the others; `count` arguments came before.
    #[verifier::opaque]
    pub open spec fn arguments(self, count: u8) -> (CompilerView, u8)
        decreases self.remaining(), 6int,
    {
        let parsed = self.within(self.expression());
        let counted = if count == 255 {
            parsed.error("Can't have more than 255 arguments."@)
        } else {
            parsed
        };
        if counted.check(TokenType::Comma) && counted.advance().remaining() < self.remaining() {
            counted.advance().arguments(next_count(count))
        } else {
            (counted.match_token(TokenType::Comma), next_count(count))
        }
    }

    /// After the left operand of `and`: if it is falsey, the right operand is jumped over.
    #[verifier::opaque]
    pub open spec fn and_(self) -> CompilerView
        decreases self.remaining(), 8int,
    {
        let (jumped, end_jump) = self.emit_jump(OpCode::JumpIfFalse);
        let popped = jumped.emit_op(OpCode::Pop);
        popped.within(popped.parse_precedence(Precedence::And)).patch_jump(end_jump)
    }

    /// After the left operand of `or`: if it is truthy, the right operand is jumped over.
    #[verifier::opaque]
    pub open spec fn or_(self) -> CompilerView
        decreases self.remaining(), 8int,
    {
        let (first, else_jump) = self.emit_jump(OpCode::JumpIfFalse);
        let (second, end_jump) = first.emit_jump(OpCode::Jump);
        let popped = second.patch_jump(else_jump).emit_op(OpCode::Pop);
        popped.within(popped.parse_precedence(Precedence::Or)).patch_jump(end_jump)
    }

    /// After an identifier: the variable is read, or assigned where an assignment may stand
    /// and `=` follows.
    #[verifier::opaque]
    pub open spec fn variable(self, can_assign: bool) -> CompilerView
        decreases self.remaining(), 8int,
    {
        self.named_variable(self.previous.lexeme, can_assign)
    }

    #[verifier::opaque]
    pub open spec fn named_variable(self, name: Seq<char>, can_assign: bool) -> CompilerView
        decreases self.remaining(), 7int,
    {
        let (resolved, access, arg) = self.resolve(name);
        if can_assign && resolved.check(TokenType::Equal) {
            let read = resolved.advance();
            read.within(read.expression()).emit_bytes(access.set_op().byte(), arg)
        } else {
            resolved.emit_bytes(access.get_op().byte(), arg)
        }
    }

    // ---------------------------------------------------------------- statements

    #[verifier::opaque]
    pub open spec fn print_statement(self) -> CompilerView
        decreases self.remaining(), 10int,
    {
        self.within(self.expression()).consume(
            TokenType::Semicolon,
            "Expect ';' after value."@,
        ).emit_op(OpCode::Print)
    }

    #[verifier::opaque]
    pub open spec fn expression_statement(self) -> CompilerView
        decreases self.remaining(), 10int,
    {
        self.within(self.expression()).consume(
            TokenType::Semicolon,
            "Expect ';' after expression."@,
        ).emit_op(OpCode::Pop)
    }

    #[verifier::opaque]
    pub open spec fn return_statement(self) -> CompilerView
        decreases self.remaining(), 10int,
    {
        let checked = if self.state().function_type == FunctionType::Script {
            self.error("Can't return from top-level code."@)
        } else {
            self
        };
        if checked.check(TokenType::Semicolon) {
            checked.advance().emit_return()
        } else {
            checked.within(checked.expression()).consume(
                TokenType::Semicolon,
                "Expect ';' after return value."@,
            ).emit_op(OpCode::Return)
        }
    }

    #[verifier::opaque]
    pub open spec fn if_statement(self) -> CompilerView
        decreases self.remaining(), 15int,
    {
        let opened = self.consume(TokenType::LeftParen, "Expect '(' after 'if'."@);
        let condition = opened.within(opened.expression()).consume(
            TokenType::RightParen,
            "Expect ')' after condition."@,
        );
        let (jumped, then_jump) = condition.emit_jump(OpCode::JumpIfFalse);
        let popped = jumped.emit_op(OpCode::Pop);
        let then_branch = popped.within(popped.statement());
        let (skipped, else_jump) = then_branch.emit_jump(OpCode::Jump);
        let patched = skipped.patch_jump(then_jump).emit_op(OpCode::Pop);
        let else_branch = if patched.check(TokenType::Else) {
            let read = patched.advance();
            read.within(read.statement())
        } else {
            patched
        };
        else_branch.patch_jump(else_jump)
    }

    #[verifier::opaque]
    pub open spec fn while_statement(self) -> CompilerView
        decreases self.remaining(), 15int,
    {
        let loop_start = self.chunk().code.len() as int;
        let opened = self.consume(TokenType::LeftParen, "Expect '(' after 'while'."@);
        let condition = opened.within(opened.expression()).consume(
            TokenType::RightParen,
            "Expect ')' after condition."@,
        );
        let (jumped, exit_jump) = condition.emit_jump(OpCode::JumpIfFalse);
        let popped = jumped.emit_op(OpCode::Pop);
        popped.within(popped.statement()).emit_loop(loop_start).patch_jump(exit_jump).emit_op(
            OpCode::Pop,
        )
    }

    /// The initializer clause of a `for` statement.
    #[verifier::opaque]
    pub open spec fn for_initializer(self) -> CompilerView
        decreases self.remaining(), 14int,
    {
        if self.check(TokenType::Semicolon) {
            self.advance()
        } else if self.check(TokenType::Var) {
            let read = self.advance();
            read.within(read.var_declaration())
        } else {
            self.within(self.expression_statement())
        }
    }

    /// The condition clause of a `for` statement, and the offset of the jump that leaves the
    /// loop if there is a condition.
    #[verifier::opaque]
    pub open spec fn for_condition(self) -> (CompilerView, Option<int>)
        decreases self.remaining(), 14int,
    {
        if self.check(TokenType::Semicolon) {
            (self.advance(), None)
        } else {
            let condition = self.within(self.expression()).consume(
                TokenType::Semicolon,
                "Expect ';' after loop condition."@,
            );
            let (jumped, exit_jump) = condition.emit_jump(OpCode::JumpIfFalse);
            (jumped.emit_op(OpCode::Pop), Some(exit_jump))
        }
    }

    /// The increment clause of a `for` statement, and where the body jumps back to: the
    /// increment if there is one, else `loop_start`.
    #[verifier::opaque]
    pub open spec fn for_increment(self, loop_start: int) -> (CompilerView, int)
        decreases self.remaining(), 14int,
    {
        if self.check(TokenType::RightParen) {
            (self.advance(), loop_start)
        } else {
            let (jumped, body_jump) = self.emit_jump(OpCode::Jump);
            let increment_start = jumped.chunk().code.len() as int;
            let increment = jumped.within(jumped.expression()).emit_op(OpCode::Pop).consume(
                TokenType::RightParen,
                "Expect ')' after for clauses."@,
            );
            (increment.emit_loop(loop_start).patch_jump(body_jump), increment_start)
        }
    }

    /// The clauses of a `for` statement behind the initializer, and the body.
    #[verifier::opaque]
    pub open spec fn for_loop(self) -> CompilerView
        decreases self.remaining(), 15int,
    {
        let loop_start = self.chunk().code.len() as int;
        let (tested, exit_jump) = self.for_condition();
        let condition = self.within(tested);
        let (stepped, back) = condition.for_increment(loop_start);
        let increment = condition.within(stepped);
        let body = increment.within(increment.statement()).emit_loop(back);
        match exit_jump {
            Some(offset) => body.patch_jump(offset).emit_op(OpCode::Pop),
            None => body,
        }
    }

    #[verifier::opaque]
    pub open spec fn for_statement(self) -> CompilerView
        decreases self.remaining(), 16int,
    {
        let opened = self.begin_scope().consume(TokenType::LeftParen, "Expect '(' after 'for'."@);
        let initialized = opened.within(opened.for_initializer());
        initialized.within(initialized.for_loop()).end_scope()
    }

    /// The declarations of a block, up to `}` or the end of the input.
    #[verifier::opaque]
    pub open spec fn block_loop(self) -> CompilerView
        decreases self.remaining(), 13int,
    {
        if self.check(TokenType::RightBrace) || self.check(TokenType::Eof) {
            self
        } else {
            let declared = self.within(self.declaration());
            if declared.remaining() < self.remaining() {
                declared.block_loop()
            } else {
                declared
            }
        }
    }

    #[verifier::opaque]
    pub open spec fn block(self) -> CompilerView
        decreases self.remaining(), 14int,
    {
        self.within(self.block_loop()).consume(TokenType::RightBrace, "Expect '}' after block."@)
    }

    #[verifier::opaque]
    pub open spec fn statement(self) -> CompilerView
        decreases self.remaining(), 11int,
    {
        if self.check(TokenType::Print) {
            self.advance().print_statement()
        } else if self.check(TokenType::If) {
            self.advance().if_statement()
        } else if self.check(TokenType::While) {
            self.advance().while_statement()
        } else if self.check(TokenType::For) {
            self.advance().for_statement()
        } else if self.check(TokenType::Return) {
            self.advance().return_statement()
        } else if self.check(TokenType::LeftBrace) {
            let opened = self.advance().begin_scope();
            opened.within(opened.block()).end_scope()
        } else {
            self.expression_statement()
        }
    }

    // ---------------------------------------------------------------- declarations

    #[verifier::opaque]
    pub open spec fn var_declaration(self) -> CompilerView
        decreases self.remaining(), 10int,
    {
        let (named, global) = self.parse_variable("Expect variable name."@);
        let initialized = if named.check(TokenType::Equal) {
            let read = named.advance();
            read.within(read.expression())
        } else {
            named.emit_op(OpCode::Nil)
        };
        initialized.consume(
            TokenType::Semicolon,
            "Expect ';' after variable declaration."@,
        ).define_variable(global)
    }

    /// The parameters and the body of a function, compiled in a state of its own. Gives the
    /// index of the function among the finished ones.
    #[verifier::opaque]
    pub open spec fn function_body(self, name: Seq<char>, function_type: FunctionType) -> (
        CompilerView,
        usize,
    )
        decreases self.remaining(), 17int,
    {
        let opened = self.push_state(FuncStateView::new(function_type, name)).begin_scope().consume(
            TokenType::LeftParen,
            "Expect '(' after function name."@,
        );
        let listed = if !opened.check(TokenType::RightParen) {
            opened.parameters()
        } else {
            opened
        };
        let braced = listed.consume(
            TokenType::RightParen,
            "Expect ')' after parameters."@,
        ).consume(TokenType::LeftBrace, "Expect '{' before function body."@);
        braced.within(braced.block()).end_compiler()
    }

    /// A function: its parameters and body, and in the enclosing function the instruction
    /// that makes the closure.
    #[verifier::opaque]
    pub open spec fn function(self, name: Seq<char>, function_type: FunctionType) -> CompilerView
        decreases self.remaining(), 18int,
    {
        let (ended, index) = self.function_body(name, function_type);
        ended.closure(index)
    }

    #[verifier::opaque]
    pub open spec fn func_declaration(self) -> CompilerView
        decreases self.remaining(), 19int,
    {
        let (named, global) = self.parse_variable("Expect func name"@);
        let marked = named.mark_initialized();
        marked.within(marked.function(named.previous.lexeme, FunctionType::Function)).define_variable(
            global,
        )
    }

    #[verifier::opaque]
    pub open spec fn declaration(self) -> CompilerView
        decreases self.remaining(), 12int,
    {
        let declared = if self.check(TokenType::Var) {
            self.advance().var_declaration()
        } else if self.check(TokenType::Fun) {
            self.advance().func_declaration()
        } else {
            self.statement()
        };
        if declared.panic_mode {
            declared.synchronize()
        } else {
            declared
        }
    }

    /// The declarations of a source, up to the end of the input.
    #[verifier::opaque]
    pub open spec fn declarations(self) -> CompilerView
        decreases self.remaining(), 20int,
    {
        if self.check(TokenType::Eof) {
            self.advance()
        } else {
            let declared = self.within(self.declaration());
            if declared.remaining() < self.remaining() {
                declared.declarations()
            } else {
                declared
            }
        }
    }
}

/// What the rule [`CompilerView::parse_precedence`] says, in terms of the rules it is made of.
pub proof fn lemma_parse_precedence(c: CompilerView, precedence: Precedence)
    ensures
        c.parse_precedence(precedence) == ({
            let read = c.advance();
            match rule_of(read.previous.token_type).prefix {
                None => read.error("Expect expression."@),
                Some(prefix) => {
                    let can_assign = precedence.level() <= Precedence::Assignment.level();
                    let left = read.within(read.apply(prefix, can_assign));
                    let whole = left.within(left.infix_loop(precedence, can_assign));
                    if can_assign && whole.check(TokenType::Equal) {
                        whole.advance().error("Invalid assignment target."@)
                    } else {
                        whole
                    }
                },
            }
        }),
{
    reveal_with_fuel(CompilerView::parse_precedence, 1);
    reveal_with_fuel(CompilerView::apply, 1);
    reveal_with_fuel(CompilerView::infix_loop, 1);
}

/// What the rule [`CompilerView::infix_loop`] says, in terms of the rules it is made of.
pub proof fn lemma_infix_loop(c: CompilerView, precedence: Precedence, can_assign: bool)
    ensures
        c.infix_loop(precedence, can_assign) == ({
            if precedence != Precedence::Lowest && precedence.level() <= rule_of(
                c.current.token_type,
            ).precedence.level() {
                let read = c.advance();
                let done = match rule_of(read.previous.token_type).infix {
                    Some(infix) => read.within(read.apply(infix, can_assign)),
                    None => read,
                };
                if done.remaining() < c.remaining() {
                    done.infix_loop(precedence, can_assign)
                } else {
                    done
                }
            } else {
                c
            }
        }),
{
    reveal_with_fuel(CompilerView::infix_loop, 1);
    reveal_with_fuel(CompilerView::apply, 1);
}

/// What the rule [`CompilerView::apply`] says, in terms of the rules it is made of.
pub proof fn lemma_apply(c: CompilerView, rule: ParseFn, can_assign: bool)
    ensures
        c.apply(rule, can_assign) == ({
            match rule {
                ParseFn::Grouping => c.grouping(),
                ParseFn::Call => c.call(),
                ParseFn::Unary => c.unary(),
                ParseFn::Binary => c.binary(),
                ParseFn::Number => c.number(),
                ParseFn::String => c.string(),
                ParseFn::Literal => c.literal(),
                ParseFn::Variable => c.variable(can_assign),
                ParseFn::And => c.and_(),
                ParseFn::Or => c.or_(),
            }
        }),
{
    reveal_with_fuel(CompilerView::apply, 1);
    reveal_with_fuel(CompilerView::and_, 1);
    reveal_with_fuel(CompilerView::binary, 1);
    reveal_with_fuel(CompilerView::call, 1);
    reveal_with_fuel(CompilerView::grouping, 1);
    reveal_with_fuel(CompilerView::or_, 1);
    reveal_with_fuel(CompilerView::unary, 1);
    reveal_with_fuel(CompilerView::variable, 1);
}

/// What the rule [`CompilerView::expression`] says, in terms of the rules it is made of.
pub proof fn lemma_expression(c: CompilerView)
    ensures
        c.expression() == ({
            c.parse_precedence(Precedence::Assignment)
        }),
{
    reveal_with_fuel(CompilerView::expression, 1);
    reveal_with_fuel(CompilerView::parse_precedence, 1);
}

/// What the rule [`CompilerView::grouping`] says, in terms of the rules it is made of.
pub proof fn lemma_grouping(c: CompilerView)
    ensures
        c.grouping() == ({
            c.within(c.expression()).consume(
                TokenType::RightParen,
                "Expect ')' after expression."@,
            )
        }),
{
    reveal_with_fuel(CompilerView::grouping, 1);
    reveal_with_fuel(CompilerView::expression, 1);
}

/// What the rule [`CompilerView::unary`] says, in terms of the rules it is made of.
pub proof fn lemma_unary(c: CompilerView)
    ensures
        c.unary() == ({
            let operand = c.within(c.parse_precedence(Precedence::Unary));
            match c.previous.token_type {
                TokenType::Bang => operand.emit_op(OpCode::Not),
                TokenType::Minus => operand.emit_op(OpCode::Negate),
                _ => operand,
            }
        }),
{
    reveal_with_fuel(CompilerView::unary, 1);
    reveal_with_fuel(CompilerView::parse_precedence, 1);
}

/// What the rule [`CompilerView::binary`] says, in terms of the rules it is made of.
pub proof fn lemma_binary(c: CompilerView)
    ensures
        c.binary() == ({
            let operator = c.previous.token_type;
            c.within(
                c.parse_precedence(rule_of(operator).precedence.next_spec()),
            ).binary_operator(operator)
        }),
{
    reveal_with_fuel(CompilerView::binary, 1);
    reveal_with_fuel(CompilerView::parse_precedence, 1);
}

/// What the rule [`CompilerView::call`] says, in terms of the rules it is made of.
pub proof fn lemma_call(c: CompilerView)
    ensures
        c.call() == ({
            let (listed, count) = c.argument_list();
            listed.emit_bytes(OpCode::Call.byte(), count)
        }),
{
    reveal_with_fuel(CompilerView::call, 1);
    reveal_with_fuel(CompilerView::argument_list, 1);
}

/// What the rule [`CompilerView::argument_list`] says, in terms of the rules it is made of.
pub proof fn lemma_argument_list(c: CompilerView)
    ensures
        c.argument_list() == ({
            let (listed, count) = if !c.check(TokenType::RightParen) {
                let (listed, count) = c.arguments(0);
                (c.within(listed), count)
            } else {
                (c, 0u8)
            };
            (listed.consume(TokenType::RightParen, "Expect ')' after arguments."@), count)
        }),
{
    reveal_with_fuel(CompilerView::argument_list, 1);
    reveal_with_fuel(CompilerView::arguments, 1);
}

/// What the rule [`CompilerView::arguments`] says, in terms of the rules it is made of.
pub proof fn lemma_arguments(c: CompilerView, count: u8)
    ensures
        c.arguments(count) == ({
            let parsed = c.within(c.expression());
            let counted = if count == 255 {
                parsed.error("Can't have more than 255 arguments."@)
            } else {
                parsed
            };
            if counted.check(TokenType::Comma) && counted.advance().remaining() < c.remaining() {
                counted.advance().arguments(next_count(count))
            } else {
                (counted.match_token(TokenType::Comma), next_count(count))
            }
        }),
{
    reveal_with_fuel(CompilerView::arguments, 1);
    reveal_with_fuel(CompilerView::expression, 1);
}

/// What the rule [`CompilerView::and_`] says, in terms of the rules it is made of.
pub proof fn lemma_and_(c: CompilerView)
    ensures
        c.and_() == ({
            let (jumped, end_jump) = c.emit_jump(OpCode::JumpIfFalse);
            let popped = jumped.emit_op(OpCode::Pop);
            popped.within(popped.parse_precedence(Precedence::And)).patch_jump(end_jump)
        }),
{
    reveal_with_fuel(CompilerView::and_, 1);
    reveal_with_fuel(CompilerView::parse_precedence, 1);
}

/// What the rule [`CompilerView::or_`] says, in terms of the rules it is made of.
pub proof fn lemma_or_(c: CompilerView)
    ensures
        c.or_() == ({
            let (first, else_jump) = c.emit_jump(OpCode::JumpIfFalse);
            let (second, end_jump) = first.emit_jump(OpCode::Jump);
            let popped = second.patch_jump(else_jump).emit_op(OpCode::Pop);
            popped.within(popped.parse_precedence(Precedence::Or)).patch_jump(end_jump)
        }),
{
    reveal_with_fuel(CompilerView::or_, 1);
    reveal_with_fuel(CompilerView::parse_precedence, 1);
}

/// What the rule [`CompilerView::variable`] says, in terms of the rules it is made of.
pub proof fn lemma_variable(c: CompilerView, can_assign: bool)
    ensures
        c.variable(can_assign) == ({
            c.named_variable(c.previous.lexeme, can_assign)
        }),
{
    reveal_with_fuel(CompilerView::variable, 1);
    reveal_with_fuel(CompilerView::named_variable, 1);
}

/// What the rule [`CompilerView::named_variable`] says, in terms of the rules it is made of.
pub proof fn lemma_named_variable(c: CompilerView, name: Seq<char>, can_assign: bool)
    ensures
        c.named_variable(name, can_assign) == ({
            let (resolved, access, arg) = c.resolve(name);
            if can_assign && resolved.check(TokenType::Equal) {
                let read = resolved.advance();
                read.within(read.expression()).emit_bytes(access.set_op().byte(), arg)
            } else {
                resolved.emit_bytes(access.get_op().byte(), arg)
            }
        }),
{
    reveal_with_fuel(CompilerView::named_variable, 1);
    reveal_with_fuel(CompilerView::expression, 1);
}

/// What the rule [`CompilerView::print_statement`] says, in terms of the rules it is made of.
pub proof fn lemma_print_statement(c: CompilerView)
    ensures
        c.print_statement() == ({
            c.within(c.expression()).consume(
                TokenType::Semicolon,
                "Expect ';' after value."@,
            ).emit_op(OpCode::Print)
        }),
{
    reveal_with_fuel(CompilerView::print_statement, 1);
    reveal_with_fuel(CompilerView::expression, 1);
}

/// What the rule [`CompilerView::expression_statement`] says, in terms of the rules it is made of.
pub proof fn lemma_expression_statement(c: CompilerView)
    ensures
        c.expression_statement() == ({
            c.within(c.expression()).consume(
                TokenType::Semicolon,
                "Expect ';' after expression."@,
            ).emit_op(OpCode::Pop)
        }),
{
    reveal_with_fuel(CompilerView::expression_statement, 1);
    reveal_with_fuel(CompilerView::expression, 1);
}

/// What the rule [`CompilerView::return_statement`] says, in terms of the rules it is made of.
pub proof fn lemma_return_statement(c: CompilerView)
    ensures
        c.return_statement() == ({
            let checked = if c.state().function_type == FunctionType::Script {
                c.error("Can't return from top-level code."@)
            } else {
                c
            };
            if checked.check(TokenType::Semicolon) {
                checked.advance().emit_return()
            } else {
                checked.within(checked.expression()).consume(
                    TokenType::Semicolon,
                    "Expect ';' after return value."@,
                ).emit_op(OpCode::Return)
            }
        }),
{
    reveal_with_fuel(CompilerView::return_statement, 1);
    reveal_with_fuel(CompilerView::expression, 1);
}

/// What the rule [`CompilerView::if_statement`] says, in terms of the rules it is made of.
pub proof fn lemma_if_statement(c: CompilerView)
    ensures
        c.if_statement() == ({
            let opened = c.consume(TokenType::LeftParen, "Expect '(' after 'if'."@);
            let condition = opened.within(opened.expression()).consume(
                TokenType::RightParen,
                "Expect ')' after condition."@,
            );
            let (jumped, then_jump) = condition.emit_jump(OpCode::JumpIfFalse);
            let popped = jumped.emit_op(OpCode::Pop);
            let then_branch = popped.within(popped.statement());
            let (skipped, else_jump) = then_branch.emit_jump(OpCode::Jump);
            let patched = skipped.patch_jump(then_jump).emit_op(OpCode::Pop);
            let else_branch = if patched.check(TokenType::Else) {
                let read = patched.advance();
                read.within(read.statement())
            } else {
                patched
            };
            else_branch.patch_jump(else_jump)
        }),
{
    reveal_with_fuel(CompilerView::if_statement, 1);
    reveal_with_fuel(CompilerView::expression, 1);
    reveal_with_fuel(CompilerView::statement, 1);
}

/// What the rule [`CompilerView::while_statement`] says, in terms of the rules it is made of.
pub proof fn lemma_while_statement(c: CompilerView)
    ensures
        c.while_statement() == ({
            let loop_start = c.chunk().code.len() as int;
            let opened = c.consume(TokenType::LeftParen, "Expect '(' after 'while'."@);
            let condition = opened.within(opened.expression()).consume(
                TokenType::RightParen,
                "Expect ')' after condition."@,
            );
            let (jumped, exit_jump) = condition.emit_jump(OpCode::JumpIfFalse);
            let popped = jumped.emit_op(OpCode::Pop);
            popped.within(popped.statement()).emit_loop(loop_start).patch_jump(exit_jump).emit_op(
                OpCode::Pop,
            )
        }),
{
    reveal_with_fuel(CompilerView::while_statement, 1);
    reveal_with_fuel(CompilerView::expression, 1);
    reveal_with_fuel(CompilerView::statement, 1);
}

/// What the rule [`CompilerView::for_initializer`] says, in terms of the rules it is made of.
pub proof fn lemma_for_initializer(c: CompilerView)
    ensures
        c.for_initializer() == ({
            if c.check(TokenType::Semicolon) {
                c.advance()
            } else if c.check(TokenType::Var) {
                let read = c.advance();
                read.within(read.var_declaration())
            } else {
                c.within(c.expression_statement())
            }
        }),
{
    reveal_with_fuel(CompilerView::for_initializer, 1);
    reveal_with_fuel(CompilerView::expression_statement, 1);
    reveal_with_fuel(CompilerView::var_declaration, 1);
}

/// What the rule [`CompilerView::for_condition`] says, in terms of the rules it is made of.
pub proof fn lemma_for_condition(c: CompilerView)
    ensures
        c.for_condition() == ({
            if c.check(TokenType::Semicolon) {
                (c.advance(), None)
            } else {
                let condition = c.within(c.expression()).consume(
                    TokenType::Semicolon,
                    "Expect ';' after loop condition."@,
                );
                let (jumped, exit_jump) = condition.emit_jump(OpCode::JumpIfFalse);
                (jumped.emit_op(OpCode::Pop), Some(exit_jump))
            }
        }),
{
    reveal_with_fuel(CompilerView::for_condition, 1);
    reveal_with_fuel(CompilerView::expression, 1);
}

/// What the rule [`CompilerView::for_increment`] says, in terms of the rules it is made of.
pub proof fn lemma_for_increment(c: CompilerView, loop_start: int)
    ensures
        c.for_increment(loop_start) == ({
            if c.check(TokenType::RightParen) {
                (c.advance(), loop_start)
            } else {
                let (jumped, body_jump) = c.emit_jump(OpCode::Jump);
                let increment_start = jumped.chunk().code.len() as int;
                let increment = jumped.within(jumped.expression()).emit_op(OpCode::Pop).consume(
                    TokenType::RightParen,
                    "Expect ')' after for clauses."@,
                );
                (increment.emit_loop(loop_start).patch_jump(body_jump), increment_start)
            }
        }),
{
    reveal_with_fuel(CompilerView::for_increment, 1);
    reveal_with_fuel(CompilerView::expression, 1);
}

/// What the rule [`CompilerView::for_loop`] says, in terms of the rules it is made of.
pub proof fn lemma_for_loop(c: CompilerView)
    ensures
        c.for_loop() == ({
            let loop_start = c.chunk().code.len() as int;
            let (tested, exit_jump) = c.for_condition();
            let condition = c.within(tested);
            let (stepped, back) = condition.for_increment(loop_start);
            let increment = condition.within(stepped);
            let body = increment.within(increment.statement()).emit_loop(back);
            match exit_jump {
                Some(offset) => body.patch_jump(offset).emit_op(OpCode::Pop),
                None => body,
            }
        }),
{
    reveal_with_fuel(CompilerView::for_loop, 1);
    reveal_with_fuel(CompilerView::for_condition, 1);
    reveal_with_fuel(CompilerView::for_increment, 1);
    reveal_with_fuel(CompilerView::statement, 1);
}

/// What the rule [`CompilerView::for_statement`] says, in terms of the rules it is made of.
pub proof fn lemma_for_statement(c: CompilerView)
    ensures
        c.for_statement() == ({
            let opened = c.begin_scope().consume(TokenType::LeftParen, "Expect '(' after 'for'."@);
            let initialized = opened.within(opened.for_initializer());
            initialized.within(initialized.for_loop()).end_scope()
        }),
{
    reveal_with_fuel(CompilerView::for_statement, 1);
    reveal_with_fuel(CompilerView::for_initializer, 1);
    reveal_with_fuel(CompilerView::for_loop, 1);
}

/// What the rule [`CompilerView::block_loop`] says, in terms of the rules it is made of.
pub proof fn lemma_block_loop(c: CompilerView)
    ensures
        c.block_loop() == ({
            if c.check(TokenType::RightBrace) || c.check(TokenType::Eof) {
                c
            } else {
                let declared = c.within(c.declaration());
                if declared.remaining() < c.remaining() {
                    declared.block_loop()
                } else {
                    declared
                }
            }
        }),
{
    reveal_with_fuel(CompilerView::block_loop, 1);
    reveal_with_fuel(CompilerView::declaration, 1);
}

/// What the rule [`CompilerView::block`] says, in terms of the rules it is made of.
pub proof fn lemma_block(c: CompilerView)
    ensures
        c.block() == ({
            c.within(c.block_loop()).consume(TokenType::RightBrace, "Expect '}' after block."@)
        }),
{
    reveal_with_fuel(CompilerView::block, 1);
    reveal_with_fuel(CompilerView::block_loop, 1);
}

/// What the rule [`CompilerView::statement`] says, in terms of the rules it is made of.
pub proof fn lemma_statement(c: CompilerView)
    ensures
        c.statement() == ({
            if c.check(TokenType::Print) {
                c.advance().print_statement()
            } else if c.check(TokenType::If) {
                c.advance().if_statement()
            } else if c.check(TokenType::While) {
                c.advance().while_statement()
            } else if c.check(TokenType::For) {
                c.advance().for_statement()
            } else if c.check(TokenType::Return) {
                c.advance().return_statement()
            } else if c.check(TokenType::LeftBrace) {
                let opened = c.advance().begin_scope();
                opened.within(opened.block()).end_scope()
            } else {
                c.expression_statement()
            }
        }),
{
    reveal_with_fuel(CompilerView::statement, 1);
    reveal_with_fuel(CompilerView::block, 1);
    reveal_with_fuel(CompilerView::expression_statement, 1);
    reveal_with_fuel(CompilerView::for_statement, 1);
    reveal_with_fuel(CompilerView::if_statement, 1);
    reveal_with_fuel(CompilerView::print_statement, 1);
    reveal_with_fuel(CompilerView::return_statement, 1);
    reveal_with_fuel(CompilerView::while_statement, 1);
}

/// What the rule [`CompilerView::var_declaration`] says, in terms of the rules it is made of.
pub proof fn lemma_var_declaration(c: CompilerView)
    ensures
        c.var_declaration() == ({
            let (named, global) = c.parse_variable("Expect variable name."@);
            let initialized = if named.check(TokenType::Equal) {
                let read = named.advance();
                read.within(read.expression())
            } else {
                named.emit_op(OpCode::Nil)
            };
            initialized.consume(
                TokenType::Semicolon,
                "Expect ';' after variable declaration."@,
            ).define_variable(global)
        }),
{
    reveal_with_fuel(CompilerView::var_declaration, 1);
    reveal_with_fuel(CompilerView::expression, 1);
}

/// What the rule [`CompilerView::function_body`] says, in terms of the rules it is made of.
pub proof fn lemma_function_body(c: CompilerView, name: Seq<char>, function_type: FunctionType)
    ensures
        c.function_body(name, function_type) == ({
            let opened = c.push_state(FuncStateView::new(function_type, name)).begin_scope().consume(
                TokenType::LeftParen,
                "Expect '(' after function name."@,
            );
            let listed = if !opened.check(TokenType::RightParen) {
                opened.parameters()
            } else {
                opened
            };
            let braced = listed.consume(
                TokenType::RightParen,
                "Expect ')' after parameters."@,
            ).consume(TokenType::LeftBrace, "Expect '{' before function body."@);
            braced.within(braced.block()).end_compiler()
        }),
{
    reveal_with_fuel(CompilerView::function_body, 1);
    reveal_with_fuel(CompilerView::block, 1);
}

/// What the rule [`CompilerView::function`] says, in terms of the rules it is made of.
pub proof fn lemma_function(c: CompilerView, name: Seq<char>, function_type: FunctionType)
    ensures
        c.function(name, function_type) == ({
            let (ended, index) = c.function_body(name, function_type);
            ended.closure(index)
        }),
{
    reveal_with_fuel(CompilerView::function, 1);
    reveal_with_fuel(CompilerView::function_body, 1);
}

/// What the rule [`CompilerView::func_declaration`] says, in terms of the rules it is made of.
pub proof fn lemma_func_declaration(c: CompilerView)
    ensures
        c.func_declaration() == ({
            let (named, global) = c.parse_variable("Expect func name"@);
            let marked = named.mark_initialized();
            marked.within(marked.function(named.previous.lexeme, FunctionType::Function)).define_variable(
                global,
            )
        }),
{
    reveal_with_fuel(CompilerView::func_declaration, 1);
    reveal_with_fuel(CompilerView::function, 1);
}

/// What the rule [`CompilerView::declaration`] says, in terms of the rules it is made of.
pub proof fn lemma_declaration(c: CompilerView)
    ensures
        c.declaration() == ({
            let declared = if c.check(TokenType::Var) {
                c.advance().var_declaration()
            } else if c.check(TokenType::Fun) {
                c.advance().func_declaration()
            } else {
                c.statement()
            };
            if declared.panic_mode {
                declared.synchronize()
            } else {
                declared
            }
        }),
{
    reveal_with_fuel(CompilerView::declaration, 1);
    reveal_with_fuel(CompilerView::func_declaration, 1);
    reveal_with_fuel(CompilerView::statement, 1);
    reveal_with_fuel(CompilerView::var_declaration, 1);
}

/// What the rule [`CompilerView::declarations`] says, in terms of the rules it is made of.
pub proof fn lemma_declarations(c: CompilerView)
    ensures
        c.declarations() == ({
            if c.check(TokenType::Eof) {
                c.advance()
            } else {
                let declared = c.within(c.declaration());
                if declared.remaining() < c.remaining() {
                    declared.declarations()
                } else {
                    declared
                }
            }
        }),
{
    reveal_with_fuel(CompilerView::declarations, 1);
    reveal_with_fuel(CompilerView::declaration, 1);
}

// Every rule leaves no more input than there was. So `within` never stands in for what a
// rule returns, and the loops of the grammar go on for as long as their conditions say.


/// The rule [`CompilerView::parse_precedence`] leaves no more input than there was, and less unless the input is at its end.
pub proof fn lemma_parse_precedence_bound(c: CompilerView, precedence: Precedence)
    ensures
        c.parse_precedence(precedence).remaining() <= c.remaining(),
        c.current.token_type != TokenType::Eof ==> c.parse_precedence(precedence).remaining() < c.remaining(),
    decreases c.remaining(), 4int,
{
    lemma_parse_precedence(c, precedence);
}

/// The rule [`CompilerView::infix_loop`] leaves no more input than there was.
pub proof fn lemma_infix_loop_bound(c: CompilerView, precedence: Precedence, can_assign: bool)
    ensures
        c.infix_loop(precedence, can_assign).remaining() <= c.remaining(),
    decreases c.remaining(), 3int,
{
    lemma_infix_loop(c, precedence, can_assign);
    if precedence != Precedence::Lowest && precedence.level() <= rule_of(
        c.current.token_type,
    ).precedence.level() {
        let read = c.advance();
        let done = match rule_of(read.previous.token_type).infix {
            Some(infix) => read.within(read.apply(infix, can_assign)),
            None => read,
        };
        if done.remaining() < c.remaining() {
            lemma_infix_loop_bound(done, precedence, can_assign);
        }
    }
}

/// The rule [`CompilerView::apply`] leaves no more input than there was.
pub proof fn lemma_apply_bound(c: CompilerView, rule: ParseFn, can_assign: bool)
    ensures
        c.apply(rule, can_assign).remaining() <= c.remaining(),
    decreases c.remaining(), 9int,
{
    lemma_apply(c, rule, can_assign);
    match rule {
        ParseFn::Grouping => lemma_grouping_bound(c),
        ParseFn::Call => lemma_call_bound(c),
        ParseFn::Unary => lemma_unary_bound(c),
        ParseFn::Binary => lemma_binary_bound(c),
        ParseFn::Number => {},
        ParseFn::String => {},
        ParseFn::Literal => {},
        ParseFn::Variable => lemma_variable_bound(c, can_assign),
        ParseFn::And => lemma_and_bound(c),
        ParseFn::Or => lemma_or_bound(c),
    }
}

/// The rule [`CompilerView::expression`] leaves no more input than there was, and less unless the input is at its end.
pub proof fn lemma_expression_bound(c: CompilerView)
    ensures
        c.expression().remaining() <= c.remaining(),
        c.current.token_type != TokenType::Eof ==> c.expression().remaining() < c.remaining(),
    decreases c.remaining(), 5int,
{
    lemma_expression(c);
    lemma_parse_precedence_bound(c, Precedence::Assignment);
}

/// The rule [`CompilerView::grouping`] leaves no more input than there was.
pub proof fn lemma_grouping_bound(c: CompilerView)
    ensures
        c.grouping().remaining() <= c.remaining(),
    decreases c.remaining(), 8int,
{
    lemma_grouping(c);
}

/// The rule [`CompilerView::unary`] leaves no more input than there was.
pub proof fn lemma_unary_bound(c: CompilerView)
    ensures
        c.unary().remaining() <= c.remaining(),
    decreases c.remaining(), 8int,
{
    lemma_unary(c);
}

/// The rule [`CompilerView::binary`] leaves no more input than there was.
pub proof fn lemma_binary_bound(c: CompilerView)
    ensures
        c.binary().remaining() <= c.remaining(),
    decreases c.remaining(), 8int,
{
    lemma_binary(c);
}

/// The rule [`CompilerView::call`] leaves no more input than there was.
pub proof fn lemma_call_bound(c: CompilerView)
    ensures
        c.call().remaining() <= c.remaining(),
    decreases c.remaining(), 8int,
{
    lemma_call(c);
    lemma_argument_list_bound(c);
}

/// The rule [`CompilerView::argument_list`] leaves no more input than there was.
pub proof fn lemma_argument_list_bound(c: CompilerView)
    ensures
        c.argument_list().0.remaining() <= c.remaining(),
    decreases c.remaining(), 7int,
{
    lemma_argument_list(c);
}

/// The rule [`CompilerView::arguments`] leaves no more input than there was.
pub proof fn lemma_arguments_bound(c: CompilerView, count: u8)
    ensures
        c.arguments(count).0.remaining() <= c.remaining(),
    decreases c.remaining(), 6int,
{
    lemma_arguments(c, count);
    let parsed = c.within(c.expression());
    let counted = if count == 255 {
        parsed.error("Can't have more than 255 arguments."@)
    } else {
        parsed
    };
    if counted.check(TokenType::Comma) && counted.advance().remaining() < c.remaining() {
        lemma_arguments_bound(counted.advance(), next_count(count));
    }
}

/// The rule [`CompilerView::and_`] leaves no more input than there was.
pub proof fn lemma_and_bound(c: CompilerView)
    ensures
        c.and_().remaining() <= c.remaining(),
    decreases c.remaining(), 8int,
{
    lemma_and_(c);
}

/// The rule [`CompilerView::or_`] leaves no more input than there was.
pub proof fn lemma_or_bound(c: CompilerView)
    ensures
        c.or_().remaining() <= c.remaining(),
    decreases c.remaining(), 8int,
{
    lemma_or_(c);
}

/// The rule [`CompilerView::variable`] leaves no more input than there was.
pub proof fn lemma_variable_bound(c: CompilerView, can_assign: bool)
    ensures
        c.variable(can_assign).remaining() <= c.remaining(),
    decreases c.remaining(), 8int,
{
    lemma_variable(c, can_assign);
    lemma_named_variable_bound(c, c.previous.lexeme, can_assign);
}

/// The rule [`CompilerView::named_variable`] leaves no more input than there was.
pub proof fn lemma_named_variable_bound(c: CompilerView, name: Seq<char>, can_assign: bool)
    ensures
        c.named_variable(name, can_assign).remaining() <= c.remaining(),
    decreases c.remaining(), 7int,
{
    lemma_named_variable(c, name, can_assign);
}

/// The rule [`CompilerView::print_statement`] leaves no more input than there was, and less unless the input is at its end.
pub proof fn lemma_print_statement_bound(c: CompilerView)
    ensures
        c.print_statement().remaining() <= c.remaining(),
        c.current.token_type != TokenType::Eof ==> c.print_statement().remaining() < c.remaining(),
    decreases c.remaining(), 10int,
{
    lemma_print_statement(c);
    lemma_expression_bound(c);
}

/// The rule [`CompilerView::expression_statement`] leaves no more input than there was, and less unless the input is at its end.
pub proof fn lemma_expression_statement_bound(c: CompilerView)
    ensures
        c.expression_statement().remaining() <= c.remaining(),
        c.current.token_type != TokenType::Eof ==> c.expression_statement().remaining() < c.remaining(),
    decreases c.remaining(), 10int,
{
    lemma_expression_statement(c);
    lemma_expression_bound(c);
}

/// The rule [`CompilerView::return_statement`] leaves no more input than there was.
pub proof fn lemma_return_statement_bound(c: CompilerView)
    ensures
        c.return_statement().remaining() <= c.remaining(),
    decreases c.remaining(), 10int,
{
    lemma_return_statement(c);
}

/// The rule [`CompilerView::if_statement`] leaves no more input than there was.
pub proof fn lemma_if_statement_bound(c: CompilerView)
    ensures
        c.if_statement().remaining() <= c.remaining(),
    decreases c.remaining(), 15int,
{
    lemma_if_statement(c);
}

/// The rule [`CompilerView::while_statement`] leaves no more input than there was.
pub proof fn lemma_while_statement_bound(c: CompilerView)
    ensures
        c.while_statement().remaining() <= c.remaining(),
    decreases c.remaining(), 15int,
{
    lemma_while_statement(c);
}

/// The rule [`CompilerView::for_initializer`] leaves no more input than there was.
pub proof fn lemma_for_initializer_bound(c: CompilerView)
    ensures
        c.for_initializer().remaining() <= c.remaining(),
    decreases c.remaining(), 14int,
{
    lemma_for_initializer(c);
}

/// The rule [`CompilerView::for_condition`] leaves no more input than there was.
pub proof fn lemma_for_condition_bound(c: CompilerView)
    ensures
        c.for_condition().0.remaining() <= c.remaining(),
    decreases c.remaining(), 14int,
{
    lemma_for_condition(c);
}

/// The rule [`CompilerView::for_increment`] leaves no more input than there was.
pub proof fn lemma_for_increment_bound(c: CompilerView, loop_start: int)
    ensures
        c.for_increment(loop_start).0.remaining() <= c.remaining(),
    decreases c.remaining(), 14int,
{
    lemma_for_increment(c, loop_start);
}

/// The rule [`CompilerView::for_loop`] leaves no more input than there was.
pub proof fn lemma_for_loop_bound(c: CompilerView)
    ensures
        c.for_loop().remaining() <= c.remaining(),
    decreases c.remaining(), 15int,
{
    lemma_for_loop(c);
}

/// The rule [`CompilerView::for_statement`] leaves no more input than there was.
pub proof fn lemma_for_statement_bound(c: CompilerView)
    ensures
        c.for_statement().remaining() <= c.remaining(),
    decreases c.remaining(), 16int,
{
    lemma_for_statement(c);
}

/// The rule [`CompilerView::block_loop`] leaves no more input than there was.
pub proof fn lemma_block_loop_bound(c: CompilerView)
    ensures
        c.block_loop().remaining() <= c.remaining(),
    decreases c.remaining(), 13int,
{
    lemma_block_loop(c);
    if !(c.check(TokenType::RightBrace) || c.check(TokenType::Eof)) {
        let declared = c.within(c.declaration());
        if declared.remaining() < c.remaining() {
            lemma_block_loop_bound(declared);
        }
    }
}

/// The rule [`CompilerView::block`] leaves no more input than there was.
pub proof fn lemma_block_bound(c: CompilerView)
    ensures
        c.block().remaining() <= c.remaining(),
    decreases c.remaining(), 14int,
{
    lemma_block(c);
}

/// The rule [`CompilerView::statement`] leaves no more input than there was, and less unless the input is at its end.
pub proof fn lemma_statement_bound(c: CompilerView)
    ensures
        c.statement().remaining() <= c.remaining(),
        c.current.token_type != TokenType::Eof ==> c.statement().remaining() < c.remaining(),
    decreases c.remaining(), 11int,
{
    lemma_statement(c);
    if c.check(TokenType::Print) {
        lemma_print_statement_bound(c.advance());
    } else if c.check(TokenType::If) {
        lemma_if_statement_bound(c.advance());
    } else if c.check(TokenType::While) {
        lemma_while_statement_bound(c.advance());
    } else if c.check(TokenType::For) {
        lemma_for_statement_bound(c.advance());
    } else if c.check(TokenType::Return) {
        lemma_return_statement_bound(c.advance());
    } else if c.check(TokenType::LeftBrace) {
    } else {
        lemma_expression_statement_bound(c);
    }
}

/// The rule [`CompilerView::var_declaration`] leaves no more input than there was.
pub proof fn lemma_var_declaration_bound(c: CompilerView)
    ensures
        c.var_declaration().remaining() <= c.remaining(),
    decreases c.remaining(), 10int,
{
    lemma_var_declaration(c);
}

/// The rule [`CompilerView::function_body`] leaves no more input than there was.
pub proof fn lemma_function_body_bound(c: CompilerView, name: Seq<char>, function_type: FunctionType)
    ensures
        c.function_body(name, function_type).0.remaining() <= c.remaining(),
    decreases c.remaining(), 17int,
{
    lemma_function_body(c, name, function_type);
}

/// The rule [`CompilerView::function`] leaves no more input than there was.
pub proof fn lemma_function_bound(c: CompilerView, name: Seq<char>, function_type: FunctionType)
    ensures
        c.function(name, function_type).remaining() <= c.remaining(),
    decreases c.remaining(), 18int,
{
    lemma_function(c, name, function_type);
    lemma_function_body_bound(c, name, function_type);
}

/// The rule [`CompilerView::func_declaration`] leaves no more input than there was.
pub proof fn lemma_func_declaration_bound(c: CompilerView)
    ensures
        c.func_declaration().remaining() <= c.remaining(),
    decreases c.remaining(), 19int,
{
    lemma_func_declaration(c);
}

/// The rule [`CompilerView::declaration`] leaves no more input than there was, and less unless the input is at its end.
pub proof fn lemma_declaration_bound(c: CompilerView)
    ensures
        c.declaration().remaining() <= c.remaining(),
        c.current.token_type != TokenType::Eof ==> c.declaration().remaining() < c.remaining(),
    decreases c.remaining(), 12int,
{
    lemma_declaration(c);
    if c.check(TokenType::Var) {
        lemma_var_declaration_bound(c.advance());
    } else if c.check(TokenType::Fun) {
        lemma_func_declaration_bound(c.advance());
    } else {
        lemma_statement_bound(c);
    }
}

/// The rule [`CompilerView::declarations`] leaves no more input than there was.
pub proof fn lemma_declarations_bound(c: CompilerView)
    ensures
        c.declarations().remaining() <= c.remaining(),
    decreases c.remaining(), 20int,
{
    lemma_declarations(c);
    if !c.check(TokenType::Eof) {
        let declared = c.within(c.declaration());
        if declared.remaining() < c.remaining() {
            lemma_declarations_bound(declared);
        }
    }
}

/// The loops of the grammar never end early: after a declaration that did not begin at the
/// end of the input, less input remains, so the next round of the loop is taken.
pub proof fn lemma_loops_go_on(c: CompilerView)
    requires
        !c.check(TokenType::Eof),
    ensures
        c.within(c.declaration()) == c.declaration(),
        c.declaration().remaining() < c.remaining(),
        !c.check(TokenType::RightBrace) ==> c.block_loop() == c.declaration().block_loop(),
        c.declarations() == c.declaration().declarations(),
{
    lemma_declaration_bound(c);
    lemma_block_loop(c);
    lemma_declarations(c);
}

// The rules of expressions only append to the code of the innermost function: what was
// emitted before an expression stays as it is.

/// The rule [`CompilerView::parse_precedence`] appends to the code.
pub proof fn lemma_parse_precedence_appends(c: CompilerView, precedence: Precedence)
    requires
        c.states.len() >= 1,
    ensures
        c.parse_precedence(precedence).appends(c),
    decreases c.remaining(), 4int,
{
    broadcast use group_appends;

    lemma_parse_precedence(c, precedence);
    let read = c.advance();
    assert(read.appends(c));
    match rule_of(read.previous.token_type).prefix {
        None => {
            assert(read.error("Expect expression."@).appends(read));
        },
        Some(prefix) => {
            let can_assign = precedence.level() <= Precedence::Assignment.level();
            lemma_apply_appends(read, prefix, can_assign);
            let left = read.within(read.apply(prefix, can_assign));
            assert(left.appends(read));
            lemma_infix_loop_appends(left, precedence, can_assign);
            let whole = left.within(left.infix_loop(precedence, can_assign));
            assert(whole.appends(left));
            assert(whole.appends(c));
            assert(whole.advance().appends(whole));
            assert(whole.advance().error("Invalid assignment target."@).appends(whole.advance()));
        },
    }
}

/// The rule [`CompilerView::infix_loop`] appends to the code.
pub proof fn lemma_infix_loop_appends(c: CompilerView, precedence: Precedence, can_assign: bool)
    requires
        c.states.len() >= 1,
    ensures
        c.infix_loop(precedence, can_assign).appends(c),
    decreases c.remaining(), 3int,
{
    broadcast use group_appends;

    lemma_infix_loop(c, precedence, can_assign);
    assert(c.appends(c));
    if precedence != Precedence::Lowest && precedence.level() <= rule_of(
        c.current.token_type,
    ).precedence.level() {
        let read = c.advance();
        assert(read.appends(c));
        match rule_of(read.previous.token_type).infix {
            Some(infix) => {
                lemma_apply_appends(read, infix, can_assign);
            },
            None => {},
        }
        let done = match rule_of(read.previous.token_type).infix {
            Some(infix) => read.within(read.apply(infix, can_assign)),
            None => read,
        };
        assert(read.appends(read));
        assert(done.appends(read));
        assert(done.appends(c));
        if done.remaining() < c.remaining() {
            lemma_infix_loop_appends(done, precedence, can_assign);
        }
    }
}

/// The rule [`CompilerView::apply`] appends to the code.
pub proof fn lemma_apply_appends(c: CompilerView, rule: ParseFn, can_assign: bool)
    requires
        c.states.len() >= 1,
    ensures
        c.apply(rule, can_assign).appends(c),
    decreases c.remaining(), 9int,
{
    broadcast use group_appends;

    lemma_apply(c, rule, can_assign);
    match rule {
        ParseFn::Grouping => lemma_grouping_appends(c),
        ParseFn::Call => lemma_call_appends(c),
        ParseFn::Unary => lemma_unary_appends(c),
        ParseFn::Binary => lemma_binary_appends(c),
        ParseFn::Number => {},
        ParseFn::String => {},
        ParseFn::Literal => {},
        ParseFn::Variable => lemma_variable_appends(c, can_assign),
        ParseFn::And => lemma_and_appends(c),
        ParseFn::Or => lemma_or_appends(c),
    }
}

/// The rule [`CompilerView::expression`] appends to the code.
pub proof fn lemma_expression_appends(c: CompilerView)
    requires
        c.states.len() >= 1,
    ensures
        c.expression().appends(c),
    decreases c.remaining(), 5int,
{
    lemma_expression(c);
    lemma_parse_precedence_appends(c, Precedence::Assignment);
}

/// The rule [`CompilerView::grouping`] appends to the code.
pub proof fn lemma_grouping_appends(c: CompilerView)
    requires
        c.states.len() >= 1,
    ensures
        c.grouping().appends(c),
    decreases c.remaining(), 8int,
{
    broadcast use group_appends;

    lemma_grouping(c);
    lemma_expression_appends(c);
    let inner = c.within(c.expression());
    assert(c.appends(c));
    assert(inner.appends(c));
    assert(inner.consume(TokenType::RightParen, "Expect ')' after expression."@).appends(inner));
}

/// The rule [`CompilerView::unary`] appends to the code.
pub proof fn lemma_unary_appends(c: CompilerView)
    requires
        c.states.len() >= 1,
    ensures
        c.unary().appends(c),
    decreases c.remaining(), 8int,
{
    broadcast use group_appends;

    lemma_unary(c);
    lemma_parse_precedence_appends(c, Precedence::Unary);
    let operand = c.within(c.parse_precedence(Precedence::Unary));
    assert(c.appends(c));
    assert(operand.appends(c));
    assert(operand.emit_op(OpCode::Not).appends(operand));
    assert(operand.emit_op(OpCode::Negate).appends(operand));
}

/// The rule [`CompilerView::binary`] appends to the code.
pub proof fn lemma_binary_appends(c: CompilerView)
    requires
        c.states.len() >= 1,
    ensures
        c.binary().appends(c),
    decreases c.remaining(), 8int,
{
    broadcast use group_appends;

    lemma_binary(c);
    let operator = c.previous.token_type;
    let above = rule_of(operator).precedence.next_spec();
    lemma_parse_precedence_appends(c, above);
    let right = c.within(c.parse_precedence(above));
    assert(c.appends(c));
    assert(right.appends(c));
    assert(right.binary_operator(operator).appends(right));
}

/// The rule [`CompilerView::call`] appends to the code.
pub proof fn lemma_call_appends(c: CompilerView)
    requires
        c.states.len() >= 1,
    ensures
        c.call().appends(c),
    decreases c.remaining(), 8int,
{
    broadcast use group_appends;

    lemma_call(c);
    lemma_argument_list_appends(c);
    let (listed, count) = c.argument_list();
    assert(listed.emit_bytes(OpCode::Call.byte(), count).appends(listed));
}

/// The rule [`CompilerView::argument_list`] appends to the code.
pub proof fn lemma_argument_list_appends(c: CompilerView)
    requires
        c.states.len() >= 1,
    ensures
        c.argument_list().0.appends(c),
    decreases c.remaining(), 7int,
{
    broadcast use group_appends;

    lemma_argument_list(c);
    assert(c.appends(c));
    if !c.check(TokenType::RightParen) {
        lemma_arguments_appends(c, 0);
    }
    let listed = if !c.check(TokenType::RightParen) {
        c.within(c.arguments(0).0)
    } else {
        c
    };
    assert(listed.appends(c));
    assert(listed.consume(TokenType::RightParen, "Expect ')' after arguments."@).appends(listed));
}

/// The rule [`CompilerView::arguments`] appends to the code.
pub proof fn lemma_arguments_appends(c: CompilerView, count: u8)
    requires
        c.states.len() >= 1,
    ensures
        c.arguments(count).0.appends(c),
    decreases c.remaining(), 6int,
{
    broadcast use group_appends;

    lemma_arguments(c, count);
    lemma_expression_appends(c);
    let parsed = c.within(c.expression());
    assert(c.appends(c));
    assert(parsed.appends(c));
    let counted = if count == 255 {
        parsed.error("Can't have more than 255 arguments."@)
    } else {
        parsed
    };
    assert(counted.appends(parsed));
    assert(counted.appends(c));
    assert(counted.advance().appends(counted));
    assert(counted.match_token(TokenType::Comma).appends(counted));
    if counted.check(TokenType::Comma) && counted.advance().remaining() < c.remaining() {
        lemma_arguments_appends(counted.advance(), next_count(count));
    }
}

/// The code of `and`: behind the code of the left operand stand a conditional jump, a `Pop`
/// and the code of the right operand, and the jump lands behind the right operand.
pub proof fn lemma_and_layout(c: CompilerView)
    requires
        c.states.len() >= 1,
    ensures
        c.and_().appends(c),
        ({
            let start = c.chunk().code.len() as int;
            let code = c.and_().chunk().code;
            &&& code.len() >= start + 4
            &&& code[start] == OpCode::JumpIfFalse.byte()
            &&& code[start + 3] == OpCode::Pop.byte()
            &&& code.len() - start - 3 <= 0xFFFF ==> start + 3 + short_of(
                code[start + 1],
                code[start + 2],
            ) == code.len()
        }),
    decreases c.remaining(), 7int,
{
    broadcast use group_appends;

    lemma_and_(c);
    let start = c.chunk().code.len() as int;
    let (jumped, end_jump) = c.emit_jump(OpCode::JumpIfFalse);
    let popped = jumped.emit_op(OpCode::Pop);
    assert(popped.appends(jumped));
    lemma_parse_precedence_appends(popped, Precedence::And);
    let grown = popped.within(popped.parse_precedence(Precedence::And));
    assert(popped.appends(popped));
    assert(grown.appends(popped));
    assert(grown.appends(jumped));
    assert(grown.appends(c));
    let patched = grown.patch_jump(end_jump);
    let jump = grown.chunk().code.len() - end_jump - 2;
    assert(grown.chunk().code[start] == grown.chunk().code.take(start + 4)[start]);
    assert(grown.chunk().code[start + 3] == grown.chunk().code.take(start + 4)[start + 3]);
    assert(patched.chunk().code.take(start) =~= grown.chunk().code.take(start));
    assert(grown.chunk().code.take(start) =~= c.chunk().code) by {
        assert(grown.chunk().code.take(start) == c.chunk().code);
    }
    if jump <= 0xFFFF {
        assert(short_of(high_byte(jump), low_byte(jump)) == jump);
    }
}

/// The rule [`CompilerView::and_`] appends to the code.
pub proof fn lemma_and_appends(c: CompilerView)
    requires
        c.states.len() >= 1,
    ensures
        c.and_().appends(c),
    decreases c.remaining(), 8int,
{
    lemma_and_layout(c);
}

/// The code of `or`: behind the code of the left operand stand a conditional jump over an
/// unconditional one, the unconditional jump, a `Pop` and the code of the right operand. The
/// conditional jump lands on the `Pop`, the unconditional one behind the right operand.
pub proof fn lemma_or_layout(c: CompilerView)
    requires
        c.states.len() >= 1,
    ensures
        c.or_().appends(c),
        ({
            let start = c.chunk().code.len() as int;
            let code = c.or_().chunk().code;
            &&& code.len() >= start + 7
            &&& code[start] == OpCode::JumpIfFalse.byte()
            &&& short_of(code[start + 1], code[start + 2]) == 3
            &&& code[start + 3] == OpCode::Jump.byte()
            &&& code[start + 6] == OpCode::Pop.byte()
            &&& code.len() - start - 6 <= 0xFFFF ==> start + 6 + short_of(
                code[start + 4],
                code[start + 5],
            ) == code.len()
        }),
    decreases c.remaining(), 7int,
{
    broadcast use group_appends;

    lemma_or_(c);
    let start = c.chunk().code.len() as int;
    let (first, else_jump) = c.emit_jump(OpCode::JumpIfFalse);
    let (second, end_jump) = first.emit_jump(OpCode::Jump);
    let patched = second.patch_jump(else_jump);
    assert(short_of(high_byte(3), low_byte(3)) == 3);
    let popped = patched.emit_op(OpCode::Pop);
    assert(popped.appends(patched));
    lemma_parse_precedence_appends(popped, Precedence::Or);
    let grown = popped.within(popped.parse_precedence(Precedence::Or));
    assert(popped.appends(popped));
    assert(grown.appends(popped));
    assert(grown.appends(patched));
    let whole = grown.patch_jump(end_jump);
    let jump = grown.chunk().code.len() - end_jump - 2;
    assert forall|i: int| 0 <= i < start + 7 implies grown.chunk().code[i]
        == popped.chunk().code[i] by {
        assert(grown.chunk().code.take(start + 7)[i] == popped.chunk().code[i]);
    }
    assert(whole.chunk().code.take(start) =~= c.chunk().code);
    if jump <= 0xFFFF {
        assert(short_of(high_byte(jump), low_byte(jump)) == jump);
    }
}

/// The rule [`CompilerView::or_`] appends to the code.
pub proof fn lemma_or_appends(c: CompilerView)
    requires
        c.states.len() >= 1,
    ensures
        c.or_().appends(c),
    decreases c.remaining(), 8int,
{
    lemma_or_layout(c);
}

/// The rule [`CompilerView::variable`] appends to the code.
pub proof fn lemma_variable_appends(c: CompilerView, can_assign: bool)
    requires
        c.states.len() >= 1,
    ensures
        c.variable(can_assign).appends(c),
    decreases c.remaining(), 8int,
{
    lemma_variable(c, can_assign);
    lemma_named_variable_appends(c, c.previous.lexeme, can_assign);
}

/// The rule [`CompilerView::named_variable`] appends to the code.
pub proof fn lemma_named_variable_appends(c: CompilerView, name: Seq<char>, can_assign: bool)
    requires
        c.states.len() >= 1,
    ensures
        c.named_variable(name, can_assign).appends(c),
    decreases c.remaining(), 7int,
{
    broadcast use group_appends;

    lemma_named_variable(c, name, can_assign);
    let (resolved, access, arg) = c.resolve(name);
    assert(resolved.appends(c));
    if can_assign && resolved.check(TokenType::Equal) {
        let read = resolved.advance();
        assert(read.appends(resolved));
        lemma_expression_appends(read);
        let value = read.within(read.expression());
        assert(read.appends(read));
        assert(value.appends(read));
        assert(value.appends(c));
        assert(value.emit_bytes(access.set_op().byte(), arg).appends(value));
    } else {
        assert(resolved.emit_bytes(access.get_op().byte(), arg).appends(resolved));
    }
}

/// What compiling a source gives: the compiled functions, with the top-level code as the last
/// of them, or, if anything was reported, the diagnostics in the order they were found.
/// `numbers` holds the values of the number literals of the source, in the order of the source.
pub open spec fn compile_spec(function_type: FunctionType, source: Seq<char>, numbers: Seq<u64>) -> Result<
    Seq<FunctionView>,
    Seq<DiagnosticView>,
> {
    let parsed = CompilerView::init(function_type, source, numbers).advance().declarations();
    if parsed.had_error {
        Err(parsed.diagnostics)
    } else {
        Ok(parsed.end_compiler().0.functions)
    }
}

} // verus!
