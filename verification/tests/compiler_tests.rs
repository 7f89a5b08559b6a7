use lox::chunk::OpCode;
use lox::compiler::Compiler;
use lox::compiler::CompilerState;
use lox::compiler::Local;
use lox::diagnostic::Diagnostic;
use lox::disassembler::disassemble_chunk;
use lox::disassembler::disassemble_instruction;
use lox::disassembler::Operand;
use lox::scanner::number_lexemes;
use lox::scanner::Token;
use lox::scanner::TokenType;
use lox::value::Function;
use lox::value::FunctionType;
use lox::value::Value;

fn bits(x: f64) -> u64 {
    x.to_bits()
}

fn compile(source: &str) -> Result<Vec<Function>, Vec<Diagnostic>> {
    let numbers =
        number_lexemes(source).iter().map(|s| s.parse::<f64>().unwrap().to_bits()).collect();
    Compiler::new(FunctionType::Script).compile(source, numbers)
}

fn script(source: &str) -> Function {
    let mut functions = compile(source).unwrap_or_else(|d| panic!("{:?}", d));
    functions.pop().unwrap()
}

fn errors(source: &str) -> Vec<String> {
    match compile(source) {
        Ok(_) => panic!("compiles: {}", source),
        Err(diagnostics) => diagnostics.iter().map(|d| d.render()).collect(),
    }
}

fn b(op: OpCode) -> u8 {
    u8::from(op)
}

#[test]
fn expression_statement_emits_in_precedence_order() {
    let f = script("1 + 2 * 3;");
    assert_eq!(
        f.chunk.code,
        vec![
            b(OpCode::Constant), 0,
            b(OpCode::Constant), 1,
            b(OpCode::Constant), 2,
            b(OpCode::Multiply),
            b(OpCode::Add),
            b(OpCode::Pop),
            b(OpCode::Nil),
            b(OpCode::Return),
        ]
    );
    assert_eq!(f.chunk.lines, vec![1; 11]);
    assert_eq!(f.chunk.constants.values.len(), 3);
    assert!(f.chunk.constants.values[0].values_equal(&Value::Number(bits(1.0))));
    assert!(f.chunk.constants.values[2].values_equal(&Value::Number(bits(3.0))));
    assert_eq!(f.name, "");
    assert_eq!(f.arity, 0);
}

#[test]
fn operators_emit_their_instructions() {
    let cases = [
        ("1 - 2;", vec![b(OpCode::Subtract)]),
        ("1 / 2;", vec![b(OpCode::Divide)]),
        ("1 == 2;", vec![b(OpCode::Equal)]),
        ("1 != 2;", vec![b(OpCode::Equal), b(OpCode::Not)]),
        ("1 > 2;", vec![b(OpCode::Greater)]),
        ("1 >= 2;", vec![b(OpCode::Less), b(OpCode::Not)]),
        ("1 < 2;", vec![b(OpCode::Less)]),
        ("1 <= 2;", vec![b(OpCode::Greater), b(OpCode::Not)]),
    ];
    for (source, ops) in cases {
        let mut expected = vec![b(OpCode::Constant), 0, b(OpCode::Constant), 1];
        expected.extend(ops);
        expected.extend([b(OpCode::Pop), b(OpCode::Nil), b(OpCode::Return)]);
        assert_eq!(script(source).chunk.code, expected, "{}", source);
    }
    assert_eq!(
        script("-1; !true; nil; false;").chunk.code,
        vec![
            b(OpCode::Constant), 0, b(OpCode::Negate), b(OpCode::Pop),
            b(OpCode::True), b(OpCode::Not), b(OpCode::Pop),
            b(OpCode::Nil), b(OpCode::Pop),
            b(OpCode::False), b(OpCode::Pop),
            b(OpCode::Nil), b(OpCode::Return),
        ]
    );
}

#[test]
fn string_constant_has_no_quotes() {
    let f = script("print \"hi\";");
    assert_eq!(f.chunk.code, vec![b(OpCode::Constant), 0, b(OpCode::Print), b(OpCode::Nil), b(OpCode::Return)]);
    assert!(f.chunk.constants.values[0].values_equal(&Value::String("hi".to_string())));
    let f = script("\"\";");
    assert!(f.chunk.constants.values[0].values_equal(&Value::String(String::new())));
}

#[test]
fn globals_are_named_by_constants() {
    let f = script("var a = 1; a = a;");
    assert_eq!(
        f.chunk.code,
        vec![
            b(OpCode::Constant), 1,
            b(OpCode::DefineGlobal), 0,
            b(OpCode::GetGlobal), 3,
            b(OpCode::SetGlobal), 2,
            b(OpCode::Pop),
            b(OpCode::Nil), b(OpCode::Return),
        ]
    );
    assert!(f.chunk.constants.values[0].values_equal(&Value::String("a".to_string())));
    let f = script("var a;");
    assert_eq!(
        f.chunk.code,
        vec![b(OpCode::Nil), b(OpCode::DefineGlobal), 0, b(OpCode::Nil), b(OpCode::Return)]
    );
}

#[test]
fn locals_live_in_slots_and_leave_with_their_scope() {
    let f = script("{ var a = 1; var b = a; b = 2; }");
    assert_eq!(
        f.chunk.code,
        vec![
            b(OpCode::Constant), 0,
            b(OpCode::GetLocal), 1,
            b(OpCode::Constant), 1,
            b(OpCode::SetLocal), 2,
            b(OpCode::Pop),
            b(OpCode::Pop),
            b(OpCode::Pop),
            b(OpCode::Nil), b(OpCode::Return),
        ]
    );
}

#[test]
fn and_jumps_over_its_right_operand() {
    let f = script("true and false;");
    assert_eq!(
        f.chunk.code,
        vec![
            b(OpCode::True),
            b(OpCode::JumpIfFalse), 0, 2,
            b(OpCode::Pop),
            b(OpCode::False),
            b(OpCode::Pop),
            b(OpCode::Nil), b(OpCode::Return),
        ]
    );
}

#[test]
fn or_jumps_over_its_right_operand() {
    let f = script("true or false;");
    assert_eq!(
        f.chunk.code,
        vec![
            b(OpCode::True),
            b(OpCode::JumpIfFalse), 0, 3,
            b(OpCode::Jump), 0, 2,
            b(OpCode::Pop),
            b(OpCode::False),
            b(OpCode::Pop),
            b(OpCode::Nil), b(OpCode::Return),
        ]
    );
}

#[test]
fn if_pops_the_condition_on_both_paths() {
    let f = script("if (true) print 1; else print 2;");
    assert_eq!(
        f.chunk.code,
        vec![
            b(OpCode::True),
            b(OpCode::JumpIfFalse), 0, 7,
            b(OpCode::Pop),
            b(OpCode::Constant), 0,
            b(OpCode::Print),
            b(OpCode::Jump), 0, 4,
            b(OpCode::Pop),
            b(OpCode::Constant), 1,
            b(OpCode::Print),
            b(OpCode::Nil), b(OpCode::Return),
        ]
    );
}

#[test]
fn while_loops_back_to_its_condition() {
    let f = script("while (true) print 1;");
    assert_eq!(
        f.chunk.code,
        vec![
            b(OpCode::True),
            b(OpCode::JumpIfFalse), 0, 7,
            b(OpCode::Pop),
            b(OpCode::Constant), 0,
            b(OpCode::Print),
            b(OpCode::Loop), 0, 11,
            b(OpCode::Pop),
            b(OpCode::Nil), b(OpCode::Return),
        ]
    );
}

#[test]
fn for_runs_the_increment_behind_the_body() {
    let f = script("for (var i = 0; i < 1; i = 2) print i;");
    assert_eq!(
        f.chunk.code,
        vec![
            b(OpCode::Constant), 0,      // 0: var i = 0
            b(OpCode::GetLocal), 1,      // 2: i < 1
            b(OpCode::Constant), 1,
            b(OpCode::Less),
            b(OpCode::JumpIfFalse), 0, 18, // 7: to 28
            b(OpCode::Pop),              // 10
            b(OpCode::Jump), 0, 8,       // 11: over the increment, to 22
            b(OpCode::Constant), 2,      // 14: i = 2
            b(OpCode::SetLocal), 1,
            b(OpCode::Pop),              // 18
            b(OpCode::Loop), 0, 20,      // 19: to 2
            b(OpCode::GetLocal), 1,      // 22: print i
            b(OpCode::Print),
            b(OpCode::Loop), 0, 14,      // 25: to 14
            b(OpCode::Pop),              // 28
            b(OpCode::Pop),              // 29: i leaves
            b(OpCode::Nil), b(OpCode::Return),
        ]
    );
    let f = script("for (;;) print 1;");
    assert_eq!(
        f.chunk.code,
        vec![
            b(OpCode::Constant), 0,
            b(OpCode::Print),
            b(OpCode::Loop), 0, 6,
            b(OpCode::Nil), b(OpCode::Return),
        ]
    );
}

#[test]
fn function_declaration_emits_a_closure() {
    let functions = compile("fun add(a, b) { return a + b; } print add(1, 2);").unwrap();
    assert_eq!(functions.len(), 2);
    let add = &functions[0];
    assert_eq!(add.name, "add");
    assert_eq!(add.arity, 2);
    assert!(add.upvalues.is_empty());
    assert_eq!(
        add.chunk.code,
        vec![
            b(OpCode::GetLocal), 1,
            b(OpCode::GetLocal), 2,
            b(OpCode::Add),
            b(OpCode::Return),
            b(OpCode::Nil), b(OpCode::Return),
        ]
    );
    let main = &functions[1];
    assert_eq!(
        main.chunk.code,
        vec![
            b(OpCode::Closure), 1,
            b(OpCode::DefineGlobal), 0,
            b(OpCode::GetGlobal), 2,
            b(OpCode::Constant), 3,
            b(OpCode::Constant), 4,
            b(OpCode::Call), 2,
            b(OpCode::Print),
            b(OpCode::Nil), b(OpCode::Return),
        ]
    );
    assert!(main.chunk.constants.values[1].values_equal(&Value::Func(0)) == false);
    match &main.chunk.constants.values[1] {
        Value::Func(index) => assert_eq!(*index, 0),
        other => panic!("no function: {:?}", other),
    }
}

#[test]
fn captured_variables_become_upvalues() {
    let functions = compile(
        "fun outer() { var x = 1; var y = 2; fun middle() { fun inner() { return x + y + x; } } }",
    )
    .unwrap();
    assert_eq!(functions.len(), 4);
    let inner = &functions[0];
    let middle = &functions[1];
    let outer = &functions[2];
    assert_eq!(inner.name, "inner");
    assert_eq!(inner.upvalues.len(), 2);
    assert_eq!((inner.upvalues[0].is_local, inner.upvalues[0].index), (false, 0));
    assert_eq!((inner.upvalues[1].is_local, inner.upvalues[1].index), (false, 1));
    assert_eq!(middle.upvalues.len(), 2);
    assert_eq!((middle.upvalues[0].is_local, middle.upvalues[0].index), (true, 1));
    assert_eq!((middle.upvalues[1].is_local, middle.upvalues[1].index), (true, 2));
    assert!(outer.upvalues.is_empty());
    assert_eq!(
        inner.chunk.code,
        vec![
            b(OpCode::GetUpvalue), 0,
            b(OpCode::GetUpvalue), 1,
            b(OpCode::Add),
            b(OpCode::GetUpvalue), 0,
            b(OpCode::Add),
            b(OpCode::Return),
            b(OpCode::Nil), b(OpCode::Return),
        ]
    );
    assert_eq!(
        middle.chunk.code,
        vec![b(OpCode::Closure), 0, 0, 0, 0, 1, b(OpCode::Nil), b(OpCode::Return)]
    );
    assert_eq!(
        outer.chunk.code,
        vec![
            b(OpCode::Constant), 0,
            b(OpCode::Constant), 1,
            b(OpCode::Closure), 2, 1, 1, 1, 2,
            b(OpCode::Nil), b(OpCode::Return),
        ]
    );
}

#[test]
fn captured_local_is_closed_at_the_end_of_its_scope() {
    let f = script("{ var x = 1; fun f() { return x; } }");
    assert_eq!(
        f.chunk.code,
        vec![
            b(OpCode::Constant), 0,
            b(OpCode::Closure), 1, 1, 1,
            b(OpCode::Pop),
            b(OpCode::CloseUpvalue),
            b(OpCode::Nil), b(OpCode::Return),
        ]
    );
}

#[test]
fn lines_follow_the_source() {
    let f = script("print 1;\nprint\n2;");
    assert_eq!(f.chunk.lines, vec![1, 1, 1, 3, 3, 3, 3, 3]);
    assert_eq!(f.chunk.lines.len(), f.chunk.code.len());
}

#[test]
fn compile_errors_have_their_messages() {
    assert_eq!(errors("return 1;"), vec!["[line 1] Error at 'return': Can't return from top-level code."]);
    assert_eq!(
        errors("{ var a = 1; var a = 2; }"),
        vec!["[line 1] Error at 'a': Already a variable with this name in this scope."]
    );
    assert_eq!(
        errors("{ var a = a; }"),
        vec!["[line 1] Error at 'a': Can't read local variable in its own initializer."]
    );
    assert_eq!(errors("a + b = 1;"), vec!["[line 1] Error at '=': Invalid assignment target."]);
    assert_eq!(errors("print;"), vec!["[line 1] Error at ';': Expect expression."]);
    assert_eq!(errors("{ print 1;"), vec!["[line 1] Error at end: Expect '}' after block."]);
    assert_eq!(errors("fun (a) {}"), vec!["[line 1] Error at '(': Expect func name"]);
    assert_eq!(errors("fun f a) {}")[0], "[line 1] Error at 'a': Expect '(' after function name.");
    assert_eq!(
        errors("fun f(1) {}"),
        vec![
            "[line 1] Error at '1': Expect parameter name.",
            "[line 1] Error at end: Expect '}' after block.",
        ]
    );
    assert_eq!(errors("fun f(a {}")[0], "[line 1] Error at '{': Expect ')' after parameters.");
    assert_eq!(errors("fun f() 1;")[0], "[line 1] Error at '1': Expect '{' before function body.");
    assert_eq!(errors("f(1;"), vec!["[line 1] Error at ';': Expect ')' after arguments."]);
    assert_eq!(errors("if true) 1;"), vec!["[line 1] Error at 'true': Expect '(' after 'if'."]);
    assert_eq!(errors("if (true 1;"), vec!["[line 1] Error at '1': Expect ')' after condition."]);
    assert_eq!(errors("while true) 1;"), vec!["[line 1] Error at 'true': Expect '(' after 'while'."]);
    assert_eq!(errors("for var i;;) 1;"), vec!["[line 1] Error at 'var': Expect '(' after 'for'."]);
    assert_eq!(errors("for (;1) 1;"), vec!["[line 1] Error at ')': Expect ';' after loop condition."]);
    assert_eq!(errors("for (;;1 1;"), vec!["[line 1] Error at '1': Expect ')' after for clauses."]);
    assert_eq!(errors("var a = 1"), vec!["[line 1] Error at end: Expect ';' after variable declaration."]);
    assert_eq!(errors("1"), vec!["[line 1] Error at end: Expect ';' after expression."]);
    assert_eq!(errors("fun f() { return 1 }")[0], "[line 1] Error at '}': Expect ';' after return value.");
}

#[test]
fn errors_after_the_first_are_held_back_until_a_statement_boundary() {
    assert_eq!(
        errors("print 1 + + * ;\nprint );"),
        vec![
            "[line 1] Error at '+': Expect expression.",
            "[line 2] Error at ')': Expect expression.",
        ]
    );
    assert_eq!(
        errors("var 1 2 3 fun;\nvar;"),
        vec![
            "[line 1] Error at '1': Expect variable name.",
            "[line 1] Error at ';': Expect func name",
            "[line 2] Error at ';': Expect variable name.",
            "[line 2] Error at end: Expect '}' after block.",
        ]
    );
}

fn many(prefix: &str, item: &dyn Fn(usize) -> String, count: usize, suffix: &str) -> String {
    let mut source = String::from(prefix);
    for i in 0..count {
        source.push_str(&item(i));
    }
    source.push_str(suffix);
    source
}

#[test]
fn at_most_256_constants_in_a_chunk() {
    let source = many("", &|i| format!("{};", i), 256, "");
    let f = script(&source);
    assert_eq!(f.chunk.constants.values.len(), 256);
    let source = many("", &|i| format!("{};", i), 257, "");
    assert_eq!(errors(&source), vec!["[line 1] Error at '256': Too many constants in one chunk."]);
}

#[test]
fn at_most_255_arguments_and_parameters() {
    let source = many("fun f() {} { f(", &|i| if i == 0 { "nil".to_string() } else { ",nil".to_string() }, 255, "); }");
    assert!(compile(&source).is_ok());
    let source = many("fun f() {} { f(", &|i| if i == 0 { "nil".to_string() } else { ",nil".to_string() }, 256, "); }");
    assert_eq!(errors(&source), vec!["[line 1] Error at 'nil': Can't have more than 255 arguments."]);
    let source = many("fun f(", &|i| if i == 0 { "a0".to_string() } else { format!(",a{}", i) }, 255, ") {}");
    let functions = compile(&source).unwrap();
    assert_eq!(functions[0].arity, 255);
    let source = many("fun f(", &|i| if i == 0 { "a0".to_string() } else { format!(",a{}", i) }, 256, ") {}");
    assert_eq!(errors(&source), vec!["[line 1] Error at 'a255': Can't have more than 255 parameters."]);
}

#[test]
fn too_many_locals_is_an_error() {
    let source = many("{", &|i| format!("var v{};", i), 255, "}");
    assert!(compile(&source).is_ok());
    let source = many("{", &|i| format!("var v{};", i), 256, "}");
    assert_eq!(errors(&source), vec!["[line 1] Error at 'v255': Too many local variables in function."]);
}

#[test]
fn too_many_captured_variables_is_an_error() {
    let declare_a = many("", &|i| format!("var a{};", i), 200, "");
    let declare_b = many("", &|i| format!("var b{};", i), 200, "");
    let read_a = many("", &|i| format!("a{};", i), 200, "");
    let read = |count: usize| many("", &|i| format!("b{};", i), count, "");
    let source = |count: usize| {
        format!(
            "fun outer() {{ {} fun middle() {{ {} fun inner() {{ {} {} }} }} }}",
            declare_a, declare_b, read_a, read(count)
        )
    };
    let functions = compile(&source(56)).unwrap();
    assert_eq!(functions[0].upvalues.len(), 256);
    assert_eq!(functions[1].upvalues.len(), 200);
    assert_eq!(
        errors(&source(57)),
        vec!["[line 1] Error at 'b56': Too many closure variables in function."]
    );
    // a variable that is captured twice has one upvalue
    let functions = compile("fun f() { var x; fun g() { x; x = x; } }").unwrap();
    assert_eq!(functions[0].upvalues.len(), 1);
}

#[test]
fn long_jumps_use_both_bytes() {
    let body = many("", &|_| "print nil;".to_string(), 200, "");
    let f = script(&format!("if (true) {{ {} }}", body));
    // over Pop, 200 times Nil and Print, and the jump over the else branch
    assert_eq!(&f.chunk.code[1..4], &[b(OpCode::JumpIfFalse), 1, 148]);
    let f = script(&format!("while (true) {{ {} }}", body));
    let len = f.chunk.code.len();
    assert_eq!(&f.chunk.code[len - 6..len - 3], &[b(OpCode::Loop), 1, 152]);
}

#[test]
fn jumps_over_too_much_code_are_errors() {
    let body = many("", &|_| "print nil;".to_string(), 33000, "");
    let source = format!("if (true) {{ {} }}", body);
    assert_eq!(errors(&source), vec!["[line 1] Error at '}': Too much code to jump over."]);
    let source = format!("while (true) {{ {} }}", body);
    assert_eq!(errors(&source)[0], "[line 1] Error at '}': Loop body too large.");
}

#[test]
fn disassembly_covers_every_compiled_chunk() {
    let sources = [
        "print 1 + 2 * 3;",
        "var x = 0; for (var i = 0; i < 3; i = i + 1) { x = x + i; } print x;",
        "fun make() { var n = 0; fun inc() { n = n + 1; return n; } return inc; } var c = make(); print c();",
        "if (1 > 2 and true or nil) print \"a\"; else print \"b\"; while (false) {}",
        "fun outer() { var x = 1; var y = 2; fun middle() { fun inner() { return x + y; } } }",
    ];
    for source in sources {
        let functions = compile(source).unwrap();
        for f in functions.iter() {
            let lines = disassemble_chunk(&f.chunk, &functions);
            let mut offset = 0;
            for line in lines.iter() {
                assert_eq!(line.offset, offset, "{}", source);
                let (again, next) = disassemble_instruction(&f.chunk, &functions, offset).unwrap();
                assert_eq!(again.render(), line.render());
                assert_eq!(u8::from(again.op), f.chunk.code[offset]);
                offset = next;
            }
            assert_eq!(offset, f.chunk.code.len(), "{}", source);
        }
    }
}

#[test]
fn disassembly_shows_operands() {
    let functions = compile("var a = 1;\nif (a) { fun f() { return a; } }").unwrap();
    let main = &functions[1];
    let text: Vec<String> =
        disassemble_chunk(&main.chunk, &functions).iter().map(|l| l.render()).collect();
    assert_eq!(
        text,
        vec![
            "0000    1 OP_CONSTANT      0001",
            "0002    | OP_DEFINE_GLOBAL 0000",
            "0004    2 OP_GET_GLOBAL    0002",
            "0006    | OP_JUMP_IF_FALSE 0006 -> 16",
            "0009    | OP_POP",
            "0010    | OP_CLOSURE       0003 0",
            "0012    | OP_POP",
            "0013    | OP_JUMP          0013 -> 17",
            "0016    | OP_POP",
            "0017    | OP_NIL",
            "0018    | OP_RETURN",
        ]
    );
    let lines = disassemble_chunk(&main.chunk, &functions);
    match &lines[0].operand {
        Operand::Constant(index, Some(value)) => {
            assert_eq!(*index, 1);
            assert!(value.values_equal(&Value::Number(bits(1.0))));
        }
        other => panic!("no constant: {:?}", other),
    }
    match &lines[5].operand {
        Operand::Closure(constant, function, captured) => {
            assert_eq!((*constant, *function, *captured), (3, 0, 0));
        }
        other => panic!("no closure: {:?}", other),
    }
    assert_eq!(lines[3].target(7), Some(16));
    let loops = script("while (true) print 1;");
    let text: Vec<String> =
        disassemble_chunk(&loops.chunk, &functions).iter().map(|l| l.render()).collect();
    assert_eq!(text[5], "0008    | OP_LOOP          0008 -> 0");
    assert!(disassemble_instruction(&main.chunk, &functions, main.chunk.code.len()).is_none());
    let mut broken = Function::new();
    broken.chunk.write(b(OpCode::Constant), 1);
    assert!(disassemble_instruction(&broken.chunk, &functions, 0).is_none());
    broken.chunk.write(200, 1);
    assert!(disassemble_instruction(&broken.chunk, &functions, 1).is_none());
    assert_eq!(disassemble_chunk(&broken.chunk, &functions).len(), 1);
}

#[test]
fn local_and_state_start_as_declared() {
    let token = Token { token_type: TokenType::Identifier, lexeme: "x".to_string(), line: 3 };
    let local = Local::new(token, -1);
    assert_eq!(local.name.lexeme, "x");
    assert_eq!(local.depth, -1);
    assert!(!local.is_captured);
    let _state = CompilerState::new(FunctionType::Function);
    let f = Function::new();
    assert_eq!(f.name, "");
    assert_eq!(f.arity, 0);
    assert!(f.chunk.code.is_empty());
}
