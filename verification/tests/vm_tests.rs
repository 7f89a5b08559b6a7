use lox::chunk::OpCode;
use lox::compiler::Compiler;
use lox::value::FunctionType;
use lox::scanner::number_lexemes;
use lox::value::Function;
use lox::value::Value;
use lox::vm::Action;
use lox::vm::Event;
use lox::vm::InterpretResult;
use lox::vm::NATIVE_CLOCK;
use lox::vm::VM;

struct Outcome {
    status: InterpretResult,
    output: Vec<String>,
    errors: Vec<String>,
}

fn number_bits(source: &str) -> Vec<u64> {
    number_lexemes(source).iter().map(|s| s.parse::<f64>().unwrap().to_bits()).collect()
}

/// Runs a source on the machine, doing the host's part: arithmetic on doubles, printing into a
/// list of lines, and the clock.
fn run_in(vm: &mut VM, source: &str) -> Outcome {
    let mut output = Vec::new();
    let mut errors = Vec::new();
    let mut action = vm.interpret(source, number_bits(source));
    let mut steps = 0u64;
    loop {
        steps += 1;
        assert!(steps < 10_000_000, "the program does not end");
        action = match action {
            Action::Continue => vm.step(Event::Resume),
            Action::Print(text) => {
                output.push(text);
                vm.step(Event::Resume)
            }
            Action::PrintNumber(bits) => {
                output.push(format!("{}", f64::from_bits(bits)));
                vm.step(Event::Resume)
            }
            Action::Arithmetic(op, a, b) => {
                let (a, b) = (f64::from_bits(a), f64::from_bits(b));
                let result = match op {
                    OpCode::Add => a + b,
                    OpCode::Subtract => a - b,
                    OpCode::Multiply => a * b,
                    OpCode::Divide => a / b,
                    _ => panic!("no arithmetic: {:?}", op),
                };
                vm.step(Event::Number(result.to_bits()))
            }
            Action::CallNative(native, args) => {
                assert_eq!(native.0, NATIVE_CLOCK);
                assert!(args.is_empty());
                let now = std::time::SystemTime::now()
                    .duration_since(std::time::UNIX_EPOCH)
                    .unwrap()
                    .as_secs_f64();
                vm.step(Event::Value(Value::Number(now.to_bits())))
            }
            Action::Done => {
                return Outcome { status: InterpretResult::Success, output, errors };
            }
            Action::Fault(message, trace) => {
                errors.push(message);
                errors.extend(trace);
                return Outcome { status: InterpretResult::RuntimeError, output, errors };
            }
            Action::Rejected(diagnostics) => {
                for d in diagnostics.iter() {
                    errors.push(d.render());
                }
                return Outcome { status: InterpretResult::CompileError, output, errors };
            }
        };
    }
}

fn run(source: &str) -> Outcome {
    let mut vm = VM::new();
    run_in(&mut vm, source)
}

fn expect_output(source: &str, lines: &[&str]) {
    let outcome = run(source);
    assert_eq!(outcome.errors, Vec::<String>::new(), "source: {}", source);
    assert_eq!(outcome.status, InterpretResult::Success);
    assert_eq!(outcome.output, lines.iter().map(|s| s.to_string()).collect::<Vec<_>>());
}

#[test]
fn arithmetic_follows_precedence() {
    expect_output("print 1 + 2 * 3;", &["7"]);
    expect_output("print (1 + 2) * 3;", &["9"]);
    expect_output("print 10 - 4 - 3;", &["3"]);
    expect_output("print 8 / 2 / 2;", &["2"]);
    expect_output("print -2 * 3;", &["-6"]);
    expect_output("print 1.5 + 2.25;", &["3.75"]);
}

#[test]
fn strings_are_concatenated() {
    expect_output("var a = \"hi \"; var b = \"there\"; print a + b;", &["hi there"]);
}

#[test]
fn for_loop_sums() {
    expect_output(
        "var x = 0; for (var i = 0; i < 3; i = i + 1) { x = x + i; } print x;",
        &["3"],
    );
}

#[test]
fn closure_keeps_its_variable() {
    expect_output(
        "fun make() { var n = 0; fun inc() { n = n + 1; return n; } return inc; } \
         var c = make(); print c(); print c(); print c();",
        &["1", "2", "3"],
    );
}

#[test]
fn if_takes_the_else_branch() {
    expect_output("if (1 > 2) print \"a\"; else print \"b\";", &["b"]);
    expect_output("if (2 > 1) print \"a\"; else print \"b\";", &["a"]);
    expect_output("if (nil) print \"a\"; print \"c\";", &["c"]);
}

#[test]
fn clock_is_not_negative() {
    expect_output("print clock() >= 0;", &["true"]);
}

#[test]
fn return_at_top_level_is_a_compile_error() {
    let outcome = run("return 1;");
    assert_eq!(outcome.status, InterpretResult::CompileError);
    assert_eq!(
        outcome.errors,
        vec!["[line 1] Error at 'return': Can't return from top-level code.".to_string()]
    );
    assert!(outcome.output.is_empty());
}

#[test]
fn redeclaring_a_local_is_a_compile_error() {
    let outcome = run("{ var a = 1; var a = 2; }");
    assert_eq!(outcome.status, InterpretResult::CompileError);
    assert_eq!(
        outcome.errors,
        vec!["[line 1] Error at 'a': Already a variable with this name in this scope.".to_string()]
    );
}

#[test]
fn reading_a_local_in_its_initializer_is_a_compile_error() {
    let outcome = run("{ var a = a; }");
    assert_eq!(outcome.status, InterpretResult::CompileError);
    assert_eq!(
        outcome.errors,
        vec!["[line 1] Error at 'a': Can't read local variable in its own initializer."
            .to_string()]
    );
}

#[test]
fn adding_a_number_and_a_string_is_a_runtime_error() {
    let outcome = run("1 + \"x\";");
    assert_eq!(outcome.status, InterpretResult::RuntimeError);
    assert_eq!(
        outcome.errors,
        vec![
            "Operands must be two numbers or two strings.".to_string(),
            "[line 1] in script".to_string()
        ]
    );
}

#[test]
fn reading_an_undefined_variable_is_a_runtime_error() {
    let outcome = run("undefined_var;");
    assert_eq!(outcome.status, InterpretResult::RuntimeError);
    assert_eq!(
        outcome.errors,
        vec![
            "Undefined variable 'undefined_var'.".to_string(),
            "[line 1] in script".to_string()
        ]
    );
}

#[test]
fn assigning_an_undefined_variable_is_a_runtime_error() {
    let outcome = run("x = 1;");
    assert_eq!(outcome.status, InterpretResult::RuntimeError);
    assert_eq!(outcome.errors[0], "Undefined variable 'x'.");
}

#[test]
fn and_or_short_circuit() {
    expect_output(
        "var n = 0; fun bump() { n = n + 1; return true; } \
         print false and bump(); print n; print true or bump(); print n; \
         print true and bump(); print n; print nil or bump(); print n;",
        &["false", "0", "true", "0", "true", "1", "true", "2"],
    );
    expect_output("print 1 and 2; print nil and 2; print 1 or 2; print false or 2;", &[
        "2", "nil", "1", "2",
    ]);
}

#[test]
fn for_and_while_do_the_same() {
    let with_for = run("for (var i = 0; i < 4; i = i + 1) { print i * i; }");
    let with_while = run("{ var i = 0; while (i < 4) { print i * i; i = i + 1; } }");
    assert_eq!(with_for.status, InterpretResult::Success);
    assert_eq!(with_while.status, InterpretResult::Success);
    assert_eq!(with_for.output, vec!["0", "1", "4", "9"]);
    assert_eq!(with_for.output, with_while.output);
}

#[test]
fn equality_and_comparison() {
    expect_output(
        "print 1 == 1; print 1 == 2; print \"a\" == \"a\"; print \"a\" == \"b\"; \
         print nil == nil; print nil == false; print 1 == \"1\"; print true != false;",
        &["true", "false", "true", "false", "true", "false", "false", "true"],
    );
    expect_output(
        "print 1 < 2; print 2 < 1; print 2 <= 2; print 3 >= 4; print -1 < 0; print -2 < -1; \
         print 0.5 > 0.25;",
        &["true", "false", "true", "false", "true", "true", "true"],
    );
    expect_output("print !true; print !nil; print !0; print !\"\";", &[
        "false", "true", "false", "false",
    ]);
}

#[test]
fn comparing_other_than_numbers_is_a_runtime_error() {
    let outcome = run("print 1 < \"a\";");
    assert_eq!(outcome.status, InterpretResult::RuntimeError);
    assert_eq!(outcome.errors[0], "Operands must be numbers.");
    let outcome = run("print -\"a\";");
    assert_eq!(outcome.status, InterpretResult::RuntimeError);
    assert_eq!(outcome.errors[0], "Operand must be a number.");
    let outcome = run("print \"a\" * 2;");
    assert_eq!(outcome.status, InterpretResult::RuntimeError);
    assert_eq!(outcome.errors[0], "Operands must be numbers.");
}

#[test]
fn calls_check_callee_and_arity() {
    let outcome = run("var a = 1; a();");
    assert_eq!(outcome.status, InterpretResult::RuntimeError);
    assert_eq!(outcome.errors[0], "Can only call functions and classes.");
    let outcome = run("fun f(a, b) { return a + b; }\nprint f(1);");
    assert_eq!(outcome.status, InterpretResult::RuntimeError);
    assert_eq!(
        outcome.errors,
        vec!["Expected 2 arguments but got 1.".to_string(), "[line 2] in script".to_string()]
    );
    expect_output("fun f(a, b) { return a + b; } print f(1, 2);", &["3"]);
}

#[test]
fn deep_recursion_overflows_the_frames() {
    let outcome = run("fun f(n) { return f(n + 1); }\nf(0);");
    assert_eq!(outcome.status, InterpretResult::RuntimeError);
    assert_eq!(outcome.errors[0], "Stack overflow.");
    assert_eq!(outcome.errors.len(), 1 + 64);
    assert_eq!(outcome.errors[1], "[line 1] in f");
    assert_eq!(outcome.errors[64], "[line 2] in script");
}

#[test]
fn recursion_computes() {
    expect_output(
        "fun fib(n) { if (n < 2) return n; return fib(n - 1) + fib(n - 2); } print fib(15);",
        &["610"],
    );
}

#[test]
fn locals_shadow_and_scopes_end() {
    expect_output(
        "var a = \"global\"; { var a = \"outer\"; { var a = \"inner\"; print a; } print a; } print a;",
        &["inner", "outer", "global"],
    );
}

#[test]
fn closures_share_a_captured_variable() {
    expect_output(
        "var get; var set; \
         fun make() { var v = 1; fun g() { return v; } fun s(x) { v = x; } get = g; set = s; } \
         make(); print get(); set(5); print get();",
        &["1", "5"],
    );
    expect_output(
        "var f; { var x = \"kept\"; fun show() { print x; } f = show; } f();",
        &["kept"],
    );
    expect_output(
        "fun outer() { var x = 1; fun middle() { fun inner() { x = x + 1; return x; } \
         return inner; } return middle; } var m = outer(); var i = m(); print i(); print i();",
        &["2", "3"],
    );
}

#[test]
fn values_print_in_their_display_form() {
    expect_output(
        "fun f() {} print f; print clock; print nil; print true; print \"s\"; print 2.5; \
         print f();",
        &["<closure f>", "<native fn>", "nil", "true", "s", "2.5", "nil"],
    );
}

#[test]
fn globals_live_as_long_as_the_machine() {
    let mut vm = VM::new();
    let first = run_in(&mut vm, "var a = 1; fun twice(x) { return x * 2; }");
    assert_eq!(first.status, InterpretResult::Success);
    let second = run_in(&mut vm, "a = a + 1; print twice(a);");
    assert_eq!(second.status, InterpretResult::Success);
    assert_eq!(second.output, vec!["4"]);
    let third = run_in(&mut vm, "print b;");
    assert_eq!(third.status, InterpretResult::RuntimeError);
    let fourth = run_in(&mut vm, "print a;");
    assert_eq!(fourth.output, vec!["2"]);
    assert_eq!(vm.stack_len(), 0);
    assert_eq!(vm.frame_count(), 0);
}

#[test]
fn syntax_errors_are_reported_once_per_statement() {
    let outcome = run("var = 1;\nprint 1 +;\nprint (2;");
    assert_eq!(outcome.status, InterpretResult::CompileError);
    assert_eq!(
        outcome.errors,
        vec![
            "[line 1] Error at '=': Expect variable name.".to_string(),
            "[line 2] Error at ';': Expect expression.".to_string(),
            "[line 3] Error at ';': Expect ')' after expression.".to_string(),
        ]
    );
    let outcome = run("print 1");
    assert_eq!(outcome.errors, vec!["[line 1] Error at end: Expect ';' after value.".to_string()]);
    let outcome = run("1 = 2;");
    assert_eq!(
        outcome.errors,
        vec!["[line 1] Error at '=': Invalid assignment target.".to_string()]
    );
    let outcome = run("print \"abc;");
    assert_eq!(outcome.errors[0], "[line 1] Error: Unterminated string.");
    let outcome = run("print 1 # 2;");
    assert_eq!(outcome.errors[0], "[line 1] Error: Unexpected character.");
}

#[test]
fn a_number_without_a_value_is_reported() {
    let mut vm = VM::new();
    let action = vm.interpret("print 1 + 2;", vec![1.0f64.to_bits()]);
    match action {
        Action::Rejected(diagnostics) => {
            assert_eq!(diagnostics.len(), 1);
            assert_eq!(diagnostics[0].render(), "[line 1] Error at '2': Number literal has no value.");
        }
        other => panic!("not rejected: {:?}", other),
    }
}

#[test]
fn while_loop_counts() {
    expect_output("var i = 0; while (i < 3) { print i; i = i + 1; }", &["0", "1", "2"]);
    expect_output("var i = 0; for (; i < 2;) i = i + 1; print i;", &["2"]);
}

#[test]
fn comments_and_lines() {
    let outcome = run("// nothing\nprint 1; // one\n\nprint x;");
    assert_eq!(outcome.status, InterpretResult::RuntimeError);
    assert_eq!(outcome.output, vec!["1"]);
    assert_eq!(
        outcome.errors,
        vec!["Undefined variable 'x'.".to_string(), "[line 4] in script".to_string()]
    );
}

#[test]
fn run_takes_steps_until_the_host_is_needed() {
    let source = "var i = 0; while (i < 2) { i = i + 1; } print i;";
    let mut vm = VM::new();
    let action = vm.interpret(source, number_bits(source));
    assert!(action.is_continue());
    assert_eq!(action.status(), None);
    // the first thing the host must do is the comparison's left operand: i + 1 comes later
    let mut action = vm.run(Event::Resume, 1000);
    let mut sums = 0;
    let mut printed = Vec::new();
    loop {
        action = match action {
            Action::Arithmetic(OpCode::Add, a, b) => {
                sums += 1;
                vm.run(Event::Number((f64::from_bits(a) + f64::from_bits(b)).to_bits()), 1000)
            }
            Action::PrintNumber(bits) => {
                printed.push(f64::from_bits(bits));
                vm.run(Event::Resume, 1000)
            }
            Action::Done => break,
            other => panic!("unexpected: {:?}", other),
        };
    }
    assert_eq!(sums, 2);
    assert_eq!(printed, vec![2.0]);
    assert_eq!(Action::Done.status(), Some(InterpretResult::Success));

    // with no fuel the machine takes one step and comes back
    let mut vm = VM::new();
    vm.interpret("nil; nil;", Vec::new());
    let mut steps = 1;
    while vm.run(Event::Resume, 0).is_continue() {
        steps += 1;
    }
    assert_eq!(steps, 6);
    assert!(!vm.run(Event::Resume, 0).is_continue());
}

#[test]
fn the_machine_asks_again_until_it_is_answered() {
    let mut vm = VM::new();
    vm.interpret("print 1 + 2;", vec![1.0f64.to_bits(), 2.0f64.to_bits()]);
    let asked = vm.run(Event::Resume, 100);
    match asked {
        Action::Arithmetic(OpCode::Add, a, b) => {
            assert_eq!((f64::from_bits(a), f64::from_bits(b)), (1.0, 2.0));
        }
        other => panic!("unexpected: {:?}", other),
    }
    let height = vm.stack_len();
    // an event that is no answer leaves the machine where it is
    match vm.step(Event::Resume) {
        Action::Arithmetic(OpCode::Add, _, _) => {}
        other => panic!("unexpected: {:?}", other),
    }
    match vm.step(Event::Value(Value::Nil)) {
        Action::Arithmetic(OpCode::Add, _, _) => {}
        other => panic!("unexpected: {:?}", other),
    }
    assert_eq!(vm.stack_len(), height);
    match vm.step(Event::Number(3.0f64.to_bits())) {
        Action::Continue => {}
        other => panic!("unexpected: {:?}", other),
    }
    assert_eq!(vm.stack_len(), height - 1);
    match vm.step(Event::Resume) {
        Action::PrintNumber(bits) => assert_eq!(f64::from_bits(bits), 3.0),
        other => panic!("unexpected: {:?}", other),
    }
}

#[test]
fn malformed_bytecode_is_a_runtime_error() {
    let cases: Vec<Vec<u8>> = vec![
        vec![],
        vec![200],
        vec![u8::from(OpCode::Constant)],
        vec![u8::from(OpCode::Constant), 9],
        vec![u8::from(OpCode::Pop), u8::from(OpCode::Pop)],
        vec![u8::from(OpCode::GetLocal), 7],
        vec![u8::from(OpCode::Jump), 0, 9],
        vec![u8::from(OpCode::Loop), 0, 9],
        vec![u8::from(OpCode::GetUpvalue), 0],
        vec![u8::from(OpCode::Closure), 0],
        vec![u8::from(OpCode::GetGlobal), 0],
        vec![u8::from(OpCode::Call), 3],
        vec![u8::from(OpCode::Nil)],
    ];
    for code in cases {
        let mut function = Function::new();
        for byte in code.iter() {
            function.chunk.write(*byte, 1);
        }
        let mut vm = VM::new();
        vm.load(vec![function]);
        assert_eq!(vm.frame_count(), 1);
        assert_eq!(vm.current_frame().ip(), 0);
        assert_eq!(vm.current_frame().slots(), 0);
        match vm.run(Event::Resume, 100) {
            Action::Fault(message, trace) => {
                assert_eq!(message, "Malformed bytecode.", "{:?}", code);
                assert_eq!(trace.len(), 1);
            }
            other => panic!("unexpected: {:?} for {:?}", other, code),
        }
        assert_eq!(vm.stack_len(), 0);
        assert_eq!(vm.frame_count(), 0);
        match vm.step(Event::Resume) {
            Action::Done => {}
            other => panic!("unexpected: {:?}", other),
        }
    }
}

#[test]
fn globals_can_be_read_from_outside() {
    let mut vm = VM::new();
    let clock = vm.global(&"clock".to_string()).unwrap();
    assert!(matches!(clock, Value::NativeFunc(_)));
    assert!(vm.global(&"a".to_string()).is_none());
    let outcome = run_in(&mut vm, "var a = \"x\";");
    assert_eq!(outcome.status, InterpretResult::Success);
    assert!(vm.global(&"a".to_string()).unwrap().values_equal(&Value::String("x".to_string())));
}

#[test]
fn the_instruction_offset_stays_inside_the_code() {
    let source = "fun fib(n) { if (n < 2) return n; return fib(n - 1) + fib(n - 2); } \
                  var total = 0; for (var i = 0; i < 5; i = i + 1) { total = total + fib(i); } \
                  print total;";
    let functions = Compiler::new(FunctionType::Script)
        .compile(source, number_bits(source))
        .unwrap_or_else(|d| panic!("{:?}", d));
    let mut vm = VM::new();
    let mut action = vm.interpret(source, number_bits(source));
    let mut printed = Vec::new();
    let mut deepest = 0;
    loop {
        if vm.frame_count() > 0 {
            let frame = vm.current_frame();
            let function = &functions[frame.closure().function];
            assert_eq!(frame.closure().unit, 0);
            assert!(frame.ip() <= function.chunk.code.len());
            assert!(frame.slots() < vm.stack_len());
            deepest = deepest.max(vm.frame_count());
        }
        action = match action {
            Action::Continue => vm.step(Event::Resume),
            Action::PrintNumber(bits) => {
                printed.push(f64::from_bits(bits));
                vm.step(Event::Resume)
            }
            Action::Arithmetic(op, a, b) => {
                let (a, b) = (f64::from_bits(a), f64::from_bits(b));
                let result = match op {
                    OpCode::Add => a + b,
                    OpCode::Subtract => a - b,
                    other => panic!("unexpected: {:?}", other),
                };
                vm.step(Event::Number(result.to_bits()))
            }
            Action::Done => break,
            other => panic!("unexpected: {:?}", other),
        };
    }
    assert_eq!(printed, vec![7.0]);
    assert!(deepest > 3);
    assert_eq!(vm.stack_len(), 0);
}

#[test]
fn closures_in_a_loop_share_the_loop_variable() {
    expect_output(
        "var first; var second; \
         for (var i = 0; i < 2; i = i + 1) { fun f() { return i; } \
           if (i == 0) first = f; else second = f; } \
         print first(); print second();",
        &["2", "2"],
    );
    expect_output(
        "var first; var second; \
         for (var i = 0; i < 2; i = i + 1) { var j = i; fun f() { return j; } \
           if (i == 0) first = f; else second = f; } \
         print first(); print second();",
        &["0", "1"],
    );
}

#[test]
fn captured_variables_are_closed_in_any_order() {
    expect_output(
        "var fa; var fb; var fc; \
         { var a = 1; var b = 2; var c = 3; \
           fun ga() { a = a + 10; return a; } \
           fun gc() { c = c + 10; return c; } \
           fun gb() { b = b + a; return b; } \
           fa = ga; fb = gb; fc = gc; print gb(); } \
         print fa(); print fb(); print fc(); print fa();",
        &["3", "11", "14", "13", "21"],
    );
}

#[test]
fn return_from_nested_blocks_keeps_captured_variables() {
    expect_output(
        "fun make(x) { { var y = x + 1; { var z = y + 1; fun get() { return x + y + z; } \
           return get; } } } \
         var g = make(1); print g(); var h = make(10); print h(); print g();",
        &["6", "33", "6"],
    );
}

#[test]
fn local_functions_call_themselves() {
    expect_output(
        "{ fun count(n) { if (n > 0) { print n; count(n - 1); } } count(3); }",
        &["3", "2", "1"],
    );
}

#[test]
fn assignment_is_an_expression() {
    expect_output("var a; var b; a = b = 3; print a; print b; print a = 4;", &["3", "3", "4"]);
    expect_output("{ var a = 1; var b = a = 2; print a + b; }", &["4"]);
    expect_output("var a = 1; var a = 2; print a;", &["2"]);
}

#[test]
fn numbers_print_as_doubles_do() {
    expect_output(
        "print 0.1 + 0.2; print 1 / 0; print -1 / 0; print 0 * -1; print 100; print 1.50;",
        &["0.30000000000000004", "inf", "-inf", "-0", "100", "1.5"],
    );
    expect_output("print (0 / 0) == (0 / 0); print 0 / 0 < 1; print 0 / 0 > 1;", &[
        "true", "false", "false",
    ]);
}

#[test]
fn strings_may_span_lines() {
    let outcome = run("print \"one\ntwo\";\nprint x;");
    assert_eq!(outcome.output, vec!["one\ntwo"]);
    assert_eq!(outcome.errors[1], "[line 3] in script");
}

#[test]
fn natives_take_their_arguments() {
    let mut vm = VM::new();
    vm.interpret("print clock(1, \"two\");", vec![1.0f64.to_bits()]);
    match vm.run(Event::Resume, 100) {
        Action::CallNative(native, args) => {
            assert_eq!(native.0, NATIVE_CLOCK);
            assert_eq!(args.len(), 2);
            assert!(args[0].values_equal(&Value::Number(1.0f64.to_bits())));
            assert!(args[1].values_equal(&Value::String("two".to_string())));
        }
        other => panic!("unexpected: {:?}", other),
    }
    let height = vm.stack_len();
    match vm.run(Event::Value(Value::String("now".to_string())), 100) {
        Action::Print(text) => assert_eq!(text, "now"),
        other => panic!("unexpected: {:?}", other),
    }
    assert_eq!(vm.stack_len(), height - 3);
}

#[test]
fn runtime_errors_trace_the_calls() {
    let outcome = run("fun a() { b(); }\nfun b() {\n  c();\n}\nfun c() { return 1 + nil; }\na();");
    assert_eq!(outcome.status, InterpretResult::RuntimeError);
    assert_eq!(
        outcome.errors,
        vec![
            "Operands must be two numbers or two strings.",
            "[line 5] in c",
            "[line 3] in b",
            "[line 1] in a",
            "[line 6] in script",
        ]
    );
}

#[test]
fn open_upvalues_are_the_variables_themselves() {
    expect_output("{ var x = 1; fun set() { x = 2; } set(); print x; x = 3; set(); print x; }", &[
        "2", "2",
    ]);
    expect_output(
        "fun outer() { var x = 0; fun inc() { x = x + 1; } fun get() { return x; } \
           inc(); inc(); x = x * 10; return get(); } print outer();",
        &["20"],
    );
    expect_output(
        "fun outer() { var a = 1; var b = 2; fun f() { return a; } fun g() { return b; } \
           fun h() { return a + b; } a = 5; b = 7; print f() + g(); return h; } \
         print outer()();",
        &["12", "12"],
    );
}

#[test]
fn parameters_and_locals_shadow() {
    expect_output("fun f(a) { { var b = a + 1; var a = b; print a; } print a; } f(1);", &[
        "2", "1",
    ]);
    let outcome = run("fun f(a) { var a = 1; }");
    assert_eq!(
        outcome.errors,
        vec!["[line 1] Error at 'a': Already a variable with this name in this scope."]
    );
    let outcome = run("var a = 1; { var a = a; }");
    assert_eq!(
        outcome.errors,
        vec!["[line 1] Error at 'a': Can't read local variable in its own initializer."]
    );
    let outcome = run("var a = a;");
    assert_eq!(outcome.status, InterpretResult::RuntimeError);
    assert_eq!(outcome.errors[0], "Undefined variable 'a'.");
}

#[test]
fn functions_are_values() {
    expect_output(
        "fun twice(f, x) { return f(f(x)); } fun inc(n) { return n + 1; } print twice(inc, 5); \
         fun pick(flag) { fun yes() { return \"yes\"; } fun no() { return \"no\"; } \
           if (flag) return yes; return no; } print pick(true)(); print pick(false)();",
        &["7", "yes", "no"],
    );
    expect_output("fun f() { return; } print f(); fun g() {} print g();", &["nil", "nil"]);
}

#[test]
fn globals_are_bound_late() {
    expect_output(
        "fun even(n) { if (n == 0) return true; return odd(n - 1); } \
         fun odd(n) { if (n == 0) return false; return even(n - 1); } print even(10); print odd(7);",
        &["true", "true"],
    );
}
