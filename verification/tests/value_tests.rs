use lox::diagnostic::Diagnostic;
use lox::globals::Globals;
use lox::rules::ParseFn;
use lox::rules::ParseRule;
use lox::rules::Precedence;
use lox::scanner::TokenType;
use lox::value::less_than;
use lox::value::Closure;
use lox::value::FunctionType;
use lox::value::NativeFunction;
use lox::value::Value;
use lox::value::ValueArray;

fn samples() -> Vec<f64> {
    vec![
        0.0,
        -0.0,
        1.0,
        -1.0,
        0.5,
        -0.5,
        2.0,
        1e300,
        -1e300,
        5e-324,
        -5e-324,
        f64::MIN_POSITIVE,
        f64::MAX,
        f64::MIN,
        f64::INFINITY,
        f64::NEG_INFINITY,
        f64::NAN,
        -f64::NAN,
        f64::from_bits(0x7ff0_0000_0000_0001),
        f64::from_bits(0xfff8_0000_0000_1234),
        3.141592653589793,
        -2.718281828459045,
    ]
}

#[test]
fn less_than_is_the_order_of_doubles() {
    for a in samples() {
        for b in samples() {
            assert_eq!(less_than(a.to_bits(), b.to_bits()), a < b, "{} < {}", a, b);
        }
    }
}

#[test]
fn negation_flips_the_sign() {
    for a in samples() {
        match Value::Number(a.to_bits()).neg() {
            Value::Number(bits) => assert_eq!(bits, (-a).to_bits(), "{}", a),
            other => panic!("no number: {:?}", other),
        }
    }
}

#[test]
fn only_nil_and_false_are_falsey() {
    assert!(Value::Nil.is_falsey());
    assert!(Value::Bool(false).is_falsey());
    assert!(!Value::Bool(true).is_falsey());
    assert!(!Value::Number(0).is_falsey());
    assert!(!Value::String(String::new()).is_falsey());
    assert!(!Value::Func(0).is_falsey());
    assert!(!Value::NativeFunc(NativeFunction(0)).is_falsey());
    assert!(!Value::Closure(Closure::new(0, 0, vec![])).is_falsey());
}

#[test]
fn equality_of_values() {
    let one = Value::Number(1.0f64.to_bits());
    assert!(one.values_equal(&Value::Number(1.0f64.to_bits())));
    assert!(!one.values_equal(&Value::Number(2.0f64.to_bits())));
    assert!(Value::Nil.values_equal(&Value::Nil));
    assert!(!Value::Nil.values_equal(&Value::Bool(false)));
    assert!(!Value::Nil.values_equal(&one));
    assert!(!one.values_equal(&Value::Nil));
    assert!(Value::Bool(true).values_equal(&Value::Bool(true)));
    assert!(!Value::Bool(true).values_equal(&Value::Bool(false)));
    assert!(Value::String("a".to_string()).values_equal(&Value::String("a".to_string())));
    assert!(!Value::String("a".to_string()).values_equal(&Value::String("b".to_string())));
    assert!(!Value::String("1".to_string()).values_equal(&one));
    assert!(!Value::Func(1).values_equal(&Value::Func(1)));
    assert!(!Value::NativeFunc(NativeFunction(0)).values_equal(&Value::NativeFunc(NativeFunction(0))));
    // numbers are equal where their bits are
    assert!(!Value::Number(0.0f64.to_bits()).values_equal(&Value::Number((-0.0f64).to_bits())));
    assert!(Value::Number(f64::NAN.to_bits()).values_equal(&Value::Number(f64::NAN.to_bits())));
}

#[test]
fn values_are_cloned() {
    let closure = Value::Closure(Closure::new(1, 2, vec![3, 4]));
    match closure.clone() {
        Value::Closure(c) => {
            assert_eq!(c.unit, 1);
            assert_eq!(c.function, 2);
            assert_eq!(c.upvalues, vec![3, 4]);
        }
        other => panic!("no closure: {:?}", other),
    }
    match Value::String("text".to_string()).clone() {
        Value::String(s) => assert_eq!(s, "text"),
        other => panic!("no string: {:?}", other),
    }
    assert_eq!(FunctionType::default(), FunctionType::Script);
}

#[test]
fn value_array_appends() {
    let mut values = ValueArray::new();
    assert!(values.values.is_empty());
    values.write(Value::Nil);
    values.write(Value::Bool(true));
    assert_eq!(values.values.len(), 2);
    assert!(values.values[1].values_equal(&Value::Bool(true)));
}

#[test]
fn globals_bind_names() {
    let mut globals = Globals::new();
    let a = "a".to_string();
    let b = "b".to_string();
    assert!(!globals.contains_key(&a));
    assert!(globals.get(&a).is_none());
    globals.insert(a.clone(), Value::Number(1));
    globals.insert(b.clone(), Value::Number(2));
    assert!(globals.contains_key(&a));
    assert!(globals.get(&a).unwrap().values_equal(&Value::Number(1)));
    globals.insert(a.clone(), Value::Number(3));
    assert!(globals.get(&a).unwrap().values_equal(&Value::Number(3)));
    assert!(globals.get(&b).unwrap().values_equal(&Value::Number(2)));
    assert!(!globals.contains_key(&"c".to_string()));
}

#[test]
fn precedence_ladder_ascends() {
    let ladder = [
        Precedence::Lowest,
        Precedence::Assignment,
        Precedence::Or,
        Precedence::And,
        Precedence::Equality,
        Precedence::Comparison,
        Precedence::Term,
        Precedence::Factor,
        Precedence::Unary,
        Precedence::Call,
        Precedence::Primary,
    ];
    for i in 0..ladder.len() - 1 {
        assert_eq!(ladder[i].next(), ladder[i + 1]);
        assert!(ladder[i].at_most(ladder[i + 1]));
        assert!(!ladder[i + 1].at_most(ladder[i]));
        assert!(ladder[i].at_most(ladder[i]));
    }
}

#[test]
fn parse_rules_of_the_table() {
    let rule = ParseRule::get_rule(TokenType::LeftParen);
    assert_eq!(rule.prefix, Some(ParseFn::Grouping));
    assert_eq!(rule.infix, Some(ParseFn::Call));
    assert_eq!(rule.precedence, Precedence::Call);
    let rule = ParseRule::get_rule(TokenType::Minus);
    assert_eq!(rule.prefix, Some(ParseFn::Unary));
    assert_eq!(rule.infix, Some(ParseFn::Binary));
    assert_eq!(rule.precedence, Precedence::Term);
    let rule = ParseRule::get_rule(TokenType::Plus);
    assert_eq!((rule.prefix, rule.infix, rule.precedence), (None, Some(ParseFn::Binary), Precedence::Term));
    for t in [TokenType::Slash, TokenType::Star] {
        let rule = ParseRule::get_rule(t);
        assert_eq!((rule.prefix, rule.infix, rule.precedence), (None, Some(ParseFn::Binary), Precedence::Factor));
    }
    let rule = ParseRule::get_rule(TokenType::Bang);
    assert_eq!((rule.prefix, rule.infix, rule.precedence), (Some(ParseFn::Unary), None, Precedence::Lowest));
    for t in [TokenType::BangEqual, TokenType::EqualEqual] {
        let rule = ParseRule::get_rule(t);
        assert_eq!((rule.prefix, rule.infix, rule.precedence), (None, Some(ParseFn::Binary), Precedence::Equality));
    }
    for t in [TokenType::Greater, TokenType::GreaterEqual, TokenType::Less, TokenType::LessEqual] {
        let rule = ParseRule::get_rule(t);
        assert_eq!((rule.prefix, rule.infix, rule.precedence), (None, Some(ParseFn::Binary), Precedence::Comparison));
    }
    let rule = ParseRule::get_rule(TokenType::Number);
    assert_eq!((rule.prefix, rule.infix, rule.precedence), (Some(ParseFn::Number), None, Precedence::Lowest));
    let rule = ParseRule::get_rule(TokenType::STRING);
    assert_eq!((rule.prefix, rule.infix, rule.precedence), (Some(ParseFn::String), None, Precedence::Lowest));
    for t in [TokenType::Nil, TokenType::True, TokenType::False] {
        let rule = ParseRule::get_rule(t);
        assert_eq!((rule.prefix, rule.infix, rule.precedence), (Some(ParseFn::Literal), None, Precedence::Lowest));
    }
    let rule = ParseRule::get_rule(TokenType::Identifier);
    assert_eq!((rule.prefix, rule.infix, rule.precedence), (Some(ParseFn::Variable), None, Precedence::Lowest));
    let rule = ParseRule::get_rule(TokenType::And);
    assert_eq!((rule.prefix, rule.infix, rule.precedence), (None, Some(ParseFn::And), Precedence::And));
    let rule = ParseRule::get_rule(TokenType::Or);
    assert_eq!((rule.prefix, rule.infix, rule.precedence), (None, Some(ParseFn::Or), Precedence::Or));
    for t in [
        TokenType::RightParen, TokenType::LeftBrace, TokenType::RightBrace, TokenType::Comma,
        TokenType::Dot, TokenType::Semicolon, TokenType::Equal, TokenType::Class, TokenType::Else,
        TokenType::Fun, TokenType::For, TokenType::If, TokenType::Print, TokenType::Return,
        TokenType::Super, TokenType::This, TokenType::Var, TokenType::While, TokenType::Eof,
        TokenType::Error,
    ] {
        let rule = ParseRule::get_rule(t);
        assert_eq!((rule.prefix, rule.infix, rule.precedence), (None, None, Precedence::Lowest));
    }
}

#[test]
fn diagnostics_are_rendered() {
    let d = Diagnostic {
        line: 12,
        location: " at 'x'".to_string(),
        message: "Expect expression.".to_string(),
    };
    assert_eq!(d.render(), "[line 12] Error at 'x': Expect expression.");
    let d = Diagnostic { line: 0, location: String::new(), message: "Bad.".to_string() };
    assert_eq!(d.render(), "[line 0] Error: Bad.");
    assert_eq!(d.clone().render(), d.render());
}
