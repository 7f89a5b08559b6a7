use lox::scanner::number_lexemes;
use lox::scanner::Scanner;
use lox::scanner::Token;
use lox::scanner::TokenType;

fn scan_all(source: &str) -> Vec<Token> {
    let mut scanner = Scanner::new();
    scanner.init_scanner(source);
    let mut tokens = Vec::new();
    loop {
        let token = scanner.scan_token();
        let done = token.token_type == TokenType::Eof;
        tokens.push(token);
        if done {
            return tokens;
        }
        assert!(tokens.len() <= source.len() + 1);
    }
}

fn kinds(source: &str) -> Vec<TokenType> {
    scan_all(source).iter().map(|t| t.token_type).collect()
}

fn lexemes(source: &str) -> Vec<String> {
    scan_all(source).iter().map(|t| t.lexeme.clone()).collect()
}

#[test]
fn punctuation_is_scanned() {
    assert_eq!(
        kinds("(){};,.-+/*"),
        vec![
            TokenType::LeftParen,
            TokenType::RightParen,
            TokenType::LeftBrace,
            TokenType::RightBrace,
            TokenType::Semicolon,
            TokenType::Comma,
            TokenType::Dot,
            TokenType::Minus,
            TokenType::Plus,
            TokenType::Slash,
            TokenType::Star,
            TokenType::Eof,
        ]
    );
}

#[test]
fn one_or_two_character_operators() {
    assert_eq!(
        kinds("! != = == < <= > >="),
        vec![
            TokenType::Bang,
            TokenType::BangEqual,
            TokenType::Equal,
            TokenType::EqualEqual,
            TokenType::Less,
            TokenType::LessEqual,
            TokenType::Greater,
            TokenType::GreaterEqual,
            TokenType::Eof,
        ]
    );
    assert_eq!(kinds("!==="), vec![TokenType::BangEqual, TokenType::EqualEqual, TokenType::Eof]);
}

#[test]
fn keywords_are_recognized() {
    assert_eq!(
        kinds("and class else false fun for if nil or print return super this true var while"),
        vec![
            TokenType::And,
            TokenType::Class,
            TokenType::Else,
            TokenType::False,
            TokenType::Fun,
            TokenType::For,
            TokenType::If,
            TokenType::Nil,
            TokenType::Or,
            TokenType::Print,
            TokenType::Return,
            TokenType::Super,
            TokenType::This,
            TokenType::True,
            TokenType::Var,
            TokenType::While,
            TokenType::Eof,
        ]
    );
}

#[test]
fn near_keywords_are_identifiers() {
    for word in [
        "an", "andy", "f", "fa", "fals", "falsey", "fo", "forr", "fu", "funn", "t", "th", "thi",
        "thiss", "tr", "tru", "truer", "_if", "if_", "If", "nill", "o", "orr", "prin", "retur",
        "va", "whil", "whiles", "class1", "sup", "e", "els", "elsee", "x", "_", "a1_b2",
    ] {
        let tokens = scan_all(word);
        assert_eq!(tokens.len(), 2, "{}", word);
        assert_eq!(tokens[0].token_type, TokenType::Identifier, "{}", word);
        assert_eq!(tokens[0].lexeme, word);
    }
}

#[test]
fn numbers_take_a_fraction_only_with_digits() {
    assert_eq!(lexemes("12 3.5 7. .5 1.2.3"), vec![
        "12", "3.5", "7", ".", ".", "5", "1.2", ".", "3", ""
    ]);
    assert_eq!(
        kinds("7. .5"),
        vec![
            TokenType::Number,
            TokenType::Dot,
            TokenType::Dot,
            TokenType::Number,
            TokenType::Eof
        ]
    );
    assert_eq!(number_lexemes("var a = 12 + 3.5; // 9\nprint a * 007;"), vec!["12", "3.5", "007"]);
    assert_eq!(number_lexemes("\"1\" + x1"), Vec::<String>::new());
}

#[test]
fn strings_keep_their_quotes_and_count_lines() {
    let tokens = scan_all("\"one\ntwo\" x");
    assert_eq!(tokens[0].token_type, TokenType::STRING);
    assert_eq!(tokens[0].lexeme, "\"one\ntwo\"");
    assert_eq!(tokens[0].line, 2);
    assert_eq!(tokens[1].token_type, TokenType::Identifier);
    assert_eq!(tokens[1].line, 2);
    let tokens = scan_all("\"\"");
    assert_eq!(tokens[0].token_type, TokenType::STRING);
    assert_eq!(tokens[0].lexeme, "\"\"");
}

#[test]
fn unterminated_string_is_an_error_token() {
    let tokens = scan_all("x \"abc\n");
    assert_eq!(tokens[1].token_type, TokenType::Error);
    assert_eq!(tokens[1].lexeme, "Unterminated string.");
    assert_eq!(tokens[1].line, 2);
    assert_eq!(tokens[2].token_type, TokenType::Eof);
}

#[test]
fn unknown_character_is_an_error_token() {
    let tokens = scan_all("a @ b");
    assert_eq!(tokens[1].token_type, TokenType::Error);
    assert_eq!(tokens[1].lexeme, "Unexpected character.");
    assert_eq!(tokens[2].token_type, TokenType::Identifier);
    assert_eq!(tokens[2].lexeme, "b");
    let tokens = scan_all("\u{e9}");
    assert_eq!(tokens[0].token_type, TokenType::Error);
    assert_eq!(tokens[1].token_type, TokenType::Eof);
}

#[test]
fn whitespace_and_comments_are_skipped() {
    let tokens = scan_all("  a // b c\n\t\r\n// only\n/ b // end");
    assert_eq!(
        tokens.iter().map(|t| t.token_type).collect::<Vec<_>>(),
        vec![TokenType::Identifier, TokenType::Slash, TokenType::Identifier, TokenType::Eof]
    );
    assert_eq!(tokens[0].line, 1);
    assert_eq!(tokens[1].line, 4);
    assert_eq!(tokens[3].line, 4);
}

#[test]
fn end_of_input_repeats() {
    let mut scanner = Scanner::new();
    scanner.init_scanner("x");
    assert_eq!(scanner.scan_token().token_type, TokenType::Identifier);
    for _ in 0..3 {
        let token = scanner.scan_token();
        assert_eq!(token.token_type, TokenType::Eof);
        assert_eq!(token.lexeme, "");
        assert_eq!(token.line, 1);
    }
    let mut empty = Scanner::new();
    assert_eq!(empty.scan_token().token_type, TokenType::Eof);
    assert_eq!(Token::default().token_type, TokenType::Eof);
    assert_eq!(TokenType::default(), TokenType::Eof);
}

#[test]
fn init_starts_over() {
    let mut scanner = Scanner::new();
    scanner.init_scanner("a\nb");
    assert_eq!(scanner.scan_token().lexeme, "a");
    assert_eq!(scanner.scan_token().line, 2);
    scanner.init_scanner("c");
    let token = scanner.scan_token();
    assert_eq!(token.lexeme, "c");
    assert_eq!(token.line, 1);
}
