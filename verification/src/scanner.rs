//! The scanner: turns source text into tokens, one at a time.

use vstd::prelude::*;
use crate::text::chars_of;
use crate::text::string_of;
use crate::text::strings_view;

verus! {

#[derive(Hash, Eq, Clone, Copy, Debug, PartialEq, Structural)]
pub enum TokenType {
    // Single-character tokens
    LeftParen,
    RightParen,
    LeftBrace,
    RightBrace,
    Comma,
    Dot,
    Minus,
    Plus,
    Semicolon,
    Slash,
    Star,
    // One or two character tokens
    Bang,
    BangEqual,
    Equal,
    EqualEqual,
    Greater,
    GreaterEqual,
    Less,
    LessEqual,
    Identifier,
    STRING,
    Number,
    // Keywords
    And,
    Class,
    Else,
    False,
    Fun,
    For,
    If,
    Nil,
    Or,
    Print,
    Return,
    Super,
    This,
    True,
    Var,
    While,
    Eof,
    Error,
}

impl Default for TokenType {
    fn default() -> (r: TokenType)
        ensures
            r == TokenType::Eof,
    {
        TokenType::Eof
    }
}

/// A token: its kind, its text and the line it ends on. The text of an `Error` token is the
/// diagnostic message.
#[derive(Debug)]
pub struct Token {
    pub token_type: TokenType,
    pub lexeme: String,
    pub line: usize,
}

/// The mathematical content of a [`Token`].
pub struct TokenView {
    pub token_type: TokenType,
    pub lexeme: Seq<char>,
    pub line: usize,
}

impl View for Token {
    type V = TokenView;

    open spec fn view(&self) -> TokenView {
        TokenView { token_type: self.token_type, lexeme: self.lexeme@, line: self.line }
    }
}

impl Clone for Token {
    fn clone(&self) -> (r: Token)
        ensures
            r@ == self@,
    {
        Token { token_type: self.token_type, lexeme: self.lexeme.clone(), line: self.line }
    }
}

impl Default for Token {
    fn default() -> (r: Token)
        ensures
            r@ == TokenView::end_of_input(0),
    {
        Token { token_type: TokenType::Eof, lexeme: String::new(), line: 0 }
    }
}

impl TokenView {
    /// The token that marks the end of the input.
    pub open spec fn end_of_input(line: usize) -> TokenView {
        TokenView { token_type: TokenType::Eof, lexeme: Seq::empty(), line }
    }
}

pub open spec fn is_digit(c: char) -> bool {
    '0' <= c && c <= '9'
}

pub open spec fn is_alpha(c: char) -> bool {
    ('a' <= c && c <= 'z') || ('A' <= c && c <= 'Z') || c == '_'
}

/// The line counter after one more newline. It stops at the largest number the machine holds.
pub open spec fn next_line(line: usize) -> usize {
    if line < usize::MAX {
        (line + 1) as usize
    } else {
        line
    }
}

/// Where the blanks and line comments that begin at `i` end, and the line counter there.
/// `in_comment` tells whether `i` lies inside a line comment.
pub open spec fn skip_blank(src: Seq<char>, i: int, line: usize, in_comment: bool) -> (int, usize)
    decreases src.len() - i,
{
    if i < 0 || i >= src.len() {
        (i, line)
    } else if src[i] == '\n' {
        skip_blank(src, i + 1, next_line(line), false)
    } else if in_comment {
        skip_blank(src, i + 1, line, true)
    } else if src[i] == ' ' || src[i] == '\r' || src[i] == '\t' {
        skip_blank(src, i + 1, line, false)
    } else if src[i] == '/' && i + 1 < src.len() && src[i + 1] == '/' {
        skip_blank(src, i + 2, line, true)
    } else {
        (i, line)
    }
}

/// Where the run of digits that begins at `i` ends.
pub open spec fn digits_end(src: Seq<char>, i: int) -> int
    decreases src.len() - i,
{
    if 0 <= i < src.len() && is_digit(src[i]) {
        digits_end(src, i + 1)
    } else {
        i
    }
}

/// Where a number whose first digit is just before `i` ends: digits, then optionally a dot
/// that is followed by at least one digit, and the digits after it.
pub open spec fn number_end(src: Seq<char>, i: int) -> int {
    let j = digits_end(src, i);
    if 0 <= j && j + 1 < src.len() && src[j] == '.' && is_digit(src[j + 1]) {
        digits_end(src, j + 1)
    } else {
        j
    }
}

/// Where the run of letters, digits and underscores that begins at `i` ends.
pub open spec fn identifier_end(src: Seq<char>, i: int) -> int
    decreases src.len() - i,
{
    if 0 <= i < src.len() && (is_alpha(src[i]) || is_digit(src[i])) {
        identifier_end(src, i + 1)
    } else {
        i
    }
}

/// Where the closing quote of a string whose body begins at `i` stands (the length of the
/// source if there is none), and the line counter there.
pub open spec fn string_end(src: Seq<char>, i: int, line: usize) -> (int, usize)
    decreases src.len() - i,
{
    if 0 <= i < src.len() && src[i] != '"' {
        string_end(src, i + 1, if src[i] == '\n' { next_line(line) } else { line })
    } else {
        (i, line)
    }
}

/// The kind of an identifier-shaped lexeme: the keyword it spells, or `Identifier`.
pub open spec fn keyword_type(lexeme: Seq<char>) -> TokenType {
    if lexeme == seq!['a', 'n', 'd'] {
        TokenType::And
    } else if lexeme == seq!['c', 'l', 'a', 's', 's'] {
        TokenType::Class
    } else if lexeme == seq!['e', 'l', 's', 'e'] {
        TokenType::Else
    } else if lexeme == seq!['i', 'f'] {
        TokenType::If
    } else if lexeme == seq!['f', 'a', 'l', 's', 'e'] {
        TokenType::False
    } else if lexeme == seq!['f', 'o', 'r'] {
        TokenType::For
    } else if lexeme == seq!['f', 'u', 'n'] {
        TokenType::Fun
    } else if lexeme == seq!['n', 'i', 'l'] {
        TokenType::Nil
    } else if lexeme == seq!['o', 'r'] {
        TokenType::Or
    } else if lexeme == seq!['p', 'r', 'i', 'n', 't'] {
        TokenType::Print
    } else if lexeme == seq!['r', 'e', 't', 'u', 'r', 'n'] {
        TokenType::Return
    } else if lexeme == seq!['s', 'u', 'p', 'e', 'r'] {
        TokenType::Super
    } else if lexeme == seq!['t', 'h', 'i', 's'] {
        TokenType::This
    } else if lexeme == seq!['t', 'r', 'u', 'e'] {
        TokenType::True
    } else if lexeme == seq!['v', 'a', 'r'] {
        TokenType::Var
    } else if lexeme == seq!['w', 'h', 'i', 'l', 'e'] {
        TokenType::While
    } else {
        TokenType::Identifier
    }
}

/// The message of the error token for a string without its closing quote.
pub open spec fn unterminated_string_message() -> Seq<char> {
    "Unterminated string."@
}

/// The message of the error token for a character that begins no token.
pub open spec fn unexpected_character_message() -> Seq<char> {
    "Unexpected character."@
}

/// The token that begins at `start`, which is inside the source: its kind, where it ends and the
/// line counter after it.
pub open spec fn lex(src: Seq<char>, start: int, line: usize) -> (TokenType, int, usize) {
    let c = src[start];
    let then_equal = start + 1 < src.len() && src[start + 1] == '=';
    if c == '(' {
        (TokenType::LeftParen, start + 1, line)
    } else if c == ')' {
        (TokenType::RightParen, start + 1, line)
    } else if c == '{' {
        (TokenType::LeftBrace, start + 1, line)
    } else if c == '}' {
        (TokenType::RightBrace, start + 1, line)
    } else if c == ';' {
        (TokenType::Semicolon, start + 1, line)
    } else if c == ',' {
        (TokenType::Comma, start + 1, line)
    } else if c == '.' {
        (TokenType::Dot, start + 1, line)
    } else if c == '-' {
        (TokenType::Minus, start + 1, line)
    } else if c == '+' {
        (TokenType::Plus, start + 1, line)
    } else if c == '/' {
        (TokenType::Slash, start + 1, line)
    } else if c == '*' {
        (TokenType::Star, start + 1, line)
    } else if c == '!' {
        if then_equal {
            (TokenType::BangEqual, start + 2, line)
        } else {
            (TokenType::Bang, start + 1, line)
        }
    } else if c == '=' {
        if then_equal {
            (TokenType::EqualEqual, start + 2, line)
        } else {
            (TokenType::Equal, start + 1, line)
        }
    } else if c == '<' {
        if then_equal {
            (TokenType::LessEqual, start + 2, line)
        } else {
            (TokenType::Less, start + 1, line)
        }
    } else if c == '>' {
        if then_equal {
            (TokenType::GreaterEqual, start + 2, line)
        } else {
            (TokenType::Greater, start + 1, line)
        }
    } else if is_digit(c) {
        (TokenType::Number, number_end(src, start + 1), line)
    } else if is_alpha(c) {
        let end = identifier_end(src, start + 1);
        (keyword_type(src.subrange(start, end)), end, line)
    } else if c == '"' {
        let (quote, after) = string_end(src, start + 1, line);
        if quote >= src.len() {
            (TokenType::Error, quote, after)
        } else {
            (TokenType::STRING, quote + 1, after)
        }
    } else {
        (TokenType::Error, start + 1, line)
    }
}

/// The text of the token of kind `token_type` that spans `src[start..end]`.
pub open spec fn lexeme_of(src: Seq<char>, start: int, end: int, token_type: TokenType) -> Seq<char> {
    if token_type != TokenType::Error {
        src.subrange(start, end)
    } else if 0 <= start < src.len() && src[start] == '"' {
        unterminated_string_message()
    } else {
        unexpected_character_message()
    }
}

/// The mathematical content of a [`Scanner`].
pub struct ScannerView {
    pub source: Seq<char>,
    /// Where the lexeme being scanned begins.
    pub start: usize,
    /// The character being looked at.
    pub current: usize,
    pub line: usize,
}

impl ScannerView {
    pub open spec fn wf(self) -> bool {
        self.start <= self.current <= self.source.len() <= usize::MAX
    }

    /// The scanner on a fresh source.
    pub open spec fn init(source: Seq<char>) -> ScannerView {
        ScannerView { source, start: 0, current: 0, line: 1 }
    }

    /// The next token and the scanner after it.
    pub open spec fn scan_token(self) -> (ScannerView, TokenView) {
        let (start, line) = skip_blank(self.source, self.current as int, self.line, false);
        if start >= self.source.len() {
            (
                ScannerView { start: start as usize, current: start as usize, line, ..self },
                TokenView::end_of_input(line),
            )
        } else {
            let (token_type, end, after) = lex(self.source, start, line);
            (
                ScannerView { start: start as usize, current: end as usize, line: after, ..self },
                TokenView {
                    token_type,
                    lexeme: lexeme_of(self.source, start, end, token_type),
                    line: after,
                },
            )
        }
    }
}

pub proof fn lemma_skip_blank_bounds(src: Seq<char>, i: int, line: usize, in_comment: bool)
    requires
        0 <= i <= src.len(),
    ensures
        i <= skip_blank(src, i, line, in_comment).0 <= src.len(),
    decreases src.len() - i,
{
    if i < src.len() {
        if src[i] == '\n' {
            lemma_skip_blank_bounds(src, i + 1, next_line(line), false);
        } else if in_comment {
            lemma_skip_blank_bounds(src, i + 1, line, true);
        } else if src[i] == ' ' || src[i] == '\r' || src[i] == '\t' {
            lemma_skip_blank_bounds(src, i + 1, line, false);
        } else if src[i] == '/' && i + 1 < src.len() && src[i + 1] == '/' {
            lemma_skip_blank_bounds(src, i + 2, line, true);
        }
    }
}

pub proof fn lemma_digits_end_bounds(src: Seq<char>, i: int)
    requires
        0 <= i <= src.len(),
    ensures
        i <= digits_end(src, i) <= src.len(),
    decreases src.len() - i,
{
    if i < src.len() && is_digit(src[i]) {
        lemma_digits_end_bounds(src, i + 1);
    }
}

pub proof fn lemma_identifier_end_bounds(src: Seq<char>, i: int)
    requires
        0 <= i <= src.len(),
    ensures
        i <= identifier_end(src, i) <= src.len(),
    decreases src.len() - i,
{
    if i < src.len() && (is_alpha(src[i]) || is_digit(src[i])) {
        lemma_identifier_end_bounds(src, i + 1);
    }
}

pub proof fn lemma_string_end_bounds(src: Seq<char>, i: int, line: usize)
    requires
        0 <= i <= src.len(),
    ensures
        i <= string_end(src, i, line).0 <= src.len(),
    decreases src.len() - i,
{
    if i < src.len() && src[i] != '"' {
        lemma_string_end_bounds(src, i + 1, if src[i] == '\n' { next_line(line) } else { line });
    }
}

/// A token that begins inside the source ends after its beginning and inside the source.
pub proof fn lemma_lex_bounds(src: Seq<char>, start: int, line: usize)
    requires
        0 <= start < src.len(),
    ensures
        start < lex(src, start, line).1 <= src.len(),
{
    lemma_digits_end_bounds(src, start + 1);
    let j = digits_end(src, start + 1);
    if j + 1 < src.len() {
        lemma_digits_end_bounds(src, j + 1);
    }
    lemma_identifier_end_bounds(src, start + 1);
    lemma_string_end_bounds(src, start + 1, line);
}

/// Scanning keeps the scanner well formed and never moves backwards; a token other than the
/// end of input consumes at least one character.
pub proof fn lemma_scan_token_progress(s: ScannerView)
    requires
        s.wf(),
    ensures
        s.scan_token().0.wf(),
        s.scan_token().0.source == s.source,
        s.scan_token().0.current >= s.current,
        s.scan_token().1.token_type != TokenType::Eof ==> s.scan_token().0.current > s.current,
        s.scan_token().1.token_type == TokenType::Eof ==> s.scan_token().0.current
            == s.source.len(),
{
    lemma_skip_blank_bounds(s.source, s.current as int, s.line, false);
    let (start, line) = skip_blank(s.source, s.current as int, s.line, false);
    if start < s.source.len() {
        lemma_lex_bounds(s.source, start, line);
        lemma_lex_never_eof(s.source, start, line);
    }
}

/// No token inside the source is the end-of-input token.
pub proof fn lemma_lex_never_eof(src: Seq<char>, start: int, line: usize)
    requires
        0 <= start < src.len(),
    ensures
        lex(src, start, line).0 != TokenType::Eof,
{
}

/// Once the end of the input is reached, every further token is the end of the input.
pub proof fn lemma_eof_repeats(s: ScannerView)
    requires
        s.wf(),
        s.scan_token().1.token_type == TokenType::Eof,
    ensures
        s.scan_token().0.scan_token().1.token_type == TokenType::Eof,
        s.scan_token().0.scan_token().0 == s.scan_token().0,
{
    lemma_scan_token_progress(s);
    let (start, line) = skip_blank(s.source, s.current as int, s.line, false);
    if start < s.source.len() {
        lemma_lex_never_eof(s.source, start, line);
    }
}

fn digit_char(c: char) -> (r: bool)
    ensures
        r == is_digit(c),
{
    '0' <= c && c <= '9'
}

fn alpha_char(c: char) -> (r: bool)
    ensures
        r == is_alpha(c),
{
    ('a' <= c && c <= 'z') || ('A' <= c && c <= 'Z') || c == '_'
}

/// Scans a source text into tokens on demand.
#[derive(Debug)]
pub struct Scanner {
    source: Vec<char>,
    /// Marks the beginning of the lexeme being scanned.
    start: usize,
    /// Points to the character being looked at.
    current: usize,
    line: usize,
}

impl View for Scanner {
    type V = ScannerView;

    closed spec fn view(&self) -> ScannerView {
        ScannerView {
            source: self.source@,
            start: self.start,
            current: self.current,
            line: self.line,
        }
    }
}

impl Scanner {
    /// A scanner on the empty source.
    pub fn new() -> (r: Scanner)
        ensures
            r@ == ScannerView::init(Seq::empty()),
            r@.wf(),
    {
        Scanner { source: Vec::new(), start: 0, current: 0, line: 1 }
    }

    /// Starts over on a new source.
    pub fn init_scanner(&mut self, source: &str)
        ensures
            final(self)@ == ScannerView::init(source@),
            final(self)@.wf(),
    {
        self.source = chars_of(source);
        assert(self.source@.len() <= usize::MAX) by {
            let n = self.source.len();
        }
        self.start = 0;
        self.current = 0;
        self.line = 1;
    }

    fn make_token(&self, token_type: TokenType) -> (t: Token)
        requires
            self@.wf(),
        ensures
            t@ == (TokenView {
                token_type,
                lexeme: self@.source.subrange(self@.start as int, self@.current as int),
                line: self@.line,
            }),
    {
        Token {
            lexeme: string_of(&self.source, self.start, self.current),
            line: self.line,
            token_type,
        }
    }

    fn error_token(&self, msg: &str) -> (t: Token)
        ensures
            t@ == (TokenView { token_type: TokenType::Error, lexeme: msg@, line: self@.line }),
    {
        Token { token_type: TokenType::Error, lexeme: msg.to_owned(), line: self.line }
    }

    fn is_at_end(&self) -> (r: bool)
        ensures
            r == (self@.current == self@.source.len()),
    {
        self.current == self.source.len()
    }

    fn advance(&mut self) -> (c: char)
        requires
            old(self)@.wf(),
            old(self)@.current < old(self)@.source.len(),
        ensures
            c == old(self)@.source[old(self)@.current as int],
            final(self)@ == (ScannerView {
                current: (old(self)@.current + 1) as usize,
                ..old(self)@
            }),
    {
        self.current += 1;
        self.source[self.current - 1]
    }

    fn my_match(&mut self, expected: char) -> (r: bool)
        requires
            old(self)@.wf(),
        ensures
            r == (old(self)@.current < old(self)@.source.len() && old(self)@.source[old(
                self,
            )@.current as int] == expected),
            final(self)@ == (ScannerView {
                current: if r {
                    (old(self)@.current + 1) as usize
                } else {
                    old(self)@.current
                },
                ..old(self)@
            }),
    {
        if self.is_at_end() {
            return false;
        }
        if self.source[self.current] != expected {
            return false;
        }
        self.current += 1;

        true
    }

    fn peek(&self) -> (c: char)
        requires
            self@.wf(),
        ensures
            c == if self@.current < self@.source.len() {
                self@.source[self@.current as int]
            } else {
                '\0'
            },
    {
        if self.is_at_end() {
            return '\0';
        }
        self.source[self.current]
    }

    fn peek_next(&self) -> (c: Option<char>)
        requires
            self@.wf(),
        ensures
            c == if self@.current + 1 < self@.source.len() {
                Some(self@.source[self@.current + 1])
            } else {
                None
            },
    {
        if self.source.len() - self.current <= 1 {
            None
        } else {
            Some(self.source[self.current + 1])
        }
    }

    fn count_line(&mut self)
        ensures
            final(self)@ == (ScannerView { line: next_line(old(self)@.line), ..old(self)@ }),
    {
        if self.line < usize::MAX {
            self.line += 1;
        }
    }

    fn skip_whitespace(&mut self)
        requires
            old(self)@.wf(),
        ensures
            final(self)@.wf(),
            final(self)@ == (ScannerView {
                current: skip_blank(
                    old(self)@.source,
                    old(self)@.current as int,
                    old(self)@.line,
                    false,
                ).0 as usize,
                line: skip_blank(
                    old(self)@.source,
                    old(self)@.current as int,
                    old(self)@.line,
                    false,
                ).1,
                ..old(self)@
            }),
    {
        let ghost goal = skip_blank(self@.source, self@.current as int, self@.line, false);
        proof {
            lemma_skip_blank_bounds(self@.source, self@.current as int, self@.line, false);
        }
        loop
            invariant
                self@.wf(),
                self@.source == old(self)@.source,
                self@.start == old(self)@.start,
                skip_blank(self@.source, self@.current as int, self@.line, false) == goal,
                goal == skip_blank(
                    old(self)@.source,
                    old(self)@.current as int,
                    old(self)@.line,
                    false,
                ),
                goal.0 <= self@.source.len(),
            decreases self@.source.len() - self@.current,
        {
            let c = self.peek();
            if self.is_at_end() {
                return ;
            }
            if c == '\n' {
                self.count_line();
                self.advance();
            } else if c == ' ' || c == '\r' || c == '\t' {
                self.advance();
            } else if c == '/' {
                if let Some('/') = self.peek_next() {
                    // A comment goes until the end of the line
                    let ghost before = self@.current;
                    self.advance();
                    self.advance();
                    while self.peek() != '\n' && !self.is_at_end()
                        invariant
                            self@.wf(),
                            self@.current > before,
                            self@.source == old(self)@.source,
                            self@.start == old(self)@.start,
                            skip_blank(self@.source, self@.current as int, self@.line, true)
                                == goal,
                            goal == skip_blank(
                                old(self)@.source,
                                old(self)@.current as int,
                                old(self)@.line,
                                false,
                            ),
                            goal.0 <= self@.source.len(),
                        decreases self@.source.len() - self@.current,
                    {
                        self.advance();
                    }
                    if self.is_at_end() {
                        return ;
                    }
                } else {
                    return ;
                }
            } else {
                return ;
            }
        }
    }

    fn make_string(&mut self) -> (t: Token)
        requires
            old(self)@.wf(),
        ensures
            final(self)@.wf(),
            ({
                let o = old(self)@;
                let (quote, after) = string_end(o.source, o.current as int, o.line);
                if quote >= o.source.len() {
                    &&& final(self)@ == (ScannerView { current: quote as usize, line: after, ..o })
                    &&& t@ == (TokenView {
                        token_type: TokenType::Error,
                        lexeme: unterminated_string_message(),
                        line: after,
                    })
                } else {
                    &&& final(self)@ == (ScannerView {
                        current: (quote + 1) as usize,
                        line: after,
                        ..o
                    })
                    &&& t@ == (TokenView {
                        token_type: TokenType::STRING,
                        lexeme: o.source.subrange(o.start as int, quote + 1),
                        line: after,
                    })
                }
            }),
    {
        let ghost goal = string_end(self@.source, self@.current as int, self@.line);
        proof {
            lemma_string_end_bounds(self@.source, self@.current as int, self@.line);
        }
        while self.peek() != '"' && !self.is_at_end()
            invariant
                self@.wf(),
                self@.source == old(self)@.source,
                self@.start == old(self)@.start,
                string_end(self@.source, self@.current as int, self@.line) == goal,
                goal == string_end(old(self)@.source, old(self)@.current as int, old(self)@.line),
                goal.0 <= self@.source.len(),
            decreases self@.source.len() - self@.current,
        {
            if self.peek() == '\n' {
                self.count_line();
            }
            self.advance();
        }
        if self.is_at_end() {
            return self.error_token("Unterminated string.");
        }
        // for the closing quote

        self.advance();
        self.make_token(TokenType::STRING)
    }

    fn skip_digits(&mut self)
        requires
            old(self)@.wf(),
        ensures
            final(self)@.wf(),
            final(self)@ == (ScannerView {
                current: digits_end(old(self)@.source, old(self)@.current as int) as usize,
                ..old(self)@
            }),
    {
        proof {
            lemma_digits_end_bounds(self@.source, self@.current as int);
        }
        while !self.is_at_end() && digit_char(self.peek())
            invariant
                self@.wf(),
                self@.source == old(self)@.source,
                self@.start == old(self)@.start,
                self@.line == old(self)@.line,
                digits_end(self@.source, self@.current as int) == digits_end(
                    old(self)@.source,
                    old(self)@.current as int,
                ),
                digits_end(old(self)@.source, old(self)@.current as int) <= self@.source.len(),
            decreases self@.source.len() - self@.current,
        {
            self.advance();
        }
    }

    fn make_number(&mut self) -> (t: Token)
        requires
            old(self)@.wf(),
        ensures
            final(self)@.wf(),
            final(self)@ == (ScannerView {
                current: number_end(old(self)@.source, old(self)@.current as int) as usize,
                ..old(self)@
            }),
            t@ == (TokenView {
                token_type: TokenType::Number,
                lexeme: old(self)@.source.subrange(
                    old(self)@.start as int,
                    number_end(old(self)@.source, old(self)@.current as int),
                ),
                line: old(self)@.line,
            }),
    {
        proof {
            lemma_digits_end_bounds(self@.source, self@.current as int);
            let j = digits_end(self@.source, self@.current as int);
            if j + 1 < self@.source.len() {
                lemma_digits_end_bounds(self@.source, j + 1);
            }
        }
        self.skip_digits();

        if let ('.', Some(ch2)) = (self.peek(), self.peek_next()) {
            if digit_char(ch2) {
                // Consume the "."
                self.advance();
                self.skip_digits();
            }
        }
        self.make_token(TokenType::Number)
    }

    fn make_identifier(&mut self) -> (t: Token)
        requires
            old(self)@.wf(),
            old(self)@.start < old(self)@.current,
        ensures
            final(self)@.wf(),
            final(self)@ == (ScannerView {
                current: identifier_end(old(self)@.source, old(self)@.current as int) as usize,
                ..old(self)@
            }),
            t@ == (TokenView {
                token_type: keyword_type(
                    old(self)@.source.subrange(
                        old(self)@.start as int,
                        identifier_end(old(self)@.source, old(self)@.current as int),
                    ),
                ),
                lexeme: old(self)@.source.subrange(
                    old(self)@.start as int,
                    identifier_end(old(self)@.source, old(self)@.current as int),
                ),
                line: old(self)@.line,
            }),
    {
        proof {
            lemma_identifier_end_bounds(self@.source, self@.current as int);
        }
        while !self.is_at_end() && (self.peek() == '_' || alpha_char(self.peek()) || digit_char(
            self.peek(),
        ))
            invariant
                self@.wf(),
                self@.source == old(self)@.source,
                self@.start == old(self)@.start,
                self@.line == old(self)@.line,
                self@.start < self@.current,
                identifier_end(self@.source, self@.current as int) == identifier_end(
                    old(self)@.source,
                    old(self)@.current as int,
                ),
                identifier_end(old(self)@.source, old(self)@.current as int)
                    <= self@.source.len(),
            decreases self@.source.len() - self@.current,
        {
            self.advance();
        }
        self.make_token(self.identifier_type())
    }
}

/// A lexeme that agrees with a keyword on its first `skip` characters spells the keyword
/// exactly when the rest of it is the rest of the keyword.
proof fn lemma_keyword_tail(lexeme: Seq<char>, keyword: Seq<char>, skip: int, rest: Seq<char>)
    requires
        0 <= skip <= keyword.len(),
        rest =~= keyword.subrange(skip, keyword.len() as int),
    ensures
        skip <= lexeme.len() && lexeme.subrange(0, skip) =~= keyword.subrange(0, skip) ==> ((lexeme
            == keyword) <==> (lexeme.len() == skip + rest.len() && lexeme.subrange(
            skip,
            lexeme.len() as int,
        ) == rest)),
{
    if skip <= lexeme.len() && lexeme.subrange(0, skip) =~= keyword.subrange(0, skip) {
        if lexeme.len() == skip + rest.len() && lexeme.subrange(skip, lexeme.len() as int) == rest {
            assert forall|i: int| 0 <= i < lexeme.len() implies lexeme[i] == keyword[i] by {
                if i < skip {
                    assert(lexeme[i] == lexeme.subrange(0, skip)[i]);
                    assert(keyword[i] == keyword.subrange(0, skip)[i]);
                } else {
                    assert(lexeme[i] == lexeme.subrange(skip, lexeme.len() as int)[i - skip]);
                    assert(keyword[i] == keyword.subrange(skip, keyword.len() as int)[i - skip]);
                }
            }
            assert(lexeme =~= keyword);
        }
    }
}

impl Scanner {
    /// `token_type` if the lexeme is `start + length` characters long and ends in `rest`,
    /// else `Identifier`.
    fn check_keyword(&self, start: usize, length: usize, rest: &str, token_type: TokenType) -> (r:
        TokenType)
        requires
            self@.wf(),
            rest@.len() == length,
            start + length <= 16,
        ensures
            r == if self@.current - self@.start == start + length && self@.source.subrange(
                self@.start + start,
                self@.current as int,
            ) == rest@ {
                token_type
            } else {
                TokenType::Identifier
            },
    {
        if self.current - self.start != start + length {
            return TokenType::Identifier;
        }
        let base = self.start + start;
        let ghost tail = self@.source.subrange(base as int, self@.current as int);
        let mut i: usize = 0;
        while i < length
            invariant
                self@.wf(),
                i <= length,
                rest@.len() == length,
                base + length == self@.current,
                tail == self@.source.subrange(base as int, self@.current as int),
                forall|j: int| 0 <= j < i ==> tail[j] == rest@[j],
            decreases length - i,
        {
            if self.source[base + i] != rest.get_char(i) {
                assert(tail[i as int] != rest@[i as int]);
                return TokenType::Identifier;
            }
            i += 1;
        }
        assert(tail =~= rest@);
        token_type
    }

    /// Decides whether the lexeme is a keyword, by its first characters and then its rest.
    fn identifier_type(&self) -> (r: TokenType)
        requires
            self@.wf(),
            self@.start < self@.current,
        ensures
            r == keyword_type(self@.source.subrange(self@.start as int, self@.current as int)),
    {
        let ghost lexeme = self@.source.subrange(self@.start as int, self@.current as int);
        assert(lexeme[0] == self@.source[self@.start as int]);
        assert(lexeme.len() > 1 ==> lexeme[1] == self@.source[self@.start + 1]);
        assert(lexeme.subrange(1, lexeme.len() as int) =~= self@.source.subrange(
            self@.start + 1,
            self@.current as int,
        ));
        assert(lexeme.len() > 1 ==> lexeme.subrange(2, lexeme.len() as int)
            =~= self@.source.subrange(self@.start + 2, self@.current as int));
        match self.source[self.start] {
            'a' => {
                proof {
                    reveal_strlit("nd");
                    lemma_keyword_tail(lexeme, seq!['a', 'n', 'd'], 1, "nd"@);
                }
                self.check_keyword(1, 2, "nd", TokenType::And)
            },
            'c' => {
                proof {
                    reveal_strlit("lass");
                    lemma_keyword_tail(lexeme, seq!['c', 'l', 'a', 's', 's'], 1, "lass"@);
                }
                self.check_keyword(1, 4, "lass", TokenType::Class)
            },
            'e' => {
                proof {
                    reveal_strlit("lse");
                    lemma_keyword_tail(lexeme, seq!['e', 'l', 's', 'e'], 1, "lse"@);
                }
                self.check_keyword(1, 3, "lse", TokenType::Else)
            },
            'i' => {
                proof {
                    reveal_strlit("f");
                    lemma_keyword_tail(lexeme, seq!['i', 'f'], 1, "f"@);
                }
                self.check_keyword(1, 1, "f", TokenType::If)
            },
            'f' if self.current - self.start > 1 => {
                match self.source[self.start + 1] {
                    'a' => {
                        proof {
                            reveal_strlit("lse");
                            lemma_keyword_tail(lexeme, seq!['f', 'a', 'l', 's', 'e'], 2, "lse"@);
                        }
                        self.check_keyword(2, 3, "lse", TokenType::False)
                    },
                    'o' => {
                        proof {
                            reveal_strlit("r");
                            lemma_keyword_tail(lexeme, seq!['f', 'o', 'r'], 2, "r"@);
                        }
                        self.check_keyword(2, 1, "r", TokenType::For)
                    },
                    'u' => {
                        proof {
                            reveal_strlit("n");
                            lemma_keyword_tail(lexeme, seq!['f', 'u', 'n'], 2, "n"@);
                        }
                        self.check_keyword(2, 1, "n", TokenType::Fun)
                    },
                    _ => TokenType::Identifier,
                }
            },
            'n' => {
                proof {
                    reveal_strlit("il");
                    lemma_keyword_tail(lexeme, seq!['n', 'i', 'l'], 1, "il"@);
                }
                self.check_keyword(1, 2, "il", TokenType::Nil)
            },
            'o' => {
                proof {
                    reveal_strlit("r");
                    lemma_keyword_tail(lexeme, seq!['o', 'r'], 1, "r"@);
                }
                self.check_keyword(1, 1, "r", TokenType::Or)
            },
            'p' => {
                proof {
                    reveal_strlit("rint");
                    lemma_keyword_tail(lexeme, seq!['p', 'r', 'i', 'n', 't'], 1, "rint"@);
                }
                self.check_keyword(1, 4, "rint", TokenType::Print)
            },
            'r' => {
                proof {
                    reveal_strlit("eturn");
                    lemma_keyword_tail(lexeme, seq!['r', 'e', 't', 'u', 'r', 'n'], 1, "eturn"@);
                }
                self.check_keyword(1, 5, "eturn", TokenType::Return)
            },
            's' => {
                proof {
                    reveal_strlit("uper");
                    lemma_keyword_tail(lexeme, seq!['s', 'u', 'p', 'e', 'r'], 1, "uper"@);
                }
                self.check_keyword(1, 4, "uper", TokenType::Super)
            },
            't' if self.current - self.start > 1 => {
                match self.source[self.start + 1] {
                    'h' => {
                        proof {
                            reveal_strlit("is");
                            lemma_keyword_tail(lexeme, seq!['t', 'h', 'i', 's'], 2, "is"@);
                        }
                        self.check_keyword(2, 2, "is", TokenType::This)
                    },
                    'r' => {
                        proof {
                            reveal_strlit("ue");
                            lemma_keyword_tail(lexeme, seq!['t', 'r', 'u', 'e'], 2, "ue"@);
                        }
                        self.check_keyword(2, 2, "ue", TokenType::True)
                    },
                    _ => TokenType::Identifier,
                }
            },
            'v' => {
                proof {
                    reveal_strlit("ar");
                    lemma_keyword_tail(lexeme, seq!['v', 'a', 'r'], 1, "ar"@);
                }
                self.check_keyword(1, 2, "ar", TokenType::Var)
            },
            'w' => {
                proof {
                    reveal_strlit("hile");
                    lemma_keyword_tail(lexeme, seq!['w', 'h', 'i', 'l', 'e'], 1, "hile"@);
                }
                self.check_keyword(1, 4, "hile", TokenType::While)
            },
            _ => TokenType::Identifier,
        }
    }

    /// Returns the next token in the source.
    pub fn scan_token(&mut self) -> (t: Token)
        requires
            old(self)@.wf(),
        ensures
            final(self)@.wf(),
            (final(self)@, t@) == old(self)@.scan_token(),
    {
        proof {
            lemma_skip_blank_bounds(self@.source, self@.current as int, self@.line, false);
        }
        self.skip_whitespace();
        self.start = self.current;

        if self.is_at_end() {
            let t = self.make_token(TokenType::Eof);
            assert(t@.lexeme =~= Seq::<char>::empty());
            return t;
        }
        proof {
            lemma_lex_bounds(self@.source, self@.start as int, self@.line);
        }
        let c = self.advance();
        match c {
            '(' => self.make_token(TokenType::LeftParen),
            ')' => self.make_token(TokenType::RightParen),
            '{' => self.make_token(TokenType::LeftBrace),
            '}' => self.make_token(TokenType::RightBrace),
            ';' => self.make_token(TokenType::Semicolon),
            ',' => self.make_token(TokenType::Comma),
            '.' => self.make_token(TokenType::Dot),
            '-' => self.make_token(TokenType::Minus),
            '+' => self.make_token(TokenType::Plus),
            '/' => self.make_token(TokenType::Slash),
            '*' => self.make_token(TokenType::Star),
            '!' => {
                if self.my_match('=') {
                    self.make_token(TokenType::BangEqual)
                } else {
                    self.make_token(TokenType::Bang)
                }
            },
            '=' => {
                if self.my_match('=') {
                    self.make_token(TokenType::EqualEqual)
                } else {
                    self.make_token(TokenType::Equal)
                }
            },
            '<' => {
                if self.my_match('=') {
                    self.make_token(TokenType::LessEqual)
                } else {
                    self.make_token(TokenType::Less)
                }
            },
            '>' => {
                if self.my_match('=') {
                    self.make_token(TokenType::GreaterEqual)
                } else {
                    self.make_token(TokenType::Greater)
                }
            },
            '"' => self.make_string(),
            _ => {
                if digit_char(c) {
                    self.make_number()
                } else if alpha_char(c) {
                    self.make_identifier()
                } else {
                    self.error_token("Unexpected character.")
                }
            },
        }
    }
}

/// The lexemes of the number tokens that the scanner reads from where it stands, in their
/// order.
pub open spec fn number_lexemes_from(s: ScannerView) -> Seq<Seq<char>>
    decreases s.source.len() - s.current,
{
    let (next, token) = s.scan_token();
    if token.token_type == TokenType::Eof || !(s.current < next.current <= s.source.len()
        && next.source == s.source) {
        Seq::empty()
    } else if token.token_type == TokenType::Number {
        seq![token.lexeme] + number_lexemes_from(next)
    } else {
        number_lexemes_from(next)
    }
}

/// The lexemes of the number literals of a source, in the order of the source.
pub open spec fn number_lexemes_spec(source: Seq<char>) -> Seq<Seq<char>> {
    number_lexemes_from(ScannerView::init(source))
}

/// The lexemes of the number literals of a source, in the order of the source. The values of
/// these literals are what a compilation of the source asks for.
pub fn number_lexemes(source: &str) -> (r: Vec<String>)
    ensures
        strings_view(r@) == number_lexemes_spec(source@),
{
    let mut scanner = Scanner::new();
    scanner.init_scanner(source);
    let mut out: Vec<String> = Vec::new();
    loop
        invariant
            scanner@.wf(),
            strings_view(out@) + number_lexemes_from(scanner@) == number_lexemes_spec(source@),
        decreases scanner@.source.len() - scanner@.current,
    {
        proof {
            lemma_scan_token_progress(scanner@);
        }
        let ghost before = strings_view(out@);
        let token = scanner.scan_token();
        match token.token_type {
            TokenType::Eof => {
                assert(strings_view(out@) + Seq::<Seq<char>>::empty() =~= strings_view(out@));
                return out;
            },
            TokenType::Number => {
                out.push(token.lexeme);
                assert(strings_view(out@) =~= before + seq![token@.lexeme]);
                assert(strings_view(out@) + number_lexemes_from(scanner@) =~= before + (
                seq![token@.lexeme] + number_lexemes_from(scanner@)));
            },
            _ => {},
        }
    }
}

} // verus!
