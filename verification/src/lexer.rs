//! The tokens of a script, read the way Rust reads the tokens of a macro's
//! input: identifiers, single punctuation characters that know whether the
//! next character is punctuation too, string and number literals, and
//! matched delimiters. A number literal's value is asked of the embedder.
use vstd::prelude::*;
use crate::number::JsNumber;
use crate::numeric::{NumericRequest, NumericReply, RequestModel, ReplyModel, replies_model};
use crate::machine::{Machine, Halt, HaltModel, WorldModel, Outcome, ask};

verus! {

#[derive(Clone, Copy, Debug, PartialEq, Eq, Structural)]
pub enum Delim {
    Paren,
    Bracket,
    Brace,
}

/// What went wrong while reading a script, and where: a character index
/// while reading tokens, a token index while parsing.
#[derive(Clone, Copy, Debug, PartialEq, Eq, Structural)]
pub enum SyntaxError {
    UnexpectedCharacter(usize),
    UnterminatedString(usize),
    UnknownEscape(usize),
    UnterminatedComment(usize),
    MalformedNumber(usize),
    UnbalancedDelimiter(usize),
    ExpectedToken(usize, Expectation),
    ExpectedExpression(usize),
    ExpectedIdentifier(usize),
    ExpectedPropertyKey(usize),
    PropertyNeedsValue(usize),
    TryNeedsHandler(usize),
    InvalidUpdateTarget(usize),
    UnexpectedToken(usize),
}

/// The text that describes a syntax error.
pub open spec fn syntax_message(e: SyntaxError) -> Seq<char> {
    match e {
        SyntaxError::UnexpectedCharacter(_) => "unexpected character"@,
        SyntaxError::UnterminatedString(_) => "unterminated string literal"@,
        SyntaxError::UnknownEscape(_) => "unknown character escape"@,
        SyntaxError::UnterminatedComment(_) => "unterminated block comment"@,
        SyntaxError::MalformedNumber(_) => "invalid number literal"@,
        SyntaxError::UnbalancedDelimiter(_) => "unbalanced delimiter"@,
        SyntaxError::ExpectedToken(_, Expectation::Semicolon) => "expected `;`"@,
        SyntaxError::ExpectedToken(_, Expectation::Comma) => "expected `,`"@,
        SyntaxError::ExpectedToken(_, Expectation::Assign) => "expected `=`"@,
        SyntaxError::ExpectedToken(_, Expectation::Parenthesis) => "expected parentheses"@,
        SyntaxError::ExpectedToken(_, Expectation::Brace) => "expected curly braces"@,
        SyntaxError::ExpectedToken(_, Expectation::While) => "expected `while`"@,
        SyntaxError::ExpectedExpression(_) => "expected expression"@,
        SyntaxError::ExpectedIdentifier(_) => "expected identifier"@,
        SyntaxError::ExpectedPropertyKey(_) => "expected object property key"@,
        SyntaxError::PropertyNeedsValue(_) => "quoted object property keys require a value"@,
        SyntaxError::TryNeedsHandler(_) => "try requires catch and/or finally"@,
        SyntaxError::InvalidUpdateTarget(_) => "invalid update target"@,
        SyntaxError::UnexpectedToken(_) => "unexpected token"@,
    }
}

/// Where a syntax error stands: a character index while reading tokens, a
/// token index while parsing.
pub open spec fn syntax_position(e: SyntaxError) -> nat {
    match e {
        SyntaxError::UnexpectedCharacter(i) => i as nat,
        SyntaxError::UnterminatedString(i) => i as nat,
        SyntaxError::UnknownEscape(i) => i as nat,
        SyntaxError::UnterminatedComment(i) => i as nat,
        SyntaxError::MalformedNumber(i) => i as nat,
        SyntaxError::UnbalancedDelimiter(i) => i as nat,
        SyntaxError::ExpectedExpression(i) => i as nat,
        SyntaxError::ExpectedIdentifier(i) => i as nat,
        SyntaxError::ExpectedPropertyKey(i) => i as nat,
        SyntaxError::PropertyNeedsValue(i) => i as nat,
        SyntaxError::TryNeedsHandler(i) => i as nat,
        SyntaxError::InvalidUpdateTarget(i) => i as nat,
        SyntaxError::UnexpectedToken(i) => i as nat,
        SyntaxError::ExpectedToken(i, _) => i as nat,
    }
}

impl SyntaxError {
    /// The text that describes the error.
    pub fn message(&self) -> (r: String)
        ensures
            r@ == syntax_message(*self),
    {
        match self {
            SyntaxError::UnexpectedCharacter(_) => crate::text::text("unexpected character"),
            SyntaxError::UnterminatedString(_) => crate::text::text("unterminated string literal"),
            SyntaxError::UnknownEscape(_) => crate::text::text("unknown character escape"),
            SyntaxError::UnterminatedComment(_) => crate::text::text("unterminated block comment"),
            SyntaxError::MalformedNumber(_) => crate::text::text("invalid number literal"),
            SyntaxError::UnbalancedDelimiter(_) => crate::text::text("unbalanced delimiter"),
            SyntaxError::ExpectedToken(_, Expectation::Semicolon) => crate::text::text("expected `;`"),
            SyntaxError::ExpectedToken(_, Expectation::Comma) => crate::text::text("expected `,`"),
            SyntaxError::ExpectedToken(_, Expectation::Assign) => crate::text::text("expected `=`"),
            SyntaxError::ExpectedToken(_, Expectation::Parenthesis) => crate::text::text("expected parentheses"),
            SyntaxError::ExpectedToken(_, Expectation::Brace) => crate::text::text("expected curly braces"),
            SyntaxError::ExpectedToken(_, Expectation::While) => crate::text::text("expected `while`"),
            SyntaxError::ExpectedExpression(_) => crate::text::text("expected expression"),
            SyntaxError::ExpectedIdentifier(_) => crate::text::text("expected identifier"),
            SyntaxError::ExpectedPropertyKey(_) => crate::text::text("expected object property key"),
            SyntaxError::PropertyNeedsValue(_) => crate::text::text("quoted object property keys require a value"),
            SyntaxError::TryNeedsHandler(_) => crate::text::text("try requires catch and/or finally"),
            SyntaxError::InvalidUpdateTarget(_) => crate::text::text("invalid update target"),
            SyntaxError::UnexpectedToken(_) => crate::text::text("unexpected token"),
        }
    }

    /// Where the error stands.
    pub fn position(&self) -> (r: usize)
        ensures
            r == syntax_position(*self),
    {
        match self {
            SyntaxError::UnexpectedCharacter(i) => *i,
            SyntaxError::UnterminatedString(i) => *i,
            SyntaxError::UnknownEscape(i) => *i,
            SyntaxError::UnterminatedComment(i) => *i,
            SyntaxError::MalformedNumber(i) => *i,
            SyntaxError::UnbalancedDelimiter(i) => *i,
            SyntaxError::ExpectedExpression(i) => *i,
            SyntaxError::ExpectedIdentifier(i) => *i,
            SyntaxError::ExpectedPropertyKey(i) => *i,
            SyntaxError::PropertyNeedsValue(i) => *i,
            SyntaxError::TryNeedsHandler(i) => *i,
            SyntaxError::InvalidUpdateTarget(i) => *i,
            SyntaxError::UnexpectedToken(i) => *i,
            SyntaxError::ExpectedToken(i, _) => *i,
        }
    }
}

/// A token the parser required.
#[derive(Clone, Copy, Debug, PartialEq, Eq, Structural)]
pub enum Expectation {
    Semicolon,
    Comma,
    Assign,
    Parenthesis,
    Brace,
    While,
}

/// A token.
#[derive(Debug)]
pub enum Token {
    Ident(String),
    /// A punctuation character, and whether the next character is punctuation too.
    Punct(char, bool),
    /// A string literal's value.
    Str(String),
    /// A number literal's value.
    Num(JsNumber),
    /// An opening delimiter and the index of its closing token.
    Open(Delim, usize),
    Close(Delim),
}

pub enum TokenModel {
    Ident(Seq<char>),
    Punct(char, bool),
    Str(Seq<char>),
    Num(JsNumber),
    Open(Delim, nat),
    Close(Delim),
}

impl View for Token {
    type V = TokenModel;

    open spec fn view(&self) -> TokenModel {
        match self {
            Token::Ident(s) => TokenModel::Ident(s@),
            Token::Punct(c, j) => TokenModel::Punct(*c, *j),
            Token::Str(s) => TokenModel::Str(s@),
            Token::Num(n) => TokenModel::Num(*n),
            Token::Open(d, i) => TokenModel::Open(*d, *i as nat),
            Token::Close(d) => TokenModel::Close(*d),
        }
    }
}

#[verifier::opaque]
pub open spec fn tokens_model(s: Seq<Token>) -> Seq<TokenModel> {
    s.map_values(|t: Token| t@)
}

pub open spec fn stack_model(s: Seq<(Delim, usize)>) -> Seq<(Delim, nat)> {
    s.map_values(|e: (Delim, usize)| (e.0, e.1 as nat))
}

// ---------------------------------------------------------------------------
// Characters
// ---------------------------------------------------------------------------

pub open spec fn is_ident_start(c: char) -> bool {
    ('a' <= c && c <= 'z') || ('A' <= c && c <= 'Z') || c == '_'
}

pub open spec fn is_digit(c: char) -> bool {
    '0' <= c && c <= '9'
}

pub open spec fn is_ident_char(c: char) -> bool {
    is_ident_start(c) || is_digit(c)
}

pub open spec fn is_punct_char(c: char) -> bool {
    c == '=' || c == '<' || c == '>' || c == '!' || c == '~' || c == '+' || c == '-' || c == '*' || c == '/'
        || c == '%' || c == '^' || c == '&' || c == '|' || c == '@' || c == '.' || c == ',' || c == ';'
        || c == ':' || c == '#' || c == '$' || c == '?'
}

pub open spec fn is_space(c: char) -> bool {
    c == ' ' || c == '\t' || c == '\n' || c == '\r'
}

pub open spec fn open_delim(c: char) -> Option<Delim> {
    if c == '(' {
        Some(Delim::Paren)
    } else if c == '[' {
        Some(Delim::Bracket)
    } else if c == '{' {
        Some(Delim::Brace)
    } else {
        None
    }
}

pub open spec fn close_delim(c: char) -> Option<Delim> {
    if c == ')' {
        Some(Delim::Paren)
    } else if c == ']' {
        Some(Delim::Bracket)
    } else if c == '}' {
        Some(Delim::Brace)
    } else {
        None
    }
}

/// The end of the identifier characters from `i`.
pub open spec fn ident_end(s: Seq<char>, i: nat) -> nat
    decreases s.len() - i,
{
    if i < s.len() && is_ident_char(s[i as int]) {
        ident_end(s, i + 1)
    } else {
        i
    }
}

/// The end of the digits and underscores from `i`.
pub open spec fn digits_end(s: Seq<char>, i: nat) -> nat
    decreases s.len() - i,
{
    if i < s.len() && (is_digit(s[i as int]) || s[i as int] == '_') {
        digits_end(s, i + 1)
    } else {
        i
    }
}

/// The index of the line break at or after `i`, or the end of the text.
pub open spec fn line_end(s: Seq<char>, i: nat) -> nat
    decreases s.len() - i,
{
    if i < s.len() && s[i as int] != '\n' {
        line_end(s, i + 1)
    } else {
        i
    }
}

/// The index just after the first `*/` at or after `i`, if there is one.
pub open spec fn comment_end(s: Seq<char>, i: nat) -> Option<nat>
    decreases s.len() - i,
{
    if i + 1 < s.len() {
        if s[i as int] == '*' && s[(i + 1) as int] == '/' {
            Some(i + 2)
        } else {
            comment_end(s, i + 1)
        }
    } else {
        None
    }
}

/// The end of a number literal that starts with a digit at `i`: digits, an
/// optional fraction (a dot followed by a digit), an optional exponent.
pub open spec fn number_end(s: Seq<char>, i: nat) -> nat {
    let a = digits_end(s, i);
    let b = if a + 1 < s.len() && s[a as int] == '.' && is_digit(s[(a + 1) as int]) { digits_end(s, a + 1) } else { a };
    if b < s.len() && (s[b as int] == 'e' || s[b as int] == 'E') {
        let d = if b + 1 < s.len() && (s[(b + 1) as int] == '+' || s[(b + 1) as int] == '-') { b + 2 } else { b + 1 };
        if d < s.len() && is_digit(s[d as int]) { digits_end(s, d) } else { b }
    } else {
        b
    }
}

/// A text without its underscores.
pub open spec fn without_underscores(s: Seq<char>) -> Seq<char>
    decreases s.len(),
{
    if s.len() == 0 {
        s
    } else {
        let rest = without_underscores(s.drop_last());
        if s.last() == '_' { rest } else { rest.push(s.last()) }
    }
}

/// The character an escape letter stands for in a string literal.
pub open spec fn escaped(c: char) -> Option<char> {
    if c == 'n' {
        Some('\n')
    } else if c == 't' {
        Some('\t')
    } else if c == 'r' {
        Some('\r')
    } else if c == '0' {
        Some('\0')
    } else if c == '\\' || c == '"' || c == '\'' {
        Some(c)
    } else {
        None
    }
}

/// The rest of a string literal from `i`, with the value read so far: its
/// value and the index after the closing quote.
pub open spec fn string_scan(s: Seq<char>, i: nat, acc: Seq<char>, start: nat) -> Result<(Seq<char>, nat), SyntaxError>
    decreases s.len() - i,
{
    if i >= s.len() {
        Err(SyntaxError::UnterminatedString(start as usize))
    } else if s[i as int] == '"' {
        Ok((acc, i + 1))
    } else if s[i as int] == '\\' {
        if i + 1 >= s.len() {
            Err(SyntaxError::UnterminatedString(start as usize))
        } else {
            match escaped(s[(i + 1) as int]) {
                Some(c) => string_scan(s, i + 2, acc.push(c), start),
                None => Err(SyntaxError::UnknownEscape(i as usize)),
            }
        }
    } else {
        string_scan(s, i + 1, acc.push(s[i as int]), start)
    }
}

pub proof fn lemma_ident_end(s: Seq<char>, i: nat)
    requires
        i <= s.len(),
    ensures
        i <= ident_end(s, i) <= s.len(),
    decreases s.len() - i,
{
    if i < s.len() && is_ident_char(s[i as int]) {
        lemma_ident_end(s, i + 1);
    }
}

pub proof fn lemma_digits_end(s: Seq<char>, i: nat)
    requires
        i <= s.len(),
    ensures
        i <= digits_end(s, i) <= s.len(),
    decreases s.len() - i,
{
    if i < s.len() && (is_digit(s[i as int]) || s[i as int] == '_') {
        lemma_digits_end(s, i + 1);
    }
}

pub proof fn lemma_line_end(s: Seq<char>, i: nat)
    requires
        i <= s.len(),
    ensures
        i <= line_end(s, i) <= s.len(),
    decreases s.len() - i,
{
    if i < s.len() && s[i as int] != '\n' {
        lemma_line_end(s, i + 1);
    }
}

pub proof fn lemma_comment_end(s: Seq<char>, i: nat)
    ensures
        comment_end(s, i) matches Some(j) ==> i + 2 <= j <= s.len(),
    decreases s.len() - i,
{
    if i + 1 < s.len() && !(s[i as int] == '*' && s[(i + 1) as int] == '/') {
        lemma_comment_end(s, i + 1);
    }
}

pub proof fn lemma_number_end(s: Seq<char>, i: nat)
    requires
        i < s.len(),
        is_digit(s[i as int]),
    ensures
        i < number_end(s, i) <= s.len(),
{
    lemma_digits_end(s, i);
    let a = digits_end(s, i);
    if a + 1 < s.len() && s[a as int] == '.' && is_digit(s[(a + 1) as int]) {
        lemma_digits_end(s, a + 1);
    }
    let b = if a + 1 < s.len() && s[a as int] == '.' && is_digit(s[(a + 1) as int]) { digits_end(s, a + 1) } else { a };
    let d = if b + 1 < s.len() && (s[(b + 1) as int] == '+' || s[(b + 1) as int] == '-') { b + 2 } else { b + 1 };
    if d < s.len() {
        lemma_digits_end(s, d);
    }
}

pub proof fn lemma_string_scan(s: Seq<char>, i: nat, acc: Seq<char>, start: nat)
    ensures
        string_scan(s, i, acc, start) matches Ok((_, j)) ==> i < j <= s.len(),
    decreases s.len() - i,
{
    if i < s.len() && s[i as int] != '"' {
        if s[i as int] == '\\' {
            if i + 1 < s.len() {
                match escaped(s[(i + 1) as int]) {
                    Some(c) => lemma_string_scan(s, i + 2, acc.push(c), start),
                    None => {},
                }
            }
        } else {
            lemma_string_scan(s, i + 1, acc.push(s[i as int]), start);
        }
    }
}

/// The tokens of a text from index `i`, with the tokens read so far and the
/// opening delimiters not closed yet (with their token indices).
pub open spec fn lex_from(
    s: Seq<char>,
    i: nat,
    toks: Seq<TokenModel>,
    stack: Seq<(Delim, nat)>,
    w: WorldModel,
    tape: Seq<ReplyModel>,
) -> Outcome<Result<Seq<TokenModel>, SyntaxError>>
    decreases s.len() - i,
{
    if i >= s.len() {
        if stack.len() == 0 {
            Ok((w, Ok(toks)))
        } else {
            Ok((w, Err(SyntaxError::UnbalancedDelimiter(s.len() as usize))))
        }
    } else {
        let c = s[i as int];
        let next_is = |d: char| i + 1 < s.len() && s[(i + 1) as int] == d;
        if is_space(c) {
            lex_from(s, i + 1, toks, stack, w, tape)
        } else if c == '/' && next_is('/') {
            proof { lemma_line_end(s, i + 2); }
            lex_from(s, line_end(s, i + 2), toks, stack, w, tape)
        } else if c == '/' && next_is('*') {
            proof { lemma_comment_end(s, i + 2); }
            match comment_end(s, i + 2) {
                Some(j) => lex_from(s, j, toks, stack, w, tape),
                None => Ok((w, Err(SyntaxError::UnterminatedComment(i as usize)))),
            }
        } else if is_ident_start(c) {
            proof { lemma_ident_end(s, i + 1); }
            let e = ident_end(s, i + 1);
            lex_from(s, e, toks.push(TokenModel::Ident(s.subrange(i as int, e as int))), stack, w, tape)
        } else if is_digit(c) {
            proof { lemma_number_end(s, i); }
            let e = number_end(s, i);
            if e < s.len() && is_ident_char(s[e as int]) {
                Ok((w, Err(SyntaxError::MalformedNumber(i as usize))))
            } else {
                match ask(w, tape, RequestModel::Parse(without_underscores(s.subrange(i as int, e as int)))) {
                    Err(h) => Err(h),
                    Ok((w1, ReplyModel::Number(n))) => lex_from(s, e, toks.push(TokenModel::Num(n)), stack, w1, tape),
                    Ok(_) => Err(HaltModel::UnexpectedReply),
                }
            }
        } else if c == '"' {
            proof { lemma_string_scan(s, i + 1, Seq::empty(), i); }
            match string_scan(s, i + 1, Seq::empty(), i) {
                Ok((v, j)) => lex_from(s, j, toks.push(TokenModel::Str(v)), stack, w, tape),
                Err(e) => Ok((w, Err(e))),
            }
        } else if open_delim(c) is Some {
            let d = open_delim(c).unwrap();
            lex_from(s, i + 1, toks.push(TokenModel::Open(d, 0)), stack.push((d, toks.len())), w, tape)
        } else if close_delim(c) is Some {
            let d = close_delim(c).unwrap();
            if stack.len() > 0 && stack.last().0 == d {
                lex_from(
                    s,
                    i + 1,
                    toks.update(stack.last().1 as int, TokenModel::Open(d, toks.len())).push(TokenModel::Close(d)),
                    stack.drop_last(),
                    w,
                    tape,
                )
            } else {
                Ok((w, Err(SyntaxError::UnbalancedDelimiter(i as usize))))
            }
        } else if is_punct_char(c) {
            lex_from(s, i + 1, toks.push(TokenModel::Punct(c, i + 1 < s.len() && is_punct_char(s[(i + 1) as int]))), stack, w, tape)
        } else {
            Ok((w, Err(SyntaxError::UnexpectedCharacter(i as usize))))
        }
    }
}

/// The tokens of a text.
pub open spec fn lex(s: Seq<char>, w: WorldModel, tape: Seq<ReplyModel>) -> Outcome<Result<Seq<TokenModel>, SyntaxError>> {
    lex_from(s, 0, Seq::empty(), Seq::empty(), w, tape)
}

// ---------------------------------------------------------------------------
// Executable lexer
// ---------------------------------------------------------------------------

fn ident_start(c: char) -> (r: bool)
    ensures
        r == is_ident_start(c),
{
    ('a' <= c && c <= 'z') || ('A' <= c && c <= 'Z') || c == '_'
}

fn digit(c: char) -> (r: bool)
    ensures
        r == is_digit(c),
{
    '0' <= c && c <= '9'
}

fn ident_char(c: char) -> (r: bool)
    ensures
        r == is_ident_char(c),
{
    ident_start(c) || digit(c)
}

fn punct_char(c: char) -> (r: bool)
    ensures
        r == is_punct_char(c),
{
    c == '=' || c == '<' || c == '>' || c == '!' || c == '~' || c == '+' || c == '-' || c == '*' || c == '/'
        || c == '%' || c == '^' || c == '&' || c == '|' || c == '@' || c == '.' || c == ',' || c == ';'
        || c == ':' || c == '#' || c == '$' || c == '?'
}

fn space(c: char) -> (r: bool)
    ensures
        r == is_space(c),
{
    c == ' ' || c == '\t' || c == '\n' || c == '\r'
}

fn open_of(c: char) -> (r: Option<Delim>)
    ensures
        r == open_delim(c),
{
    if c == '(' {
        Some(Delim::Paren)
    } else if c == '[' {
        Some(Delim::Bracket)
    } else if c == '{' {
        Some(Delim::Brace)
    } else {
        None
    }
}

fn close_of(c: char) -> (r: Option<Delim>)
    ensures
        r == close_delim(c),
{
    if c == ')' {
        Some(Delim::Paren)
    } else if c == ']' {
        Some(Delim::Bracket)
    } else if c == '}' {
        Some(Delim::Brace)
    } else {
        None
    }
}

fn ident_end_at(s: &str, n: usize, i: usize) -> (e: usize)
    requires
        n == s@.len(),
        i <= n,
    ensures
        e == ident_end(s@, i as nat),
{
    let mut k = i;
    while k < n && ident_char(s.get_char(k))
        invariant
            n == s@.len(),
            i <= k <= n,
            ident_end(s@, i as nat) == ident_end(s@, k as nat),
        decreases n - k,
    {
        k += 1;
    }
    k
}

fn digits_end_at(s: &str, n: usize, i: usize) -> (e: usize)
    requires
        n == s@.len(),
        i <= n,
    ensures
        e == digits_end(s@, i as nat),
{
    let mut k = i;
    while k < n && (digit(s.get_char(k)) || s.get_char(k) == '_')
        invariant
            n == s@.len(),
            i <= k <= n,
            digits_end(s@, i as nat) == digits_end(s@, k as nat),
        decreases n - k,
    {
        k += 1;
    }
    k
}

fn line_end_at(s: &str, n: usize, i: usize) -> (e: usize)
    requires
        n == s@.len(),
        i <= n,
    ensures
        e == line_end(s@, i as nat),
{
    let mut k = i;
    while k < n && s.get_char(k) != '\n'
        invariant
            n == s@.len(),
            i <= k <= n,
            line_end(s@, i as nat) == line_end(s@, k as nat),
        decreases n - k,
    {
        k += 1;
    }
    k
}

fn comment_end_at(s: &str, n: usize, i: usize) -> (e: Option<usize>)
    requires
        n == s@.len(),
        i <= n,
    ensures
        match comment_end(s@, i as nat) {
            Some(j) => e == Some(j as usize),
            None => e is None,
        },
{
    let mut k = i;
    while k < n && k + 1 < n
        invariant
            n == s@.len(),
            i <= k <= n,
            comment_end(s@, i as nat) == comment_end(s@, k as nat),
        decreases n - k,
    {
        if s.get_char(k) == '*' && s.get_char(k + 1) == '/' {
            return Some(k + 2);
        }
        k += 1;
    }
    None
}

fn number_end_at(s: &str, n: usize, i: usize) -> (e: usize)
    requires
        n == s@.len(),
        i < n,
        is_digit(s@[i as int]),
    ensures
        e == number_end(s@, i as nat),
{
    let a = digits_end_at(s, n, i);
    proof { lemma_digits_end(s@, i as nat); }
    let b = if a < n && a + 1 < n && s.get_char(a) == '.' && digit(s.get_char(a + 1)) {
        digits_end_at(s, n, a + 1)
    } else {
        a
    };
    proof { if a + 1 < n { lemma_digits_end(s@, (a + 1) as nat); } }
    if b < n && (s.get_char(b) == 'e' || s.get_char(b) == 'E') {
        let d = if b + 1 < n && (s.get_char(b + 1) == '+' || s.get_char(b + 1) == '-') { b + 2 } else { b + 1 };
        if d < n && digit(s.get_char(d)) {
            digits_end_at(s, n, d)
        } else {
            b
        }
    } else {
        b
    }
}

/// The characters from `i` to `e`, without underscores.
fn digits_text(s: &str, n: usize, i: usize, e: usize) -> (r: String)
    requires
        n == s@.len(),
        i <= e <= n,
    ensures
        r@ == without_underscores(s@.subrange(i as int, e as int)),
{
    let mut out = String::new();
    let mut k = i;
    assert(s@.subrange(i as int, i as int) =~= Seq::<char>::empty());
    while k < e
        invariant
            n == s@.len(),
            i <= k <= e <= n,
            out@ == without_underscores(s@.subrange(i as int, k as int)),
        decreases e - k,
    {
        proof {
            assert(s@.subrange(i as int, k + 1).drop_last() =~= s@.subrange(i as int, k as int));
            assert(s@.subrange(i as int, k + 1).last() == s@[k as int]);
        }
        if s.get_char(k) != '_' {
            out.append(crate::json::char_at(s, k));
        }
        k += 1;
    }
    out
}

/// The character an escape letter stands for, as a text.
fn escape_text_of(c: char) -> (r: Option<String>)
    ensures
        match escaped(c) {
            Some(x) => r matches Some(t) && t@ == seq![x],
            None => r is None,
        },
{
    if c == 'n' {
        proof { reveal_strlit("\n"); }
        Some(crate::text::text("\n"))
    } else if c == 't' {
        proof { reveal_strlit("\t"); }
        Some(crate::text::text("\t"))
    } else if c == 'r' {
        proof { reveal_strlit("\r"); }
        Some(crate::text::text("\r"))
    } else if c == '0' {
        proof { reveal_strlit("\0"); }
        Some(crate::text::text("\0"))
    } else if c == '\\' {
        proof { reveal_strlit("\\"); }
        Some(crate::text::text("\\"))
    } else if c == '"' {
        proof { reveal_strlit("\""); }
        Some(crate::text::text("\""))
    } else if c == '\'' {
        proof { reveal_strlit("'"); }
        Some(crate::text::text("'"))
    } else {
        None
    }
}

/// A string literal's value from `i`, and the index after its closing quote.
fn scan_string(s: &str, n: usize, i: usize, start: usize) -> (r: Result<(String, usize), SyntaxError>)
    requires
        n == s@.len(),
        i <= n,
    ensures
        match string_scan(s@, i as nat, Seq::empty(), start as nat) {
            Ok((v, j)) => r matches Ok((x, k)) && x@ == v && k == j,
            Err(e) => r == Err::<(String, usize), SyntaxError>(e),
        },
{
    let mut acc = String::new();
    let mut k = i;
    while k < n
        invariant
            n == s@.len(),
            i <= k <= n,
            string_scan(s@, i as nat, Seq::empty(), start as nat) == string_scan(s@, k as nat, acc@, start as nat),
        decreases n - k,
    {
        let c = s.get_char(k);
        if c == '"' {
            return Ok((acc, k + 1));
        } else if c == '\\' {
            if k + 1 >= n {
                return Err(SyntaxError::UnterminatedString(start));
            }
            match escape_text_of(s.get_char(k + 1)) {
                Some(t) => {
                    let ghost before = acc@;
                    acc.append(t.as_str());
                    assert(acc@ =~= before.push(escaped(s@[k + 1]).unwrap()));
                    k += 2;
                },
                None => {
                    return Err(SyntaxError::UnknownEscape(k));
                },
            }
        } else {
            let ghost before = acc@;
            acc.append(crate::json::char_at(s, k));
            assert(acc@ =~= before.push(s@[k as int]));
            k += 1;
        }
    }
    Err(SyntaxError::UnterminatedString(start))
}

impl Machine {
    /// The tokens of a script; see `lex`.
    pub fn tokenize(&mut self, source: &str, tape: &Vec<NumericReply>) -> (r: Result<Result<Vec<Token>, SyntaxError>, Halt>)
        ensures
            match lex(source@, old(self)@, replies_model(tape@)) {
                Ok((w2, Ok(ts))) => r matches Ok(Ok(x)) && tokens_model(x@) == ts && final(self)@ == w2,
                Ok((w2, Err(e))) => r == Ok::<Result<Vec<Token>, SyntaxError>, Halt>(Err(e)) && final(self)@ == w2,
                Err(h) => r matches Err(e) && e@ == h,
            },
    {
        reveal(tokens_model);
        let ghost s = source@;
        let ghost tm = replies_model(tape@);
        let n = source.unicode_len();
        let mut i: usize = 0;
        let mut toks: Vec<Token> = Vec::new();
        let mut stack: Vec<(Delim, usize)> = Vec::new();
        assert(tokens_model(toks@) =~= Seq::<TokenModel>::empty());
        assert(stack_model(stack@) =~= Seq::<(Delim, nat)>::empty());
        loop
            invariant
                n == s.len(),
                s == source@,
                i <= n,
                tm == replies_model(tape@),
                forall|k: int| 0 <= k < stack@.len() ==> (#[trigger] stack@[k]).1 < toks@.len(),
                lex(s, old(self)@, tm) == lex_from(s, i as nat, tokens_model(toks@), stack_model(stack@), self@, tm),
            decreases n - i,
        {
            reveal(tokens_model);
            if i >= n {
                if stack.len() == 0 {
                    return Ok(Ok(toks));
                } else {
                    return Ok(Err(SyntaxError::UnbalancedDelimiter(n)));
                }
            }
            let c = source.get_char(i);
            if space(c) {
                i += 1;
            } else if c == '/' && i + 1 < n && source.get_char(i + 1) == '/' {
                proof { lemma_line_end(s, (i + 2) as nat); }
                i = line_end_at(source, n, i + 2);
            } else if c == '/' && i + 1 < n && source.get_char(i + 1) == '*' {
                proof { lemma_comment_end(s, (i + 2) as nat); }
                match comment_end_at(source, n, i + 2) {
                    Some(j) => {
                        i = j;
                    },
                    None => {
                        return Ok(Err(SyntaxError::UnterminatedComment(i)));
                    },
                }
            } else if ident_start(c) {
                proof { lemma_ident_end(s, (i + 1) as nat); }
                let e = ident_end_at(source, n, i + 1);
                let t = Token::Ident(source.substring_char(i, e).to_owned());
                proof { assert(tokens_model(toks@.push(t)) =~= tokens_model(toks@).push(t@)); }
                toks.push(t);
                i = e;
            } else if digit(c) {
                proof { lemma_number_end(s, i as nat); }
                let e = number_end_at(source, n, i);
                if e < n && ident_char(source.get_char(e)) {
                    return Ok(Err(SyntaxError::MalformedNumber(i)));
                }
                let digits = digits_text(source, n, i, e);
                match self.ask(tape, NumericRequest::Parse(digits))? {
                    NumericReply::Number(x) => {
                        let t = Token::Num(x);
                        proof { assert(tokens_model(toks@.push(t)) =~= tokens_model(toks@).push(t@)); }
                        toks.push(t);
                        i = e;
                    },
                    _ => {
                        return Err(Halt::UnexpectedReply);
                    },
                }
            } else if c == '"' {
                proof { lemma_string_scan(s, (i + 1) as nat, Seq::empty(), i as nat); }
                match scan_string(source, n, i + 1, i) {
                    Ok((v, j)) => {
                        let t = Token::Str(v);
                        proof { assert(tokens_model(toks@.push(t)) =~= tokens_model(toks@).push(t@)); }
                        toks.push(t);
                        i = j;
                    },
                    Err(e) => {
                        return Ok(Err(e));
                    },
                }
            } else if open_of(c).is_some() {
                let d = open_of(c).unwrap();
                let idx = toks.len();
                let t = Token::Open(d, 0);
                proof {
                    assert(tokens_model(toks@.push(t)) =~= tokens_model(toks@).push(t@));
                    assert(stack_model(stack@.push((d, idx))) =~= stack_model(stack@).push((d, idx as nat)));
                }
                toks.push(t);
                stack.push((d, idx));
                i += 1;
            } else if close_of(c).is_some() {
                let d = close_of(c).unwrap();
                if stack.len() > 0 && stack[stack.len() - 1].0 == d {
                    let oi = stack[stack.len() - 1].1;
                    let tl = toks.len();
                    let ghost before = toks@;
                    let ghost sbefore = stack@;
                    toks.set(oi, Token::Open(d, tl));
                    let t = Token::Close(d);
                    toks.push(t);
                    let _ = stack.pop();
                    proof {
                        assert(tokens_model(toks@) =~= tokens_model(before).update(oi as int, TokenModel::Open(d, tl as nat)).push(TokenModel::Close(d)));
                        assert(stack@ =~= sbefore.drop_last());
                        assert(stack_model(stack@) =~= stack_model(sbefore).drop_last());
                    }
                    i += 1;
                } else {
                    return Ok(Err(SyntaxError::UnbalancedDelimiter(i)));
                }
            } else if punct_char(c) {
                let joint = i + 1 < n && punct_char(source.get_char(i + 1));
                let t = Token::Punct(c, joint);
                proof { assert(tokens_model(toks@.push(t)) =~= tokens_model(toks@).push(t@)); }
                toks.push(t);
                i += 1;
            } else {
                return Ok(Err(SyntaxError::UnexpectedCharacter(i)));
            }
        }
    }
}

} // verus!
