use vstd::prelude::*;
use crate::tokens::{Token, TokenType, TokenModel, tokens_view};

verus! {

pub open spec fn is_digit_char(c: char) -> bool {
    '0' <= c && c <= '9'
}

/// Characters that end an identifier or operator.
pub open spec fn is_terminator(c: char) -> bool {
    c == '(' || c == ')' || c == '{' || c == '}' || c == '.' || c == ':' || c == '-'
        || is_digit_char(c) || c == '\'' || c == '"' || c == ',' || c == ' ' || c == '\n'
        || c == '\r' || c == '\t'
}

/// The kind of a one-character token.
pub open spec fn single_kind(c: char) -> Option<TokenType> {
    if c == '(' {
        Some(TokenType::LeftParen)
    } else if c == ')' {
        Some(TokenType::RightParen)
    } else if c == '{' {
        Some(TokenType::LeftBrace)
    } else if c == '}' {
        Some(TokenType::RightBrace)
    } else if c == ',' {
        Some(TokenType::Comma)
    } else if c == '.' {
        Some(TokenType::Dot)
    } else if c == ':' {
        Some(TokenType::Colon)
    } else {
        None
    }
}

/// The kind of a word: the keywords, or an identifier.
pub open spec fn word_kind(s: Seq<char>) -> TokenType {
    if s == "let"@ || s == "="@ {
        TokenType::Let
    } else if s == "true"@ {
        TokenType::True
    } else if s == "false"@ {
        TokenType::False
    } else {
        TokenType::Literal
    }
}

/// The end of the identifier or operator that continues at `j`: the first terminator, or the end.
pub open spec fn word_end(code: Seq<char>, j: int) -> int
    decreases code.len() - j,
{
    if j < 0 || j >= code.len() || is_terminator(code[j]) {
        j
    } else {
        word_end(code, j + 1)
    }
}

pub open spec fn digits_end(code: Seq<char>, j: int) -> int
    decreases code.len() - j,
{
    if j < 0 || j >= code.len() || !is_digit_char(code[j]) {
        j
    } else {
        digits_end(code, j + 1)
    }
}

/// The position of the line break that ends a comment, or the end of the input.
pub open spec fn line_end(code: Seq<char>, j: int) -> int
    decreases code.len() - j,
{
    if j < 0 || j >= code.len() || code[j] == '\n' || code[j] == '\r' {
        j
    } else {
        line_end(code, j + 1)
    }
}

/// The tokens of `code` from position `i`, with `line` the line of that position.
pub open spec fn lex(code: Seq<char>, i: int, line: usize) -> Seq<TokenModel>
    decreases code.len() - i,
{
    if i < 0 || i >= code.len() {
        Seq::empty()
    } else {
        let c = code[i];
        if single_kind(c) is Some {
            seq![(single_kind(c)->0, seq![c], line)] + lex(code, i + 1, line)
        } else if c == '\n' || c == '\r' {
            lex(code, i + 1, (line + 1) as usize)
        } else if c == ' ' || c == '\t' {
            lex(code, i + 1, line)
        } else if c == '/' && i + 1 < code.len() && code[i + 1] == '/' {
            let e = line_end(code, i + 2);
            if i < e <= code.len() {
                lex(code, e, line)
            } else {
                Seq::empty()
            }
        } else if is_digit_char(c) {
            let e = digits_end(code, i + 1);
            if i < e <= code.len() {
                seq![(TokenType::Integer, code.subrange(i, e), line)] + lex(code, e, line)
            } else {
                Seq::empty()
            }
        } else {
            let e = word_end(code, i + 1);
            if i < e <= code.len() {
                seq![(word_kind(code.subrange(i, e)), code.subrange(i, e), line)] + lex(code, e, line)
            } else {
                Seq::empty()
            }
        }
    }
}

proof fn lemma_word_end(code: Seq<char>, j: int)
    requires
        0 <= j <= code.len(),
    ensures
        j <= word_end(code, j) <= code.len(),
    decreases code.len() - j,
{
    if j < code.len() && !is_terminator(code[j]) {
        lemma_word_end(code, j + 1);
    }
}

proof fn lemma_digits_end(code: Seq<char>, j: int)
    requires
        0 <= j <= code.len(),
    ensures
        j <= digits_end(code, j) <= code.len(),
    decreases code.len() - j,
{
    if j < code.len() && is_digit_char(code[j]) {
        lemma_digits_end(code, j + 1);
    }
}

proof fn lemma_line_end(code: Seq<char>, j: int)
    requires
        0 <= j <= code.len(),
    ensures
        j <= line_end(code, j) <= code.len(),
    decreases code.len() - j,
{
    if j < code.len() && code[j] != '\n' && code[j] != '\r' {
        lemma_line_end(code, j + 1);
    }
}

/// The characters of a source text, with its current line.
struct Scanner {
    chars: Vec<char>,
    line: usize,
}

impl Scanner {
    fn new(code: &str) -> (r: Scanner)
        ensures
            r.chars@ == code@,
            r.line == 1,
    {
        let n = code.unicode_len();
        let mut chars: Vec<char> = Vec::new();
        let mut i: usize = 0;
        while i < n
            invariant
                i <= n,
                n == code@.len(),
                chars@ == code@.subrange(0, i as int),
            decreases n - i,
        {
            chars.push(code.get_char(i));
            i += 1;
            assert(chars@ =~= code@.subrange(0, i as int));
        }
        assert(code@.subrange(0, i as int) =~= code@);
        Scanner { chars, line: 1 }
    }
}

fn single_kind_exec(c: char) -> (r: Option<TokenType>)
    ensures
        r == single_kind(c),
{
    if c == '(' {
        Some(TokenType::LeftParen)
    } else if c == ')' {
        Some(TokenType::RightParen)
    } else if c == '{' {
        Some(TokenType::LeftBrace)
    } else if c == '}' {
        Some(TokenType::RightBrace)
    } else if c == ',' {
        Some(TokenType::Comma)
    } else if c == '.' {
        Some(TokenType::Dot)
    } else if c == ':' {
        Some(TokenType::Colon)
    } else {
        None
    }
}

/// A token of one character.
fn one_char_token(token_type: TokenType, code: &str, start: usize, line: usize) -> (r: Token)
    requires
        start < code@.len() < usize::MAX,
    ensures
        r.token_type == token_type,
        r.content@ == seq![code@[start as int]],
        r.line == line,
{
    let content = String::from_str(code.substring_char(start, start + 1));
    assert(content@ =~= seq![code@[start as int]]);
    Token::new(token_type, content, line)
}

/// The end of the identifier or operator whose rest starts at `j`.
fn scan_literal(chars: &Vec<char>, j: usize) -> (r: usize)
    requires
        j <= chars.len(),
    ensures
        r == word_end(chars@, j as int),
    decreases chars.len() - j,
{
    if j >= chars.len() {
        return j;
    }
    let c = chars[j];
    if c == '(' || c == ')' || c == '{' || c == '}' || c == '.' || c == ':' || c == '-'
        || ('0' <= c && c <= '9') || c == '\'' || c == '"' || c == ',' || c == ' ' || c == '\n'
        || c == '\r' || c == '\t' {
        j
    } else {
        scan_literal(chars, j + 1)
    }
}

/// The end of the run of digits whose rest starts at `j`.
fn scan_int(chars: &Vec<char>, j: usize) -> (r: usize)
    requires
        j <= chars.len(),
    ensures
        r == digits_end(chars@, j as int),
    decreases chars.len() - j,
{
    if j >= chars.len() {
        return j;
    }
    let c = chars[j];
    if '0' <= c && c <= '9' {
        scan_int(chars, j + 1)
    } else {
        j
    }
}

/// The position of the line break that ends a comment from `j`, or the end.
fn skip_comment(chars: &Vec<char>, j: usize) -> (r: usize)
    requires
        j <= chars.len(),
    ensures
        r == line_end(chars@, j as int),
    decreases chars.len() - j,
{
    if j >= chars.len() || chars[j] == '\n' || chars[j] == '\r' {
        j
    } else {
        skip_comment(chars, j + 1)
    }
}

fn word_kind_exec(s: &String) -> (r: TokenType)
    ensures
        r == word_kind(s@),
{
    if *s == String::from_str("let") || *s == String::from_str("=") {
        TokenType::Let
    } else if *s == String::from_str("true") {
        TokenType::True
    } else if *s == String::from_str("false") {
        TokenType::False
    } else {
        TokenType::Literal
    }
}

/// Splits source text into tokens, tracking lines (`\n` and `\r` each end one); `//` starts a comment.
pub fn get_tokens(code: &str) -> (r: Vec<Token>)
    requires
        code@.len() < usize::MAX,
    ensures
        tokens_view(r@) == lex(code@, 0, 1),
{
    let ghost text = code@;
    let mut scanner = Scanner::new(code);
    let n = scanner.chars.len();
    let mut tokens: Vec<Token> = Vec::new();
    let mut i: usize = 0;
    assert(tokens_view(tokens@) + lex(text, 0, 1) =~= lex(text, 0, 1));
    while i < n
        invariant
            text == code@,
            scanner.chars@ == text,
            n == text.len(),
            n < usize::MAX,
            i <= n,
            1 <= scanner.line <= i + 1,
            tokens_view(tokens@) + lex(text, i as int, scanner.line) == lex(text, 0, 1),
        decreases n - i,
    {
        let ghost before = tokens_view(tokens@);
        let line = scanner.line;
        let c = scanner.chars[i];
        match single_kind_exec(c) {
            Some(k) => {
                let t = one_char_token(k, code, i, line);
                tokens.push(t);
                assert(tokens_view(tokens@) =~= before.push((k, seq![c], line)));
                assert(tokens_view(tokens@) + lex(text, i + 1, line)
                    =~= before + lex(text, i as int, line));
                i += 1;
            },
            None => {
                if c == '\n' || c == '\r' {
                    scanner.line = scanner.line + 1;
                    i += 1;
                } else if c == ' ' || c == '\t' {
                    i += 1;
                } else if c == '/' && i + 1 < n && scanner.chars[i + 1] == '/' {
                    proof {
                        lemma_line_end(text, i + 2);
                    }
                    i = skip_comment(&scanner.chars, i + 2);
                } else if '0' <= c && c <= '9' {
                    proof {
                        lemma_digits_end(text, i + 1);
                    }
                    let e = scan_int(&scanner.chars, i + 1);
                    let content = String::from_str(code.substring_char(i, e));
                    let t = Token::new(TokenType::Integer, content, line);
                    tokens.push(t);
                    assert(tokens_view(tokens@) =~= before.push((TokenType::Integer, text.subrange(i as int, e as int), line)));
                    assert(tokens_view(tokens@) + lex(text, e as int, line)
                        =~= before + lex(text, i as int, line));
                    i = e;
                } else {
                    proof {
                        lemma_word_end(text, i + 1);
                    }
                    let e = scan_literal(&scanner.chars, i + 1);
                    let content = String::from_str(code.substring_char(i, e));
                    let kind = word_kind_exec(&content);
                    let t = Token::new(kind, content, line);
                    tokens.push(t);
                    assert(tokens_view(tokens@) =~= before.push((kind, text.subrange(i as int, e as int), line)));
                    assert(tokens_view(tokens@) + lex(text, e as int, line)
                        =~= before + lex(text, i as int, line));
                    i = e;
                }
            },
        }
    }
    assert(lex(text, i as int, scanner.line) =~= Seq::<TokenModel>::empty());
    assert(tokens_view(tokens@) =~= tokens_view(tokens@) + lex(text, i as int, scanner.line));
    tokens
}

} // verus!
