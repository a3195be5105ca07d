use vstd::prelude::*;
use crate::error::{CompileError, Failure};

verus! {

/// The kinds of token.
#[derive(Clone, Copy, PartialEq, Eq, Structural, Debug)]
pub enum TokenType {
    LeftParen,
    RightParen,
    LeftBrace,
    RightBrace,
    Comma,
    Dot,
    Colon,
    Let,
    True,
    False,
    Integer,
    Literal,
}

/// How a token kind is named in a diagnostic.
pub open spec fn kind_text(k: TokenType) -> Seq<char> {
    match k {
        TokenType::LeftParen => "("@,
        TokenType::RightParen => ")"@,
        TokenType::LeftBrace => "{"@,
        TokenType::RightBrace => "}"@,
        TokenType::Comma => ","@,
        TokenType::Dot => "."@,
        TokenType::Colon => ":"@,
        TokenType::Let => "let"@,
        TokenType::True => "true"@,
        TokenType::False => "false"@,
        TokenType::Integer => "integer"@,
        TokenType::Literal => "identifier"@,
    }
}

impl TokenType {
    /// How this kind is named in a diagnostic.
    pub fn text(&self) -> (r: &'static str)
        ensures
            r@ == kind_text(*self),
    {
        match self {
            TokenType::LeftParen => "(",
            TokenType::RightParen => ")",
            TokenType::LeftBrace => "{",
            TokenType::RightBrace => "}",
            TokenType::Comma => ",",
            TokenType::Dot => ".",
            TokenType::Colon => ":",
            TokenType::Let => "let",
            TokenType::True => "true",
            TokenType::False => "false",
            TokenType::Integer => "integer",
            TokenType::Literal => "identifier",
        }
    }
}

/// A token: its kind, its text and its source line.
#[derive(Debug)]
pub struct Token {
    pub token_type: TokenType,
    pub content: String,
    pub line: usize,
}

impl Token {
    pub fn new(token_type: TokenType, content: String, line: usize) -> (r: Token)
        ensures
            r.token_type == token_type,
            r.content@ == content@,
            r.line == line,
    {
        Token { token_type, content, line }
    }

    /// A copy of this token.
    pub fn duplicate(&self) -> (r: Token)
        ensures
            r == *self,
    {
        Token { token_type: self.token_type, content: self.content.clone(), line: self.line }
    }
}

/// Model of a token: kind, text, line.
pub type TokenModel = (TokenType, Seq<char>, usize);

pub open spec fn token_view(t: Token) -> TokenModel {
    (t.token_type, t.content@, t.line)
}

pub open spec fn tokens_view(ts: Seq<Token>) -> Seq<TokenModel> {
    ts.map_values(|t: Token| token_view(t))
}

/// The line reported for an error at the end of the input: that of the last token.
pub open spec fn end_line(toks: Seq<TokenModel>) -> usize {
    if toks.len() == 0 {
        0
    } else {
        toks[toks.len() - 1].2
    }
}

/// The failure for input that ends where `expected` was due.
pub open spec fn end_failure(toks: Seq<TokenModel>, expected: Seq<char>) -> Failure {
    Failure::Syntax { expected, found: "end of input"@, line: end_line(toks) }
}

/// The failure for token `t` where `expected` was due.
pub open spec fn token_failure(t: TokenModel, expected: Seq<char>) -> Failure {
    Failure::Syntax { expected, found: t.1, line: t.2 }
}

/// The token at `p`, which must be of kind `k`.
pub open spec fn expect_at(toks: Seq<TokenModel>, p: int, k: TokenType) -> Result<TokenModel, Failure> {
    if p < 0 || p >= toks.len() {
        Err(end_failure(toks, kind_text(k)))
    } else if toks[p].0 != k {
        Err(token_failure(toks[p], kind_text(k)))
    } else {
        Ok(toks[p])
    }
}

/// A token stream with a read position.
pub struct TokensList {
    pub tokens: Vec<Token>,
    pub pos: usize,
}

impl TokensList {
    pub fn from(tokens: Vec<Token>) -> (r: TokensList)
        ensures
            r.tokens@ == tokens@,
            r.pos == 0,
    {
        TokensList { tokens, pos: 0 }
    }

    /// The next token, if any, without consuming it.
    pub fn peek(&self) -> (r: Option<&Token>)
        ensures
            self.pos < self.tokens.len() ==> r == Some(&self.tokens@[self.pos as int]),
            self.pos >= self.tokens.len() ==> r is None,
    {
        if self.pos < self.tokens.len() {
            Some(&self.tokens[self.pos])
        } else {
            None
        }
    }

    /// Consumes and returns the next token, if any.
    pub fn next(&mut self) -> (r: Option<Token>)
        ensures
            final(self).tokens@ == old(self).tokens@,
            old(self).pos < old(self).tokens.len() ==> r == Some(old(self).tokens@[old(self).pos as int])
                && final(self).pos == old(self).pos + 1,
            old(self).pos >= old(self).tokens.len() ==> r is None && final(self).pos == old(self).pos,
    {
        if self.pos < self.tokens.len() {
            let t = self.tokens[self.pos].duplicate();
            self.pos = self.pos + 1;
            Some(t)
        } else {
            None
        }
    }

    /// The error for input that ends where `expected` was due.
    pub fn end_error(&self, expected: &str) -> (r: CompileError)
        ensures
            r@ == end_failure(tokens_view(self.tokens@), expected@),
    {
        let line = if self.tokens.len() == 0 {
            0
        } else {
            self.tokens[self.tokens.len() - 1].line
        };
        CompileError::Syntax {
            expected: String::from_str(expected),
            found: String::from_str("end of input"),
            line,
        }
    }

    /// Consumes the next token, which must exist.
    pub fn consume(&mut self) -> (r: Result<Token, CompileError>)
        ensures
            final(self).tokens@ == old(self).tokens@,
            final(self).pos == old(self).pos || (final(self).pos == old(self).pos + 1
                && old(self).pos < old(self).tokens.len()),
            old(self).pos < old(self).tokens.len() ==> r == Ok::<Token, CompileError>(old(self).tokens@[old(self).pos as int])
                && final(self).pos == old(self).pos + 1,
            old(self).pos >= old(self).tokens.len() ==> (r matches Err(e)
                && e@ == end_failure(tokens_view(old(self).tokens@), "token"@)),
    {
        match self.next() {
            Some(t) => Ok(t),
            None => Err(self.end_error("token")),
        }
    }

    /// Consumes the next token, which must be of kind `expected`.
    pub fn expect(&mut self, expected: TokenType) -> (r: Result<Token, CompileError>)
        ensures
            final(self).tokens@ == old(self).tokens@,
            final(self).pos == old(self).pos || (final(self).pos == old(self).pos + 1
                && old(self).pos < old(self).tokens.len()),
            match expect_at(tokens_view(old(self).tokens@), old(self).pos as int, expected) {
                Ok(t) => (r matches Ok(x) && token_view(x) == t) && final(self).pos == old(self).pos + 1,
                Err(f) => r matches Err(e) && e@ == f,
            },
    {
        match self.next() {
            None => Err(self.end_error(expected.text())),
            Some(token) => if token.token_type == expected {
                Ok(token)
            } else {
                Err(CompileError::Syntax {
                    expected: String::from_str(expected.text()),
                    found: token.content,
                    line: token.line,
                })
            },
        }
    }
}

} // verus!
