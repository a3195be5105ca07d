use vstd::prelude::*;
use crate::types::{NodeType, Ty, types_view};
use crate::ast::{ASTNode, Node, nodes_view, lemma_nodes_view, lemma_nodes_view_push};
use crate::error::{CompileError, Failure, result_view};
use crate::symbols::{Symbol, SymModel, SymbolTable, symbols_view, node_type};
use crate::tokens::{
    Token, TokenModel, TokenType, TokensList, end_failure, token_failure, expect_at, kind_text,
    tokens_view, token_view,
};

verus! {

/// The type that a type name denotes; an unknown name is a generic placeholder.
pub open spec fn parse_type_spec(name: Seq<char>) -> Ty
    decreases name.len(),
{
    if name == "Int"@ {
        Ty::Int
    } else if name == "Bool"@ {
        Ty::Bool
    } else if name == "Fn"@ {
        Ty::Func(Box::new(Ty::Int))
    } else if name == "None"@ {
        Ty::Unit
    } else if name.len() >= 2 && name[0] == '[' && name[name.len() - 1] == ']' {
        Ty::List(Box::new(parse_type_spec(name.subrange(1, name.len() - 1))))
    } else {
        Ty::Gen(name)
    }
}

pub open spec fn is_digit(c: char) -> bool {
    '0' <= c && c <= '9'
}

/// The number that a string of decimal digits denotes.
pub open spec fn digits_value(s: Seq<char>) -> int
    decreases s.len(),
{
    if s.len() == 0 {
        0
    } else {
        digits_value(s.subrange(0, s.len() - 1)) * 10 + (s[s.len() - 1] as int - '0' as int)
    }
}

/// The value of an integer literal, if it is one that fits in an `i32`.
pub open spec fn int_literal(s: Seq<char>) -> Option<i32> {
    if s.len() > 0 && (forall|i: int| 0 <= i < s.len() ==> is_digit(#[trigger] s[i]))
        && digits_value(s) <= i32::MAX {
        Some(digits_value(s) as i32)
    } else {
        None
    }
}

/// The first symbol of the table with the given name, of any kind.
pub open spec fn lookup_name(table: Seq<SymModel>, name: Seq<char>) -> Option<int>
    decreases table.len(),
{
    if table.len() == 0 {
        None
    } else {
        match lookup_name(table.subrange(0, table.len() - 1), name) {
            Some(i) => Some(i),
            None => if table[table.len() - 1].name == name {
                Some(table.len() - 1)
            } else {
                None
            },
        }
    }
}

/// An expression starting at token `p`: the node and the position after it.
pub open spec fn expr_at(toks: Seq<TokenModel>, p: int, table: Seq<SymModel>) -> Result<(Node, int), Failure>
    decreases toks.len() - p, 3int,
{
    if p < 0 || p >= toks.len() {
        Err(end_failure(toks, "expression"@))
    } else {
        let t = toks[p];
        match t.0 {
            TokenType::Integer => match int_literal(t.1) {
                Some(v) => Ok((Node::Int(v), p + 1)),
                None => Err(token_failure(t, "integer"@)),
            },
            TokenType::True => Ok((Node::Bool(true), p + 1)),
            TokenType::False => Ok((Node::Bool(false), p + 1)),
            TokenType::Literal => match lookup_name(table, t.1) {
                None => Err(Failure::UnknownSymbol { name: t.1, line: t.2 }),
                Some(i) => if table[i].params is Some {
                    call_at(toks, p + 1, table, t.1)
                } else {
                    Ok((Node::Var(SymModel { name: t.1, ty: table[i].ty, params: None }), p + 1))
                },
            },
            _ => Err(token_failure(t, "expression"@)),
        }
    }
}

/// The parenthesized argument list of a call of `name`, starting at its `(`.
pub open spec fn call_at(toks: Seq<TokenModel>, p: int, table: Seq<SymModel>, name: Seq<char>) -> Result<(Node, int), Failure>
    decreases toks.len() - p, 2int,
{
    match expect_at(toks, p, TokenType::LeftParen) {
        Err(e) => Err(e),
        Ok(_) => if p + 1 >= toks.len() {
            Err(end_failure(toks, ")"@))
        } else if toks[p + 1].0 == TokenType::RightParen {
            Ok((Node::Call(name, Seq::empty()), p + 2))
        } else {
            match expr_at(toks, p + 1, table) {
                Err(e) => Err(e),
                Ok((a, q)) => if p + 1 < q <= toks.len() {
                    match args_at(toks, q, table, seq![a]) {
                        Err(e) => Err(e),
                        Ok((args, r)) => Ok((Node::Call(name, args), r)),
                    }
                } else {
                    Err(end_failure(toks, ")"@))
                },
            }
        },
    }
}

/// The remaining arguments of a call, each after a comma, up to and including its `)`.
pub open spec fn args_at(toks: Seq<TokenModel>, q: int, table: Seq<SymModel>, acc: Seq<Node>) -> Result<(Seq<Node>, int), Failure>
    decreases toks.len() - q, 1int,
{
    if q < 0 || q >= toks.len() {
        Err(end_failure(toks, ")"@))
    } else if toks[q].0 == TokenType::RightParen {
        Ok((acc, q + 1))
    } else if toks[q].0 != TokenType::Comma {
        Err(token_failure(toks[q], ","@))
    } else {
        match expr_at(toks, q + 1, table) {
            Err(e) => Err(e),
            Ok((a, r)) => if q + 1 < r <= toks.len() {
                args_at(toks, r, table, acc.push(a))
            } else {
                Err(end_failure(toks, ")"@))
            },
        }
    }
}

/// A let binding after its `let` keyword: `( name [: Type] , expr )`.
/// Gives the node, the new symbol and the position after the `)`.
pub open spec fn let_at(toks: Seq<TokenModel>, p: int, table: Seq<SymModel>) -> Result<(Node, SymModel, int), Failure>
    decreases toks.len() - p, 4int,
{
    match expect_at(toks, p, TokenType::LeftParen) {
        Err(e) => Err(e),
        Ok(_) => match expect_at(toks, p + 1, TokenType::Literal) {
            Err(e) => Err(e),
            Ok(n) => {
                let typed = p + 2 < toks.len() && toks[p + 2].0 == TokenType::Colon;
                let head: Result<(Option<Ty>, int), Failure> = if typed {
                    match expect_at(toks, p + 3, TokenType::Literal) {
                        Err(e) => Err(e),
                        Ok(tt) => match expect_at(toks, p + 4, TokenType::Comma) {
                            Err(e) => Err(e),
                            Ok(_) => Ok((Some(parse_type_spec(tt.1)), p + 5)),
                        },
                    }
                } else {
                    match expect_at(toks, p + 2, TokenType::Comma) {
                        Err(e) => Err(e),
                        Ok(_) => Ok((None, p + 3)),
                    }
                };
                match head {
                    Err(e) => Err(e),
                    Ok((declared, vp)) => match expr_at(toks, vp, table) {
                        Err(e) => Err(e),
                        Ok((v, q)) => match expect_at(toks, q, TokenType::RightParen) {
                            Err(e) => Err(e),
                            Ok(_) => match node_type(table, v) {
                                Err(e) => Err(e),
                                Ok(vt) => match declared {
                                    Some(d) => if d.unwrap_fn() != vt.unwrap_fn() {
                                        Err(Failure::TypeMismatch { name: n.1, declared: d, resolved: vt })
                                    } else {
                                        let s = SymModel { name: n.1, ty: d, params: None };
                                        Ok((Node::Let(s, Box::new(v)), s, q + 1))
                                    },
                                    None => {
                                        let s = SymModel { name: n.1, ty: vt, params: None };
                                        Ok((Node::Let(s, Box::new(v)), s, q + 1))
                                    },
                                },
                            },
                        },
                    },
                }
            },
        },
    }
}

/// The statements of a body up to and including its `}`. A let binding's symbol is
/// visible to the statements after it.
pub open spec fn stmts_at(toks: Seq<TokenModel>, q: int, table: Seq<SymModel>, acc: Seq<Node>) -> Result<(Seq<Node>, int), Failure>
    decreases toks.len() - q, 5int,
{
    if q < 0 || q >= toks.len() {
        Err(end_failure(toks, "}"@))
    } else if toks[q].0 == TokenType::RightBrace {
        Ok((acc, q + 1))
    } else if toks[q].0 == TokenType::Let {
        match let_at(toks, q + 1, table) {
            Err(e) => Err(e),
            Ok((n, s, r)) => if q < r <= toks.len() {
                stmts_at(toks, r, table.push(s), acc.push(n))
            } else {
                Err(end_failure(toks, "}"@))
            },
        }
    } else {
        match expr_at(toks, q, table) {
            Err(e) => Err(e),
            Ok((n, r)) => if q < r <= toks.len() {
                stmts_at(toks, r, table, acc.push(n))
            } else {
                Err(end_failure(toks, "}"@))
            },
        }
    }
}

/// A brace-delimited body at `p`.
pub open spec fn block_at(toks: Seq<TokenModel>, p: int, table: Seq<SymModel>) -> Result<(Seq<Node>, int), Failure> {
    match expect_at(toks, p, TokenType::LeftBrace) {
        Err(e) => Err(e),
        Ok(_) => stmts_at(toks, p + 1, table, Seq::empty()),
    }
}

/// The parameters of a declaration, `name: Type` pairs separated by commas, up to its `)`.
pub open spec fn params_at(toks: Seq<TokenModel>, q: int, acc: Seq<SymModel>) -> Result<(Seq<SymModel>, int), Failure>
    decreases toks.len() - q,
{
    if q < 0 || q >= toks.len() || toks[q].0 == TokenType::RightParen {
        Ok((acc, q))
    } else {
        let q1 = if toks[q].0 == TokenType::Comma {
            q + 1
        } else {
            q
        };
        match expect_at(toks, q1, TokenType::Literal) {
            Err(e) => Err(e),
            Ok(n) => match expect_at(toks, q1 + 1, TokenType::Colon) {
                Err(e) => Err(e),
                Ok(_) => match expect_at(toks, q1 + 2, TokenType::Literal) {
                    Err(e) => Err(e),
                    Ok(tt) => params_at(
                        toks,
                        q1 + 3,
                        acc.push(SymModel { name: n.1, ty: parse_type_spec(tt.1), params: None }),
                    ),
                },
            },
        }
    }
}

/// The optional `-> Type` annotation at `q`; a declaration without one returns `None`.
pub open spec fn ret_at(toks: Seq<TokenModel>, q: int) -> Result<(Ty, int), Failure> {
    if 0 <= q < toks.len() && toks[q].0 == TokenType::Literal && toks[q].1 == "->"@ {
        match expect_at(toks, q + 1, TokenType::Literal) {
            Err(e) => Err(e),
            Ok(tt) => Ok((parse_type_spec(tt.1), q + 2)),
        }
    } else {
        Ok((Ty::Unit, q))
    }
}

pub open spec fn param_types(ps: Seq<SymModel>) -> Seq<Ty> {
    ps.map_values(|s: SymModel| s.ty)
}

/// Whether a body of type `body` meets declared return type `ret`; `main` may
/// also have an `Int` body whatever it declares.
pub open spec fn returns_ok(name: Seq<char>, ret: Ty, body: Ty) -> bool {
    body.unwrap_fn() == ret.unwrap_fn() || (name == "main"@ && body.unwrap_fn() == Ty::Int)
}

/// A function declaration at `p`: the node, the position after it, and the table with
/// the function's own symbol appended (registered before its body, so that it may recurse).
pub open spec fn fn_at(toks: Seq<TokenModel>, p: int, table: Seq<SymModel>) -> Result<(Node, int, Seq<SymModel>), Failure> {
    match expect_at(toks, p, TokenType::Literal) {
        Err(e) => Err(e),
        Ok(n) => match expect_at(toks, p + 1, TokenType::LeftParen) {
            Err(e) => Err(e),
            Ok(_) => match params_at(toks, p + 2, Seq::empty()) {
                Err(e) => Err(e),
                Ok((ps, q)) => match expect_at(toks, q, TokenType::RightParen) {
                    Err(e) => Err(e),
                    Ok(_) => match ret_at(toks, q + 1) {
                        Err(e) => Err(e),
                        Ok((ret, r)) => {
                            let name = n.1;
                            let table1 = table.push(
                                SymModel { name, ty: Ty::Func(Box::new(ret)), params: Some(param_types(ps)) },
                            );
                            match block_at(toks, r, table1 + ps) {
                                Err(e) => Err(e),
                                Ok((body, e)) => if body.len() == 0 {
                                    Err(token_failure(toks[e - 1], "expression"@))
                                } else {
                                    match node_type(table1, body[body.len() - 1]) {
                                        Err(f) => Err(f),
                                        Ok(bt) => if returns_ok(name, ret, bt) {
                                            Ok((Node::Func(name, ps, ret, body), e, table1))
                                        } else {
                                            Err(Failure::TypeMismatch { name, declared: ret, resolved: bt })
                                        },
                                    }
                                },
                            }
                        },
                    },
                },
            },
        },
    }
}

/// The declarations from `p` to the end of the input, and the final table.
pub open spec fn program_at(toks: Seq<TokenModel>, p: int, table: Seq<SymModel>, acc: Seq<Node>) -> Result<(Seq<Node>, Seq<SymModel>), Failure>
    decreases toks.len() - p,
{
    if p < 0 || p >= toks.len() {
        Ok((acc, table))
    } else {
        match fn_at(toks, p, table) {
            Err(e) => Err(e),
            Ok((f, q, t)) => if p < q <= toks.len() {
                program_at(toks, q, t, acc.push(f))
            } else {
                Err(end_failure(toks, "}"@))
            },
        }
    }
}

/// The program that a token sequence spells, and the table after it: the seed
/// table followed by one symbol per declared function.
pub open spec fn parse_program(toks: Seq<TokenModel>, table: Seq<SymModel>) -> Result<(Seq<Node>, Seq<SymModel>), Failure> {
    program_at(toks, 0, table, Seq::empty())
}

proof fn lemma_lookup_prefix(table: Seq<SymModel>, name: Seq<char>, i: int)
    requires
        0 <= i <= table.len(),
        lookup_name(table.subrange(0, i), name) is Some,
    ensures
        lookup_name(table, name) == lookup_name(table.subrange(0, i), name),
    decreases table.len() - i,
{
    if i == table.len() {
        assert(table.subrange(0, i) =~= table);
    } else {
        let n = table.len() - 1;
        assert(table.subrange(0, n).subrange(0, i) =~= table.subrange(0, i));
        lemma_lookup_prefix(table.subrange(0, n), name, i);
    }
}

proof fn lemma_lookup_in_range(table: Seq<SymModel>, name: Seq<char>)
    ensures
        lookup_name(table, name) matches Some(i) ==> 0 <= i < table.len() && table[i].name == name,
    decreases table.len(),
{
    if table.len() > 0 {
        lemma_lookup_in_range(table.subrange(0, table.len() - 1), name);
    }
}

/// The index of the first symbol named `name`, of any kind.
fn lookup_symbol(symbols: &SymbolTable, name: &String) -> (r: Option<usize>)
    ensures
        match lookup_name(symbols@, name@) {
            Some(i) => r == Some(i as usize) && 0 <= i < symbols.table.len(),
            None => r is None,
        },
{
    let ghost tv = symbols@;
    proof {
        lemma_lookup_in_range(tv, name@);
    }
    let mut i: usize = 0;
    while i < symbols.table.len()
        invariant
            i <= symbols.table.len(),
            tv == symbols@,
            lookup_name(tv.subrange(0, i as int), name@) is None,
        decreases symbols.table.len() - i,
    {
        assert(tv.subrange(0, i + 1).subrange(0, i as int) =~= tv.subrange(0, i as int));
        if symbols.table[i].name == *name {
            proof {
                lemma_lookup_prefix(tv, name@, i + 1);
            }
            return Some(i);
        }
        i += 1;
    }
    assert(tv.subrange(0, i as int) =~= tv);
    None
}

proof fn lemma_digits_monotone(s: Seq<char>, i: int)
    requires
        0 <= i <= s.len(),
        forall|j: int| 0 <= j < s.len() ==> is_digit(#[trigger] s[j]),
    ensures
        0 <= digits_value(s.subrange(0, i)) <= digits_value(s),
    decreases s.len() - i,
{
    if i == s.len() {
        assert(s.subrange(0, i) =~= s);
        lemma_digits_nonneg(s);
    } else {
        let n = s.len() - 1;
        let t = s.subrange(0, n);
        assert(t.subrange(0, i) =~= s.subrange(0, i));
        lemma_digits_monotone(t, i);
        lemma_digits_nonneg(t);
        let v = digits_value(t);
        assert(v * 10 >= v) by (nonlinear_arith)
            requires
                v >= 0,
        ;
    }
}

proof fn lemma_digits_nonneg(s: Seq<char>)
    requires
        forall|j: int| 0 <= j < s.len() ==> is_digit(#[trigger] s[j]),
    ensures
        digits_value(s) >= 0,
    decreases s.len(),
{
    if s.len() > 0 {
        let t = s.subrange(0, s.len() - 1);
        assert forall|j: int| 0 <= j < t.len() implies is_digit(#[trigger] t[j]) by {
            assert(t[j] == s[j]);
        }
        lemma_digits_nonneg(t);
        let v = digits_value(t);
        assert(v * 10 >= 0) by (nonlinear_arith)
            requires
                v >= 0,
        ;
    }
}

/// The value of a decimal integer literal, if it fits in an `i32`.
pub fn parse_int(s: &str) -> (r: Option<i32>)
    ensures
        r == int_literal(s@),
{
    let n = s.unicode_len();
    if n == 0 {
        return None;
    }
    let mut acc: i64 = 0;
    let mut i: usize = 0;
    assert(s@.subrange(0, 0) =~= Seq::<char>::empty());
    while i < n
        invariant
            i <= n,
            n == s@.len(),
            acc == digits_value(s@.subrange(0, i as int)),
            0 <= acc <= i32::MAX,
            forall|j: int| 0 <= j < i ==> is_digit(#[trigger] s@[j]),
        decreases n - i,
    {
        let c = s.get_char(i);
        if !('0' <= c && c <= '9') {
            return None;
        }
        assert(s@.subrange(0, i + 1).subrange(0, i as int) =~= s@.subrange(0, i as int));
        acc = acc * 10 + (c as i64 - '0' as i64);
        i += 1;
        if acc > i32::MAX as i64 {
            proof {
                if forall|j: int| 0 <= j < s@.len() ==> is_digit(#[trigger] s@[j]) {
                    lemma_digits_monotone(s@, i as int);
                }
            }
            return None;
        }
    }
    assert(s@.subrange(0, i as int) =~= s@);
    Some(acc as i32)
}

/// The type that a type name denotes.
pub fn parse_type(type_text: &str) -> (r: NodeType)
    ensures
        r@ == parse_type_spec(type_text@),
    decreases type_text@.len(),
{
    let s = String::from_str(type_text);
    assert(s@ == type_text@);
    if s == String::from_str("Int") {
        NodeType::Int
    } else if s == String::from_str("Bool") {
        NodeType::Bool
    } else if s == String::from_str("Fn") {
        let inner = NodeType::Int;
        assert(inner@ == Ty::Int);
        NodeType::Fn(Box::new(inner))
    } else if s == String::from_str("None") {
        NodeType::Unit
    } else {
        let n = type_text.unicode_len();
        if n >= 2 && type_text.get_char(0) == '[' && type_text.get_char(n - 1) == ']' {
            let inner = type_text.substring_char(1, n - 1);
            NodeType::List(Box::new(parse_type(inner)))
        } else {
            NodeType::Generic(s)
        }
    }
}

/// An expression: a literal, a variable, or a call.
fn parse_node(tokens: &mut TokensList, symbols: &SymbolTable) -> (r: Result<ASTNode, CompileError>)
    requires
        old(tokens).pos <= old(tokens).tokens.len(),
    ensures
        final(tokens).tokens@ == old(tokens).tokens@,
        final(tokens).pos <= final(tokens).tokens.len(),
        match expr_at(tokens_view(old(tokens).tokens@), old(tokens).pos as int, symbols@) {
            Ok((n, q)) => (r matches Ok(x) && x@ == n) && final(tokens).pos == q && old(tokens).pos < q,
            Err(f) => r matches Err(e) && e@ == f,
        },
    decreases old(tokens).tokens.len() - old(tokens).pos, 3int,
{
    if tokens.pos >= tokens.tokens.len() {
        return Err(tokens.end_error("expression"));
    }
    let token = match tokens.consume() {
        Ok(t) => t,
        Err(e) => return Err(e),
    };
    match token.token_type {
        TokenType::Integer => match parse_int(token.content.as_str()) {
            Some(v) => Ok(ASTNode::Int(v)),
            None => Err(CompileError::Syntax {
                expected: String::from_str("integer"),
                found: token.content,
                line: token.line,
            }),
        },
        TokenType::True => Ok(ASTNode::Bool(true)),
        TokenType::False => Ok(ASTNode::Bool(false)),
        TokenType::Literal => match lookup_symbol(symbols, &token.content) {
            None => Err(CompileError::UnknownSymbol { name: token.content, line: token.line }),
            Some(i) => {
                let s = &symbols.table[i];
                assert(symbols@[i as int] == s@);
                if s.arg_types.is_some() {
                    consume_call(token.content, tokens, symbols)
                } else {
                    Ok(ASTNode::Var(Symbol { name: token.content, symbol_type: s.symbol_type.duplicate(), arg_types: None }))
                }
            },
        },
        _ => Err(CompileError::Syntax {
            expected: String::from_str("expression"),
            found: token.content,
            line: token.line,
        }),
    }
}

/// The argument list of a call of `name`, from its `(` to its `)`.
fn consume_call(name: String, tokens: &mut TokensList, symbols: &SymbolTable) -> (r: Result<ASTNode, CompileError>)
    requires
        old(tokens).pos <= old(tokens).tokens.len(),
    ensures
        final(tokens).tokens@ == old(tokens).tokens@,
        final(tokens).pos <= final(tokens).tokens.len(),
        match call_at(tokens_view(old(tokens).tokens@), old(tokens).pos as int, symbols@, name@) {
            Ok((n, q)) => (r matches Ok(x) && x@ == n) && final(tokens).pos == q && old(tokens).pos < q,
            Err(f) => r matches Err(e) && e@ == f,
        },
    decreases old(tokens).tokens.len() - old(tokens).pos, 2int,
{
    let ghost toks = tokens_view(tokens.tokens@);
    let ghost begin = tokens.pos as int;
    match tokens.expect(TokenType::LeftParen) {
        Ok(_) => {},
        Err(e) => return Err(e),
    }
    if tokens.pos >= tokens.tokens.len() {
        return Err(tokens.end_error(")"));
    }
    if tokens.tokens[tokens.pos].token_type == TokenType::RightParen {
        tokens.next();
        let no_args: Vec<ASTNode> = Vec::new();
        assert(nodes_view(no_args@) =~= Seq::<Node>::empty());
        return Ok(ASTNode::Call(name, no_args));
    }
    let first = match parse_node(tokens, symbols) {
        Ok(n) => n,
        Err(e) => return Err(e),
    };
    let mut args: Vec<ASTNode> = Vec::new();
    proof {
        lemma_nodes_view_push(args@, first);
        assert(nodes_view(args@) =~= Seq::<Node>::empty());
    }
    args.push(first);
    while tokens.pos < tokens.tokens.len()
        invariant
            toks == tokens_view(old(tokens).tokens@),
            tokens.tokens@ == old(tokens).tokens@,
            begin == old(tokens).pos,
            tokens_view(tokens.tokens@) == toks,
            begin < tokens.pos <= tokens.tokens.len(),
            call_at(toks, begin, symbols@, name@) == match args_at(toks, tokens.pos as int, symbols@, nodes_view(args@)) {
                Err(e) => Err(e),
                Ok((a, r)) => Ok::<(Node, int), Failure>((Node::Call(name@, a), r)),
            },
        decreases tokens.tokens.len() - tokens.pos,
    {
        let kind = tokens.tokens[tokens.pos].token_type;
        if kind == TokenType::RightParen {
            tokens.next();
            return Ok(ASTNode::Call(name, args));
        }
        if kind != TokenType::Comma {
            let t = &tokens.tokens[tokens.pos];
            return Err(CompileError::Syntax {
                expected: String::from_str(","),
                found: t.content.clone(),
                line: t.line,
            });
        }
        tokens.next();
        let a = match parse_node(tokens, symbols) {
            Ok(n) => n,
            Err(e) => return Err(e),
        };
        proof {
            lemma_nodes_view_push(args@, a);
        }
        args.push(a);
    }
    Err(tokens.end_error(")"))
}

/// A let binding after its `let` keyword; appends the bound symbol to the scope.
fn consume_let(tokens: &mut TokensList, symbols: &mut SymbolTable) -> (r: Result<ASTNode, CompileError>)
    requires
        old(tokens).pos <= old(tokens).tokens.len(),
    ensures
        final(tokens).tokens@ == old(tokens).tokens@,
        final(tokens).pos <= final(tokens).tokens.len(),
        match let_at(tokens_view(old(tokens).tokens@), old(tokens).pos as int, old(symbols)@) {
            Ok((n, s, q)) => (r matches Ok(x) && x@ == n) && final(symbols)@ == old(symbols)@.push(s)
                && final(tokens).pos == q && old(tokens).pos < q,
            Err(f) => r matches Err(e) && e@ == f,
        },
    decreases old(tokens).tokens.len() - old(tokens).pos, 4int,
{
    match tokens.expect(TokenType::LeftParen) {
        Ok(_) => {},
        Err(e) => return Err(e),
    }
    let name_tok = match tokens.expect(TokenType::Literal) {
        Ok(t) => t,
        Err(e) => return Err(e),
    };
    let typed = tokens.pos < tokens.tokens.len() && tokens.tokens[tokens.pos].token_type == TokenType::Colon;
    let declared: Option<NodeType> = if typed {
        tokens.next();
        let tt = match tokens.expect(TokenType::Literal) {
            Ok(t) => t,
            Err(e) => return Err(e),
        };
        match tokens.expect(TokenType::Comma) {
            Ok(_) => {},
            Err(e) => return Err(e),
        }
        Some(parse_type(tt.content.as_str()))
    } else {
        match tokens.expect(TokenType::Comma) {
            Ok(_) => {},
            Err(e) => return Err(e),
        }
        None
    };
    let value = match parse_node(tokens, symbols) {
        Ok(n) => n,
        Err(e) => return Err(e),
    };
    match tokens.expect(TokenType::RightParen) {
        Ok(_) => {},
        Err(e) => return Err(e),
    }
    let vt = match symbols.get_node_type(&value) {
        Ok(t) => t,
        Err(e) => return Err(e),
    };
    let sym = match declared {
        Some(d) => {
            if !d.unwrap_fn().same(&vt.unwrap_fn()) {
                return Err(CompileError::TypeMismatch { name: name_tok.content, declared: d, resolved: vt });
            }
            Symbol { name: name_tok.content, symbol_type: d, arg_types: None }
        },
        None => Symbol { name: name_tok.content, symbol_type: vt, arg_types: None },
    };
    symbols.insert(sym.duplicate());
    Ok(ASTNode::Let(sym, Box::new(value)))
}

/// A brace-delimited body, parsed in a copy of `symbols` extended with `env_symbols`.
fn consume_block(tokens: &mut TokensList, symbols: &SymbolTable, env_symbols: &Vec<Symbol>) -> (r: Result<Vec<ASTNode>, CompileError>)
    requires
        old(tokens).pos <= old(tokens).tokens.len(),
    ensures
        final(tokens).tokens@ == old(tokens).tokens@,
        final(tokens).pos <= final(tokens).tokens.len(),
        match block_at(tokens_view(old(tokens).tokens@), old(tokens).pos as int, symbols@ + symbols_view(env_symbols@)) {
            Ok((b, q)) => (r matches Ok(x) && nodes_view(x@) == b) && final(tokens).pos == q
                && old(tokens).pos < q,
            Err(f) => r matches Err(e) && e@ == f,
        },
{
    let ghost toks = tokens_view(tokens.tokens@);
    let ghost begin = tokens.pos as int;
    match tokens.expect(TokenType::LeftBrace) {
        Ok(_) => {},
        Err(e) => return Err(e),
    }
    let mut scope = symbols.duplicate();
    scope.insert_vec(env_symbols);
    let mut calls: Vec<ASTNode> = Vec::new();
    assert(nodes_view(calls@) =~= Seq::<Node>::empty());
    while tokens.pos < tokens.tokens.len()
        invariant
            toks == tokens_view(old(tokens).tokens@),
            tokens.tokens@ == old(tokens).tokens@,
            begin == old(tokens).pos,
            tokens_view(tokens.tokens@) == toks,
            begin < tokens.pos <= tokens.tokens.len(),
            block_at(toks, begin, symbols@ + symbols_view(env_symbols@))
                == stmts_at(toks, tokens.pos as int, scope@, nodes_view(calls@)),
        decreases tokens.tokens.len() - tokens.pos,
    {
        let kind = tokens.tokens[tokens.pos].token_type;
        if kind == TokenType::RightBrace {
            tokens.next();
            return Ok(calls);
        } else if kind == TokenType::Let {
            tokens.next();
            let n = match consume_let(tokens, &mut scope) {
                Ok(n) => n,
                Err(e) => return Err(e),
            };
            proof {
                lemma_nodes_view_push(calls@, n);
            }
            calls.push(n);
        } else {
            let n = match parse_node(tokens, &scope) {
                Ok(n) => n,
                Err(e) => return Err(e),
            };
            proof {
                lemma_nodes_view_push(calls@, n);
            }
            calls.push(n);
        }
    }
    Err(tokens.end_error("}"))
}

/// The parameter list of a declaration, up to (not including) its `)`.
fn consume_fn_args(tokens: &mut TokensList) -> (r: Result<(Vec<Symbol>, Vec<NodeType>), CompileError>)
    requires
        old(tokens).pos <= old(tokens).tokens.len(),
    ensures
        final(tokens).tokens@ == old(tokens).tokens@,
        old(tokens).pos <= final(tokens).pos,
        final(tokens).pos <= final(tokens).tokens.len(),
        match params_at(tokens_view(old(tokens).tokens@), old(tokens).pos as int, Seq::empty()) {
            Ok((ps, q)) => (r matches Ok(x) && symbols_view(x.0@) == ps
                && types_view(x.1@) == param_types(ps)) && final(tokens).pos == q,
            Err(f) => r matches Err(e) && e@ == f,
        },
{
    let ghost toks = tokens_view(tokens.tokens@);
    let ghost begin = tokens.pos as int;
    let mut args: Vec<Symbol> = Vec::new();
    let mut arg_types: Vec<NodeType> = Vec::new();
    assert(symbols_view(args@) =~= Seq::<SymModel>::empty());
    assert(types_view(arg_types@) =~= param_types(symbols_view(args@)));
    while tokens.pos < tokens.tokens.len()
        && tokens.tokens[tokens.pos].token_type != TokenType::RightParen
        invariant
            toks == tokens_view(old(tokens).tokens@),
            tokens.tokens@ == old(tokens).tokens@,
            begin == old(tokens).pos,
            tokens_view(tokens.tokens@) == toks,
            begin <= tokens.pos <= tokens.tokens.len(),
            params_at(toks, begin, Seq::empty()) == params_at(toks, tokens.pos as int, symbols_view(args@)),
            types_view(arg_types@) == param_types(symbols_view(args@)),
        decreases tokens.tokens.len() - tokens.pos,
    {
        let kind = tokens.tokens[tokens.pos].token_type;
        if kind == TokenType::Comma {
            tokens.next();
        }
        let n = match tokens.expect(TokenType::Literal) {
            Ok(t) => t,
            Err(e) => return Err(e),
        };
        match tokens.expect(TokenType::Colon) {
            Ok(_) => {},
            Err(e) => return Err(e),
        }
        let tt = match tokens.expect(TokenType::Literal) {
            Ok(t) => t,
            Err(e) => return Err(e),
        };
        let t = parse_type(tt.content.as_str());
        let s = Symbol { name: n.content, symbol_type: t.duplicate(), arg_types: None };
        let ghost before = symbols_view(args@);
        let ghost before_types = types_view(arg_types@);
        args.push(s);
        arg_types.push(t);
        assert(symbols_view(args@) =~= before.push(s@));
        assert(types_view(arg_types@) =~= before_types.push(t@));
        assert(param_types(symbols_view(args@)) =~= param_types(before).push(s@.ty));
    }
    Ok((args, arg_types))
}

/// The optional `-> Type` annotation; `None` where there is none.
fn consume_fn_return(tokens: &mut TokensList) -> (r: Result<NodeType, CompileError>)
    requires
        old(tokens).pos <= old(tokens).tokens.len(),
    ensures
        final(tokens).tokens@ == old(tokens).tokens@,
        old(tokens).pos <= final(tokens).pos,
        final(tokens).pos <= final(tokens).tokens.len(),
        match ret_at(tokens_view(old(tokens).tokens@), old(tokens).pos as int) {
            Ok((t, q)) => (r matches Ok(x) && x@ == t) && final(tokens).pos == q,
            Err(f) => r matches Err(e) && e@ == f,
        },
{
    let arrow = String::from_str("->");
    if tokens.pos < tokens.tokens.len() && tokens.tokens[tokens.pos].token_type == TokenType::Literal
        && tokens.tokens[tokens.pos].content == arrow {
        tokens.next();
        let tt = match tokens.expect(TokenType::Literal) {
            Ok(t) => t,
            Err(e) => return Err(e),
        };
        Ok(parse_type(tt.content.as_str()))
    } else {
        Ok(NodeType::Unit)
    }
}

/// A function declaration. Its symbol is appended to `symbols` before its body is
/// parsed; its body's type must meet the declared return type.
fn consume_fn(tokens: &mut TokensList, symbols: &mut SymbolTable) -> (r: Result<ASTNode, CompileError>)
    requires
        old(tokens).pos <= old(tokens).tokens.len(),
    ensures
        final(tokens).tokens@ == old(tokens).tokens@,
        final(tokens).pos <= final(tokens).tokens.len(),
        match fn_at(tokens_view(old(tokens).tokens@), old(tokens).pos as int, old(symbols)@) {
            Ok((n, q, t)) => (r matches Ok(x) && x@ == n) && final(symbols)@ == t
                && final(tokens).pos == q && old(tokens).pos < q,
            Err(f) => r matches Err(e) && e@ == f,
        },
{
    let name_tok = match tokens.expect(TokenType::Literal) {
        Ok(t) => t,
        Err(e) => return Err(e),
    };
    match tokens.expect(TokenType::LeftParen) {
        Ok(_) => {},
        Err(e) => return Err(e),
    }
    let (arg_symbols, arg_types) = match consume_fn_args(tokens) {
        Ok(p) => p,
        Err(e) => return Err(e),
    };
    match tokens.expect(TokenType::RightParen) {
        Ok(_) => {},
        Err(e) => return Err(e),
    }
    let ret = match consume_fn_return(tokens) {
        Ok(t) => t,
        Err(e) => return Err(e),
    };
    symbols.insert(Symbol::new_fn(name_tok.content.as_str(), arg_types, NodeType::Fn(Box::new(ret.duplicate()))));
    let body = match consume_block(tokens, symbols, &arg_symbols) {
        Ok(b) => b,
        Err(e) => return Err(e),
    };
    proof {
        lemma_nodes_view(body@);
    }
    if body.len() == 0 {
        let t = &tokens.tokens[tokens.pos - 1];
        return Err(CompileError::Syntax {
            expected: String::from_str("expression"),
            found: t.content.clone(),
            line: t.line,
        });
    }
    let bt = match symbols.get_node_type(&body[body.len() - 1]) {
        Ok(t) => t,
        Err(e) => return Err(e),
    };
    let bu = bt.unwrap_fn();
    let main_name = String::from_str("main");
    let int_type = NodeType::Int;
    let ok = bu.same(&ret.unwrap_fn()) || (name_tok.content == main_name && bu.same(&int_type));
    if !ok {
        return Err(CompileError::TypeMismatch { name: name_tok.content, declared: ret, resolved: bt });
    }
    Ok(ASTNode::Fn(name_tok.content, arg_symbols, ret, body))
}

/// Parses a program: a sequence of function declarations, registered in `symbols`.
pub fn build_ast(token_vec: Vec<Token>, symbols: &mut SymbolTable) -> (r: Result<Vec<ASTNode>, CompileError>)
    ensures
        match parse_program(tokens_view(token_vec@), old(symbols)@) {
            Ok((ns, t)) => (r matches Ok(x) && nodes_view(x@) == ns) && final(symbols)@ == t,
            Err(f) => r matches Err(e) && e@ == f,
        },
{
    let ghost toks = tokens_view(token_vec@);
    let ghost t0 = symbols@;
    let mut tokens = TokensList::from(token_vec);
    let mut tree: Vec<ASTNode> = Vec::new();
    assert(nodes_view(tree@) =~= Seq::<Node>::empty());
    while tokens.pos < tokens.tokens.len()
        invariant
            toks == tokens_view(token_vec@),
            t0 == old(symbols)@,
            tokens_view(tokens.tokens@) == toks,
            tokens.pos <= tokens.tokens.len(),
            parse_program(toks, t0) == program_at(toks, tokens.pos as int, symbols@, nodes_view(tree@)),
        decreases tokens.tokens.len() - tokens.pos,
    {
        let f = match consume_fn(&mut tokens, symbols) {
            Ok(f) => f,
            Err(e) => return Err(e),
        };
        proof {
            lemma_nodes_view_push(tree@, f);
        }
        tree.push(f);
    }
    Ok(tree)
}

} // verus!
