use flip::compiler::table_from_inlines;
use flip::parser::{build_ast, parse_int, parse_type};
use flip::scanner::get_tokens;
use flip::tokens::{Token, TokenType, TokensList};
use flip::ast::ASTNode;

fn kinds(code: &str) -> Vec<TokenType> {
    get_tokens(code).iter().map(|t| t.token_type).collect()
}

fn texts(code: &str) -> Vec<String> {
    get_tokens(code).iter().map(|t| t.content.clone()).collect()
}

#[test]
fn scanner_splits_a_declaration() {
    let code = "f(x: Int) -> Int { x }";
    assert_eq!(texts(code), vec!["f", "(", "x", ":", "Int", ")", "->", "Int", "{", "x", "}"]);
    assert_eq!(
        kinds(code),
        vec![
            TokenType::Literal,
            TokenType::LeftParen,
            TokenType::Literal,
            TokenType::Colon,
            TokenType::Literal,
            TokenType::RightParen,
            TokenType::Literal,
            TokenType::Literal,
            TokenType::LeftBrace,
            TokenType::Literal,
            TokenType::RightBrace,
        ]
    );
}

#[test]
fn scanner_reads_keywords_numbers_and_list_types() {
    assert_eq!(
        kinds("let true false 42 [[Bool]] ="),
        vec![
            TokenType::Let,
            TokenType::True,
            TokenType::False,
            TokenType::Integer,
            TokenType::Literal,
            TokenType::Let,
        ]
    );
    assert_eq!(texts("+(12,x)"), vec!["+", "(", "12", ",", "x", ")"]);
    assert_eq!(texts("x1"), vec!["x", "1"]);
}

#[test]
fn scanner_skips_comments_and_counts_lines() {
    let toks = get_tokens("// note\nmain\n\n  x // tail\ny");
    let lines: Vec<usize> = toks.iter().map(|t| t.line).collect();
    let words: Vec<String> = toks.iter().map(|t| t.content.clone()).collect();
    assert_eq!(words, vec!["main", "x", "y"]);
    assert_eq!(lines, vec![2, 4, 5]);
    assert!(get_tokens("").is_empty());
    assert_eq!(texts("/(a, b)"), vec!["/", "(", "a", ",", "b", ")"]);
}

#[test]
fn type_names_parse_to_types() {
    assert_eq!(parse_type("Int").text(), "Int");
    assert_eq!(parse_type("Bool").text(), "Bool");
    assert_eq!(parse_type("None").text(), "None");
    assert_eq!(parse_type("Fn").text(), "Fn(Int)");
    assert_eq!(parse_type("[[Bool]]").text(), "[[Bool]]");
    assert_eq!(parse_type("T").text(), "Generic(T)");
    assert_eq!(parse_type("[T").text(), "Generic([T)");
}

#[test]
fn integer_literals_parse_within_range() {
    assert_eq!(parse_int("0"), Some(0));
    assert_eq!(parse_int("2147483647"), Some(2147483647));
    assert_eq!(parse_int("2147483648"), None);
    assert_eq!(parse_int("99999999999999999999"), None);
    assert_eq!(parse_int(""), None);
    assert_eq!(parse_int("1a"), None);
}

#[test]
fn build_ast_registers_only_function_symbols() {
    let mut table = table_from_inlines();
    let code = "a(p: Int) -> Int { let(x: Int, p) x }\nmain() -> Int { a(1) }";
    let ast = match build_ast(get_tokens(code), &mut table) {
        Ok(a) => a,
        Err(_) => panic!("expected the program to parse"),
    };
    assert_eq!(ast.len(), 2);
    let names: Vec<String> = table.iter().iter().map(|s| s.name.clone()).collect();
    assert_eq!(names.len(), 23);
    assert_eq!(names[21], "a");
    assert_eq!(names[22], "main");
    assert!(table.iter()[21].arg_types.is_some());
    assert_eq!(table.iter()[21].symbol_type.text(), "Fn(Int)");
    match &ast[0] {
        ASTNode::Fn(name, params, ret, body) => {
            assert_eq!(name, "a");
            assert_eq!(params.len(), 1);
            assert_eq!(ret.text(), "Int");
            assert_eq!(body.len(), 2);
            assert!(matches!(body[0], ASTNode::Let(_, _)));
        },
        _ => panic!("expected a declaration"),
    }
}

#[test]
fn declaration_without_return_type_returns_none() {
    let mut table = table_from_inlines();
    let code = "nothing(x: T) { x }";
    assert!(matches!(
        build_ast(get_tokens(code), &mut table),
        Err(flip::error::CompileError::TypeMismatch { .. })
    ));
}

fn tok(kind: TokenType, text: &str) -> Token {
    Token::new(kind, text.to_string(), 1)
}

#[test]
fn token_list_peeks_consumes_and_expects() {
    let mut list = TokensList::from(vec![tok(TokenType::LeftParen, "("), tok(TokenType::Literal, "x")]);
    assert!(matches!(list.peek(), Some(t) if t.content == "("));
    assert!(matches!(list.expect(TokenType::LeftParen), Ok(_)));
    assert!(matches!(
        list.expect(TokenType::Comma),
        Err(flip::error::CompileError::Syntax { .. })
    ));
    assert!(list.next().is_none());
    assert!(list.consume().is_err());
    let mut list = TokensList::from(vec![tok(TokenType::Literal, "y")]);
    assert!(matches!(list.consume(), Ok(t) if t.content == "y"));
}

#[test]
fn scanner_counts_carriage_returns_as_line_breaks() {
    let toks = get_tokens("a\rb ");
    let lines: Vec<usize> = toks.iter().map(|t| t.line).collect();
    assert_eq!(lines, vec![1, 2]);
    let toks = get_tokens("a\nb\r\nc // x\r\nd");
    let lines: Vec<usize> = toks.iter().map(|t| t.line).collect();
    assert_eq!(lines, vec![1, 2, 4, 6]);
}
