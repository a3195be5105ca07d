use flip::error::CompileError;
use flip::program::compile;

fn out(code: &str) -> String {
    match compile(code) {
        Ok(s) => s,
        Err(_) => panic!("expected the program to compile"),
    }
}

const HEADER: &str = "#include <stdio.h>\n#include \"flip.h\"\n\n";
const ENTRY: &str = "// C main\n\nint main() {\n    printf(\"%ld\\n\", fn_main());\n    return 0;\n}\n";

#[test]
fn add_then_main_generates_closure_pair_and_entry() {
    let code = "add(a: Int, b: Int) -> Int { +(a, b) }\nmain() -> Int { add(2, 3) }\n";
    let expected = String::new()
        + HEADER
        + "// add\n\n"
        + "fn fn_add(long a, long b);\n\n"
        + "long eval_add(char* args) {\n"
        + "    long a = get_arg(args, long);\n"
        + "    long b = get_arg(args, long);\n"
        + "    return (a + b);\n}\n\n"
        + "fn fn_add(long a, long b) {\n"
        + "    int size = 0;\n"
        + "    size += sizeof(a);\n"
        + "    size += sizeof(b);\n"
        + "    char* args = malloc(size);\n"
        + "    add_arg(args, a);\n"
        + "    add_arg(args, b);\n"
        + "    return lambda(eval_add, args - size);\n}\n\n"
        + "// main\n\n"
        + "long fn_main() {\n"
        + "    return eval(fn_add(2, 3)).as_i;\n}\n\n"
        + ENTRY;
    assert_eq!(out(code), expected);
}

#[test]
fn zero_parameter_function_gets_a_bare_closure() {
    let code = "five() -> Int { 5 }\nmain() -> Int { five() }";
    let o = out(code);
    assert!(o.contains("fn fn_five();\n\n"));
    assert!(o.contains("    return lambda(eval_five, NULL);\n}\n\n"));
    assert!(o.contains("    return eval(fn_five()).as_i;\n"));
}

#[test]
fn compiling_twice_gives_identical_output() {
    let code = "sq(n: Int) -> Int { *(n, n) }\nmain() -> Int { let(x: Int, sq(4)) +(x, sq(2)) }";
    assert_eq!(out(code), out(code));
}

#[test]
fn literal_if_emits_only_the_taken_branch() {
    let o = out("main() -> Int { if(true, 1, 2) }");
    assert!(o.contains("    return 1;\n"));
    assert!(!o.contains('?'));
    let o = out("main() -> Int { if(false, 1, 2) }");
    assert!(o.contains("    return 2;\n"));
    assert!(!o.contains('?'));
}

#[test]
fn literal_not_elides_the_ternary() {
    let o = out("main() -> Bool { not(true) }");
    assert!(o.contains("    return (!1);\n"));
    assert!(!o.contains('?'));
}

#[test]
fn non_literal_if_emits_a_ternary() {
    let o = out("pick(c: Bool) -> Int { if(c, 1, 2) }\nmain() -> Int { pick(true) }");
    assert!(o.contains("    return (c ? 1 : 2);\n"));
}

#[test]
fn list_function_uses_list_handles_and_accessors() {
    let code = "sum(xs: [Int]) -> Int { if(is_null(xs), 0, +(head(xs), sum(tail(xs)))) }\n\
                main() -> Int { sum(++([Int](), 4)) }";
    let o = out(code);
    assert!(o.contains("fn fn_sum(list xs);\n\n"));
    assert!(o.contains("    list xs = get_arg(args, list);\n"));
    assert!(o.contains(
        "    return ((xs == NULL) ? 0 : (((xs)->head) + eval(fn_sum(((xs)->tail))).as_i));\n"
    ));
    assert!(o.contains("    return eval(fn_sum(push(((list) NULL), 4))).as_i;\n"));
}

#[test]
fn list_result_selects_the_list_accessor() {
    let code = "one(x: Int) -> [Int] { ++([Int](), x) }\nmain() -> Int { len(one(1)) }";
    let o = out(code);
    assert!(o.contains("list eval_one(char* args) {\n"));
    assert!(o.contains("    return (len(eval(fn_one(1)).as_l));\n"));
}

#[test]
fn let_binding_is_visible_to_later_statements() {
    let o = out("main() -> Int { let(x: Int, 5) +(x, 1) }");
    assert!(o.contains("long fn_main() {\n    long x = 5;\n    return (x + 1);\n}\n\n"));
}

#[test]
fn untyped_let_takes_the_value_type() {
    let o = out("main() -> Int { let(ys, ++([Int](), 2)) len(ys) }");
    assert!(o.contains("    list ys = push(((list) NULL), 2);\n"));
    assert!(o.contains("    return (len(ys));\n"));
}

#[test]
fn let_binding_is_invisible_in_sibling_bodies() {
    let r = compile("a() -> Int { let(x: Int, 5) x }\nb() -> Int {\n x\n}");
    match r {
        Err(CompileError::UnknownSymbol { name, line }) => {
            assert_eq!(name, "x");
            assert_eq!(line, 3);
        },
        _ => panic!("expected an unknown symbol"),
    }
}

#[test]
fn bool_body_for_int_function_is_a_type_mismatch() {
    match compile("bar() -> Int { true }") {
        Err(CompileError::TypeMismatch { name, declared, resolved }) => {
            assert_eq!(name, "bar");
            assert_eq!(declared.text(), "Int");
            assert_eq!(resolved.text(), "Bool");
        },
        _ => panic!("expected a type mismatch"),
    }
}

#[test]
fn call_of_undeclared_function_is_an_unknown_symbol_at_its_line() {
    match compile("main() -> Int {\n  foo()\n}") {
        Err(CompileError::UnknownSymbol { name, line }) => {
            assert_eq!(name, "foo");
            assert_eq!(line, 2);
        },
        _ => panic!("expected an unknown symbol"),
    }
}

#[test]
fn main_may_return_int_whatever_it_declares() {
    assert!(compile("main() -> Bool { 1 }").is_ok());
    assert!(matches!(compile("other() -> Bool { 1 }"), Err(CompileError::TypeMismatch { .. })));
}

#[test]
fn missing_colon_is_a_syntax_error() {
    match compile("main( -> Int { 1 }") {
        Err(CompileError::Syntax { expected, found, line }) => {
            assert_eq!(expected, ":");
            assert_eq!(found, "Int");
            assert_eq!(line, 1);
        },
        _ => panic!("expected a syntax error"),
    }
}

#[test]
fn unterminated_body_is_a_syntax_error_at_the_end() {
    match compile("main() -> Int {\n 1\n") {
        Err(CompileError::Syntax { expected, found, line }) => {
            assert_eq!(expected, "}");
            assert_eq!(found, "end of input");
            assert_eq!(line, 2);
        },
        _ => panic!("expected a syntax error"),
    }
}

#[test]
fn empty_body_is_a_syntax_error() {
    match compile("main() -> Int { }") {
        Err(CompileError::Syntax { expected, found, .. }) => {
            assert_eq!(expected, "expression");
            assert_eq!(found, "}");
        },
        _ => panic!("expected a syntax error"),
    }
}

#[test]
fn ill_typed_last_call_has_no_matching_overload() {
    match compile("main() -> Int { +(1, true) }") {
        Err(CompileError::NoMatchingOverload { name, arg_types }) => {
            assert_eq!(name, "+");
            assert_eq!(arg_types.len(), 2);
            assert_eq!(arg_types[0].text(), "Int");
            assert_eq!(arg_types[1].text(), "Bool");
        },
        _ => panic!("expected no matching overload"),
    }
}

#[test]
fn ill_typed_inner_statement_is_unrecognized_at_generation() {
    match compile("foo(a: Int) -> Int { a }\nmain() -> Int { foo(true) 1 }") {
        Err(CompileError::UnrecognizedFunction { name, arg_types }) => {
            assert_eq!(name, "foo");
            assert_eq!(arg_types.len(), 1);
            assert_eq!(arg_types[0].text(), "Bool");
        },
        _ => panic!("expected an unrecognized function"),
    }
}

#[test]
fn let_as_last_statement_is_not_a_value() {
    match compile("main() -> Int { let(x: Int, 5) }") {
        Err(CompileError::LetAsValue { name }) => assert_eq!(name, "x"),
        _ => panic!("expected a let used as a value"),
    }
}

#[test]
fn let_with_wrong_declared_type_is_a_type_mismatch() {
    match compile("main() -> Int { let(x: Bool, 5) 1 }") {
        Err(CompileError::TypeMismatch { name, declared, resolved }) => {
            assert_eq!(name, "x");
            assert_eq!(declared.text(), "Bool");
            assert_eq!(resolved.text(), "Int");
        },
        _ => panic!("expected a type mismatch"),
    }
}

#[test]
fn integer_literal_too_large_is_a_syntax_error() {
    match compile("main() -> Int { 2147483648 }") {
        Err(CompileError::Syntax { expected, found, .. }) => {
            assert_eq!(expected, "integer");
            assert_eq!(found, "2147483648");
        },
        _ => panic!("expected a syntax error"),
    }
    assert!(compile("main() -> Int { 2147483647 }").is_ok());
}

#[test]
fn recursion_sees_the_function_own_symbol() {
    let o = out("fact(n: Int) -> Int { if(<=(n, 1), 1, *(n, fact(-(n, 1)))) }\nmain() -> Int { fact(5) }");
    assert!(o.contains("    return ((n <= 1) ? 1 : (n * eval(fn_fact((n - 1))).as_i));\n"));
}

#[test]
fn generic_user_function_on_a_list_uses_the_list_accessor() {
    let code = "id(x: T) -> T { x }\nmain() -> Int { len(id(++([Int](), 1))) }";
    let o = out(code);
    assert!(o.contains("    return (len(eval(fn_id(push(((list) NULL), 1))).as_l));\n"));
    let code = "id(x: T) -> T { x }\nmain() -> Int { id(3) }";
    assert!(out(code).contains("    return eval(fn_id(3)).as_i;\n"));
}
