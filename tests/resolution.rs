use flip::ast::ASTNode;
use flip::compiler::{compile_expr, get_inlines, table_from_inlines, Buffer, InlineOp};
use flip::error::CompileError;
use flip::symbols::{Symbol, SymbolTable};
use flip::types::NodeType;

fn var(name: &str, t: NodeType) -> ASTNode {
    ASTNode::Var(Symbol::new_var(name, t))
}

fn call(name: &str, args: Vec<ASTNode>) -> ASTNode {
    ASTNode::Call(name.to_string(), args)
}

fn list(t: NodeType) -> NodeType {
    NodeType::List(Box::new(t))
}

fn type_of(table: &SymbolTable, node: &ASTNode) -> String {
    match table.get_node_type(node) {
        Ok(t) => t.text(),
        Err(_) => panic!("expected the node to have a type"),
    }
}

#[test]
fn head_of_int_list_is_int() {
    let table = table_from_inlines();
    let node = call("head", vec![var("xs", list(NodeType::Int))]);
    assert_eq!(type_of(&table, &node), "Int");
}

#[test]
fn head_of_list_of_bool_lists_is_bool_list() {
    let table = table_from_inlines();
    let node = call("head", vec![var("xs", list(list(NodeType::Bool)))]);
    assert_eq!(type_of(&table, &node), "[Bool]");
    let node = call("tail", vec![var("xs", list(list(NodeType::Bool)))]);
    assert_eq!(type_of(&table, &node), "[[Bool]]");
}

#[test]
fn comparison_requires_equal_types() {
    let table = table_from_inlines();
    assert_eq!(type_of(&table, &call("==", vec![ASTNode::Int(1), ASTNode::Int(2)])), "Bool");
    let mixed = call("==", vec![ASTNode::Int(1), ASTNode::Bool(true)]);
    assert!(matches!(table.get_node_type(&mixed), Err(CompileError::NoMatchingOverload { .. })));
}

fn overloads(first_unary: bool) -> SymbolTable {
    let unary = Symbol::new_fn("f", vec![NodeType::Int], NodeType::Fn(Box::new(NodeType::Int)));
    let binary = Symbol::new_fn("f", vec![NodeType::Int, NodeType::Int], NodeType::Fn(Box::new(NodeType::Bool)));
    if first_unary {
        SymbolTable::from(vec![unary, binary])
    } else {
        SymbolTable::from(vec![binary, unary])
    }
}

#[test]
fn overloads_resolve_by_arity_in_either_order() {
    for first_unary in [true, false] {
        let table = overloads(first_unary);
        assert_eq!(type_of(&table, &call("f", vec![ASTNode::Int(1)])), "Fn(Int)");
        assert_eq!(type_of(&table, &call("f", vec![ASTNode::Int(1), ASTNode::Int(2)])), "Fn(Bool)");
    }
}

#[test]
fn ambiguous_overloads_pick_the_first_declared() {
    let int_f = Symbol::new_fn("g", vec![NodeType::Int], NodeType::Int);
    let gen_f = Symbol::new_fn("g", vec![NodeType::gen("T")], NodeType::Bool);
    let table = SymbolTable::from(vec![int_f, gen_f]);
    assert_eq!(type_of(&table, &call("g", vec![ASTNode::Int(1)])), "Int");
    let int_f = Symbol::new_fn("g", vec![NodeType::Int], NodeType::Int);
    let gen_f = Symbol::new_fn("g", vec![NodeType::gen("T")], NodeType::Bool);
    let table = SymbolTable::from(vec![gen_f, int_f]);
    assert_eq!(type_of(&table, &call("g", vec![ASTNode::Int(1)])), "Bool");
    assert_eq!(type_of(&table, &call("g", vec![ASTNode::Bool(true)])), "Bool");
}

#[test]
fn unbound_return_generic_is_unresolved() {
    let mk = Symbol::new_fn("mk", vec![NodeType::Int], NodeType::gen("U"));
    let table = SymbolTable::from(vec![mk]);
    match table.get_node_type(&call("mk", vec![ASTNode::Int(1)])) {
        Err(CompileError::UnresolvedGeneric { name }) => assert_eq!(name, "U"),
        _ => panic!("expected an unresolved generic"),
    }
}

#[test]
fn let_node_has_no_type() {
    let table = table_from_inlines();
    let node = ASTNode::Let(Symbol::new_var("x", NodeType::Int), Box::new(ASTNode::Int(1)));
    match table.get_node_type(&node) {
        Err(CompileError::LetAsValue { name }) => assert_eq!(name, "x"),
        _ => panic!("expected a let used as a value"),
    }
}

#[test]
fn compare_types_checks_arity_then_unifies() {
    let table = table_from_inlines();
    let args = vec![ASTNode::Int(1), ASTNode::Int(2)];
    assert!(matches!(table.compare_types(&args, &vec![NodeType::Int]), Ok(false)));
    assert!(matches!(table.compare_types(&args, &vec![NodeType::gen("T"), NodeType::gen("T")]), Ok(true)));
    let mixed = vec![ASTNode::Int(1), ASTNode::Bool(true)];
    assert!(matches!(table.compare_types(&mixed, &vec![NodeType::gen("T"), NodeType::gen("T")]), Ok(false)));
}

#[test]
fn table_queries_report_the_matched_symbol() {
    let table = table_from_inlines();
    let args = vec![var("xs", list(NodeType::Int))];
    let name = "head".to_string();
    assert!(matches!(table.check_types(&name, &args), Ok(true)));
    match table.get_arg_types(&name, &args) {
        Ok(ps) => {
            assert_eq!(ps.len(), 1);
            assert_eq!(ps[0].text(), "[Generic(T)]");
        },
        Err(_) => panic!("expected parameter types"),
    }
    match table.get_return_type(&name, &args) {
        Ok(t) => assert_eq!(t.text(), "Generic(T)"),
        Err(_) => panic!("expected a return type"),
    }
    let missing = "nope".to_string();
    assert!(matches!(table.check_types(&missing, &args), Ok(false)));
    assert!(matches!(table.get_return_type(&missing, &args), Err(CompileError::NoMatchingOverload { .. })));
}

#[test]
fn seed_table_lists_the_primitive_operators_in_order() {
    let table = table_from_inlines();
    let inlines = get_inlines();
    assert_eq!(table.iter().len(), 21);
    assert_eq!(inlines.len(), 21);
    assert_eq!(table.iter()[0].name, "+");
    assert_eq!(table.iter()[14].name, "if");
    assert!(inlines[14].op == InlineOp::If);
    assert_eq!(table.iter()[20].name, "is_null");
}

#[test]
fn symbol_table_insertions_append() {
    let mut table = SymbolTable::from(Vec::new());
    table.insert(Symbol::new_var("a", NodeType::Int));
    table.insert_vec(&vec![Symbol::new_var("b", NodeType::Bool), Symbol::new_var("c", NodeType::Unit)]);
    let names: Vec<String> = table.iter().iter().map(|s| s.name.clone()).collect();
    assert_eq!(names, vec!["a", "b", "c"]);
}

fn text(node: &ASTNode, table: &SymbolTable) -> String {
    match compile_expr(node, table) {
        Ok(b) => b.get(),
        Err(_) => panic!("expected the node to compile"),
    }
}

#[test]
fn operators_expand_inline() {
    let table = table_from_inlines();
    let a = || var("a", NodeType::Int);
    let xs = || var("xs", list(NodeType::Int));
    assert_eq!(text(&call("mod", vec![a(), ASTNode::Int(3)]), &table), "(a % 3)");
    assert_eq!(text(&call("and", vec![ASTNode::Bool(true), ASTNode::Bool(false)]), &table), "(1 && 0)");
    assert_eq!(text(&call("or", vec![ASTNode::Bool(true), ASTNode::Bool(false)]), &table), "(1 || 0)");
    assert_eq!(text(&call("!=", vec![a(), ASTNode::Int(-2)]), &table), "(a != -2)");
    assert_eq!(text(&call(">=", vec![a(), a()]), &table), "(a >= a)");
    assert_eq!(text(&call("/", vec![a(), ASTNode::Int(2)]), &table), "(a / 2)");
    assert_eq!(text(&call("len", vec![xs()]), &table), "(len(xs))");
    assert_eq!(text(&call("tail", vec![xs()]), &table), "((xs)->tail)");
    assert_eq!(text(&call("is_null", vec![xs()]), &table), "(xs == NULL)");
    assert_eq!(text(&call("++", vec![xs(), a()]), &table), "push(xs, a)");
    assert_eq!(text(&call("[Int]", vec![]), &table), "((list) NULL)");
}

#[test]
fn let_compiles_to_a_local_declaration() {
    let table = table_from_inlines();
    let node = ASTNode::Let(Symbol::new_var("x", NodeType::Int), Box::new(ASTNode::Int(7)));
    assert_eq!(text(&node, &table), "    long x = 7;\n");
}

#[test]
fn unknown_call_is_unrecognized() {
    let table = table_from_inlines();
    match compile_expr(&call("nothing", vec![ASTNode::Int(1)]), &table) {
        Err(CompileError::UnrecognizedFunction { name, .. }) => assert_eq!(name, "nothing"),
        _ => panic!("expected an unrecognized function"),
    }
}

#[test]
fn leaves_print_their_immediate_text() {
    assert_eq!(ASTNode::Int(-7).imm_repr(), "-7");
    assert_eq!(ASTNode::Int(i32::MIN).imm_repr(), "-2147483648");
    assert_eq!(ASTNode::Int(0).imm_repr(), "0");
    assert_eq!(ASTNode::Bool(true).imm_repr(), "1");
    assert_eq!(ASTNode::Bool(false).imm_repr(), "0");
    assert_eq!(var("abc", NodeType::Int).imm_repr(), "abc");
    assert_eq!(call("f", vec![]).imm_repr(), "");
}

#[test]
fn buffer_appends_text_and_instructions() {
    let mut b = Buffer::new();
    b.emit("x");
    b.emit_instr("y;");
    assert_eq!(b.get(), "x    y;\n");
}

#[test]
fn types_print_and_unwrap() {
    let f = NodeType::Fn(Box::new(list(NodeType::gen("T"))));
    assert_eq!(f.text(), "Fn([Generic(T)])");
    assert_eq!(f.unwrap_fn().text(), "[Generic(T)]");
    assert_eq!(NodeType::Int.unwrap_fn().text(), "Int");
    assert_eq!(NodeType::Unit.text(), "None");
    assert!(f.unwrap_fn().is_list());
    assert!(!f.is_list());
    assert!(NodeType::gen("T").same(&NodeType::gen("T")));
    assert!(!NodeType::gen("T").same(&NodeType::gen("U")));
}
