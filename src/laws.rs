use vstd::prelude::*;
use crate::types::Ty;
use crate::ast::Node;
use crate::error::Failure;
use crate::symbols::{
    SymModel, find_fn, symbol_matches, node_type, arg_types, types_match, unify, unify_all,
    collect_all, collect, binding, substitute, call_type,
    lemma_find_fn_first, lemma_find_fn_is,
};
use crate::compiler::{
    compile_node, inline_symbols, inline_entries, gen_t, list_of, InlineOp,
};
use crate::parser::{
    parse_program, program_at, fn_at, param_types, expr_at, call_at, args_at, let_at, stmts_at,
};
use crate::tokens::{TokenModel, TokenType};
use crate::program::program_output;

verus! {

/// The output for a source text is a function of that text alone: compiling equal
/// texts gives equal output, byte for byte.
pub proof fn lemma_output_determined(a: Seq<char>, b: Seq<char>)
    requires
        a == b,
    ensures
        program_output(a) == program_output(b),
{
}


/// `head` on a list whose elements have any type that is not a generic placeholder
/// resolves statically to that element type, in any table that starts with the
/// primitive operators: `head` of a `[Int]` is `Int`, `head` of a `[[Bool]]` is `[Bool]`.
pub proof fn lemma_head_resolves_to_element(table: Seq<SymModel>, elem: Ty, xs: Seq<char>)
    requires
        !(elem is Gen),
        inline_symbols().len() <= table.len(),
        table.subrange(0, inline_symbols().len() as int) == inline_symbols(),
    ensures
        node_type(
            table,
            Node::Call("head"@, seq![Node::Var(SymModel { name: xs, ty: list_of(elem), params: None })]),
        ) == Ok::<Ty, Failure>(elem),
{
    let args = seq![Node::Var(SymModel { name: xs, ty: list_of(elem), params: None })];
    let tys = seq![list_of(elem)];
    assert(args.subrange(0, 0) =~= Seq::<Node>::empty());
    assert(arg_types(table, Seq::<Node>::empty()) == Ok::<Seq<Ty>, Failure>(Seq::empty()));
    assert(Seq::<Ty>::empty().push(list_of(elem)) =~= tys);
    assert(args[0] == Node::Var(SymModel { name: xs, ty: list_of(elem), params: None }));
    assert(node_type(table, args[0]) == Ok::<Ty, Failure>(list_of(elem)));
    assert(arg_types(table, args) == Ok::<Seq<Ty>, Failure>(tys));
    let inl = inline_symbols();
    assert(inl.len() == 21);
    assert forall|j: int| 0 <= j < 17 implies !symbol_matches(#[trigger] table[j], "head"@, tys) by {
        assert(table.subrange(0, 21)[j] == table[j]);
        assert(table[j] == inl[j]);
        if j == 16 {
            reveal_strlit("len");
            reveal_strlit("head");
            assert(inl[16].name == "len"@);
            assert(inl[16].name.len() == 3);
        } else if j == 13 {
            assert(inl[13].params->0 == seq![Ty::Bool]);
            assert(unify(list_of(elem), Ty::Bool, Seq::empty()) is None);
            assert(tys.subrange(0, 0) =~= Seq::<Ty>::empty());
        } else {
            assert(inl[j].params->0.len() != 1);
        }
    }
    assert(table.subrange(0, 21)[17] == table[17]);
    assert(table[17] == inl[17]);
    let goals = seq![list_of(gen_t())];
    assert(inl[17].params->0 == goals);
    assert(tys.subrange(0, 0) =~= Seq::<Ty>::empty());
    assert(unify(elem, gen_t(), Seq::empty()) is Some);
    assert(unify(list_of(elem), list_of(gen_t()), Seq::empty()) is Some);
    assert(unify_all(tys.subrange(0, 0), goals) == Some(Seq::<(Seq<char>, Ty)>::empty()));
    assert(types_match(tys, goals));
    assert(symbol_matches(table[17], "head"@, tys));
    lemma_find_fn_is(table, "head"@, tys, 17);
    assert(table[17].ty == gen_t());
    let env = seq![("T"@, elem)];
    assert(goals.subrange(0, 0) =~= Seq::<Ty>::empty());
    assert(collect_all(goals.subrange(0, 0), tys) == Seq::<(Seq<char>, Ty)>::empty());
    assert(goals[0].unwrap_fn() == list_of(gen_t()));
    assert(tys[0].unwrap_fn() == list_of(elem));
    assert(collect_all(goals, tys) == collect(list_of(gen_t()), list_of(elem), Seq::empty()));
    assert(collect(list_of(gen_t()), list_of(elem), Seq::empty()) == collect(gen_t(), elem, Seq::empty()));
    assert(collect(gen_t(), elem, Seq::empty()) =~= env);
    assert(binding(env, "T"@) == Some(elem));
    assert(substitute(gen_t(), env) == Ok::<Ty, Failure>(elem));
    assert(call_type(table, "head"@, tys) == Ok::<Ty, Failure>(elem));
}

/// A conditional whose condition is a boolean literal, and whose call the primitive
/// `if` accepts, compiles to the code of the branch it selects and nothing else: no
/// runtime test is emitted.
pub proof fn lemma_literal_if_selects_branch(table: Seq<SymModel>, c: bool, x: Node, y: Node)
    requires
        arg_types(table, seq![Node::Bool(c), x, y]) matches Ok(tys)
            && types_match(tys, seq![Ty::Bool, gen_t(), gen_t()]),
    ensures
        compile_node(table, Node::Call("if"@, seq![Node::Bool(c), x, y]))
            == compile_node(table, if c { x } else { y }),
{
    let args = seq![Node::Bool(c), x, y];
    let tys = arg_types(table, args)->Ok_0;
    let inl = inline_symbols();
    assert(inl.len() == 21);
    assert forall|j: int| 0 <= j < 14 implies !symbol_matches(#[trigger] inl[j], "if"@, tys) by {
        reveal_strlit("+");
        reveal_strlit("-");
        reveal_strlit("*");
        reveal_strlit("/");
        reveal_strlit("mod");
        reveal_strlit("==");
        reveal_strlit("!=");
        reveal_strlit(">");
        reveal_strlit("<");
        reveal_strlit(">=");
        reveal_strlit("<=");
        reveal_strlit("and");
        reveal_strlit("or");
        reveal_strlit("not");
        reveal_strlit("if");
        reveal_strlit("[Int]");
        reveal_strlit("len");
        reveal_strlit("head");
    }
    assert(symbol_matches(inl[14], "if"@, tys));
    lemma_find_fn_is(inl, "if"@, tys, 14);
    assert(inline_entries()[14].3 == InlineOp::If);
}

/// Overloads that share a name but differ in arity are told apart by the number of
/// arguments, wherever they stand in the table: a call that one of them accepts
/// resolves to it.
pub proof fn lemma_overload_by_arity(table: Seq<SymModel>, name: Seq<char>, args: Seq<Ty>, i: int, k: int)
    requires
        0 <= i < table.len(),
        0 <= k < table.len(),
        table[i].name == name,
        table[k].name == name,
        table[i].params is Some,
        table[k].params is Some,
        table[k].params->0.len() != args.len(),
        types_match(args, table[i].params->0),
        forall|j: int| 0 <= j < table.len() && j != i && j != k ==> (#[trigger] table[j]).name != name,
    ensures
        find_fn(table, name, args) == Some(i),
{
    assert forall|j: int| 0 <= j < i implies !symbol_matches(#[trigger] table[j], name, args) by {}
    lemma_find_fn_is(table, name, args, i);
}

/// Swapping two neighbouring symbols changes what a call resolves to only when both
/// accept it: otherwise the same symbol is picked either way.
pub proof fn lemma_order_matters_only_on_ties(
    pre: Seq<SymModel>,
    a: SymModel,
    b: SymModel,
    post: Seq<SymModel>,
    name: Seq<char>,
    args: Seq<Ty>,
)
    requires
        !(symbol_matches(a, name, args) && symbol_matches(b, name, args)),
    ensures
        ({
            let t1 = pre + seq![a, b] + post;
            let t2 = pre + seq![b, a] + post;
            match find_fn(t1, name, args) {
                None => find_fn(t2, name, args) is None,
                Some(i) => find_fn(t2, name, args) matches Some(j) && t1[i] == t2[j],
            }
        }),
{
    let t1 = pre + seq![a, b] + post;
    let t2 = pre + seq![b, a] + post;
    let k = pre.len() as int;
    assert(t1.len() == t2.len());
    assert(t1[k] == a && t1[k + 1] == b && t2[k] == b && t2[k + 1] == a);
    assert forall|j: int| 0 <= j < t1.len() && j != k && j != k + 1 implies #[trigger] t1[j] == t2[j] by {
        if j < k {
            assert(t1[j] == pre[j] && t2[j] == pre[j]);
        } else {
            assert(t1[j] == post[j - k - 2] && t2[j] == post[j - k - 2]);
        }
    }
    lemma_find_fn_first(t1, name, args);
    lemma_find_fn_first(t2, name, args);
    match find_fn(t1, name, args) {
        None => {
            assert forall|j: int| 0 <= j < t2.len() implies !symbol_matches(#[trigger] t2[j], name, args) by {
                if j == k {
                    assert(!symbol_matches(t1[k + 1], name, args));
                } else if j == k + 1 {
                    assert(!symbol_matches(t1[k], name, args));
                } else {
                    assert(!symbol_matches(t1[j], name, args));
                }
            }
        },
        Some(i) => {
            if i < k {
                assert forall|j: int| 0 <= j < i implies !symbol_matches(#[trigger] t2[j], name, args) by {
                    assert(!symbol_matches(t1[j], name, args));
                }
                lemma_find_fn_is(t2, name, args, i);
            } else if i == k {
                assert forall|j: int| 0 <= j < k + 1 implies !symbol_matches(#[trigger] t2[j], name, args) by {
                    if j < k {
                        assert(!symbol_matches(t1[j], name, args));
                    }
                }
                lemma_find_fn_is(t2, name, args, k + 1);
            } else if i == k + 1 {
                assert forall|j: int| 0 <= j < k implies !symbol_matches(#[trigger] t2[j], name, args) by {
                    assert(!symbol_matches(t1[j], name, args));
                }
                lemma_find_fn_is(t2, name, args, k);
            } else {
                assert forall|j: int| 0 <= j < i implies !symbol_matches(#[trigger] t2[j], name, args) by {
                    if j == k {
                        assert(!symbol_matches(t1[k + 1], name, args));
                    } else if j == k + 1 {
                        assert(!symbol_matches(t1[k], name, args));
                    } else {
                        assert(!symbol_matches(t1[j], name, args));
                    }
                }
                lemma_find_fn_is(t2, name, args, i);
            }
        },
    }
}

/// The symbol that a declaration registers: its name, its return type wrapped as a
/// function type, and its parameter types.
pub open spec fn decl_symbol(n: Node) -> SymModel {
    match n {
        Node::Func(name, ps, ret, _) => SymModel {
            name,
            ty: Ty::Func(Box::new(ret)),
            params: Some(param_types(ps)),
        },
        _ => SymModel { name: Seq::empty(), ty: Ty::Unit, params: None },
    }
}

proof fn lemma_program_at_table(toks: Seq<TokenModel>, p: int, table: Seq<SymModel>, acc: Seq<Node>)
    ensures
        program_at(toks, p, table, acc) matches Ok((ns, t)) ==> acc.len() <= ns.len()
            && ns.subrange(0, acc.len() as int) == acc
            && t == table + ns.subrange(acc.len() as int, ns.len() as int).map_values(|n: Node| decl_symbol(n)),
    decreases toks.len() - p,
{
    if 0 <= p < toks.len() {
        match fn_at(toks, p, table) {
            Ok((f, q, t2)) => {
                if p < q <= toks.len() {
                    lemma_program_at_table(toks, q, t2, acc.push(f));
                    match program_at(toks, q, t2, acc.push(f)) {
                        Ok((ns, t)) => {
                            assert(t2 == table.push(decl_symbol(f)));
                            let rest = ns.subrange(acc.len() as int + 1, ns.len() as int);
                            let all = ns.subrange(acc.len() as int, ns.len() as int);
                            assert(ns.subrange(0, acc.len() as int + 1)[acc.len() as int] == f);
                            assert(all =~= seq![f] + rest);
                            assert(ns.subrange(0, acc.len() as int) =~= ns.subrange(0, acc.len() as int + 1).subrange(0, acc.len() as int));
                            assert(all.map_values(|n: Node| decl_symbol(n))
                                =~= seq![decl_symbol(f)] + rest.map_values(|n: Node| decl_symbol(n)));
                            assert(t =~= table + all.map_values(|n: Node| decl_symbol(n)));
                        },
                        Err(_) => {},
                    }
                }
            },
            Err(_) => {},
        }
    } else {
        assert(acc.subrange(0, acc.len() as int) =~= acc);
        assert(acc.subrange(acc.len() as int, acc.len() as int).map_values(|n: Node| decl_symbol(n))
            =~= Seq::<SymModel>::empty());
        assert(table + Seq::<SymModel>::empty() =~= table);
    }
}

/// After a program is parsed, the table holds the seed followed by exactly one function
/// symbol per declaration, in declaration order. Parameters and let-bound names of one
/// body never enter it, so no other body can see them.
pub proof fn lemma_program_table(toks: Seq<TokenModel>, table: Seq<SymModel>)
    ensures
        parse_program(toks, table) matches Ok((ns, t)) ==> t == table + ns.map_values(|n: Node| decl_symbol(n)),
{
    lemma_program_at_table(toks, 0, table, Seq::empty());
    match parse_program(toks, table) {
        Ok((ns, t)) => {
            assert(ns.subrange(0, ns.len() as int) =~= ns);
        },
        Err(_) => {},
    }
}

proof fn lemma_expr_advances(toks: Seq<TokenModel>, p: int, table: Seq<SymModel>)
    ensures
        expr_at(toks, p, table) matches Ok((_, q)) ==> p < q <= toks.len(),
    decreases toks.len() - p, 3int,
{
    if 0 <= p < toks.len() && toks[p].0 == TokenType::Literal {
        lemma_call_advances(toks, p + 1, table, toks[p].1);
    }
}

proof fn lemma_call_advances(toks: Seq<TokenModel>, p: int, table: Seq<SymModel>, name: Seq<char>)
    ensures
        call_at(toks, p, table, name) matches Ok((_, q)) ==> p < q <= toks.len(),
    decreases toks.len() - p, 2int,
{
    if 0 <= p && p + 1 < toks.len() && toks[p + 1].0 != TokenType::RightParen {
        lemma_expr_advances(toks, p + 1, table);
        if let Ok((a, q)) = expr_at(toks, p + 1, table) {
            if p + 1 < q <= toks.len() {
                lemma_args_advance(toks, q, table, seq![a]);
            }
        }
    }
}

proof fn lemma_args_advance(toks: Seq<TokenModel>, q: int, table: Seq<SymModel>, acc: Seq<Node>)
    ensures
        args_at(toks, q, table, acc) matches Ok((_, r)) ==> q < r <= toks.len(),
    decreases toks.len() - q, 1int,
{
    if 0 <= q < toks.len() && toks[q].0 == TokenType::Comma {
        lemma_expr_advances(toks, q + 1, table);
        if let Ok((a, r)) = expr_at(toks, q + 1, table) {
            if q + 1 < r <= toks.len() {
                lemma_args_advance(toks, r, table, acc.push(a));
            }
        }
    }
}

proof fn lemma_let_advances(toks: Seq<TokenModel>, p: int, table: Seq<SymModel>)
    ensures
        let_at(toks, p, table) matches Ok((_, _, r)) ==> p < r <= toks.len(),
{
    lemma_expr_advances(toks, p + 3, table);
    lemma_expr_advances(toks, p + 5, table);
}

/// A let binding's symbol is in scope for the statements after it in the same body:
/// they are parsed against the table extended with that symbol.
pub proof fn lemma_let_visible_to_later_statements(
    toks: Seq<TokenModel>,
    q: int,
    table: Seq<SymModel>,
    acc: Seq<Node>,
)
    requires
        0 <= q < toks.len(),
        toks[q].0 == TokenType::Let,
    ensures
        let_at(toks, q + 1, table) matches Ok((n, s, r)) ==> stmts_at(toks, q, table, acc)
            == stmts_at(toks, r, table.push(s), acc.push(n)),
{
    lemma_let_advances(toks, q + 1, table);
}

/// When exactly one symbol of a table accepts a call, the call resolves to that symbol
/// however the table is ordered: every permutation of the table picks it as well.
pub proof fn lemma_unique_match_ignores_order(
    t1: Seq<SymModel>,
    t2: Seq<SymModel>,
    name: Seq<char>,
    args: Seq<Ty>,
    i: int,
)
    requires
        0 <= i < t1.len(),
        symbol_matches(t1[i], name, args),
        forall|j: int| 0 <= j < t1.len() && j != i ==> !symbol_matches(#[trigger] t1[j], name, args),
        t2.to_multiset() == t1.to_multiset(),
    ensures
        find_fn(t2, name, args) matches Some(j) && t2[j] == t1[i],
{
    t1.to_multiset_ensures();
    t2.to_multiset_ensures();
    assert(t1.contains(t1[i]));
    assert(t1.to_multiset().count(t1[i]) > 0);
    assert(t2.to_multiset().count(t1[i]) > 0);
    assert(t2.contains(t1[i]));
    lemma_find_fn_first(t2, name, args);
    match find_fn(t2, name, args) {
        None => {
            let k = choose|k: int| 0 <= k < t2.len() && t2[k] == t1[i];
            assert(!symbol_matches(t2[k], name, args));
        },
        Some(j) => {
            assert(t2.contains(t2[j]));
            assert(t2.to_multiset().count(t2[j]) > 0);
            assert(t1.to_multiset().count(t2[j]) > 0);
            assert(t1.contains(t2[j]));
            let k = choose|k: int| 0 <= k < t1.len() && t1[k] == t2[j];
            assert(symbol_matches(t1[k], name, args));
        },
    }
}

/// Parsing one declaration adds exactly its own symbol to the enclosing table: its
/// parameters and let-bound names stay in the body's own scope.
pub proof fn lemma_declaration_adds_only_itself(toks: Seq<TokenModel>, p: int, table: Seq<SymModel>)
    ensures
        fn_at(toks, p, table) matches Ok((f, _, t)) ==> t == table.push(decl_symbol(f)),
{
}

} // verus!
