use vstd::prelude::*;
use crate::ast::{ASTNode, Node, nodes_view, lemma_nodes_view};
use crate::compiler::{compile_node, compile_expr, inline_symbols, table_from_inlines};
use crate::error::{CompileError, Failure, result_view};
use crate::parser::{parse_program, build_ast};
use crate::scanner::{lex, get_tokens};
use crate::symbols::{SymModel, SymbolTable};

verus! {

/// What opens every output file: the runtime's header.
pub open spec fn header_text() -> Seq<char> {
    "#include <stdio.h>\n#include \"flip.h\"\n\n"@
}

/// What closes every output file: the host entry point, which prints `main`'s result.
pub open spec fn entry_text() -> Seq<char> {
    "// C main\n\nint main() {\n    printf(\"%ld\\n\", fn_main());\n    return 0;\n}\n"@
}

/// The declarations compiled in order and concatenated; the first failure.
pub open spec fn compile_all(table: Seq<SymModel>, ns: Seq<Node>) -> Result<Seq<char>, Failure>
    decreases ns.len(),
{
    if ns.len() == 0 {
        Ok(Seq::empty())
    } else {
        match compile_all(table, ns.subrange(0, ns.len() - 1)) {
            Err(e) => Err(e),
            Ok(t) => match compile_node(table, ns[ns.len() - 1]) {
                Err(e) => Err(e),
                Ok(u) => Ok(t + u),
            },
        }
    }
}

/// The output file for a source text: lexed, parsed against the primitive operators,
/// every declaration compiled in order against the final table.
pub open spec fn program_output(code: Seq<char>) -> Result<Seq<char>, Failure> {
    match parse_program(lex(code, 0, 1), inline_symbols()) {
        Err(e) => Err(e),
        Ok((ns, table)) => match compile_all(table, ns) {
            Err(e) => Err(e),
            Ok(t) => Ok(header_text() + t + entry_text()),
        },
    }
}

proof fn lemma_compile_all_prefix_err(table: Seq<SymModel>, ns: Seq<Node>, i: int)
    requires
        0 <= i <= ns.len(),
        compile_all(table, ns.subrange(0, i)) is Err,
    ensures
        compile_all(table, ns) == compile_all(table, ns.subrange(0, i)),
    decreases ns.len() - i,
{
    if i == ns.len() {
        assert(ns.subrange(0, i) =~= ns);
    } else {
        let n = ns.len() - 1;
        assert(ns.subrange(0, n).subrange(0, i) =~= ns.subrange(0, i));
        lemma_compile_all_prefix_err(table, ns.subrange(0, n), i);
    }
}

/// Compiles a whole source text to the text of the output file.
pub fn compile(code: &str) -> (r: Result<String, CompileError>)
    requires
        code@.len() < usize::MAX,
    ensures
        result_view(r) == program_output(code@),
{
    let mut symbols = table_from_inlines();
    let tokens = get_tokens(code);
    let ast = match build_ast(tokens, &mut symbols) {
        Ok(a) => a,
        Err(e) => return Err(e),
    };
    let ghost ns = nodes_view(ast@);
    proof {
        lemma_nodes_view(ast@);
    }
    let mut out = String::from_str("#include <stdio.h>\n#include \"flip.h\"\n\n");
    let ghost start = out@;
    let mut i: usize = 0;
    assert(ns.subrange(0, 0) =~= Seq::<Node>::empty());
    assert(out@ =~= start + Seq::<char>::empty());
    while i < ast.len()
        invariant
            i <= ast.len(),
            parse_program(lex(code@, 0, 1), inline_symbols()) == Ok::<(Seq<Node>, Seq<SymModel>), Failure>((ns, symbols@)),
            ns == nodes_view(ast@),
            ns.len() == ast.len(),
            forall|j: int| 0 <= j < ast.len() ==> #[trigger] ns[j] == ast@[j]@,
            compile_all(symbols@, ns.subrange(0, i as int)) is Ok,
            out@ == start + compile_all(symbols@, ns.subrange(0, i as int))->Ok_0,
        decreases ast.len() - i,
    {
        assert(ns.subrange(0, i + 1).subrange(0, i as int) =~= ns.subrange(0, i as int));
        assert(ns.subrange(0, i + 1)[i as int] == ast@[i as int]@);
        let ghost before = compile_all(symbols@, ns.subrange(0, i as int))->Ok_0;
        match compile_expr(&ast[i], &symbols) {
            Ok(b) => {
                let t = b.get();
                out.append(t.as_str());
                assert(out@ =~= start + (before + t@));
            },
            Err(e) => {
                proof {
                    lemma_compile_all_prefix_err(symbols@, ns, i + 1);
                }
                return Err(e);
            },
        }
        i += 1;
    }
    assert(ns.subrange(0, i as int) =~= ns);
    out.append("// C main\n\nint main() {\n    printf(\"%ld\\n\", fn_main());\n    return 0;\n}\n");
    Ok(out)
}

} // verus!
