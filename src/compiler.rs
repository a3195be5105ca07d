use vstd::prelude::*;
use crate::types::{NodeType, Ty, types_view};
use crate::ast::{ASTNode, Node, nodes_view, lemma_nodes_view, imm_text};
use crate::error::{CompileError, Failure, result_view};
use crate::symbols::{
    Symbol, SymModel, SymbolTable, symbols_view, arg_types, find_fn, call_type,
};

verus! {

/// The primitive operators that are expanded at their call sites.
#[derive(Clone, Copy, PartialEq, Eq, Structural)]
pub enum InlineOp {
    Add,
    Sub,
    Mul,
    Div,
    Mod,
    Eq,
    Ne,
    Gt,
    Lt,
    Ge,
    Le,
    And,
    Or,
    Not,
    If,
    EmptyList,
    Len,
    Head,
    Tail,
    Push,
    IsNull,
}

/// A primitive operator: its name, parameter types, return type and kind.
pub struct InlineFn {
    pub name: String,
    pub arg_types: Vec<NodeType>,
    pub return_type: NodeType,
    pub op: InlineOp,
}

pub type InlineModel = (Seq<char>, Seq<Ty>, Ty, InlineOp);

impl View for InlineFn {
    type V = InlineModel;

    open spec fn view(&self) -> InlineModel {
        (self.name@, types_view(self.arg_types@), self.return_type@, self.op)
    }
}

pub open spec fn gen_t() -> Ty {
    Ty::Gen("T"@)
}

pub open spec fn list_of(t: Ty) -> Ty {
    Ty::List(Box::new(t))
}

/// The primitive operators, in lookup order.
pub open spec fn inline_entries() -> Seq<InlineModel> {
    seq![
        ("+"@, seq![Ty::Int, Ty::Int], Ty::Int, InlineOp::Add),
        ("-"@, seq![Ty::Int, Ty::Int], Ty::Int, InlineOp::Sub),
        ("*"@, seq![Ty::Int, Ty::Int], Ty::Int, InlineOp::Mul),
        ("/"@, seq![Ty::Int, Ty::Int], Ty::Int, InlineOp::Div),
        ("mod"@, seq![Ty::Int, Ty::Int], Ty::Int, InlineOp::Mod),
        ("=="@, seq![gen_t(), gen_t()], Ty::Bool, InlineOp::Eq),
        ("!="@, seq![gen_t(), gen_t()], Ty::Bool, InlineOp::Ne),
        (">"@, seq![gen_t(), gen_t()], Ty::Bool, InlineOp::Gt),
        ("<"@, seq![gen_t(), gen_t()], Ty::Bool, InlineOp::Lt),
        (">="@, seq![gen_t(), gen_t()], Ty::Bool, InlineOp::Ge),
        ("<="@, seq![gen_t(), gen_t()], Ty::Bool, InlineOp::Le),
        ("and"@, seq![Ty::Bool, Ty::Bool], Ty::Bool, InlineOp::And),
        ("or"@, seq![Ty::Bool, Ty::Bool], Ty::Bool, InlineOp::Or),
        ("not"@, seq![Ty::Bool], Ty::Bool, InlineOp::Not),
        ("if"@, seq![Ty::Bool, gen_t(), gen_t()], gen_t(), InlineOp::If),
        ("[Int]"@, Seq::<Ty>::empty(), list_of(Ty::Int), InlineOp::EmptyList),
        ("len"@, seq![list_of(gen_t())], Ty::Int, InlineOp::Len),
        ("head"@, seq![list_of(gen_t())], gen_t(), InlineOp::Head),
        ("tail"@, seq![list_of(gen_t())], list_of(gen_t()), InlineOp::Tail),
        ("++"@, seq![list_of(gen_t()), gen_t()], list_of(gen_t()), InlineOp::Push),
        ("is_null"@, seq![list_of(gen_t())], Ty::Bool, InlineOp::IsNull),
    ]
}

pub open spec fn entry_symbol(e: InlineModel) -> SymModel {
    SymModel { name: e.0, ty: e.2, params: Some(e.1) }
}

/// The symbols of the primitive operators: the seed of every program's table.
pub open spec fn inline_symbols() -> Seq<SymModel> {
    inline_entries().map_values(|e: InlineModel| entry_symbol(e))
}

/// The `i`-th operand text, or nothing where there is none.
pub open spec fn part(t: Seq<Seq<char>>, i: int) -> Seq<char> {
    if 0 <= i < t.len() {
        t[i]
    } else {
        Seq::empty()
    }
}

pub open spec fn binary_text(op: Seq<char>, t: Seq<Seq<char>>) -> Seq<char> {
    "("@ + part(t, 0) + " "@ + op + " "@ + part(t, 1) + ")"@
}

/// The expansion of a primitive operator over its compiled operands.
pub open spec fn inline_text(op: InlineOp, t: Seq<Seq<char>>) -> Seq<char> {
    match op {
        InlineOp::Add => binary_text("+"@, t),
        InlineOp::Sub => binary_text("-"@, t),
        InlineOp::Mul => binary_text("*"@, t),
        InlineOp::Div => binary_text("/"@, t),
        InlineOp::Mod => binary_text("%"@, t),
        InlineOp::Eq => binary_text("=="@, t),
        InlineOp::Ne => binary_text("!="@, t),
        InlineOp::Gt => binary_text(">"@, t),
        InlineOp::Lt => binary_text("<"@, t),
        InlineOp::Ge => binary_text(">="@, t),
        InlineOp::Le => binary_text("<="@, t),
        InlineOp::And => binary_text("&&"@, t),
        InlineOp::Or => binary_text("||"@, t),
        InlineOp::Not => "(!"@ + part(t, 0) + ")"@,
        InlineOp::If => "("@ + part(t, 0) + " ? "@ + part(t, 1) + " : "@ + part(t, 2) + ")"@,
        InlineOp::EmptyList => "((list) NULL)"@,
        InlineOp::Len => "(len("@ + part(t, 0) + "))"@,
        InlineOp::Head => "(("@ + part(t, 0) + ")->head)"@,
        InlineOp::Tail => "(("@ + part(t, 0) + ")->tail)"@,
        InlineOp::Push => "push("@ + part(t, 0) + ", "@ + part(t, 1) + ")"@,
        InlineOp::IsNull => "("@ + part(t, 0) + " == NULL)"@,
    }
}

/// The host type that holds a value of type `t`: a list handle or an integer.
pub open spec fn host_type(t: Ty) -> Seq<char> {
    if t.unwrap_fn().is_list() {
        "list"@
    } else {
        "long"@
    }
}

/// The accessor of the runtime's result union for a value of type `t`.
pub open spec fn accessor(t: Ty) -> Seq<char> {
    if t.unwrap_fn().is_list() {
        ".as_l"@
    } else {
        ".as_i"@
    }
}

/// Texts joined with `, `.
pub open spec fn join(ts: Seq<Seq<char>>) -> Seq<char>
    decreases ts.len(),
{
    if ts.len() == 0 {
        Seq::empty()
    } else if ts.len() == 1 {
        ts[0]
    } else {
        join(ts.subrange(0, ts.len() - 1)) + ", "@ + ts[ts.len() - 1]
    }
}

pub open spec fn param_decl(p: SymModel) -> Seq<char> {
    host_type(p.ty) + " "@ + p.name
}

/// The parameter list of a function header.
pub open spec fn params_text(ps: Seq<SymModel>) -> Seq<char> {
    join(ps.map_values(|p: SymModel| param_decl(p)))
}

/// The lines of an eval function that read each parameter back from the buffer.
pub open spec fn reads_text(ps: Seq<SymModel>) -> Seq<char>
    decreases ps.len(),
{
    if ps.len() == 0 {
        Seq::empty()
    } else {
        let p = ps[ps.len() - 1];
        reads_text(ps.subrange(0, ps.len() - 1)) + "    "@ + host_type(p.ty) + " "@ + p.name
            + " = get_arg(args, "@ + host_type(p.ty) + ");\n"@
    }
}

pub open spec fn sizes_text(ps: Seq<SymModel>) -> Seq<char>
    decreases ps.len(),
{
    if ps.len() == 0 {
        Seq::empty()
    } else {
        sizes_text(ps.subrange(0, ps.len() - 1)) + "    size += sizeof("@ + ps[ps.len() - 1].name
            + ");\n"@
    }
}

pub open spec fn adds_text(ps: Seq<SymModel>) -> Seq<char>
    decreases ps.len(),
{
    if ps.len() == 0 {
        Seq::empty()
    } else {
        adds_text(ps.subrange(0, ps.len() - 1)) + "    add_arg(args, "@ + ps[ps.len() - 1].name
            + ");\n"@
    }
}

/// The body of a factory: pack the arguments, in order, and pair them with the eval function.
pub open spec fn factory_text(name: Seq<char>, ps: Seq<SymModel>) -> Seq<char> {
    if ps.len() == 0 {
        "    return lambda(eval_"@ + name + ", NULL);\n}\n\n"@
    } else {
        "    int size = 0;\n"@ + sizes_text(ps) + "    char* args = malloc(size);\n"@ + adds_text(ps)
            + "    return lambda(eval_"@ + name + ", args - size);\n}\n\n"@
    }
}

/// The text of a declaration, given the text of its body.
pub open spec fn fn_text(name: Seq<char>, ps: Seq<SymModel>, ret: Ty, body: Seq<char>) -> Seq<char> {
    if name == "main"@ {
        "// "@ + name + "\n\n"@ + "long fn_main("@ + params_text(ps) + ") {\n"@ + body
    } else {
        "// "@ + name + "\n\n"@ + "fn fn_"@ + name + "("@ + params_text(ps) + ");\n\n"@
            + host_type(ret) + " eval_"@ + name + "(char* args) {\n"@ + reads_text(ps) + body
            + "fn fn_"@ + name + "("@ + params_text(ps) + ") {\n"@ + factory_text(name, ps)
    }
}

/// A statement line: a let binding is its own declaration line.
pub open spec fn stmt_text(n: Node, t: Seq<char>) -> Seq<char> {
    if n is Let {
        t
    } else {
        "    "@ + t + ";\n"@
    }
}

/// The output for a node: host-language text, or the first failure.
pub open spec fn compile_node(table: Seq<SymModel>, node: Node) -> Result<Seq<char>, Failure>
    decreases node, 2int,
{
    match node {
        Node::Let(s, v) => match compile_node(table, *v) {
            Ok(t) => Ok("    "@ + host_type(s.ty) + " "@ + s.name + " = "@ + t + ";\n"@),
            Err(e) => Err(e),
        },
        Node::Func(name, ps, ret, body) => match compile_body(table, body) {
            Ok(b) => Ok(fn_text(name, ps, ret, b)),
            Err(e) => Err(e),
        },
        Node::Call(name, args) => match arg_types(table, args) {
            Err(e) => Err(e),
            Ok(tys) => match find_fn(inline_symbols(), name, tys) {
                Some(i) => {
                    let op = inline_entries()[i].3;
                    if op == InlineOp::If && args.len() == 3 && args[0] is Bool {
                        if args[0]->Bool_0 {
                            compile_node(table, args[1])
                        } else {
                            compile_node(table, args[2])
                        }
                    } else {
                        match compile_list(table, args) {
                            Ok(texts) => Ok(inline_text(op, texts)),
                            Err(e) => Err(e),
                        }
                    }
                },
                None => match find_fn(table, name, tys) {
                    None => Err(Failure::UnrecognizedFunction { name, arg_types: tys }),
                    Some(_) => match compile_list(table, args) {
                        Err(e) => Err(e),
                        Ok(texts) => match call_type(table, name, tys) {
                            Err(e) => Err(e),
                            Ok(rt) => Ok("eval(fn_"@ + name + "("@ + join(texts) + "))"@ + accessor(rt)),
                        },
                    },
                },
            },
        },
        _ => Ok(imm_text(node)),
    }
}

/// The compiled texts of a sequence of nodes; the first failure, left to right.
pub open spec fn compile_list(table: Seq<SymModel>, ns: Seq<Node>) -> Result<Seq<Seq<char>>, Failure>
    decreases ns, 0int,
{
    if ns.len() == 0 {
        Ok(Seq::empty())
    } else {
        match compile_list(table, ns.subrange(0, ns.len() - 1)) {
            Err(e) => Err(e),
            Ok(ts) => match compile_node(table, ns[ns.len() - 1]) {
                Err(e) => Err(e),
                Ok(t) => Ok(ts.push(t)),
            },
        }
    }
}

/// The statements of a body, each on its own lines.
pub open spec fn compile_stmts(table: Seq<SymModel>, ns: Seq<Node>) -> Result<Seq<char>, Failure>
    decreases ns, 0int,
{
    if ns.len() == 0 {
        Ok(Seq::empty())
    } else {
        match compile_stmts(table, ns.subrange(0, ns.len() - 1)) {
            Err(e) => Err(e),
            Ok(ts) => match compile_node(table, ns[ns.len() - 1]) {
                Err(e) => Err(e),
                Ok(t) => Ok(ts + stmt_text(ns[ns.len() - 1], t)),
            },
        }
    }
}

/// A function body: its statements, the last one returned.
pub open spec fn compile_body(table: Seq<SymModel>, body: Seq<Node>) -> Result<Seq<char>, Failure>
    decreases body, 1int,
{
    if body.len() == 0 {
        Ok("}\n\n"@)
    } else {
        match compile_stmts(table, body.subrange(0, body.len() - 1)) {
            Err(e) => Err(e),
            Ok(ts) => match compile_node(table, body[body.len() - 1]) {
                Err(e) => Err(e),
                Ok(t) => Ok(ts + "    return "@ + t + ";\n}\n\n"@),
            },
        }
    }
}

pub open spec fn strings_view(ts: Seq<String>) -> Seq<Seq<char>> {
    ts.map_values(|t: String| t@)
}

/// Output text under construction.
pub struct Buffer {
    content: String,
}

impl View for Buffer {
    type V = Seq<char>;

    closed spec fn view(&self) -> Seq<char> {
        self.content@
    }
}

impl Buffer {
    pub fn new() -> (r: Buffer)
        ensures
            r@ == Seq::<char>::empty(),
    {
        Buffer { content: String::new() }
    }

    /// Appends text.
    pub fn emit(&mut self, text: &str)
        ensures
            final(self)@ == old(self)@ + text@,
    {
        self.content.append(text);
    }

    /// Appends text as one indented line.
    pub fn emit_instr(&mut self, text: &str)
        ensures
            final(self)@ == old(self)@ + "    "@ + text@ + "\n"@,
    {
        self.content.append("    ");
        self.content.append(text);
        self.content.append("\n");
    }

    /// The text.
    pub fn get(self) -> (r: String)
        ensures
            r@ == self@,
    {
        self.content
    }
}

fn params2(a: NodeType, b: NodeType) -> (r: Vec<NodeType>)
    ensures
        types_view(r@) == seq![a@, b@],
{
    let mut v: Vec<NodeType> = Vec::new();
    v.push(a);
    v.push(b);
    assert(types_view(v@) =~= seq![a@, b@]);
    v
}

fn params1(a: NodeType) -> (r: Vec<NodeType>)
    ensures
        types_view(r@) == seq![a@],
{
    let mut v: Vec<NodeType> = Vec::new();
    v.push(a);
    assert(types_view(v@) =~= seq![a@]);
    v
}

fn gen_list() -> (r: NodeType)
    ensures
        r@ == list_of(gen_t()),
{
    NodeType::List(Box::new(NodeType::gen("T")))
}

fn gen_t_exec() -> (r: NodeType)
    ensures
        r@ == gen_t(),
{
    NodeType::gen("T")
}

fn inline_fn(name: &str, arg_types: Vec<NodeType>, return_type: NodeType, op: InlineOp) -> (r: InlineFn)
    ensures
        r@ == (name@, types_view(arg_types@), return_type@, op),
{
    InlineFn { name: String::from_str(name), arg_types, return_type, op }
}

/// The primitive operators, in lookup order.
pub fn get_inlines() -> (r: Vec<InlineFn>)
    ensures
        r@.map_values(|f: InlineFn| f@) == inline_entries(),
{
    let mut v: Vec<InlineFn> = Vec::new();
    v.push(inline_fn("+", params2(NodeType::Int, NodeType::Int), NodeType::Int, InlineOp::Add));
    v.push(inline_fn("-", params2(NodeType::Int, NodeType::Int), NodeType::Int, InlineOp::Sub));
    v.push(inline_fn("*", params2(NodeType::Int, NodeType::Int), NodeType::Int, InlineOp::Mul));
    v.push(inline_fn("/", params2(NodeType::Int, NodeType::Int), NodeType::Int, InlineOp::Div));
    v.push(inline_fn("mod", params2(NodeType::Int, NodeType::Int), NodeType::Int, InlineOp::Mod));
    v.push(inline_fn("==", params2(gen_t_exec(), gen_t_exec()), NodeType::Bool, InlineOp::Eq));
    v.push(inline_fn("!=", params2(gen_t_exec(), gen_t_exec()), NodeType::Bool, InlineOp::Ne));
    v.push(inline_fn(">", params2(gen_t_exec(), gen_t_exec()), NodeType::Bool, InlineOp::Gt));
    v.push(inline_fn("<", params2(gen_t_exec(), gen_t_exec()), NodeType::Bool, InlineOp::Lt));
    v.push(inline_fn(">=", params2(gen_t_exec(), gen_t_exec()), NodeType::Bool, InlineOp::Ge));
    v.push(inline_fn("<=", params2(gen_t_exec(), gen_t_exec()), NodeType::Bool, InlineOp::Le));
    v.push(inline_fn("and", params2(NodeType::Bool, NodeType::Bool), NodeType::Bool, InlineOp::And));
    v.push(inline_fn("or", params2(NodeType::Bool, NodeType::Bool), NodeType::Bool, InlineOp::Or));
    v.push(inline_fn("not", params1(NodeType::Bool), NodeType::Bool, InlineOp::Not));
    let mut if_params = params2(NodeType::Bool, gen_t_exec());
    let ghost before = types_view(if_params@);
    if_params.push(gen_t_exec());
    assert(types_view(if_params@) =~= before.push(gen_t()));
    v.push(inline_fn("if", if_params, gen_t_exec(), InlineOp::If));
    let no_params: Vec<NodeType> = Vec::new();
    assert(types_view(no_params@) =~= Seq::<Ty>::empty());
    v.push(inline_fn("[Int]", no_params, NodeType::List(Box::new(NodeType::Int)), InlineOp::EmptyList));
    v.push(inline_fn("len", params1(gen_list()), NodeType::Int, InlineOp::Len));
    v.push(inline_fn("head", params1(gen_list()), gen_t_exec(), InlineOp::Head));
    v.push(inline_fn("tail", params1(gen_list()), gen_list(), InlineOp::Tail));
    v.push(inline_fn("++", params2(gen_list(), gen_t_exec()), gen_list(), InlineOp::Push));
    v.push(inline_fn("is_null", params1(gen_list()), NodeType::Bool, InlineOp::IsNull));
    assert(v@[0]@ == inline_entries()[0]);
    assert(v@[1]@ == inline_entries()[1]);
    assert(v@[2]@ == inline_entries()[2]);
    assert(v@[3]@ == inline_entries()[3]);
    assert(v@[4]@ == inline_entries()[4]);
    assert(v@[5]@ == inline_entries()[5]);
    assert(v@[6]@ == inline_entries()[6]);
    assert(v@[7]@ == inline_entries()[7]);
    assert(v@[8]@ == inline_entries()[8]);
    assert(v@[9]@ == inline_entries()[9]);
    assert(v@[10]@ == inline_entries()[10]);
    assert(v@[11]@ == inline_entries()[11]);
    assert(v@[12]@ == inline_entries()[12]);
    assert(v@[13]@ == inline_entries()[13]);
    assert(v@[14]@ == inline_entries()[14]);
    assert(v@[15]@ == inline_entries()[15]);
    assert(v@[16]@ == inline_entries()[16]);
    assert(v@[17]@ == inline_entries()[17]);
    assert(v@[18]@ == inline_entries()[18]);
    assert(v@[19]@ == inline_entries()[19]);
    assert(v@[20]@ == inline_entries()[20]);
    assert(v@.map_values(|f: InlineFn| f@) =~= inline_entries());
    v
}

/// The seed symbol table: one function symbol per primitive operator, in order.
pub fn table_from_inlines() -> (r: SymbolTable)
    ensures
        r@ == inline_symbols(),
{
    let inlines = get_inlines();
    let ghost entries = inlines@.map_values(|f: InlineFn| f@);
    let mut table: Vec<Symbol> = Vec::new();
    let mut i: usize = 0;
    while i < inlines.len()
        invariant
            i <= inlines.len(),
            entries == inlines@.map_values(|f: InlineFn| f@),
            entries == inline_entries(),
            symbols_view(table@) == inline_symbols().subrange(0, i as int),
        decreases inlines.len() - i,
    {
        let f = &inlines[i];
        let s = Symbol::new_fn(f.name.as_str(), crate::types::duplicate_types(&f.arg_types), f.return_type.duplicate());
        let ghost before = symbols_view(table@);
        table.push(s);
        assert(entries[i as int] == f@);
        assert(symbols_view(table@) =~= before.push(s@));
        assert(inline_symbols().subrange(0, i + 1) =~= inline_symbols().subrange(0, i as int).push(entry_symbol(entries[i as int])));
        i += 1;
    }
    assert(inline_symbols().subrange(0, i as int) =~= inline_symbols());
    SymbolTable::from(table)
}

/// The primitive operator that a call of `name` with argument types `arg_types` expands to.
fn get_inline_fn_body(name: &String, arg_types: &Vec<NodeType>) -> (r: Option<InlineOp>)
    ensures
        match find_fn(inline_symbols(), name@, types_view(arg_types@)) {
            Some(i) => r == Some(inline_entries()[i].3),
            None => r is None,
        },
{
    let table = table_from_inlines();
    match table.find_fn(name, arg_types) {
        Some(i) => {
            let inlines = get_inlines();
            assert(inlines@.map_values(|f: InlineFn| f@)[i as int] == inlines@[i as int]@);
            Some(inlines[i].op)
        },
        None => None,
    }
}

fn part_exec(t: &Vec<String>, i: usize) -> (r: &str)
    ensures
        r@ == part(strings_view(t@), i as int),
{
    if i < t.len() {
        t[i].as_str()
    } else {
        proof { reveal_strlit(""); }
        ""
    }
}

fn binary_op(op: &str, t: &Vec<String>) -> (r: String)
    ensures
        r@ == binary_text(op@, strings_view(t@)),
{
    let mut s = String::from_str("(");
    s.append(part_exec(t, 0));
    s.append(" ");
    s.append(op);
    s.append(" ");
    s.append(part_exec(t, 1));
    s.append(")");
    s
}

/// The expansion of a primitive operator over compiled operands.
fn emit_inline(op: InlineOp, t: &Vec<String>) -> (r: String)
    ensures
        r@ == inline_text(op, strings_view(t@)),
{
    match op {
        InlineOp::Add => binary_op("+", t),
        InlineOp::Sub => binary_op("-", t),
        InlineOp::Mul => binary_op("*", t),
        InlineOp::Div => binary_op("/", t),
        InlineOp::Mod => binary_op("%", t),
        InlineOp::Eq => binary_op("==", t),
        InlineOp::Ne => binary_op("!=", t),
        InlineOp::Gt => binary_op(">", t),
        InlineOp::Lt => binary_op("<", t),
        InlineOp::Ge => binary_op(">=", t),
        InlineOp::Le => binary_op("<=", t),
        InlineOp::And => binary_op("&&", t),
        InlineOp::Or => binary_op("||", t),
        InlineOp::Not => {
            let mut s = String::from_str("(!");
            s.append(part_exec(t, 0));
            s.append(")");
            s
        },
        InlineOp::If => {
            let mut s = String::from_str("(");
            s.append(part_exec(t, 0));
            s.append(" ? ");
            s.append(part_exec(t, 1));
            s.append(" : ");
            s.append(part_exec(t, 2));
            s.append(")");
            s
        },
        InlineOp::EmptyList => String::from_str("((list) NULL)"),
        InlineOp::Len => {
            let mut s = String::from_str("(len(");
            s.append(part_exec(t, 0));
            s.append("))");
            s
        },
        InlineOp::Head => {
            let mut s = String::from_str("((");
            s.append(part_exec(t, 0));
            s.append(")->head)");
            s
        },
        InlineOp::Tail => {
            let mut s = String::from_str("((");
            s.append(part_exec(t, 0));
            s.append(")->tail)");
            s
        },
        InlineOp::Push => {
            let mut s = String::from_str("push(");
            s.append(part_exec(t, 0));
            s.append(", ");
            s.append(part_exec(t, 1));
            s.append(")");
            s
        },
        InlineOp::IsNull => {
            let mut s = String::from_str("(");
            s.append(part_exec(t, 0));
            s.append(" == NULL)");
            s
        },
    }
}

fn host_type_str(t: &NodeType) -> (r: &'static str)
    ensures
        r@ == host_type(t@),
{
    if t.unwrap_fn().is_list() {
        "list"
    } else {
        "long"
    }
}

/// Texts joined with `, `.
fn join_texts(ts: &Vec<String>) -> (r: String)
    ensures
        r@ == join(strings_view(ts@)),
{
    let ghost tv = strings_view(ts@);
    let mut s = String::new();
    let mut i: usize = 0;
    while i < ts.len()
        invariant
            i <= ts.len(),
            tv == strings_view(ts@),
            s@ == join(tv.subrange(0, i as int)),
        decreases ts.len() - i,
    {
        assert(tv.subrange(0, i + 1).subrange(0, i as int) =~= tv.subrange(0, i as int));
        assert(tv.subrange(0, i + 1)[i as int] == ts@[i as int]@);
        if i > 0 {
            s.append(", ");
        } else {
            assert(s@ =~= Seq::<char>::empty());
        }
        s.append(ts[i].as_str());
        i += 1;
    }
    assert(tv.subrange(0, i as int) =~= tv);
    s
}

/// Emits the parameter list of a function header.
fn emit_fn_args(buf: &mut Buffer, args: &Vec<Symbol>)
    ensures
        final(buf)@ == old(buf)@ + params_text(symbols_view(args@)),
{
    let ghost m = symbols_view(args@).map_values(|p: SymModel| param_decl(p));
    let ghost start = buf@;
    let mut i: usize = 0;
    assert(m.subrange(0, 0) =~= Seq::<Seq<char>>::empty());
    assert(start + join(m.subrange(0, 0)) =~= start);
    while i < args.len()
        invariant
            i <= args.len(),
            m == symbols_view(args@).map_values(|p: SymModel| param_decl(p)),
            buf@ == start + join(m.subrange(0, i as int)),
        decreases args.len() - i,
    {
        assert(m.subrange(0, i + 1).subrange(0, i as int) =~= m.subrange(0, i as int));
        assert(m.subrange(0, i + 1)[i as int] == param_decl(args@[i as int]@));
        let ghost before = join(m.subrange(0, i as int));
        if i > 0 {
            buf.emit(", ");
        }
        buf.emit(host_type_str(&args[i].symbol_type));
        buf.emit(" ");
        buf.emit(args[i].name.as_str());
        proof {
            let d = param_decl(args@[i as int]@);
            if i > 0 {
                assert(buf@ =~= start + (before + ", "@ + d));
            } else {
                assert(buf@ =~= start + d);
            }
        }
        i += 1;
    }
    assert(m.subrange(0, i as int) =~= m);
}

/// Emits the lines of an eval function that read the parameters back from the buffer.
fn emit_reads(buf: &mut Buffer, args: &Vec<Symbol>)
    ensures
        final(buf)@ == old(buf)@ + reads_text(symbols_view(args@)),
{
    let ghost ps = symbols_view(args@);
    let ghost start = buf@;
    let mut i: usize = 0;
    assert(start + reads_text(ps.subrange(0, 0)) =~= start);
    while i < args.len()
        invariant
            i <= args.len(),
            ps == symbols_view(args@),
            buf@ == start + reads_text(ps.subrange(0, i as int)),
        decreases args.len() - i,
    {
        assert(ps.subrange(0, i + 1).subrange(0, i as int) =~= ps.subrange(0, i as int));
        let ghost before = reads_text(ps.subrange(0, i as int));
        let host = host_type_str(&args[i].symbol_type);
        buf.emit("    ");
        buf.emit(host);
        buf.emit(" ");
        buf.emit(args[i].name.as_str());
        buf.emit(" = get_arg(args, ");
        buf.emit(host);
        buf.emit(");\n");
        assert(buf@ =~= start + reads_text(ps.subrange(0, i + 1)));
        i += 1;
    }
    assert(ps.subrange(0, i as int) =~= ps);
}

/// Emits the body of a factory function.
fn emit_factory(buf: &mut Buffer, name: &String, args: &Vec<Symbol>)
    ensures
        final(buf)@ == old(buf)@ + factory_text(name@, symbols_view(args@)),
{
    let ghost ps = symbols_view(args@);
    let ghost start = buf@;
    if args.len() == 0 {
        buf.emit("    return lambda(eval_");
        buf.emit(name.as_str());
        buf.emit(", NULL);\n}\n\n");
        assert(buf@ =~= start + factory_text(name@, ps));
        return;
    }
    buf.emit("    int size = 0;\n");
    let ghost mid = buf@;
    let mut i: usize = 0;
    assert(mid + sizes_text(ps.subrange(0, 0)) =~= mid);
    while i < args.len()
        invariant
            i <= args.len(),
            ps == symbols_view(args@),
            buf@ == mid + sizes_text(ps.subrange(0, i as int)),
        decreases args.len() - i,
    {
        assert(ps.subrange(0, i + 1).subrange(0, i as int) =~= ps.subrange(0, i as int));
        buf.emit("    size += sizeof(");
        buf.emit(args[i].name.as_str());
        buf.emit(");\n");
        assert(buf@ =~= mid + sizes_text(ps.subrange(0, i + 1)));
        i += 1;
    }
    assert(ps.subrange(0, i as int) =~= ps);
    buf.emit("    char* args = malloc(size);\n");
    let ghost mid2 = buf@;
    let mut j: usize = 0;
    assert(mid2 + adds_text(ps.subrange(0, 0)) =~= mid2);
    while j < args.len()
        invariant
            j <= args.len(),
            ps == symbols_view(args@),
            buf@ == mid2 + adds_text(ps.subrange(0, j as int)),
        decreases args.len() - j,
    {
        assert(ps.subrange(0, j + 1).subrange(0, j as int) =~= ps.subrange(0, j as int));
        buf.emit("    add_arg(args, ");
        buf.emit(args[j].name.as_str());
        buf.emit(");\n");
        assert(buf@ =~= mid2 + adds_text(ps.subrange(0, j + 1)));
        j += 1;
    }
    assert(ps.subrange(0, j as int) =~= ps);
    buf.emit("    return lambda(eval_");
    buf.emit(name.as_str());
    buf.emit(", args - size);\n}\n\n");
    assert(buf@ =~= start + factory_text(name@, ps));
}

proof fn lemma_compile_list_prefix_err(table: Seq<SymModel>, ns: Seq<Node>, i: int)
    requires
        0 <= i <= ns.len(),
        compile_list(table, ns.subrange(0, i)) is Err,
    ensures
        compile_list(table, ns) == compile_list(table, ns.subrange(0, i)),
    decreases ns.len() - i,
{
    if i == ns.len() {
        assert(ns.subrange(0, i) =~= ns);
    } else {
        let n = ns.len() - 1;
        assert(ns.subrange(0, n).subrange(0, i) =~= ns.subrange(0, i));
        lemma_compile_list_prefix_err(table, ns.subrange(0, n), i);
    }
}

proof fn lemma_compile_stmts_prefix_err(table: Seq<SymModel>, ns: Seq<Node>, i: int)
    requires
        0 <= i <= ns.len(),
        compile_stmts(table, ns.subrange(0, i)) is Err,
    ensures
        compile_stmts(table, ns) == compile_stmts(table, ns.subrange(0, i)),
    decreases ns.len() - i,
{
    if i == ns.len() {
        assert(ns.subrange(0, i) =~= ns);
    } else {
        let n = ns.len() - 1;
        assert(ns.subrange(0, n).subrange(0, i) =~= ns.subrange(0, i));
        lemma_compile_stmts_prefix_err(table, ns.subrange(0, n), i);
    }
}

fn accessor_str(t: &NodeType) -> (r: &'static str)
    ensures
        r@ == accessor(t@),
{
    if t.unwrap_fn().is_list() {
        ".as_l"
    } else {
        ".as_i"
    }
}

/// Compiles each node of a sequence, left to right.
fn compile_args(args: &Vec<ASTNode>, symbols: &SymbolTable) -> (r: Result<Vec<String>, CompileError>)
    ensures
        match r {
            Ok(ts) => compile_list(symbols@, nodes_view(args@)) == Ok::<Seq<Seq<char>>, Failure>(strings_view(ts@)),
            Err(e) => compile_list(symbols@, nodes_view(args@)) == Err::<Seq<Seq<char>>, Failure>(e@),
        },
    decreases args, 0int,
{
    let ghost ns = nodes_view(args@);
    proof {
        lemma_nodes_view(args@);
    }
    let mut out: Vec<String> = Vec::new();
    let mut i: usize = 0;
    assert(ns.subrange(0, 0) =~= Seq::<Node>::empty());
    assert(strings_view(out@) =~= Seq::empty());
    while i < args.len()
        invariant
            i <= args.len(),
            ns == nodes_view(args@),
            ns.len() == args.len(),
            forall|j: int| 0 <= j < args.len() ==> #[trigger] ns[j] == args@[j]@,
            compile_list(symbols@, ns.subrange(0, i as int)) == Ok::<Seq<Seq<char>>, Failure>(strings_view(out@)),
        decreases args.len() - i,
    {
        assert(ns.subrange(0, i + 1).subrange(0, i as int) =~= ns.subrange(0, i as int));
        assert(ns.subrange(0, i + 1)[i as int] == args@[i as int]@);
        match compile_expr(&args[i], symbols) {
            Ok(b) => {
                let ghost before = out@;
                out.push(b.get());
                assert(strings_view(out@) =~= strings_view(before).push(b@));
            },
            Err(e) => {
                proof {
                    lemma_compile_list_prefix_err(symbols@, ns, i + 1);
                }
                return Err(e);
            },
        }
        i += 1;
    }
    assert(ns.subrange(0, i as int) =~= ns);
    Ok(out)
}

/// Emits the statements of a body, the last one returned, and the closing brace.
fn emit_fn_body(buf: &mut Buffer, symbols: &SymbolTable, body: &Vec<ASTNode>) -> (r: Result<(), CompileError>)
    ensures
        match r {
            Ok(_) => compile_body(symbols@, nodes_view(body@)) is Ok
                && final(buf)@ == old(buf)@ + compile_body(symbols@, nodes_view(body@))->Ok_0,
            Err(e) => compile_body(symbols@, nodes_view(body@)) == Err::<Seq<char>, Failure>(e@),
        },
    decreases body, 1int,
{
    let ghost ns = nodes_view(body@);
    let ghost start = buf@;
    proof {
        lemma_nodes_view(body@);
    }
    if body.len() == 0 {
        buf.emit("}\n\n");
        return Ok(());
    }
    let last = body.len() - 1;
    let mut i: usize = 0;
    assert(ns.subrange(0, 0) =~= Seq::<Node>::empty());
    assert(buf@ =~= start + Seq::<char>::empty());
    while i < last
        invariant
            i <= last,
            last == body.len() - 1,
            ns == nodes_view(body@),
            ns.len() == body.len(),
            forall|j: int| 0 <= j < body.len() ==> #[trigger] ns[j] == body@[j]@,
            compile_stmts(symbols@, ns.subrange(0, i as int)) is Ok,
            buf@ == start + compile_stmts(symbols@, ns.subrange(0, i as int))->Ok_0,
        decreases last - i,
    {
        assert(ns.subrange(0, i + 1).subrange(0, i as int) =~= ns.subrange(0, i as int));
        assert(ns.subrange(0, i + 1)[i as int] == body@[i as int]@);
        let ghost before = compile_stmts(symbols@, ns.subrange(0, i as int))->Ok_0;
        match compile_expr(&body[i], symbols) {
            Ok(b) => {
                let t = b.get();
                if matches!(&body[i], ASTNode::Let(_, _)) {
                    buf.emit(t.as_str());
                } else {
                    buf.emit("    ");
                    buf.emit(t.as_str());
                    buf.emit(";\n");
                }
                assert(buf@ =~= start + (before + stmt_text(ns[i as int], t@)));
            },
            Err(e) => {
                proof {
                    lemma_compile_stmts_prefix_err(symbols@, ns.subrange(0, last as int), i + 1);
                    assert(ns.subrange(0, last as int).subrange(0, i + 1) =~= ns.subrange(0, i + 1));
                }
                return Err(e);
            },
        }
        i += 1;
    }
    assert(ns.subrange(0, last as int) =~= ns.subrange(0, i as int));
    let ghost stmts = compile_stmts(symbols@, ns.subrange(0, last as int))->Ok_0;
    match compile_expr(&body[last], symbols) {
        Ok(b) => {
            let t = b.get();
            buf.emit("    return ");
            buf.emit(t.as_str());
            buf.emit(";\n}\n\n");
            assert(buf@ =~= start + (stmts + "    return "@ + t@ + ";\n}\n\n"@));
            Ok(())
        },
        Err(e) => Err(e),
    }
}

/// Compiles a node to host-language text.
pub fn compile_expr(node: &ASTNode, symbols: &SymbolTable) -> (r: Result<Buffer, CompileError>)
    ensures
        result_view(r) == compile_node(symbols@, node@),
    decreases node, 2int,
{
    match node {
        ASTNode::Let(s, v) => {
            let t = match compile_expr(v, symbols) {
                Ok(b) => b.get(),
                Err(e) => return Err(e),
            };
            let mut buf = Buffer::new();
            buf.emit("    ");
            buf.emit(host_type_str(&s.symbol_type));
            buf.emit(" ");
            buf.emit(s.name.as_str());
            buf.emit(" = ");
            buf.emit(t.as_str());
            buf.emit(";\n");
            assert(buf@ =~= "    "@ + host_type(s@.ty) + " "@ + s@.name + " = "@ + t@ + ";\n"@);
            Ok(buf)
        },
        ASTNode::Fn(name, params, ret, body) => {
            let mut body_buf = Buffer::new();
            match emit_fn_body(&mut body_buf, symbols, body) {
                Ok(_) => {},
                Err(e) => return Err(e),
            }
            let b = body_buf.get();
            assert(b@ =~= compile_body(symbols@, nodes_view(body@))->Ok_0);
            let mut buf = Buffer::new();
            buf.emit("// ");
            buf.emit(name.as_str());
            buf.emit("\n\n");
            let main_name = String::from_str("main");
            if *name == main_name {
                buf.emit("long fn_main(");
                emit_fn_args(&mut buf, params);
                buf.emit(") {\n");
                buf.emit(b.as_str());
            } else {
                buf.emit("fn fn_");
                buf.emit(name.as_str());
                buf.emit("(");
                emit_fn_args(&mut buf, params);
                buf.emit(");\n\n");
                buf.emit(host_type_str(ret));
                buf.emit(" eval_");
                buf.emit(name.as_str());
                buf.emit("(char* args) {\n");
                emit_reads(&mut buf, params);
                buf.emit(b.as_str());
                buf.emit("fn fn_");
                buf.emit(name.as_str());
                buf.emit("(");
                emit_fn_args(&mut buf, params);
                buf.emit(") {\n");
                emit_factory(&mut buf, name, params);
            }
            assert(buf@ =~= fn_text(name@, symbols_view(params@), ret@, b@));
            Ok(buf)
        },
        ASTNode::Call(name, args) => {
            proof {
                lemma_nodes_view(args@);
            }
            let tys = match symbols.node_types(args) {
                Ok(t) => t,
                Err(e) => return Err(e),
            };
            match get_inline_fn_body(name, &tys) {
                Some(op) => {
                    if op == InlineOp::If && args.len() == 3 {
                        if let ASTNode::Bool(c) = &args[0] {
                            if *c {
                                return compile_expr(&args[1], symbols);
                            } else {
                                return compile_expr(&args[2], symbols);
                            }
                        }
                    }
                    let texts = match compile_args(args, symbols) {
                        Ok(t) => t,
                        Err(e) => return Err(e),
                    };
                    let t = emit_inline(op, &texts);
                    let mut buf = Buffer::new();
                    buf.emit(t.as_str());
                    assert(buf@ =~= t@);
                    Ok(buf)
                },
                None => match symbols.find_fn(name, &tys) {
                    None => Err(CompileError::UnrecognizedFunction { name: name.clone(), arg_types: tys }),
                    Some(_) => {
                        let texts = match compile_args(args, symbols) {
                            Ok(t) => t,
                            Err(e) => return Err(e),
                        };
                        let joined = join_texts(&texts);
                        let rt = match symbols.call_type(name, tys) {
                            Ok(t) => t,
                            Err(e) => return Err(e),
                        };
                        let mut buf = Buffer::new();
                        buf.emit("eval(fn_");
                        buf.emit(name.as_str());
                        buf.emit("(");
                        buf.emit(joined.as_str());
                        buf.emit("))");
                        buf.emit(accessor_str(&rt));
                        assert(buf@ =~= "eval(fn_"@ + name@ + "("@ + joined@ + "))"@ + accessor(rt@));
                        Ok(buf)
                    },
                },
            }
        },
        _ => {
            let t = node.imm_repr();
            let mut buf = Buffer::new();
            buf.emit(t.as_str());
            assert(buf@ =~= t@);
            Ok(buf)
        },
    }
}

} // verus!
