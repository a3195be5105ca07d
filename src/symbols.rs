use vstd::prelude::*;
use crate::types::{NodeType, Ty, types_view, duplicate_types};
use crate::ast::{ASTNode, Node, nodes_view, lemma_nodes_view};
use crate::error::{CompileError, Failure, result_view};

verus! {

/// Model of a symbol: a function symbol has parameter types.
pub struct SymModel {
    pub name: Seq<char>,
    pub ty: Ty,
    pub params: Option<Seq<Ty>>,
}

/// A declared name with its type; a function symbol also carries its parameter types.
#[derive(Debug)]
pub struct Symbol {
    pub name: String,
    pub symbol_type: NodeType,
    pub arg_types: Option<Vec<NodeType>>,
}

impl View for Symbol {
    type V = SymModel;

    open spec fn view(&self) -> SymModel {
        SymModel {
            name: self.name@,
            ty: self.symbol_type@,
            params: match self.arg_types {
                Some(ts) => Some(types_view(ts@)),
                None => None,
            },
        }
    }
}

pub open spec fn symbols_view(ss: Seq<Symbol>) -> Seq<SymModel> {
    ss.map_values(|s: Symbol| s@)
}

impl Symbol {
    /// A variable symbol.
    pub fn new_var(name: &str, symbol_type: NodeType) -> (r: Symbol)
        ensures
            r@ == (SymModel { name: name@, ty: symbol_type@, params: None }),
    {
        Symbol { name: name.to_string(), symbol_type, arg_types: None }
    }

    /// A function symbol.
    pub fn new_fn(name: &str, arg_types: Vec<NodeType>, return_type: NodeType) -> (r: Symbol)
        ensures
            r@ == (SymModel {
                name: name@,
                ty: return_type@,
                params: Some(types_view(arg_types@)),
            }),
    {
        Symbol { name: name.to_string(), symbol_type: return_type, arg_types: Some(arg_types) }
    }

    /// A copy of this symbol.
    pub fn duplicate(&self) -> (r: Symbol)
        ensures
            r@ == self@,
    {
        let arg_types = match &self.arg_types {
            Some(ts) => Some(duplicate_types(ts)),
            None => None,
        };
        Symbol { name: self.name.clone(), symbol_type: self.symbol_type.duplicate(), arg_types }
    }
}

/// A copy of each symbol of a sequence.
pub fn duplicate_symbols(ss: &Vec<Symbol>) -> (r: Vec<Symbol>)
    ensures
        symbols_view(r@) == symbols_view(ss@),
{
    let mut out: Vec<Symbol> = Vec::new();
    let mut i: usize = 0;
    while i < ss.len()
        invariant
            i <= ss.len(),
            out@.len() == i,
            forall|j: int| 0 <= j < i ==> (#[trigger] out@[j])@ == ss@[j]@,
        decreases ss.len() - i,
    {
        let s = ss[i].duplicate();
        out.push(s);
        i += 1;
    }
    assert(symbols_view(out@) =~= symbols_view(ss@));
    out
}

/// Bindings of generic names to types, made for one call and then dropped.
pub type Env = Seq<(Seq<char>, Ty)>;

pub open spec fn env_view(env: Seq<(String, NodeType)>) -> Env {
    env.map_values(|p: (String, NodeType)| (p.0@, p.1@))
}

/// The type bound to generic `g`, if any.
pub open spec fn binding(env: Env, g: Seq<char>) -> Option<Ty>
    decreases env.len(),
{
    if env.len() == 0 {
        None
    } else if env[env.len() - 1].0 == g {
        Some(env[env.len() - 1].1)
    } else {
        binding(env.subrange(0, env.len() - 1), g)
    }
}

/// A generic meets type `t`: its first occurrence binds it, a later one must
/// name the bound type again (function types compare on their return type).
pub open spec fn bind(env: Env, g: Seq<char>, t: Ty) -> Option<Env> {
    match binding(env, g) {
        None => Some(env.push((g, t))),
        Some(bound) => if t.unwrap_fn() == bound.unwrap_fn() {
            Some(env)
        } else {
            None
        },
    }
}

pub open spec fn ty_size(t: Ty) -> nat
    decreases t,
{
    match t {
        Ty::Func(inner) => 1 + ty_size(*inner),
        Ty::List(inner) => 1 + ty_size(*inner),
        _ => 1,
    }
}

/// Unification of an argument type `a` with a goal type `b` under `env`.
pub open spec fn unify(a: Ty, b: Ty, env: Env) -> Option<Env>
    decreases ty_size(a), ty_size(b),
{
    if (a is Int && b is Int) || (a is Bool && b is Bool) || (a is Unit && b is Unit) {
        Some(env)
    } else if a is Gen && b is Gen {
        if a->Gen_0 == b->Gen_0 {
            Some(env)
        } else {
            None
        }
    } else if a is Gen {
        bind(env, a->Gen_0, b)
    } else if b is Gen {
        bind(env, b->Gen_0, a)
    } else if a is List && b is List {
        unify(*a->List_0, *b->List_0, env)
    } else if a is Func || b is Func {
        unify(a.unwrap_fn(), b.unwrap_fn(), env)
    } else {
        None
    }
}

/// Pairwise unification of the first `args.len()` argument types with their goals,
/// left to right, threading one environment.
pub open spec fn unify_all(args: Seq<Ty>, goals: Seq<Ty>) -> Option<Env>
    decreases args.len(),
{
    if args.len() == 0 {
        Some(Seq::empty())
    } else {
        match unify_all(args.subrange(0, args.len() - 1), goals) {
            None => None,
            Some(env) => unify(args[args.len() - 1], goals[args.len() - 1], env),
        }
    }
}

/// Whether argument types satisfy parameter types.
pub open spec fn types_match(args: Seq<Ty>, goals: Seq<Ty>) -> bool {
    args.len() == goals.len() && unify_all(args, goals) is Some
}

pub open spec fn symbol_matches(s: SymModel, name: Seq<char>, args: Seq<Ty>) -> bool {
    s.params is Some && s.name == name && types_match(args, s.params->0)
}

/// The first function symbol of the table, in table order, that the call accepts.
pub open spec fn find_fn(table: Seq<SymModel>, name: Seq<char>, args: Seq<Ty>) -> Option<int>
    decreases table.len(),
{
    if table.len() == 0 {
        None
    } else {
        match find_fn(table.subrange(0, table.len() - 1), name, args) {
            Some(i) => Some(i),
            None => if symbol_matches(table[table.len() - 1], name, args) {
                Some(table.len() - 1)
            } else {
                None
            },
        }
    }
}

/// Binds the generics of a parameter type from an argument type, through list layers.
pub open spec fn collect(param: Ty, arg: Ty, env: Env) -> Env
    decreases param,
{
    match param {
        Ty::List(p) => match arg {
            Ty::List(a) => collect(*p, *a, env),
            _ => env,
        },
        Ty::Gen(g) => if binding(env, g) is None {
            env.push((g, arg))
        } else {
            env
        },
        _ => env,
    }
}

/// The bindings that the first `params.len()` parameter/argument pairs give.
pub open spec fn collect_all(params: Seq<Ty>, args: Seq<Ty>) -> Env
    decreases params.len(),
{
    if params.len() == 0 {
        Seq::empty()
    } else {
        let n = params.len() - 1;
        collect(
            params[n].unwrap_fn(),
            args[n].unwrap_fn(),
            collect_all(params.subrange(0, n), args),
        )
    }
}

/// The return type with its generics replaced, through list and function layers.
pub open spec fn substitute(ret: Ty, env: Env) -> Result<Ty, Failure>
    decreases ret,
{
    match ret {
        Ty::List(inner) => match substitute(*inner, env) {
            Ok(t) => Ok(Ty::List(Box::new(t))),
            Err(e) => Err(e),
        },
        Ty::Func(inner) => match substitute(*inner, env) {
            Ok(t) => Ok(Ty::Func(Box::new(t))),
            Err(e) => Err(e),
        },
        Ty::Gen(g) => match binding(env, g) {
            Some(t) => Ok(t),
            None => Err(Failure::UnresolvedGeneric { name: g }),
        },
        _ => Ok(ret),
    }
}

/// The type of a call, given its argument types.
pub open spec fn call_type(table: Seq<SymModel>, name: Seq<char>, args: Seq<Ty>) -> Result<Ty, Failure> {
    match find_fn(table, name, args) {
        None => Err(Failure::NoMatchingOverload { name, arg_types: args }),
        Some(i) => substitute(table[i].ty, collect_all(table[i].params->0, args)),
    }
}

/// The resolved type of a node.
pub open spec fn node_type(table: Seq<SymModel>, node: Node) -> Result<Ty, Failure>
    decreases node, 1int,
{
    match node {
        Node::Func(_, _, ret, _) => Ok(Ty::Func(Box::new(ret))),
        Node::Let(s, _) => Err(Failure::LetAsValue { name: s.name }),
        Node::Call(name, args) => match arg_types(table, args) {
            Ok(tys) => call_type(table, name, tys),
            Err(e) => Err(e),
        },
        Node::Var(s) => Ok(s.ty),
        Node::Int(_) => Ok(Ty::Int),
        Node::Bool(_) => Ok(Ty::Bool),
    }
}

/// The resolved types of a sequence of nodes; the first failure, left to right.
pub open spec fn arg_types(table: Seq<SymModel>, args: Seq<Node>) -> Result<Seq<Ty>, Failure>
    decreases args, 0int,
{
    if args.len() == 0 {
        Ok(Seq::empty())
    } else {
        match arg_types(table, args.subrange(0, args.len() - 1)) {
            Err(e) => Err(e),
            Ok(tys) => match node_type(table, args[args.len() - 1]) {
                Err(e) => Err(e),
                Ok(t) => Ok(tys.push(t)),
            },
        }
    }
}

/// Whether call arguments satisfy goal types; arity is checked before any argument is typed.
pub open spec fn compare_nodes(table: Seq<SymModel>, args: Seq<Node>, goals: Seq<Ty>) -> Result<bool, Failure> {
    if args.len() != goals.len() {
        Ok(false)
    } else {
        match arg_types(table, args) {
            Ok(tys) => Ok(types_match(tys, goals)),
            Err(e) => Err(e),
        }
    }
}

/// Once a prefix of the arguments fails to unify, the whole sequence does.
proof fn lemma_unify_prefix_none(args: Seq<Ty>, goals: Seq<Ty>, i: int)
    requires
        0 <= i <= args.len(),
        unify_all(args.subrange(0, i), goals) is None,
    ensures
        unify_all(args, goals) is None,
    decreases args.len() - i,
{
    if i == args.len() {
        assert(args.subrange(0, i) =~= args);
    } else {
        let n = args.len() - 1;
        assert(args.subrange(0, n).subrange(0, i) =~= args.subrange(0, i));
        lemma_unify_prefix_none(args.subrange(0, n), goals, i);
    }
}

/// The symbol that resolution picks accepts the call.
pub proof fn lemma_find_fn_matches(table: Seq<SymModel>, name: Seq<char>, args: Seq<Ty>)
    ensures
        find_fn(table, name, args) matches Some(i) ==> 0 <= i < table.len()
            && symbol_matches(table[i], name, args),
    decreases table.len(),
{
    if table.len() > 0 {
        let n = table.len() - 1;
        lemma_find_fn_matches(table.subrange(0, n), name, args);
    }
}

/// Resolution picks the first symbol, in table order, that accepts the call.
pub proof fn lemma_find_fn_first(table: Seq<SymModel>, name: Seq<char>, args: Seq<Ty>)
    ensures
        match find_fn(table, name, args) {
            Some(i) => 0 <= i < table.len() && symbol_matches(table[i], name, args)
                && forall|j: int| 0 <= j < i ==> !symbol_matches(#[trigger] table[j], name, args),
            None => forall|j: int| 0 <= j < table.len() ==> !symbol_matches(#[trigger] table[j], name, args),
        },
    decreases table.len(),
{
    if table.len() > 0 {
        let n = table.len() - 1;
        let pre = table.subrange(0, n);
        lemma_find_fn_first(pre, name, args);
        match find_fn(pre, name, args) {
            Some(i) => {
                assert forall|j: int| 0 <= j < i implies !symbol_matches(#[trigger] table[j], name, args) by {
                    assert(pre[j] == table[j]);
                }
            },
            None => {
                assert forall|j: int| 0 <= j < n implies !symbol_matches(#[trigger] table[j], name, args) by {
                    assert(pre[j] == table[j]);
                }
            },
        }
    }
}

/// A symbol that accepts the call, with none before it that does, is the one resolved.
pub proof fn lemma_find_fn_is(table: Seq<SymModel>, name: Seq<char>, args: Seq<Ty>, i: int)
    requires
        0 <= i < table.len(),
        symbol_matches(table[i], name, args),
        forall|j: int| 0 <= j < i ==> !symbol_matches(#[trigger] table[j], name, args),
    ensures
        find_fn(table, name, args) == Some(i),
{
    lemma_find_fn_first(table, name, args);
}

/// The first match in a prefix of the table is the first match in the table.
proof fn lemma_find_fn_prefix(table: Seq<SymModel>, name: Seq<char>, args: Seq<Ty>, i: int)
    requires
        0 <= i <= table.len(),
        find_fn(table.subrange(0, i), name, args) is Some,
    ensures
        find_fn(table, name, args) == find_fn(table.subrange(0, i), name, args),
    decreases table.len() - i,
{
    if i == table.len() {
        assert(table.subrange(0, i) =~= table);
    } else {
        let n = table.len() - 1;
        assert(table.subrange(0, n).subrange(0, i) =~= table.subrange(0, i));
        lemma_find_fn_prefix(table.subrange(0, n), name, args, i);
    }
}

/// A failure while typing a prefix of the arguments is the failure of the whole sequence.
proof fn lemma_arg_types_prefix_err(table: Seq<SymModel>, args: Seq<Node>, i: int)
    requires
        0 <= i <= args.len(),
        arg_types(table, args.subrange(0, i)) is Err,
    ensures
        arg_types(table, args) == arg_types(table, args.subrange(0, i)),
    decreases args.len() - i,
{
    if i == args.len() {
        assert(args.subrange(0, i) =~= args);
    } else {
        let n = args.len() - 1;
        assert(args.subrange(0, n).subrange(0, i) =~= args.subrange(0, i));
        lemma_arg_types_prefix_err(table, args.subrange(0, n), i);
    }
}

/// The index of the binding of generic `g`, if it has one.
fn lookup_binding(env: &Vec<(String, NodeType)>, g: &String) -> (r: Option<usize>)
    ensures
        match r {
            None => binding(env_view(env@), g@) is None,
            Some(i) => i < env.len() && binding(env_view(env@), g@) == Some(env@[i as int].1@),
        },
{
    let ghost ev = env_view(env@);
    let mut i: usize = env.len();
    assert(ev.subrange(0, i as int) =~= ev);
    while i > 0
        invariant
            i <= env.len(),
            ev == env_view(env@),
            binding(ev, g@) == binding(ev.subrange(0, i as int), g@),
        decreases i,
    {
        assert(ev.subrange(0, i as int).subrange(0, i - 1) =~= ev.subrange(0, i - 1));
        if env[i - 1].0 == *g {
            return Some(i - 1);
        }
        i -= 1;
    }
    None
}

/// Binds `g` to `t`, or checks `t` against the type already bound to `g`.
fn bind_generic(g: &String, t: &NodeType, env: &mut Vec<(String, NodeType)>) -> (r: bool)
    ensures
        r == (bind(env_view(old(env)@), g@, t@) is Some),
        r ==> env_view(final(env)@) == bind(env_view(old(env)@), g@, t@)->0,
{
    match lookup_binding(env, g) {
        None => {
            let ghost before = env_view(env@);
            env.push((g.clone(), t.duplicate()));
            assert(env_view(env@) =~= before.push((g@, t@)));
            true
        },
        Some(i) => t.unwrap_fn().same(&env[i].1.unwrap_fn()),
    }
}

/// Unifies argument type `a` with goal type `b`, extending the bindings.
fn compare(a: &NodeType, b: &NodeType, env: &mut Vec<(String, NodeType)>) -> (r: bool)
    ensures
        r == (unify(a@, b@, env_view(old(env)@)) is Some),
        r ==> env_view(final(env)@) == unify(a@, b@, env_view(old(env)@))->0,
    decreases ty_size(a@), ty_size(b@),
{
    match (a, b) {
        (NodeType::Int, NodeType::Int) => return true,
        (NodeType::Bool, NodeType::Bool) => return true,
        (NodeType::Unit, NodeType::Unit) => return true,
        (NodeType::Generic(x), NodeType::Generic(y)) => return *x == *y,
        (NodeType::Generic(g), _) => return bind_generic(g, b, env),
        (_, NodeType::Generic(g)) => return bind_generic(g, a, env),
        (NodeType::List(x), NodeType::List(y)) => return compare(x, y, env),
        _ => {},
    }
    let a_inner: &NodeType = match a {
        NodeType::Fn(inner) => inner,
        _ => a,
    };
    let b_inner: &NodeType = match b {
        NodeType::Fn(inner) => inner,
        _ => b,
    };
    if matches!(a, NodeType::Fn(_)) || matches!(b, NodeType::Fn(_)) {
        compare(a_inner, b_inner, env)
    } else {
        false
    }
}

/// Whether argument types satisfy goal types, under one set of bindings.
pub fn types_match_exec(args: &Vec<NodeType>, goals: &Vec<NodeType>) -> (r: bool)
    ensures
        r == types_match(types_view(args@), types_view(goals@)),
{
    if args.len() != goals.len() {
        return false;
    }
    let ghost av = types_view(args@);
    let ghost gv = types_view(goals@);
    let mut env: Vec<(String, NodeType)> = Vec::new();
    assert(env_view(env@) =~= Seq::empty());
    let mut i: usize = 0;
    while i < args.len()
        invariant
            i <= args.len(),
            args.len() == goals.len(),
            av == types_view(args@),
            gv == types_view(goals@),
            unify_all(av.subrange(0, i as int), gv) == Some(env_view(env@)),
        decreases args.len() - i,
    {
        assert(av.subrange(0, i + 1).subrange(0, i as int) =~= av.subrange(0, i as int));
        if !compare(&args[i], &goals[i], &mut env) {
            proof {
                lemma_unify_prefix_none(av, gv, i + 1);
            }
            return false;
        }
        i += 1;
    }
    assert(av.subrange(0, i as int) =~= av);
    true
}

/// Binds generics of a parameter type from an argument type, through list layers.
fn collect_exec(param: &NodeType, arg: &NodeType, env: &mut Vec<(String, NodeType)>)
    ensures
        env_view(final(env)@) == collect(param@, arg@, env_view(old(env)@)),
    decreases param,
{
    match param {
        NodeType::List(p) => match arg {
            NodeType::List(a) => collect_exec(p, a, env),
            _ => {},
        },
        NodeType::Generic(g) => {
            if lookup_binding(env, g).is_none() {
                let ghost before = env_view(env@);
                env.push((g.clone(), arg.duplicate()));
                assert(env_view(env@) =~= before.push((g@, arg@)));
            }
        },
        _ => {},
    }
}

/// The return type with generics replaced by their bindings, through list and function layers.
fn substitute_exec(ret: &NodeType, env: &Vec<(String, NodeType)>) -> (r: Result<NodeType, CompileError>)
    ensures
        result_view(r) == substitute(ret@, env_view(env@)),
    decreases ret,
{
    match ret {
        NodeType::List(inner) => match substitute_exec(inner, env) {
            Ok(t) => Ok(NodeType::List(Box::new(t))),
            Err(e) => Err(e),
        },
        NodeType::Fn(inner) => match substitute_exec(inner, env) {
            Ok(t) => Ok(NodeType::Fn(Box::new(t))),
            Err(e) => Err(e),
        },
        NodeType::Generic(g) => match lookup_binding(env, g) {
            Some(i) => Ok(env[i].1.duplicate()),
            None => Err(CompileError::UnresolvedGeneric { name: g.clone() }),
        },
        _ => Ok(ret.duplicate()),
    }
}

/// An ordered table of symbols; lookups return the first match.
#[derive(Debug)]
pub struct SymbolTable {
    pub table: Vec<Symbol>,
}

impl View for SymbolTable {
    type V = Seq<SymModel>;

    open spec fn view(&self) -> Seq<SymModel> {
        symbols_view(self.table@)
    }
}

impl SymbolTable {
    pub fn from(table: Vec<Symbol>) -> (r: SymbolTable)
        ensures
            r@ == symbols_view(table@),
    {
        SymbolTable { table }
    }

    /// A copy of this table, for a nested scope.
    pub fn duplicate(&self) -> (r: SymbolTable)
        ensures
            r@ == self@,
    {
        SymbolTable { table: duplicate_symbols(&self.table) }
    }

    /// Appends a symbol.
    pub fn insert(&mut self, s: Symbol)
        ensures
            final(self)@ == old(self)@.push(s@),
    {
        self.table.push(s);
        assert(symbols_view(self.table@) =~= symbols_view(old(self).table@).push(s@));
    }

    /// Appends copies of symbols, in order.
    pub fn insert_vec(&mut self, v: &Vec<Symbol>)
        ensures
            final(self)@ == old(self)@ + symbols_view(v@),
    {
        let mut i: usize = 0;
        while i < v.len()
            invariant
                i <= v.len(),
                self@ == old(self)@ + symbols_view(v@.subrange(0, i as int)),
            decreases v.len() - i,
        {
            let s = v[i].duplicate();
            self.insert(s);
            i += 1;
            assert(symbols_view(v@.subrange(0, i as int)) =~= symbols_view(v@.subrange(0, i - 1)).push(v@[i - 1]@));
        }
        assert(v@.subrange(0, i as int) =~= v@);
    }

    /// The index of the first function symbol named `name` whose parameters accept `arg_types`.
    pub fn find_fn(&self, name: &String, arg_types: &Vec<NodeType>) -> (r: Option<usize>)
        ensures
            match r {
                None => find_fn(self@, name@, types_view(arg_types@)) is None,
                Some(i) => find_fn(self@, name@, types_view(arg_types@)) == Some(i as int)
                    && i < self.table.len(),
            },
    {
        let ghost tv = self@;
        let ghost av = types_view(arg_types@);
        let mut i: usize = 0;
        while i < self.table.len()
            invariant
                i <= self.table.len(),
                tv == self@,
                av == types_view(arg_types@),
                find_fn(tv.subrange(0, i as int), name@, av) is None,
            decreases self.table.len() - i,
        {
            let s = &self.table[i];
            assert(tv.subrange(0, i + 1).subrange(0, i as int) =~= tv.subrange(0, i as int));
            assert(tv[i as int] == s@);
            let found = match &s.arg_types {
                Some(params) => s.name == *name && types_match_exec(arg_types, params),
                None => false,
            };
            if found {
                proof {
                    lemma_find_fn_prefix(tv, name@, av, i + 1);
                }
                return Some(i);
            }
            i += 1;
        }
        assert(tv.subrange(0, i as int) =~= tv);
        None
    }

    /// The type of a call of `name` whose arguments have types `arg_types`.
    pub fn call_type(&self, name: &String, arg_types: Vec<NodeType>) -> (r: Result<NodeType, CompileError>)
        ensures
            result_view(r) == call_type(self@, name@, types_view(arg_types@)),
    {
        match self.find_fn(name, &arg_types) {
            None => Err(CompileError::NoMatchingOverload { name: name.clone(), arg_types }),
            Some(i) => {
                let s = &self.table[i];
                proof {
                    lemma_find_fn_matches(self@, name@, types_view(arg_types@));
                }
                assert(self@[i as int] == s@);
                match &s.arg_types {
                    Some(params) => {
                        let ghost pv = types_view(params@);
                        let ghost av = types_view(arg_types@);
                        let mut env: Vec<(String, NodeType)> = Vec::new();
                        assert(env_view(env@) =~= Seq::empty());
                        let mut k: usize = 0;
                        while k < params.len()
                            invariant
                                k <= params.len(),
                                params.len() == arg_types.len(),
                                pv == types_view(params@),
                                av == types_view(arg_types@),
                                env_view(env@) == collect_all(pv.subrange(0, k as int), av),
                            decreases params.len() - k,
                        {
                            assert(pv.subrange(0, k + 1).subrange(0, k as int) =~= pv.subrange(0, k as int));
                            let p = params[k].unwrap_fn();
                            let a = arg_types[k].unwrap_fn();
                            collect_exec(&p, &a, &mut env);
                            k += 1;
                        }
                        assert(pv.subrange(0, k as int) =~= pv);
                        substitute_exec(&s.symbol_type, &env)
                    },
                    None => Err(CompileError::NoMatchingOverload { name: name.clone(), arg_types }),
                }
            },
        }
    }

    /// The resolved type of a node.
    pub fn get_node_type(&self, node: &ASTNode) -> (r: Result<NodeType, CompileError>)
        ensures
            result_view(r) == node_type(self@, node@),
        decreases node, 1int,
    {
        match node {
            ASTNode::Fn(_, _, ret, _) => Ok(NodeType::Fn(Box::new(ret.duplicate()))),
            ASTNode::Let(s, _) => Err(CompileError::LetAsValue { name: s.name.clone() }),
            ASTNode::Call(name, args) => match self.node_types(args) {
                Ok(tys) => self.call_type(name, tys),
                Err(e) => Err(e),
            },
            ASTNode::Var(s) => Ok(s.symbol_type.duplicate()),
            ASTNode::Int(_) => Ok(NodeType::Int),
            ASTNode::Bool(_) => Ok(NodeType::Bool),
        }
    }

    /// The resolved types of a sequence of nodes, or the first failure.
    pub fn node_types(&self, args: &Vec<ASTNode>) -> (r: Result<Vec<NodeType>, CompileError>)
        ensures
            match r {
                Ok(tys) => arg_types(self@, nodes_view(args@)) == Ok::<Seq<Ty>, Failure>(types_view(tys@)),
                Err(e) => arg_types(self@, nodes_view(args@)) == Err::<Seq<Ty>, Failure>(e@),
            },
        decreases args, 0int,
    {
        let ghost ns = nodes_view(args@);
        proof {
            lemma_nodes_view(args@);
        }
        let mut out: Vec<NodeType> = Vec::new();
        let mut i: usize = 0;
        assert(ns.subrange(0, 0) =~= Seq::<Node>::empty());
        assert(types_view(out@) =~= Seq::empty());
        while i < args.len()
            invariant
                i <= args.len(),
                ns == nodes_view(args@),
                ns.len() == args.len(),
                forall|j: int| 0 <= j < args.len() ==> #[trigger] ns[j] == args@[j]@,
                arg_types(self@, ns.subrange(0, i as int)) == Ok::<Seq<Ty>, Failure>(types_view(out@)),
            decreases args.len() - i,
        {
            assert(ns.subrange(0, i + 1).subrange(0, i as int) =~= ns.subrange(0, i as int));
            assert(ns.subrange(0, i + 1)[i as int] == args@[i as int]@);
            match self.get_node_type(&args[i]) {
                Ok(t) => {
                    let ghost before = out@;
                    out.push(t);
                    assert(types_view(out@) =~= types_view(before).push(t@));
                },
                Err(e) => {
                    proof {
                        lemma_arg_types_prefix_err(self@, ns, i + 1);
                    }
                    return Err(e);
                },
            }
            i += 1;
        }
        assert(ns.subrange(0, i as int) =~= ns);
        Ok(out)
    }

    /// Whether call arguments satisfy goal types; arity is checked before any argument is typed.
    pub fn compare_types(&self, args: &Vec<ASTNode>, goal_types: &Vec<NodeType>) -> (r: Result<bool, CompileError>)
        ensures
            result_view(r) == compare_nodes(self@, nodes_view(args@), types_view(goal_types@)),
    {
        proof {
            lemma_nodes_view(args@);
        }
        if args.len() != goal_types.len() {
            return Ok(false);
        }
        match self.node_types(args) {
            Ok(tys) => Ok(types_match_exec(&tys, goal_types)),
            Err(e) => Err(e),
        }
    }

    /// The symbols, in table order.
    pub fn iter(&self) -> (r: &[Symbol])
        ensures
            r@ == self.table@,
    {
        self.table.as_slice()
    }

    /// Whether some function symbol named `name` accepts the arguments.
    pub fn check_types(&self, name: &String, args: &Vec<ASTNode>) -> (r: Result<bool, CompileError>)
        ensures
            match arg_types(self@, nodes_view(args@)) {
                Ok(tys) => r == Ok::<bool, CompileError>(find_fn(self@, name@, tys) is Some),
                Err(f) => r matches Err(e) && e@ == f,
            },
    {
        let tys = match self.node_types(args) {
            Ok(t) => t,
            Err(e) => return Err(e),
        };
        Ok(self.find_fn(name, &tys).is_some())
    }

    /// The parameter types of the function symbol that a call resolves to.
    pub fn get_arg_types(&self, name: &String, args: &Vec<ASTNode>) -> (r: Result<Vec<NodeType>, CompileError>)
        ensures
            match arg_types(self@, nodes_view(args@)) {
                Ok(tys) => match find_fn(self@, name@, tys) {
                    Some(i) => r matches Ok(ps) && Some(types_view(ps@)) == self@[i].params,
                    None => r matches Err(e) && e@ == (Failure::NoMatchingOverload { name: name@, arg_types: tys }),
                },
                Err(f) => r matches Err(e) && e@ == f,
            },
    {
        let tys = match self.node_types(args) {
            Ok(t) => t,
            Err(e) => return Err(e),
        };
        proof {
            lemma_find_fn_matches(self@, name@, types_view(tys@));
        }
        match self.find_fn(name, &tys) {
            Some(i) => {
                assert(self@[i as int] == self.table@[i as int]@);
                match &self.table[i].arg_types {
                    Some(ps) => Ok(duplicate_types(ps)),
                    None => Err(CompileError::NoMatchingOverload { name: name.clone(), arg_types: tys }),
                }
            },
            None => Err(CompileError::NoMatchingOverload { name: name.clone(), arg_types: tys }),
        }
    }

    /// The declared type of the function symbol that a call resolves to, before any
    /// generic in it is substituted.
    pub fn get_return_type(&self, name: &String, args: &Vec<ASTNode>) -> (r: Result<NodeType, CompileError>)
        ensures
            match arg_types(self@, nodes_view(args@)) {
                Ok(tys) => match find_fn(self@, name@, tys) {
                    Some(i) => r matches Ok(t) && t@ == self@[i].ty,
                    None => r matches Err(e) && e@ == (Failure::NoMatchingOverload { name: name@, arg_types: tys }),
                },
                Err(f) => r matches Err(e) && e@ == f,
            },
    {
        let tys = match self.node_types(args) {
            Ok(t) => t,
            Err(e) => return Err(e),
        };
        match self.find_fn(name, &tys) {
            Some(i) => {
                assert(self@[i as int] == self.table@[i as int]@);
                Ok(self.table[i].symbol_type.duplicate())
            },
            None => Err(CompileError::NoMatchingOverload { name: name.clone(), arg_types: tys }),
        }
    }
}

} // verus!
