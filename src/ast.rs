use vstd::prelude::*;
use crate::types::{NodeType, Ty};
use crate::symbols::{Symbol, SymModel, symbols_view};

verus! {

/// Model of a syntax tree node.
pub enum Node {
    Func(Seq<char>, Seq<SymModel>, Ty, Seq<Node>),
    Call(Seq<char>, Seq<Node>),
    Let(SymModel, Box<Node>),
    Var(SymModel),
    Int(i32),
    Bool(bool),
}

/// A node of the syntax tree.
#[derive(Debug)]
pub enum ASTNode {
    /// A function declaration: name, parameters, declared return type, body.
    Fn(String, Vec<Symbol>, NodeType, Vec<ASTNode>),
    /// A call of a primitive operator or of a declared function.
    Call(String, Vec<ASTNode>),
    /// A single-assignment binding, visible to the later statements of its body.
    Let(Symbol, Box<ASTNode>),
    /// A reference to a parameter or a let-bound name.
    Var(Symbol),
    Int(i32),
    Bool(bool),
}

pub open spec fn node_view(n: ASTNode) -> Node
    decreases n, 1int,
{
    match n {
        ASTNode::Fn(name, params, ret, body) => Node::Func(
            name@,
            symbols_view(params@),
            ret@,
            nodes_view(body@),
        ),
        ASTNode::Call(name, args) => Node::Call(name@, nodes_view(args@)),
        ASTNode::Let(s, v) => Node::Let(s@, Box::new(node_view(*v))),
        ASTNode::Var(s) => Node::Var(s@),
        ASTNode::Int(v) => Node::Int(v),
        ASTNode::Bool(v) => Node::Bool(v),
    }
}

pub open spec fn nodes_view(ns: Seq<ASTNode>) -> Seq<Node>
    decreases ns, 0int,
{
    if ns.len() == 0 {
        Seq::empty()
    } else {
        nodes_view(ns.subrange(0, ns.len() - 1)).push(node_view(ns[ns.len() - 1]))
    }
}

impl View for ASTNode {
    type V = Node;

    open spec fn view(&self) -> Node {
        node_view(*self)
    }
}

pub proof fn lemma_nodes_view_push(ns: Seq<ASTNode>, n: ASTNode)
    ensures
        nodes_view(ns.push(n)) == nodes_view(ns).push(n@),
{
    assert(ns.push(n).subrange(0, ns.len() as int) =~= ns);
}

pub proof fn lemma_nodes_view(ns: Seq<ASTNode>)
    ensures
        nodes_view(ns).len() == ns.len(),
        forall|i: int| 0 <= i < ns.len() ==> #[trigger] nodes_view(ns)[i] == ns[i]@,
    decreases ns.len(),
{
    if ns.len() > 0 {
        lemma_nodes_view(ns.subrange(0, ns.len() - 1));
    }
}

pub open spec fn digit_char(d: int) -> char {
    if d == 0 { '0' } else if d == 1 { '1' } else if d == 2 { '2' } else if d == 3 { '3' }
    else if d == 4 { '4' } else if d == 5 { '5' } else if d == 6 { '6' } else if d == 7 { '7' }
    else if d == 8 { '8' } else { '9' }
}

/// Decimal digits of a natural number, most significant first.
pub open spec fn digits(n: nat) -> Seq<char>
    decreases n,
{
    if n < 10 {
        seq![digit_char(n as int)]
    } else {
        digits(n / 10).push(digit_char((n % 10) as int))
    }
}

/// Decimal text of an integer, with a leading `-` when negative.
pub open spec fn decimal(v: int) -> Seq<char> {
    if v < 0 {
        seq!['-'] + digits((-v) as nat)
    } else {
        digits(v as nat)
    }
}

fn digit_str(d: u64) -> (r: &'static str)
    requires
        d < 10,
    ensures
        r@ == seq![digit_char(d as int)],
{
    if d == 0 {
        proof { reveal_strlit("0"); }
        "0"
    } else if d == 1 {
        proof { reveal_strlit("1"); }
        "1"
    } else if d == 2 {
        proof { reveal_strlit("2"); }
        "2"
    } else if d == 3 {
        proof { reveal_strlit("3"); }
        "3"
    } else if d == 4 {
        proof { reveal_strlit("4"); }
        "4"
    } else if d == 5 {
        proof { reveal_strlit("5"); }
        "5"
    } else if d == 6 {
        proof { reveal_strlit("6"); }
        "6"
    } else if d == 7 {
        proof { reveal_strlit("7"); }
        "7"
    } else if d == 8 {
        proof { reveal_strlit("8"); }
        "8"
    } else {
        proof { reveal_strlit("9"); }
        "9"
    }
}

fn digits_text(n: u64) -> (r: String)
    ensures
        r@ == digits(n as nat),
    decreases n,
{
    if n < 10 {
        String::from_str(digit_str(n))
    } else {
        let mut s = digits_text(n / 10);
        s.append(digit_str(n % 10));
        s
    }
}

/// Decimal text of an integer.
pub fn decimal_text(v: i32) -> (r: String)
    ensures
        r@ == decimal(v as int),
{
    if v < 0 {
        let mut s = String::from_str("-");
        proof { reveal_strlit("-"); }
        let magnitude = (-(v as i64)) as u64;
        let d = digits_text(magnitude);
        s.append(d.as_str());
        s
    } else {
        digits_text(v as u64)
    }
}

/// The text of a leaf node: a literal or a variable's name.
pub open spec fn imm_text(n: Node) -> Seq<char> {
    match n {
        Node::Int(v) => decimal(v as int),
        Node::Bool(b) => if b { seq!['1'] } else { seq!['0'] },
        Node::Var(s) => s.name,
        _ => Seq::empty(),
    }
}

impl ASTNode {
    /// The host-language text of a literal or a variable; empty for other nodes.
    pub fn imm_repr(&self) -> (r: String)
        ensures
            r@ == imm_text(self@),
    {
        match self {
            ASTNode::Int(v) => decimal_text(*v),
            ASTNode::Bool(v) => if *v {
                proof { reveal_strlit("1"); }
                String::from_str("1")
            } else {
                proof { reveal_strlit("0"); }
                String::from_str("0")
            },
            ASTNode::Var(s) => s.name.clone(),
            _ => String::new(),
        }
    }
}

} // verus!
