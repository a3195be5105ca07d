use vstd::prelude::*;

verus! {

/// Mathematical model of a type of the source language.
pub enum Ty {
    Int,
    Bool,
    Func(Box<Ty>),
    List(Box<Ty>),
    Unit,
    Gen(Seq<char>),
}

impl Ty {
    /// Strips one function layer: a function position compares on its return type.
    pub open spec fn unwrap_fn(self) -> Ty {
        match self {
            Ty::Func(inner) => *inner,
            _ => self,
        }
    }

    pub open spec fn is_list(self) -> bool {
        self is List
    }
}

/// A type of the source language.
#[derive(Debug)]
pub enum NodeType {
    Int,
    Bool,
    Fn(Box<NodeType>),
    List(Box<NodeType>),
    /// The type written `None`: no value.
    Unit,
    Generic(String),
}

pub open spec fn type_view(t: NodeType) -> Ty
    decreases t,
{
    match t {
        NodeType::Int => Ty::Int,
        NodeType::Bool => Ty::Bool,
        NodeType::Fn(inner) => Ty::Func(Box::new(type_view(*inner))),
        NodeType::List(inner) => Ty::List(Box::new(type_view(*inner))),
        NodeType::Unit => Ty::Unit,
        NodeType::Generic(name) => Ty::Gen(name@),
    }
}

impl View for NodeType {
    type V = Ty;

    open spec fn view(&self) -> Ty {
        type_view(*self)
    }
}

/// How a type is written in a diagnostic.
pub open spec fn type_text(t: Ty) -> Seq<char>
    decreases t,
{
    match t {
        Ty::Int => "Int"@,
        Ty::Bool => "Bool"@,
        Ty::Func(inner) => "Fn("@ + type_text(*inner) + ")"@,
        Ty::List(inner) => "["@ + type_text(*inner) + "]"@,
        Ty::Unit => "None"@,
        Ty::Gen(g) => "Generic("@ + g + ")"@,
    }
}

/// The models of a sequence of types.
pub open spec fn types_view(ts: Seq<NodeType>) -> Seq<Ty> {
    ts.map_values(|t: NodeType| t@)
}

impl NodeType {
    /// A generic placeholder with the given name.
    pub fn gen(name: &str) -> (r: NodeType)
        ensures
            r@ == Ty::Gen(name@),
    {
        NodeType::Generic(name.to_string())
    }

    /// A copy of this type.
    pub fn duplicate(&self) -> (r: NodeType)
        ensures
            r@ == self@,
        decreases self,
    {
        match self {
            NodeType::Int => NodeType::Int,
            NodeType::Bool => NodeType::Bool,
            NodeType::Fn(inner) => NodeType::Fn(Box::new(inner.duplicate())),
            NodeType::List(inner) => NodeType::List(Box::new(inner.duplicate())),
            NodeType::Unit => NodeType::Unit,
            NodeType::Generic(name) => NodeType::Generic(name.clone()),
        }
    }

    /// The type with one function layer removed, if it has one.
    pub fn unwrap_fn(&self) -> (r: NodeType)
        ensures
            r@ == self@.unwrap_fn(),
    {
        match self {
            NodeType::Fn(inner) => inner.duplicate(),
            _ => self.duplicate(),
        }
    }

    /// How this type is written in a diagnostic.
    pub fn text(&self) -> (r: String)
        ensures
            r@ == type_text(self@),
        decreases self,
    {
        match self {
            NodeType::Int => String::from_str("Int"),
            NodeType::Bool => String::from_str("Bool"),
            NodeType::Fn(inner) => {
                let mut s = String::from_str("Fn(");
                let t = inner.text();
                s.append(t.as_str());
                s.append(")");
                s
            },
            NodeType::List(inner) => {
                let mut s = String::from_str("[");
                let t = inner.text();
                s.append(t.as_str());
                s.append("]");
                s
            },
            NodeType::Unit => String::from_str("None"),
            NodeType::Generic(g) => {
                let mut s = String::from_str("Generic(");
                s.append(g.as_str());
                s.append(")");
                s
            },
        }
    }

    /// Whether this type is a list type.
    pub fn is_list(&self) -> (r: bool)
        ensures
            r == self@.is_list(),
    {
        match self {
            NodeType::List(_) => true,
            _ => false,
        }
    }

    /// Structural equality of two types.
    pub fn same(&self, other: &NodeType) -> (r: bool)
        ensures
            r == (self@ == other@),
        decreases self,
    {
        match self {
            NodeType::Int => matches!(other, NodeType::Int),
            NodeType::Bool => matches!(other, NodeType::Bool),
            NodeType::Unit => matches!(other, NodeType::Unit),
            NodeType::Fn(a) => match other {
                NodeType::Fn(b) => a.same(b),
                _ => false,
            },
            NodeType::List(a) => match other {
                NodeType::List(b) => a.same(b),
                _ => false,
            },
            NodeType::Generic(a) => match other {
                NodeType::Generic(b) => *a == *b,
                _ => false,
            },
        }
    }
}

/// A copy of each type of a sequence.
pub fn duplicate_types(ts: &Vec<NodeType>) -> (r: Vec<NodeType>)
    ensures
        types_view(r@) == types_view(ts@),
{
    let mut out: Vec<NodeType> = Vec::new();
    let mut i: usize = 0;
    while i < ts.len()
        invariant
            i <= ts.len(),
            out@.len() == i,
            forall|j: int| 0 <= j < i ==> (#[trigger] out@[j])@ == ts@[j]@,
        decreases ts.len() - i,
    {
        let t = ts[i].duplicate();
        out.push(t);
        i += 1;
    }
    assert(types_view(out@) =~= types_view(ts@));
    out
}

} // verus!
