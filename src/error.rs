use vstd::prelude::*;
use crate::types::{NodeType, Ty, types_view};

verus! {

/// Model of a compile error.
pub enum Failure {
    Syntax { expected: Seq<char>, found: Seq<char>, line: usize },
    UnknownSymbol { name: Seq<char>, line: usize },
    TypeMismatch { name: Seq<char>, declared: Ty, resolved: Ty },
    NoMatchingOverload { name: Seq<char>, arg_types: Seq<Ty> },
    UnresolvedGeneric { name: Seq<char> },
    UnrecognizedFunction { name: Seq<char>, arg_types: Seq<Ty> },
    LetAsValue { name: Seq<char> },
}

/// A fatal compile error. Compilation stops at the first one.
#[derive(Debug)]
pub enum CompileError {
    /// A missing or unexpected token: what was expected, what was found, and the line.
    Syntax { expected: String, found: String, line: usize },
    /// An identifier that no symbol in scope declares, with its line.
    UnknownSymbol { name: String, line: usize },
    /// A body (or a let-bound value) whose type differs from the declared one.
    TypeMismatch { name: String, declared: NodeType, resolved: NodeType },
    /// A call whose argument types no overload of its name accepts.
    NoMatchingOverload { name: String, arg_types: Vec<NodeType> },
    /// A generic of a return type that no argument binds.
    UnresolvedGeneric { name: String },
    /// A call that matches neither a primitive operator nor a declared function.
    UnrecognizedFunction { name: String, arg_types: Vec<NodeType> },
    /// A let binding used where a value is needed.
    LetAsValue { name: String },
}

impl View for CompileError {
    type V = Failure;

    open spec fn view(&self) -> Failure {
        match self {
            CompileError::Syntax { expected, found, line } => Failure::Syntax {
                expected: expected@,
                found: found@,
                line: *line,
            },
            CompileError::UnknownSymbol { name, line } => Failure::UnknownSymbol {
                name: name@,
                line: *line,
            },
            CompileError::TypeMismatch { name, declared, resolved } => Failure::TypeMismatch {
                name: name@,
                declared: declared@,
                resolved: resolved@,
            },
            CompileError::NoMatchingOverload { name, arg_types } => Failure::NoMatchingOverload {
                name: name@,
                arg_types: types_view(arg_types@),
            },
            CompileError::UnresolvedGeneric { name } => Failure::UnresolvedGeneric { name: name@ },
            CompileError::UnrecognizedFunction { name, arg_types } => Failure::UnrecognizedFunction {
                name: name@,
                arg_types: types_view(arg_types@),
            },
            CompileError::LetAsValue { name } => Failure::LetAsValue { name: name@ },
        }
    }
}

/// The model of a result: its value's model, or the failure.
pub open spec fn result_view<T: View>(r: Result<T, CompileError>) -> Result<T::V, Failure> {
    match r {
        Ok(v) => Ok(v@),
        Err(e) => Err(e@),
    }
}

} // verus!
