use crate::ast::{Span, Stmt};
use std::rc::Rc;
use vstd::prelude::*;

verus! {

/// A user function value: a closure.  `closure` is the index (into the
/// interpreter's frame arena) of the environment that was current at the
/// point of the declaration, which is what makes closures capture their
/// lexical environment rather than the caller's.
#[derive(Debug)]
pub struct Function {
    pub name: String,
    pub span: Span,
    pub params: Rc<Vec<String>>,
    pub body: Rc<Vec<Stmt>>,
    pub closure: usize,
    pub is_initializer: bool,
}

/// A runtime value.
#[derive(Debug)]
pub enum Value {
    Nil,
    Bool(bool),
    Num(i64),
    Str(String),
    Function(Function),
}

/// Mathematical model of a function value.
pub struct FunctionV {
    pub name: Seq<char>,
    pub span: Span,
    pub params: Seq<Seq<char>>,
    pub body: Seq<Stmt>,
    pub env: int,
    pub is_initializer: bool,
}

/// Mathematical model of a runtime value.
pub enum ValueV {
    Nil,
    Bool(bool),
    Num(i64),
    Str(Seq<char>),
    Func(FunctionV),
}

/// The parameter names of a function, as sequences of characters.
pub open spec fn names_view(ps: Seq<String>) -> Seq<Seq<char>> {
    ps.map_values(|p: String| p@)
}

impl View for Function {
    type V = FunctionV;

    open spec fn view(&self) -> FunctionV {
        FunctionV {
            name: self.name@,
            span: self.span,
            params: names_view(self.params@),
            body: self.body@,
            env: self.closure as int,
            is_initializer: self.is_initializer,
        }
    }
}

impl View for Value {
    type V = ValueV;

    open spec fn view(&self) -> ValueV {
        match self {
            Value::Nil => ValueV::Nil,
            Value::Bool(b) => ValueV::Bool(*b),
            Value::Num(n) => ValueV::Num(*n),
            Value::Str(s) => ValueV::Str(s@),
            Value::Function(f) => ValueV::Func(f@),
        }
    }
}

/// A value is well formed with respect to an arena of `n` frames when any
/// environment it captures is a frame of that arena.
pub open spec fn value_wf(v: ValueV, n: int) -> bool {
    match v {
        ValueV::Func(f) => 0 <= f.env < n,
        _ => true,
    }
}

/// The total boolean coercion used by `if` and `while`: `nil`, `false` and
/// the number zero are falsy; every other value is truthy.
pub open spec fn spec_truthy(v: ValueV) -> bool {
    match v {
        ValueV::Nil => false,
        ValueV::Bool(b) => b,
        ValueV::Num(n) => n != 0,
        ValueV::Str(_) => true,
        ValueV::Func(_) => true,
    }
}

impl Value {
    /// The total boolean coercion used by `if` and `while`.
    pub fn truthy(&self) -> (r: bool)
        ensures
            r == spec_truthy(self@),
    {
        match self {
            Value::Nil => false,
            Value::Bool(b) => *b,
            Value::Num(n) => *n != 0,
            Value::Str(_) => true,
            Value::Function(_) => true,
        }
    }

    /// A copy of the value.  Function values share their parameter list,
    /// body and captured environment with the original.
    pub fn dup(&self) -> (r: Value)
        ensures
            r == *self,
    {
        match self {
            Value::Nil => Value::Nil,
            Value::Bool(b) => Value::Bool(*b),
            Value::Num(n) => Value::Num(*n),
            Value::Str(s) => Value::Str(s.clone()),
            Value::Function(f) => Value::Function(
                Function {
                    name: f.name.clone(),
                    span: f.span,
                    params: f.params.clone(),
                    body: f.body.clone(),
                    closure: f.closure,
                    is_initializer: f.is_initializer,
                },
            ),
        }
    }
}

} // verus!
