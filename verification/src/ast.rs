use std::rc::Rc;
use vstd::prelude::*;

verus! {

/// The byte range a syntax node covers in the source text; every fallible
/// operation reports the span of the statement or expression that raised it.
#[derive(Clone, Copy, PartialEq, Eq, Structural, Debug)]
pub struct Span {
    pub lo: u64,
    pub hi: u64,
}

impl Span {
    /// The span used where no syntax node is at hand (resource exhaustion).
    pub fn none() -> (r: Span)
        ensures
            r == (Span { lo: 0, hi: 0 }),
    {
        Span { lo: 0, hi: 0 }
    }
}

/// A literal expression's value.
#[derive(Debug)]
pub enum Lit {
    Nil,
    Bool(bool),
    Num(i64),
    Str(String),
}

/// Expressions, as far as the statement core's evaluator understands them:
/// literals, variable reads, assignment, numeric addition, and calls.
#[derive(Debug)]
pub enum Expr {
    Lit(Lit),
    Var(String, Span),
    Assign(String, Box<Expr>, Span),
    Add(Box<Expr>, Box<Expr>, Span),
    Call(Box<Expr>, Vec<Expr>, Span),
}

/// Parsed statement nodes.  Function parameter lists and bodies are shared
/// (`Rc`) because a function declaration stores them in the closure value it
/// binds, while the surrounding program retains the declaration itself.
#[derive(Debug)]
#[allow(inconsistent_fields)]
pub enum Stmt {
    Print(Expr),
    Expr(Expr),
    Let { name: String, init: Option<Expr>, is_const: bool, span: Span },
    While { cond: Expr, body: Box<Stmt> },
    Return { value: Option<Expr>, span: Span },
    Block(Vec<Stmt>),
    If { cond: Expr, truthy: Box<Stmt>, falsy: Option<Box<Stmt>> },
    Function { name: String, params: Rc<Vec<String>>, body: Rc<Vec<Stmt>>, span: Span },
    Class { name: String, superclass: Option<String>, methods: Vec<Stmt>, span: Span },
    Break(Span),
    Continue(Span),
}

} // verus!
