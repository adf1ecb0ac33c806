use crate::ast::{Expr, Lit, Stmt};
use crate::env::{
    env_assign, env_define, init_env, lookup, push_frame, EnvV,
};
use crate::outcome::{fuel_error, BindingError, Error, ErrorInfo, OutcomeV};
use crate::value::{names_view, spec_truthy, FunctionV, ValueV};
use vstd::prelude::*;

verus! {

/// Everything execution can observe or change: the environment and the
/// sequence of values printed so far.
pub struct StateV {
    pub env: EnvV,
    pub output: Seq<ValueV>,
}

/// The state top-level execution starts from: one empty global frame and
/// no output.
pub open spec fn init_state() -> StateV {
    StateV { env: init_env(), output: Seq::empty() }
}

/// The value a literal denotes.
pub open spec fn lit_value(l: Lit) -> ValueV {
    match l {
        Lit::Nil => ValueV::Nil,
        Lit::Bool(b) => ValueV::Bool(b),
        Lit::Num(n) => ValueV::Num(n),
        Lit::Str(s) => ValueV::Str(s@),
    }
}

/// Binding a function's parameters, left to right, in the current (fresh)
/// call frame.  Defining over an earlier parameter of the same name
/// overwrites it, as `define` does.
pub open spec fn define_params(e: EnvV, ps: Seq<Seq<char>>, vs: Seq<ValueV>, i: int) -> EnvV
    decreases ps.len() - i,
{
    if i < 0 || i >= ps.len() || vs.len() != ps.len() {
        e
    } else {
        define_params(env_define(e, ps[i], vs[i], false).0, ps, vs, i + 1)
    }
}

/// Big-step evaluation of an expression: the state after it and either its
/// value or the error (never a control signal: `return` is a statement,
/// and a `Return` escaping a called body is consumed at the call).
pub open spec fn spec_eval(s: StateV, e: Expr, fuel: nat) -> (StateV, Result<ValueV, ErrorInfo>)
    decreases fuel,
{
    if fuel == 0 {
        (s, Err(fuel_error()))
    } else {
        let fl = (fuel - 1) as nat;
        match e {
            Expr::Lit(l) => (s, Ok(lit_value(l))),
            Expr::Var(name, span) => match lookup(s.env.frames, s.env.cur, name@) {
                Some(b) => (s, Ok(b.value)),
                None => (
                    s,
                    Err(ErrorInfo { error: Error::Binding(BindingError::Undefined), span }),
                ),
            },
            Expr::Assign(name, sub, span) => {
                let (s1, r) = spec_eval(s, *sub, fl);
                match r {
                    Ok(v) => {
                        let (env2, err) = env_assign(s1.env, name@, v);
                        match err {
                            None => (StateV { env: env2, output: s1.output }, Ok(v)),
                            Some(be) => (
                                s1,
                                Err(ErrorInfo { error: Error::Binding(be), span }),
                            ),
                        }
                    },
                    Err(er) => (s1, Err(er)),
                }
            },
            Expr::Add(lhs, rhs, span) => {
                let (s1, rl) = spec_eval(s, *lhs, fl);
                match rl {
                    Err(er) => (s1, Err(er)),
                    Ok(vl) => {
                        let (s2, rr) = spec_eval(s1, *rhs, fl);
                        match rr {
                            Err(er) => (s2, Err(er)),
                            Ok(vr) => match (vl, vr) {
                                (ValueV::Num(a), ValueV::Num(b)) => (
                                    s2,
                                    Ok(ValueV::Num(a.wrapping_add(b))),
                                ),
                                _ => (s2, Err(ErrorInfo { error: Error::TypeMismatch, span })),
                            },
                        }
                    },
                }
            },
            Expr::Call(callee, args, span) => {
                let (s1, rc) = spec_eval(s, *callee, fl);
                match rc {
                    Err(er) => (s1, Err(er)),
                    Ok(cv) => spec_call(s1, cv, args@, span, fl),
                }
            },
        }
    }
}

/// Calling a value: an error unless it is a function of the arguments'
/// number; otherwise the arguments are evaluated left to right, a fresh
/// frame chained to the function's captured environment receives the
/// parameters, the body runs in it, and the caller's current frame is
/// restored.  A `Return` escaping the body is consumed here: its value is
/// the call's value; a body that completes yields `nil`.
pub open spec fn spec_call(s: StateV, cv: ValueV, args: Seq<Expr>, span: crate::ast::Span, fuel: nat) -> (StateV, Result<ValueV, ErrorInfo>)
    decreases fuel,
{
    if fuel == 0 {
        (s, Err(fuel_error()))
    } else {
        let fl = (fuel - 1) as nat;
        match cv {
            ValueV::Func(f) => if args.len() != f.params.len() {
                (s, Err(ErrorInfo { error: Error::Arity, span }))
            } else {
                let (s2, ra) = spec_eval_args(s, args, 0, fl);
                match ra {
                    Err(er) => (s2, Err(er)),
                    Ok(vals) => {
                        let caller = s2.env.cur;
                        let env1 = push_frame(s2.env, f.env);
                        let env2 = define_params(env1, f.params, vals, 0);
                        let (s3, o) = spec_exec_stmts(
                            StateV { env: env2, output: s2.output },
                            f.body,
                            0,
                            fl,
                        );
                        let s4 = StateV {
                            env: EnvV { frames: s3.env.frames, cur: caller },
                            output: s3.output,
                        };
                        match o {
                            OutcomeV::Completed => (s4, Ok(ValueV::Nil)),
                            OutcomeV::Return(v, _) => (s4, Ok(v)),
                            OutcomeV::Failed(er) => (s4, Err(er)),
                        }
                    },
                }
            },
            _ => (s, Err(ErrorInfo { error: Error::NotCallable, span })),
        }
    }
}

/// Evaluates the argument expressions from position `i` on, left to right.
pub open spec fn spec_eval_args(s: StateV, args: Seq<Expr>, i: int, fuel: nat) -> (StateV, Result<
    Seq<ValueV>,
    ErrorInfo,
>)
    decreases fuel,
{
    if fuel == 0 {
        (s, Err(fuel_error()))
    } else if i < 0 || i >= args.len() {
        (s, Ok(Seq::empty()))
    } else {
        let fl = (fuel - 1) as nat;
        let (s1, r) = spec_eval(s, args[i], fl);
        match r {
            Err(er) => (s1, Err(er)),
            Ok(v) => {
                let (s2, rest) = spec_eval_args(s1, args, i + 1, fl);
                match rest {
                    Err(er) => (s2, Err(er)),
                    Ok(vs) => (s2, Ok(seq![v] + vs)),
                }
            },
        }
    }
}

/// Big-step execution of one statement: the state after it and how it
/// ended.  Every composite statement passes a `Return` signal or a failure
/// upward untouched; only a function call consumes a `Return`.
pub open spec fn spec_exec_stmt(s: StateV, st: Stmt, fuel: nat) -> (StateV, OutcomeV)
    decreases fuel,
{
    if fuel == 0 {
        (s, OutcomeV::Failed(fuel_error()))
    } else {
        let fl = (fuel - 1) as nat;
        match st {
            Stmt::Print(e) => {
                let (s1, r) = spec_eval(s, e, fl);
                match r {
                    Ok(v) => (
                        StateV { env: s1.env, output: s1.output.push(v) },
                        OutcomeV::Completed,
                    ),
                    Err(er) => (s1, OutcomeV::Failed(er)),
                }
            },
            Stmt::Expr(e) => {
                let (s1, r) = spec_eval(s, e, fl);
                match r {
                    Ok(_) => (s1, OutcomeV::Completed),
                    Err(er) => (s1, OutcomeV::Failed(er)),
                }
            },
            Stmt::Let { name, init, is_const, span } => {
                let (s1, r) = match init {
                    Some(e) => spec_eval(s, e, fl),
                    None => (s, Ok(ValueV::Nil)),
                };
                match r {
                    Err(er) => (s1, OutcomeV::Failed(er)),
                    Ok(v) => {
                        let (env2, err) = env_define(s1.env, name@, v, is_const);
                        match err {
                            None => (
                                StateV { env: env2, output: s1.output },
                                OutcomeV::Completed,
                            ),
                            Some(be) => (
                                s1,
                                OutcomeV::Failed(ErrorInfo { error: Error::Binding(be), span }),
                            ),
                        }
                    },
                }
            },
            Stmt::While { cond, body } => {
                let (s1, r) = spec_eval(s, cond, fl);
                match r {
                    Err(er) => (s1, OutcomeV::Failed(er)),
                    Ok(v) => if !spec_truthy(v) {
                        (s1, OutcomeV::Completed)
                    } else {
                        let (s2, o) = spec_exec_stmt(s1, *body, fl);
                        match o {
                            OutcomeV::Completed => spec_exec_stmt(
                                s2,
                                Stmt::While { cond, body },
                                fl,
                            ),
                            _ => (s2, o),
                        }
                    },
                }
            },
            Stmt::Return { value, span } => {
                let (s1, r) = match value {
                    Some(e) => spec_eval(s, e, fl),
                    None => (s, Ok(ValueV::Nil)),
                };
                match r {
                    Ok(v) => (s1, OutcomeV::Return(v, span)),
                    Err(er) => (s1, OutcomeV::Failed(er)),
                }
            },
            Stmt::Block(ss) => {
                let caller = s.env.cur;
                let env1 = push_frame(s.env, caller);
                let (s2, o) = spec_exec_stmts(StateV { env: env1, output: s.output }, ss@, 0, fl);
                (
                    StateV {
                        env: EnvV { frames: s2.env.frames, cur: caller },
                        output: s2.output,
                    },
                    o,
                )
            },
            Stmt::If { cond, truthy, falsy } => {
                let (s1, r) = spec_eval(s, cond, fl);
                match r {
                    Err(er) => (s1, OutcomeV::Failed(er)),
                    Ok(v) => if spec_truthy(v) {
                        spec_exec_stmt(s1, *truthy, fl)
                    } else {
                        match falsy {
                            Some(fb) => spec_exec_stmt(s1, *fb, fl),
                            None => (s1, OutcomeV::Completed),
                        }
                    },
                }
            },
            Stmt::Function { name, params, body, span } => {
                let f = FunctionV {
                    name: name@,
                    span,
                    params: names_view(params@),
                    body: body@,
                    env: s.env.cur,
                    is_initializer: false,
                };
                let (env2, err) = env_define(s.env, name@, ValueV::Func(f), false);
                match err {
                    None => (StateV { env: env2, output: s.output }, OutcomeV::Completed),
                    Some(be) => (
                        s,
                        OutcomeV::Failed(ErrorInfo { error: Error::Binding(be), span }),
                    ),
                }
            },
            Stmt::Class { span, .. } => (
                s,
                OutcomeV::Failed(ErrorInfo { error: Error::Unimplemented, span }),
            ),
            Stmt::Break(span) => (
                s,
                OutcomeV::Failed(ErrorInfo { error: Error::Unimplemented, span }),
            ),
            Stmt::Continue(span) => (
                s,
                OutcomeV::Failed(ErrorInfo { error: Error::Unimplemented, span }),
            ),
        }
    }
}

/// Executes the statements of a block or body from position `i` on; the
/// first statement that does not complete stops the sequence and its
/// outcome propagates.
pub open spec fn spec_exec_stmts(s: StateV, ss: Seq<Stmt>, i: int, fuel: nat) -> (StateV, OutcomeV)
    decreases fuel,
{
    if fuel == 0 {
        (s, OutcomeV::Failed(fuel_error()))
    } else if i < 0 || i >= ss.len() {
        (s, OutcomeV::Completed)
    } else {
        let fl = (fuel - 1) as nat;
        let (s1, o) = spec_exec_stmt(s, ss[i], fl);
        match o {
            OutcomeV::Completed => spec_exec_stmts(s1, ss, i + 1, fl),
            _ => (s1, o),
        }
    }
}

/// Top-level execution of a program from statement `i` on.  Each statement
/// gets the full step budget.  A `Return` signal escaping all statements
/// is reported as `ReturnOutsideFunction`, never silently swallowed.
pub open spec fn spec_run(s: StateV, prog: Seq<Stmt>, i: int, fuel: nat) -> (StateV, Result<
    (),
    ErrorInfo,
>)
    decreases prog.len() - i,
{
    if i < 0 || i >= prog.len() {
        (s, Ok(()))
    } else {
        let (s1, o) = spec_exec_stmt(s, prog[i], fuel);
        match o {
            OutcomeV::Completed => spec_run(s1, prog, i + 1, fuel),
            OutcomeV::Return(_, sp) => (
                s1,
                Err(ErrorInfo { error: Error::ReturnOutsideFunction, span: sp }),
            ),
            OutcomeV::Failed(er) => (s1, Err(er)),
        }
    }
}

} // verus!
