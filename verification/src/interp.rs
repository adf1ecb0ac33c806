use crate::ast::{Expr, Lit, Span, Stmt};
use crate::env::Environment;
use crate::outcome::{outcome_wf, BindingError, Error, ErrorInfo, Outcome};
use crate::sem::{
    define_params, init_state, spec_call, spec_eval, spec_eval_args, spec_exec_stmt,
    spec_exec_stmts, spec_run, StateV,
};
use crate::value::{names_view, value_wf, Function, Value, ValueV};
use std::rc::Rc;
use vstd::prelude::*;

verus! {

/// The values printed so far, as their models.
pub open spec fn values_view(vs: Seq<Value>) -> Seq<ValueV> {
    vs.map_values(|v: Value| v@)
}

proof fn lemma_values_view_push(vs: Seq<Value>, v: Value)
    ensures
        values_view(vs.push(v)) =~= values_view(vs).push(v@),
{
}

/// The statement executor: the environment it mutates and the output sink
/// it appends to.  Execution is metered by a step budget (`fuel`), the
/// analogue of the bounded host call stack; every other aspect of a run is
/// exactly `sem::spec_exec_stmt`.
#[derive(Debug)]
pub struct Interpreter {
    pub env: Environment,
    pub output: Vec<Value>,
}

impl View for Interpreter {
    type V = StateV;

    open spec fn view(&self) -> StateV {
        StateV { env: self.env@, output: values_view(self.output@) }
    }
}

impl Interpreter {
    /// The invariant that every operation preserves.
    pub open spec fn inv(self) -> bool {
        self.env.inv()
    }

    /// A fresh interpreter: one empty global frame, no output.
    pub fn new() -> (r: Interpreter)
        ensures
            r.inv(),
            r@ == init_state(),
    {
        let r = Interpreter { env: Environment::new(), output: Vec::new() };
        proof {
            assert(values_view(r.output@) =~= Seq::<ValueV>::empty());
        }
        r
    }

    /// Evaluates one expression, as `sem::spec_eval` says.
    pub fn eval_expr(&mut self, e: &Expr, fuel: u64) -> (r: Result<Value, ErrorInfo>)
        requires
            old(self).inv(),
        ensures
            final(self).inv(),
            old(self)@.env.frames.len() <= final(self)@.env.frames.len(),
            ({
                let (s2, rr) = spec_eval(old(self)@, *e, fuel as nat);
                &&& final(self)@ == s2
                &&& match r {
                    Ok(v) => rr == Ok::<ValueV, ErrorInfo>(v@) && value_wf(
                        v@,
                        final(self)@.env.frames.len() as int,
                    ),
                    Err(er) => rr == Err::<ValueV, ErrorInfo>(er),
                }
            }),
        decreases fuel,
    {
        if fuel == 0 {
            return Err(ErrorInfo { error: Error::OutOfFuel, span: Span::none() });
        }
        let fl = fuel - 1;
        match e {
            Expr::Lit(l) => {
                let v = match l {
                    Lit::Nil => Value::Nil,
                    Lit::Bool(b) => Value::Bool(*b),
                    Lit::Num(n) => Value::Num(*n),
                    Lit::Str(s) => Value::Str(s.clone()),
                };
                Ok(v)
            },
            Expr::Var(name, span) => {
                match self.env.get(name) {
                    Ok(v) => Ok(v),
                    Err(_) => Err(
                        ErrorInfo { error: Error::Binding(BindingError::Undefined), span: *span },
                    ),
                }
            },
            Expr::Assign(name, sub, span) => {
                match self.eval_expr(sub, fl) {
                    Ok(v) => {
                        match self.env.assign(name, v.dup()) {
                            Ok(_) => Ok(v),
                            Err(be) => Err(
                                ErrorInfo { error: Error::Binding(be), span: *span },
                            ),
                        }
                    },
                    Err(er) => Err(er),
                }
            },
            Expr::Add(lhs, rhs, span) => {
                let vl = match self.eval_expr(lhs, fl) {
                    Ok(v) => v,
                    Err(er) => return Err(er),
                };
                let vr = match self.eval_expr(rhs, fl) {
                    Ok(v) => v,
                    Err(er) => return Err(er),
                };
                match (vl, vr) {
                    (Value::Num(a), Value::Num(b)) => Ok(Value::Num(a.wrapping_add(b))),
                    _ => Err(ErrorInfo { error: Error::TypeMismatch, span: *span }),
                }
            },
            Expr::Call(callee, args, span) => {
                let cv = match self.eval_expr(callee, fl) {
                    Ok(v) => v,
                    Err(er) => return Err(er),
                };
                self.call_value(cv, args, *span, fl)
            },
        }
    }

    /// Calls a value: the function-call boundary, where a `Return` signal
    /// escaping the body is consumed and becomes the call's value.
    pub fn call_value(&mut self, cv: Value, args: &Vec<Expr>, span: Span, fuel: u64) -> (r:
        Result<Value, ErrorInfo>)
        requires
            old(self).inv(),
            value_wf(cv@, old(self)@.env.frames.len() as int),
        ensures
            final(self).inv(),
            old(self)@.env.frames.len() <= final(self)@.env.frames.len(),
            ({
                let (s2, rr) = spec_call(old(self)@, cv@, args@, span, fuel as nat);
                &&& final(self)@ == s2
                &&& match r {
                    Ok(v) => rr == Ok::<ValueV, ErrorInfo>(v@) && value_wf(
                        v@,
                        final(self)@.env.frames.len() as int,
                    ),
                    Err(er) => rr == Err::<ValueV, ErrorInfo>(er),
                }
            }),
        decreases fuel,
    {
        if fuel == 0 {
            return Err(ErrorInfo { error: Error::OutOfFuel, span: Span::none() });
        }
        let fl = fuel - 1;
        match cv {
            Value::Function(f) => {
                if args.len() != f.params.len() {
                    return Err(ErrorInfo { error: Error::Arity, span });
                }
                let vals = match self.eval_args(args, 0, fl) {
                    Ok(vs) => vs,
                    Err(er) => return Err(er),
                };
                let ghost s_args = self@;
                let caller = self.env.cur_index();
                self.env.new_child(f.closure);
                let ghost env_pushed = self.env@;
                let ghost ps = names_view(f.params@);
                let ghost vsv = values_view(vals@);
                let params: &Vec<String> = &*f.params;
                let mut k: usize = 0;
                while k < vals.len()
                    invariant
                        self.env.inv(),
                        self@.output == s_args.output,
                        k <= vals.len(),
                        vals@.len() == ps.len(),
                        ps == names_view(f.params@),
                        vsv == values_view(vals@),
                        params@ == f.params@,
                        self.env@.frames.len() == env_pushed.frames.len(),
                        self.env@.cur == env_pushed.cur,
                        0 <= self.env@.cur < self.env@.frames.len(),
                        define_params(env_pushed, ps, vsv, 0) == define_params(
                            self.env@,
                            ps,
                            vsv,
                            k as int,
                        ),
                        forall|nm: Seq<char>|
                            #[trigger] self.env@.frames[self.env@.cur].bindings.contains_key(
                                nm,
                            ) ==> !self.env@.frames[self.env@.cur].bindings[nm].is_const,
                        forall|m: int|
                            0 <= m < vals@.len() ==> value_wf(
                                #[trigger] vsv[m],
                                self.env@.frames.len() as int,
                            ),
                    decreases vals@.len() - k,
                {
                    let dr = self.env.define(&params[k], vals[k].dup(), false);
                    proof {
                        // a fresh call frame holds no const binding, so
                        // defining a parameter cannot fail
                        if dr is Err {
                            assert(false);
                        }
                        assert(ps[k as int] == params@[k as int]@);
                        assert(vsv[k as int] == vals@[k as int]@);
                    }
                    k += 1;
                }
                proof {
                    assert(define_params(self.env@, ps, vsv, k as int) == self.env@);
                }
                let o = self.exec_stmts(&*f.body, 0, fl);
                self.env.set_cur(caller);
                match o {
                    Outcome::Completed => Ok(Value::Nil),
                    Outcome::Return(v, _) => Ok(v),
                    Outcome::Failed(er) => Err(er),
                }
            },
            _ => Err(ErrorInfo { error: Error::NotCallable, span }),
        }
    }

    /// Evaluates the argument expressions from position `i` on.
    pub fn eval_args(&mut self, args: &Vec<Expr>, i: usize, fuel: u64) -> (r: Result<
        Vec<Value>,
        ErrorInfo,
    >)
        requires
            old(self).inv(),
        ensures
            final(self).inv(),
            old(self)@.env.frames.len() <= final(self)@.env.frames.len(),
            ({
                let (s2, rr) = spec_eval_args(old(self)@, args@, i as int, fuel as nat);
                &&& final(self)@ == s2
                &&& match r {
                    Ok(vs) => {
                        &&& rr == Ok::<Seq<ValueV>, ErrorInfo>(values_view(vs@))
                        &&& vs@.len() == (if i as int <= args@.len() {
                            args@.len() - i as int
                        } else {
                            0
                        })
                        &&& forall|m: int|
                            0 <= m < vs@.len() ==> value_wf(
                                #[trigger] values_view(vs@)[m],
                                final(self)@.env.frames.len() as int,
                            )
                    },
                    Err(er) => rr == Err::<Seq<ValueV>, ErrorInfo>(er),
                }
            }),
        decreases fuel,
    {
        if fuel == 0 {
            return Err(ErrorInfo { error: Error::OutOfFuel, span: Span::none() });
        }
        if i >= args.len() {
            let vs: Vec<Value> = Vec::new();
            proof {
                assert(values_view(vs@) =~= Seq::<ValueV>::empty());
            }
            return Ok(vs);
        }
        let fl = fuel - 1;
        let v = match self.eval_expr(&args[i], fl) {
            Ok(v) => v,
            Err(er) => return Err(er),
        };
        let mut rest = match self.eval_args(args, i + 1, fl) {
            Ok(vs) => vs,
            Err(er) => return Err(er),
        };
        let ghost old_rest = rest@;
        let ghost vv = v@;
        rest.insert(0, v);
        proof {
            assert(values_view(rest@) =~= seq![vv] + values_view(old_rest));
        }
        Ok(rest)
    }

    /// Executes one statement, as `sem::spec_exec_stmt` says.
    pub fn exec_stmt(&mut self, st: &Stmt, fuel: u64) -> (r: Outcome)
        requires
            old(self).inv(),
        ensures
            final(self).inv(),
            old(self)@.env.frames.len() <= final(self)@.env.frames.len(),
            ({
                let (s2, o) = spec_exec_stmt(old(self)@, *st, fuel as nat);
                final(self)@ == s2 && r@ == o
            }),
            outcome_wf(r@, final(self)@.env.frames.len() as int),
        decreases fuel,
    {
        if fuel == 0 {
            return Outcome::Failed(ErrorInfo { error: Error::OutOfFuel, span: Span::none() });
        }
        let fl = fuel - 1;
        match st {
            Stmt::Print(e) => {
                match self.eval_expr(e, fl) {
                    Ok(v) => {
                        let ghost old_out = self.output@;
                        let ghost vv = v@;
                        self.output.push(v);
                        proof {
                            lemma_values_view_push(old_out, self.output@[self.output@.len() - 1]);
                            assert(values_view(self.output@) =~= values_view(old_out).push(vv));
                        }
                        Outcome::Completed
                    },
                    Err(er) => Outcome::Failed(er),
                }
            },
            Stmt::Expr(e) => {
                match self.eval_expr(e, fl) {
                    Ok(_) => Outcome::Completed,
                    Err(er) => Outcome::Failed(er),
                }
            },
            Stmt::Let { name, init, is_const, span } => {
                let v = match init {
                    Some(e) => match self.eval_expr(e, fl) {
                        Ok(v) => v,
                        Err(er) => return Outcome::Failed(er),
                    },
                    None => Value::Nil,
                };
                match self.env.define(name, v, *is_const) {
                    Ok(_) => Outcome::Completed,
                    Err(be) => Outcome::Failed(
                        ErrorInfo { error: Error::Binding(be), span: *span },
                    ),
                }
            },
            Stmt::While { cond, body } => {
                match self.eval_expr(cond, fl) {
                    Err(er) => Outcome::Failed(er),
                    Ok(v) => {
                        if !v.truthy() {
                            Outcome::Completed
                        } else {
                            let o = self.exec_stmt(body, fl);
                            match o {
                                Outcome::Completed => self.exec_stmt(st, fl),
                                other => other,
                            }
                        }
                    },
                }
            },
            Stmt::Return { value, span } => {
                let v = match value {
                    Some(e) => match self.eval_expr(e, fl) {
                        Ok(v) => v,
                        Err(er) => return Outcome::Failed(er),
                    },
                    None => Value::Nil,
                };
                Outcome::Return(v, *span)
            },
            Stmt::Block(ss) => {
                let caller = self.env.cur_index();
                self.env.new_child(caller);
                let o = self.exec_stmts(ss, 0, fl);
                self.env.set_cur(caller);
                o
            },
            Stmt::If { cond, truthy, falsy } => {
                match self.eval_expr(cond, fl) {
                    Err(er) => Outcome::Failed(er),
                    Ok(v) => {
                        if v.truthy() {
                            self.exec_stmt(&**truthy, fl)
                        } else {
                            match falsy {
                                Some(fb) => self.exec_stmt(&**fb, fl),
                                None => Outcome::Completed,
                            }
                        }
                    },
                }
            },
            Stmt::Function { name, params, body, span } => {
                let cur = self.env.cur_index();
                let f = Function {
                    name: name.clone(),
                    span: *span,
                    params: Rc::clone(params),
                    body: Rc::clone(body),
                    closure: cur,
                    is_initializer: false,
                };
                match self.env.define(name, Value::Function(f), false) {
                    Ok(_) => Outcome::Completed,
                    Err(be) => Outcome::Failed(
                        ErrorInfo { error: Error::Binding(be), span: *span },
                    ),
                }
            },
            Stmt::Class { span, .. } => Outcome::Failed(
                ErrorInfo { error: Error::Unimplemented, span: *span },
            ),
            Stmt::Break(span) => Outcome::Failed(
                ErrorInfo { error: Error::Unimplemented, span: *span },
            ),
            Stmt::Continue(span) => Outcome::Failed(
                ErrorInfo { error: Error::Unimplemented, span: *span },
            ),
        }
    }

    /// Executes the statements of a block or body from position `i` on.
    pub fn exec_stmts(&mut self, ss: &Vec<Stmt>, i: usize, fuel: u64) -> (r: Outcome)
        requires
            old(self).inv(),
        ensures
            final(self).inv(),
            old(self)@.env.frames.len() <= final(self)@.env.frames.len(),
            ({
                let (s2, o) = spec_exec_stmts(old(self)@, ss@, i as int, fuel as nat);
                final(self)@ == s2 && r@ == o
            }),
            outcome_wf(r@, final(self)@.env.frames.len() as int),
        decreases fuel,
    {
        if fuel == 0 {
            return Outcome::Failed(ErrorInfo { error: Error::OutOfFuel, span: Span::none() });
        }
        if i >= ss.len() {
            return Outcome::Completed;
        }
        let fl = fuel - 1;
        let o = self.exec_stmt(&ss[i], fl);
        match o {
            Outcome::Completed => self.exec_stmts(ss, i + 1, fl),
            other => other,
        }
    }

    /// Executes a whole program from statement `i` on; each statement gets
    /// the full step budget.
    pub fn run_from(&mut self, prog: &Vec<Stmt>, i: usize, fuel: u64) -> (r: Result<
        (),
        ErrorInfo,
    >)
        requires
            old(self).inv(),
        ensures
            final(self).inv(),
            ({
                let (s2, rr) = spec_run(old(self)@, prog@, i as int, fuel as nat);
                final(self)@ == s2 && r == rr
            }),
        decreases prog@.len() - i,
    {
        if i >= prog.len() {
            return Ok(());
        }
        let o = self.exec_stmt(&prog[i], fuel);
        match o {
            Outcome::Completed => self.run_from(prog, i + 1, fuel),
            Outcome::Return(_, sp) => Err(
                ErrorInfo { error: Error::ReturnOutsideFunction, span: sp },
            ),
            Outcome::Failed(er) => Err(er),
        }
    }
}

/// Executes a program against a fresh global environment.  The driver that
/// wants the output formats the values of `r.0.output` itself; a `Return`
/// escaping all statements surfaces as `ReturnOutsideFunction`.
pub fn run_program(prog: &Vec<Stmt>, fuel: u64) -> (r: (Interpreter, Result<(), ErrorInfo>))
    ensures
        r.0.inv(),
        ({
            let (s2, rr) = spec_run(init_state(), prog@, 0, fuel as nat);
            r.0@ == s2 && r.1 == rr
        }),
{
    let mut interp = Interpreter::new();
    let rr = interp.run_from(prog, 0, fuel);
    (interp, rr)
}

} // verus!
