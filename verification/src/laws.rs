use crate::ast::{Expr, Span, Stmt};
use crate::env::{
    assign_frames, env_assign, env_define, env_wf, lookup, push_frame, resolve, BindingV, EnvV,
    FrameV,
};
use crate::outcome::{BindingError, ErrorInfo, OutcomeV};
use crate::sem::{
    define_params, spec_call, spec_eval, spec_eval_args, spec_exec_stmt, spec_exec_stmts, StateV,
};
use crate::value::{names_view, spec_truthy, FunctionV, ValueV};
use std::rc::Rc;
use vstd::prelude::*;

verus! {

/// After `let n = v` succeeds, looking `n` up from the defining frame
/// yields exactly `v`, with the constness it was defined with.
pub proof fn law_define_then_get(e: EnvV, n: Seq<char>, v: ValueV, c: bool)
    requires
        env_wf(e),
        env_define(e, n, v, c).1 is None,
    ensures
        ({
            let e2 = env_define(e, n, v, c).0;
            lookup(e2.frames, e2.cur, n) == Some(BindingV { value: v, is_const: c })
        }),
{
    let e2 = env_define(e, n, v, c).0;
    assert(e2.frames[e2.cur].bindings.contains_key(n));
    assert(resolve(e2.frames, e2.cur, n) == Some(e2.cur));
}

/// A frame that does not itself bind `n` defers to its parent: the
/// binding `let n = v` put in an enclosing frame is visible from every
/// child frame that does not shadow it.
pub proof fn law_child_lookup(frames: Seq<FrameV>, j: int, p: int, n: Seq<char>)
    requires
        0 <= j < frames.len(),
        frames[j].parent == Some(p),
        0 <= p < j,
        !frames[j].bindings.contains_key(n),
    ensures
        lookup(frames, j, n) == lookup(frames, p, n),
{
}

/// Resolution from frame `i` only reads the frames up to `i`: two arenas
/// that agree there resolve alike.
pub proof fn lemma_resolve_prefix_agree(
    frames: Seq<FrameV>,
    frames2: Seq<FrameV>,
    i: int,
    n: Seq<char>,
)
    requires
        0 <= i < frames.len(),
        i < frames2.len(),
        forall|j: int| 0 <= j <= i ==> frames2[j] == frames[j],
    ensures
        resolve(frames2, i, n) == resolve(frames, i, n),
    decreases i,
{
    if !frames[i].bindings.contains_key(n) {
        match frames[i].parent {
            Some(p) => {
                if 0 <= p < i {
                    lemma_resolve_prefix_agree(frames, frames2, p, n);
                }
            },
            None => {},
        }
    }
}

/// A successful resolution names a frame of the chain at or below the
/// start, and that frame binds the name.
pub proof fn lemma_resolve_some_bounds(frames: Seq<FrameV>, i: int, n: Seq<char>)
    ensures
        resolve(frames, i, n) matches Some(j) ==> 0 <= j <= i && j < frames.len()
            && frames[j].bindings.contains_key(n),
    decreases i,
{
    if 0 <= i < frames.len() && !frames[i].bindings.contains_key(n) {
        match frames[i].parent {
            Some(p) => {
                if 0 <= p < i {
                    lemma_resolve_some_bounds(frames, p, n);
                }
            },
            None => {},
        }
    }
}

/// Shadowing: defining `n` in a fresh child frame makes the new value the
/// one visible from the child, while a lookup from the enclosing frame
/// still sees whatever it saw before.
pub proof fn law_shadowing(e: EnvV, n: Seq<char>, v: ValueV, c: bool)
    requires
        env_wf(e),
    ensures
        ({
            let e1 = push_frame(e, e.cur);
            let (e2, err) = env_define(e1, n, v, c);
            &&& err is None
            &&& lookup(e2.frames, e2.cur, n) == Some(BindingV { value: v, is_const: c })
            &&& lookup(e2.frames, e.cur, n) == lookup(e.frames, e.cur, n)
        }),
{
    let e1 = push_frame(e, e.cur);
    let (e2, err) = env_define(e1, n, v, c);
    assert(!e1.frames[e1.cur].bindings.contains_key(n));
    assert(e2.frames[e2.cur].bindings.contains_key(n));
    assert(resolve(e2.frames, e2.cur, n) == Some(e2.cur));
    lemma_resolve_prefix_agree(e.frames, e2.frames, e.cur, n);
    lemma_resolve_some_bounds(e.frames, e.cur, n);
    match resolve(e.frames, e.cur, n) {
        Some(j) => {
            assert(e2.frames[j] == e.frames[j]);
        },
        None => {},
    }
}

/// Two arenas of the same length whose frames agree about the name `n`
/// (same parents, same presence and binding of `n`) resolve and look `n`
/// up alike, from any frame.
pub proof fn lemma_lookup_same_on_key(
    frames: Seq<FrameV>,
    frames2: Seq<FrameV>,
    i: int,
    n: Seq<char>,
)
    requires
        frames.len() == frames2.len(),
        forall|j: int| 0 <= j < frames.len() ==> frames2[j].parent == frames[j].parent,
        forall|j: int|
            0 <= j < frames.len() ==> (#[trigger] frames2[j].bindings.contains_key(n))
                == frames[j].bindings.contains_key(n),
        forall|j: int|
            0 <= j < frames.len() && #[trigger] frames[j].bindings.contains_key(n)
                ==> frames2[j].bindings[n] == frames[j].bindings[n],
    ensures
        resolve(frames2, i, n) == resolve(frames, i, n),
        lookup(frames2, i, n) == lookup(frames, i, n),
    decreases i,
{
    lemma_resolve_some_bounds(frames, i, n);
    if 0 <= i < frames.len() && !frames[i].bindings.contains_key(n) {
        match frames[i].parent {
            Some(p) => {
                if 0 <= p < i {
                    lemma_lookup_same_on_key(frames, frames2, p, n);
                }
            },
            None => {},
        }
    }
}

/// A binding, once made, stays visible until it is itself overwritten:
/// defining a different name leaves every lookup of `n` unchanged.
pub proof fn law_lookup_stable_under_other_define(
    e: EnvV,
    m: Seq<char>,
    n: Seq<char>,
    v: ValueV,
    c: bool,
    i: int,
)
    requires
        env_wf(e),
        n != m,
    ensures
        lookup(env_define(e, m, v, c).0.frames, i, n) == lookup(e.frames, i, n),
{
    let e2 = env_define(e, m, v, c).0;
    if env_define(e, m, v, c).1 is None {
        lemma_lookup_same_on_key(e.frames, e2.frames, i, n);
    }
}

/// Assigning to a different name leaves every lookup of `n` unchanged.
pub proof fn law_lookup_stable_under_other_assign(
    e: EnvV,
    m: Seq<char>,
    n: Seq<char>,
    v: ValueV,
    i: int,
)
    requires
        env_wf(e),
        n != m,
    ensures
        lookup(env_assign(e, m, v).0.frames, i, n) == lookup(e.frames, i, n),
{
    lemma_assign_follows_resolve(e.frames, e.cur, m, v);
    lemma_resolve_some_bounds(e.frames, e.cur, m);
    let fs2 = env_assign(e, m, v).0.frames;
    match resolve(e.frames, e.cur, m) {
        Some(j) => {
            if !e.frames[j].bindings[m].is_const {
                lemma_lookup_same_on_key(e.frames, fs2, i, n);
            }
        },
        None => {},
    }
}

/// Assignment walks the same chain as lookup: it fails with `Undefined`
/// where resolution fails, fails with `ConstReassignment` where the
/// resolved binding is const, and otherwise overwrites exactly the
/// resolved frame.
pub proof fn lemma_assign_follows_resolve(frames: Seq<FrameV>, i: int, n: Seq<char>, v: ValueV)
    ensures
        ({
            match resolve(frames, i, n) {
                None => assign_frames(frames, i, n, v) == (
                    frames,
                    Some(BindingError::Undefined),
                ),
                Some(j) => if frames[j].bindings[n].is_const {
                    assign_frames(frames, i, n, v) == (
                        frames,
                        Some(BindingError::ConstReassignment),
                    )
                } else {
                    assign_frames(frames, i, n, v) == (
                        frames.update(
                            j,
                            FrameV {
                                bindings: frames[j].bindings.insert(
                                    n,
                                    BindingV { value: v, is_const: false },
                                ),
                                parent: frames[j].parent,
                            },
                        ),
                        None::<BindingError>,
                    )
                },
            }
        }),
    decreases i,
{
    if i < 0 || i >= frames.len() {
    } else if frames[i].bindings.contains_key(n) {
    } else {
        match frames[i].parent {
            Some(p) => {
                if 0 <= p < i {
                    lemma_assign_follows_resolve(frames, p, n, v);
                }
            },
            None => {},
        }
    }
}

/// Assigning to a name whose nearest enclosing binding is const always
/// fails with `ConstReassignment` and leaves the environment unchanged,
/// whatever the scope depth between the assignment site and the
/// declaration.
pub proof fn law_const_assign_fails(e: EnvV, n: Seq<char>, v: ValueV)
    requires
        env_wf(e),
        lookup(e.frames, e.cur, n) matches Some(b) && b.is_const,
    ensures
        env_assign(e, n, v) == (e, Some(BindingError::ConstReassignment)),
{
    lemma_assign_follows_resolve(e.frames, e.cur, n, v);
    assert(e == (EnvV { frames: e.frames, cur: e.cur }));
}

/// A `while` loop whose condition evaluates to a non-truthy value
/// executes its body zero times and completes normally: the only effect
/// is the condition evaluation's own.
pub proof fn law_while_false(s: StateV, cond: Expr, body: Box<Stmt>, fuel: nat)
    requires
        fuel > 0,
        ({
            let (s1, r) = spec_eval(s, cond, (fuel - 1) as nat);
            r matches Ok(v) && !spec_truthy(v)
        }),
    ensures
        ({
            let (s1, r) = spec_eval(s, cond, (fuel - 1) as nat);
            spec_exec_stmt(s, Stmt::While { cond, body }, fuel) == (s1, OutcomeV::Completed)
        }),
{
}

/// `return e;` evaluates `e` and raises a `Return` signal carrying
/// exactly that value and the statement's span.
pub proof fn law_return_raises(s: StateV, e: Expr, span: Span, v: ValueV, s1: StateV, fuel: nat)
    requires
        fuel > 0,
        spec_eval(s, e, (fuel - 1) as nat) == (s1, Ok::<ValueV, ErrorInfo>(v)),
    ensures
        spec_exec_stmt(s, Stmt::Return { value: Some(e), span }, fuel) == (
            s1,
            OutcomeV::Return(v, span),
        ),
{
}

/// A statement of a block that raises a signal or fails stops the block:
/// no statement after it is executed, and its outcome propagates upward
/// unchanged.
pub proof fn law_block_stops_at_signal(s: StateV, ss: Seq<Stmt>, i: int, fuel: nat)
    requires
        fuel > 0,
        0 <= i < ss.len(),
        !(spec_exec_stmt(s, ss[i], (fuel - 1) as nat).1 is Completed),
    ensures
        spec_exec_stmts(s, ss, i, fuel) == spec_exec_stmt(s, ss[i], (fuel - 1) as nat),
{
}

/// A `Return` raised in a loop body aborts the loop immediately and
/// propagates unchanged: the condition is not re-evaluated and no further
/// iteration runs.
pub proof fn law_while_propagates_return(s: StateV, cond: Expr, body: Box<Stmt>, fuel: nat)
    requires
        fuel > 0,
        spec_eval(s, cond, (fuel - 1) as nat).1 matches Ok(v) && spec_truthy(v),
        spec_exec_stmt(
            spec_eval(s, cond, (fuel - 1) as nat).0,
            *body,
            (fuel - 1) as nat,
        ).1 matches OutcomeV::Return(rv, rsp),
    ensures
        spec_exec_stmt(s, Stmt::While { cond, body }, fuel) == spec_exec_stmt(
            spec_eval(s, cond, (fuel - 1) as nat).0,
            *body,
            (fuel - 1) as nat,
        ),
{
}

/// The function-call boundary consumes a `Return`: however deep inside
/// the body's blocks and loops the signal was raised, if the body's
/// execution ends with `Return(v)` then the call's value is exactly `v`,
/// and the caller's current frame is restored.
pub proof fn law_call_receives_return(
    s: StateV,
    f: FunctionV,
    args: Seq<Expr>,
    vals: Seq<ValueV>,
    s2: StateV,
    span: Span,
    rv: ValueV,
    rsp: Span,
    s3: StateV,
    fuel: nat,
)
    requires
        fuel > 0,
        args.len() == f.params.len(),
        spec_eval_args(s, args, 0, (fuel - 1) as nat) == (s2, Ok::<Seq<ValueV>, ErrorInfo>(vals)),
        spec_exec_stmts(
            StateV {
                env: define_params(push_frame(s2.env, f.env), f.params, vals, 0),
                output: s2.output,
            },
            f.body,
            0,
            (fuel - 1) as nat,
        ) == (s3, OutcomeV::Return(rv, rsp)),
    ensures
        spec_call(s, ValueV::Func(f), args, span, fuel) == (
            StateV { env: EnvV { frames: s3.env.frames, cur: s2.env.cur }, output: s3.output },
            Ok::<ValueV, ErrorInfo>(rv),
        ),
{
}

/// A function declaration captures the environment current at the point
/// of definition: the value it binds is a closure whose environment is
/// the declaring frame — not the frame of any later caller — and calling
/// it runs the body in a fresh child of that captured frame.
pub proof fn law_function_captures_definition_env(
    s: StateV,
    name: String,
    params: Rc<Vec<String>>,
    body: Rc<Vec<Stmt>>,
    span: Span,
    fuel: nat,
)
    requires
        fuel > 0,
        !(s.env.frames[s.env.cur].bindings.contains_key(name@)
            && s.env.frames[s.env.cur].bindings[name@].is_const),
    ensures
        ({
            let f = FunctionV {
                name: name@,
                span,
                params: names_view(params@),
                body: body@,
                env: s.env.cur,
                is_initializer: false,
            };
            &&& spec_exec_stmt(s, Stmt::Function { name, params, body, span }, fuel) == (
                StateV {
                    env: env_define(s.env, name@, ValueV::Func(f), false).0,
                    output: s.output,
                },
                OutcomeV::Completed,
            )
            &&& f.env == s.env.cur
        }),
{
}

} // verus!
