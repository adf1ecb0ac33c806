use std::rc::Rc;
use treewalk::ast::{Expr, Lit, Span, Stmt};
use treewalk::interp::run_program;
use treewalk::outcome::{BindingError, Error};
use treewalk::value::Value;

const FUEL: u64 = 1000000;

fn sp(n: u64) -> Span {
    Span { lo: n, hi: n + 1 }
}

fn num(n: i64) -> Expr {
    Expr::Lit(Lit::Num(n))
}

fn nil() -> Expr {
    Expr::Lit(Lit::Nil)
}

fn var(s: &str) -> Expr {
    Expr::Var(String::from(s), sp(0))
}

fn assign(s: &str, e: Expr) -> Expr {
    Expr::Assign(String::from(s), Box::new(e), sp(0))
}

fn add(a: Expr, b: Expr) -> Expr {
    Expr::Add(Box::new(a), Box::new(b), sp(0))
}

fn call(callee: Expr, args: Vec<Expr>) -> Expr {
    Expr::Call(Box::new(callee), args, sp(0))
}

fn print(e: Expr) -> Stmt {
    Stmt::Print(e)
}

fn slet(name: &str, e: Expr) -> Stmt {
    Stmt::Let { name: String::from(name), init: Some(e), is_const: false, span: sp(0) }
}

fn sconst(name: &str, e: Expr) -> Stmt {
    Stmt::Let { name: String::from(name), init: Some(e), is_const: true, span: sp(0) }
}

fn func(name: &str, params: Vec<&str>, body: Vec<Stmt>) -> Stmt {
    Stmt::Function {
        name: String::from(name),
        params: Rc::new(params.into_iter().map(String::from).collect()),
        body: Rc::new(body),
        span: sp(0),
    }
}

fn expect_nums(output: &Vec<Value>, expected: &[i64]) {
    assert_eq!(output.len(), expected.len());
    for (v, e) in output.iter().zip(expected.iter()) {
        match v {
            Value::Num(n) => assert_eq!(n, e),
            _ => panic!("expected a number in the output"),
        }
    }
}

#[test]
fn shadowing_prints_inner_then_outer() {
    // let x = 1; { let x = 2; print x; } print x;
    let prog = vec![
        slet("x", num(1)),
        Stmt::Block(vec![slet("x", num(2)), print(var("x"))]),
        print(var("x")),
    ];
    let (it, r) = run_program(&prog, FUEL);
    assert!(r.is_ok());
    expect_nums(&it.output, &[2, 1]);
}

#[test]
fn while_with_falsy_condition_runs_zero_times() {
    // let x = 0; while x { x }
    let prog = vec![
        slet("x", num(0)),
        Stmt::While { cond: var("x"), body: Box::new(Stmt::Expr(var("x"))) },
    ];
    let (it, r) = run_program(&prog, FUEL);
    assert!(r.is_ok());
    assert_eq!(it.output.len(), 0);
}

#[test]
fn function_return_value_reaches_print() {
    // fn add(a, b) { return a + b; } print add(2, 3);
    let prog = vec![
        func(
            "add",
            vec!["a", "b"],
            vec![Stmt::Return { value: Some(add(var("a"), var("b"))), span: sp(1) }],
        ),
        print(call(var("add"), vec![num(2), num(3)])),
    ];
    let (it, r) = run_program(&prog, FUEL);
    assert!(r.is_ok());
    expect_nums(&it.output, &[5]);
}

#[test]
fn return_unwinds_nested_blocks_and_loops() {
    // fn f() { while 1 { { return 7; print 99; } print 98; } print 97; }
    // print f();
    let inner_block = Stmt::Block(vec![
        Stmt::Return { value: Some(num(7)), span: sp(2) },
        print(num(99)),
    ]);
    let loop_body = Stmt::Block(vec![inner_block, print(num(98))]);
    let prog = vec![
        func(
            "f",
            vec![],
            vec![
                Stmt::While { cond: num(1), body: Box::new(loop_body) },
                print(num(97)),
            ],
        ),
        print(call(var("f"), vec![])),
    ];
    let (it, r) = run_program(&prog, FUEL);
    assert!(r.is_ok());
    expect_nums(&it.output, &[7]);
}

#[test]
fn closure_captures_definition_environment() {
    // let g = nil;
    // { let x = 42; fn f() { print x; } g = f; }
    // g();
    let prog = vec![
        Stmt::Let { name: String::from("g"), init: None, is_const: false, span: sp(0) },
        Stmt::Block(vec![
            slet("x", num(42)),
            func("f", vec![], vec![print(var("x"))]),
            Stmt::Expr(assign("g", var("f"))),
        ]),
        Stmt::Expr(call(var("g"), vec![])),
    ];
    let (it, r) = run_program(&prog, FUEL);
    assert!(r.is_ok());
    expect_nums(&it.output, &[42]);
}

#[test]
fn while_countdown_prints_each_value() {
    // let i = 3; while i { print i; i = i + (-1); }
    let prog = vec![
        slet("i", num(3)),
        Stmt::While {
            cond: var("i"),
            body: Box::new(Stmt::Block(vec![
                print(var("i")),
                Stmt::Expr(assign("i", add(var("i"), num(-1)))),
            ])),
        },
    ];
    let (it, r) = run_program(&prog, FUEL);
    assert!(r.is_ok());
    expect_nums(&it.output, &[3, 2, 1]);
}

#[test]
fn assign_to_const_reports_const_reassignment() {
    // const c = 1; c = 2;
    let prog = vec![sconst("c", num(1)), Stmt::Expr(assign("c", num(2)))];
    let (it, r) = run_program(&prog, FUEL);
    let e = r.unwrap_err();
    assert_eq!(e.error, Error::Binding(BindingError::ConstReassignment));
    assert_eq!(it.output.len(), 0);
}

#[test]
fn assign_to_const_fails_from_inner_scope() {
    // const c = 1; { { c = 2; } }
    let prog = vec![
        sconst("c", num(1)),
        Stmt::Block(vec![Stmt::Block(vec![Stmt::Expr(assign("c", num(2)))])]),
    ];
    let (_, r) = run_program(&prog, FUEL);
    assert_eq!(r.unwrap_err().error, Error::Binding(BindingError::ConstReassignment));
}

#[test]
fn let_over_const_in_same_frame_fails() {
    // const c = 1; let c = 2;
    let prog = vec![sconst("c", num(1)), slet("c", num(2))];
    let (_, r) = run_program(&prog, FUEL);
    assert_eq!(r.unwrap_err().error, Error::Binding(BindingError::ConstReassignment));
}

#[test]
fn let_redefinition_over_mutable_shadows_in_place() {
    // let x = 1; let x = 2; print x;
    let prog = vec![slet("x", num(1)), slet("x", num(2)), print(var("x"))];
    let (it, r) = run_program(&prog, FUEL);
    assert!(r.is_ok());
    expect_nums(&it.output, &[2]);
}

#[test]
fn let_without_initializer_binds_nil() {
    // let x; print x;
    let prog = vec![
        Stmt::Let { name: String::from("x"), init: None, is_const: false, span: sp(0) },
        print(var("x")),
    ];
    let (it, r) = run_program(&prog, FUEL);
    assert!(r.is_ok());
    assert_eq!(it.output.len(), 1);
    assert!(matches!(it.output[0], Value::Nil));
}

#[test]
fn undefined_variable_reports_undefined() {
    let prog = vec![print(var("missing"))];
    let (it, r) = run_program(&prog, FUEL);
    assert_eq!(r.unwrap_err().error, Error::Binding(BindingError::Undefined));
    assert_eq!(it.output.len(), 0);
}

#[test]
fn if_takes_else_branch_on_falsy() {
    // if 0 { print 1 } else { print 2 }
    let prog = vec![Stmt::If {
        cond: num(0),
        truthy: Box::new(print(num(1))),
        falsy: Some(Box::new(print(num(2)))),
    }];
    let (it, r) = run_program(&prog, FUEL);
    assert!(r.is_ok());
    expect_nums(&it.output, &[2]);
}

#[test]
fn if_without_else_on_falsy_is_a_no_op() {
    let prog = vec![Stmt::If { cond: nil(), truthy: Box::new(print(num(1))), falsy: None }];
    let (it, r) = run_program(&prog, FUEL);
    assert!(r.is_ok());
    assert_eq!(it.output.len(), 0);
}

#[test]
fn string_is_truthy() {
    let prog = vec![Stmt::If {
        cond: Expr::Lit(Lit::Str(String::from("s"))),
        truthy: Box::new(print(num(1))),
        falsy: None,
    }];
    let (it, r) = run_program(&prog, FUEL);
    assert!(r.is_ok());
    expect_nums(&it.output, &[1]);
}

#[test]
fn print_string_outputs_it() {
    let prog = vec![print(Expr::Lit(Lit::Str(String::from("hi"))))];
    let (it, r) = run_program(&prog, FUEL);
    assert!(r.is_ok());
    assert_eq!(it.output.len(), 1);
    match &it.output[0] {
        Value::Str(s) => assert_eq!(s, "hi"),
        _ => panic!("expected a string"),
    }
}

#[test]
fn addition_wraps_on_overflow() {
    let prog = vec![print(add(num(i64::MAX), num(1)))];
    let (it, r) = run_program(&prog, FUEL);
    assert!(r.is_ok());
    expect_nums(&it.output, &[i64::MIN]);
}

#[test]
fn adding_non_numbers_is_a_type_mismatch() {
    let prog = vec![Stmt::Expr(add(num(1), nil()))];
    let (_, r) = run_program(&prog, FUEL);
    assert_eq!(r.unwrap_err().error, Error::TypeMismatch);
}

#[test]
fn calling_a_non_function_fails() {
    let prog = vec![slet("x", num(1)), Stmt::Expr(call(var("x"), vec![]))];
    let (_, r) = run_program(&prog, FUEL);
    assert_eq!(r.unwrap_err().error, Error::NotCallable);
}

#[test]
fn call_with_wrong_arity_fails() {
    let prog = vec![func("f", vec!["a"], vec![]), Stmt::Expr(call(var("f"), vec![]))];
    let (_, r) = run_program(&prog, FUEL);
    assert_eq!(r.unwrap_err().error, Error::Arity);
}

#[test]
fn function_without_return_yields_nil() {
    let prog = vec![func("f", vec![], vec![]), print(call(var("f"), vec![]))];
    let (it, r) = run_program(&prog, FUEL);
    assert!(r.is_ok());
    assert_eq!(it.output.len(), 1);
    assert!(matches!(it.output[0], Value::Nil));
}

#[test]
fn bare_return_yields_nil() {
    let prog = vec![
        func("f", vec![], vec![Stmt::Return { value: None, span: sp(3) }]),
        print(call(var("f"), vec![])),
    ];
    let (it, r) = run_program(&prog, FUEL);
    assert!(r.is_ok());
    assert_eq!(it.output.len(), 1);
    assert!(matches!(it.output[0], Value::Nil));
}

#[test]
fn assignment_expression_yields_the_assigned_value() {
    // let x = 1; print x = 5; print x;
    let prog = vec![slet("x", num(1)), print(assign("x", num(5))), print(var("x"))];
    let (it, r) = run_program(&prog, FUEL);
    assert!(r.is_ok());
    expect_nums(&it.output, &[5, 5]);
}

#[test]
fn top_level_return_is_reported() {
    let prog = vec![Stmt::Return { value: Some(num(5)), span: sp(9) }];
    let (_, r) = run_program(&prog, FUEL);
    let e = r.unwrap_err();
    assert_eq!(e.error, Error::ReturnOutsideFunction);
    assert_eq!(e.span, sp(9));
}

#[test]
fn class_statement_is_loudly_unimplemented() {
    let prog = vec![Stmt::Class {
        name: String::from("C"),
        superclass: None,
        methods: vec![],
        span: sp(4),
    }];
    let (_, r) = run_program(&prog, FUEL);
    assert_eq!(r.unwrap_err().error, Error::Unimplemented);
}

#[test]
fn break_statement_is_loudly_unimplemented() {
    let prog = vec![Stmt::Break(sp(5))];
    let (_, r) = run_program(&prog, FUEL);
    assert_eq!(r.unwrap_err().error, Error::Unimplemented);
}

#[test]
fn continue_statement_is_loudly_unimplemented() {
    let prog = vec![Stmt::Continue(sp(6))];
    let (_, r) = run_program(&prog, FUEL);
    assert_eq!(r.unwrap_err().error, Error::Unimplemented);
}

#[test]
fn infinite_loop_exhausts_the_step_budget() {
    // while 1 { {} }
    let prog = vec![Stmt::While { cond: num(1), body: Box::new(Stmt::Block(vec![])) }];
    let (_, r) = run_program(&prog, 500);
    assert_eq!(r.unwrap_err().error, Error::OutOfFuel);
}

#[test]
fn error_in_block_stops_later_statements() {
    // { print missing; print 1; } — nothing is printed
    let prog = vec![Stmt::Block(vec![print(var("missing")), print(num(1))])];
    let (it, r) = run_program(&prog, FUEL);
    assert_eq!(r.unwrap_err().error, Error::Binding(BindingError::Undefined));
    assert_eq!(it.output.len(), 0);
}

#[test]
fn recursive_calls_see_their_own_frames() {
    // fn f(n) { if n { print n; f(n + (-1)); } } f(3);
    let prog = vec![
        func(
            "f",
            vec!["n"],
            vec![Stmt::If {
                cond: var("n"),
                truthy: Box::new(Stmt::Block(vec![
                    print(var("n")),
                    Stmt::Expr(call(var("f"), vec![add(var("n"), num(-1))])),
                ])),
                falsy: None,
            }],
        ),
        Stmt::Expr(call(var("f"), vec![num(3)])),
    ];
    let (it, r) = run_program(&prog, FUEL);
    assert!(r.is_ok());
    expect_nums(&it.output, &[3, 2, 1]);
}
