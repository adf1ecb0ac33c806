use treewalk::env::Environment;
use treewalk::outcome::BindingError;
use treewalk::value::Value;

fn name(s: &str) -> String {
    String::from(s)
}

#[test]
fn define_then_get_returns_value() {
    let mut env = Environment::new();
    env.define(&name("x"), Value::Num(41), false).unwrap();
    match env.get(&name("x")) {
        Ok(Value::Num(41)) => {},
        _ => panic!("expected 41"),
    }
}

#[test]
fn get_undefined_fails() {
    let env = Environment::new();
    match env.get(&name("missing")) {
        Err(BindingError::Undefined) => {},
        _ => panic!("expected Undefined"),
    }
}

#[test]
fn assign_undefined_fails() {
    let mut env = Environment::new();
    match env.assign(&name("missing"), Value::Num(1)) {
        Err(BindingError::Undefined) => {},
        _ => panic!("expected Undefined"),
    }
}

#[test]
fn assign_overwrites_nearest_binding() {
    let mut env = Environment::new();
    env.define(&name("x"), Value::Num(1), false).unwrap();
    env.assign(&name("x"), Value::Num(2)).unwrap();
    match env.get(&name("x")) {
        Ok(Value::Num(2)) => {},
        _ => panic!("expected 2"),
    }
}

#[test]
fn assign_to_const_fails() {
    let mut env = Environment::new();
    env.define(&name("c"), Value::Num(1), true).unwrap();
    match env.assign(&name("c"), Value::Num(2)) {
        Err(BindingError::ConstReassignment) => {},
        _ => panic!("expected ConstReassignment"),
    }
    match env.get(&name("c")) {
        Ok(Value::Num(1)) => {},
        _ => panic!("const value must be unchanged"),
    }
}

#[test]
fn assign_to_const_fails_from_nested_scope() {
    let mut env = Environment::new();
    env.define(&name("c"), Value::Num(1), true).unwrap();
    let global = env.cur_index();
    env.new_child(global);
    let inner = env.cur_index();
    env.new_child(inner);
    match env.assign(&name("c"), Value::Num(2)) {
        Err(BindingError::ConstReassignment) => {},
        _ => panic!("expected ConstReassignment across scope depth"),
    }
}

#[test]
fn redefine_over_const_in_same_frame_fails() {
    let mut env = Environment::new();
    env.define(&name("c"), Value::Num(1), true).unwrap();
    match env.define(&name("c"), Value::Num(2), false) {
        Err(BindingError::ConstReassignment) => {},
        _ => panic!("expected ConstReassignment"),
    }
}

#[test]
fn redefine_over_mutable_in_same_frame_overwrites() {
    let mut env = Environment::new();
    env.define(&name("x"), Value::Num(1), false).unwrap();
    env.define(&name("x"), Value::Num(2), false).unwrap();
    match env.get(&name("x")) {
        Ok(Value::Num(2)) => {},
        _ => panic!("expected 2"),
    }
}

#[test]
fn child_frame_sees_enclosing_binding() {
    let mut env = Environment::new();
    env.define(&name("x"), Value::Num(7), false).unwrap();
    let global = env.cur_index();
    env.new_child(global);
    match env.get(&name("x")) {
        Ok(Value::Num(7)) => {},
        _ => panic!("expected 7 from child frame"),
    }
}

#[test]
fn shadowing_in_child_frame_restores_on_exit() {
    let mut env = Environment::new();
    env.define(&name("x"), Value::Num(1), false).unwrap();
    let global = env.cur_index();
    env.new_child(global);
    env.define(&name("x"), Value::Num(2), false).unwrap();
    match env.get(&name("x")) {
        Ok(Value::Num(2)) => {},
        _ => panic!("expected the shadowing 2"),
    }
    env.set_cur(global);
    match env.get(&name("x")) {
        Ok(Value::Num(1)) => {},
        _ => panic!("expected the outer 1"),
    }
}
