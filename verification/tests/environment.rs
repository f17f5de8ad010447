use meowth::expr::Expr;
use meowth::runtime_error::RuntimeError;
use meowth::state::{Binding, Frame, State};

fn name(x: &str) -> String {
    String::from(x)
}

#[test]
fn a_new_environment_has_one_empty_frame() {
    let state = State::new();
    assert_eq!(1, state.mem.len());
    assert!(state.mem[0].entries.is_empty());
    assert!(!state.contains(name("x")));
}

#[test]
fn a_binding_is_found_again() {
    let mut state = State::new();
    assert_eq!(Ok(()), state.alloc_var(name("x"), Expr::Int(1)));
    assert_eq!(Ok(()), state.alloc_const(name("y"), Expr::Bool(true)));
    assert_eq!(Ok(Expr::Int(1)), state.get(name("x")));
    assert_eq!(Ok(Expr::Bool(true)), state.get(name("y")));
    assert!(state.contains(name("x")));
    assert!(!state.contains(name("z")));
    assert_eq!(Err(RuntimeError::VariableNotFound(name("z"))), state.get(name("z")));
}

#[test]
fn declaring_a_name_again_overwrites_it() {
    let mut state = State::new();
    state.alloc_const(name("x"), Expr::Int(1)).unwrap();
    state.alloc_var(name("x"), Expr::Int(2)).unwrap();
    assert_eq!(Ok(Expr::Int(2)), state.get(name("x")));
    assert_eq!(1, state.mem[0].entries.len());
    assert_eq!(Ok(()), state.assign(name("x"), Expr::Int(3)));
    assert_eq!(Ok(Expr::Int(3)), state.get(name("x")));
}

#[test]
fn assignment_reaches_the_innermost_binding() {
    let mut state = State::new();
    state.alloc_var(name("x"), Expr::Int(1)).unwrap();
    state.alloc_var(name("y"), Expr::Int(10)).unwrap();
    state.begin_scope();
    state.alloc_var(name("x"), Expr::Int(2)).unwrap();
    assert_eq!(Ok(()), state.assign(name("x"), Expr::Int(3)));
    assert_eq!(Ok(()), state.assign(name("y"), Expr::Int(30)));
    assert_eq!(Ok(Expr::Int(3)), state.get(name("x")));
    state.end_scope();
    assert_eq!(Ok(Expr::Int(1)), state.get(name("x")));
    assert_eq!(Ok(Expr::Int(30)), state.get(name("y")));
}

#[test]
fn assignment_needs_a_mutable_binding() {
    let mut state = State::new();
    state.alloc_const(name("c"), Expr::Int(1)).unwrap();
    assert_eq!(
        Err(RuntimeError::InvalidConstAssignment(Expr::Int(2), name("c"))),
        state.assign(name("c"), Expr::Int(2))
    );
    assert_eq!(Ok(Expr::Int(1)), state.get(name("c")));
    assert_eq!(
        Err(RuntimeError::VariableNotFound(name("d"))),
        state.assign(name("d"), Expr::Int(2))
    );
    assert!(!state.contains(name("d")));
}

#[test]
fn an_inner_constant_shields_an_outer_variable() {
    let mut state = State::new();
    state.alloc_var(name("x"), Expr::Int(1)).unwrap();
    state.begin_scope();
    state.alloc_const(name("x"), Expr::Int(2)).unwrap();
    assert_eq!(
        Err(RuntimeError::InvalidConstAssignment(Expr::Int(3), name("x"))),
        state.assign(name("x"), Expr::Int(3))
    );
    state.end_scope();
    assert_eq!(Ok(()), state.assign(name("x"), Expr::Int(3)));
}

#[test]
fn scopes_push_and_pop_frames() {
    let mut state = State::new();
    state.begin_scope();
    state.begin_scope();
    assert_eq!(3, state.mem.len());
    state.alloc_var(name("inner"), Expr::Int(1)).unwrap();
    state.end_scope();
    assert_eq!(2, state.mem.len());
    assert!(!state.contains(name("inner")));
    state.end_scope();
    state.end_scope();
    assert!(state.mem.is_empty());
    state.end_scope();
    assert!(state.mem.is_empty());
}

#[test]
fn a_frame_keeps_the_last_binding_of_a_name() {
    let mut frame = Frame::new();
    assert!(!frame.contains(&name("a")));
    frame.insert(name("a"), Binding::Var(Expr::Int(1)));
    frame.insert(name("b"), Binding::Const(Expr::Int(2)));
    frame.insert(name("a"), Binding::Const(Expr::Int(3)));
    assert_eq!(2, frame.entries.len());
    assert!(frame.contains(&name("a")));
    match frame.get(&name("a")) {
        Some(Binding::Const(v)) => assert_eq!(&Expr::Int(3), v),
        other => panic!("{:?}", other),
    }
    assert!(frame.get(&name("c")).is_none());
}

#[test]
fn a_copy_of_an_environment_is_independent() {
    let mut state = State::new();
    state.alloc_var(name("x"), Expr::Int(1)).unwrap();
    let mut copy = state.clone();
    copy.assign(name("x"), Expr::Int(2)).unwrap();
    assert_eq!(Ok(Expr::Int(1)), state.get(name("x")));
    assert_eq!(Ok(Expr::Int(2)), copy.get(name("x")));
}
