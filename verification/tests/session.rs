use meowth::expr::Expr;
use meowth::interpreter::Interpreter;
use meowth::repl::Repl;
use meowth::runtime_error::RuntimeError;

#[test]
fn a_session_keeps_its_declarations() {
    let mut interpreter = Interpreter::new();
    assert_eq!(Ok(Expr::Undefined), interpreter.eval("var count = 1;"));
    assert_eq!(Ok(Expr::Int(2)), interpreter.eval("count = count + 1"));
    assert_eq!(Ok(Expr::Undefined), interpreter.eval("fn next() { count = count + 1 };"));
    assert_eq!(Ok(Expr::Int(3)), interpreter.eval("next()"));
    assert_eq!(Ok(Expr::Int(3)), interpreter.eval("count"));
    assert_eq!(1, interpreter.state.mem.len());
}

#[test]
fn sessions_do_not_share_an_environment() {
    let mut first = Interpreter::new();
    let mut second = Interpreter::new();
    first.eval("var x = 1;").unwrap();
    assert_eq!(Err(RuntimeError::VariableNotFound(String::from("x"))), second.eval("x"));
}

#[test]
fn a_call_leaves_no_frame_behind() {
    let mut interpreter = Interpreter::new();
    let text = "fn depth(n) { n == 0 ? 0 : 1 + depth(n - 1) }; depth(6)";
    assert_eq!(Ok(Expr::Int(6)), interpreter.eval(text));
    assert_eq!(1, interpreter.state.mem.len());
    assert_eq!(Err(RuntimeError::VariableNotFound(String::from("n"))), interpreter.eval("n"));
}

#[test]
fn a_failure_inside_a_call_leaves_the_frame_of_the_call() {
    let mut interpreter = Interpreter::new();
    assert_eq!(
        Err(RuntimeError::VariableNotFound(String::from("y"))),
        interpreter.eval("fn f(a) { y }; f(1)")
    );
    assert_eq!(2, interpreter.state.mem.len());
    assert_eq!(Ok(Expr::Int(1)), interpreter.eval("a"));
}

#[test]
fn parameters_can_be_assigned_inside_the_body() {
    let text = "var x = 1; fn bump(x) { x = x + 10; x }; bump(x) + x";
    assert_eq!(Ok(Expr::Int(12)), Interpreter::new().eval(text));
}

#[test]
fn surplus_arguments_are_dropped_and_surplus_parameters_unbound() {
    assert_eq!(Ok(Expr::Int(1)), Interpreter::new().eval("fn f(a) { a }; f(1, 2)"));
    assert_eq!(
        Err(RuntimeError::VariableNotFound(String::from("b"))),
        Interpreter::new().eval("fn f(a, b) { a + b }; f(1)")
    );
}

#[test]
fn the_name_of_a_function_wins_over_a_parameter_of_that_name() {
    let shown = Interpreter::new().eval("fn f(f) { f }; f(7)").unwrap();
    assert!(shown.is_func());
}

#[test]
fn printing_collects_lines_in_order() {
    let mut interpreter = Interpreter::new();
    assert_eq!(
        Ok(Expr::Undefined),
        interpreter.eval("var n = -12; print n; print true; print 1 == 2; speak(n)")
    );
    assert_eq!(vec!["-12", "win", "lose", "n"], interpreter.output);
    assert_eq!(Ok(Expr::Undefined), interpreter.eval("print fn() { 1 }"));
    assert_eq!("cannot print this thing", interpreter.output[4]);
}

#[test]
fn printing_the_name_of_an_unbound_variable_fails() {
    let mut interpreter = Interpreter::new();
    assert_eq!(
        Err(RuntimeError::VariableNotFound(String::from("ghost"))),
        interpreter.eval("speak(ghost)")
    );
    assert!(interpreter.output.is_empty());
}

#[test]
fn the_exit_line_ends_a_session() {
    let mut repl = Repl::new();
    assert_eq!(Some(Ok(Expr::Undefined)), repl.eval("var x = 41;\n"));
    assert_eq!(Some(Ok(Expr::Int(42))), repl.eval("x + 1\n"));
    assert_eq!(None, repl.eval("exit\n"));
    assert_eq!(
        Some(Err(RuntimeError::VariableNotFound(String::from("exit")))),
        repl.eval("exit")
    );
    assert_eq!(Some(Ok(Expr::Int(41))), repl.eval("x"));
}

#[test]
fn an_empty_text_is_the_undefined_value() {
    assert_eq!(Ok(Expr::Undefined), Interpreter::new().eval(""));
    assert_eq!(Ok(Expr::Undefined), Interpreter::new().eval("  \n"));
    assert_eq!(Ok(Expr::Undefined), Interpreter::new().eval("// nothing"));
}

#[test]
fn conditionals_in_words_choose_a_branch() {
    assert_eq!(Ok(Expr::Int(1)), Interpreter::new().eval("if (true) { 1 } else { 2 }"));
    assert_eq!(Ok(Expr::Int(2)), Interpreter::new().eval("if (false) { 1 } else { 2 }"));
    assert_eq!(
        Ok(Expr::Int(2)),
        Interpreter::new().eval("if (lose) { 1 } rebattle (win) { 2 } run { 3 }")
    );
    assert_eq!(Ok(Expr::Undefined), Interpreter::new().eval("if (false) { 1 }"));
}

#[test]
fn assignment_yields_the_assigned_value() {
    assert_eq!(Ok(Expr::Int(6)), Interpreter::new().eval("var x = 0; var y = 0; x = (y = 3); x + y"));
    assert_eq!(Ok(Expr::Int(3)), Interpreter::new().eval("var x = 0; x = 3"));
}

#[test]
fn values_are_told_from_other_trees() {
    assert!(Expr::Int(1).is_value() && Expr::Int(1).is_int());
    assert!(Expr::Bool(false).is_value() && Expr::Bool(false).is_bool());
    assert!(Expr::Undefined.is_value());
    let f = Expr::Func(None, Box::new(Expr::Var(String::from("x"))), vec![]);
    assert!(f.is_value() && f.is_func());
    let x = Expr::Var(String::from("x"));
    assert!(x.is_var() && !x.is_value() && !x.is_int() && !x.is_bool() && !x.is_func());
    assert!(!Expr::Scope(Box::new(Expr::Int(1))).is_value());
    assert!(!Expr::Print(Box::new(Expr::Int(1))).is_value());
}
