use meowth::expr::{BinOp, Expr};
use meowth::interpreter::Interpreter;
use meowth::runtime_error::RuntimeError;

fn lines(interpreter: &Interpreter) -> Vec<&str> {
    interpreter.output.iter().map(|line| line.as_str()).collect()
}

#[test]
fn equal_sessions_evaluate_alike() {
    let mut first = Interpreter::new();
    first.eval("var total = 4; fn twice(n) { n * 2 };").unwrap();
    let mut second = first.clone();
    let text = "total = twice(total) + 1; print total; total";
    let a = first.eval(text);
    let b = second.eval(text);
    assert_eq!(a, b);
    assert_eq!(Ok(Expr::Int(9)), a);
    assert_eq!(first.output, second.output);
    assert_eq!(format!("{:?}", first.state), format!("{:?}", second.state));
}

#[test]
fn repeated_evaluation_of_one_text_agrees() {
    for text in ["fn f(n) { n < 3 ? n : f(n - 1) + f(n - 2) }; f(10)", "1 +", "x", "(1"] {
        let a = Interpreter::new().eval(text);
        let b = Interpreter::new().eval(text);
        assert_eq!(a, b);
    }
}

#[test]
fn left_of_a_sequence_runs_before_the_right() {
    let mut interpreter = Interpreter::new();
    assert_eq!(Ok(Expr::Undefined), interpreter.eval("(print 1); (print 2)"));
    assert_eq!(vec!["1", "2"], lines(&interpreter));
}

#[test]
fn calls_in_sequence_print_in_order() {
    let mut interpreter = Interpreter::new();
    let text = "fn a() { print 10; print 11 }; fn b() { print 20 }; (a()); (b())";
    assert_eq!(Ok(Expr::Undefined), interpreter.eval(text));
    assert_eq!(vec!["10", "11", "20"], lines(&interpreter));
}

#[test]
fn arguments_are_evaluated_left_to_right() {
    let mut interpreter = Interpreter::new();
    let text = "fn pair(a, b) { a - b }; fn show(n) { print n; n }; pair(show(7), show(3))";
    assert_eq!(Ok(Expr::Int(4)), interpreter.eval(text));
    assert_eq!(vec!["7", "3"], lines(&interpreter));
}

#[test]
fn modulo_follows_the_divisor() {
    let mut interpreter = Interpreter::new();
    assert_eq!(Ok(Expr::Int(3)), interpreter.eval("-7 % 5"));
    assert_eq!(Ok(Expr::Int(-2)), interpreter.eval("-7 % -5"));
    assert_eq!(Ok(Expr::Int(2)), interpreter.eval("7 % 5"));
    assert_eq!(Ok(Expr::Int(-3)), interpreter.eval("7 % -5"));
    assert_eq!(Ok(Expr::Int(0)), interpreter.eval("10 % -5"));
}

#[test]
fn a_second_declaration_rebinds_the_name() {
    assert_eq!(Ok(Expr::Int(5)), Interpreter::new().eval("let x = 2; let x = 3; x + 2"));
    assert_eq!(Ok(Expr::Int(5)), Interpreter::new().eval("var x = 2; let x = 3; x + 2"));
}

#[test]
fn an_immutable_name_cannot_be_assigned() {
    assert_eq!(
        Err(RuntimeError::InvalidConstAssignment(Expr::Int(2), String::from("x"))),
        Interpreter::new().eval("let x = 1; x = 2")
    );
    assert_eq!(
        Err(RuntimeError::InvalidConstAssignment(Expr::Int(2), String::from("c"))),
        Interpreter::new().eval("let c = 1; fn f() { c = 2 }; f()")
    );
}

#[test]
fn a_function_calls_itself_by_name() {
    let text = "fn fib(n) { n==0 ? 0 : (n==1 ? 1 : fib(n-1)+fib(n-2)) }; fib(8)";
    assert_eq!(Ok(Expr::Int(21)), Interpreter::new().eval(text));
}

#[test]
fn a_loop_ends_and_changes_the_outer_variable() {
    assert_eq!(Ok(Expr::Int(10)), Interpreter::new().eval("var i=0; while (i<10) { i = i+1 }; i"));
    let factorial = "var n = 5; var acc = 1; while (n > 0) { acc = acc * n; n = n - 1 }; acc";
    assert_eq!(Ok(Expr::Int(120)), Interpreter::new().eval(factorial));
}

#[test]
fn a_loop_whose_condition_is_false_never_runs_its_body() {
    let mut interpreter = Interpreter::new();
    assert_eq!(Ok(Expr::Int(0)), interpreter.eval("var i = 0; while (false) { i = 1; print i }; i"));
    assert!(interpreter.output.is_empty());
}

#[test]
fn a_loop_checks_its_condition_before_each_round() {
    let mut interpreter = Interpreter::new();
    let text = "var i = 0; while ({ print i; i < 2 }) { i = i + 1; print 100 + i }; i";
    assert_eq!(Ok(Expr::Int(2)), interpreter.eval(text));
    assert_eq!(vec!["0", "101", "1", "102", "2"], lines(&interpreter));
}

#[test]
fn the_branch_not_taken_is_never_run() {
    let mut interpreter = Interpreter::new();
    assert_eq!(Ok(Expr::Int(1)), interpreter.eval("true ? 1 : print 2"));
    assert_eq!(Ok(Expr::Int(3)), interpreter.eval("false ? print 1 : 3"));
    assert!(interpreter.output.is_empty());
    assert_eq!(Ok(Expr::Undefined), interpreter.eval("false ? print 1 : print 4"));
    assert_eq!(vec!["4"], lines(&interpreter));
}

#[test]
fn an_undeclared_name_is_not_found() {
    assert_eq!(
        Err(RuntimeError::VariableNotFound(String::from("x"))),
        Interpreter::new().eval("x")
    );
    assert_eq!(
        Err(RuntimeError::VariableNotFound(String::from("y"))),
        Interpreter::new().eval("var x = 1; x + y")
    );
}

#[test]
fn both_operands_of_and_and_or_are_evaluated() {
    assert_eq!(Ok(Expr::Int(1)), Interpreter::new().eval("var x = 0; false && (x = 1); x"));
    assert_eq!(Ok(Expr::Int(1)), Interpreter::new().eval("var x = 0; true || (x = 1); x"));
    let mut interpreter = Interpreter::new();
    let text = "fn yes() { print 1; true }; fn no() { print 0; false }; no() && yes()";
    assert_eq!(Ok(Expr::Bool(false)), interpreter.eval(text));
    assert_eq!(vec!["0", "1"], lines(&interpreter));
}

#[test]
fn one_step_rewrites_one_redex() {
    let mut interpreter = Interpreter::new();
    let inner = Expr::Bop(BinOp::Plus, Box::new(Expr::Int(1)), Box::new(Expr::Int(2)));
    let right = Expr::Bop(BinOp::Times, Box::new(Expr::Int(3)), Box::new(Expr::Int(4)));
    let whole = Expr::Bop(BinOp::Minus, Box::new(inner), Box::new(right.clone()));
    let after_one = interpreter.step(whole).unwrap();
    assert_eq!(Expr::Bop(BinOp::Minus, Box::new(Expr::Int(3)), Box::new(right)), after_one);
    let after_two = interpreter.step(after_one).unwrap();
    assert_eq!(
        Expr::Bop(BinOp::Minus, Box::new(Expr::Int(3)), Box::new(Expr::Int(12))),
        after_two
    );
    assert_eq!(Ok(Expr::Int(-9)), interpreter.step(after_two));
}

#[test]
fn the_driver_reduces_a_tree_to_a_value() {
    let mut interpreter = Interpreter::new();
    let tree = Expr::Ternary(
        Box::new(Expr::Bop(BinOp::Lt, Box::new(Expr::Int(1)), Box::new(Expr::Int(2)))),
        Box::new(Expr::Print(Box::new(Expr::Int(5)))),
        Box::new(Expr::Int(0)),
    );
    let value = interpreter.run(tree).unwrap();
    assert!(value.is_value());
    assert_eq!(Expr::Undefined, value);
    assert_eq!(vec!["5"], lines(&interpreter));
}

#[test]
fn a_loop_starts_over_from_its_templates() {
    let mut interpreter = Interpreter::new();
    let cond = Expr::Var(String::from("go"));
    let body = Expr::Print(Box::new(Expr::Int(1)));
    interpreter.state.alloc_var(String::from("go"), Expr::Bool(true)).unwrap();
    let spent = Expr::While(
        Box::new(Expr::Bool(true)),
        Box::new(cond.clone()),
        Box::new(Expr::Undefined),
        Box::new(body.clone()),
        Box::new(Expr::Int(9)),
    );
    let fresh = Expr::While(
        Box::new(cond.clone()),
        Box::new(cond.clone()),
        Box::new(body.clone()),
        Box::new(body.clone()),
        Box::new(Expr::Int(9)),
    );
    assert_eq!(Ok(fresh), interpreter.step(spent));
    let done = Expr::While(
        Box::new(Expr::Bool(false)),
        Box::new(cond.clone()),
        Box::new(body.clone()),
        Box::new(body),
        Box::new(Expr::Int(9)),
    );
    assert_eq!(Ok(Expr::Int(9)), interpreter.step(done));
}
