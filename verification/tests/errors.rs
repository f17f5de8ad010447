use meowth::expr::{BinOp, Expr};
use meowth::interpreter::Interpreter;
use meowth::parser::lexer_error::LexerError;
use meowth::parser::parser::parse;
use meowth::parser::parser_error::ParserError;
use meowth::parser::token::Token;
use meowth::runtime_error::RuntimeError;
use meowth::state::State;

#[test]
fn stepping_on_a_value_fails() {
    let mut interpreter = Interpreter::new();
    assert_eq!(
        Err(RuntimeError::SteppingOnValue(Expr::Int(1))),
        interpreter.step(Expr::Int(1))
    );
    assert_eq!(
        Err(RuntimeError::SteppingOnValue(Expr::Undefined)),
        interpreter.step(Expr::Undefined)
    );
    let f = Expr::Func(None, Box::new(Expr::Int(1)), vec![]);
    assert_eq!(Err(RuntimeError::SteppingOnValue(f.clone())), interpreter.step(f));
}

#[test]
fn calling_what_is_no_function_fails() {
    assert_eq!(
        Err(RuntimeError::UnexpectedExpr(String::from("expected Func"), Expr::Int(3))),
        Interpreter::new().eval("var f = 3; f()")
    );
}

#[test]
fn printing_the_name_of_what_is_no_name_fails() {
    let mut interpreter = Interpreter::new();
    assert_eq!(
        Err(RuntimeError::UnexpectedExpr(String::from("expected Var"), Expr::Int(1))),
        interpreter.step(Expr::PrintVarName(Box::new(Expr::Int(1))))
    );
}

#[test]
fn dividing_by_zero_fails() {
    let expected =
        Err(RuntimeError::UnexpectedExpr(String::from("expected nonzero divisor"), Expr::Int(0)));
    assert_eq!(expected, Interpreter::new().eval("1 / 0"));
    assert_eq!(expected, Interpreter::new().eval("1 % 0"));
    assert_eq!(expected, Interpreter::new().eval("0 / (1 - 1)"));
}

#[test]
fn a_value_of_the_wrong_kind_fails() {
    assert_eq!(
        Err(RuntimeError::InvalidTypeConversion(String::from("int"), Expr::Bool(true))),
        Interpreter::new().eval("1 + true")
    );
    assert_eq!(
        Err(RuntimeError::InvalidTypeConversion(String::from("int"), Expr::Bool(false))),
        Interpreter::new().eval("false < 1")
    );
    assert_eq!(
        Err(RuntimeError::InvalidTypeConversion(String::from("bool"), Expr::Int(1))),
        Interpreter::new().eval("!1")
    );
    assert_eq!(
        Err(RuntimeError::InvalidTypeConversion(String::from("int"), Expr::Bool(true))),
        Interpreter::new().eval("-true")
    );
    assert_eq!(
        Err(RuntimeError::InvalidTypeConversion(String::from("bool"), Expr::Int(3))),
        Interpreter::new().eval("3 ? 1 : 2")
    );
    assert_eq!(
        Err(RuntimeError::InvalidTypeConversion(String::from("bool"), Expr::Int(3))),
        Interpreter::new().eval("true && 3")
    );
    assert_eq!(
        Err(RuntimeError::InvalidTypeConversion(String::from("bool"), Expr::Int(3))),
        Interpreter::new().eval("3 && true")
    );
    assert_eq!(Ok(Expr::Bool(false)), Interpreter::new().eval("false && 3"));
    assert_eq!(Ok(Expr::Bool(true)), Interpreter::new().eval("true || 3"));
    assert_eq!(
        Err(RuntimeError::InvalidTypeConversion(String::from("var"), Expr::Int(3))),
        Interpreter::new().eval("let 3 = 4; 1")
    );
    assert_eq!(
        Err(RuntimeError::InvalidTypeConversion(String::from("bool"), Expr::Int(1))),
        Interpreter::new().eval("while (1) { 2 }; 3")
    );
}

#[test]
fn conversions_name_the_kind_asked_for() {
    assert_eq!(Ok(7), Expr::Int(7).to_int());
    assert_eq!(Ok(true), Expr::Bool(true).to_bool());
    assert_eq!(Ok(String::from("n")), Expr::Var(String::from("n")).to_var());
    assert_eq!(
        Err(RuntimeError::InvalidTypeConversion(String::from("int"), Expr::Undefined)),
        Expr::Undefined.to_int()
    );
    assert_eq!(
        Err(RuntimeError::InvalidTypeConversion(String::from("bool"), Expr::Int(0))),
        Expr::Int(0).to_bool()
    );
    assert_eq!(
        Err(RuntimeError::InvalidTypeConversion(String::from("var"), Expr::Bool(true))),
        Expr::Bool(true).to_var()
    );
}

#[test]
fn binding_without_a_frame_fails() {
    let mut state = State { mem: vec![] };
    assert_eq!(
        Err(RuntimeError::InvalidMemoryState(String::from("no memory frame for var allocation"))),
        state.alloc_var(String::from("x"), Expr::Int(1))
    );
    assert_eq!(
        Err(RuntimeError::InvalidMemoryState(String::from(
            "no memory frame for const allocation"
        ))),
        state.alloc_const(String::from("x"), Expr::Int(1))
    );
    assert!(state.mem.is_empty());
}

#[test]
fn too_many_steps_fail_with_the_count() {
    let endless = "var i = 0; while (true) { i = i + 1 }; i";
    let tree = parse(endless).unwrap();
    let mut interpreter = Interpreter::new();
    assert_eq!(Err(RuntimeError::TooManyIterations(51)), interpreter.run_within(tree, 50));
    let sum = Expr::Bop(BinOp::Plus, Box::new(Expr::Int(1)), Box::new(Expr::Int(2)));
    assert_eq!(Ok(Expr::Int(3)), Interpreter::new().run_within(sum.clone(), 1));
    assert_eq!(Err(RuntimeError::TooManyIterations(1)), Interpreter::new().run_within(sum, 0));
    assert_eq!(Ok(Expr::Int(3)), Interpreter::new().run_within(Expr::Int(3), 0));
}

#[test]
fn a_failed_step_leaves_the_environment_as_it_was() {
    let mut interpreter = Interpreter::new();
    interpreter.eval("var x = 1;").unwrap();
    let before = format!("{:?}", interpreter.state);
    let bad_param = Expr::Func(None, Box::new(Expr::Int(1)), vec![
        Expr::Var(String::from("a")),
        Expr::Int(5),
    ]);
    let call = Expr::FnCall(Box::new(bad_param), vec![Expr::Int(1), Expr::Int(2)]);
    assert_eq!(
        Err(RuntimeError::InvalidTypeConversion(String::from("var"), Expr::Int(5))),
        interpreter.step(call)
    );
    assert_eq!(before, format!("{:?}", interpreter.state));
    assert!(interpreter.eval("x = y").is_err());
    assert_eq!(Ok(Expr::Int(1)), interpreter.eval("x"));
}

#[test]
fn a_text_that_is_no_program_fails() {
    assert_eq!(
        Err(RuntimeError::ParserError(ParserError::UnexpectedToken(Token::RParen, Token::EOF))),
        Interpreter::new().eval("(1")
    );
    assert_eq!(
        Err(ParserError::UnexpectedToken(Token::RParen, Token::EOF)),
        parse("f(")
    );
    assert_eq!(
        Err(ParserError::UnexpectedToken(Token::RParen, Token::EOF)),
        parse("f(1, 2")
    );
    assert_eq!(
        Err(ParserError::InvalidToken(Token::RParen, String::from("parsing factor"))),
        parse(")")
    );
    assert_eq!(
        Err(ParserError::InvalidToken(Token::Int(1), String::from("parsing fn decl params"))),
        parse("fn f(1) { 2 }")
    );
    assert_eq!(
        Err(ParserError::InvalidToken(
            Token::Int(1),
            String::from("parsing name for PrintVarName")
        )),
        parse("speak(1)")
    );
    assert_eq!(
        Err(ParserError::UnexpectedToken(Token::Else, Token::EOF)),
        parse("true ? 1")
    );
    assert_eq!(
        Err(ParserError::UnexpectedToken(Token::Sequence, Token::EOF)),
        parse("fn f() { 1 }")
    );
}

#[test]
fn a_character_that_starts_no_token_fails() {
    assert_eq!(
        Err(ParserError::LexerError(LexerError::UnexpectedCharacter(String::from(
            "unexpected char '$'"
        )))),
        parse("$")
    );
    assert_eq!(
        Err(ParserError::LexerError(LexerError::UnexpectedCharacter(String::from(
            "unexpected char '&'"
        )))),
        parse("1 & 2")
    );
    assert_eq!(
        Err(RuntimeError::ParserError(ParserError::LexerError(
            LexerError::UnexpectedCharacter(String::from("unexpected char '#'"))
        ))),
        Interpreter::new().eval("1 + #")
    );
}

#[test]
fn what_follows_a_complete_program_is_not_read() {
    assert_eq!(Ok(Expr::Int(1)), parse("1 ) $"));
    assert_eq!(Ok(Expr::Int(8)), Interpreter::new().eval("(4+7)-3)"));
}

#[test]
fn a_number_too_large_fails() {
    assert_eq!(
        Err(ParserError::LexerError(LexerError::ParseInt(String::from(
            "99999999999999999999999999999999999999999"
        )))),
        parse("99999999999999999999999999999999999999999")
    );
}
