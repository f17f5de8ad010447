use meowth::parser::lexer::Lexer;
use meowth::parser::lexer_error::LexerError;
use meowth::parser::token::Token;

fn tokens(text: &str) -> Vec<Token> {
    let mut lexer = Lexer::new(String::from(text));
    let mut found = Vec::new();
    loop {
        let token = lexer.get_next_token().unwrap();
        if token == Token::EOF {
            return found;
        }
        found.push(token);
    }
}

#[test]
fn operators_and_punctuation_are_tokens() {
    assert_eq!(
        vec![
            Token::Plus,
            Token::Minus,
            Token::Times,
            Token::Div,
            Token::Mod,
            Token::LParen,
            Token::RParen,
            Token::LBracket,
            Token::RBracket,
            Token::Comma,
            Token::Sequence,
            Token::Ternary,
            Token::Else,
        ],
        tokens("+ - * / % ( ) { } , ; ? :")
    );
    assert_eq!(
        vec![
            Token::And,
            Token::Or,
            Token::Eq,
            Token::Assign,
            Token::Ne,
            Token::Not,
            Token::Geq,
            Token::Gt,
            Token::Leq,
            Token::Lt,
        ],
        tokens("&& || == = != ! >= > <= <")
    );
    assert_eq!(vec![Token::Eq, Token::Assign], tokens("==="));
    assert_eq!(vec![Token::Not, Token::Not, Token::Ne], tokens("!!!="));
}

#[test]
fn keywords_have_two_spellings() {
    assert_eq!(vec![Token::Bool(true), Token::Bool(true)], tokens("true win"));
    assert_eq!(vec![Token::Bool(false), Token::Bool(false)], tokens("false lose"));
    assert_eq!(vec![Token::FnDecl, Token::FnDecl], tokens("fn attack"));
    assert_eq!(vec![Token::Let, Token::Let], tokens("let pokeball"));
    assert_eq!(vec![Token::VarDecl, Token::VarDecl], tokens("var bike"));
    assert_eq!(vec![Token::Else, Token::Else], tokens("else run"));
    assert_eq!(vec![Token::While, Token::While], tokens("while defend"));
    assert_eq!(vec![Token::Print, Token::Print], tokens("print pokedex"));
    assert_eq!(vec![Token::If, Token::Rebattle, Token::PrintVarName], tokens("if rebattle speak"));
    assert_eq!(vec![Token::Eq, Token::Gt, Token::Geq], tokens("draws beats survives"));
}

#[test]
fn words_that_are_no_keywords_are_names() {
    assert_eq!(
        vec![
            Token::Var(String::from("x")),
            Token::Var(String::from("under_score")),
            Token::Var(String::from("wins")),
            Token::Var(String::from("If")),
        ],
        tokens("x under_score wins If")
    );
    assert_eq!(
        vec![Token::Var(String::from("a")), Token::Int(1)],
        tokens("a1")
    );
    assert_eq!(
        vec![Token::Var(String::from("\u{e9}t\u{e9}"))],
        tokens("\u{e9}t\u{e9}")
    );
}

#[test]
fn numbers_are_read_in_decimal() {
    assert_eq!(vec![Token::Int(0)], tokens("0"));
    assert_eq!(vec![Token::Int(7)], tokens("007"));
    assert_eq!(vec![Token::Int(1234567890)], tokens("1234567890"));
    assert_eq!(vec![Token::Int(isize::MAX)], tokens(&isize::MAX.to_string()));
    assert_eq!(vec![Token::Minus, Token::Int(5)], tokens("-5"));
    assert_eq!(vec![Token::Int(12), Token::Var(String::from("ab"))], tokens("12ab"));
}

#[test]
fn a_number_beyond_the_largest_integer_is_refused() {
    let digits = format!("{}0", isize::MAX);
    let mut lexer = Lexer::new(digits.clone());
    assert_eq!(Err(LexerError::ParseInt(digits.clone())), lexer.get_next_token());
    assert_eq!(Err(LexerError::ParseInt(digits)), lexer.get_next_token());
    let next = (isize::MAX as u128 + 1).to_string();
    let mut lexer = Lexer::new(next.clone());
    assert_eq!(Err(LexerError::ParseInt(next)), lexer.get_next_token());
}

#[test]
fn white_space_and_line_comments_are_skipped() {
    assert_eq!(vec![Token::Int(1), Token::Plus, Token::Int(2)], tokens(" \t1\n+\r\n 2  "));
    assert_eq!(
        vec![Token::Int(1), Token::Plus, Token::Int(2)],
        tokens("1 // one\n + // plus\n 2 // two")
    );
    assert_eq!(Vec::<Token>::new(), tokens("// nothing else"));
    assert_eq!(Vec::<Token>::new(), tokens(""));
    assert_eq!(vec![Token::Int(3)], tokens("\u{a0}3\u{2003}"));
}

#[test]
fn the_opening_of_a_block_comment_is_dropped_alone() {
    assert_eq!(
        vec![Token::Int(1), Token::Times, Token::Div],
        tokens("/* 1 */")
    );
}

#[test]
fn the_end_of_the_text_is_a_token_that_repeats() {
    let mut lexer = Lexer::new(String::from("x"));
    assert_eq!(Ok(Token::Var(String::from("x"))), lexer.get_next_token());
    assert_eq!(Ok(Token::EOF), lexer.get_next_token());
    assert_eq!(Ok(Token::EOF), lexer.get_next_token());
}

#[test]
fn a_stray_character_is_named_in_quotes() {
    let mut lexer = Lexer::new(String::from("1 @"));
    assert_eq!(Ok(Token::Int(1)), lexer.get_next_token());
    assert_eq!(
        Err(LexerError::UnexpectedCharacter(String::from("unexpected char '@'"))),
        lexer.get_next_token()
    );
    let mut lexer = Lexer::new(String::from("\u{1}"));
    assert_eq!(
        Err(LexerError::UnexpectedCharacter(String::from("unexpected char '\\u{1}'"))),
        lexer.get_next_token()
    );
}

#[test]
fn tokens_sort_into_the_levels_of_the_grammar() {
    assert!(Token::Times.is_term_op());
    assert!(Token::Div.is_term_op());
    assert!(!Token::Plus.is_term_op());
    for token in [
        Token::Plus,
        Token::Minus,
        Token::Eq,
        Token::Ne,
        Token::Leq,
        Token::Geq,
        Token::Lt,
        Token::Gt,
        Token::And,
        Token::Or,
        Token::Mod,
    ] {
        assert!(token.is_expr_op());
        assert!(!token.is_term_op());
        assert!(!token.is_statement_op());
    }
    assert!(!Token::Times.is_expr_op());
    assert!(Token::Ternary.is_statement_op());
    assert!(Token::Assign.is_statement_op());
    assert!(!Token::Else.is_statement_op());
    assert!(Token::Sequence.is_block_op());
    assert!(!Token::Comma.is_block_op());
}
