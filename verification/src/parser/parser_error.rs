use vstd::prelude::*;
use crate::parser::lexer_error::{LexerError, LexerErrorView};
use crate::parser::token::{Token, TokenView};

verus! {

/// Why the text is not a program: a token other than the expected one (the
/// expected token first, then the one found), a token that cannot stand where
/// it was found (with what was being parsed), or a lexical failure.
#[derive(Debug, PartialEq)]
pub enum ParserError {
    UnexpectedToken(Token, Token),
    InvalidToken(Token, String),
    LexerError(LexerError),
}

/// The mathematical value of a syntactic failure.
pub enum ParserErrorView {
    UnexpectedToken(TokenView, TokenView),
    InvalidToken(TokenView, Seq<char>),
    LexerError(LexerErrorView),
}

impl View for ParserError {
    type V = ParserErrorView;

    open spec fn view(&self) -> ParserErrorView {
        match self {
            ParserError::UnexpectedToken(a, b) => ParserErrorView::UnexpectedToken(a@, b@),
            ParserError::InvalidToken(t, s) => ParserErrorView::InvalidToken(t@, s@),
            ParserError::LexerError(e) => ParserErrorView::LexerError(e@),
        }
    }
}

impl From<LexerError> for ParserError {
    fn from(err: LexerError) -> (r: ParserError) {
        ParserError::LexerError(err)
    }
}

impl vstd::std_specs::convert::FromSpecImpl<LexerError> for ParserError {
    open spec fn obeys_from_spec() -> bool {
        true
    }

    open spec fn from_spec(err: LexerError) -> ParserError {
        ParserError::LexerError(err)
    }
}

} // verus!
