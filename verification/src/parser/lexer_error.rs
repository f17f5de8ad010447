use vstd::prelude::*;

verus! {

/// Why the text could not be split into tokens. Each variant carries the
/// message, or the digits, that it was raised for.
#[derive(Debug, PartialEq)]
pub enum LexerError {
    UnexpectedCharacter(String),
    InvalidKeyword(String),
    ParseInt(String),
}

/// The mathematical value of a lexical failure.
pub enum LexerErrorView {
    UnexpectedCharacter(Seq<char>),
    InvalidKeyword(Seq<char>),
    ParseInt(Seq<char>),
}

impl View for LexerError {
    type V = LexerErrorView;

    open spec fn view(&self) -> LexerErrorView {
        match self {
            LexerError::UnexpectedCharacter(s) => LexerErrorView::UnexpectedCharacter(s@),
            LexerError::InvalidKeyword(s) => LexerErrorView::InvalidKeyword(s@),
            LexerError::ParseInt(s) => LexerErrorView::ParseInt(s@),
        }
    }
}

} // verus!
