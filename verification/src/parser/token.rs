use vstd::prelude::*;

verus! {

/// A lexical unit of the surface syntax.
#[derive(Debug)]
pub enum Token {
    Plus,
    Minus,
    Times,
    Div,
    RParen,
    LParen,
    Eq,
    Ne,
    Leq,
    Geq,
    Lt,
    Gt,
    Not,
    And,
    Or,
    Mod,
    Sequence,
    Ternary,
    Else,
    Var(String),
    Int(isize),
    Bool(bool),
    Let,
    VarDecl,
    Assign,
    FnDecl,
    LBracket,
    RBracket,
    Comma,
    If,
    Rebattle,
    While,
    EOF,
    Print,
    PrintVarName,
}

/// The mathematical value of a token: a name is a sequence of characters.
pub enum TokenView {
    Plus,
    Minus,
    Times,
    Div,
    RParen,
    LParen,
    Eq,
    Ne,
    Leq,
    Geq,
    Lt,
    Gt,
    Not,
    And,
    Or,
    Mod,
    Sequence,
    Ternary,
    Else,
    Var(Seq<char>),
    Int(int),
    Bool(bool),
    Let,
    VarDecl,
    Assign,
    FnDecl,
    LBracket,
    RBracket,
    Comma,
    If,
    Rebattle,
    While,
    EOF,
    Print,
    PrintVarName,
}

impl View for Token {
    type V = TokenView;

    open spec fn view(&self) -> TokenView {
        match self {
            Token::Plus => TokenView::Plus,
            Token::Minus => TokenView::Minus,
            Token::Times => TokenView::Times,
            Token::Div => TokenView::Div,
            Token::RParen => TokenView::RParen,
            Token::LParen => TokenView::LParen,
            Token::Eq => TokenView::Eq,
            Token::Ne => TokenView::Ne,
            Token::Leq => TokenView::Leq,
            Token::Geq => TokenView::Geq,
            Token::Lt => TokenView::Lt,
            Token::Gt => TokenView::Gt,
            Token::Not => TokenView::Not,
            Token::And => TokenView::And,
            Token::Or => TokenView::Or,
            Token::Mod => TokenView::Mod,
            Token::Sequence => TokenView::Sequence,
            Token::Ternary => TokenView::Ternary,
            Token::Else => TokenView::Else,
            Token::Var(s) => TokenView::Var(s@),
            Token::Int(n) => TokenView::Int(*n as int),
            Token::Bool(b) => TokenView::Bool(*b),
            Token::Let => TokenView::Let,
            Token::VarDecl => TokenView::VarDecl,
            Token::Assign => TokenView::Assign,
            Token::FnDecl => TokenView::FnDecl,
            Token::LBracket => TokenView::LBracket,
            Token::RBracket => TokenView::RBracket,
            Token::Comma => TokenView::Comma,
            Token::If => TokenView::If,
            Token::Rebattle => TokenView::Rebattle,
            Token::While => TokenView::While,
            Token::EOF => TokenView::EOF,
            Token::Print => TokenView::Print,
            Token::PrintVarName => TokenView::PrintVarName,
        }
    }
}

impl TokenView {
    /// Whether the token joins two factors into a term: `*` or `/`.
    pub open spec fn is_term_op(self) -> bool {
        self is Times || self is Div
    }

    /// Whether the token joins two terms into an expression: an additive,
    /// comparison, boolean or modulo operator.
    pub open spec fn is_expr_op(self) -> bool {
        self is Plus || self is Minus || self is Eq || self is Ne || self is Leq || self is Geq
            || self is Lt || self is Gt || self is And || self is Or || self is Mod
    }

    /// Whether the token continues a statement: `?` or `=`.
    pub open spec fn is_statement_op(self) -> bool {
        self is Ternary || self is Assign
    }

    /// Whether the token continues a block: `;`.
    pub open spec fn is_block_op(self) -> bool {
        self is Sequence
    }
}

impl Clone for Token {
    fn clone(&self) -> (r: Token)
        ensures
            r@ == self@,
    {
        match self {
            Token::Plus => Token::Plus,
            Token::Minus => Token::Minus,
            Token::Times => Token::Times,
            Token::Div => Token::Div,
            Token::RParen => Token::RParen,
            Token::LParen => Token::LParen,
            Token::Eq => Token::Eq,
            Token::Ne => Token::Ne,
            Token::Leq => Token::Leq,
            Token::Geq => Token::Geq,
            Token::Lt => Token::Lt,
            Token::Gt => Token::Gt,
            Token::Not => Token::Not,
            Token::And => Token::And,
            Token::Or => Token::Or,
            Token::Mod => Token::Mod,
            Token::Sequence => Token::Sequence,
            Token::Ternary => Token::Ternary,
            Token::Else => Token::Else,
            Token::Var(s) => Token::Var(s.clone()),
            Token::Int(n) => Token::Int(*n),
            Token::Bool(b) => Token::Bool(*b),
            Token::Let => Token::Let,
            Token::VarDecl => Token::VarDecl,
            Token::Assign => Token::Assign,
            Token::FnDecl => Token::FnDecl,
            Token::LBracket => Token::LBracket,
            Token::RBracket => Token::RBracket,
            Token::Comma => Token::Comma,
            Token::If => Token::If,
            Token::Rebattle => Token::Rebattle,
            Token::While => Token::While,
            Token::EOF => Token::EOF,
            Token::Print => Token::Print,
            Token::PrintVarName => Token::PrintVarName,
        }
    }
}

impl PartialEq for Token {
    fn eq(&self, other: &Token) -> (r: bool) {
        match (self, other) {
            (Token::Plus, Token::Plus) => true,
            (Token::Minus, Token::Minus) => true,
            (Token::Times, Token::Times) => true,
            (Token::Div, Token::Div) => true,
            (Token::RParen, Token::RParen) => true,
            (Token::LParen, Token::LParen) => true,
            (Token::Eq, Token::Eq) => true,
            (Token::Ne, Token::Ne) => true,
            (Token::Leq, Token::Leq) => true,
            (Token::Geq, Token::Geq) => true,
            (Token::Lt, Token::Lt) => true,
            (Token::Gt, Token::Gt) => true,
            (Token::Not, Token::Not) => true,
            (Token::And, Token::And) => true,
            (Token::Or, Token::Or) => true,
            (Token::Mod, Token::Mod) => true,
            (Token::Sequence, Token::Sequence) => true,
            (Token::Ternary, Token::Ternary) => true,
            (Token::Else, Token::Else) => true,
            (Token::Var(a), Token::Var(b)) => *a == *b,
            (Token::Int(a), Token::Int(b)) => *a == *b,
            (Token::Bool(a), Token::Bool(b)) => *a == *b,
            (Token::Let, Token::Let) => true,
            (Token::VarDecl, Token::VarDecl) => true,
            (Token::Assign, Token::Assign) => true,
            (Token::FnDecl, Token::FnDecl) => true,
            (Token::LBracket, Token::LBracket) => true,
            (Token::RBracket, Token::RBracket) => true,
            (Token::Comma, Token::Comma) => true,
            (Token::If, Token::If) => true,
            (Token::Rebattle, Token::Rebattle) => true,
            (Token::While, Token::While) => true,
            (Token::EOF, Token::EOF) => true,
            (Token::Print, Token::Print) => true,
            (Token::PrintVarName, Token::PrintVarName) => true,
            _ => false,
        }
    }
}

impl vstd::std_specs::cmp::PartialEqSpecImpl for Token {
    open spec fn obeys_eq_spec() -> bool {
        true
    }

    open spec fn eq_spec(&self, other: &Token) -> bool {
        self@ == other@
    }
}

impl Token {
    pub fn is_term_op(&self) -> (r: bool)
        ensures
            r == self@.is_term_op(),
    {
        match self {
            Token::Times => true,
            Token::Div => true,
            _ => false,
        }
    }

    pub fn is_expr_op(&self) -> (r: bool)
        ensures
            r == self@.is_expr_op(),
    {
        match self {
            Token::Plus => true,
            Token::Minus => true,
            Token::Eq => true,
            Token::Ne => true,
            Token::Leq => true,
            Token::Geq => true,
            Token::Lt => true,
            Token::Gt => true,
            Token::And => true,
            Token::Or => true,
            Token::Mod => true,
            _ => false,
        }
    }

    pub fn is_statement_op(&self) -> (r: bool)
        ensures
            r == self@.is_statement_op(),
    {
        match self {
            Token::Ternary => true,
            Token::Assign => true,
            _ => false,
        }
    }

    pub fn is_block_op(&self) -> (r: bool)
        ensures
            r == self@.is_block_op(),
    {
        match self {
            Token::Sequence => true,
            _ => false,
        }
    }
}

} // verus!
