use vstd::prelude::*;
use vstd::string::StringExecFns;
use crate::expr::{BinOp, Dec, Expr, Term, UnOp};
use crate::parser::cursor::{advance, eat, lemma_eat_moves, measure, progressed, Cursor};
use crate::parser::cursor::{Parsed, ParsedList};
use crate::parser::grammar;
use crate::parser::lexer::{next_token, Lexer};
use crate::parser::parser_error::{ParserError, ParserErrorView};
use crate::parser::token::{Token, TokenView};

verus! {

broadcast use lemma_eat_moves;

/// Whether a parser that returned `r` and stands at `after` made the parse
/// `p`: the same tree, or the same failure, and the same cursor.
pub open spec fn parsed_as(r: Result<Expr, ParserError>, after: Cursor, p: Parsed) -> bool {
    match p {
        Ok((t, c)) => r is Ok && r->Ok_0@ == t && after == c,
        Err((e, c)) => r is Err && r->Err_0@ == e && after == c,
    }
}

/// Whether a parser that returned the list `r` and stands at `after` made the
/// parse `p`.
pub open spec fn parsed_list_as(r: Result<Vec<Expr>, ParserError>, after: Cursor, p: ParsedList)
    -> bool {
    match p {
        Ok((list, c)) => r is Ok && Expr::list_model(r->Ok_0@) == list && after == c,
        Err((e, c)) => r is Err && r->Err_0@ == e && after == c,
    }
}

/// The operator that a token between two operands stands for.
fn operator_of(t: &Token) -> (r: BinOp)
    ensures
        r == grammar::operator(t@),
{
    match t {
        Token::Times => BinOp::Times,
        Token::Div => BinOp::Div,
        Token::Plus => BinOp::Plus,
        Token::Minus => BinOp::Minus,
        Token::Eq => BinOp::Eq,
        Token::Ne => BinOp::Ne,
        Token::Leq => BinOp::Leq,
        Token::Geq => BinOp::Geq,
        Token::Lt => BinOp::Lt,
        Token::Gt => BinOp::Gt,
        Token::And => BinOp::And,
        Token::Or => BinOp::Or,
        Token::Mod => BinOp::Mod,
        Token::Assign => BinOp::Assign,
        _ => BinOp::Sequence,
    }
}

/// A recursive-descent parser: a lexer and the token it last read.
pub struct Parser {
    lexer: Lexer,
    current_token: Token,
}

impl View for Parser {
    type V = Cursor;

    closed spec fn view(&self) -> Cursor {
        Cursor { token: self.current_token@, text: self.lexer@ }
    }
}

impl Parser {
    /// A parser that looks at `token`, with the rest of the text in `lexer`.
    pub fn new(lexer: Lexer, token: Token) -> (r: Parser)
        ensures
            r@ == (Cursor { token: token@, text: lexer@ }),
    {
        Parser { lexer, current_token: token }
    }

    /// A copy of the token looked at.
    fn current_token(&self) -> (r: Token)
        ensures
            r@ == self@.token,
    {
        self.current_token.clone()
    }

    /// Moves past the token looked at, which has to be the expected one.
    fn eat(&mut self, expected: Token) -> (r: Result<(), ParserError>)
        ensures
            match eat(old(self)@, expected@) {
                Ok(c) => r is Ok && final(self)@ == c,
                Err((e, c)) => r is Err && r->Err_0@ == e && final(self)@ == c,
            },
    {
        let actual = self.current_token();
        if !(expected == actual) {
            return Err(ParserError::UnexpectedToken(expected, actual));
        }
        match self.lexer.get_next_token() {
            Ok(token) => {
                self.current_token = token;
                Ok(())
            },
            Err(e) => Err(ParserError::LexerError(e)),
        }
    }

    /// Moves past the token looked at.
    fn skip(&mut self) -> (r: Result<(), ParserError>)
        ensures
            match advance(old(self)@) {
                Ok(c) => r is Ok && final(self)@ == c,
                Err((e, c)) => r is Err && r->Err_0@ == e && final(self)@ == c,
            },
    {
        let token = self.current_token();
        self.eat(token)
    }

    /// A conditional node.
    fn ternary(e1: Expr, e2: Expr, e3: Expr) -> (r: Expr)
        ensures
            r@ == grammar::ternary(e1@, e2@, e3@),
    {
        Expr::Ternary(Box::new(e1), Box::new(e2), Box::new(e3))
    }

    /// A node of two operands.
    fn binop(bop: BinOp, e1: Expr, e2: Expr) -> (r: Expr)
        ensures
            r@ == grammar::binop(bop, e1@, e2@),
    {
        Expr::Bop(bop, Box::new(e1), Box::new(e2))
    }

    /// Parses the arguments of a call, up to the closing parenthesis.
    fn parse_fn_params(&mut self) -> (r: Result<Vec<Expr>, ParserError>)
        ensures
            parsed_list_as(r, final(self)@, grammar::call_args(old(self)@, Seq::empty())),
            r is Ok ==> measure(final(self)@) <= measure(old(self)@),
        decreases measure(self@), 6nat,
    {
        let mut params: Vec<Expr> = Vec::new();
        assert(Expr::list_model(params@) =~= Seq::<Term>::empty());
        loop
            invariant
                grammar::call_args(self@, Expr::list_model(params@)) == grammar::call_args(
                    old(self)@,
                    Seq::empty(),
                ),
                measure(self@) <= measure(old(self)@),
            decreases measure(self@),
        {
            let token = self.current_token();
            if token == Token::RParen {
                return Ok(params);
            }
            if token == Token::EOF {
                return Err(ParserError::UnexpectedToken(Token::RParen, Token::EOF));
            }
            let ghost before = Expr::list_model(params@);
            let arg = match self.binop_expr() {
                Ok(arg) => arg,
                Err(e) => {
                    return Err(e);
                },
            };
            params.push(arg);
            assert(Expr::list_model(params@) =~= before.push(arg@));
            if self.current_token() == Token::Comma {
                match self.eat(Token::Comma) {
                    Ok(()) => {},
                    Err(e) => {
                        return Err(e);
                    },
                }
            }
        }
    }

    /// Parses the parameter names of a function literal, up to the closing
    /// parenthesis.
    fn parse_fn_decl_params(&mut self) -> (r: Result<Vec<Expr>, ParserError>)
        ensures
            parsed_list_as(r, final(self)@, grammar::decl_params(old(self)@, Seq::empty())),
            r is Ok ==> measure(final(self)@) <= measure(old(self)@),
    {
        let mut params: Vec<Expr> = Vec::new();
        assert(Expr::list_model(params@) =~= Seq::<Term>::empty());
        loop
            invariant
                grammar::decl_params(self@, Expr::list_model(params@)) == grammar::decl_params(
                    old(self)@,
                    Seq::empty(),
                ),
                measure(self@) <= measure(old(self)@),
            decreases measure(self@),
        {
            let token = self.current_token();
            let ghost before = Expr::list_model(params@);
            match token {
                Token::RParen => {
                    return Ok(params);
                },
                Token::Var(s) => {
                    match self.skip() {
                        Ok(()) => {},
                        Err(e) => {
                            return Err(e);
                        },
                    }
                    params.push(Expr::Var(s));
                    assert(Expr::list_model(params@) =~= before.push(Term::Var(s@)));
                },
                Token::Comma => {
                    match self.skip() {
                        Ok(()) => {},
                        Err(e) => {
                            return Err(e);
                        },
                    }
                },
                other => {
                    return Err(
                        ParserError::InvalidToken(other, String::from_str("parsing fn decl params")),
                    );
                },
            }
        }
    }

    /// Parses a print statement.
    fn parse_print(&mut self) -> (r: Result<Expr, ParserError>)
        requires
            old(self)@.token is Print,
        ensures
            parsed_as(r, final(self)@, grammar::print(old(self)@)),
            r is Ok ==> progressed(old(self)@, final(self)@),
        decreases measure(self@), 0nat,
    {
        match self.eat(Token::Print) {
            Ok(()) => {},
            Err(e) => {
                return Err(e);
            },
        }
        match self.binop_expr() {
            Ok(e) => Ok(Expr::Print(Box::new(e))),
            Err(e) => Err(e),
        }
    }

    /// Parses a statement that prints a variable's name.
    fn parse_print_var_name(&mut self) -> (r: Result<Expr, ParserError>)
        requires
            old(self)@.token is PrintVarName,
        ensures
            parsed_as(r, final(self)@, grammar::print_name(old(self)@)),
            r is Ok ==> progressed(old(self)@, final(self)@),
    {
        match self.eat(Token::PrintVarName) {
            Ok(()) => {},
            Err(e) => {
                return Err(e);
            },
        }
        match self.eat(Token::LParen) {
            Ok(()) => {},
            Err(e) => {
                return Err(e);
            },
        }
        match self.current_token() {
            Token::Var(s) => {
                match self.skip() {
                    Ok(()) => {},
                    Err(e) => {
                        return Err(e);
                    },
                }
                match self.eat(Token::RParen) {
                    Ok(()) => {},
                    Err(e) => {
                        return Err(e);
                    },
                }
                let name = Expr::Var(s);
                assert(name@ == Term::Var(s@));
                Ok(Expr::PrintVarName(Box::new(name)))
            },
            t => Err(
                ParserError::InvalidToken(t, String::from_str("parsing name for PrintVarName")),
            ),
        }
    }

    /// Parses a function literal, with the declaration or the call that it
    /// may be part of.
    fn parse_fn(&mut self) -> (r: Result<Expr, ParserError>)
        requires
            old(self)@.token is FnDecl,
        ensures
            parsed_as(r, final(self)@, grammar::function(old(self)@)),
            r is Ok ==> progressed(old(self)@, final(self)@),
        decreases measure(self@), 0nat,
    {
        match self.eat(Token::FnDecl) {
            Ok(()) => {},
            Err(e) => {
                return Err(e);
            },
        }
        let var: Option<Expr> = match self.current_token() {
            Token::Var(s) => {
                match self.skip() {
                    Ok(()) => {},
                    Err(e) => {
                        return Err(e);
                    },
                }
                Some(Expr::Var(s))
            },
            _ => None,
        };
        match self.eat(Token::LParen) {
            Ok(()) => {},
            Err(e) => {
                return Err(e);
            },
        }
        let params = match self.parse_fn_decl_params() {
            Ok(params) => params,
            Err(e) => {
                return Err(e);
            },
        };
        match self.eat(Token::RParen) {
            Ok(()) => {},
            Err(e) => {
                return Err(e);
            },
        }
        match self.eat(Token::LBracket) {
            Ok(()) => {},
            Err(e) => {
                return Err(e);
            },
        }
        let body = match self.block() {
            Ok(body) => body,
            Err(e) => {
                return Err(e);
            },
        };
        match self.eat(Token::RBracket) {
            Ok(()) => {},
            Err(e) => {
                return Err(e);
            },
        }
        match var {
            Some(v) => self.parse_named_fn(v, params, body),
            None => {
                let func = Expr::Func(None, Box::new(body), params);
                assert(func@ == Term::Func(None, Box::new(body@), Expr::list_model(params@)));
                self.parse_fn_call(func)
            },
        }
    }

    /// Parses what follows the body of a named function: a `;` and the block
    /// for which the function is declared.
    fn parse_named_fn(&mut self, v: Expr, params: Vec<Expr>, body: Expr) -> (r: Result<
        Expr,
        ParserError,
    >)
        ensures
            parsed_as(
                r,
                final(self)@,
                grammar::function_tail(Some(v@), Expr::list_model(params@), body@, old(self)@),
            ),
            r is Ok ==> measure(final(self)@) <= measure(old(self)@),
        decreases measure(self@), 7nat,
    {
        match self.eat(Token::Sequence) {
            Ok(()) => {},
            Err(e) => {
                return Err(e);
            },
        }
        let e3 = match self.block() {
            Ok(e3) => e3,
            Err(e) => {
                return Err(e);
            },
        };
        let name = v.clone();
        let func = Expr::Func(Some(Box::new(name)), Box::new(body), params);
        assert(func@ == Term::Func(Some(Box::new(v@)), Box::new(body@), Expr::list_model(params@)));
        let decl = Expr::Decl(Dec::DConst, Box::new(v), Box::new(func), Box::new(e3));
        assert(decl@ == Term::Decl(
            Dec::DConst,
            Box::new(v@),
            Box::new(func@),
            Box::new(e3@),
        ));
        Ok(decl)
    }

    /// Parses what may follow a function without a name: the argument list of
    /// a call on the spot.
    fn parse_fn_call(&mut self, func: Expr) -> (r: Result<Expr, ParserError>)
        requires
            func@ is Func,
            func@->Func_0 is None,
        ensures
            parsed_as(
                r,
                final(self)@,
                grammar::function_tail(None, func@->Func_2, *func@->Func_1, old(self)@),
            ),
            r is Ok ==> measure(final(self)@) <= measure(old(self)@),
        decreases measure(self@), 7nat,
    {
        if self.current_token() == Token::LParen {
            match self.eat(Token::LParen) {
                Ok(()) => {},
                Err(e) => {
                    return Err(e);
                },
            }
            let args = match self.parse_fn_params() {
                Ok(args) => args,
                Err(e) => {
                    return Err(e);
                },
            };
            match self.eat(Token::RParen) {
                Ok(()) => {},
                Err(e) => {
                    return Err(e);
                },
            }
            Ok(Expr::FnCall(Box::new(func), args))
        } else {
            Ok(func)
        }
    }

    /// Parses a loop.
    fn parse_while(&mut self) -> (r: Result<Expr, ParserError>)
        requires
            old(self)@.token is While,
        ensures
            parsed_as(r, final(self)@, grammar::while_loop(old(self)@)),
            r is Ok ==> progressed(old(self)@, final(self)@),
        decreases measure(self@), 0nat,
    {
        match self.eat(Token::While) {
            Ok(()) => {},
            Err(e) => {
                return Err(e);
            },
        }
        match self.eat(Token::LParen) {
            Ok(()) => {},
            Err(e) => {
                return Err(e);
            },
        }
        let e1 = match self.statement() {
            Ok(e1) => e1,
            Err(e) => {
                return Err(e);
            },
        };
        match self.eat(Token::RParen) {
            Ok(()) => {},
            Err(e) => {
                return Err(e);
            },
        }
        let e2 = match self.factor() {
            Ok(e2) => e2,
            Err(e) => {
                return Err(e);
            },
        };
        match self.eat(Token::Sequence) {
            Ok(()) => {},
            Err(e) => {
                return Err(e);
            },
        }
        let e3 = match self.block() {
            Ok(e3) => e3,
            Err(e) => {
                return Err(e);
            },
        };
        Ok(
            Expr::While(
                Box::new(e1.clone()),
                Box::new(e1),
                Box::new(e2.clone()),
                Box::new(e2),
                Box::new(e3),
            ),
        )
    }

    /// Parses what follows the keyword of a conditional in words.
    fn parse_if(&mut self) -> (r: Result<Expr, ParserError>)
        ensures
            parsed_as(r, final(self)@, grammar::conditional(old(self)@)),
            r is Ok ==> measure(final(self)@) <= measure(old(self)@),
        decreases measure(self@), 10nat,
    {
        let e1 = match self.binop_expr() {
            Ok(e1) => e1,
            Err(e) => {
                return Err(e);
            },
        };
        let e2 = match self.block() {
            Ok(e2) => e2,
            Err(e) => {
                return Err(e);
            },
        };
        let e3 = match self.statement() {
            Ok(e3) => e3,
            Err(e) => {
                return Err(e);
            },
        };
        Ok(Parser::ternary(e1, e2, e3))
    }

    /// Parses what follows the keyword of a declaration.
    fn parse_decl(&mut self, kind: Dec) -> (r: Result<Expr, ParserError>)
        ensures
            parsed_as(r, final(self)@, grammar::declaration(kind, old(self)@)),
            r is Ok ==> measure(final(self)@) <= measure(old(self)@),
        decreases measure(self@), 10nat,
    {
        let var = match self.term() {
            Ok(var) => var,
            Err(e) => {
                return Err(e);
            },
        };
        match self.eat(Token::Assign) {
            Ok(()) => {},
            Err(e) => {
                return Err(e);
            },
        }
        let e2 = match self.statement() {
            Ok(e2) => e2,
            Err(e) => {
                return Err(e);
            },
        };
        match self.eat(Token::Sequence) {
            Ok(()) => {},
            Err(e) => {
                return Err(e);
            },
        }
        let e3 = match self.block() {
            Ok(e3) => e3,
            Err(e) => {
                return Err(e);
            },
        };
        Ok(Expr::Decl(kind, Box::new(var), Box::new(e2), Box::new(e3)))
    }

    /// Parses what may follow a name: the argument list of a call.
    fn parse_name(&mut self, s: String) -> (r: Result<Expr, ParserError>)
        ensures
            parsed_as(r, final(self)@, grammar::name_or_call(s@, old(self)@)),
            r is Ok ==> measure(final(self)@) <= measure(old(self)@),
        decreases measure(self@), 7nat,
    {
        if self.current_token() == Token::LParen {
            match self.eat(Token::LParen) {
                Ok(()) => {},
                Err(e) => {
                    return Err(e);
                },
            }
            let args = match self.parse_fn_params() {
                Ok(args) => args,
                Err(e) => {
                    return Err(e);
                },
            };
            match self.eat(Token::RParen) {
                Ok(()) => {},
                Err(e) => {
                    return Err(e);
                },
            }
            Ok(Expr::FnCall(Box::new(Expr::Var(s)), args))
        } else {
            Ok(Expr::Var(s))
        }
    }

    /// Parses a factor.
    fn factor(&mut self) -> (r: Result<Expr, ParserError>)
        ensures
            parsed_as(r, final(self)@, grammar::factor(old(self)@)),
            r is Ok ==> progressed(old(self)@, final(self)@),
        decreases measure(self@), 1nat,
    {
        match self.current_token() {
            Token::Int(n) => match self.skip() {
                Ok(()) => Ok(Expr::Int(n)),
                Err(e) => Err(e),
            },
            Token::Bool(b) => match self.skip() {
                Ok(()) => Ok(Expr::Bool(b)),
                Err(e) => Err(e),
            },
            Token::Var(s) => match self.skip() {
                Ok(()) => self.parse_name(s),
                Err(e) => Err(e),
            },
            Token::Print => self.parse_print(),
            Token::PrintVarName => self.parse_print_var_name(),
            Token::FnDecl => self.parse_fn(),
            Token::VarDecl => match self.skip() {
                Ok(()) => self.parse_decl(Dec::DVar),
                Err(e) => Err(e),
            },
            Token::Let => match self.skip() {
                Ok(()) => self.parse_decl(Dec::DConst),
                Err(e) => Err(e),
            },
            Token::If => match self.skip() {
                Ok(()) => self.parse_if(),
                Err(e) => Err(e),
            },
            Token::Rebattle => match self.skip() {
                Ok(()) => self.parse_if(),
                Err(e) => Err(e),
            },
            Token::Else => match self.skip() {
                Ok(()) => self.statement(),
                Err(e) => Err(e),
            },
            Token::While => self.parse_while(),
            Token::LParen => {
                match self.skip() {
                    Ok(()) => {},
                    Err(e) => {
                        return Err(e);
                    },
                }
                let node = match self.statement() {
                    Ok(node) => node,
                    Err(e) => {
                        return Err(e);
                    },
                };
                match self.eat(Token::RParen) {
                    Ok(()) => Ok(node),
                    Err(e) => Err(e),
                }
            },
            Token::LBracket => {
                match self.skip() {
                    Ok(()) => {},
                    Err(e) => {
                        return Err(e);
                    },
                }
                let node = match self.block() {
                    Ok(node) => node,
                    Err(e) => {
                        return Err(e);
                    },
                };
                match self.eat(Token::RBracket) {
                    Ok(()) => Ok(node),
                    Err(e) => Err(e),
                }
            },
            Token::Not => {
                match self.skip() {
                    Ok(()) => {},
                    Err(e) => {
                        return Err(e);
                    },
                }
                match self.factor() {
                    Ok(e) => Ok(Expr::Uop(UnOp::Not, Box::new(e))),
                    Err(e) => Err(e),
                }
            },
            Token::Minus => {
                match self.skip() {
                    Ok(()) => {},
                    Err(e) => {
                        return Err(e);
                    },
                }
                match self.factor() {
                    Ok(e) => Ok(Expr::Uop(UnOp::Neg, Box::new(e))),
                    Err(e) => Err(e),
                }
            },
            Token::EOF => match self.skip() {
                Ok(()) => Ok(Expr::Undefined),
                Err(e) => Err(e),
            },
            other => Err(ParserError::InvalidToken(other, String::from_str("parsing factor"))),
        }
    }

    /// Parses a term: factors joined by `*` and `/`.
    pub fn term(&mut self) -> (r: Result<Expr, ParserError>)
        ensures
            parsed_as(r, final(self)@, grammar::term(old(self)@)),
            r is Ok ==> progressed(old(self)@, final(self)@),
        decreases measure(self@), 3nat,
    {
        let mut node = match self.factor() {
            Ok(node) => node,
            Err(e) => {
                return Err(e);
            },
        };
        while self.current_token.is_term_op()
            invariant
                grammar::term_rest(node@, self@) == grammar::term(old(self)@),
                progressed(old(self)@, self@),
            decreases measure(self@),
        {
            let op = self.current_token();
            match self.skip() {
                Ok(()) => {},
                Err(e) => {
                    return Err(e);
                },
            }
            let right_node = match self.term() {
                Ok(right_node) => right_node,
                Err(e) => {
                    return Err(e);
                },
            };
            node = Parser::binop(operator_of(&op), node, right_node);
        }
        Ok(node)
    }

    /// Parses an expression: terms joined by additive, comparison, boolean
    /// and modulo operators.
    pub fn binop_expr(&mut self) -> (r: Result<Expr, ParserError>)
        ensures
            parsed_as(r, final(self)@, grammar::binop_expr(old(self)@)),
            r is Ok ==> progressed(old(self)@, final(self)@),
        decreases measure(self@), 5nat,
    {
        let mut node = match self.term() {
            Ok(node) => node,
            Err(e) => {
                return Err(e);
            },
        };
        while self.current_token.is_expr_op()
            invariant
                grammar::expr_rest(node@, self@) == grammar::binop_expr(old(self)@),
                progressed(old(self)@, self@),
            decreases measure(self@),
        {
            let op = self.current_token();
            match self.skip() {
                Ok(()) => {},
                Err(e) => {
                    return Err(e);
                },
            }
            let right_node = match self.term() {
                Ok(right_node) => right_node,
                Err(e) => {
                    return Err(e);
                },
            };
            node = Parser::binop(operator_of(&op), node, right_node);
        }
        Ok(node)
    }

    /// Parses a statement: an expression, with the conditionals and
    /// assignments that follow it.
    pub fn statement(&mut self) -> (r: Result<Expr, ParserError>)
        ensures
            parsed_as(r, final(self)@, grammar::statement(old(self)@)),
            r is Ok ==> progressed(old(self)@, final(self)@),
        decreases measure(self@), 7nat,
    {
        let mut node = match self.binop_expr() {
            Ok(node) => node,
            Err(e) => {
                return Err(e);
            },
        };
        while self.current_token.is_statement_op()
            invariant
                grammar::statement_rest(node@, self@) == grammar::statement(old(self)@),
                progressed(old(self)@, self@),
            decreases measure(self@),
        {
            let op = self.current_token();
            match self.skip() {
                Ok(()) => {},
                Err(e) => {
                    return Err(e);
                },
            }
            node = match op {
                Token::Ternary => {
                    let e2 = match self.block() {
                        Ok(e2) => e2,
                        Err(e) => {
                            return Err(e);
                        },
                    };
                    match self.eat(Token::Else) {
                        Ok(()) => {},
                        Err(e) => {
                            return Err(e);
                        },
                    }
                    let e3 = match self.statement() {
                        Ok(e3) => e3,
                        Err(e) => {
                            return Err(e);
                        },
                    };
                    Parser::ternary(node, e2, e3)
                },
                _ => {
                    let e2 = match self.statement() {
                        Ok(e2) => e2,
                        Err(e) => {
                            return Err(e);
                        },
                    };
                    Parser::binop(BinOp::Assign, node, e2)
                },
            };
        }
        Ok(node)
    }

    /// Parses a block: statements joined by `;`.
    pub fn block(&mut self) -> (r: Result<Expr, ParserError>)
        ensures
            parsed_as(r, final(self)@, grammar::block(old(self)@)),
            r is Ok ==> progressed(old(self)@, final(self)@),
        decreases measure(self@), 9nat,
    {
        let mut node = match self.statement() {
            Ok(node) => node,
            Err(e) => {
                return Err(e);
            },
        };
        while self.current_token.is_block_op()
            invariant
                grammar::block_rest(node@, self@) == grammar::block(old(self)@),
                progressed(old(self)@, self@),
            decreases measure(self@),
        {
            match self.skip() {
                Ok(()) => {},
                Err(e) => {
                    return Err(e);
                },
            }
            let e2 = if self.current_token() == Token::RBracket {
                Expr::Undefined
            } else {
                match self.statement() {
                    Ok(e2) => e2,
                    Err(e) => {
                        return Err(e);
                    },
                }
            };
            node = Parser::binop(BinOp::Sequence, node, e2);
        }
        Ok(node)
    }

    /// Parses a program: a block.
    pub fn program(&mut self) -> (r: Result<Expr, ParserError>)
        ensures
            parsed_as(r, final(self)@, grammar::program(old(self)@)),
    {
        self.block()
    }
}

/// Parses a text into the tree of the program that it is.
pub fn parse(input: &str) -> (r: Result<Expr, ParserError>)
    ensures
        match grammar::parse(input@) {
            Ok(t) => r is Ok && r->Ok_0@ == t,
            Err(e) => r is Err && r->Err_0@ == e,
        },
{
    let mut lexer = Lexer::new(String::from_str(input));
    let token = match lexer.get_next_token() {
        Ok(token) => token,
        Err(e) => {
            return Err(ParserError::LexerError(e));
        },
    };
    let mut parser = Parser::new(lexer, token);
    parser.program()
}

} // verus!
