use vstd::prelude::*;
use crate::expr::{BinOp, Dec, Term, UnOp};
use crate::parser::cursor::{
    advance, eat, kept, lemma_eat_moves, measure, moved, Cursor, Failure, Parsed, ParsedList,
};
use crate::parser::lexer::next_token;
use crate::parser::parser_error::ParserErrorView;
use crate::parser::token::TokenView;

verus! {

broadcast use lemma_eat_moves;

/// The operator that a token between two operands stands for.
pub open spec fn operator(t: TokenView) -> BinOp {
    match t {
        TokenView::Times => BinOp::Times,
        TokenView::Div => BinOp::Div,
        TokenView::Plus => BinOp::Plus,
        TokenView::Minus => BinOp::Minus,
        TokenView::Eq => BinOp::Eq,
        TokenView::Ne => BinOp::Ne,
        TokenView::Leq => BinOp::Leq,
        TokenView::Geq => BinOp::Geq,
        TokenView::Lt => BinOp::Lt,
        TokenView::Gt => BinOp::Gt,
        TokenView::And => BinOp::And,
        TokenView::Or => BinOp::Or,
        TokenView::Mod => BinOp::Mod,
        TokenView::Assign => BinOp::Assign,
        _ => BinOp::Sequence,
    }
}

/// A node of two operands.
pub open spec fn binop(op: BinOp, left: Term, right: Term) -> Term {
    Term::Bop(op, Box::new(left), Box::new(right))
}

/// A conditional node.
pub open spec fn ternary(cond: Term, yes: Term, no: Term) -> Term {
    Term::Ternary(Box::new(cond), Box::new(yes), Box::new(no))
}

/// The parameter names of a function literal, up to the closing parenthesis:
/// names, with commas anywhere between them.
pub open spec fn decl_params(c: Cursor, names: Seq<Term>) -> ParsedList
    decreases measure(c),
{
    match c.token {
        TokenView::RParen => Ok((names, c)),
        TokenView::Var(x) => match advance(c) {
            Ok(c1) => decl_params(c1, names.push(Term::Var(x))),
            Err(e) => Err(e),
        },
        TokenView::Comma => match advance(c) {
            Ok(c1) => decl_params(c1, names),
            Err(e) => Err(e),
        },
        _ => Err((ParserErrorView::InvalidToken(c.token, "parsing fn decl params"@), c)),
    }
}

/// The arguments of a call, up to the closing parenthesis: expressions, each
/// with an optional comma after it. The text may not end before the
/// parenthesis.
pub open spec fn call_args(c: Cursor, args: Seq<Term>) -> ParsedList
    decreases measure(c), 6nat,
{
    if c.token is RParen {
        Ok((args, c))
    } else if c.token is EOF {
        Err((ParserErrorView::UnexpectedToken(TokenView::RParen, TokenView::EOF), c))
    } else {
        match moved(binop_expr(c), c) {
            Err(e) => Err(e),
            Ok((arg, c1)) => if c1.token is Comma {
                match advance(c1) {
                    Ok(c2) => call_args(c2, args.push(arg)),
                    Err(e) => Err(e),
                }
            } else {
                call_args(c1, args.push(arg))
            },
        }
    }
}

/// A print statement: the keyword and the expression to print.
pub open spec fn print(c: Cursor) -> Parsed
    decreases measure(c), 0nat,
{
    match eat(c, TokenView::Print) {
        Err(e) => Err(e),
        Ok(c1) => match binop_expr(c1) {
            Ok((e, c2)) => Ok((Term::Print(Box::new(e)), c2)),
            Err(e) => Err(e),
        },
    }
}

/// A statement that prints a variable's name: the keyword and the name in
/// parentheses.
pub open spec fn print_name(c: Cursor) -> Parsed {
    match eat(c, TokenView::PrintVarName) {
        Err(e) => Err(e),
        Ok(c1) => match eat(c1, TokenView::LParen) {
            Err(e) => Err(e),
            Ok(c2) => match c2.token {
                TokenView::Var(x) => match advance(c2) {
                    Err(e) => Err(e),
                    Ok(c3) => match eat(c3, TokenView::RParen) {
                        Err(e) => Err(e),
                        Ok(c4) => Ok((Term::PrintVarName(Box::new(Term::Var(x))), c4)),
                    },
                },
                _ => Err(
                    (
                        ParserErrorView::InvalidToken(c2.token, "parsing name for PrintVarName"@),
                        c2,
                    ),
                ),
            },
        },
    }
}

/// What follows the body of a function literal. A named function is declared
/// immutably, under its name, for the block that follows the `;`. A function
/// without a name is a value, or is called on the spot where an argument list
/// follows it.
pub open spec fn function_tail(
    name: Option<Term>,
    params: Seq<Term>,
    body: Term,
    c: Cursor,
) -> Parsed
    decreases measure(c), 7nat,
{
    match name {
        Some(v) => match eat(c, TokenView::Sequence) {
            Err(e) => Err(e),
            Ok(c1) => match block(c1) {
                Err(e) => Err(e),
                Ok((rest, c2)) => Ok(
                    (
                        Term::Decl(
                            Dec::DConst,
                            Box::new(v),
                            Box::new(Term::Func(Some(Box::new(v)), Box::new(body), params)),
                            Box::new(rest),
                        ),
                        c2,
                    ),
                ),
            },
        },
        None => {
            let func = Term::Func(None, Box::new(body), params);
            if c.token is LParen {
                match advance(c) {
                    Err(e) => Err(e),
                    Ok(c1) => match call_args(c1, Seq::empty()) {
                        Err(e) => Err(e),
                        Ok((args, c2)) => match eat(c2, TokenView::RParen) {
                            Err(e) => Err(e),
                            Ok(c3) => Ok((Term::FnCall(Box::new(func), args), c3)),
                        },
                    },
                }
            } else {
                Ok((func, c))
            }
        },
    }
}

/// A function literal: the keyword, an optional name, the parameter names in
/// parentheses, the body in braces, and what follows the body.
pub open spec fn function(c: Cursor) -> Parsed
    decreases measure(c), 0nat,
{
    match eat(c, TokenView::FnDecl) {
        Err(e) => Err(e),
        Ok(c1) => {
            let named: Result<(Option<Term>, Cursor), Failure> = match c1.token {
                TokenView::Var(x) => match advance(c1) {
                    Ok(c2) => Ok((Some(Term::Var(x)), c2)),
                    Err(e) => Err(e),
                },
                _ => Ok((None, c1)),
            };
            match named {
                Err(e) => Err(e),
                Ok((name, c2)) => match eat(c2, TokenView::LParen) {
                    Err(e) => Err(e),
                    Ok(c3) => match kept(decl_params(c3, Seq::empty()), c3) {
                        Err(e) => Err(e),
                        Ok((params, c4)) => match eat(c4, TokenView::RParen) {
                            Err(e) => Err(e),
                            Ok(c5) => match eat(c5, TokenView::LBracket) {
                                Err(e) => Err(e),
                                Ok(c6) => match kept(block(c6), c6) {
                                    Err(e) => Err(e),
                                    Ok((body, c7)) => match eat(c7, TokenView::RBracket) {
                                        Err(e) => Err(e),
                                        Ok(c8) => function_tail(name, params, body, c8),
                                    },
                                },
                            },
                        },
                    },
                },
            }
        },
    }
}

/// A loop: the keyword, the condition in parentheses, the body, a `;` and the
/// block that follows the loop. The node holds the condition and the body
/// twice: once to work on, once as the template.
pub open spec fn while_loop(c: Cursor) -> Parsed
    decreases measure(c), 0nat,
{
    match eat(c, TokenView::While) {
        Err(e) => Err(e),
        Ok(c1) => match eat(c1, TokenView::LParen) {
            Err(e) => Err(e),
            Ok(c2) => match kept(statement(c2), c2) {
                Err(e) => Err(e),
                Ok((cond, c3)) => match eat(c3, TokenView::RParen) {
                    Err(e) => Err(e),
                    Ok(c4) => match kept(factor(c4), c4) {
                        Err(e) => Err(e),
                        Ok((body, c5)) => match eat(c5, TokenView::Sequence) {
                            Err(e) => Err(e),
                            Ok(c6) => match block(c6) {
                                Err(e) => Err(e),
                                Ok((after, c7)) => Ok(
                                    (
                                        Term::While(
                                            Box::new(cond),
                                            Box::new(cond),
                                            Box::new(body),
                                            Box::new(body),
                                            Box::new(after),
                                        ),
                                        c7,
                                    ),
                                ),
                            },
                        },
                    },
                },
            },
        },
    }
}

/// What follows the keyword of a conditional in words: the condition, the
/// block to take if it holds, and the statement to take if it does not.
pub open spec fn conditional(c: Cursor) -> Parsed
    decreases measure(c), 10nat,
{
    match kept(binop_expr(c), c) {
        Err(e) => Err(e),
        Ok((cond, c1)) => match kept(block(c1), c1) {
            Err(e) => Err(e),
            Ok((yes, c2)) => match statement(c2) {
                Err(e) => Err(e),
                Ok((no, c3)) => Ok((ternary(cond, yes, no), c3)),
            },
        },
    }
}

/// What follows the keyword of a declaration: the name, `=`, the
/// initializer, a `;` and the block in which the name is bound.
pub open spec fn declaration(kind: Dec, c: Cursor) -> Parsed
    decreases measure(c), 10nat,
{
    match kept(term(c), c) {
        Err(e) => Err(e),
        Ok((name, c1)) => match eat(c1, TokenView::Assign) {
            Err(e) => Err(e),
            Ok(c2) => match kept(statement(c2), c2) {
                Err(e) => Err(e),
                Ok((init, c3)) => match eat(c3, TokenView::Sequence) {
                    Err(e) => Err(e),
                    Ok(c4) => match block(c4) {
                        Err(e) => Err(e),
                        Ok((rest, c5)) => Ok(
                            (
                                Term::Decl(kind, Box::new(name), Box::new(init), Box::new(rest)),
                                c5,
                            ),
                        ),
                    },
                },
            },
        },
    }
}

/// A name, or the call of the function of that name where an argument list
/// follows it.
pub open spec fn name_or_call(x: Seq<char>, c: Cursor) -> Parsed
    decreases measure(c), 7nat,
{
    if c.token is LParen {
        match advance(c) {
            Err(e) => Err(e),
            Ok(c1) => match call_args(c1, Seq::empty()) {
                Err(e) => Err(e),
                Ok((args, c2)) => match eat(c2, TokenView::RParen) {
                    Err(e) => Err(e),
                    Ok(c3) => Ok((Term::FnCall(Box::new(Term::Var(x)), args), c3)),
                },
            },
        }
    } else {
        Ok((Term::Var(x), c))
    }
}

/// A factor: a literal, a name or a call, a keyword form, a parenthesized
/// statement, a block in braces, or a factor under `!` or `-`. At the end of
/// the text a factor is the undefined value.
pub open spec fn factor(c: Cursor) -> Parsed
    decreases measure(c), 1nat,
{
    match c.token {
        TokenView::Int(n) => match advance(c) {
            Ok(c1) => Ok((Term::Int(n), c1)),
            Err(e) => Err(e),
        },
        TokenView::Bool(b) => match advance(c) {
            Ok(c1) => Ok((Term::Bool(b), c1)),
            Err(e) => Err(e),
        },
        TokenView::Var(x) => match advance(c) {
            Ok(c1) => name_or_call(x, c1),
            Err(e) => Err(e),
        },
        TokenView::Print => print(c),
        TokenView::PrintVarName => print_name(c),
        TokenView::FnDecl => function(c),
        TokenView::VarDecl => match advance(c) {
            Ok(c1) => declaration(Dec::DVar, c1),
            Err(e) => Err(e),
        },
        TokenView::Let => match advance(c) {
            Ok(c1) => declaration(Dec::DConst, c1),
            Err(e) => Err(e),
        },
        TokenView::If => match advance(c) {
            Ok(c1) => conditional(c1),
            Err(e) => Err(e),
        },
        TokenView::Rebattle => match advance(c) {
            Ok(c1) => conditional(c1),
            Err(e) => Err(e),
        },
        TokenView::Else => match advance(c) {
            Ok(c1) => statement(c1),
            Err(e) => Err(e),
        },
        TokenView::While => while_loop(c),
        TokenView::LParen => match advance(c) {
            Err(e) => Err(e),
            Ok(c1) => match statement(c1) {
                Err(e) => Err(e),
                Ok((node, c2)) => match eat(c2, TokenView::RParen) {
                    Ok(c3) => Ok((node, c3)),
                    Err(e) => Err(e),
                },
            },
        },
        TokenView::LBracket => match advance(c) {
            Err(e) => Err(e),
            Ok(c1) => match block(c1) {
                Err(e) => Err(e),
                Ok((node, c2)) => match eat(c2, TokenView::RBracket) {
                    Ok(c3) => Ok((node, c3)),
                    Err(e) => Err(e),
                },
            },
        },
        TokenView::Not => match advance(c) {
            Err(e) => Err(e),
            Ok(c1) => match factor(c1) {
                Ok((e, c2)) => Ok((Term::Uop(UnOp::Not, Box::new(e)), c2)),
                Err(e) => Err(e),
            },
        },
        TokenView::Minus => match advance(c) {
            Err(e) => Err(e),
            Ok(c1) => match factor(c1) {
                Ok((e, c2)) => Ok((Term::Uop(UnOp::Neg, Box::new(e)), c2)),
                Err(e) => Err(e),
            },
        },
        TokenView::EOF => match advance(c) {
            Ok(c1) => Ok((Term::Undefined, c1)),
            Err(e) => Err(e),
        },
        _ => Err((ParserErrorView::InvalidToken(c.token, "parsing factor"@), c)),
    }
}

/// The factors that follow `node`, each after `*` or `/`; what stands right
/// of such an operator is a whole term.
pub open spec fn term_rest(node: Term, c: Cursor) -> Parsed
    decreases measure(c), 2nat,
{
    if c.token.is_term_op() {
        match advance(c) {
            Err(e) => Err(e),
            Ok(c1) => match kept(term(c1), c1) {
                Err(e) => Err(e),
                Ok((right, c2)) => term_rest(binop(operator(c.token), node, right), c2),
            },
        }
    } else {
        Ok((node, c))
    }
}

/// A term: factors joined by `*` and `/`.
pub open spec fn term(c: Cursor) -> Parsed
    decreases measure(c), 3nat,
{
    match kept(factor(c), c) {
        Err(e) => Err(e),
        Ok((node, c1)) => term_rest(node, c1),
    }
}

/// The terms that follow `node`, each after an additive, comparison, boolean
/// or modulo operator; these operators have one precedence and associate to
/// the left.
pub open spec fn expr_rest(node: Term, c: Cursor) -> Parsed
    decreases measure(c), 4nat,
{
    if c.token.is_expr_op() {
        match advance(c) {
            Err(e) => Err(e),
            Ok(c1) => match kept(term(c1), c1) {
                Err(e) => Err(e),
                Ok((right, c2)) => expr_rest(binop(operator(c.token), node, right), c2),
            },
        }
    } else {
        Ok((node, c))
    }
}

/// An expression: terms joined by operators.
pub open spec fn binop_expr(c: Cursor) -> Parsed
    decreases measure(c), 5nat,
{
    match kept(term(c), c) {
        Err(e) => Err(e),
        Ok((node, c1)) => expr_rest(node, c1),
    }
}

/// What follows `node` in a statement: `?` with the two branches of a
/// conditional, or `=` with the statement to assign.
pub open spec fn statement_rest(node: Term, c: Cursor) -> Parsed
    decreases measure(c), 6nat,
{
    match c.token {
        TokenView::Ternary => match advance(c) {
            Err(e) => Err(e),
            Ok(c1) => match kept(block(c1), c1) {
                Err(e) => Err(e),
                Ok((yes, c2)) => match eat(c2, TokenView::Else) {
                    Err(e) => Err(e),
                    Ok(c3) => match kept(statement(c3), c3) {
                        Err(e) => Err(e),
                        Ok((no, c4)) => statement_rest(ternary(node, yes, no), c4),
                    },
                },
            },
        },
        TokenView::Assign => match advance(c) {
            Err(e) => Err(e),
            Ok(c1) => match kept(statement(c1), c1) {
                Err(e) => Err(e),
                Ok((value, c2)) => statement_rest(binop(BinOp::Assign, node, value), c2),
            },
        },
        _ => Ok((node, c)),
    }
}

/// A statement: an expression, with what follows it.
pub open spec fn statement(c: Cursor) -> Parsed
    decreases measure(c), 7nat,
{
    match kept(binop_expr(c), c) {
        Err(e) => Err(e),
        Ok((node, c1)) => statement_rest(node, c1),
    }
}

/// The statements that follow `node`, each after a `;`. A `;` right before a
/// closing brace is followed by the undefined value.
pub open spec fn block_rest(node: Term, c: Cursor) -> Parsed
    decreases measure(c), 8nat,
{
    if c.token.is_block_op() {
        match advance(c) {
            Err(e) => Err(e),
            Ok(c1) => if c1.token is RBracket {
                block_rest(binop(BinOp::Sequence, node, Term::Undefined), c1)
            } else {
                match kept(statement(c1), c1) {
                    Err(e) => Err(e),
                    Ok((next, c2)) => block_rest(binop(BinOp::Sequence, node, next), c2),
                }
            },
        }
    } else {
        Ok((node, c))
    }
}

/// A block: statements joined by `;`.
pub open spec fn block(c: Cursor) -> Parsed
    decreases measure(c), 9nat,
{
    match kept(statement(c), c) {
        Err(e) => Err(e),
        Ok((node, c1)) => block_rest(node, c1),
    }
}

/// A program: a block. What follows the block in the text is not looked at.
pub open spec fn program(c: Cursor) -> Parsed {
    block(c)
}

/// The program that a text is: the tree of its leading block, or the first
/// lexical or syntactic failure.
pub open spec fn parse(input: Seq<char>) -> Result<Term, ParserErrorView> {
    match next_token(input) {
        (Err(e), _) => Err(ParserErrorView::LexerError(e)),
        (Ok(token), rest) => match program(Cursor { token, text: rest }) {
            Ok((e, _)) => Ok(e),
            Err((e, _)) => Err(e),
        },
    }
}

} // verus!
