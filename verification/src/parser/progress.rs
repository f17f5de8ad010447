use vstd::prelude::*;
use crate::expr::{BinOp, Dec, Term};
use crate::parser::cursor::{
    advance, eat, keeps, kept, lemma_eat_moves, measure, moved, progresses, Cursor,
};
use crate::parser::grammar::{
    binop, binop_expr, block, block_rest, call_args, conditional, decl_params, declaration,
    expr_rest, factor, function, function_tail, name_or_call, operator, print, print_name,
    statement, statement_rest, term, term_rest, ternary, while_loop,
};
use crate::parser::cursor::{Parsed, ParsedList};
use crate::parser::token::TokenView;
use crate::scoping::clean;

verus! {

broadcast use lemma_eat_moves;

/// Whether every tree of the list is clean.
pub open spec fn all_clean(list: Seq<Term>) -> bool {
    forall|i: int| 0 <= i < list.len() ==> clean(#[trigger] list[i])
}

/// Whether the tree that a parse yields, if it yields one, is clean.
pub open spec fn yields_clean(r: Parsed) -> bool {
    match r {
        Ok((t, _)) => clean(t),
        Err(_) => true,
    }
}

/// Whether the trees that the parse of a list yields, if it yields any, are
/// clean.
pub open spec fn yields_all_clean(r: ParsedList) -> bool {
    match r {
        Ok((list, _)) => all_clean(list),
        Err(_) => true,
    }
}

/// The list of parameter names leaves no more to read than it found.
pub proof fn lemma_decl_params_keeps(c: Cursor, names: Seq<Term>)
    requires
        all_clean(names),
    ensures
        keeps(decl_params(c, names), c),
        yields_all_clean(decl_params(c, names)),
    decreases measure(c),
{
    match c.token {
        TokenView::Var(x) => match advance(c) {
            Ok(c1) => lemma_decl_params_keeps(c1, names.push(Term::Var(x))),
            Err(_) => {},
        },
        TokenView::Comma => match advance(c) {
            Ok(c1) => lemma_decl_params_keeps(c1, names),
            Err(_) => {},
        },
        _ => {},
    }
}

/// The list of arguments leaves no more to read than it found.
pub proof fn lemma_call_args_keeps(c: Cursor, args: Seq<Term>)
    requires
        all_clean(args),
    ensures
        keeps(call_args(c, args), c),
        yields_all_clean(call_args(c, args)),
    decreases measure(c), 6nat,
{
    if !(c.token is RParen) && !(c.token is EOF) {
        lemma_binop_expr_progresses(c);
        match moved(binop_expr(c), c) {
            Err(_) => {},
            Ok((arg, c1)) => if c1.token is Comma {
                match advance(c1) {
                    Ok(c2) => lemma_call_args_keeps(c2, args.push(arg)),
                    Err(_) => {},
                }
            } else {
                lemma_call_args_keeps(c1, args.push(arg))
            },
        }
    }
}

/// A print statement takes at least its keyword.
pub proof fn lemma_print_progresses(c: Cursor)
    ensures
        progresses(print(c), c),
        yields_clean(print(c)),
    decreases measure(c), 0nat,
{
    match eat(c, TokenView::Print) {
        Err(_) => {},
        Ok(c1) => lemma_binop_expr_progresses(c1),
    }
}

/// A statement that prints a name takes at least its keyword.
pub proof fn lemma_print_name_progresses(c: Cursor)
    ensures
        progresses(print_name(c), c),
        yields_clean(print_name(c)),
{
    match print_name(c) {
        Ok((Term::PrintVarName(name), _)) => {
            assert(clean(*name));
        },
        _ => {},
    }
}

/// What follows the body of a function leaves no more to read than it found.
pub proof fn lemma_function_tail_keeps(
    name: Option<Term>,
    params: Seq<Term>,
    body: Term,
    c: Cursor,
)
    requires
        name is Some ==> clean(name->0),
        all_clean(params),
        clean(body),
    ensures
        keeps(function_tail(name, params, body, c), c),
        yields_clean(function_tail(name, params, body, c)),
    decreases measure(c), 7nat,
{
    match name {
        Some(v) => {
            let func = Term::Func(Some(Box::new(v)), Box::new(body), params);
            assert(clean(func));
            match eat(c, TokenView::Sequence) {
                Err(_) => {},
                Ok(c1) => {
                    lemma_block_progresses(c1);
                    match block(c1) {
                        Ok((rest, _)) => {
                            assert(clean(
                                Term::Decl(
                                    Dec::DConst,
                                    Box::new(v),
                                    Box::new(func),
                                    Box::new(rest),
                                ),
                            ));
                        },
                        Err(_) => {},
                    }
                },
            }
        },
        None => {
            let func = Term::Func(None, Box::new(body), params);
            assert(clean(func));
            if c.token is LParen {
                match advance(c) {
                    Err(_) => {},
                    Ok(c1) => {
                        lemma_call_args_keeps(c1, Seq::empty());
                        match call_args(c1, Seq::empty()) {
                            Ok((args, _)) => {
                                assert(clean(Term::FnCall(Box::new(func), args)));
                            },
                            Err(_) => {},
                        }
                    },
                }
            }
        },
    }
}

/// A function literal takes at least its keyword.
pub proof fn lemma_function_progresses(c: Cursor)
    ensures
        progresses(function(c), c),
        yields_clean(function(c)),
    decreases measure(c), 0nat,
{
    match eat(c, TokenView::FnDecl) {
        Err(_) => {},
        Ok(c1) => {
            let named: Result<(Option<Term>, Cursor), crate::parser::cursor::Failure> =
                match c1.token {
                TokenView::Var(x) => match advance(c1) {
                    Ok(c2) => Ok((Some(Term::Var(x)), c2)),
                    Err(e) => Err(e),
                },
                _ => Ok((None, c1)),
            };
            match named {
                Err(_) => {},
                Ok((name, c2)) => match eat(c2, TokenView::LParen) {
                    Err(_) => {},
                    Ok(c3) => {
                        lemma_decl_params_keeps(c3, Seq::empty());
                        match kept(decl_params(c3, Seq::empty()), c3) {
                            Err(_) => {},
                            Ok((params, c4)) => match eat(c4, TokenView::RParen) {
                                Err(_) => {},
                                Ok(c5) => match eat(c5, TokenView::LBracket) {
                                    Err(_) => {},
                                    Ok(c6) => {
                                        lemma_block_progresses(c6);
                                        match kept(block(c6), c6) {
                                            Err(_) => {},
                                            Ok((body, c7)) => match eat(c7, TokenView::RBracket) {
                                                Err(_) => {},
                                                Ok(c8) => lemma_function_tail_keeps(
                                                    name,
                                                    params,
                                                    body,
                                                    c8,
                                                ),
                                            },
                                        }
                                    },
                                },
                            },
                        }
                    },
                },
            }
        },
    }
}

/// A loop takes at least its keyword.
pub proof fn lemma_while_loop_progresses(c: Cursor)
    ensures
        progresses(while_loop(c), c),
        yields_clean(while_loop(c)),
    decreases measure(c), 0nat,
{
    match eat(c, TokenView::While) {
        Err(_) => {},
        Ok(c1) => match eat(c1, TokenView::LParen) {
            Err(_) => {},
            Ok(c2) => {
                lemma_statement_progresses(c2);
                match kept(statement(c2), c2) {
                    Err(_) => {},
                    Ok((_, c3)) => match eat(c3, TokenView::RParen) {
                        Err(_) => {},
                        Ok(c4) => {
                            lemma_factor_progresses(c4);
                            match kept(factor(c4), c4) {
                                Err(_) => {},
                                Ok((_, c5)) => match eat(c5, TokenView::Sequence) {
                                    Err(_) => {},
                                    Ok(c6) => lemma_block_progresses(c6),
                                },
                            }
                        },
                    },
                }
            },
        },
    }
}

/// What follows the keyword of a conditional in words takes at least a token.
pub proof fn lemma_conditional_progresses(c: Cursor)
    ensures
        progresses(conditional(c), c),
        yields_clean(conditional(c)),
    decreases measure(c), 10nat,
{
    lemma_binop_expr_progresses(c);
    match kept(binop_expr(c), c) {
        Err(_) => {},
        Ok((_, c1)) => {
            lemma_block_progresses(c1);
            match kept(block(c1), c1) {
                Err(_) => {},
                Ok((_, c2)) => lemma_statement_progresses(c2),
            }
        },
    }
}

/// What follows the keyword of a declaration takes at least a token.
pub proof fn lemma_declaration_progresses(kind: Dec, c: Cursor)
    ensures
        progresses(declaration(kind, c), c),
        yields_clean(declaration(kind, c)),
    decreases measure(c), 10nat,
{
    lemma_term_progresses(c);
    match kept(term(c), c) {
        Err(_) => {},
        Ok((_, c1)) => match eat(c1, TokenView::Assign) {
            Err(_) => {},
            Ok(c2) => {
                lemma_statement_progresses(c2);
                match kept(statement(c2), c2) {
                    Err(_) => {},
                    Ok((_, c3)) => match eat(c3, TokenView::Sequence) {
                        Err(_) => {},
                        Ok(c4) => lemma_block_progresses(c4),
                    },
                }
            },
        },
    }
}

/// What may follow a name leaves no more to read than it found.
pub proof fn lemma_name_or_call_keeps(x: Seq<char>, c: Cursor)
    ensures
        keeps(name_or_call(x, c), c),
        yields_clean(name_or_call(x, c)),
    decreases measure(c), 7nat,
{
    if c.token is LParen {
        match advance(c) {
            Err(_) => {},
            Ok(c1) => {
                lemma_call_args_keeps(c1, Seq::empty());
                match call_args(c1, Seq::empty()) {
                    Ok((args, _)) => {
                        assert(clean(Term::Var(x)));
                        assert(clean(Term::FnCall(Box::new(Term::Var(x)), args)));
                    },
                    Err(_) => {},
                }
            },
        }
    }
}

/// A factor takes at least a token, unless it stands at the end of the text.
pub proof fn lemma_factor_progresses(c: Cursor)
    ensures
        progresses(factor(c), c),
        yields_clean(factor(c)),
    decreases measure(c), 1nat,
{
    match c.token {
        TokenView::Var(x) => match advance(c) {
            Ok(c1) => lemma_name_or_call_keeps(x, c1),
            Err(_) => {},
        },
        TokenView::Print => lemma_print_progresses(c),
        TokenView::PrintVarName => lemma_print_name_progresses(c),
        TokenView::FnDecl => lemma_function_progresses(c),
        TokenView::VarDecl => match advance(c) {
            Ok(c1) => lemma_declaration_progresses(Dec::DVar, c1),
            Err(_) => {},
        },
        TokenView::Let => match advance(c) {
            Ok(c1) => lemma_declaration_progresses(Dec::DConst, c1),
            Err(_) => {},
        },
        TokenView::If => match advance(c) {
            Ok(c1) => lemma_conditional_progresses(c1),
            Err(_) => {},
        },
        TokenView::Rebattle => match advance(c) {
            Ok(c1) => lemma_conditional_progresses(c1),
            Err(_) => {},
        },
        TokenView::Else => match advance(c) {
            Ok(c1) => lemma_statement_progresses(c1),
            Err(_) => {},
        },
        TokenView::While => lemma_while_loop_progresses(c),
        TokenView::LParen => match advance(c) {
            Ok(c1) => lemma_statement_progresses(c1),
            Err(_) => {},
        },
        TokenView::LBracket => match advance(c) {
            Ok(c1) => lemma_block_progresses(c1),
            Err(_) => {},
        },
        TokenView::Not => match advance(c) {
            Ok(c1) => lemma_factor_progresses(c1),
            Err(_) => {},
        },
        TokenView::Minus => match advance(c) {
            Ok(c1) => lemma_factor_progresses(c1),
            Err(_) => {},
        },
        _ => {},
    }
}

/// The factors that follow a node leave no more to read than was found.
pub proof fn lemma_term_rest_keeps(node: Term, c: Cursor)
    requires
        clean(node),
    ensures
        keeps(term_rest(node, c), c),
        yields_clean(term_rest(node, c)),
    decreases measure(c), 2nat,
{
    if c.token.is_term_op() {
        match advance(c) {
            Err(_) => {},
            Ok(c1) => {
                lemma_term_progresses(c1);
                match kept(term(c1), c1) {
                    Err(_) => {},
                    Ok((right, c2)) => lemma_term_rest_keeps(
                        binop(operator(c.token), node, right),
                        c2,
                    ),
                }
            },
        }
    }
}

/// A term takes at least a token, unless it stands at the end of the text.
pub proof fn lemma_term_progresses(c: Cursor)
    ensures
        progresses(term(c), c),
        yields_clean(term(c)),
    decreases measure(c), 3nat,
{
    lemma_factor_progresses(c);
    match kept(factor(c), c) {
        Err(_) => {},
        Ok((node, c1)) => lemma_term_rest_keeps(node, c1),
    }
}

/// The terms that follow a node leave no more to read than was found.
pub proof fn lemma_expr_rest_keeps(node: Term, c: Cursor)
    requires
        clean(node),
    ensures
        keeps(expr_rest(node, c), c),
        yields_clean(expr_rest(node, c)),
    decreases measure(c), 4nat,
{
    if c.token.is_expr_op() {
        match advance(c) {
            Err(_) => {},
            Ok(c1) => {
                lemma_term_progresses(c1);
                match kept(term(c1), c1) {
                    Err(_) => {},
                    Ok((right, c2)) => lemma_expr_rest_keeps(
                        binop(operator(c.token), node, right),
                        c2,
                    ),
                }
            },
        }
    }
}

/// An expression takes at least a token, unless it stands at the end of the
/// text.
pub proof fn lemma_binop_expr_progresses(c: Cursor)
    ensures
        progresses(binop_expr(c), c),
        yields_clean(binop_expr(c)),
    decreases measure(c), 5nat,
{
    lemma_term_progresses(c);
    match kept(term(c), c) {
        Err(_) => {},
        Ok((node, c1)) => lemma_expr_rest_keeps(node, c1),
    }
}

/// What follows a node in a statement leaves no more to read than was found.
pub proof fn lemma_statement_rest_keeps(node: Term, c: Cursor)
    requires
        clean(node),
    ensures
        keeps(statement_rest(node, c), c),
        yields_clean(statement_rest(node, c)),
    decreases measure(c), 6nat,
{
    match c.token {
        TokenView::Ternary => match advance(c) {
            Err(_) => {},
            Ok(c1) => {
                lemma_block_progresses(c1);
                match kept(block(c1), c1) {
                    Err(_) => {},
                    Ok((yes, c2)) => match eat(c2, TokenView::Else) {
                        Err(_) => {},
                        Ok(c3) => {
                            lemma_statement_progresses(c3);
                            match kept(statement(c3), c3) {
                                Err(_) => {},
                                Ok((no, c4)) => lemma_statement_rest_keeps(
                                    ternary(node, yes, no),
                                    c4,
                                ),
                            }
                        },
                    },
                }
            },
        },
        TokenView::Assign => match advance(c) {
            Err(_) => {},
            Ok(c1) => {
                lemma_statement_progresses(c1);
                match kept(statement(c1), c1) {
                    Err(_) => {},
                    Ok((value, c2)) => lemma_statement_rest_keeps(
                        binop(BinOp::Assign, node, value),
                        c2,
                    ),
                }
            },
        },
        _ => {},
    }
}

/// A statement takes at least a token, unless it stands at the end of the
/// text.
pub proof fn lemma_statement_progresses(c: Cursor)
    ensures
        progresses(statement(c), c),
        yields_clean(statement(c)),
    decreases measure(c), 7nat,
{
    lemma_binop_expr_progresses(c);
    match kept(binop_expr(c), c) {
        Err(_) => {},
        Ok((node, c1)) => lemma_statement_rest_keeps(node, c1),
    }
}

/// The statements that follow a node leave no more to read than was found.
pub proof fn lemma_block_rest_keeps(node: Term, c: Cursor)
    requires
        clean(node),
    ensures
        keeps(block_rest(node, c), c),
        yields_clean(block_rest(node, c)),
    decreases measure(c), 8nat,
{
    if c.token.is_block_op() {
        match advance(c) {
            Err(_) => {},
            Ok(c1) => if c1.token is RBracket {
                assert(clean(Term::Undefined));
                lemma_block_rest_keeps(binop(BinOp::Sequence, node, Term::Undefined), c1)
            } else {
                lemma_statement_progresses(c1);
                match kept(statement(c1), c1) {
                    Err(_) => {},
                    Ok((next, c2)) => lemma_block_rest_keeps(
                        binop(BinOp::Sequence, node, next),
                        c2,
                    ),
                }
            },
        }
    }
}

/// A block takes at least a token, unless it stands at the end of the text.
pub proof fn lemma_block_progresses(c: Cursor)
    ensures
        progresses(block(c), c),
        yields_clean(block(c)),
    decreases measure(c), 9nat,
{
    lemma_statement_progresses(c);
    match kept(statement(c), c) {
        Err(_) => {},
        Ok((node, c1)) => lemma_block_rest_keeps(node, c1),
    }
}

/// No parse moves backwards: wherever the grammar recurses on what a parse
/// left, that parse stands as it is.
pub proof fn grammar_never_moves_backwards(c: Cursor)
    ensures
        kept(factor(c), c) == factor(c),
        kept(term(c), c) == term(c),
        kept(binop_expr(c), c) == binop_expr(c),
        kept(statement(c), c) == statement(c),
        kept(block(c), c) == block(c),
        kept(decl_params(c, Seq::empty()), c) == decl_params(c, Seq::empty()),
        !(c.token is EOF) ==> moved(binop_expr(c), c) == binop_expr(c),
{
    lemma_factor_progresses(c);
    lemma_term_progresses(c);
    lemma_binop_expr_progresses(c);
    lemma_statement_progresses(c);
    lemma_block_progresses(c);
    lemma_decl_params_keeps(c, Seq::empty());
}

/// A program text holds no scope marker: the tree that parsing yields is
/// clean.
pub proof fn parsed_programs_are_clean(input: Seq<char>)
    ensures
        crate::parser::grammar::parse(input) is Ok ==> clean(
            crate::parser::grammar::parse(input)->Ok_0,
        ),
{
    match crate::parser::lexer::next_token(input) {
        (Ok(token), rest) => lemma_block_progresses(Cursor { token, text: rest }),
        (Err(_), _) => {},
    }
}

} // verus!
