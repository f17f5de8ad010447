use vstd::prelude::*;
use crate::expr::Term;
use crate::parser::lexer::{lemma_line_rest, lemma_run_lengths, next_token, symbol};
use crate::parser::parser_error::ParserErrorView;
use crate::parser::token::TokenView;

verus! {

/// Where a parser stands: the token it looks at, and the text after that token.
pub struct Cursor {
    pub token: TokenView,
    pub text: Seq<char>,
}

/// A failure of the parser, with the cursor at which it stopped.
pub type Failure = (ParserErrorView, Cursor);

/// What a parse yields: the tree with the cursor after it, or a failure.
pub type Parsed = Result<(Term, Cursor), Failure>;

/// What the parse of a list yields.
pub type ParsedList = Result<(Seq<Term>, Cursor), Failure>;

/// How much is left to read: the characters of the text, and the token looked
/// at unless that is the end of the text.
pub open spec fn measure(c: Cursor) -> nat {
    if c.token is EOF {
        c.text.len()
    } else {
        c.text.len() + 1
    }
}

/// The cursor after the token looked at, which has to be the expected one.
/// Another token stops the parser where it is; a lexical failure stops it at
/// the same token, with the text where the lexer left it.
pub open spec fn eat(c: Cursor, expected: TokenView) -> Result<Cursor, Failure> {
    if expected != c.token {
        Err((ParserErrorView::UnexpectedToken(expected, c.token), c))
    } else {
        match next_token(c.text) {
            (Ok(token), rest) => Ok(Cursor { token, text: rest }),
            (Err(e), rest) => Err(
                (ParserErrorView::LexerError(e), Cursor { token: c.token, text: rest }),
            ),
        }
    }
}

/// The cursor after the token looked at.
pub open spec fn advance(c: Cursor) -> Result<Cursor, Failure> {
    eat(c, c.token)
}

/// The parse `r`, made from the cursor `from`, as long as it left no more to
/// read than it found. Every parse of the grammar does, so this is `r` itself
/// (`progress::grammar_never_moves_backwards`); saying so here is what lets the
/// definition of the grammar recurse on what a parse left.
pub open spec fn kept<T>(r: Result<(T, Cursor), Failure>, from: Cursor) -> Result<
    (T, Cursor),
    Failure,
> {
    match r {
        Ok((_, c)) => if measure(c) <= measure(from) {
            r
        } else {
            Err((ParserErrorView::InvalidToken(c.token, Seq::empty()), c))
        },
        Err(_) => r,
    }
}

/// The parse `r`, made from the cursor `from`, as long as it left less to read
/// than it found. A parse that does not start at the end of the text does,
/// so there this is `r` itself.
pub open spec fn moved<T>(r: Result<(T, Cursor), Failure>, from: Cursor) -> Result<
    (T, Cursor),
    Failure,
> {
    match r {
        Ok((_, c)) => if measure(c) < measure(from) {
            r
        } else {
            Err((ParserErrorView::InvalidToken(c.token, Seq::empty()), c))
        },
        Err(_) => r,
    }
}

/// Whether a parse that took the cursor from `before` to `after` left no more
/// to read than it found, and less unless it started at the end of the text.
pub open spec fn progressed(before: Cursor, after: Cursor) -> bool {
    &&& measure(after) <= measure(before)
    &&& !(before.token is EOF) ==> measure(after) < measure(before)
}

/// Whether the parse `r`, made from the cursor `from`, left no more to read
/// than it found. A failure leaves nothing to ask.
pub open spec fn keeps<T>(r: Result<(T, Cursor), Failure>, from: Cursor) -> bool {
    match r {
        Ok((_, c)) => measure(c) <= measure(from),
        Err(_) => true,
    }
}

/// Whether the parse `r`, made from the cursor `from`, left no more to read
/// than it found, and less unless it started at the end of the text.
pub open spec fn progresses<T>(r: Result<(T, Cursor), Failure>, from: Cursor) -> bool {
    match r {
        Ok((_, c)) => progressed(from, c),
        Err(_) => true,
    }
}

/// What lexing leaves is shorter than the text, unless the text is at its
/// end; and the token `EOF` comes only with nothing left.
pub proof fn lemma_next_token_consumes(s: Seq<char>)
    ensures
        next_token(s).1.len() <= s.len(),
        next_token(s).0 is Ok && !(next_token(s).0->Ok_0 is EOF) ==> next_token(s).1.len()
            < s.len(),
        next_token(s).0 is Ok && next_token(s).0->Ok_0 is EOF ==> next_token(s).1.len() == 0,
    decreases s.len(),
{
    if s.len() == 0 {
    } else if s[0] == '/' && s.len() >= 2 && s[1] == '/' {
        lemma_line_rest(s.skip(2));
        lemma_next_token_consumes(crate::parser::lexer::line_rest(s.skip(2)));
    } else if s[0] == '/' && s.len() >= 2 && s[1] == '*' {
        lemma_next_token_consumes(s.skip(2));
    } else {
        lemma_run_lengths(s);
        match symbol(s) {
            Some(_) => {},
            None => {
                if crate::parser::lexer::alphabetic(s[0]) {
                } else if crate::parser::lexer::is_digit(s[0]) {
                } else if crate::parser::lexer::whitespace(s[0]) {
                    lemma_next_token_consumes(
                        s.skip(crate::parser::lexer::blank_length(s) as int),
                    );
                }
            },
        }
    }
}

/// Eating a token other than the end of the text leaves less to read; eating
/// the end of the text leaves nothing.
pub broadcast proof fn lemma_eat_moves(c: Cursor, expected: TokenView)
    ensures
        #![trigger eat(c, expected)]
        eat(c, expected) is Ok ==> measure(eat(c, expected)->Ok_0) <= measure(c),
        eat(c, expected) is Ok && !(expected is EOF) ==> measure(eat(c, expected)->Ok_0) < measure(
            c,
        ),
{
    lemma_next_token_consumes(c.text);
}

} // verus!
