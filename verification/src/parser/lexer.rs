use vstd::prelude::*;
use vstd::string::StringExecFns;
use crate::parser::lexer_error::{LexerError, LexerErrorView};
use crate::parser::token::{Token, TokenView};

verus! {

/// Whether the character is alphabetic: what `char::is_alphabetic` returns for it.
pub uninterp spec fn alphabetic(c: char) -> bool;

/// Whether the character is white space: what `char::is_whitespace` returns for it.
pub uninterp spec fn whitespace(c: char) -> bool;

/// The message for a character that starts no token: what formatting
/// `"unexpected char {:?}"` with the character yields.
pub uninterp spec fn unexpected_char_text(c: char) -> Seq<char>;

/// `char::is_alphabetic` depends on the character alone; its result is named
/// `alphabetic`, and nothing more is claimed of it.
pub assume_specification[ char::is_alphabetic ](c: char) -> (r: bool)
    ensures
        r == alphabetic(c),
;

/// `char::is_whitespace` depends on the character alone; its result is named
/// `whitespace`, and nothing more is claimed of it.
pub assume_specification[ char::is_whitespace ](c: char) -> (r: bool)
    ensures
        r == whitespace(c),
;

/// `String::push` appends the character to the end of the string.
pub assume_specification[ String::push ](s: &mut String, c: char)
    ensures
        final(s)@ == old(s)@.push(c),
;

/// Formats the message for a character that starts no token, with the
/// character in its debug notation. The result depends on the character
/// alone and is named `unexpected_char_text`.
#[verifier::external_body]
fn unexpected_char_message(c: char) -> (r: String)
    ensures
        r@ == unexpected_char_text(c),
{
    format!("unexpected char {:?}", c)
}

/// Whether the character is a decimal digit.
pub open spec fn is_digit(c: char) -> bool {
    '0' <= c <= '9'
}

/// Whether the character can stand in a word: a letter or an underscore.
pub open spec fn in_word(c: char) -> bool {
    alphabetic(c) || c == '_'
}

/// The number of characters at the start of the text that can stand in a word.
pub open spec fn word_length(s: Seq<char>) -> nat
    decreases s.len(),
{
    if s.len() > 0 && in_word(s[0]) {
        1 + word_length(s.skip(1))
    } else {
        0
    }
}

/// The number of decimal digits at the start of the text.
pub open spec fn digit_length(s: Seq<char>) -> nat
    decreases s.len(),
{
    if s.len() > 0 && is_digit(s[0]) {
        1 + digit_length(s.skip(1))
    } else {
        0
    }
}

/// The number of white-space characters at the start of the text.
pub open spec fn blank_length(s: Seq<char>) -> nat
    decreases s.len(),
{
    if s.len() > 0 && whitespace(s[0]) {
        1 + blank_length(s.skip(1))
    } else {
        0
    }
}

/// The text from its first line break on; the empty text if it has none.
pub open spec fn line_rest(s: Seq<char>) -> Seq<char>
    decreases s.len(),
{
    if s.len() == 0 || s[0] == '\n' {
        s
    } else {
        line_rest(s.skip(1))
    }
}

/// The number that a sequence of decimal digits denotes.
pub open spec fn digits_value(s: Seq<char>) -> nat
    decreases s.len(),
{
    if s.len() == 0 {
        0
    } else {
        (digits_value(s.drop_last()) * 10 + (s.last() as int - '0' as int)) as nat
    }
}

/// The token that a word is: a keyword, in either of its two spellings, a
/// boolean, a comparison in words, or else a name.
pub open spec fn keyword(word: Seq<char>) -> TokenView {
    if word == "true"@ || word == "win"@ {
        TokenView::Bool(true)
    } else if word == "false"@ || word == "lose"@ {
        TokenView::Bool(false)
    } else if word == "fn"@ || word == "attack"@ {
        TokenView::FnDecl
    } else if word == "let"@ || word == "pokeball"@ {
        TokenView::Let
    } else if word == "var"@ || word == "bike"@ {
        TokenView::VarDecl
    } else if word == "if"@ {
        TokenView::If
    } else if word == "rebattle"@ {
        TokenView::Rebattle
    } else if word == "else"@ || word == "run"@ {
        TokenView::Else
    } else if word == "while"@ || word == "defend"@ {
        TokenView::While
    } else if word == "print"@ || word == "pokedex"@ {
        TokenView::Print
    } else if word == "speak"@ {
        TokenView::PrintVarName
    } else if word == "draws"@ {
        TokenView::Eq
    } else if word == "beats"@ {
        TokenView::Gt
    } else if word == "survives"@ {
        TokenView::Geq
    } else {
        TokenView::Var(word)
    }
}

/// The operator or punctuation mark at the start of the text, with the
/// number of characters it takes. A two-character operator wins over its
/// first character alone.
pub open spec fn symbol(s: Seq<char>) -> Option<(TokenView, nat)> {
    if s.len() == 0 {
        None
    } else {
        let c = s[0];
        let pair = s.len() >= 2 && s[1] == '=';
        if c == '+' {
            Some((TokenView::Plus, 1nat))
        } else if c == '-' {
            Some((TokenView::Minus, 1nat))
        } else if c == '*' {
            Some((TokenView::Times, 1nat))
        } else if c == '/' {
            Some((TokenView::Div, 1nat))
        } else if c == '%' {
            Some((TokenView::Mod, 1nat))
        } else if c == '(' {
            Some((TokenView::LParen, 1nat))
        } else if c == ')' {
            Some((TokenView::RParen, 1nat))
        } else if c == '&' && s.len() >= 2 && s[1] == '&' {
            Some((TokenView::And, 2nat))
        } else if c == '|' && s.len() >= 2 && s[1] == '|' {
            Some((TokenView::Or, 2nat))
        } else if c == '=' {
            if pair {
                Some((TokenView::Eq, 2nat))
            } else {
                Some((TokenView::Assign, 1nat))
            }
        } else if c == '!' {
            if pair {
                Some((TokenView::Ne, 2nat))
            } else {
                Some((TokenView::Not, 1nat))
            }
        } else if c == '>' {
            if pair {
                Some((TokenView::Geq, 2nat))
            } else {
                Some((TokenView::Gt, 1nat))
            }
        } else if c == '<' {
            if pair {
                Some((TokenView::Leq, 2nat))
            } else {
                Some((TokenView::Lt, 1nat))
            }
        } else if c == ';' {
            Some((TokenView::Sequence, 1nat))
        } else if c == '?' {
            Some((TokenView::Ternary, 1nat))
        } else if c == ':' {
            Some((TokenView::Else, 1nat))
        } else if c == '{' {
            Some((TokenView::LBracket, 1nat))
        } else if c == '}' {
            Some((TokenView::RBracket, 1nat))
        } else if c == ',' {
            Some((TokenView::Comma, 1nat))
        } else {
            None
        }
    }
}

/// What lexing yields: the token or the failure, and the text that is left.
pub type Lexed = (Result<TokenView, LexerErrorView>, Seq<char>);

/// The word at the start of the text as a token, and the text after it.
pub open spec fn word_token(s: Seq<char>) -> Lexed {
    let n = word_length(s);
    if n == 0 {
        (Err(LexerErrorView::InvalidKeyword("invalid keyword \"\""@)), s)
    } else {
        (Ok(keyword(s.take(n as int))), s.skip(n as int))
    }
}

/// The number at the start of the text as a token, and the text after it.
/// A number too large for a machine integer is a failure that carries its
/// digits and leaves the text as it was.
pub open spec fn number_token(s: Seq<char>) -> Lexed {
    let n = digit_length(s);
    let value = digits_value(s.take(n as int));
    if n == 0 || value > isize::MAX {
        (Err(LexerErrorView::ParseInt(s.take(n as int))), s)
    } else {
        (Ok(TokenView::Int(value as int)), s.skip(n as int))
    }
}

/// The first token of the text and the text that follows it.
///
/// White space is skipped, and so is a comment from `//` to the end of its
/// line; of `/*` only the two characters are skipped. The end of the text is
/// the token `EOF`. A character that starts no token is a failure, and leaves
/// the text from that character on.
pub open spec fn next_token(s: Seq<char>) -> Lexed
    decreases s.len(),
    via next_token_decreases
{
    if s.len() == 0 {
        (Ok(TokenView::EOF), s)
    } else if s[0] == '/' && s.len() >= 2 && s[1] == '/' {
        next_token(line_rest(s.skip(2)))
    } else if s[0] == '/' && s.len() >= 2 && s[1] == '*' {
        next_token(s.skip(2))
    } else {
        match symbol(s) {
            Some((token, n)) => (Ok(token), s.skip(n as int)),
            None => if alphabetic(s[0]) {
                word_token(s)
            } else if is_digit(s[0]) {
                number_token(s)
            } else if whitespace(s[0]) {
                next_token(s.skip(blank_length(s) as int))
            } else {
                (Err(LexerErrorView::UnexpectedCharacter(unexpected_char_text(s[0]))), s)
            },
        }
    }
}

#[via_fn]
proof fn next_token_decreases(s: Seq<char>) {
    if s.len() > 0 {
        if s.len() >= 2 {
            lemma_line_rest(s.skip(2));
        }
        lemma_run_lengths(s);
    }
}

/// What is left of a line is a suffix of the text.
pub proof fn lemma_line_rest(s: Seq<char>)
    ensures
        line_rest(s).len() <= s.len(),
        line_rest(s) == s.skip(s.len() - line_rest(s).len()),
    decreases s.len(),
{
    if s.len() == 0 || s[0] == '\n' {
        assert(s.skip(0) =~= s);
    } else {
        lemma_line_rest(s.skip(1));
        let k = s.skip(1).len() - line_rest(s.skip(1)).len();
        assert(s.skip(1).skip(k) =~= s.skip(k + 1));
    }
}

/// A run at the start of a text is no longer than the text, and is not empty
/// where the first character belongs to it.
pub proof fn lemma_run_lengths(s: Seq<char>)
    ensures
        word_length(s) <= s.len(),
        digit_length(s) <= s.len(),
        blank_length(s) <= s.len(),
        s.len() > 0 && in_word(s[0]) ==> word_length(s) >= 1,
        s.len() > 0 && is_digit(s[0]) ==> digit_length(s) >= 1,
        s.len() > 0 && whitespace(s[0]) ==> blank_length(s) >= 1,
    decreases s.len(),
{
    if s.len() > 0 {
        lemma_run_lengths(s.skip(1));
    }
}

/// Whether lexing returned `r` and left the text `after`, as `lexed` says.
pub open spec fn lexed_as(r: Result<Token, LexerError>, after: Seq<char>, lexed: Lexed) -> bool {
    &&& after == lexed.1
    &&& match lexed.0 {
        Ok(t) => r is Ok && r->Ok_0@ == t,
        Err(e) => r is Err && r->Err_0@ == e,
    }
}

/// The number that a decimal digit stands for.
fn digit_value(c: char) -> (d: isize)
    requires
        is_digit(c),
    ensures
        d == c as int - '0' as int,
{
    if c == '0' {
        0
    } else if c == '1' {
        1
    } else if c == '2' {
        2
    } else if c == '3' {
        3
    } else if c == '4' {
        4
    } else if c == '5' {
        5
    } else if c == '6' {
        6
    } else if c == '7' {
        7
    } else if c == '8' {
        8
    } else {
        9
    }
}

/// Whether the word is spelled as the literal is.
fn spelled(word: &String, literal: &str) -> (r: bool)
    ensures
        r == (word@ == literal@),
{
    *word == String::from_str(literal)
}

/// The token that a word is.
fn keyword_token(word: String) -> (r: Token)
    ensures
        r@ == keyword(word@),
{
    if spelled(&word, "true") || spelled(&word, "win") {
        Token::Bool(true)
    } else if spelled(&word, "false") || spelled(&word, "lose") {
        Token::Bool(false)
    } else if spelled(&word, "fn") || spelled(&word, "attack") {
        Token::FnDecl
    } else if spelled(&word, "let") || spelled(&word, "pokeball") {
        Token::Let
    } else if spelled(&word, "var") || spelled(&word, "bike") {
        Token::VarDecl
    } else if spelled(&word, "if") {
        Token::If
    } else if spelled(&word, "rebattle") {
        Token::Rebattle
    } else if spelled(&word, "else") || spelled(&word, "run") {
        Token::Else
    } else if spelled(&word, "while") || spelled(&word, "defend") {
        Token::While
    } else if spelled(&word, "print") || spelled(&word, "pokedex") {
        Token::Print
    } else if spelled(&word, "speak") {
        Token::PrintVarName
    } else if spelled(&word, "draws") {
        Token::Eq
    } else if spelled(&word, "beats") {
        Token::Gt
    } else if spelled(&word, "survives") {
        Token::Geq
    } else {
        Token::Var(word)
    }
}

/// A reader of tokens from a text; its value is the text not yet read.
pub struct Lexer {
    chars: Vec<char>,
    pos: usize,
}

impl View for Lexer {
    type V = Seq<char>;

    closed spec fn view(&self) -> Seq<char> {
        if self.pos <= self.chars.len() {
            self.chars@.skip(self.pos as int)
        } else {
            Seq::empty()
        }
    }
}

impl Lexer {
    /// A lexer at the start of the text.
    pub fn new(text: String) -> (r: Lexer)
        ensures
            r@ == text@,
    {
        let mut chars: Vec<char> = Vec::new();
        let n = text.as_str().unicode_len();
        let mut i: usize = 0;
        while i < n
            invariant
                i <= n,
                n == text@.len(),
                chars@ == text@.take(i as int),
            decreases n - i,
        {
            chars.push(text.as_str().get_char(i));
            assert(text@.take(i + 1) =~= text@.take(i as int).push(text@[i as int]));
            i += 1;
        }
        assert(text@.take(n as int) =~= text@);
        assert(chars@.skip(0) =~= chars@);
        Lexer { chars, pos: 0 }
    }

    /// Drops the first `n` characters of the text.
    fn advance(&mut self, n: usize)
        requires
            n <= old(self)@.len(),
        ensures
            final(self)@ == old(self)@.skip(n as int),
    {
        if self.pos <= self.chars.len() {
            assert(self.chars@.skip(self.pos as int).skip(n as int) =~= self.chars@.skip(
                self.pos + n,
            ));
            self.pos = self.pos + n;
        }
    }

    /// The character `k` places into the text, if the text is that long.
    fn peek(&self, k: usize) -> (r: Option<char>)
        ensures
            match r {
                Some(c) => k < self@.len() && c == self@[k as int],
                None => k >= self@.len(),
            },
    {
        if self.pos <= self.chars.len() && k < self.chars.len() - self.pos {
            Some(self.chars[self.pos + k])
        } else {
            None
        }
    }

    /// The first character of the text, if there is one.
    fn peek_next(&self) -> (r: Option<char>)
        ensures
            match r {
                Some(c) => self@.len() > 0 && c == self@[0],
                None => self@.len() == 0,
            },
    {
        self.peek(0)
    }

    /// Whether the second character of the text is the given one.
    fn second_is(&self, c: char) -> (r: bool)
        ensures
            r == (self@.len() >= 2 && self@[1] == c),
    {
        match self.peek(1) {
            Some(d) => d == c,
            None => false,
        }
    }

    /// The first `n` characters of the text as a string.
    fn prefix(&self, n: usize) -> (r: String)
        requires
            n <= self@.len(),
        ensures
            r@ == self@.take(n as int),
    {
        let mut text = String::new();
        let mut i: usize = 0;
        while i < n
            invariant
                i <= n,
                n <= self@.len(),
                text@ == self@.take(i as int),
            decreases n - i,
        {
            match self.peek(i) {
                Some(c) => {
                    text.push(c);
                    assert(self@.take(i + 1) =~= self@.take(i as int).push(c));
                },
                None => {},
            }
            i += 1;
        }
        text
    }

    /// Whether the character `k` places into the text can stand in a word.
    fn word_at(&self, k: usize) -> (r: bool)
        ensures
            r == (k < self@.len() && in_word(self@[k as int])),
    {
        match self.peek(k) {
            Some(c) => c.is_alphabetic() || c == '_',
            None => false,
        }
    }

    /// Whether the character `k` places into the text is a decimal digit.
    fn digit_at(&self, k: usize) -> (r: bool)
        ensures
            r == (k < self@.len() && is_digit(self@[k as int])),
    {
        match self.peek(k) {
            Some(c) => '0' <= c && c <= '9',
            None => false,
        }
    }

    /// Whether the character `k` places into the text is white space.
    fn blank_at(&self, k: usize) -> (r: bool)
        ensures
            r == (k < self@.len() && whitespace(self@[k as int])),
    {
        match self.peek(k) {
            Some(c) => c.is_whitespace(),
            None => false,
        }
    }

    /// Reads the number at the start of the text.
    fn lex_integer(&mut self) -> (r: Result<Token, LexerError>)
        ensures
            lexed_as(r, final(self)@, number_token(old(self)@)),
    {
        let mut n: usize = 0;
        let mut value: Option<isize> = Some(0);
        assert(self@.skip(0) =~= self@);
        while self.digit_at(n)
            invariant
                n <= self@.len(),
                digit_length(self@) == n + digit_length(self@.skip(n as int)),
                match value {
                    Some(v) => v == digits_value(self@.take(n as int)),
                    None => digits_value(self@.take(n as int)) > isize::MAX,
                },
            decreases self@.len() - n,
        {
            let d = match self.peek(n) {
                Some(c) => digit_value(c),
                None => 0,
            };
            proof {
                assert(self@.skip(n as int).skip(1) =~= self@.skip(n + 1));
                assert(self@.take(n + 1).drop_last() =~= self@.take(n as int));
                assert(self@.take(n + 1).last() == self@[n as int]);
                let before = digits_value(self@.take(n as int));
                assert(before * 10 >= before) by (nonlinear_arith)
                    requires
                        before >= 0,
                ;
            }
            value = match value {
                Some(v) => match v.checked_mul(10) {
                    Some(w) => w.checked_add(d),
                    None => None,
                },
                None => None,
            };
            n += 1;
        }
        match value {
            Some(v) => {
                if n == 0 {
                    Err(LexerError::ParseInt(self.prefix(n)))
                } else {
                    self.advance(n);
                    Ok(Token::Int(v))
                }
            },
            None => Err(LexerError::ParseInt(self.prefix(n))),
        }
    }

    /// Reads the word at the start of the text.
    fn lex_keyword(&mut self) -> (r: Result<Token, LexerError>)
        ensures
            lexed_as(r, final(self)@, word_token(old(self)@)),
    {
        let mut n: usize = 0;
        assert(self@.skip(0) =~= self@);
        while self.word_at(n)
            invariant
                n <= self@.len(),
                word_length(self@) == n + word_length(self@.skip(n as int)),
            decreases self@.len() - n,
        {
            assert(self@.skip(n as int).skip(1) =~= self@.skip(n + 1));
            n += 1;
        }
        if n == 0 {
            Err(LexerError::InvalidKeyword(String::from_str("invalid keyword \"\"")))
        } else {
            let word = self.prefix(n);
            self.advance(n);
            Ok(keyword_token(word))
        }
    }

    /// Drops the white space at the start of the text.
    fn skip_whitespace(&mut self)
        ensures
            final(self)@ == old(self)@.skip(blank_length(old(self)@) as int),
    {
        let mut n: usize = 0;
        assert(self@.skip(0) =~= self@);
        while self.blank_at(n)
            invariant
                n <= self@.len(),
                blank_length(self@) == n + blank_length(self@.skip(n as int)),
            decreases self@.len() - n,
        {
            assert(self@.skip(n as int).skip(1) =~= self@.skip(n + 1));
            n += 1;
        }
        self.advance(n);
    }

    /// Drops the text up to its first line break.
    fn skip_inline_comment(&mut self)
        ensures
            final(self)@ == line_rest(old(self)@),
    {
        let mut n: usize = 0;
        let mut at_break = false;
        assert(self@.skip(0) =~= self@);
        while !at_break
            invariant
                n <= self@.len(),
                line_rest(self@) == line_rest(self@.skip(n as int)),
                at_break ==> line_rest(self@.skip(n as int)) == self@.skip(n as int),
            decreases self@.len() - n + (if at_break { 0int } else { 1int }),
        {
            match self.peek(n) {
                Some(c) => {
                    if c == '\n' {
                        at_break = true;
                    } else {
                        assert(self@.skip(n as int).skip(1) =~= self@.skip(n + 1));
                        n += 1;
                    }
                },
                None => {
                    at_break = true;
                },
            }
        }
        self.advance(n);
    }

    /// The operator or punctuation mark at the start of the text, with its length.
    fn lex_symbol(&self) -> (r: Option<(Token, usize)>)
        ensures
            match symbol(self@) {
                Some((t, n)) => match r {
                    Some((token, length)) => token@ == t && length == n && n <= self@.len(),
                    None => false,
                },
                None => r is None,
            },
    {
        let c = match self.peek(0) {
            Some(c) => c,
            None => {
                return None;
            },
        };
        let pair = self.second_is('=');
        if c == '+' {
            Some((Token::Plus, 1))
        } else if c == '-' {
            Some((Token::Minus, 1))
        } else if c == '*' {
            Some((Token::Times, 1))
        } else if c == '/' {
            Some((Token::Div, 1))
        } else if c == '%' {
            Some((Token::Mod, 1))
        } else if c == '(' {
            Some((Token::LParen, 1))
        } else if c == ')' {
            Some((Token::RParen, 1))
        } else if c == '&' && self.second_is('&') {
            Some((Token::And, 2))
        } else if c == '|' && self.second_is('|') {
            Some((Token::Or, 2))
        } else if c == '=' {
            if pair {
                Some((Token::Eq, 2))
            } else {
                Some((Token::Assign, 1))
            }
        } else if c == '!' {
            if pair {
                Some((Token::Ne, 2))
            } else {
                Some((Token::Not, 1))
            }
        } else if c == '>' {
            if pair {
                Some((Token::Geq, 2))
            } else {
                Some((Token::Gt, 1))
            }
        } else if c == '<' {
            if pair {
                Some((Token::Leq, 2))
            } else {
                Some((Token::Lt, 1))
            }
        } else if c == ';' {
            Some((Token::Sequence, 1))
        } else if c == '?' {
            Some((Token::Ternary, 1))
        } else if c == ':' {
            Some((Token::Else, 1))
        } else if c == '{' {
            Some((Token::LBracket, 1))
        } else if c == '}' {
            Some((Token::RBracket, 1))
        } else if c == ',' {
            Some((Token::Comma, 1))
        } else {
            None
        }
    }

    /// Reads the next token of the text.
    pub fn get_next_token(&mut self) -> (r: Result<Token, LexerError>)
        ensures
            lexed_as(r, final(self)@, next_token(old(self)@)),
    {
        loop
            invariant
                next_token(self@) == next_token(old(self)@),
            decreases self@.len(),
        {
            let c = match self.peek_next() {
                Some(c) => c,
                None => {
                    return Ok(Token::EOF);
                },
            };
            proof {
                lemma_run_lengths(self@);
                if self@.len() >= 2 {
                    lemma_line_rest(self@.skip(2));
                }
            }
            if c == '/' && self.second_is('/') {
                self.advance(2);
                self.skip_inline_comment();
            } else if c == '/' && self.second_is('*') {
                self.advance(2);
            } else {
                match self.lex_symbol() {
                    Some((token, n)) => {
                        self.advance(n);
                        return Ok(token);
                    },
                    None => {
                        if c.is_alphabetic() {
                            return self.lex_keyword();
                        } else if '0' <= c && c <= '9' {
                            return self.lex_integer();
                        } else if c.is_whitespace() {
                            self.skip_whitespace();
                        } else {
                            return Err(
                                LexerError::UnexpectedCharacter(unexpected_char_message(c)),
                            );
                        }
                    },
                }
            }
        }
    }
}

} // verus!
