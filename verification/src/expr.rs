use vstd::prelude::*;
use vstd::string::StringExecFns;
use crate::runtime_error::{RuntimeError, RuntimeErrorView};

verus! {

/// Unary operators.
#[derive(Clone, Copy, Debug, PartialEq, Eq, Structural)]
pub enum UnOp {
    Not,
    Neg,
}

/// Binary operators, sequencing and assignment included.
#[derive(Clone, Copy, Debug, PartialEq, Eq, Structural)]
pub enum BinOp {
    Plus,
    Minus,
    Times,
    Div,
    Eq,
    Ne,
    Leq,
    Geq,
    Lt,
    Gt,
    And,
    Or,
    Mod,
    Sequence,
    Assign,
}

/// The two kinds of declaration: a mutable binding or an immutable one.
#[derive(Clone, Copy, Debug, PartialEq, Eq, Structural)]
pub enum Dec {
    DVar,
    DConst,
}

/// A node of the program tree. Integers, booleans, functions and the
/// undefined value are values; every other node can take a step.
#[derive(Debug)]
pub enum Expr {
    /// An integer literal.
    Int(isize),
    /// A boolean literal.
    Bool(bool),
    /// A reference to a variable, by name.
    Var(String),
    /// The value of what has no value.
    Undefined,
    /// A binary operation: the operator, the left and the right operand.
    Bop(BinOp, Box<Expr>, Box<Expr>),
    /// A unary operation: the operator and the operand.
    Uop(UnOp, Box<Expr>),
    /// A conditional: the condition, and the branches for true and for false.
    Ternary(Box<Expr>, Box<Expr>, Box<Expr>),
    /// A loop: the working condition, the condition as written, the working
    /// body, the body as written, and what follows the loop.
    While(Box<Expr>, Box<Expr>, Box<Expr>, Box<Expr>, Box<Expr>),
    /// A declaration: its kind, the name, the initializer, and what follows.
    Decl(Dec, Box<Expr>, Box<Expr>, Box<Expr>),
    /// A function: its own name if it has one, the body, and the parameters.
    Func(Option<Box<Expr>>, Box<Expr>, Vec<Expr>),
    /// A call: the callee and the arguments.
    FnCall(Box<Expr>, Vec<Expr>),
    /// The body of a call that is under way; its frame is popped once the
    /// body is a value.
    Scope(Box<Expr>),
    /// Prints the value of the operand.
    Print(Box<Expr>),
    /// Prints the name of the variable that the operand is.
    PrintVarName(Box<Expr>),
}

/// The mathematical value of a program tree: integers are mathematical
/// integers, names are sequences of characters and lists are sequences.
pub enum Term {
    Int(int),
    Bool(bool),
    Var(Seq<char>),
    Undefined,
    Bop(BinOp, Box<Term>, Box<Term>),
    Uop(UnOp, Box<Term>),
    Ternary(Box<Term>, Box<Term>, Box<Term>),
    While(Box<Term>, Box<Term>, Box<Term>, Box<Term>, Box<Term>),
    Decl(Dec, Box<Term>, Box<Term>, Box<Term>),
    Func(Option<Box<Term>>, Box<Term>, Seq<Term>),
    FnCall(Box<Term>, Seq<Term>),
    Scope(Box<Term>),
    Print(Box<Term>),
    PrintVarName(Box<Term>),
}

impl View for Expr {
    type V = Term;

    open spec fn view(&self) -> Term {
        self.model()
    }
}

impl Term {
    /// Whether the tree is terminal: an integer, a boolean, a function or the
    /// undefined value.
    pub open spec fn is_value(self) -> bool {
        self is Int || self is Bool || self is Func || self is Undefined
    }

    /// The integer that the tree is; any other tree is a conversion failure.
    pub open spec fn as_int(self) -> Result<int, RuntimeErrorView> {
        match self {
            Term::Int(n) => Ok(n),
            _ => Err(RuntimeErrorView::InvalidTypeConversion("int"@, self)),
        }
    }

    /// The name that the tree is; any other tree is a conversion failure.
    pub open spec fn as_var(self) -> Result<Seq<char>, RuntimeErrorView> {
        match self {
            Term::Var(x) => Ok(x),
            _ => Err(RuntimeErrorView::InvalidTypeConversion("var"@, self)),
        }
    }

    /// The boolean that the tree is; any other tree is a conversion failure.
    pub open spec fn as_bool(self) -> Result<bool, RuntimeErrorView> {
        match self {
            Term::Bool(b) => Ok(b),
            _ => Err(RuntimeErrorView::InvalidTypeConversion("bool"@, self)),
        }
    }

    /// What printing the tree emits: an integer in decimal, a boolean as `win`
    /// or `lose`, and a fixed notice for anything else.
    pub open spec fn text(self) -> Seq<char> {
        match self {
            Term::Int(n) => decimal(n),
            Term::Bool(true) => "win"@,
            Term::Bool(false) => "lose"@,
            _ => "cannot print this thing"@,
        }
    }
}

/// Whether a result holds the value, or the failure, that `s` is.
pub open spec fn same_result(r: Result<Expr, RuntimeError>, s: Result<Term, RuntimeErrorView>)
    -> bool {
    match s {
        Ok(t) => r is Ok && r->Ok_0@ == t,
        Err(e) => r is Err && r->Err_0@ == e,
    }
}

/// The character of a decimal digit.
pub open spec fn digit(d: int) -> char {
    if d == 0 {
        '0'
    } else if d == 1 {
        '1'
    } else if d == 2 {
        '2'
    } else if d == 3 {
        '3'
    } else if d == 4 {
        '4'
    } else if d == 5 {
        '5'
    } else if d == 6 {
        '6'
    } else if d == 7 {
        '7'
    } else if d == 8 {
        '8'
    } else {
        '9'
    }
}

/// The decimal digits of a natural number, most significant first, without
/// leading zeros.
pub open spec fn digits(n: nat) -> Seq<char>
    decreases n,
{
    if n < 10 {
        seq![digit(n as int)]
    } else {
        digits(n / 10).push(digit((n % 10) as int))
    }
}

/// The decimal notation of an integer: a minus sign before the digits of a
/// negative number.
pub open spec fn decimal(n: int) -> Seq<char> {
    if n < 0 {
        seq!['-'] + digits((-n) as nat)
    } else {
        digits(n as nat)
    }
}

/// The one-character text of a decimal digit.
fn digit_text(d: usize) -> (r: &'static str)
    requires
        d < 10,
    ensures
        r@ == seq![digit(d as int)],
{
    proof {
        reveal_strlit("0");
        reveal_strlit("1");
        reveal_strlit("2");
        reveal_strlit("3");
        reveal_strlit("4");
        reveal_strlit("5");
        reveal_strlit("6");
        reveal_strlit("7");
        reveal_strlit("8");
        reveal_strlit("9");
    }
    let r = if d == 0 {
        "0"
    } else if d == 1 {
        "1"
    } else if d == 2 {
        "2"
    } else if d == 3 {
        "3"
    } else if d == 4 {
        "4"
    } else if d == 5 {
        "5"
    } else if d == 6 {
        "6"
    } else if d == 7 {
        "7"
    } else if d == 8 {
        "8"
    } else {
        "9"
    };
    assert(r@ =~= seq![digit(d as int)]);
    r
}

/// The decimal notation of a machine integer.
pub fn int_text(n: isize) -> (r: String)
    ensures
        r@ == decimal(n as int),
{
    let magnitude: usize = if n >= 0 {
        n as usize
    } else {
        (-(n + 1)) as usize + 1
    };
    let mut rest: usize = magnitude;
    let mut text = String::new();
    while rest >= 10
        invariant
            digits(magnitude as nat) == digits(rest as nat) + text@,
        decreases rest,
    {
        let low = String::from_str(digit_text(rest % 10));
        assert(digits(rest as nat) + text@ =~= digits((rest / 10) as nat) + (low@ + text@));
        text = low.concat(text.as_str());
        rest = rest / 10;
    }
    let high = String::from_str(digit_text(rest));
    text = high.concat(text.as_str());
    if n < 0 {
        proof {
            reveal_strlit("-");
        }
        let sign = String::from_str("-");
        assert(sign@ =~= seq!['-']);
        text = sign.concat(text.as_str());
    }
    text
}

impl Expr {
    /// The mathematical values of a list of trees, in order.
    pub open spec fn list_model(list: Seq<Expr>) -> Seq<Term>
        decreases list,
    {
        Seq::new(
            list.len(),
            |i: int|
                if 0 <= i < list.len() {
                    list[i].model()
                } else {
                    Term::Undefined
                },
        )
    }

    /// The mathematical value of the tree.
    pub open spec fn model(&self) -> Term
        decreases self,
    {
        match self {
            Expr::Int(n) => Term::Int(*n as int),
            Expr::Bool(b) => Term::Bool(*b),
            Expr::Var(x) => Term::Var(x@),
            Expr::Undefined => Term::Undefined,
            Expr::Bop(op, a, b) => Term::Bop(*op, Box::new(a.model()), Box::new(b.model())),
            Expr::Uop(op, a) => Term::Uop(*op, Box::new(a.model())),
            Expr::Ternary(a, b, c) => Term::Ternary(
                Box::new(a.model()),
                Box::new(b.model()),
                Box::new(c.model()),
            ),
            Expr::While(a, b, c, d, e) => Term::While(
                Box::new(a.model()),
                Box::new(b.model()),
                Box::new(c.model()),
                Box::new(d.model()),
                Box::new(e.model()),
            ),
            Expr::Decl(k, x, a, b) => Term::Decl(
                *k,
                Box::new(x.model()),
                Box::new(a.model()),
                Box::new(b.model()),
            ),
            Expr::Func(name, body, params) => Term::Func(
                match name {
                    Some(n) => Some(Box::new(n.model())),
                    None => None,
                },
                Box::new(body.model()),
                Expr::list_model(params@),
            ),
            Expr::FnCall(f, args) => Term::FnCall(
                Box::new(f.model()),
                Expr::list_model(args@),
            ),
            Expr::Scope(a) => Term::Scope(Box::new(a.model())),
            Expr::Print(a) => Term::Print(Box::new(a.model())),
            Expr::PrintVarName(a) => Term::PrintVarName(Box::new(a.model())),
        }
    }

    pub fn is_int(&self) -> (r: bool)
        ensures
            r == (self@ is Int),
    {
        match self {
            Expr::Int(_) => true,
            _ => false,
        }
    }

    pub fn is_bool(&self) -> (r: bool)
        ensures
            r == (self@ is Bool),
    {
        match self {
            Expr::Bool(_) => true,
            _ => false,
        }
    }

    pub fn is_func(&self) -> (r: bool)
        ensures
            r == (self@ is Func),
    {
        match self {
            Expr::Func(_, _, _) => true,
            _ => false,
        }
    }

    pub fn is_var(&self) -> (r: bool)
        ensures
            r == (self@ is Var),
    {
        match self {
            Expr::Var(_) => true,
            _ => false,
        }
    }

    pub fn is_value(&self) -> (r: bool)
        ensures
            r == self@.is_value(),
    {
        match self {
            Expr::Int(_) | Expr::Bool(_) | Expr::Func(_, _, _) | Expr::Undefined => true,
            _ => false,
        }
    }

    /// The integer that the tree is, or the failure that names the kind asked for.
    pub fn to_int(&self) -> (r: Result<isize, RuntimeError>)
        ensures
            match r {
                Ok(n) => self@.as_int() == Ok::<int, RuntimeErrorView>(n as int),
                Err(e) => self@.as_int() == Err::<int, RuntimeErrorView>(e@),
            },
    {
        match self {
            Expr::Int(n) => Ok(*n),
            _ => Err(RuntimeError::InvalidTypeConversion(String::from_str("int"), self.clone())),
        }
    }

    /// The name that the tree is, or the failure that names the kind asked for.
    pub fn to_var(&self) -> (r: Result<String, RuntimeError>)
        ensures
            match r {
                Ok(x) => self@.as_var() == Ok::<Seq<char>, RuntimeErrorView>(x@),
                Err(e) => self@.as_var() == Err::<Seq<char>, RuntimeErrorView>(e@),
            },
    {
        match self {
            Expr::Var(x) => Ok(x.clone()),
            _ => Err(RuntimeError::InvalidTypeConversion(String::from_str("var"), self.clone())),
        }
    }

    /// The boolean that the tree is, or the failure that names the kind asked for.
    pub fn to_bool(&self) -> (r: Result<bool, RuntimeError>)
        ensures
            match r {
                Ok(b) => self@.as_bool() == Ok::<bool, RuntimeErrorView>(b),
                Err(e) => self@.as_bool() == Err::<bool, RuntimeErrorView>(e@),
            },
    {
        match self {
            Expr::Bool(b) => Ok(*b),
            _ => Err(RuntimeError::InvalidTypeConversion(String::from_str("bool"), self.clone())),
        }
    }

    /// The text that printing the tree emits.
    pub fn to_text(&self) -> (r: String)
        ensures
            r@ == self@.text(),
    {
        match self {
            Expr::Int(n) => int_text(*n),
            Expr::Bool(true) => String::from_str("win"),
            Expr::Bool(false) => String::from_str("lose"),
            _ => String::from_str("cannot print this thing"),
        }
    }
}

/// A copy of a list of trees.
fn clone_list(list: &Vec<Expr>) -> (r: Vec<Expr>)
    ensures
        Expr::list_model(r@) == Expr::list_model(list@),
    decreases list,
{
    let mut copy: Vec<Expr> = Vec::new();
    let mut i: usize = 0;
    while i < list.len()
        invariant
            i <= list.len(),
            copy.len() == i,
            forall|j: int| 0 <= j < i ==> copy[j]@ == list[j]@,
        decreases list.len() - i,
    {
        copy.push(list[i].clone());
        i += 1;
    }
    assert(Expr::list_model(copy@) =~= Expr::list_model(list@));
    copy
}

impl Clone for Expr {
    fn clone(&self) -> (r: Expr)
        ensures
            r@ == self@,
        decreases self,
    {
        match self {
            Expr::Int(n) => Expr::Int(*n),
            Expr::Bool(b) => Expr::Bool(*b),
            Expr::Var(x) => Expr::Var(x.clone()),
            Expr::Undefined => Expr::Undefined,
            Expr::Bop(op, a, b) => Expr::Bop(*op, Box::new((&**a).clone()), Box::new((&**b).clone())),
            Expr::Uop(op, a) => Expr::Uop(*op, Box::new((&**a).clone())),
            Expr::Ternary(a, b, c) => Expr::Ternary(
                Box::new((&**a).clone()),
                Box::new((&**b).clone()),
                Box::new((&**c).clone()),
            ),
            Expr::While(a, b, c, d, e) => Expr::While(
                Box::new((&**a).clone()),
                Box::new((&**b).clone()),
                Box::new((&**c).clone()),
                Box::new((&**d).clone()),
                Box::new((&**e).clone()),
            ),
            Expr::Decl(k, x, a, b) => Expr::Decl(
                *k,
                Box::new((&**x).clone()),
                Box::new((&**a).clone()),
                Box::new((&**b).clone()),
            ),
            Expr::Func(name, body, params) => {
                let name2 = match name {
                    Some(n) => Some(Box::new((&**n).clone())),
                    None => None,
                };
                Expr::Func(name2, Box::new((&**body).clone()), clone_list(params))
            },
            Expr::FnCall(f, args) => {
                Expr::FnCall(Box::new((&**f).clone()), clone_list(args))
            },
            Expr::Scope(a) => Expr::Scope(Box::new((&**a).clone())),
            Expr::Print(a) => Expr::Print(Box::new((&**a).clone())),
            Expr::PrintVarName(a) => Expr::PrintVarName(Box::new((&**a).clone())),
        }
    }
}

/// Whether two lists of trees have the same value.
fn same_list(a: &Vec<Expr>, b: &Vec<Expr>) -> (r: bool)
    ensures
        r == (Expr::list_model(a@) == Expr::list_model(b@)),
    decreases a,
{
    if a.len() != b.len() {
        assert(Expr::list_model(a@).len() != Expr::list_model(b@).len());
        return false;
    }
    let mut i: usize = 0;
    while i < a.len()
        invariant
            a.len() == b.len(),
            i <= a.len(),
            forall|j: int| 0 <= j < i ==> a[j]@ == b[j]@,
        decreases a.len() - i,
    {
        if !same(&a[i], &b[i]) {
            assert(Expr::list_model(a@)[i as int] != Expr::list_model(b@)[i as int]);
            return false;
        }
        i += 1;
    }
    assert(Expr::list_model(a@) =~= Expr::list_model(b@));
    true
}

/// Whether two trees have the same value.
fn same(a: &Expr, b: &Expr) -> (r: bool)
    ensures
        r == (a@ == b@),
    decreases a,
{
    match (a, b) {
        (Expr::Int(m), Expr::Int(n)) => *m == *n,
        (Expr::Bool(m), Expr::Bool(n)) => *m == *n,
        (Expr::Var(x), Expr::Var(y)) => *x == *y,
        (Expr::Undefined, Expr::Undefined) => true,
        (Expr::Bop(o1, a1, a2), Expr::Bop(o2, b1, b2)) => *o1 == *o2 && same(a1, b1) && same(
            a2,
            b2,
        ),
        (Expr::Uop(o1, a1), Expr::Uop(o2, b1)) => *o1 == *o2 && same(a1, b1),
        (Expr::Ternary(a1, a2, a3), Expr::Ternary(b1, b2, b3)) => same(a1, b1) && same(a2, b2)
            && same(a3, b3),
        (Expr::While(a1, a2, a3, a4, a5), Expr::While(b1, b2, b3, b4, b5)) => same(a1, b1)
            && same(a2, b2) && same(a3, b3) && same(a4, b4) && same(a5, b5),
        (Expr::Decl(k1, a1, a2, a3), Expr::Decl(k2, b1, b2, b3)) => *k1 == *k2 && same(a1, b1)
            && same(a2, b2) && same(a3, b3),
        (Expr::Func(n1, a1, xs), Expr::Func(n2, b1, ys)) => {
            let names = match (n1, n2) {
                (Some(x), Some(y)) => same(x, y),
                (None, None) => true,
                _ => false,
            };
            names && same(a1, b1) && same_list(xs, ys)
        },
        (Expr::FnCall(a1, xs), Expr::FnCall(b1, ys)) => same(a1, b1) && same_list(xs, ys),
        (Expr::Scope(a1), Expr::Scope(b1)) => same(a1, b1),
        (Expr::Print(a1), Expr::Print(b1)) => same(a1, b1),
        (Expr::PrintVarName(a1), Expr::PrintVarName(b1)) => same(a1, b1),
        _ => false,
    }
}

impl PartialEq for Expr {
    fn eq(&self, other: &Expr) -> (r: bool) {
        same(self, other)
    }
}

impl vstd::std_specs::cmp::PartialEqSpecImpl for Expr {
    open spec fn obeys_eq_spec() -> bool {
        true
    }

    open spec fn eq_spec(&self, other: &Expr) -> bool {
        self@ == other@
    }
}

} // verus!
