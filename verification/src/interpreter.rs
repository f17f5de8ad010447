use vstd::prelude::*;
use vstd::string::StringExecFns;
use crate::expr::{same_result, BinOp, Dec, Expr, Term, UnOp};
use crate::numbers::{int_add, int_div, int_mod, int_mul, int_sub};
use crate::parser::grammar;
use crate::parser::parser::parse;
use crate::runtime_error::{RuntimeError, RuntimeErrorView};
use crate::semantics;
use crate::semantics::{Machine, Outcome};
use crate::state::State;

verus! {

/// An evaluation session: the environment, and the lines printed so far.
pub struct Interpreter {
    pub state: State,
    pub output: Vec<String>,
}

impl View for Interpreter {
    type V = Machine;

    open spec fn view(&self) -> Machine {
        Machine {
            mem: self.state@,
            output: Seq::new(self.output.len() as nat, |i: int| self.output[i]@),
        }
    }
}

impl Clone for Interpreter {
    fn clone(&self) -> (r: Interpreter)
        ensures
            r@ == self@,
    {
        let mut output: Vec<String> = Vec::new();
        let mut i: usize = 0;
        while i < self.output.len()
            invariant
                i <= self.output.len(),
                output.len() == i,
                forall|j: int| 0 <= j < i ==> output[j]@ == self.output[j]@,
            decreases self.output.len() - i,
        {
            output.push(self.output[i].clone());
            i += 1;
        }
        let r = Interpreter { state: self.state.clone(), output };
        assert(r@.output =~= self@.output);
        r
    }
}

/// Whether a step that returned `r` and took the machine from `before` to
/// `after` is the step `o`: the same tree and machine, or the same failure
/// with the machine untouched.
pub open spec fn yields(
    r: Result<Expr, RuntimeError>,
    before: Machine,
    after: Machine,
    o: Outcome,
) -> bool {
    match o {
        Ok((t, m)) => r is Ok && r->Ok_0@ == t && after == m,
        Err(e) => r is Err && r->Err_0@ == e && after == before,
    }
}

/// What evaluating a text in a machine returns, and the machine it leaves: a
/// text that is no program is a failure that changes nothing; the tree of a
/// program is reduced by the driver.
pub open spec fn evaluate(input: Seq<char>, m: Machine) -> (
    Result<Term, RuntimeErrorView>,
    Machine,
) {
    match grammar::parse(input) {
        Err(e) => (Err(RuntimeErrorView::ParserError(e)), m),
        Ok(t) => semantics::run(t, m),
    }
}

/// Whether an evaluation of `input` that returned `r` and took the machine
/// from `before` to `after` is the one that `evaluate` describes.
pub open spec fn evaluated(
    r: Result<Expr, RuntimeError>,
    before: Machine,
    after: Machine,
    input: Seq<char>,
) -> bool {
    &&& same_result(r, evaluate(input, before).0)
    &&& after == evaluate(input, before).1
}

/// Applies a unary operator to a value.
pub fn unary_op(op: UnOp, v: &Expr) -> (r: Result<Expr, RuntimeError>)
    ensures
        same_result(r, semantics::unary(op, v@)),
{
    match op {
        UnOp::Not => match v.to_bool() {
            Ok(b) => Ok(Expr::Bool(!b)),
            Err(e) => Err(e),
        },
        UnOp::Neg => match v.to_int() {
            Ok(n) => Ok(Expr::Int(int_sub(0, n))),
            Err(e) => Err(e),
        },
    }
}

/// Applies an arithmetic or comparison operator to two integers; `divisor` is
/// the value that `y` was taken from.
fn arithmetic_op(op: BinOp, x: isize, y: isize, divisor: &Expr) -> (r: Result<Expr, RuntimeError>)
    ensures
        same_result(r, semantics::arithmetic(op, x as int, y as int, divisor@)),
{
    match op {
        BinOp::Plus => Ok(Expr::Int(int_add(x, y))),
        BinOp::Minus => Ok(Expr::Int(int_sub(x, y))),
        BinOp::Times => Ok(Expr::Int(int_mul(x, y))),
        BinOp::Div => if y == 0 {
            Err(
                RuntimeError::UnexpectedExpr(
                    String::from_str("expected nonzero divisor"),
                    divisor.clone(),
                ),
            )
        } else {
            Ok(Expr::Int(int_div(x, y)))
        },
        BinOp::Mod => if y == 0 {
            Err(
                RuntimeError::UnexpectedExpr(
                    String::from_str("expected nonzero divisor"),
                    divisor.clone(),
                ),
            )
        } else {
            Ok(Expr::Int(int_mod(x, y)))
        },
        BinOp::Lt => Ok(Expr::Bool(x < y)),
        BinOp::Gt => Ok(Expr::Bool(x > y)),
        BinOp::Leq => Ok(Expr::Bool(x <= y)),
        _ => Ok(Expr::Bool(x >= y)),
    }
}

/// Applies a binary operator to two values.
pub fn binary_op(op: BinOp, a: &Expr, b: &Expr) -> (r: Result<Expr, RuntimeError>)
    ensures
        same_result(r, semantics::binary(op, a@, b@)),
{
    match op {
        BinOp::And => match a.to_bool() {
            Err(e) => Err(e),
            Ok(false) => Ok(Expr::Bool(false)),
            Ok(true) => match b.to_bool() {
                Ok(y) => Ok(Expr::Bool(y)),
                Err(e) => Err(e),
            },
        },
        BinOp::Or => match a.to_bool() {
            Err(e) => Err(e),
            Ok(true) => Ok(Expr::Bool(true)),
            Ok(false) => match b.to_bool() {
                Ok(y) => Ok(Expr::Bool(y)),
                Err(e) => Err(e),
            },
        },
        BinOp::Eq => Ok(Expr::Bool(*a == *b)),
        BinOp::Ne => Ok(Expr::Bool(!(*a == *b))),
        BinOp::Sequence => Ok(b.clone()),
        BinOp::Assign => Err(RuntimeError::SteppingOnValue(b.clone())),
        _ => match a.to_int() {
            Err(e) => Err(e),
            Ok(x) => match b.to_int() {
                Err(e) => Err(e),
                Ok(y) => arithmetic_op(op, x, y, b),
            },
        },
    }
}

/// The index of the first tree of the list that is not a value.
fn first_pending(list: &Vec<Expr>) -> (r: usize)
    ensures
        r == semantics::first_pending(Expr::list_model(list@), 0),
        r <= list.len(),
{
    let mut i: usize = 0;
    while i < list.len()
        invariant
            i <= list.len(),
            semantics::first_pending(Expr::list_model(list@), 0) == semantics::first_pending(
                Expr::list_model(list@),
                i as int,
            ),
        decreases list.len() - i,
    {
        if !list[i].is_value() {
            return i;
        }
        i += 1;
    }
    i
}

/// Once one of the first parameters is not a name, the failure stays the
/// same however many more are looked at.
proof fn lemma_bad_parameter_stays(params: Seq<Term>, k: nat, n: nat)
    requires
        k <= n,
        semantics::bad_parameter(params, k) is Some,
    ensures
        semantics::bad_parameter(params, n) == semantics::bad_parameter(params, k),
    decreases n,
{
    if k < n {
        lemma_bad_parameter_stays(params, k, (n - 1) as nat);
    }
}

impl Interpreter {
    /// A new session: one empty root frame, and nothing printed.
    pub fn new() -> (r: Interpreter)
        ensures
            r@.mem == seq![Map::<Seq<char>, crate::state::BindingView>::empty()],
            r@.output == Seq::<Seq<char>>::empty(),
    {
        let r = Interpreter { state: State::new(), output: Vec::new() };
        assert(r@.output =~= Seq::<Seq<char>>::empty());
        r
    }

    /// Applies a function to values: pushes a frame, binds the parameters and
    /// the function's own name in it, and leaves the body inside a scope marker.
    fn call(&mut self, f: Expr, args: Vec<Expr>) -> (r: Result<Expr, RuntimeError>)
        requires
            f@ is Func,
        ensures
            yields(
                r,
                old(self)@,
                final(self)@,
                semantics::call(f@, Expr::list_model(args@), old(self)@),
            ),
    {
        let ghost params_model = f@->Func_2;
        let ghost args_model = Expr::list_model(args@);
        let ghost pairs = semantics::paired(params_model, args_model);
        match &f {
            Expr::Func(name, body, params) => {
                assert(params_model == Expr::list_model(params@));
                let n = if params.len() <= args.len() {
                    params.len()
                } else {
                    args.len()
                };
                let mut k: usize = 0;
                while k < n
                    invariant
                        k <= n,
                        n == pairs,
                        params_model == f@->Func_2,
                        pairs == semantics::paired(params_model, Expr::list_model(args@)),
                        n <= params.len(),
                        params_model == Expr::list_model(params@),
                        semantics::bad_parameter(params_model, k as nat) is None,
                        *self == *old(self),
                    decreases n - k,
                {
                    match params[k].to_var() {
                        Ok(_) => {},
                        Err(e) => {
                            proof {
                                assert(params_model[k as int] == params[k as int]@);
                                assert(semantics::bad_parameter(params_model, (k + 1) as nat)
                                    == Some(e@));
                                lemma_bad_parameter_stays(params_model, (k + 1) as nat, pairs);
                                assert(semantics::bad_parameter(params_model, pairs) == Some(e@));
                            }
                            return Err(e);
                        },
                    }
                    assert(params_model[k as int] == params[k as int]@);
                    k += 1;
                }
                let own_name: Option<String> = match name {
                    Some(s) => match s.to_var() {
                        Ok(x) => Some(x),
                        Err(e) => {
                            return Err(e);
                        },
                    },
                    None => None,
                };
                self.state.begin_scope();
                let mut k: usize = 0;
                while k < n
                    invariant
                        k <= n,
                        n == pairs,
                        params_model == f@->Func_2,
                        pairs == semantics::paired(params_model, Expr::list_model(args@)),
                        n <= params.len(),
                        n <= args.len(),
                        params_model == Expr::list_model(params@),
                        args_model == Expr::list_model(args@),
                        semantics::bad_parameter(params_model, n as nat) is None,
                        self.output == old(self).output,
                        self.state@ == old(self).state@.push(
                            semantics::with_arguments(params_model, args_model, k as nat),
                        ),
                    decreases n - k,
                {
                    proof {
                        assert(params_model[k as int] == params[k as int]@);
                        assert(args_model[k as int] == args[k as int]@);
                        if semantics::bad_parameter(params_model, (k + 1) as nat) is Some {
                            lemma_bad_parameter_stays(params_model, (k + 1) as nat, n as nat);
                        }
                    }
                    match params[k].to_var() {
                        Ok(x) => {
                            let _ = self.state.alloc_var(x, args[k].clone());
                        },
                        Err(_) => {},
                    }
                    assert(self.state@ =~= old(self).state@.push(
                        semantics::with_arguments(params_model, args_model, (k + 1) as nat),
                    ));
                    k += 1;
                }
                match own_name {
                    Some(x) => {
                        let _ = self.state.alloc_var(x, f.clone());
                    },
                    None => {},
                }
                assert(self.state@ =~= old(self).state@.push(
                    semantics::call_frame(f@, args_model),
                ));
                Ok(Expr::Scope(Box::new((&**body).clone())))
            },
            _ => Err(RuntimeError::SteppingOnValue(f)),
        }
    }

    /// Performs exactly one reduction step on the tree.
    pub fn step(&mut self, e: Expr) -> (r: Result<Expr, RuntimeError>)
        ensures
            yields(r, old(self)@, final(self)@, semantics::step(e@, old(self)@)),
        decreases e@, 1nat,
    {
        match e {
            Expr::Var(x) => self.state.get(x),
            Expr::Int(n) => Err(RuntimeError::SteppingOnValue(Expr::Int(n))),
            Expr::Bool(b) => Err(RuntimeError::SteppingOnValue(Expr::Bool(b))),
            Expr::Func(name, body, params) => Err(
                RuntimeError::SteppingOnValue(Expr::Func(name, body, params)),
            ),
            Expr::Undefined => Err(RuntimeError::SteppingOnValue(Expr::Undefined)),
            Expr::Uop(op, a) => self.step_unary(op, a),
            Expr::Bop(op, a, b) => if op == BinOp::Assign {
                self.step_assign(a, b)
            } else {
                self.step_binary(op, a, b)
            },
            Expr::Ternary(c, t, f) => self.step_ternary(c, t, f),
            Expr::While(c, c0, b, b0, after) => self.step_while(c, c0, b, b0, after),
            Expr::Decl(kind, x, v, rest) => self.step_declaration(kind, x, v, rest),
            Expr::FnCall(f, args) => self.step_call(f, args),
            Expr::Scope(a) => self.step_scope(a),
            Expr::Print(a) => self.step_print(a),
            Expr::PrintVarName(a) => self.print_name(a),
        }
    }

    /// The step of a unary operation: the operator is applied once the operand
    /// is a value.
    fn step_unary(&mut self, op: UnOp, a: Box<Expr>) -> (r: Result<Expr, RuntimeError>)
        ensures
            yields(
                r,
                old(self)@,
                final(self)@,
                semantics::step(Term::Uop(op, Box::new(a@)), old(self)@),
            ),
        decreases Term::Uop(op, Box::new(a@)), 0nat,
    {
        if a.is_value() {
            unary_op(op, &a)
        } else {
            match self.step(*a) {
                Ok(next) => Ok(Expr::Uop(op, Box::new(next))),
                Err(err) => Err(err),
            }
        }
    }

    /// The step of an assignment: the right side is reduced to a value, which
    /// the name on the left then takes; the value is also the result.
    fn step_assign(&mut self, a: Box<Expr>, b: Box<Expr>) -> (r: Result<Expr, RuntimeError>)
        ensures
            yields(
                r,
                old(self)@,
                final(self)@,
                semantics::step(
                    Term::Bop(BinOp::Assign, Box::new(a@), Box::new(b@)),
                    old(self)@,
                ),
            ),
        decreases Term::Bop(BinOp::Assign, Box::new(a@), Box::new(b@)), 0nat,
    {
        if a.is_var() && b.is_value() {
            match a.to_var() {
                Ok(x) => match self.state.assign(x, (&*b).clone()) {
                    Ok(()) => Ok(*b),
                    Err(err) => Err(err),
                },
                Err(err) => Err(err),
            }
        } else if a.is_value() || a.is_var() {
            match self.step(*b) {
                Ok(next) => Ok(Expr::Bop(BinOp::Assign, a, Box::new(next))),
                Err(err) => Err(err),
            }
        } else {
            match self.step(*a) {
                Ok(next) => Ok(Expr::Bop(BinOp::Assign, Box::new(next), b)),
                Err(err) => Err(err),
            }
        }
    }

    /// The step of a binary operation other than assignment: the left operand
    /// is reduced first, then the right one, then the operator is applied. A
    /// sequence drops its left operand as soon as that is a value.
    fn step_binary(&mut self, op: BinOp, a: Box<Expr>, b: Box<Expr>) -> (r: Result<
        Expr,
        RuntimeError,
    >)
        requires
            op != BinOp::Assign,
        ensures
            yields(
                r,
                old(self)@,
                final(self)@,
                semantics::step(Term::Bop(op, Box::new(a@), Box::new(b@)), old(self)@),
            ),
        decreases Term::Bop(op, Box::new(a@), Box::new(b@)), 0nat,
    {
        if op == BinOp::Sequence && a.is_value() {
            Ok(*b)
        } else if a.is_value() && b.is_value() {
            binary_op(op, &a, &b)
        } else if a.is_value() {
            match self.step(*b) {
                Ok(next) => Ok(Expr::Bop(op, a, Box::new(next))),
                Err(err) => Err(err),
            }
        } else {
            match self.step(*a) {
                Ok(next) => Ok(Expr::Bop(op, Box::new(next), b)),
                Err(err) => Err(err),
            }
        }
    }

    /// The step of a conditional: once the condition is a value, the branch it
    /// selects is the result, and the other branch is dropped unreduced.
    fn step_ternary(&mut self, c: Box<Expr>, t: Box<Expr>, f: Box<Expr>) -> (r: Result<
        Expr,
        RuntimeError,
    >)
        ensures
            yields(
                r,
                old(self)@,
                final(self)@,
                semantics::step(
                    Term::Ternary(Box::new(c@), Box::new(t@), Box::new(f@)),
                    old(self)@,
                ),
            ),
        decreases Term::Ternary(Box::new(c@), Box::new(t@), Box::new(f@)), 0nat,
    {
        if c.is_value() {
            match c.to_bool() {
                Ok(true) => Ok(*t),
                Ok(false) => Ok(*f),
                Err(err) => Err(err),
            }
        } else {
            match self.step(*c) {
                Ok(next) => Ok(Expr::Ternary(Box::new(next), t, f)),
                Err(err) => Err(err),
            }
        }
    }

    /// The step of a loop: the working condition is reduced to a value; if it
    /// is false the loop gives way to what follows it; if it is true the working
    /// body is reduced to a value, and then the loop starts over from its
    /// untouched templates.
    fn step_while(
        &mut self,
        c: Box<Expr>,
        c0: Box<Expr>,
        b: Box<Expr>,
        b0: Box<Expr>,
        after: Box<Expr>,
    ) -> (r: Result<Expr, RuntimeError>)
        ensures
            yields(
                r,
                old(self)@,
                final(self)@,
                semantics::step(
                    Term::While(
                        Box::new(c@),
                        Box::new(c0@),
                        Box::new(b@),
                        Box::new(b0@),
                        Box::new(after@),
                    ),
                    old(self)@,
                ),
            ),
        decreases
                Term::While(
                    Box::new(c@),
                    Box::new(c0@),
                    Box::new(b@),
                    Box::new(b0@),
                    Box::new(after@),
                ),
                0nat,
    {
        if !c.is_value() {
            match self.step(*c) {
                Ok(next) => Ok(Expr::While(Box::new(next), c0, b, b0, after)),
                Err(err) => Err(err),
            }
        } else {
            match c.to_bool() {
                Err(err) => Err(err),
                Ok(false) => Ok(*after),
                Ok(true) => {
                    if b.is_value() {
                        let fresh_c = Box::new((&*c0).clone());
                        let fresh_b = Box::new((&*b0).clone());
                        Ok(Expr::While(fresh_c, c0, fresh_b, b0, after))
                    } else {
                        match self.step(*b) {
                            Ok(next) => Ok(Expr::While(c, c0, Box::new(next), b0, after)),
                            Err(err) => Err(err),
                        }
                    }
                },
            }
        }
    }

    /// The step of a declaration: once the initializer is a value, the name is
    /// bound to it in the top frame, and what follows the declaration is the
    /// result.
    fn step_declaration(&mut self, kind: Dec, x: Box<Expr>, v: Box<Expr>, rest: Box<Expr>) -> (r:
        Result<Expr, RuntimeError>)
        ensures
            yields(
                r,
                old(self)@,
                final(self)@,
                semantics::step(
                    Term::Decl(kind, Box::new(x@), Box::new(v@), Box::new(rest@)),
                    old(self)@,
                ),
            ),
        decreases Term::Decl(kind, Box::new(x@), Box::new(v@), Box::new(rest@)), 0nat,
    {
        if v.is_value() && (kind == Dec::DConst || x.is_var()) {
            match x.to_var() {
                Err(err) => Err(err),
                Ok(name) => {
                    let bound = match kind {
                        Dec::DVar => self.state.alloc_var(name, *v),
                        Dec::DConst => self.state.alloc_const(name, *v),
                    };
                    match bound {
                        Ok(()) => Ok(*rest),
                        Err(err) => Err(err),
                    }
                },
            }
        } else {
            match self.step(*v) {
                Ok(next) => Ok(Expr::Decl(kind, x, Box::new(next), rest)),
                Err(err) => Err(err),
            }
        }
    }

    /// The step of a call: the callee is reduced to a function, then the
    /// arguments to values from left to right, then the function is applied.
    fn step_call(&mut self, f: Box<Expr>, args: Vec<Expr>) -> (r: Result<Expr, RuntimeError>)
        ensures
            yields(
                r,
                old(self)@,
                final(self)@,
                semantics::step(
                    Term::FnCall(Box::new(f@), Expr::list_model(args@)),
                    old(self)@,
                ),
            ),
        decreases Term::FnCall(Box::new(f@), Expr::list_model(args@)), 0nat,
    {
        if f.is_func() {
            let i = first_pending(&args);
            if i < args.len() {
                let ghost before = Expr::list_model(args@);
                let mut args = args;
                let pending = args[i].clone();
                assert(pending@ == before[i as int]);
                match self.step(pending) {
                    Ok(next) => {
                        args.set(i, next);
                        assert(Expr::list_model(args@) =~= before.update(i as int, next@));
                        Ok(Expr::FnCall(f, args))
                    },
                    Err(err) => Err(err),
                }
            } else {
                self.call(*f, args)
            }
        } else if f.is_value() {
            Err(RuntimeError::UnexpectedExpr(String::from_str("expected Func"), *f))
        } else {
            match self.step(*f) {
                Ok(next) => Ok(Expr::FnCall(Box::new(next), args)),
                Err(err) => Err(err),
            }
        }
    }

    /// The step of a scope marker: once the body is a value, the frame of the
    /// call is popped and the value is the result.
    fn step_scope(&mut self, a: Box<Expr>) -> (r: Result<Expr, RuntimeError>)
        ensures
            yields(
                r,
                old(self)@,
                final(self)@,
                semantics::step(Term::Scope(Box::new(a@)), old(self)@),
            ),
        decreases Term::Scope(Box::new(a@)), 0nat,
    {
        if a.is_value() {
            self.state.end_scope();
            Ok(*a)
        } else {
            match self.step(*a) {
                Ok(next) => Ok(Expr::Scope(Box::new(next))),
                Err(err) => Err(err),
            }
        }
    }

    /// The step of a print: once the operand is a value, its text is emitted
    /// and the result is the undefined value.
    fn step_print(&mut self, a: Box<Expr>) -> (r: Result<Expr, RuntimeError>)
        ensures
            yields(
                r,
                old(self)@,
                final(self)@,
                semantics::step(Term::Print(Box::new(a@)), old(self)@),
            ),
        decreases Term::Print(Box::new(a@)), 0nat,
    {
        if a.is_value() {
            let line = a.to_text();
            self.output.push(line);
            assert(self@.output =~= old(self)@.output.push(a@.text()));
            Ok(Expr::Undefined)
        } else {
            match self.step(*a) {
                Ok(next) => Ok(Expr::Print(Box::new(next))),
                Err(err) => Err(err),
            }
        }
    }

    /// Emits the name of a variable that some frame binds; the result is the
    /// undefined value.
    fn print_name(&mut self, a: Box<Expr>) -> (r: Result<Expr, RuntimeError>)
        ensures
            yields(
                r,
                old(self)@,
                final(self)@,
                semantics::step(Term::PrintVarName(Box::new(a@)), old(self)@),
            ),
    {
        match *a {
            Expr::Var(x) => {
                if self.state.contains(x.clone()) {
                    self.output.push(x);
                    assert(self@.output =~= old(self)@.output.push(x@));
                    Ok(Expr::Undefined)
                } else {
                    Err(RuntimeError::VariableNotFound(x))
                }
            },
            other => Err(RuntimeError::UnexpectedExpr(String::from_str("expected Var"), other)),
        }
    }

    /// Reduces the tree step by step until it is a value, a step fails, or more
    /// than `limit` steps were taken.
    pub fn run_within(&mut self, e: Expr, limit: usize) -> (r: Result<Expr, RuntimeError>)
        requires
            limit < usize::MAX,
        ensures
            same_result(r, semantics::run_within(e@, old(self)@, 0, limit as nat).0),
            final(self)@ == semantics::run_within(e@, old(self)@, 0, limit as nat).1,
    {
        let mut current = e;
        let mut num_iterations: usize = 0;
        loop
            invariant
                limit < usize::MAX,
                num_iterations <= limit + 1,
                semantics::run_within(current@, self@, num_iterations as nat, limit as nat)
                    == semantics::run_within(e@, old(self)@, 0, limit as nat),
            decreases limit + 1 - num_iterations,
        {
            if num_iterations > limit {
                assert(semantics::run_within(
                    current@,
                    self@,
                    num_iterations as nat,
                    limit as nat,
                ) == (
                    Err::<Term, RuntimeErrorView>(
                        RuntimeErrorView::TooManyIterations(num_iterations as nat),
                    ),
                    self@,
                ));
                return Err(RuntimeError::TooManyIterations(num_iterations));
            }
            if current.is_value() {
                assert(semantics::run_within(
                    current@,
                    self@,
                    num_iterations as nat,
                    limit as nat,
                ) == (Ok::<Term, RuntimeErrorView>(current@), self@));
                return Ok(current);
            }
            num_iterations += 1;
            match self.step(current) {
                Ok(next) => {
                    current = next;
                },
                Err(err) => {
                    return Err(err);
                },
            }
        }
    }

    /// Reduces the tree step by step until it is a value, a step fails, or more
    /// steps were taken than one evaluation may take.
    pub fn run(&mut self, e: Expr) -> (r: Result<Expr, RuntimeError>)
        ensures
            same_result(r, semantics::run(e@, old(self)@).0),
            final(self)@ == semantics::run(e@, old(self)@).1,
    {
        self.run_within(e, 1000000000)
    }

    /// Parses the text and reduces the program to a value. The session keeps
    /// its environment: what one text declares, the next one sees.
    pub fn eval(&mut self, input: &str) -> (r: Result<Expr, RuntimeError>)
        ensures
            evaluated(r, old(self)@, final(self)@, input@),
    {
        match parse(input) {
            Ok(e) => self.run(e),
            Err(err) => Err(RuntimeError::ParserError(err)),
        }
    }
}

} // verus!
