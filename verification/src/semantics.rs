use vstd::prelude::*;
use crate::expr::{BinOp, Dec, Term, UnOp};
use crate::runtime_error::RuntimeErrorView;
use crate::state::{allocate, bound, lookup, popped, reassign, BindingView, Memory};

verus! {

/// What a step can read and change: the frame stack and the lines printed so
/// far, oldest first.
pub struct Machine {
    pub mem: Memory,
    pub output: Seq<Seq<char>>,
}

/// What a step yields: the next tree with the machine it leaves, or a failure.
/// A step that fails leaves the machine as it found it.
pub type Outcome = Result<(Term, Machine), RuntimeErrorView>;

/// The integer, within the range of a machine word, that differs from `i` by a
/// multiple of the number of values that a machine word has: what arithmetic
/// that wraps around arrives at.
pub open spec fn wrap(i: int) -> int {
    vstd::wrapping::isize_specs::signed_crop(i) as int
}

/// The quotient of a division that rounds towards zero.
pub open spec fn quotient(a: int, b: int) -> int {
    if a == 0 {
        0
    } else if a > 0 && b > 0 {
        a / b
    } else if a < 0 && b < 0 {
        (-a) / (-b)
    } else if a < 0 {
        -((-a) / b)
    } else {
        -(a / (-b))
    }
}

/// The remainder of a division that rounds towards zero: it has the sign of
/// the dividend.
pub open spec fn remainder(a: int, b: int) -> int {
    a - b * quotient(a, b)
}

/// The remainder brought to the sign of the divisor.
pub open spec fn modulo(a: int, b: int) -> int {
    remainder(remainder(a, b) + b, b)
}

/// What a unary operator makes of a value.
pub open spec fn unary(op: UnOp, v: Term) -> Result<Term, RuntimeErrorView> {
    match op {
        UnOp::Not => match v.as_bool() {
            Ok(b) => Ok(Term::Bool(!b)),
            Err(e) => Err(e),
        },
        UnOp::Neg => match v.as_int() {
            Ok(n) => Ok(Term::Int(wrap(-n))),
            Err(e) => Err(e),
        },
    }
}

/// What an arithmetic or comparison operator makes of two integers.
pub open spec fn arithmetic(op: BinOp, x: int, y: int, divisor: Term) -> Result<
    Term,
    RuntimeErrorView,
> {
    match op {
        BinOp::Plus => Ok(Term::Int(wrap(x + y))),
        BinOp::Minus => Ok(Term::Int(wrap(x - y))),
        BinOp::Times => Ok(Term::Int(wrap(x * y))),
        BinOp::Div => if y == 0 {
            Err(RuntimeErrorView::UnexpectedExpr("expected nonzero divisor"@, divisor))
        } else {
            Ok(Term::Int(wrap(quotient(x, y))))
        },
        BinOp::Mod => if y == 0 {
            Err(RuntimeErrorView::UnexpectedExpr("expected nonzero divisor"@, divisor))
        } else {
            Ok(Term::Int(modulo(x, y)))
        },
        BinOp::Lt => Ok(Term::Bool(x < y)),
        BinOp::Gt => Ok(Term::Bool(x > y)),
        BinOp::Leq => Ok(Term::Bool(x <= y)),
        _ => Ok(Term::Bool(x >= y)),
    }
}

/// What a binary operator makes of two values. The left operand is converted
/// first; `&&` and `||` convert the right one only where the left one does
/// not settle the result. Equality compares any two values, of whatever kind.
pub open spec fn binary(op: BinOp, a: Term, b: Term) -> Result<Term, RuntimeErrorView> {
    match op {
        BinOp::And => match a.as_bool() {
            Err(e) => Err(e),
            Ok(false) => Ok(Term::Bool(false)),
            Ok(true) => match b.as_bool() {
                Ok(y) => Ok(Term::Bool(y)),
                Err(e) => Err(e),
            },
        },
        BinOp::Or => match a.as_bool() {
            Err(e) => Err(e),
            Ok(true) => Ok(Term::Bool(true)),
            Ok(false) => match b.as_bool() {
                Ok(y) => Ok(Term::Bool(y)),
                Err(e) => Err(e),
            },
        },
        BinOp::Eq => Ok(Term::Bool(a == b)),
        BinOp::Ne => Ok(Term::Bool(a != b)),
        BinOp::Sequence => Ok(b),
        BinOp::Assign => Err(RuntimeErrorView::SteppingOnValue(b)),
        _ => match a.as_int() {
            Err(e) => Err(e),
            Ok(x) => match b.as_int() {
                Err(e) => Err(e),
                Ok(y) => arithmetic(op, x, y, b),
            },
        },
    }
}

/// The index, from `from` on, of the first tree of the list that is not a
/// value; the length of the list if there is none.
pub open spec fn first_pending(list: Seq<Term>, from: int) -> int
    decreases list.len() - from,
{
    if from < 0 || from >= list.len() {
        list.len() as int
    } else if !list[from].is_value() {
        from
    } else {
        first_pending(list, from + 1)
    }
}

/// The first tree that is not a value lies within the list unless all are
/// values, and every tree before it is a value.
pub proof fn lemma_first_pending(list: Seq<Term>, from: int)
    requires
        0 <= from <= list.len(),
    ensures
        from <= first_pending(list, from) <= list.len(),
        first_pending(list, from) < list.len() ==> !list[first_pending(
            list,
            from,
        )].is_value(),
        forall|j: int|
            from <= j < first_pending(list, from) ==> (#[trigger] list[j]).is_value(),
    decreases list.len() - from,
{
    if from < list.len() && list[from].is_value() {
        lemma_first_pending(list, from + 1);
    }
}

/// An index whose tree is not a value, with only values from `from` up to
/// it, is the first pending one.
pub proof fn lemma_first_pending_at(list: Seq<Term>, from: int, k: int)
    requires
        0 <= from <= k < list.len(),
        !list[k].is_value(),
        forall|j: int| from <= j < k ==> (#[trigger] list[j]).is_value(),
    ensures
        first_pending(list, from) == k,
    decreases k - from,
{
    if from < k {
        lemma_first_pending_at(list, from + 1, k);
    }
}

/// The failure of the first of the first `n` parameters that is not a name.
pub open spec fn bad_parameter(params: Seq<Term>, n: nat) -> Option<RuntimeErrorView>
    decreases n,
{
    if n == 0 {
        None
    } else {
        match bad_parameter(params, (n - 1) as nat) {
            Some(e) => Some(e),
            None => match params[n - 1].as_var() {
                Err(e) => Some(e),
                Ok(_) => None,
            },
        }
    }
}

/// A frame in which the first `n` parameters are bound to their arguments, in
/// order, each as a value that may be assigned again.
pub open spec fn with_arguments(params: Seq<Term>, args: Seq<Term>, n: nat) -> Map<
    Seq<char>,
    BindingView,
>
    decreases n,
{
    if n == 0 {
        Map::empty()
    } else {
        let before = with_arguments(params, args, (n - 1) as nat);
        match params[n - 1] {
            Term::Var(x) => before.insert(x, BindingView::Var(args[n - 1])),
            _ => before,
        }
    }
}

/// How many parameters of a call get an argument: surplus parameters stay
/// unbound and surplus arguments are dropped.
pub open spec fn paired(params: Seq<Term>, args: Seq<Term>) -> nat {
    if params.len() <= args.len() {
        params.len()
    } else {
        args.len()
    }
}

/// The frame that a call starts in: the parameters bound to the arguments and
/// then, for a function that has a name of its own, that name bound to the
/// function.
pub open spec fn call_frame(f: Term, args: Seq<Term>) -> Map<Seq<char>, BindingView> {
    let bound_args = with_arguments(f->Func_2, args, paired(f->Func_2, args));
    match f->Func_0 {
        Some(name) => match *name {
            Term::Var(x) => bound_args.insert(x, BindingView::Var(f)),
            _ => bound_args,
        },
        None => bound_args,
    }
}

/// The call of a function on values: a new frame is pushed, and the body is
/// left to be reduced inside a scope marker. A parameter, or the function's own
/// name, that is not a name fails the call.
pub open spec fn call(f: Term, args: Seq<Term>, m: Machine) -> Outcome {
    match bad_parameter(f->Func_2, paired(f->Func_2, args)) {
        Some(e) => Err(e),
        None => {
            let own_name: Result<Seq<char>, RuntimeErrorView> = match f->Func_0 {
                Some(name) => name.as_var(),
                None => Ok(Seq::<char>::empty()),
            };
            match own_name {
                Err(e) => Err(e),
                Ok(_) => Ok(
                    (
                        Term::Scope(f->Func_1),
                        Machine { mem: m.mem.push(call_frame(f, args)), output: m.output },
                    ),
                ),
            }
        },
    }
}

/// The outcome of a node one of whose children took the step `inner`: the node
/// rebuilt around the child's successor, or the child's failure.
pub open spec fn rebuilt(inner: Outcome, around: spec_fn(Term) -> Term) -> Outcome {
    match inner {
        Ok((t, m)) => Ok((around(t), m)),
        Err(e) => Err(e),
    }
}

/// The outcome of a rule that changes nothing but the tree.
pub open spec fn pure_step(result: Result<Term, RuntimeErrorView>, m: Machine) -> Outcome {
    match result {
        Ok(t) => Ok((t, m)),
        Err(e) => Err(e),
    }
}

/// The outcome of a rule that changes the frame stack.
pub open spec fn memory_step(t: Term, mem: Result<Memory, RuntimeErrorView>, m: Machine)
    -> Outcome {
    match mem {
        Ok(mem) => Ok((t, Machine { mem, output: m.output })),
        Err(e) => Err(e),
    }
}

/// The binding that a declaration of the given kind makes.
pub open spec fn declared(kind: Dec, v: Term) -> BindingView {
    match kind {
        Dec::DVar => BindingView::Var(v),
        Dec::DConst => BindingView::Const(v),
    }
}

/// What a declaration of the given kind wanted the top frame for.
pub open spec fn purpose(kind: Dec) -> Seq<char> {
    match kind {
        Dec::DVar => "no memory frame for var allocation"@,
        Dec::DConst => "no memory frame for const allocation"@,
    }
}

/// One reduction step: the single rewrite that the tree admits in the machine.
///
/// A node all of whose operands are values is reduced by the rule of its kind;
/// any other node takes the step of its leftmost operand that is not yet a
/// value, so evaluation is strict, left to right and by value. Stepping a value
/// is a failure.
pub open spec fn step(e: Term, m: Machine) -> Outcome
    decreases e,
{
    match e {
        Term::Var(x) => pure_step(lookup(m.mem, x), m),
        Term::Int(_) | Term::Bool(_) | Term::Func(_, _, _) | Term::Undefined => Err(
            RuntimeErrorView::SteppingOnValue(e),
        ),
        Term::Uop(op, a) => if a.is_value() {
            pure_step(unary(op, *a), m)
        } else {
            rebuilt(step(*a, m), |t: Term| Term::Uop(op, Box::new(t)))
        },
        Term::Bop(op, a, b) => if op is Sequence && a.is_value() {
            Ok((*b, m))
        } else if op is Assign {
            if *a is Var && b.is_value() {
                memory_step(*b, reassign(m.mem, (*a)->Var_0, *b), m)
            } else if a.is_value() || *a is Var {
                rebuilt(step(*b, m), |t: Term| Term::Bop(op, a, Box::new(t)))
            } else {
                rebuilt(step(*a, m), |t: Term| Term::Bop(op, Box::new(t), b))
            }
        } else if a.is_value() && b.is_value() {
            pure_step(binary(op, *a, *b), m)
        } else if a.is_value() {
            rebuilt(step(*b, m), |t: Term| Term::Bop(op, a, Box::new(t)))
        } else {
            rebuilt(step(*a, m), |t: Term| Term::Bop(op, Box::new(t), b))
        },
        Term::Ternary(c, t, f) => if c.is_value() {
            match c.as_bool() {
                Ok(true) => Ok((*t, m)),
                Ok(false) => Ok((*f, m)),
                Err(e) => Err(e),
            }
        } else {
            rebuilt(step(*c, m), |s: Term| Term::Ternary(Box::new(s), t, f))
        },
        Term::While(c, c0, b, b0, after) => if !c.is_value() {
            rebuilt(step(*c, m), |s: Term| Term::While(Box::new(s), c0, b, b0, after))
        } else {
            match c.as_bool() {
                Err(e) => Err(e),
                Ok(false) => Ok((*after, m)),
                Ok(true) => if b.is_value() {
                    Ok((Term::While(c0, c0, b0, b0, after), m))
                } else {
                    rebuilt(step(*b, m), |s: Term| Term::While(c, c0, Box::new(s), b0, after))
                },
            }
        },
        Term::Decl(kind, x, v, rest) => if v.is_value() && (kind is DConst || *x is Var) {
            match x.as_var() {
                Err(e) => Err(e),
                Ok(name) => memory_step(
                    *rest,
                    allocate(m.mem, name, declared(kind, *v), purpose(kind)),
                    m,
                ),
            }
        } else {
            rebuilt(step(*v, m), |s: Term| Term::Decl(kind, x, Box::new(s), rest))
        },
        Term::FnCall(f, args) => if *f is Func {
            let i = first_pending(args, 0);
            if 0 <= i < args.len() {
                rebuilt(step(args[i], m), |s: Term| Term::FnCall(f, args.update(i, s)))
            } else {
                call(*f, args, m)
            }
        } else if f.is_value() {
            Err(RuntimeErrorView::UnexpectedExpr("expected Func"@, *f))
        } else {
            rebuilt(step(*f, m), |s: Term| Term::FnCall(Box::new(s), args))
        },
        Term::Scope(a) => if a.is_value() {
            Ok((*a, Machine { mem: popped(m.mem), output: m.output }))
        } else {
            rebuilt(step(*a, m), |s: Term| Term::Scope(Box::new(s)))
        },
        Term::Print(a) => if a.is_value() {
            Ok((Term::Undefined, Machine { mem: m.mem, output: m.output.push(a.text()) }))
        } else {
            rebuilt(step(*a, m), |s: Term| Term::Print(Box::new(s)))
        },
        Term::PrintVarName(a) => match *a {
            Term::Var(x) => if bound(m.mem, x) {
                Ok((Term::Undefined, Machine { mem: m.mem, output: m.output.push(x) }))
            } else {
                Err(RuntimeErrorView::VariableNotFound(x))
            },
            _ => Err(RuntimeErrorView::UnexpectedExpr("expected Var"@, *a)),
        },
    }
}

/// The most steps that one evaluation may take.
pub open spec fn step_limit() -> nat {
    1000000000
}

/// What the driver returns for a tree on which `taken` steps have been spent,
/// where at most `limit` may be: the value reached, the first failure of a
/// step, or the failure of having spent more steps than allowed, which carries
/// the count; with the machine as the last step that succeeded left it.
pub open spec fn run_within(e: Term, m: Machine, taken: nat, limit: nat) -> (
    Result<Term, RuntimeErrorView>,
    Machine,
)
    decreases limit + 1 - taken,
{
    if taken > limit {
        (Err(RuntimeErrorView::TooManyIterations(taken)), m)
    } else if e.is_value() {
        (Ok(e), m)
    } else {
        match step(e, m) {
            Ok((next, after)) => run_within(next, after, taken + 1, limit),
            Err(err) => (Err(err), m),
        }
    }
}

/// What the driver returns for a tree, under the limit of one evaluation.
pub open spec fn run(e: Term, m: Machine) -> (Result<Term, RuntimeErrorView>, Machine) {
    run_within(e, m, 0, step_limit())
}

} // verus!
