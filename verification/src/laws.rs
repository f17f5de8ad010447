use vstd::prelude::*;
use crate::expr::{BinOp, Expr, Term};
use crate::interpreter::{evaluate, evaluated, yields};
use crate::numbers::{lemma_remainder, lemma_small_remainder};
use crate::runtime_error::{RuntimeError, RuntimeErrorView};
use crate::parser::progress::parsed_programs_are_clean;
use crate::scoping::{lemma_clean_is_well_scoped, run_keeps_frames_balanced, stored_clean};
use crate::semantics::{modulo, quotient, remainder, run, run_within, step, Machine};
use crate::state::{
    allocate, bound, innermost, lemma_innermost_is, lookup, reassign, BindingView, Memory,
};

verus! {

/// The value or the failure that a result holds, as a mathematical value.
pub open spec fn outcome_of(r: Result<Expr, RuntimeError>) -> Result<Term, RuntimeErrorView> {
    match r {
        Ok(e) => Ok(e@),
        Err(e) => Err(e@),
    }
}

/// A step is determined by the tree and the machine: two steps of equal
/// trees from equal machines return the same and leave equal machines.
pub proof fn step_is_deterministic(
    e1: Expr,
    e2: Expr,
    before1: Machine,
    before2: Machine,
    r1: Result<Expr, RuntimeError>,
    after1: Machine,
    r2: Result<Expr, RuntimeError>,
    after2: Machine,
)
    requires
        e1@ == e2@,
        before1 == before2,
        yields(r1, before1, after1, step(e1@, before1)),
        yields(r2, before2, after2, step(e2@, before2)),
    ensures
        outcome_of(r1) == outcome_of(r2),
        after1 == after2,
{
}

/// Evaluation is determined by the text and the machine: two evaluations of
/// one text from equal machines return the same and leave equal machines.
pub proof fn evaluation_is_deterministic(
    input: Seq<char>,
    before1: Machine,
    before2: Machine,
    r1: Result<Expr, RuntimeError>,
    after1: Machine,
    r2: Result<Expr, RuntimeError>,
    after2: Machine,
)
    requires
        before1 == before2,
        evaluated(r1, before1, after1, input),
        evaluated(r2, before2, after2, input),
    ensures
        outcome_of(r1) == outcome_of(r2),
        after1 == after2,
{
}

/// The left operand goes first: as long as it is not a value (nor, left of an
/// assignment, a name), a step of a binary node is the step of its left
/// operand, and the right operand stays as it is.
pub proof fn left_operand_first(op: BinOp, a: Term, b: Term, m: Machine)
    requires
        !a.is_value(),
        !(op is Assign && a is Var),
    ensures
        match step(a, m) {
            Ok((next, after)) => step(Term::Bop(op, Box::new(a), Box::new(b)), m) == Ok::<
                (Term, Machine),
                RuntimeErrorView,
            >((Term::Bop(op, Box::new(next), Box::new(b)), after)),
            Err(e) => step(Term::Bop(op, Box::new(a), Box::new(b)), m) == Err::<
                (Term, Machine),
                RuntimeErrorView,
            >(e),
        },
{
}

/// A sequence starts on its right operand only once the left one is a value:
/// the value is dropped, and the machine is as the left operand left it.
pub proof fn sequence_continues_with_right_operand(a: Term, b: Term, m: Machine)
    requires
        a.is_value(),
    ensures
        step(Term::Bop(BinOp::Sequence, Box::new(a), Box::new(b)), m) == Ok::<
            (Term, Machine),
            RuntimeErrorView,
        >((b, m)),
{
}

/// The multiple of `b` by `k`.
pub open spec fn multiple(b: int, k: int) -> int {
    b * k
}

/// The modulo has the sign of the divisor, is smaller than the divisor in
/// magnitude, and differs from the dividend by a multiple of the divisor.
pub proof fn modulo_takes_sign_of_divisor(a: int, b: int)
    requires
        b != 0,
    ensures
        b > 0 ==> 0 <= modulo(a, b) < b,
        b < 0 ==> b < modulo(a, b) <= 0,
        exists|k: int| modulo(a, b) == a - #[trigger] multiple(b, k),
{
    lemma_remainder(a, b);
    let r = remainder(a, b);
    lemma_small_remainder(r + b, b);
    let q = quotient(a, b);
    if modulo(a, b) == r {
        assert(modulo(a, b) == a - multiple(b, q));
    } else {
        assert(modulo(a, b) == r + b);
        assert(a - b * (q - 1) == a - b * q + b) by (nonlinear_arith);
        assert(modulo(a, b) == a - multiple(b, q - 1));
    }
}

/// A name that was declared immutable cannot be assigned: the assignment
/// fails, whatever the value.
pub proof fn assignment_to_constant_fails(
    mem: Memory,
    x: Seq<char>,
    declared: Term,
    assigned: Term,
    purpose: Seq<char>,
)
    requires
        mem.len() > 0,
    ensures
        allocate(mem, x, BindingView::Const(declared), purpose) is Ok,
        reassign(
            allocate(mem, x, BindingView::Const(declared), purpose)->Ok_0,
            x,
            assigned,
        ) == Err::<Memory, RuntimeErrorView>(
            RuntimeErrorView::InvalidConstAssignment(assigned, x),
        ),
{
    let after = allocate(mem, x, BindingView::Const(declared), purpose)->Ok_0;
    lemma_innermost_is(after, x, mem.len() - 1);
}

/// A declaration in the same frame rebinds the name: the later value is the
/// one that a lookup finds.
pub proof fn later_declaration_wins(
    mem: Memory,
    x: Seq<char>,
    first: BindingView,
    second: BindingView,
    purpose: Seq<char>,
)
    requires
        mem.len() > 0,
    ensures
        lookup(allocate(allocate(mem, x, first, purpose)->Ok_0, x, second, purpose)->Ok_0, x)
            == Ok::<Term, RuntimeErrorView>(second.value()),
{
    let once = allocate(mem, x, first, purpose)->Ok_0;
    let twice = allocate(once, x, second, purpose)->Ok_0;
    lemma_innermost_is(twice, x, mem.len() - 1);
}

/// An assignment to a mutable name is what a later lookup finds.
pub proof fn assignment_is_seen(mem: Memory, x: Seq<char>, value: Term)
    requires
        reassign(mem, x, value) is Ok,
    ensures
        lookup(reassign(mem, x, value)->Ok_0, x) == Ok::<Term, RuntimeErrorView>(value),
{
    crate::state::lemma_innermost(mem, x);
    let i = innermost(mem, x)->0;
    let after = reassign(mem, x, value)->Ok_0;
    lemma_innermost_is(after, x, i);
}

/// A conditional is lazy: while the condition is reduced both branches stay
/// as they are, and once it is a boolean the step is the chosen branch alone,
/// with the machine untouched; the other branch is gone unreduced.
pub proof fn ternary_is_lazy(c: Term, yes: Term, no: Term, m: Machine)
    ensures
        c == Term::Bool(true) ==> step(
            Term::Ternary(Box::new(c), Box::new(yes), Box::new(no)),
            m,
        ) == Ok::<(Term, Machine), RuntimeErrorView>((yes, m)),
        c == Term::Bool(false) ==> step(
            Term::Ternary(Box::new(c), Box::new(yes), Box::new(no)),
            m,
        ) == Ok::<(Term, Machine), RuntimeErrorView>((no, m)),
        !c.is_value() ==> match step(c, m) {
            Ok((next, after)) => step(
                Term::Ternary(Box::new(c), Box::new(yes), Box::new(no)),
                m,
            ) == Ok::<(Term, Machine), RuntimeErrorView>(
                (Term::Ternary(Box::new(next), Box::new(yes), Box::new(no)), after),
            ),
            Err(e) => step(Term::Ternary(Box::new(c), Box::new(yes), Box::new(no)), m) == Err::<
                (Term, Machine),
                RuntimeErrorView,
            >(e),
        },
{
}

/// A name that no frame binds cannot be evaluated: the step fails, and so
/// does the whole evaluation, leaving the machine untouched. A name that some
/// frame binds steps to its value.
pub proof fn unknown_variable_fails(x: Seq<char>, m: Machine)
    ensures
        !bound(m.mem, x) ==> step(Term::Var(x), m) == Err::<(Term, Machine), RuntimeErrorView>(
            RuntimeErrorView::VariableNotFound(x),
        ),
        !bound(m.mem, x) ==> run(Term::Var(x), m) == (
            Err::<Term, RuntimeErrorView>(RuntimeErrorView::VariableNotFound(x)),
            m,
        ),
        bound(m.mem, x) ==> step(Term::Var(x), m) is Ok,
{
}

/// `&&` and `||` do not short-circuit: with the left operand a value,
/// whatever it is, a step of the node is the step of the right operand.
pub proof fn no_short_circuit(op: BinOp, a: Term, b: Term, m: Machine)
    requires
        op is And || op is Or,
        a.is_value(),
        !b.is_value(),
    ensures
        match step(b, m) {
            Ok((next, after)) => step(Term::Bop(op, Box::new(a), Box::new(b)), m) == Ok::<
                (Term, Machine),
                RuntimeErrorView,
            >((Term::Bop(op, Box::new(a), Box::new(next)), after)),
            Err(e) => step(Term::Bop(op, Box::new(a), Box::new(b)), m) == Err::<
                (Term, Machine),
                RuntimeErrorView,
            >(e),
        },
{
}

/// A loop starts over from its templates: once the working condition is true
/// and the working body is a value, the step is the loop with both working
/// copies replaced by the templates; a false condition leaves what follows
/// the loop. Neither changes the machine.
pub proof fn loop_unfolds_from_templates(
    body: Term,
    c0: Term,
    b0: Term,
    after: Term,
    m: Machine,
)
    ensures
        body.is_value() ==> step(
            Term::While(
                Box::new(Term::Bool(true)),
                Box::new(c0),
                Box::new(body),
                Box::new(b0),
                Box::new(after),
            ),
            m,
        ) == Ok::<(Term, Machine), RuntimeErrorView>(
            (
                Term::While(
                    Box::new(c0),
                    Box::new(c0),
                    Box::new(b0),
                    Box::new(b0),
                    Box::new(after),
                ),
                m,
            ),
        ),
        step(
            Term::While(
                Box::new(Term::Bool(false)),
                Box::new(c0),
                Box::new(body),
                Box::new(b0),
                Box::new(after),
            ),
            m,
        ) == Ok::<(Term, Machine), RuntimeErrorView>((after, m)),
{
}

/// The root frame outlives every evaluation: evaluating a text never leaves
/// fewer frames than it found, keeps the stored values clean, and when it
/// returns a value it leaves exactly the frames it found.
pub proof fn evaluation_keeps_the_root_frame(input: Seq<char>, m: Machine)
    requires
        stored_clean(m.mem),
    ensures
        match evaluate(input, m) {
            (r, after) => {
                &&& stored_clean(after.mem)
                &&& after.mem.len() >= m.mem.len()
                &&& r is Ok ==> after.mem.len() == m.mem.len()
            },
        },
{
    parsed_programs_are_clean(input);
    match crate::parser::grammar::parse(input) {
        Ok(t) => {
            lemma_clean_is_well_scoped(t);
            run_keeps_frames_balanced(t, m, 0, crate::semantics::step_limit());
        },
        Err(_) => {},
    }
}

/// What the driver returns is a value, and so is what an evaluation returns.
pub proof fn driver_returns_values(e: Term, m: Machine, taken: nat, limit: nat)
    ensures
        match run_within(e, m, taken, limit) {
            (Ok(v), _) => v.is_value(),
            (Err(_), _) => true,
        },
    decreases limit + 1 - taken,
{
    if taken <= limit && !e.is_value() {
        match step(e, m) {
            Ok((next, after)) => driver_returns_values(next, after, taken + 1, limit),
            Err(_) => {},
        }
    }
}

/// A value takes no step, and the driver returns it at once.
pub proof fn values_are_terminal(v: Term, m: Machine)
    requires
        v.is_value(),
    ensures
        step(v, m) == Err::<(Term, Machine), RuntimeErrorView>(
            RuntimeErrorView::SteppingOnValue(v),
        ),
        run(v, m) == (Ok::<Term, RuntimeErrorView>(v), m),
{
}

} // verus!
