use vstd::prelude::*;
use crate::expr::Term;
use crate::runtime_error::RuntimeErrorView;
use crate::semantics::{
    binary, call_frame, first_pending, lemma_first_pending, lemma_first_pending_at,
    paired, run_within, step, unary, with_arguments, Machine,
};
use crate::state::{
    allocate, innermost, lemma_innermost, lookup, popped, pushed, reassign, BindingView, Memory,
};

verus! {

/// Whether the tree holds no scope marker anywhere: the trees that a program
/// text can be.
pub open spec fn clean(e: Term) -> bool
    decreases e,
{
    match e {
        Term::Int(_) | Term::Bool(_) | Term::Var(_) | Term::Undefined => true,
        Term::Bop(_, a, b) => clean(*a) && clean(*b),
        Term::Uop(_, a) => clean(*a),
        Term::Ternary(a, b, c) => clean(*a) && clean(*b) && clean(*c),
        Term::While(a, b, c, d, f) => clean(*a) && clean(*b) && clean(*c) && clean(*d) && clean(
            *f,
        ),
        Term::Decl(_, x, v, rest) => clean(*x) && clean(*v) && clean(*rest),
        Term::Func(name, body, params) => {
            &&& match name {
                Some(n) => clean(*n),
                None => true,
            }
            &&& clean(*body)
            &&& forall|i: int| 0 <= i < params.len() ==> clean(#[trigger] params[i])
        },
        Term::FnCall(f, args) => {
            &&& clean(*f)
            &&& forall|i: int| 0 <= i < args.len() ==> clean(#[trigger] args[i])
        },
        Term::Scope(_) => false,
        Term::Print(a) => clean(*a),
        Term::PrintVarName(a) => clean(*a),
    }
}

/// How many calls the tree is inside of: the scope markers around the place
/// where its next step happens.
pub open spec fn depth(e: Term) -> nat
    decreases e,
{
    match e {
        Term::Int(_) | Term::Bool(_) | Term::Var(_) | Term::Undefined => 0,
        Term::Func(_, _, _) => 0,
        Term::Uop(_, a) => depth(*a),
        Term::Bop(op, a, b) => if a.is_value() || (op is Assign && *a is Var) {
            depth(*b)
        } else {
            depth(*a)
        },
        Term::Ternary(c, _, _) => depth(*c),
        Term::While(c, _, b, _, _) => if !c.is_value() {
            depth(*c)
        } else if *c == Term::Bool(true) {
            depth(*b)
        } else {
            0
        },
        Term::Decl(_, _, v, _) => depth(*v),
        Term::FnCall(f, args) => if *f is Func {
            let i = first_pending(args, 0);
            if 0 <= i < args.len() {
                depth(args[i])
            } else {
                0
            }
        } else {
            depth(*f)
        },
        Term::Scope(a) => 1 + depth(*a),
        Term::Print(a) => depth(*a),
        Term::PrintVarName(_) => 0,
    }
}

/// Whether scope markers stand only around the place where the next step
/// happens: everything that waits for its turn is clean.
pub open spec fn well_scoped(e: Term) -> bool
    decreases e,
{
    match e {
        Term::Int(_) | Term::Bool(_) | Term::Var(_) | Term::Undefined => true,
        Term::Func(_, _, _) => clean(e),
        Term::Uop(_, a) => well_scoped(*a),
        Term::Bop(op, a, b) => if a.is_value() || (op is Assign && *a is Var) {
            clean(*a) && well_scoped(*b)
        } else {
            well_scoped(*a) && clean(*b)
        },
        Term::Ternary(c, t, f) => well_scoped(*c) && clean(*t) && clean(*f),
        Term::While(c, c0, b, b0, after) => {
            &&& clean(*c0)
            &&& clean(*b0)
            &&& clean(*after)
            &&& if !c.is_value() {
                well_scoped(*c) && clean(*b)
            } else if *c == Term::Bool(true) {
                well_scoped(*b)
            } else {
                clean(*c) && clean(*b)
            }
        },
        Term::Decl(_, x, v, rest) => clean(*x) && well_scoped(*v) && clean(*rest),
        Term::FnCall(f, args) => if *f is Func {
            let i = first_pending(args, 0);
            &&& clean(*f)
            &&& forall|j: int| 0 <= j < args.len() && j != i ==> clean(#[trigger] args[j])
            &&& 0 <= i < args.len() ==> well_scoped(args[i])
        } else {
            &&& well_scoped(*f)
            &&& forall|j: int| 0 <= j < args.len() ==> clean(#[trigger] args[j])
        },
        Term::Scope(a) => well_scoped(*a),
        Term::Print(a) => well_scoped(*a),
        Term::PrintVarName(a) => clean(*a),
    }
}

/// Whether every value that the frames hold is clean.
pub open spec fn stored_clean(mem: Memory) -> bool {
    forall|i: int, x: Seq<char>|
        0 <= i < mem.len() && #[trigger] mem[i].contains_key(x) ==> clean(mem[i][x].value())
}

/// A clean tree is well scoped, and inside of no call.
pub proof fn lemma_clean_is_well_scoped(e: Term)
    requires
        clean(e),
    ensures
        well_scoped(e),
        depth(e) == 0,
    decreases e,
{
    match e {
        Term::Uop(_, a) => lemma_clean_is_well_scoped(*a),
        Term::Bop(_, a, b) => {
            lemma_clean_is_well_scoped(*a);
            lemma_clean_is_well_scoped(*b);
        },
        Term::Ternary(c, _, _) => lemma_clean_is_well_scoped(*c),
        Term::While(c, _, b, _, _) => {
            lemma_clean_is_well_scoped(*c);
            lemma_clean_is_well_scoped(*b);
        },
        Term::Decl(_, _, v, _) => lemma_clean_is_well_scoped(*v),
        Term::FnCall(f, args) => {
            lemma_clean_is_well_scoped(*f);
            let i = first_pending(args, 0);
            if 0 <= i < args.len() {
                assert(clean(args[i]));
                lemma_clean_is_well_scoped(args[i]);
            }
        },
        Term::Print(a) => lemma_clean_is_well_scoped(*a),
        _ => {},
    }
}

/// A well-scoped value is clean, and inside of no call.
pub proof fn lemma_value_is_clean(v: Term)
    requires
        v.is_value(),
        well_scoped(v),
    ensures
        clean(v),
        depth(v) == 0,
{
}

/// What a lookup finds among clean values is clean.
pub proof fn lemma_lookup_is_clean(mem: Memory, x: Seq<char>)
    requires
        stored_clean(mem),
    ensures
        lookup(mem, x) is Ok ==> clean(lookup(mem, x)->Ok_0),
{
    lemma_innermost(mem, x);
}

/// Binding a clean value keeps the stored values clean.
pub proof fn lemma_allocate_keeps_clean(
    mem: Memory,
    x: Seq<char>,
    binding: BindingView,
    purpose: Seq<char>,
)
    requires
        stored_clean(mem),
        clean(binding.value()),
    ensures
        allocate(mem, x, binding, purpose) is Ok ==> stored_clean(
            allocate(mem, x, binding, purpose)->Ok_0,
        ) && allocate(mem, x, binding, purpose)->Ok_0.len() == mem.len(),
{
    if mem.len() > 0 {
        let after = allocate(mem, x, binding, purpose)->Ok_0;
        assert forall|i: int, y: Seq<char>|
            0 <= i < after.len() && #[trigger] after[i].contains_key(y) implies clean(
            after[i][y].value(),
        ) by {
            if i == mem.len() - 1 && y == x {
            } else {
                assert(mem[i].contains_key(y));
            }
        }
    }
}

/// Assigning a clean value keeps the stored values clean.
pub proof fn lemma_reassign_keeps_clean(mem: Memory, x: Seq<char>, value: Term)
    requires
        stored_clean(mem),
        clean(value),
    ensures
        reassign(mem, x, value) is Ok ==> stored_clean(reassign(mem, x, value)->Ok_0) && reassign(
            mem,
            x,
            value,
        )->Ok_0.len() == mem.len(),
{
    lemma_innermost(mem, x);
    if reassign(mem, x, value) is Ok {
        let k = innermost(mem, x)->0;
        let after = reassign(mem, x, value)->Ok_0;
        assert forall|i: int, y: Seq<char>|
            0 <= i < after.len() && #[trigger] after[i].contains_key(y) implies clean(
            after[i][y].value(),
        ) by {
            if i == k && y == x {
            } else {
                assert(mem[i].contains_key(y));
            }
        }
    }
}

/// Pushing a frame of clean values, and popping a frame, keep the stored
/// values clean.
pub proof fn lemma_frames_keep_clean(mem: Memory, frame: Map<Seq<char>, BindingView>)
    requires
        stored_clean(mem),
        forall|x: Seq<char>| #[trigger] frame.contains_key(x) ==> clean(frame[x].value()),
    ensures
        stored_clean(mem.push(frame)),
        stored_clean(popped(mem)),
{
    let more = mem.push(frame);
    assert forall|i: int, y: Seq<char>|
        0 <= i < more.len() && #[trigger] more[i].contains_key(y) implies clean(
        more[i][y].value(),
    ) by {
        if i < mem.len() {
            assert(mem[i].contains_key(y));
        }
    }
    let fewer = popped(mem);
    assert forall|i: int, y: Seq<char>|
        0 <= i < fewer.len() && #[trigger] fewer[i].contains_key(y) implies clean(
        fewer[i][y].value(),
    ) by {
        assert(mem[i].contains_key(y));
    }
}

/// The frame in which the first parameters are bound to clean arguments
/// holds clean values.
proof fn lemma_arguments_are_clean(params: Seq<Term>, args: Seq<Term>, n: nat)
    requires
        n <= args.len(),
        forall|i: int| 0 <= i < args.len() ==> clean(#[trigger] args[i]),
    ensures
        forall|x: Seq<char>| #[trigger]
            with_arguments(params, args, n).contains_key(x) ==> clean(
                with_arguments(params, args, n)[x].value(),
            ),
    decreases n,
{
    if n > 0 {
        lemma_arguments_are_clean(params, args, (n - 1) as nat);
        assert(clean(args[n - 1]));
    }
}

/// The frame that the call of a clean function on clean arguments starts in
/// holds clean values.
proof fn lemma_call_frame_is_clean(f: Term, args: Seq<Term>)
    requires
        f is Func,
        clean(f),
        forall|i: int| 0 <= i < args.len() ==> clean(#[trigger] args[i]),
    ensures
        forall|x: Seq<char>| #[trigger]
            call_frame(f, args).contains_key(x) ==> clean(call_frame(f, args)[x].value()),
{
    lemma_arguments_are_clean(f->Func_2, args, paired(f->Func_2, args));
}

/// An operator applied to values yields a value that holds no tree at all.
proof fn lemma_operators_yield_plain_values(e: Term)
    ensures
        match e {
            Term::Uop(op, a) => unary(op, *a) is Ok ==> clean(unary(op, *a)->Ok_0) && depth(
                unary(op, *a)->Ok_0,
            ) == 0,
            Term::Bop(op, a, b) => !(op is Sequence) && binary(op, *a, *b) is Ok ==> clean(
                binary(op, *a, *b)->Ok_0,
            ) && depth(binary(op, *a, *b)->Ok_0) == 0,
            _ => true,
        },
{
}

/// Whether the machine fits the tree: scope markers stand only where the next
/// step happens, the frames hold clean values, and there is a frame for every
/// call that the tree is inside of.
pub open spec fn balanced(e: Term, m: Machine) -> bool {
    &&& well_scoped(e)
    &&& stored_clean(m.mem)
    &&& m.mem.len() >= depth(e)
}

/// Frames balance calls: a step keeps the machine fitting the tree, and the
/// number of frames changes exactly as the number of calls that the tree is
/// inside of: a frame is pushed where a call begins and popped where its body
/// has become a value, and nowhere else.
pub proof fn step_keeps_frames_balanced(e: Term, m: Machine)
    requires
        balanced(e, m),
    ensures
        match step(e, m) {
            Ok((next, after)) => balanced(next, after) && after.mem.len() - depth(next)
                == m.mem.len() - depth(e),
            Err(_) => true,
        },
    decreases e,
{
    lemma_operators_yield_plain_values(e);
    match e {
        Term::Var(x) => {
            lemma_lookup_is_clean(m.mem, x);
            if lookup(m.mem, x) is Ok {
                lemma_clean_is_well_scoped(lookup(m.mem, x)->Ok_0);
            }
        },
        Term::Uop(op, a) => {
            if !a.is_value() {
                step_keeps_frames_balanced(*a, m);
            } else {
                lemma_value_is_clean(*a);
            }
        },
        Term::Bop(op, a, b) => {
            if op is Sequence && a.is_value() {
            } else if op is Assign {
                if *a is Var && b.is_value() {
                    lemma_value_is_clean(*b);
                    lemma_reassign_keeps_clean(m.mem, (*a)->Var_0, *b);
                } else if a.is_value() || *a is Var {
                    step_keeps_frames_balanced(*b, m);
                } else {
                    step_keeps_frames_balanced(*a, m);
                    lemma_clean_is_well_scoped(*b);
                    match step(*a, m) {
                        Ok((a2, _)) => {
                            if a2.is_value() {
                                lemma_value_is_clean(a2);
                            }
                        },
                        Err(_) => {},
                    }
                }
            } else if a.is_value() && b.is_value() {
                lemma_value_is_clean(*b);
            } else if a.is_value() {
                step_keeps_frames_balanced(*b, m);
            } else {
                step_keeps_frames_balanced(*a, m);
                lemma_clean_is_well_scoped(*b);
                match step(*a, m) {
                    Ok((a2, _)) => {
                        if a2.is_value() {
                            lemma_value_is_clean(a2);
                        }
                    },
                    Err(_) => {},
                }
            }
        },
        Term::Ternary(c, t, f) => {
            if c.is_value() {
                lemma_value_is_clean(*c);
                lemma_clean_is_well_scoped(*t);
                lemma_clean_is_well_scoped(*f);
            } else {
                step_keeps_frames_balanced(*c, m);
            }
        },
        Term::While(c, c0, b, b0, after) => {
            lemma_clean_is_well_scoped(*c0);
            lemma_clean_is_well_scoped(*b0);
            lemma_clean_is_well_scoped(*after);
            if !c.is_value() {
                step_keeps_frames_balanced(*c, m);
                lemma_clean_is_well_scoped(*b);
                match step(*c, m) {
                    Ok((c2, _)) => {
                        if c2.is_value() {
                            lemma_value_is_clean(c2);
                        }
                    },
                    Err(_) => {},
                }
            } else if *c == Term::Bool(true) {
                if b.is_value() {
                    lemma_value_is_clean(*b);
                } else {
                    step_keeps_frames_balanced(*b, m);
                }
            }
        },
        Term::Decl(kind, x, v, rest) => {
            if v.is_value() && (kind is DConst || *x is Var) {
                lemma_value_is_clean(*v);
                lemma_clean_is_well_scoped(*rest);
                if x.as_var() is Ok {
                    lemma_allocate_keeps_clean(
                        m.mem,
                        x.as_var()->Ok_0,
                        crate::semantics::declared(kind, *v),
                        crate::semantics::purpose(kind),
                    );
                }
            } else {
                step_keeps_frames_balanced(*v, m);
            }
        },
        Term::FnCall(f, args) => {
            lemma_first_pending(args, 0);
            let i = first_pending(args, 0);
            if *f is Func {
                if !(0 <= i < args.len()) {
                    lemma_call_frame_is_clean(*f, args);
                    lemma_frames_keep_clean(m.mem, call_frame(*f, args));
                    lemma_clean_is_well_scoped(*(*f)->Func_1);
                } else {
                    step_keeps_frames_balanced(args[i], m);
                    match step(args[i], m) {
                        Ok((s, _)) => {
                            let changed = args.update(i, s);
                            lemma_first_pending(changed, 0);
                            let k = first_pending(changed, 0);
                            if s.is_value() {
                                lemma_value_is_clean(s);
                                if 0 <= k < changed.len() {
                                    assert(k != i);
                                    assert(clean(args[k]));
                                    lemma_clean_is_well_scoped(changed[k]);
                                }
                            } else {
                                lemma_first_pending_at(changed, 0, i);
                            }
                            assert forall|j: int|
                                0 <= j < changed.len() && j != k implies clean(
                                #[trigger] changed[j],
                            ) by {
                                if j != i {
                                    assert(clean(args[j]));
                                }
                            }
                        },
                        Err(_) => {},
                    }
                }
            } else if !f.is_value() {
                step_keeps_frames_balanced(*f, m);
                match step(*f, m) {
                    Ok((f2, _)) => {
                        if f2 is Func {
                            lemma_value_is_clean(f2);
                            if 0 <= i < args.len() {
                                assert(clean(args[i]));
                                lemma_clean_is_well_scoped(args[i]);
                            }
                        }
                    },
                    Err(_) => {},
                }
            }
        },
        Term::Scope(a) => {
            if a.is_value() {
                lemma_value_is_clean(*a);
                lemma_frames_keep_clean(m.mem, Map::empty());
            } else {
                step_keeps_frames_balanced(*a, m);
            }
        },
        Term::Print(a) => {
            if a.is_value() {
                lemma_value_is_clean(*a);
            } else {
                step_keeps_frames_balanced(*a, m);
            }
        },
        _ => {},
    }
}

/// The driver keeps frames balanced: it never pops a frame that was there
/// before the tree's own calls, the frames hold clean values throughout, and
/// when it returns a value every frame that a call pushed is popped again.
pub proof fn run_keeps_frames_balanced(e: Term, m: Machine, taken: nat, limit: nat)
    requires
        balanced(e, m),
    ensures
        match run_within(e, m, taken, limit) {
            (r, after) => {
                &&& stored_clean(after.mem)
                &&& after.mem.len() >= m.mem.len() - depth(e)
                &&& r is Ok ==> clean(r->Ok_0) && after.mem.len() == m.mem.len() - depth(e)
            },
        },
    decreases limit + 1 - taken,
{
    if taken > limit {
    } else if e.is_value() {
        lemma_value_is_clean(e);
    } else {
        step_keeps_frames_balanced(e, m);
        match step(e, m) {
            Ok((next, after)) => run_keeps_frames_balanced(next, after, taken + 1, limit),
            Err(_) => {},
        }
    }
}

} // verus!
