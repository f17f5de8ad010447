use vstd::prelude::*;
use vstd::string::StringExecFns;
use crate::expr::Expr;
use crate::interpreter::{evaluated, Interpreter};
use crate::runtime_error::RuntimeError;
use crate::semantics::Machine;

verus! {

/// The line that ends a session.
pub open spec fn exit_line() -> Seq<char> {
    "exit\n"@
}

/// A line-by-line session: each line is evaluated in the environment that the
/// lines before it left.
pub struct Repl {
    pub interpreter: Interpreter,
}

impl View for Repl {
    type V = Machine;

    open spec fn view(&self) -> Machine {
        self.interpreter@
    }
}

impl Repl {
    /// A session with a new environment.
    pub fn new() -> (r: Repl)
        ensures
            r@.mem == seq![Map::<Seq<char>, crate::state::BindingView>::empty()],
            r@.output == Seq::<Seq<char>>::empty(),
    {
        Repl { interpreter: Interpreter::new() }
    }

    /// Handles one line: the line that ends the session yields nothing and
    /// changes nothing; any other line is evaluated, and its value or failure
    /// comes back.
    pub fn eval(&mut self, input: &str) -> (r: Option<Result<Expr, RuntimeError>>)
        ensures
            input@ == exit_line() ==> r is None && final(self)@ == old(self)@,
            input@ != exit_line() ==> r is Some && evaluated(
                r->0,
                old(self)@,
                final(self)@,
                input@,
            ),
    {
        if String::from_str(input) == String::from_str("exit\n") {
            None
        } else {
            Some(self.interpreter.eval(input))
        }
    }
}

} // verus!
