use vstd::prelude::*;

verus! {

/// The one recoverable failure the stack engine reports.
///
/// `StackUnderflow(op, step)` says that operation `op` required more stack
/// depth than was present at clock cycle `step`. Every other misuse of the
/// engine is a contract violation in the driving interpreter and is ruled out
/// by `requires` clauses rather than reported at run time.
#[derive(Clone, Copy, PartialEq, Eq, Debug)]
pub enum ExecutionError {
    StackUnderflow(&'static str, usize),
}

} // verus!
