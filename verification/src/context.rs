use vstd::prelude::*;

use crate::error::EvalError;
use crate::pattern::{BinaryArgs, CallBuiltIn, CallFunction, Pattern};
use crate::resolved_pattern::GritResolvedPattern;
use crate::state::{eval_preserves, state_wf, State};

verus! {

/// An arithmetic operation routed to the execution context.
#[derive(Debug, Clone, Copy, PartialEq, Eq, Structural)]
pub enum ArithOp {
    Add,
    Subtract,
    Multiply,
    Divide,
    Modulo,
}

/// The call surface an evaluation runs against, supplied by the host: the
/// built-in and user-defined function tables, arithmetic (which works on
/// machine floats), and tree navigation. The evaluator only routes to it;
/// every implementation must preserve the state's lookup signature, its
/// stored deferred patterns, its well-formedness and its files, and may
/// only append to the pending-effect list.
pub trait ExecContext {
    /// Invokes a built-in function.
    fn call_builtin(&self, call: &CallBuiltIn, state: &mut State) -> (r: Result<
        GritResolvedPattern,
        EvalError,
    >)
        requires
            state_wf(*old(state)),
        ensures
            eval_preserves(*old(state), *final(state)),
            final(state).files == old(state).files,
            old(state).effects@.len() <= final(state).effects@.len(),
            final(state).effects@.subrange(0, old(state).effects@.len() as int) == old(
                state,
            ).effects@,
    ;

    /// Invokes a user-defined function.
    fn call_function(&self, call: &CallFunction, state: &mut State) -> (r: Result<
        GritResolvedPattern,
        EvalError,
    >)
        requires
            state_wf(*old(state)),
        ensures
            eval_preserves(*old(state), *final(state)),
            final(state).files == old(state).files,
            old(state).effects@.len() <= final(state).effects@.len(),
            final(state).effects@.subrange(0, old(state).effects@.len() as int) == old(
                state,
            ).effects@,
    ;

    /// Evaluates both operands and applies the arithmetic operation on
    /// their numeric coercions.
    fn call_arith(&self, op: ArithOp, args: &BinaryArgs, state: &mut State) -> (r: Result<
        GritResolvedPattern,
        EvalError,
    >)
        requires
            state_wf(*old(state)),
        ensures
            eval_preserves(*old(state), *final(state)),
            final(state).files == old(state).files,
            old(state).effects@.len() <= final(state).effects@.len(),
            final(state).effects@.subrange(0, old(state).effects@.len() as int) == old(
                state,
            ).effects@,
    ;

    /// Navigates to the node before the one the pattern resolves to.
    fn nav_before(&self, inner: &Pattern, state: &mut State) -> (r: Result<
        GritResolvedPattern,
        EvalError,
    >)
        requires
            state_wf(*old(state)),
        ensures
            eval_preserves(*old(state), *final(state)),
            final(state).files == old(state).files,
            old(state).effects@.len() <= final(state).effects@.len(),
            final(state).effects@.subrange(0, old(state).effects@.len() as int) == old(
                state,
            ).effects@,
    ;

    /// Navigates to the node after the one the pattern resolves to.
    fn nav_after(&self, inner: &Pattern, state: &mut State) -> (r: Result<
        GritResolvedPattern,
        EvalError,
    >)
        requires
            state_wf(*old(state)),
        ensures
            eval_preserves(*old(state), *final(state)),
            final(state).files == old(state).files,
            old(state).effects@.len() <= final(state).effects@.len(),
            final(state).effects@.subrange(0, old(state).effects@.len() as int) == old(
                state,
            ).effects@,
    ;
}

/// A context with no function tables, no arithmetic, and no tree: every
/// routed call fails and leaves the state untouched.
#[derive(Debug, Clone, Copy, PartialEq, Eq, Structural)]
pub struct NullContext {}

impl ExecContext for NullContext {
    fn call_builtin(&self, call: &CallBuiltIn, state: &mut State) -> (r: Result<
        GritResolvedPattern,
        EvalError,
    >) {
        let _ = call;
        proof {
            assert(state.effects@.subrange(0, state.effects@.len() as int) =~= state.effects@);
        }
        Err(EvalError::MalformedAccess("no built-in functions are available"))
    }

    fn call_function(&self, call: &CallFunction, state: &mut State) -> (r: Result<
        GritResolvedPattern,
        EvalError,
    >) {
        let _ = call;
        proof {
            assert(state.effects@.subrange(0, state.effects@.len() as int) =~= state.effects@);
        }
        Err(EvalError::MalformedAccess("no user-defined functions are available"))
    }

    fn call_arith(&self, op: ArithOp, args: &BinaryArgs, state: &mut State) -> (r: Result<
        GritResolvedPattern,
        EvalError,
    >) {
        let _ = op;
        let _ = args;
        proof {
            assert(state.effects@.subrange(0, state.effects@.len() as int) =~= state.effects@);
        }
        Err(EvalError::MalformedAccess("no arithmetic surface is available"))
    }

    fn nav_before(&self, inner: &Pattern, state: &mut State) -> (r: Result<
        GritResolvedPattern,
        EvalError,
    >) {
        let _ = inner;
        proof {
            assert(state.effects@.subrange(0, state.effects@.len() as int) =~= state.effects@);
        }
        Err(EvalError::MalformedAccess("no source tree is available"))
    }

    fn nav_after(&self, inner: &Pattern, state: &mut State) -> (r: Result<
        GritResolvedPattern,
        EvalError,
    >) {
        let _ = inner;
        proof {
            assert(state.effects@.subrange(0, state.effects@.len() as int) =~= state.effects@);
        }
        Err(EvalError::MalformedAccess("no source tree is available"))
    }
}

} // verus!
