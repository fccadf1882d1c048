//! The node type of the tree, the outcome type, and the capability
//! contract that every leaf action implements.

use vstd::prelude::*;

verus! {

/// The two-valued outcome of a node that did not fail: the node either
/// finished its work or reports that the work is still under way.
#[derive(Clone, Copy, Debug, PartialEq, Eq, PartialOrd, Ord, Hash)]
pub enum Response {
    Success,
    Running,
}

/// The four synthetic failures that composite nodes generate themselves:
/// a child of `Invert` succeeded, every child of a `Select` failed, a child
/// of a `Sequence` failed, or the body of a `While` failed. Composite
/// failures discard the causing child's error and carry one of these
/// reasons instead.
#[derive(Clone, Copy, Debug, PartialEq, Eq)]
pub enum FailureReason {
    InvertedSuccess,
    NoneSuccessful,
    StepFailed,
    LoopActionFailed,
}

/// Forgets the error content of a result, keeping only which way it went:
/// composite nodes decide on success or failure alone, never on the error
/// value a child produced.
pub open spec fn outcome_of<E>(r: Result<Response, E>) -> Result<Response, ()> {
    match r {
        Ok(resp) => Ok(resp),
        Err(_) => Err(()),
    }
}

/// The capability every leaf action implements: given shared read-only
/// arguments and exclusive mutable access to a state value, produce a
/// `Response` or fail with the action's own error type.
pub trait Actionable: Sized {
    /// Read-only arguments, shared across one whole evaluation.
    type ActionArgs;

    /// The mutable state, exclusively borrowed for one evaluation call.
    type ActionState;

    /// The failure type of this action.
    type ActionError;

    /// The mathematical model of `run`: from the arguments and the state
    /// before the call, the result and the state left behind — or `None`
    /// for inputs on which `run` does not return at all.
    ///
    /// The default promises nothing: it stands for an implementation whose
    /// behaviour has not been modelled (one written outside Verus leaves it
    /// in place), and `run` is then not callable from verified code. A
    /// verified implementation overrides it with its actual behaviour.
    open spec fn spec_run(
        &self,
        args: Self::ActionArgs,
        s: Self::ActionState,
    ) -> Option<(Result<Response, Self::ActionError>, Self::ActionState)> {
        None
    }

    /// The model of `make_error`: the error value that stands for each
    /// generic failure reason. The default names no particular value; a
    /// verified implementation overrides it with the value `make_error`
    /// actually builds.
    open spec fn spec_error(reason: FailureReason) -> Self::ActionError {
        arbitrary()
    }

    /// Builds this action's error type out of a generic failure reason;
    /// composite nodes use it for their synthetic failures.
    fn make_error(reason: FailureReason) -> (e: Self::ActionError)
        ensures
            e == Self::spec_error(reason),
    ;

    /// Performs the action: mutates the state and reports the result,
    /// exactly as `spec_run` describes.
    fn run(
        &self,
        args: &Self::ActionArgs,
        state: &mut Self::ActionState,
    ) -> (r: Result<Response, Self::ActionError>)
        requires
            self.spec_run(*args, *old(state)) is Some,
        ensures
            Some((r, *final(state))) == self.spec_run(*args, *old(state)),
    ;
}

/// A behavior tree over a leaf-action type `A`: a recursive, closed set of
/// variants that compose leaf actions and each other. Children are owned
/// exclusively and read in a fixed order; order is significant both for
/// `Select` (priority) and for `Sequence` (execution order).
#[derive(Debug)]
pub enum Behavior<A> {
    /// Wraps one leaf action.
    Action(A),
    /// Succeeds when its child fails, fails when its child succeeds, and
    /// passes `Running` through unchanged.
    Invert(Box<Behavior<A>>),
    /// Tries its children in order and stops at the first that does not
    /// fail; fails only when every child failed.
    Select(Vec<Behavior<A>>),
    /// Runs its children in order, stopping at the first failure; any
    /// non-failure result lets it continue to the next child.
    Sequence(Vec<Behavior<A>>),
    /// Runs `action` as long as `condition` does not fail; failure of the
    /// condition is the normal exit, failure of the action is an error.
    While {
        condition: Box<Behavior<A>>,
        action: Box<Behavior<A>>,
    },
}

} // verus!
