//! The mathematical semantics of the evaluator: a fuel-indexed, big-step
//! evaluation function over trees, together with the lemmas that make it
//! usable — fuel monotonicity, determinism, and how evaluation of a list
//! of children splits at a seam.
//!
//! Fuel is consumed only when a `While` node loops back; every other
//! recursion is structural. `None` means the given fuel did not suffice
//! (or a leaf action on the way does not return), so a tree whose
//! evaluation returns `Some` for one fuel returns the same outcome for
//! every larger fuel.

use vstd::prelude::*;

use crate::tree::{Actionable, Behavior, FailureReason, Response};

verus! {

/// One evaluation outcome: the result and the state the evaluation left
/// behind.
pub type EvalOutcome<A> = (
    Result<Response, <A as Actionable>::ActionError>,
    <A as Actionable>::ActionState,
);

/// Big-step evaluation of a tree against arguments and a state, at a given
/// fuel. The result is `None` when the fuel ran out before the `While`
/// loops finished or a leaf action on the way does not return, and
/// otherwise the result and the final state.
pub open spec fn eval<A: Actionable>(
    b: Behavior<A>,
    args: A::ActionArgs,
    s: A::ActionState,
    fuel: nat,
) -> Option<EvalOutcome<A>>
    decreases fuel, b,
{
    match b {
        Behavior::Action(a) => a.spec_run(args, s),
        Behavior::Invert(c) => match eval(*c, args, s, fuel) {
            None => None,
            Some((r, s1)) => match r {
                Ok(Response::Success) => Some((
                    Err(A::spec_error(FailureReason::InvertedSuccess)),
                    s1,
                )),
                Ok(Response::Running) => Some((Ok(Response::Running), s1)),
                Err(_) => Some((Ok(Response::Success), s1)),
            },
        },
        Behavior::Select(cs) => eval_select(cs@, args, s, fuel),
        Behavior::Sequence(cs) => eval_sequence(cs@, args, s, fuel),
        Behavior::While { condition, action } => match eval(*condition, args, s, fuel) {
            None => None,
            Some((cr, s1)) => match cr {
                Err(_) => Some((Ok(Response::Success), s1)),
                Ok(_) => match eval(*action, args, s1, fuel) {
                    None => None,
                    Some((ar, s2)) => match ar {
                        Err(_) => Some((
                            Err(A::spec_error(FailureReason::LoopActionFailed)),
                            s2,
                        )),
                        Ok(_) => if fuel == 0 {
                            None
                        } else {
                            eval(b, args, s2, (fuel - 1) as nat)
                        },
                    },
                },
            },
        },
    }
}

/// Evaluation of a list of children with `Select` semantics: the first
/// child that does not fail decides the outcome, later children are never
/// reached, and an exhausted list is a failure.
pub open spec fn eval_select<A: Actionable>(
    cs: Seq<Behavior<A>>,
    args: A::ActionArgs,
    s: A::ActionState,
    fuel: nat,
) -> Option<EvalOutcome<A>>
    decreases fuel, cs,
{
    if cs.len() == 0 {
        Some((Err(A::spec_error(FailureReason::NoneSuccessful)), s))
    } else {
        match eval(cs[0], args, s, fuel) {
            None => None,
            Some((r, s1)) => match r {
                Ok(resp) => Some((Ok(resp), s1)),
                Err(_) => eval_select(cs.subrange(1, cs.len() as int), args, s1, fuel),
            },
        }
    }
}

/// Evaluation of a list of children with `Sequence` semantics: any
/// non-failure lets the list continue, the first failure stops it, and a
/// finished list is a success.
pub open spec fn eval_sequence<A: Actionable>(
    cs: Seq<Behavior<A>>,
    args: A::ActionArgs,
    s: A::ActionState,
    fuel: nat,
) -> Option<EvalOutcome<A>>
    decreases fuel, cs,
{
    if cs.len() == 0 {
        Some((Ok(Response::Success), s))
    } else {
        match eval(cs[0], args, s, fuel) {
            None => None,
            Some((r, s1)) => match r {
                Ok(_) => eval_sequence(cs.subrange(1, cs.len() as int), args, s1, fuel),
                Err(_) => Some((Err(A::spec_error(FailureReason::StepFailed)), s1)),
            },
        }
    }
}

/// Fuel is only a bound on how often `While` nodes may loop back: an
/// outcome reached at one fuel is reached, unchanged, at every larger fuel.
pub proof fn lemma_eval_mono<A: Actionable>(
    b: Behavior<A>,
    args: A::ActionArgs,
    s: A::ActionState,
    f1: nat,
    f2: nat,
)
    requires
        f1 <= f2,
        eval(b, args, s, f1) is Some,
    ensures
        eval(b, args, s, f2) == eval(b, args, s, f1),
    decreases f1, b,
{
    match b {
        Behavior::Action(_) => {},
        Behavior::Invert(c) => {
            lemma_eval_mono(*c, args, s, f1, f2);
        },
        Behavior::Select(cs) => {
            lemma_eval_select_mono(cs@, args, s, f1, f2);
        },
        Behavior::Sequence(cs) => {
            lemma_eval_sequence_mono(cs@, args, s, f1, f2);
        },
        Behavior::While { condition, action } => {
            let (cr, s1) = eval(*condition, args, s, f1)->Some_0;
            lemma_eval_mono(*condition, args, s, f1, f2);
            if cr is Ok {
                let (ar, s2) = eval(*action, args, s1, f1)->Some_0;
                lemma_eval_mono(*action, args, s1, f1, f2);
                if ar is Ok {
                    lemma_eval_mono(b, args, s2, (f1 - 1) as nat, (f2 - 1) as nat);
                }
            }
        },
    }
}

/// Fuel monotonicity for a list of children under `Select` semantics.
pub proof fn lemma_eval_select_mono<A: Actionable>(
    cs: Seq<Behavior<A>>,
    args: A::ActionArgs,
    s: A::ActionState,
    f1: nat,
    f2: nat,
)
    requires
        f1 <= f2,
        eval_select(cs, args, s, f1) is Some,
    ensures
        eval_select(cs, args, s, f2) == eval_select(cs, args, s, f1),
    decreases f1, cs,
{
    if cs.len() > 0 {
        let (r, s1) = eval(cs[0], args, s, f1)->Some_0;
        lemma_eval_mono(cs[0], args, s, f1, f2);
        if r is Err {
            lemma_eval_select_mono(cs.subrange(1, cs.len() as int), args, s1, f1, f2);
        }
    }
}

/// Fuel monotonicity for a list of children under `Sequence` semantics.
pub proof fn lemma_eval_sequence_mono<A: Actionable>(
    cs: Seq<Behavior<A>>,
    args: A::ActionArgs,
    s: A::ActionState,
    f1: nat,
    f2: nat,
)
    requires
        f1 <= f2,
        eval_sequence(cs, args, s, f1) is Some,
    ensures
        eval_sequence(cs, args, s, f2) == eval_sequence(cs, args, s, f1),
    decreases f1, cs,
{
    if cs.len() > 0 {
        let (r, s1) = eval(cs[0], args, s, f1)->Some_0;
        lemma_eval_mono(cs[0], args, s, f1, f2);
        if r is Ok {
            lemma_eval_sequence_mono(cs.subrange(1, cs.len() as int), args, s1, f1, f2);
        }
    }
}

/// Whenever two fuels both suffice, they agree on the outcome: together
/// with monotonicity this makes "some fuel suffices" a deterministic
/// description of a whole evaluation.
pub proof fn lemma_eval_deterministic<A: Actionable>(
    b: Behavior<A>,
    args: A::ActionArgs,
    s: A::ActionState,
    f1: nat,
    f2: nat,
)
    requires
        eval(b, args, s, f1) is Some,
        eval(b, args, s, f2) is Some,
    ensures
        eval(b, args, s, f1) == eval(b, args, s, f2),
{
    if f1 <= f2 {
        lemma_eval_mono(b, args, s, f1, f2);
    } else {
        lemma_eval_mono(b, args, s, f2, f1);
    }
}

/// A `Select` list splits at a seam: once a prefix has failed as a whole,
/// evaluating the full list is evaluating the remainder from the state the
/// prefix left behind.
pub proof fn lemma_eval_select_append<A: Actionable>(
    pre: Seq<Behavior<A>>,
    rest: Seq<Behavior<A>>,
    args: A::ActionArgs,
    s: A::ActionState,
    e: A::ActionError,
    sm: A::ActionState,
    fuel: nat,
)
    requires
        eval_select(pre, args, s, fuel) == Some((Err::<Response, A::ActionError>(e), sm)),
    ensures
        eval_select(pre + rest, args, s, fuel) == eval_select(rest, args, sm, fuel),
    decreases pre.len(),
{
    if pre.len() == 0 {
        assert(pre + rest =~= rest);
    } else {
        let all = pre + rest;
        assert(all[0] == pre[0]);
        let (r, s1) = eval(pre[0], args, s, fuel)->Some_0;
        assert(r is Err);
        lemma_eval_select_append(pre.subrange(1, pre.len() as int), rest, args, s1, e, sm, fuel);
        assert(all.subrange(1, all.len() as int) =~= pre.subrange(1, pre.len() as int) + rest);
    }
}

/// A `Sequence` list splits at a seam: once a prefix has finished
/// successfully, evaluating the full list is evaluating the remainder from
/// the state the prefix left behind.
pub proof fn lemma_eval_sequence_append<A: Actionable>(
    pre: Seq<Behavior<A>>,
    rest: Seq<Behavior<A>>,
    args: A::ActionArgs,
    s: A::ActionState,
    sm: A::ActionState,
    fuel: nat,
)
    requires
        eval_sequence(pre, args, s, fuel)
            == Some((Ok::<Response, A::ActionError>(Response::Success), sm)),
    ensures
        eval_sequence(pre + rest, args, s, fuel) == eval_sequence(rest, args, sm, fuel),
    decreases pre.len(),
{
    if pre.len() == 0 {
        assert(pre + rest =~= rest);
    } else {
        let all = pre + rest;
        assert(all[0] == pre[0]);
        let (r, s1) = eval(pre[0], args, s, fuel)->Some_0;
        assert(r is Ok);
        lemma_eval_sequence_append(pre.subrange(1, pre.len() as int), rest, args, s1, sm, fuel);
        assert(all.subrange(1, all.len() as int) =~= pre.subrange(1, pre.len() as int) + rest);
    }
}

} // verus!
