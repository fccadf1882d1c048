//! The evaluator: the tree itself is `Actionable`, so one recursive
//! procedure interprets a tree against arguments and a mutable state,
//! visiting children depth-first and strictly in order, and trees nest
//! inside other trees.
//!
//! The model of a whole tree is the fuel-indexed semantics of
//! [`crate::semantics`] at whichever fuel suffices: by determinism the
//! choice does not matter, and when no fuel suffices — a `While` condition
//! that never fails — the evaluator does not return, which is exactly what
//! a `spec_run` of `None` says.

use vstd::prelude::*;

use crate::semantics::{
    eval, eval_select, eval_sequence, lemma_eval_deterministic, lemma_eval_select_append,
    lemma_eval_sequence_append, EvalOutcome,
};
use crate::tree::{Actionable, Behavior, FailureReason, Response};

verus! {

/// A tree's model agrees with its semantics at every sufficient fuel: the
/// fuel chosen inside `spec_run` gives the same outcome as any other, by
/// determinism.
pub proof fn lemma_spec_run_at_fuel<A: Actionable>(
    b: Behavior<A>,
    args: A::ActionArgs,
    s: A::ActionState,
    f: nat,
)
    requires
        eval(b, args, s, f) is Some,
    ensures
        b.spec_run(args, s) == eval(b, args, s, f),
{
    let fc = choose |fuel: nat| (#[trigger] eval(b, args, s, fuel)) is Some;
    assert(eval(b, args, s, fc) is Some);
    lemma_eval_deterministic(b, args, s, f, fc);
}

impl<A: Actionable> Actionable for Behavior<A> {
    type ActionArgs = A::ActionArgs;

    type ActionState = A::ActionState;

    type ActionError = A::ActionError;

    /// The semantics of the tree at whichever fuel suffices, and `None`
    /// when no fuel does.
    open spec fn spec_run(
        &self,
        args: A::ActionArgs,
        s: A::ActionState,
    ) -> Option<EvalOutcome<A>> {
        if exists |fuel: nat| (#[trigger] eval(*self, args, s, fuel)) is Some {
            eval(*self, args, s, choose |fuel: nat| (#[trigger] eval(*self, args, s, fuel)) is Some)
        } else {
            None
        }
    }

    open spec fn spec_error(reason: FailureReason) -> A::ActionError {
        A::spec_error(reason)
    }

    fn make_error(reason: FailureReason) -> (e: A::ActionError)
        ensures
            e == A::spec_error(reason),
    {
        A::make_error(reason)
    }

    /// Evaluates the tree against the arguments and the state. The tree is
    /// only read; all mutation happens in `state`, through the leaf
    /// actions.
    #[verifier::loop_isolation(false)]
    fn run(
        &self,
        args: &A::ActionArgs,
        state: &mut A::ActionState,
    ) -> (r: Result<Response, A::ActionError>)
        ensures
            Some((r, *final(state))) == self.spec_run(*args, *old(state)),
        decreases *self,
    {
        let ghost f0 = choose |fuel: nat|
            (#[trigger] eval(*self, *args, *old(state), fuel)) is Some;
        proof {
            assert(eval(*self, *args, *old(state), f0) is Some);
        }
        match self {
            Behavior::Action(a) => {
                let r = a.run(args, state);
                proof {
                    lemma_spec_run_at_fuel(*self, *args, *old(state), f0);
                }
                r
            },
            Behavior::Invert(child) => {
                proof {
                    lemma_spec_run_at_fuel(**child, *args, *old(state), f0);
                }
                let rc = child.run(args, state);
                let r = match rc {
                    Ok(Response::Success) => Err(A::make_error(FailureReason::InvertedSuccess)),
                    Ok(Response::Running) => Ok(Response::Running),
                    Err(_) => Ok(Response::Success),
                };
                proof {
                    lemma_spec_run_at_fuel(*self, *args, *old(state), f0);
                }
                r
            },
            Behavior::Select(behaviors) => {
                let ghost s0 = *state;
                proof {
                    assert(behaviors@.subrange(0, 0) =~= Seq::<Behavior<A>>::empty());
                }
                let mut i: usize = 0;
                while i < behaviors.len()
                    invariant
                        i <= behaviors.len(),
                        eval_select(behaviors@.subrange(0, i as int), *args, s0, f0)
                            == Some((
                                Err::<Response, A::ActionError>(
                                    A::spec_error(FailureReason::NoneSuccessful),
                                ),
                                *state,
                            )),
                    decreases behaviors.len() - i,
                {
                    let ghost si = *state;
                    let ghost pre = behaviors@.subrange(0, i as int);
                    let ghost tail = behaviors@.subrange(i as int, behaviors@.len() as int);
                    proof {
                        lemma_eval_select_append(
                            pre,
                            tail,
                            *args,
                            s0,
                            A::spec_error(FailureReason::NoneSuccessful),
                            si,
                            f0,
                        );
                        assert(pre + tail =~= behaviors@);
                        assert(tail[0] == behaviors@[i as int]);
                        lemma_spec_run_at_fuel(behaviors@[i as int], *args, si, f0);
                    }
                    let child = &behaviors[i];
                    let rc = child.run(args, state);
                    match rc {
                        Ok(resp) => {
                            proof {
                                lemma_spec_run_at_fuel(*self, *args, s0, f0);
                            }
                            return Ok(resp);
                        },
                        Err(_) => {
                            proof {
                                let one = behaviors@.subrange(i as int, (i as int) + 1);
                                lemma_eval_select_append(
                                    pre,
                                    one,
                                    *args,
                                    s0,
                                    A::spec_error(FailureReason::NoneSuccessful),
                                    si,
                                    f0,
                                );
                                assert(one.len() == 1 && one[0] == behaviors@[i as int]);
                                assert(one.subrange(1, one.len() as int)
                                    =~= Seq::<Behavior<A>>::empty());
                                assert(eval_select(Seq::<Behavior<A>>::empty(), *args, *state, f0)
                                    == Some((
                                        Err::<Response, A::ActionError>(
                                            A::spec_error(FailureReason::NoneSuccessful),
                                        ),
                                        *state,
                                    )));
                                assert(eval_select(one, *args, si, f0)
                                    == Some((
                                        Err::<Response, A::ActionError>(
                                            A::spec_error(FailureReason::NoneSuccessful),
                                        ),
                                        *state,
                                    )));
                                assert(pre + one
                                    =~= behaviors@.subrange(0, (i as int) + 1));
                            }
                            i = i + 1;
                        },
                    }
                }
                proof {
                    assert(behaviors@.subrange(0, behaviors@.len() as int) =~= behaviors@);
                    lemma_spec_run_at_fuel(*self, *args, s0, f0);
                }
                Err(A::make_error(FailureReason::NoneSuccessful))
            },
            Behavior::Sequence(behaviors) => {
                let ghost s0 = *state;
                proof {
                    assert(behaviors@.subrange(0, 0) =~= Seq::<Behavior<A>>::empty());
                }
                let mut i: usize = 0;
                while i < behaviors.len()
                    invariant
                        i <= behaviors.len(),
                        eval_sequence(behaviors@.subrange(0, i as int), *args, s0, f0)
                            == Some((
                                Ok::<Response, A::ActionError>(Response::Success),
                                *state,
                            )),
                    decreases behaviors.len() - i,
                {
                    let ghost si = *state;
                    let ghost pre = behaviors@.subrange(0, i as int);
                    let ghost tail = behaviors@.subrange(i as int, behaviors@.len() as int);
                    proof {
                        lemma_eval_sequence_append(pre, tail, *args, s0, si, f0);
                        assert(pre + tail =~= behaviors@);
                        assert(tail[0] == behaviors@[i as int]);
                        lemma_spec_run_at_fuel(behaviors@[i as int], *args, si, f0);
                    }
                    let child = &behaviors[i];
                    let rc = child.run(args, state);
                    match rc {
                        Ok(_) => {
                            proof {
                                let one = behaviors@.subrange(i as int, (i as int) + 1);
                                lemma_eval_sequence_append(pre, one, *args, s0, si, f0);
                                assert(one.len() == 1 && one[0] == behaviors@[i as int]);
                                assert(one.subrange(1, one.len() as int)
                                    =~= Seq::<Behavior<A>>::empty());
                                assert(eval_sequence(Seq::<Behavior<A>>::empty(), *args, *state, f0)
                                    == Some((
                                        Ok::<Response, A::ActionError>(Response::Success),
                                        *state,
                                    )));
                                assert(eval_sequence(one, *args, si, f0)
                                    == Some((
                                        Ok::<Response, A::ActionError>(Response::Success),
                                        *state,
                                    )));
                                assert(pre + one
                                    =~= behaviors@.subrange(0, (i as int) + 1));
                            }
                            i = i + 1;
                        },
                        Err(_) => {
                            proof {
                                lemma_spec_run_at_fuel(*self, *args, s0, f0);
                            }
                            return Err(A::make_error(FailureReason::StepFailed));
                        },
                    }
                }
                proof {
                    assert(behaviors@.subrange(0, behaviors@.len() as int) =~= behaviors@);
                    lemma_spec_run_at_fuel(*self, *args, s0, f0);
                }
                Ok(Response::Success)
            },
            Behavior::While { condition, action } => {
                let ghost s0 = *state;
                let ghost mut fleft: nat = f0;
                loop
                    invariant
                        eval(*self, *args, *state, fleft) is Some,
                        eval(*self, *args, *state, fleft) == eval(*self, *args, s0, f0),
                    decreases fleft,
                {
                    let ghost si = *state;
                    proof {
                        lemma_spec_run_at_fuel(**condition, *args, si, fleft);
                    }
                    let rc = condition.run(args, state);
                    match rc {
                        Err(_) => {
                            proof {
                                lemma_spec_run_at_fuel(*self, *args, s0, f0);
                            }
                            return Ok(Response::Success);
                        },
                        Ok(_) => {
                            let ghost sc = *state;
                            proof {
                                lemma_spec_run_at_fuel(**action, *args, sc, fleft);
                            }
                            let ra = action.run(args, state);
                            match ra {
                                Err(_) => {
                                    proof {
                                        lemma_spec_run_at_fuel(*self, *args, s0, f0);
                                    }
                                    return Err(A::make_error(FailureReason::LoopActionFailed));
                                },
                                Ok(_) => {
                                    proof {
                                        fleft = (fleft - 1) as nat;
                                    }
                                },
                            }
                        },
                    }
                }
            },
        }
    }
}

} // verus!
