//! Laws of the evaluator, stated over the semantics and proved once for
//! all trees, arguments and states.

use vstd::prelude::*;

use crate::semantics::{eval, eval_select, eval_sequence};
use crate::tree::{outcome_of, Actionable, Behavior, Response};

verus! {

/// A leaf action that returns, and does not fail, from every state it may
/// be handed.
pub open spec fn always_succeeds<A: Actionable>(b: Behavior<A>, args: A::ActionArgs) -> bool {
    b matches Behavior::Action(a)
        && forall |s: A::ActionState|
            (#[trigger] a.spec_run(args, s)) matches Some((r, _)) && r is Ok
}

/// The state after running a row of leaf actions once each, left to right:
/// each leaf's `spec_run` applied exactly once, to the state its left
/// neighbours produced.
pub open spec fn fold_leaf_states<A: Actionable>(
    cs: Seq<Behavior<A>>,
    args: A::ActionArgs,
    s: A::ActionState,
) -> A::ActionState
    decreases cs.len(),
{
    if cs.len() == 0 {
        s
    } else {
        let s1 = match cs[0] {
            Behavior::Action(a) => match a.spec_run(args, s) {
                Some((_, sn)) => sn,
                None => s,
            },
            _ => s,
        };
        fold_leaf_states(cs.subrange(1, cs.len() as int), args, s1)
    }
}

/// A `Sequence` over any row of leaf actions that always succeed completes,
/// at every fuel, and every leaf executes exactly once, in left-to-right
/// order: the final state is the left-to-right fold of the leaves' effects.
pub proof fn lemma_sequence_of_successes<A: Actionable>(
    cs: Seq<Behavior<A>>,
    args: A::ActionArgs,
    s: A::ActionState,
    fuel: nat,
)
    requires
        forall |i: int| 0 <= i < cs.len() ==> always_succeeds(#[trigger] cs[i], args),
    ensures
        eval_sequence(cs, args, s, fuel) == Some((
            Ok::<Response, A::ActionError>(Response::Success),
            fold_leaf_states(cs, args, s),
        )),
    decreases cs.len(),
{
    if cs.len() > 0 {
        assert(always_succeeds(cs[0], args));
        let a = cs[0]->Action_0;
        let (r, s1) = a.spec_run(args, s)->Some_0;
        let rest = cs.subrange(1, cs.len() as int);
        assert forall |i: int| 0 <= i < rest.len() implies always_succeeds(
            #[trigger] rest[i],
            args,
        ) by {
            assert(rest[i] == cs[i + 1]);
        }
        lemma_sequence_of_successes(rest, args, s1, fuel);
        assert(eval(cs[0], args, s, fuel) == Some((r, s1)));
        assert(r is Ok);
        assert(eval_sequence(cs, args, s, fuel) == eval_sequence(rest, args, s1, fuel));
        assert(fold_leaf_states(cs, args, s) == fold_leaf_states(rest, args, s1));
    }
}

/// `Select` short-circuits: with children `[f, g, h]` where `f` fails and
/// `g` then does not, the outcome is `g`'s response from the state `f`
/// left behind — `h` does not appear in the outcome at all, because it is
/// never reached.
pub proof fn lemma_select_short_circuits<A: Actionable>(
    f: Behavior<A>,
    g: Behavior<A>,
    h: Behavior<A>,
    args: A::ActionArgs,
    s0: A::ActionState,
    e: A::ActionError,
    s1: A::ActionState,
    resp: Response,
    s2: A::ActionState,
    fuel: nat,
)
    requires
        eval(f, args, s0, fuel) == Some((Err::<Response, A::ActionError>(e), s1)),
        eval(g, args, s1, fuel) == Some((Ok::<Response, A::ActionError>(resp), s2)),
    ensures
        eval_select(seq![f, g, h], args, s0, fuel) == Some((
            Ok::<Response, A::ActionError>(resp),
            s2,
        )),
{
    let cs = seq![f, g, h];
    assert(cs.subrange(1, 3) =~= seq![g, h]);
    assert(eval_select(seq![g, h], args, s1, fuel) == Some((
        Ok::<Response, A::ActionError>(resp),
        s2,
    )));
}

/// Double inversion is outcome-preserving: `Invert(Invert(b))` terminates
/// exactly when `b` does, completes iff `b` completes, fails iff `b`
/// fails (through the synthesized path, so the error value is the
/// synthetic one), passes `Running` through unchanged, and leaves exactly
/// the state `b` left.
pub proof fn lemma_double_invert<A: Actionable>(
    bb: Behavior<A>,
    b: Behavior<A>,
    args: A::ActionArgs,
    s: A::ActionState,
    fuel: nat,
)
    requires
        bb matches Behavior::Invert(m) && (*m) matches Behavior::Invert(x) && *x == b,
    ensures
        eval(bb, args, s, fuel) is Some <==> eval(b, args, s, fuel) is Some,
        eval(bb, args, s, fuel) matches Some((r2, s2))
            ==> (eval(b, args, s, fuel) matches Some((r1, s1))
                && s2 == s1
                && outcome_of(r2) == outcome_of(r1)),
{
    let mid = *bb->Invert_0;
    assert(mid matches Behavior::Invert(x) && *x == b);
    match eval(b, args, s, fuel) {
        None => {
            assert(eval(mid, args, s, fuel) is None);
        },
        Some((r1, s1)) => {
            match r1 {
                Ok(Response::Success) => {
                    assert(eval(mid, args, s, fuel) matches Some((rm, sm))
                        && rm is Err && sm == s1);
                },
                Ok(Response::Running) => {
                    assert(eval(mid, args, s, fuel) == Some((
                        Ok::<Response, A::ActionError>(Response::Running),
                        s1,
                    )));
                },
                Err(_) => {
                    assert(eval(mid, args, s, fuel) == Some((
                        Ok::<Response, A::ActionError>(Response::Success),
                        s1,
                    )));
                },
            }
        },
    }
}

} // verus!
