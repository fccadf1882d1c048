use behavior_tree::tree::Behavior::{Action, Invert, Select, Sequence, While};
use behavior_tree::tree::{Actionable, Behavior, FailureReason, Response};

/// A leaf that appends its tag to a shared log, so a test can see which
/// leaves ran and in what order; `Fail` and `Running` report without
/// logging a success.
#[derive(Clone, Debug)]
enum Probe {
    Note(u32),
    Fail,
    Busy,
}

impl Actionable for Probe {
    type ActionError = String;
    type ActionArgs = ();
    type ActionState = Vec<u32>;

    fn make_error(reason: FailureReason) -> String {
        let text = match reason {
            FailureReason::InvertedSuccess => "Inverted Ok",
            FailureReason::NoneSuccessful => "No behavior successful",
            FailureReason::StepFailed => "one behavior failed",
            FailureReason::LoopActionFailed => "action failed",
        };
        text.to_string()
    }

    fn run(&self, _args: &(), state: &mut Vec<u32>) -> Result<Response, String> {
        match self {
            Probe::Note(tag) => {
                state.push(*tag);
                Ok(Response::Success)
            }
            Probe::Fail => Err("probe failed".to_string()),
            Probe::Busy => Ok(Response::Running),
        }
    }
}

#[test]
fn sequence_runs_every_leaf_once_in_order() {
    let bt: Behavior<Probe> = Sequence(vec![
        Action(Probe::Note(1)),
        Action(Probe::Note(2)),
        Action(Probe::Note(3)),
    ]);

    let mut log: Vec<u32> = Vec::new();
    let result = bt.run(&(), &mut log).unwrap();
    assert_eq!(result, Response::Success);
    assert_eq!(log, vec![1, 2, 3]);
}

#[test]
fn select_short_circuits_after_first_non_failure() {
    let bt: Behavior<Probe> = Select(vec![
        Action(Probe::Fail),
        Action(Probe::Note(1)),
        Action(Probe::Note(2)),
    ]);

    let mut log: Vec<u32> = Vec::new();
    let result = bt.run(&(), &mut log).unwrap();
    assert_eq!(result, Response::Success);
    // Only the failing probe and the first succeeding one ran.
    assert_eq!(log, vec![1]);
}

#[test]
fn double_invert_preserves_success() {
    let bt: Behavior<Probe> = Invert(Box::new(Invert(Box::new(Action(Probe::Note(7))))));

    let mut log: Vec<u32> = Vec::new();
    let result = bt.run(&(), &mut log).unwrap();
    assert_eq!(result, Response::Success);
    assert_eq!(log, vec![7]);
}

#[test]
fn double_invert_preserves_failure() {
    let bt: Behavior<Probe> = Invert(Box::new(Invert(Box::new(Action(Probe::Fail)))));

    let mut log: Vec<u32> = Vec::new();
    let result = bt.run(&(), &mut log);
    // Still a failure, though the error is the synthesized one.
    assert_eq!(result.unwrap_err(), "Inverted Ok");
    assert_eq!(log, Vec::<u32>::new());
}

#[test]
fn double_invert_passes_running_through() {
    let bt: Behavior<Probe> = Invert(Box::new(Invert(Box::new(Action(Probe::Busy)))));

    let mut log: Vec<u32> = Vec::new();
    let result = bt.run(&(), &mut log).unwrap();
    assert_eq!(result, Response::Running);
}

#[test]
fn invert_turns_success_into_synthetic_failure() {
    let bt: Behavior<Probe> = Invert(Box::new(Action(Probe::Note(1))));

    let mut log: Vec<u32> = Vec::new();
    let result = bt.run(&(), &mut log);
    assert_eq!(result.unwrap_err(), "Inverted Ok");
}

#[test]
fn invert_turns_failure_into_success() {
    let bt: Behavior<Probe> = Invert(Box::new(Action(Probe::Fail)));

    let mut log: Vec<u32> = Vec::new();
    let result = bt.run(&(), &mut log).unwrap();
    assert_eq!(result, Response::Success);
}

#[test]
fn empty_select_fails() {
    let bt: Behavior<Probe> = Select(vec![]);

    let mut log: Vec<u32> = Vec::new();
    let result = bt.run(&(), &mut log);
    assert_eq!(result.unwrap_err(), "No behavior successful");
}

#[test]
fn select_of_only_failures_fails() {
    let bt: Behavior<Probe> = Select(vec![Action(Probe::Fail), Action(Probe::Fail)]);

    let mut log: Vec<u32> = Vec::new();
    let result = bt.run(&(), &mut log);
    assert_eq!(result.unwrap_err(), "No behavior successful");
}

#[test]
fn empty_sequence_succeeds() {
    let bt: Behavior<Probe> = Sequence(vec![]);

    let mut log: Vec<u32> = Vec::new();
    let result = bt.run(&(), &mut log).unwrap();
    assert_eq!(result, Response::Success);
}

#[test]
fn sequence_continues_past_running() {
    let bt: Behavior<Probe> = Sequence(vec![Action(Probe::Busy), Action(Probe::Note(4))]);

    let mut log: Vec<u32> = Vec::new();
    let result = bt.run(&(), &mut log).unwrap();
    // A `Running` child does not pause the sequence; it advances and the
    // sequence as a whole completes.
    assert_eq!(result, Response::Success);
    assert_eq!(log, vec![4]);
}

#[test]
fn select_stops_at_running_child() {
    let bt: Behavior<Probe> = Select(vec![Action(Probe::Busy), Action(Probe::Note(4))]);

    let mut log: Vec<u32> = Vec::new();
    let result = bt.run(&(), &mut log).unwrap();
    // `Running` is a non-failure, so it decides the select.
    assert_eq!(result, Response::Running);
    assert_eq!(log, Vec::<u32>::new());
}

#[test]
fn while_reports_failing_body() {
    let bt: Behavior<Probe> = While {
        condition: Box::new(Action(Probe::Note(1))),
        action: Box::new(Action(Probe::Fail)),
    };

    let mut log: Vec<u32> = Vec::new();
    let result = bt.run(&(), &mut log);
    assert_eq!(result.unwrap_err(), "action failed");
    assert_eq!(log, vec![1]);
}

#[test]
fn while_condition_may_be_a_composite_tree() {
    // The condition is a tree of its own, and its side effects happen even
    // when it fails: the inverted note succeeds as a leaf (logging its
    // tag), so the inversion fails, the loop exits at once with success,
    // and the body never runs.
    let bt: Behavior<Probe> = While {
        condition: Box::new(Invert(Box::new(Action(Probe::Note(2))))),
        action: Box::new(Action(Probe::Note(9))),
    };

    let mut log: Vec<u32> = Vec::new();
    let result = bt.run(&(), &mut log).unwrap();
    assert_eq!(result, Response::Success);
    assert_eq!(log, vec![2]);
}
