//! Waiting for the tasks that were started.
use vstd::prelude::*;

verus! {

/// The number of downloads that may run at the same time.
pub const MAX_CONCURRENT_TASKS: usize = 64;

/// How a task ended: `Err` where it could not be joined, and otherwise with its own result.
pub type TaskOutcome<E> = Result<Result<(), E>, E>;

/// What to do after a task ended, or none was left.
#[derive(Debug)]
pub enum JoinStep<E> {
    /// Wait for the next task.
    Wait,
    /// Stop waiting, with this result.
    Finish(Result<(), E>),
}

/// What to do after a task ended.
pub open spec fn join_step<E>(next: Option<TaskOutcome<E>>) -> JoinStep<E> {
    match next {
        None => JoinStep::Finish(Ok(())),
        Some(Ok(Ok(()))) => JoinStep::Wait,
        Some(Ok(Err(error))) => JoinStep::Finish(Err(error)),
        Some(Err(error)) => JoinStep::Finish(Err(error)),
    }
}

/// Decides what to do after the next task ended, or none was left: the first failure ends the
/// waiting.
pub fn parallel_join<E>(next: Option<TaskOutcome<E>>) -> (step: JoinStep<E>)
    ensures
        step == join_step(next),
{
    match next {
        None => JoinStep::Finish(Ok(())),
        Some(Ok(Ok(()))) => JoinStep::Wait,
        Some(Ok(Err(error))) => JoinStep::Finish(Err(error)),
        Some(Err(error)) => JoinStep::Finish(Err(error)),
    }
}

/// The result of waiting for tasks that end with `outcomes`, in that order.
pub open spec fn join_result<E>(outcomes: Seq<TaskOutcome<E>>) -> Result<(), E>
    decreases outcomes.len(),
{
    let next = if outcomes.len() == 0 {
        None
    } else {
        Some(outcomes[0])
    };
    match join_step(next) {
        JoinStep::Finish(result) => result,
        JoinStep::Wait => if outcomes.len() == 0 {
            Ok(())
        } else {
            join_result(outcomes.skip(1))
        },
    }
}

/// Whether a task succeeded.
pub open spec fn succeeded<E>(outcome: TaskOutcome<E>) -> bool {
    outcome matches Ok(Ok(_))
}

/// The waiting succeeds exactly when every task does.
pub proof fn law_join_succeeds_when_every_task_does<E>(outcomes: Seq<TaskOutcome<E>>)
    ensures
        join_result(outcomes) is Ok <==> forall|i: int|
            0 <= i < outcomes.len() ==> succeeded(#[trigger] outcomes[i]),
    decreases outcomes.len(),
{
    if outcomes.len() > 0 {
        let rest = outcomes.skip(1);
        law_join_succeeds_when_every_task_does(rest);
        if succeeded(outcomes[0]) {
            if join_result(rest) is Ok {
                assert forall|i: int| 0 <= i < outcomes.len() implies succeeded(
                    #[trigger] outcomes[i],
                ) by {
                    if i > 0 {
                        assert(rest[i - 1] == outcomes[i]);
                    }
                }
            } else {
                let k = choose|k: int| 0 <= k < rest.len() && !succeeded(#[trigger] rest[k]);
                assert(outcomes[k + 1] == rest[k]);
            }
        }
    }
}

/// The first task that fails decides how the waiting fails.
pub proof fn law_first_failure_is_reported<E>(outcomes: Seq<TaskOutcome<E>>, k: int)
    requires
        0 <= k < outcomes.len(),
        !succeeded(outcomes[k]),
        forall|i: int| 0 <= i < k ==> succeeded(#[trigger] outcomes[i]),
    ensures
        join_step(Some(outcomes[k])) == JoinStep::Finish(join_result(outcomes)),
    decreases outcomes.len(),
{
    if k > 0 {
        let rest = outcomes.skip(1);
        assert(succeeded(outcomes[0]));
        assert(rest[k - 1] == outcomes[k]);
        assert forall|i: int| 0 <= i < k - 1 implies succeeded(#[trigger] rest[i]) by {
            assert(rest[i] == outcomes[i + 1]);
        }
        law_first_failure_is_reported(rest, k - 1);
    }
}

/// The tasks that are left when the waiting ends: those after the one that failed.
pub open spec fn join_rest<E>(outcomes: Seq<TaskOutcome<E>>) -> Seq<TaskOutcome<E>>
    decreases outcomes.len(),
{
    if outcomes.len() == 0 {
        outcomes
    } else if succeeded(outcomes[0]) {
        join_rest(outcomes.skip(1))
    } else {
        outcomes.skip(1)
    }
}

/// The errors of the tasks that fail, in the order in which they end.
pub open spec fn failures<E>(outcomes: Seq<TaskOutcome<E>>) -> Seq<E>
    decreases outcomes.len(),
{
    if outcomes.len() == 0 {
        Seq::empty()
    } else {
        let later = failures(outcomes.skip(1));
        match outcomes[0] {
            Ok(Ok(_)) => later,
            Ok(Err(error)) => seq![error] + later,
            Err(error) => seq![error] + later,
        }
    }
}

/// Waiting again and again reports each failure once, in order: the waiting reports the first one,
/// and leaves the others to the tasks that are left.
pub proof fn law_repeated_waiting_reports_each_failure_once<E>(outcomes: Seq<TaskOutcome<E>>)
    ensures
        match join_result(outcomes) {
            Ok(_) => failures(outcomes) == Seq::<E>::empty(),
            Err(error) => {
                &&& failures(outcomes) == seq![error] + failures(join_rest(outcomes))
                &&& join_rest(outcomes).len() < outcomes.len()
            },
        },
    decreases outcomes.len(),
{
    if outcomes.len() > 0 && succeeded(outcomes[0]) {
        law_repeated_waiting_reports_each_failure_once(outcomes.skip(1));
    }
}

/// A task that succeeds keeps the waiting going; one that fails, by itself or because it could not
/// be joined, ends it with its own error; and where none is left the waiting succeeds.
pub proof fn law_every_ending_has_its_step<E>(error: E, next: Option<TaskOutcome<E>>)
    ensures
        join_step(Some(Ok(Err(error)))) == JoinStep::Finish(Err(error)),
        join_step(Some(Err(error))) == JoinStep::Finish(Err(error)),
        join_step(next) is Wait <==> (next matches Some(Ok(Ok(_)))),
        next is None ==> (join_step(next) matches JoinStep::Finish(Ok(_))),
        (join_step(next) matches JoinStep::Finish(Ok(_))) ==> next is None,
{
}

/// Waiting for tasks that end in two lots is waiting for the first lot, and for the second where
/// the first succeeds.
pub proof fn law_join_of_two_lots<E>(first: Seq<TaskOutcome<E>>, second: Seq<TaskOutcome<E>>)
    ensures
        join_result(first + second) == match join_result(first) {
            Ok(_) => join_result(second),
            Err(error) => Err(error),
        },
    decreases first.len(),
{
    if first.len() == 0 {
        assert(first + second =~= second);
    } else {
        assert((first + second)[0] == first[0]);
        assert((first + second).skip(1) =~= first.skip(1) + second);
        law_join_of_two_lots(first.skip(1), second);
    }
}

} // verus!
