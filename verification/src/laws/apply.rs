//! Laws of carrying plans out.

use crate::apply::{
    all_succeeded, apply_plan, applied_to, at_end, execute_given_plan, execute_op, execute_plan,
    execute_rebases, failed_op, failure_examined, given_executed, keep_rebases, op_executed,
    ops_executed, rebases, refuse_apply, succeeded, Attempt, OpResult,
};
use crate::engine::{snapshot_of, Operation, RepositoryReading, RepositorySnapshot};
use crate::laws::plans::as_read;
use crate::laws::status::called;
use crate::plan::Plan;
use crate::status::RepoStatus;
use vstd::prelude::*;

verus! {

/// The branch that an operation changes.
pub open spec fn changes(op: Operation) -> Seq<char> {
    match op {
        Operation::Rebase { branch, .. } => branch@,
        Operation::Sync { branch, .. } => branch@,
        Operation::Other { branch, .. } => branch@,
    }
}

/// Whether `result` tells the failure of `op` by what the repository was left in:
/// never as done; as a conflict where a path is in conflict or something is in
/// progress; else as an error with the words of the failure.
pub open spec fn failure_told(
    op: Operation,
    left: RepoStatus,
    message: Seq<char>,
    result: OpResult,
) -> bool {
    match result {
        OpResult::Done { .. } => false,
        OpResult::Conflict { branch, conflicted_paths, rebase_in_progress } => {
            &&& left.conflicted_paths@.len() > 0 || !(left.state is Clean)
            &&& branch@ == changes(op)
            &&& conflicted_paths@.len() == left.conflicted_paths@.len()
            &&& forall|i: int|
                0 <= i < conflicted_paths@.len() ==> (#[trigger] conflicted_paths@[i])@
                    == left.conflicted_paths@[i]@
            &&& rebase_in_progress <==> left.state is Rebase || left.state is RebaseInteractive
                || left.state is RebaseMerge
        },
        OpResult::Error { branch, message: told } => {
            &&& left.conflicted_paths@.len() == 0
            &&& left.state is Clean
            &&& branch@ == changes(op)
            &&& told@ == message
        },
    }
}

/// A failure is told by what the repository was left in, whatever else its
/// status says.
pub proof fn a_failure_is_never_told_as_done(
    op: Operation,
    left: RepoStatus,
    message: String,
    result: OpResult,
)
    requires
        call_ensures(failed_op, (&op, left, message), result),
    ensures
        failure_told(op, left, message@, result),
{
    assert(left@.conflicted_paths.len() == left.conflicted_paths@.len());
    if let OpResult::Conflict { conflicted_paths, .. } = result {
        same_texts(conflicted_paths, left.conflicted_paths);
    }
}

proof fn same_texts(left: Vec<String>, right: Vec<String>)
    requires
        left.deep_view() == right.deep_view(),
    ensures
        left@.len() == right@.len(),
        forall|i: int| 0 <= i < left@.len() ==> (#[trigger] left@[i])@ == right@[i]@,
{
    assert(left.deep_view().len() == left@.len());
    assert(right.deep_view().len() == right@.len());
    assert forall|i: int| 0 <= i < left@.len() implies (#[trigger] left@[i])@ == right@[i]@ by {
        assert(left.deep_view()[i] == right.deep_view()[i]);
    }
}

/// Whether one attempt at `op` on `before` came to `result` and left `after`: an
/// operation is done exactly where the attempt succeeded, an error comes back
/// where the repository could not be opened, and a failure is told by the state
/// of what the attempt left.
pub open spec fn attempted<R, E, X, S>(
    op: Operation,
    before: R,
    attempt: X,
    status: S,
    after: R,
    result: Result<OpResult, E>,
) -> bool where
    X: Fn(R, &Operation) -> (R, Attempt<E>),
    S: Fn(R) -> (R, Result<RepoStatus, E>),
 {
    exists|left: R, end: Attempt<E>| #[trigger]
        call_ensures(attempt, (before, &op), (left, end)) && match end {
            Attempt::Succeeded => {
                &&& after == left
                &&& result matches Ok(r) && r matches OpResult::Done { branch } && branch@
                    == changes(op)
            },
            Attempt::Unopened(e) => after == left && result == Err::<OpResult, E>(e),
            Attempt::Failed { message } => examined(op, left, message@, status, after, result),
        }
}

/// Whether the state of `left` was read and `result` tells the failure by it.
pub open spec fn examined<R, E, S>(
    op: Operation,
    left: R,
    message: Seq<char>,
    status: S,
    after: R,
    result: Result<OpResult, E>,
) -> bool where S: Fn(R) -> (R, Result<RepoStatus, E>) {
    exists|found: Result<RepoStatus, E>| #[trigger]
        call_ensures(status, (left,), (after, found)) && match found {
            Err(e) => result == Err::<OpResult, E>(e),
            Ok(found) => result matches Ok(r) && failure_told(op, found, message, r),
        }
}

proof fn executed_is_attempted<R, E, X, S>(
    op: Operation,
    before: R,
    attempt: X,
    status: S,
    after: R,
    result: Result<OpResult, E>,
) where X: Fn(R, &Operation) -> (R, Attempt<E>), S: Fn(R) -> (R, Result<RepoStatus, E>)
    requires
        op_executed(op, before, attempt, status, after, result),
    ensures
        attempted(op, before, attempt, status, after, result),
{
    let (left, end) = choose|left: R, end: Attempt<E>| #[trigger]
        call_ensures(attempt, (before, &op), (left, end)) && match end {
            Attempt::Succeeded => {
                &&& after == left
                &&& result matches Ok(r) && r@ == (crate::apply::OpResultView::Done {
                    branch: op@.target(),
                })
            },
            Attempt::Unopened(e) => after == left && result == Err::<OpResult, E>(e),
            Attempt::Failed { message } => failure_examined(
                op,
                left,
                message@,
                status,
                after,
                result,
            ),
        };
    if let Attempt::Failed { message } = end {
        let found = choose|found: Result<RepoStatus, E>| #[trigger]
            call_ensures(status, (left,), (after, found)) && match found {
                Err(e) => result == Err::<OpResult, E>(e),
                Ok(found) => result matches Ok(r) && r@ == crate::apply::failure_result(
                    op@.target(),
                    found@,
                    message@,
                ),
            };
        if let Ok(st) = found {
            if let OpResult::Conflict { conflicted_paths, .. } = result->Ok_0 {
                same_texts(conflicted_paths, st.conflicted_paths);
            }
            assert(st@.conflicted_paths.len() == st.conflicted_paths@.len());
            assert(failure_told(op, st, message@, result->Ok_0));
        }
        assert(examined(op, left, message@, status, after, result));
    }
}

/// An operation is done exactly where its attempt succeeded.
pub proof fn an_operation_comes_to_what_its_attempt_came_to<R, E, X, S>(
    repo: R,
    op: Operation,
    attempt: X,
    status: S,
    after: R,
    result: Result<OpResult, E>,
) where X: Fn(R, &Operation) -> (R, Attempt<E>), S: Fn(R) -> (R, Result<RepoStatus, E>)
    requires
        call_ensures(
            execute_op::<R, E, X, S>,
            (repo, &op, &attempt, &status),
            (after, result),
        ),
    ensures
        attempted(op, repo, attempt, status, after, result),
        result matches Ok(r) && r is Done ==> exists|left: R| #[trigger]
            call_ensures(attempt, (repo, &op), (left, Attempt::<E>::Succeeded)),
{
    executed_is_attempted(op, repo, attempt, status, after, result);
}

/// Whether `refused` is the one result of a refused plan: an error on the current
/// branch that names what is in progress.
pub open spec fn refusal_told(found: RepoStatus, refused: OpResult) -> bool {
    refused matches OpResult::Error { branch, message } && {
        &&& branch@ == (match found.current_branch {
            Some(current) => current@,
            None => "(detached)"@,
        })
        &&& message@ == "refusing to apply plan: repository is in "@ + called(found.state)
            + " state; resolve or abort the in-progress operation first"@
    }
}

/// A plan is refused exactly where something is in progress, whatever else the
/// status says.
pub proof fn only_a_busy_repository_is_refused(found: RepoStatus, refused: Option<OpResult>)
    requires
        call_ensures(refuse_apply, (found,), refused),
    ensures
        refused is Some <==> !(found.state is Clean),
        refused is Some ==> refusal_told(found, refused->0),
{
}

/// Whether `results` come of attempts at the first operations, one after the
/// other, each on what the one before it left; all but the last are done.
pub open spec fn in_turn<R, E, X, S>(
    ops: Seq<Operation>,
    repos: Seq<R>,
    attempt: X,
    status: S,
    results: Seq<OpResult>,
) -> bool where
    X: Fn(R, &Operation) -> (R, Attempt<E>),
    S: Fn(R) -> (R, Result<RepoStatus, E>),
 {
    &&& results.len() <= ops.len()
    &&& repos.len() == results.len() + 1
    &&& forall|i: int|
        0 <= i < results.len() ==> attempted(
            ops[i],
            repos[i],
            attempt,
            status,
            repos[i + 1],
            Ok::<OpResult, E>(#[trigger] results[i]),
        )
    &&& forall|i: int| 0 <= i < results.len() - 1 ==> (#[trigger] results[i]) is Done
}

/// Whether `applied` is what comes of `ops` on a repository that was found to be
/// `seen`, and `after` what is left of it.
pub open spec fn carried_out<R, E, X, S>(
    ops: Seq<Operation>,
    seen: R,
    attempt: X,
    status: S,
    after: R,
    applied: Result<Vec<OpResult>, E>,
) -> bool where
    X: Fn(R, &Operation) -> (R, Attempt<E>),
    S: Fn(R) -> (R, Result<RepoStatus, E>),
 {
    exists|repos: Seq<R>, results: Seq<OpResult>| #[trigger]
        in_turn::<R, E, X, S>(ops, repos, attempt, status, results) && repos[0] == seen
            && match applied {
            Ok(told) => {
                &&& told@ == results
                &&& repos.last() == after
                &&& results.len() < ops.len() ==> results.len() > 0 && !(results.last() is Done)
            },
            Err(e) => {
                &&& results.len() < ops.len()
                &&& forall|i: int| 0 <= i < results.len() ==> (#[trigger] results[i]) is Done
                &&& attempted(
                    ops[results.len() as int],
                    repos.last(),
                    attempt,
                    status,
                    after,
                    Err::<OpResult, E>(e),
                )
            },
        }
}

/// A plan is applied to a repository in which nothing is in progress, operation
/// by operation in their order, each on what the one before it left, and goes
/// exactly as far as the first that is not done. Any other repository is left
/// alone: there is one result, which says why.
pub proof fn a_plan_goes_as_far_as_its_operations_are_done<R, E, X, S>(
    repo: R,
    plan: Plan,
    attempt: X,
    status: S,
    after: R,
    applied: Result<Vec<OpResult>, E>,
) where X: Fn(R, &Operation) -> (R, Attempt<E>), S: Fn(R) -> (R, Result<RepoStatus, E>)
    requires
        call_ensures(
            apply_plan::<R, E, X, S>,
            (repo, &plan, &attempt, &status),
            (after, applied),
        ),
    ensures
        exists|seen: R, found: Result<RepoStatus, E>| #[trigger]
            call_ensures(status, (repo,), (seen, found)) && match found {
                Err(e) => after == seen && applied == Err::<Vec<OpResult>, E>(e),
                Ok(state) => if state.state is Clean {
                    carried_out(plan.ops@, seen, attempt, status, after, applied)
                } else {
                    &&& after == seen
                    &&& applied matches Ok(results) && results@.len() == 1 && refusal_told(
                        state,
                        results@[0],
                    )
                },
            },
{
    let ops = plan.ops@;
    let (seen, found) = choose|seen: R, found: Result<RepoStatus, E>| #[trigger]
        call_ensures(status, (repo,), (seen, found)) && applied_to(
            found,
            ops,
            seen,
            attempt,
            status,
            after,
            applied,
        );
    if let Ok(state) = found {
        if state.state is Clean {
            match applied {
                Ok(told) => {
                    let repos = choose|repos: Seq<R>| #[trigger]
                        ops_executed::<R, E, X, S>(ops, repos, attempt, status, told@) && repos[0]
                            == seen && repos.last() == after && at_end(ops, told@);
                    executed_in_turn::<R, E, X, S>(ops, repos, attempt, status, told@);
                },
                Err(e) => {
                    let (repos, done) = choose|repos: Seq<R>, done: Seq<OpResult>| #[trigger]
                        ops_executed::<R, E, X, S>(ops, repos, attempt, status, done) && repos[0]
                            == seen && done.len() < ops.len() && (forall|i: int|
                            0 <= i < done.len() ==> (#[trigger] done[i])@ is Done) && op_executed(
                            ops[done.len() as int],
                            repos.last(),
                            attempt,
                            status,
                            after,
                            Err::<OpResult, E>(e),
                        );
                    executed_in_turn::<R, E, X, S>(ops, repos, attempt, status, done);
                    executed_is_attempted(
                        ops[done.len() as int],
                        repos.last(),
                        attempt,
                        status,
                        after,
                        Err::<OpResult, E>(e),
                    );
                    assert forall|i: int| 0 <= i < done.len() implies (#[trigger] done[i]) is Done by {
                        assert(done[i]@ is Done);
                    }
                },
            }
            assert(carried_out(ops, seen, attempt, status, after, applied));
        } else {
            let results = applied->Ok_0;
            assert(results.deep_view().len() == 1);
            assert(results.deep_view()[0] == results@[0]@);
        }
    }
}

proof fn executed_in_turn<R, E, X, S>(
    ops: Seq<Operation>,
    repos: Seq<R>,
    attempt: X,
    status: S,
    results: Seq<OpResult>,
) where X: Fn(R, &Operation) -> (R, Attempt<E>), S: Fn(R) -> (R, Result<RepoStatus, E>)
    requires
        ops_executed::<R, E, X, S>(ops, repos, attempt, status, results),
    ensures
        in_turn::<R, E, X, S>(ops, repos, attempt, status, results),
{
    assert forall|i: int| 0 <= i < results.len() implies attempted(
        ops[i],
        repos[i],
        attempt,
        status,
        repos[i + 1],
        Ok::<OpResult, E>(#[trigger] results[i]),
    ) by {
        executed_is_attempted(
            ops[i],
            repos[i],
            attempt,
            status,
            repos[i + 1],
            Ok::<OpResult, E>(results[i]),
        );
    }
    assert forall|i: int| 0 <= i < results.len() - 1 implies (#[trigger] results[i]) is Done by {
        assert(results[i]@ is Done);
    }
}

/// Whether `ops` were executed in their order, each on what the one before it
/// left, up to the first error.
pub open spec fn run_in_turn<R, E, X>(
    ops: Seq<Operation>,
    repo: R,
    execute: X,
    after: R,
    ended: Result<(), E>,
) -> bool where X: Fn(R, &Operation) -> (R, Result<(), E>) {
    exists|repos: Seq<R>| #[trigger]
        went_well::<R, E, X>(ops, repos, execute) && repos[0] == repo && match ended {
            Ok(_) => repos.len() == ops.len() + 1 && repos.last() == after,
            Err(e) => repos.len() <= ops.len() && call_ensures(
                execute,
                (repos.last(), &ops[repos.len() - 1]),
                (after, Err::<(), E>(e)),
            ),
        }
}

/// Whether the first operations, one for each repository but the first, were
/// executed without an error.
pub open spec fn went_well<R, E, X>(ops: Seq<Operation>, repos: Seq<R>, execute: X) -> bool where
    X: Fn(R, &Operation) -> (R, Result<(), E>),
 {
    &&& 0 < repos.len() <= ops.len() + 1
    &&& forall|i: int|
        0 <= i < repos.len() - 1 ==> call_ensures(
            execute,
            (repos[i], &(#[trigger] ops[i])),
            (repos[i + 1], Ok::<(), E>(())),
        )
}

proof fn given_runs_in_turn<R, E, X>(
    ops: Seq<Operation>,
    repo: R,
    execute: X,
    after: R,
    ended: Result<(), E>,
) where X: Fn(R, &Operation) -> (R, Result<(), E>)
    requires
        given_executed(ops, repo, execute, after, ended),
    ensures
        run_in_turn(ops, repo, execute, after, ended),
{
    let repos = choose|repos: Seq<R>| #[trigger]
        all_succeeded::<R, E, X>(ops, repos, execute) && repos[0] == repo && match ended {
            Ok(_) => repos.len() == ops.len() + 1 && repos.last() == after,
            Err(e) => repos.len() <= ops.len() && call_ensures(
                execute,
                (repos.last(), &ops[repos.len() - 1]),
                (after, Err::<(), E>(e)),
            ),
        };
    assert forall|i: int| 0 <= i < repos.len() - 1 implies call_ensures(
        execute,
        (repos[i], &(#[trigger] ops[i])),
        (repos[i + 1], Ok::<(), E>(())),
    ) by {
        assert(succeeded::<R, E, X>(ops[i], repos[i], execute, repos[i + 1]));
    }
    assert(went_well::<R, E, X>(ops, repos, execute));
}

/// Given operations are executed in their order, up to the first error.
pub proof fn given_operations_run_in_turn<R, E, X>(
    repo: R,
    plan: Vec<Operation>,
    execute: X,
    after: R,
    ended: Result<(), E>,
) where X: Fn(R, &Operation) -> (R, Result<(), E>)
    requires
        call_ensures(execute_given_plan::<R, E, X>, (repo, &plan, &execute), (after, ended)),
    ensures
        run_in_turn(plan@, repo, execute, after, ended),
{
    given_runs_in_turn(plan@, repo, execute, after, ended);
}

/// All operations that are planned for the repository as it was read are
/// executed in their order; where planning fails, none is.
pub proof fn all_that_is_planned_is_executed<R, H, I, E, C, X>(
    repo: R,
    reading: RepositoryReading<H>,
    intents: I,
    calculate: C,
    execute: X,
    after: R,
    ended: Result<(), E>,
) where
    C: FnOnce(&RepositorySnapshot<H>, &I) -> Result<Vec<Operation>, E>,
    X: Fn(R, &Operation) -> (R, Result<(), E>),

    requires
        call_ensures(
            execute_plan::<R, H, I, E, C, X>,
            (repo, reading, &intents, calculate, &execute),
            (after, ended),
        ),
    ensures
        exists|snapshot: RepositorySnapshot<H>, planned: Result<Vec<Operation>, E>|
            as_read(reading, snapshot) && #[trigger] call_ensures(
                calculate,
                (&snapshot, &intents),
                planned,
            ) && match planned {
                Err(e) => after == repo && ended == Err::<(), E>(e),
                Ok(ops) => run_in_turn(ops@, repo, execute, after, ended),
            },
{
    let snapshot = snapshot_of(reading);
    let planned = choose|planned: Result<Vec<Operation>, E>| #[trigger]
        call_ensures(calculate, (&snapshot, &intents), planned) && match planned {
            Err(e) => after == repo && ended == Err::<(), E>(e),
            Ok(ops) => given_executed(ops@, repo, execute, after, ended),
        };
    if let Ok(ops) = planned {
        given_runs_in_turn(ops@, repo, execute, after, ended);
    }
}

/// The rebases that are planned for the repository as it was read, and no other
/// operations, are executed in their order; where planning fails, none is.
pub proof fn only_rebases_are_executed<R, H, I, E, C, X>(
    repo: R,
    reading: RepositoryReading<H>,
    intents: I,
    calculate: C,
    execute: X,
    after: R,
    ended: Result<(), E>,
) where
    C: FnOnce(&RepositorySnapshot<H>, &I) -> Result<Vec<Operation>, E>,
    X: Fn(R, &Operation) -> (R, Result<(), E>),

    requires
        call_ensures(
            execute_rebases::<R, H, I, E, C, X>,
            (repo, reading, &intents, calculate, &execute),
            (after, ended),
        ),
    ensures
        exists|snapshot: RepositorySnapshot<H>, planned: Result<Vec<Operation>, E>|
            as_read(reading, snapshot) && #[trigger] call_ensures(
                calculate,
                (&snapshot, &intents),
                planned,
            ) && match planned {
                Err(e) => after == repo && ended == Err::<(), E>(e),
                Ok(ops) => exists|kept: Seq<Operation>, places: Seq<int>| #[trigger]
                    rebases_at(ops@, kept, places) && run_in_turn(
                        kept,
                        repo,
                        execute,
                        after,
                        ended,
                    ),
            },
{
    let snapshot = snapshot_of(reading);
    let planned = choose|planned: Result<Vec<Operation>, E>| #[trigger]
        call_ensures(calculate, (&snapshot, &intents), planned) && match planned {
            Err(e) => after == repo && ended == Err::<(), E>(e),
            Ok(ops) => given_executed(rebases(ops@), repo, execute, after, ended),
        };
    if let Ok(ops) = planned {
        let places = rebase_places(ops@);
        given_runs_in_turn(rebases(ops@), repo, execute, after, ended);
        assert(rebases_at(ops@, rebases(ops@), places));
    }
}

/// Whether `kept` are the rebases among `ops`, which stand at `places`, in their
/// order.
pub open spec fn rebases_at(ops: Seq<Operation>, kept: Seq<Operation>, places: Seq<int>) -> bool {
    &&& places.len() == kept.len()
    &&& forall|j: int, k: int|
        0 <= j < k < places.len() ==> #[trigger] places[j] < #[trigger] places[k]
    &&& forall|k: int|
        0 <= k < places.len() ==> 0 <= #[trigger] places[k] < ops.len() && kept[k]
            == ops[places[k]]
    &&& forall|i: int|
        0 <= i < ops.len() ==> (#[trigger] places.contains(i) <==> ops[i] is Rebase)
}

/// The rebases are kept, each of them and nothing else, in their order.
pub proof fn rebases_are_kept(plan: Vec<Operation>, kept: Vec<Operation>)
    requires
        call_ensures(keep_rebases, (plan,), kept),
    ensures
        exists|places: Seq<int>| #[trigger] rebases_at(plan@, kept@, places),
{
    let places = rebase_places(plan@);
    assert(rebases_at(plan@, kept@, places));
}

proof fn rebase_places(ops: Seq<Operation>) -> (places: Seq<int>)
    ensures
        rebases_at(ops, rebases(ops), places),
    decreases ops.len(),
{
    reveal(Seq::filter);
    if ops.len() == 0 {
        Seq::empty()
    } else {
        let rest = ops.drop_last();
        let before = rebase_places(rest);
        let last = ops.len() - 1;
        let places = if ops.last() is Rebase {
            before.push(last)
        } else {
            before
        };
        assert forall|i: int| 0 <= i < ops.len() implies (#[trigger] places.contains(i) <==> ops[i]
            is Rebase) by {
            if i < last {
                assert(rest[i] == ops[i]);
                assert(before.contains(i) <==> rest[i] is Rebase);
                if before.contains(i) {
                    let k = choose|k: int| 0 <= k < before.len() && before[k] == i;
                    assert(places[k] == i);
                }
                if places.contains(i) {
                    let k = choose|k: int| 0 <= k < places.len() && places[k] == i;
                    assert(before[k] == i);
                }
            } else if ops.last() is Rebase {
                assert(places[before.len() as int] == i);
            } else if places.contains(i) {
                let k = choose|k: int| 0 <= k < places.len() && places[k] == i;
                assert(before[k] < rest.len());
            }
        }
        places
    }
}

/// An operation names the branch that it changes, and a result is done exactly
/// where it says so.
pub proof fn operations_and_results_say_what_they_are(
    op: Operation,
    branch: &String,
    result: OpResult,
    done: bool,
)
    requires
        call_ensures(Operation::target_branch, (&op,), branch),
        call_ensures(OpResult::is_done, (&result,), done),
    ensures
        branch@ == changes(op),
        done <==> result is Done,
{
}

} // verus!
