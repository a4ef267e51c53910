//! Carrying plans out, one operation after the other.

use crate::engine::{snapshot_of, Operation, RepositoryReading, RepositorySnapshot};
use crate::plan::Plan;
use crate::status::{rebasing, state_name, RepoState, RepoStatus, RepoStatusView};
use vstd::prelude::*;

verus! {

/// What came of an operation.
#[derive(Debug, Clone)]
pub enum OpResult {
    Done { branch: String },
    Conflict { branch: String, conflicted_paths: Vec<String>, rebase_in_progress: bool },
    Error { branch: String, message: String },
}

/// What an [`OpResult`] says.
pub enum OpResultView {
    Done { branch: Seq<char> },
    Conflict {
        branch: Seq<char>,
        conflicted_paths: Seq<Seq<char>>,
        rebase_in_progress: bool,
    },
    Error { branch: Seq<char>, message: Seq<char> },
}

impl View for OpResult {
    type V = OpResultView;

    open spec fn view(&self) -> OpResultView {
        match *self {
            OpResult::Done { branch } => OpResultView::Done { branch: branch@ },
            OpResult::Conflict { branch, conflicted_paths, rebase_in_progress } => {
                OpResultView::Conflict {
                    branch: branch@,
                    conflicted_paths: conflicted_paths.deep_view(),
                    rebase_in_progress,
                }
            },
            OpResult::Error { branch, message } => OpResultView::Error {
                branch: branch@,
                message: message@,
            },
        }
    }
}

impl DeepView for OpResult {
    type V = OpResultView;

    open spec fn deep_view(&self) -> OpResultView {
        self@
    }
}

impl OpResultView {
    /// The branch that the result is about.
    pub open spec fn branch(self) -> Seq<char> {
        match self {
            OpResultView::Done { branch } => branch,
            OpResultView::Conflict { branch, .. } => branch,
            OpResultView::Error { branch, .. } => branch,
        }
    }
}

impl OpResult {
    /// Whether the operation was carried out.
    pub fn is_done(&self) -> (done: bool)
        ensures
            done == (self@ is Done),
    {
        match self {
            OpResult::Done { .. } => true,
            _ => false,
        }
    }
}

/// How an attempt at an operation ended.
#[derive(Debug, Clone)]
pub enum Attempt<E> {
    /// It was carried out.
    Succeeded,
    /// It was begun and failed.
    Failed { message: String },
    /// The repository could not be opened for it.
    Unopened(E),
}

/// What a failed operation comes to, given what the repository was left in: a
/// conflict where files are in conflict or something is in progress, else a
/// plain error.
pub open spec fn failure_result(
    branch: Seq<char>,
    status: RepoStatusView,
    message: Seq<char>,
) -> OpResultView {
    if status.conflicted_paths.len() > 0 || !(status.state is Clean) {
        OpResultView::Conflict {
            branch,
            conflicted_paths: status.conflicted_paths,
            rebase_in_progress: rebasing(status.state),
        }
    } else {
        OpResultView::Error { branch, message }
    }
}

/// The result of a failed operation, given what the repository was left in.
pub fn failed_op(op: &Operation, status: RepoStatus, message: String) -> (result: OpResult)
    ensures
        result@ == failure_result(op@.target(), status@, message@),
{
    let branch = op.target_branch().clone();
    if status.conflicted_paths.len() > 0 || !status.state.is_clean() {
        OpResult::Conflict {
            branch,
            rebase_in_progress: status.state.is_rebase(),
            conflicted_paths: status.conflicted_paths,
        }
    } else {
        OpResult::Error { branch, message }
    }
}

/// Whether one attempt at `op` on the repository `before` leaves `after` and
/// comes to `result`. The state of the repository is read only where the
/// attempt failed, and then of what the attempt left.
pub open spec fn op_executed<R, E, X, S>(
    op: Operation,
    before: R,
    attempt: X,
    status: S,
    after: R,
    result: Result<OpResult, E>,
) -> bool where
    X: Fn(R, &Operation) -> (R, Attempt<E>),
    S: Fn(R) -> (R, Result<RepoStatus, E>),
 {
    exists|left: R, end: Attempt<E>| #[trigger]
        call_ensures(attempt, (before, &op), (left, end)) && match end {
            Attempt::Succeeded => {
                &&& after == left
                &&& result matches Ok(r) && r@ == (OpResultView::Done { branch: op@.target() })
            },
            Attempt::Unopened(e) => after == left && result == Err::<OpResult, E>(e),
            Attempt::Failed { message } => failure_examined(
                op,
                left,
                message@,
                status,
                after,
                result,
            ),
        }
}

/// Whether `result` is what the state of `left`, the repository after a failed
/// attempt at `op`, makes of the failure.
pub open spec fn failure_examined<R, E, S>(
    op: Operation,
    left: R,
    message: Seq<char>,
    status: S,
    after: R,
    result: Result<OpResult, E>,
) -> bool where S: Fn(R) -> (R, Result<RepoStatus, E>) {
    exists|found: Result<RepoStatus, E>| #[trigger]
        call_ensures(status, (left,), (after, found)) && match found {
            Err(e) => result == Err::<OpResult, E>(e),
            Ok(found) => result matches Ok(r) && r@ == failure_result(
                op@.target(),
                found@,
                message,
            ),
        }
}

/// Carries one operation out. Where it fails, the state that the repository was
/// left in tells a conflict from an error. The repository goes in and comes out
/// by value, so that the calls on it follow on each other.
pub fn execute_op<R, E, X, S>(repo: R, op: &Operation, attempt: &X, status: &S) -> (executed: (
    R,
    Result<OpResult, E>,
)) where
    X: Fn(R, &Operation) -> (R, Attempt<E>),
    S: Fn(R) -> (R, Result<RepoStatus, E>),

    requires
        forall|repo: R, op: Operation| #[trigger] call_requires(*attempt, (repo, &op)),
        forall|repo: R| #[trigger] call_requires(*status, (repo,)),
    ensures
        op_executed(*op, repo, *attempt, *status, executed.0, executed.1),
{
    let (left, end) = attempt(repo, op);
    assert(call_ensures(*attempt, (repo, op), (left, end)));
    match end {
        Attempt::Succeeded => (left, Ok(OpResult::Done { branch: op.target_branch().clone() })),
        Attempt::Unopened(e) => (left, Err(e)),
        Attempt::Failed { message } => {
            let (after, found) = status(left);
            assert(call_ensures(*status, (left,), (after, found)));
            match found {
                Err(e) => (after, Err(e)),
                Ok(found) => (after, Ok(failed_op(op, found, message))),
            }
        },
    }
}

/// Why a plan is not carried out while something is in progress.
pub open spec fn refusal_text(state: RepoState) -> Seq<char> {
    "refusing to apply plan: repository is in "@ + state_name(state)
        + " state; resolve or abort the in-progress operation first"@
}

/// The result that stands for a refused plan; `None` where the repository lets
/// the plan go ahead.
pub open spec fn refusal_result(status: RepoStatusView) -> Option<OpResultView> {
    if status.state is Clean {
        None
    } else {
        Some(
            OpResultView::Error {
                branch: match status.current_branch {
                    Some(branch) => branch,
                    None => "(detached)"@,
                },
                message: refusal_text(status.state),
            },
        )
    }
}

/// The result that stands for a refused plan; `None` where the repository lets
/// the plan go ahead.
pub fn refuse_apply(status: RepoStatus) -> (refused: Option<OpResult>)
    ensures
        match refused {
            Some(result) => refusal_result(status@) == Some(result@),
            None => refusal_result(status@) is None,
        },
{
    if status.state.is_clean() {
        return None;
    }
    let branch = match status.current_branch {
        Some(branch) => branch,
        None => "(detached)".to_owned(),
    };
    let mut message = "refusing to apply plan: repository is in ".to_owned();
    message.append(status.state.name());
    message.append(" state; resolve or abort the in-progress operation first");
    Some(OpResult::Error { branch, message })
}

/// Whether `results` are those of carrying `ops` out in order up to the first
/// that is not done. `repos` are the repository at the start and after each
/// operation: each operation is attempted on what the one before it left.
pub open spec fn ops_executed<R, E, X, S>(
    ops: Seq<Operation>,
    repos: Seq<R>,
    attempt: X,
    status: S,
    results: Seq<OpResult>,
) -> bool where
    X: Fn(R, &Operation) -> (R, Attempt<E>),
    S: Fn(R) -> (R, Result<RepoStatus, E>),
 {
    &&& results.len() <= ops.len()
    &&& repos.len() == results.len() + 1
    &&& forall|i: int|
        0 <= i < results.len() ==> op_executed(
            ops[i],
            repos[i],
            attempt,
            status,
            repos[i + 1],
            Ok::<OpResult, E>(#[trigger] results[i]),
        )
    &&& forall|i: int| 0 <= i < results.len() - 1 ==> (#[trigger] results[i])@ is Done
}

/// Whether carrying out comes to an end with these results: there is nothing
/// left to do, or the last operation was not done.
pub open spec fn at_end(ops: Seq<Operation>, results: Seq<OpResult>) -> bool {
    results.len() == ops.len() || (results.len() > 0 && !(results.last()@ is Done))
}

/// Whether carrying `ops` out on `repo` comes to an end with these results and
/// leaves `after`.
pub open spec fn ops_ended<R, E, X, S>(
    ops: Seq<Operation>,
    repo: R,
    attempt: X,
    status: S,
    after: R,
    results: Seq<OpResult>,
) -> bool where
    X: Fn(R, &Operation) -> (R, Attempt<E>),
    S: Fn(R) -> (R, Result<RepoStatus, E>),
 {
    exists|repos: Seq<R>| #[trigger]
        ops_executed::<R, E, X, S>(ops, repos, attempt, status, results) && repos[0] == repo
            && repos.last() == after && at_end(ops, results)
}

/// Whether an operation that follows on done ones ends in the error `e` and
/// leaves `after`.
pub open spec fn ops_broken_off<R, E, X, S>(
    ops: Seq<Operation>,
    repo: R,
    attempt: X,
    status: S,
    after: R,
    e: E,
) -> bool where
    X: Fn(R, &Operation) -> (R, Attempt<E>),
    S: Fn(R) -> (R, Result<RepoStatus, E>),
 {
    exists|repos: Seq<R>, done: Seq<OpResult>| #[trigger]
        ops_executed::<R, E, X, S>(ops, repos, attempt, status, done) && repos[0] == repo
            && done.len() < ops.len() && (forall|i: int|
            0 <= i < done.len() ==> (#[trigger] done[i])@ is Done) && op_executed(
            ops[done.len() as int],
            repos.last(),
            attempt,
            status,
            after,
            Err::<OpResult, E>(e),
        )
}

/// Whether `applied` is what comes of applying `ops` to a repository that was
/// found in a given state, and `after` what is left of it. Where the state could
/// not be read, or the plan is refused, no operation is attempted.
pub open spec fn applied_to<R, E, X, S>(
    found: Result<RepoStatus, E>,
    ops: Seq<Operation>,
    repo: R,
    attempt: X,
    status: S,
    after: R,
    applied: Result<Vec<OpResult>, E>,
) -> bool where
    X: Fn(R, &Operation) -> (R, Attempt<E>),
    S: Fn(R) -> (R, Result<RepoStatus, E>),
 {
    match found {
        Err(e) => after == repo && applied == Err::<Vec<OpResult>, E>(e),
        Ok(before) => match refusal_result(before@) {
            Some(refused) => {
                &&& after == repo
                &&& applied matches Ok(results) && results.deep_view() == seq![refused]
            },
            None => match applied {
                Ok(results) => ops_ended::<R, E, X, S>(
                    ops,
                    repo,
                    attempt,
                    status,
                    after,
                    results@,
                ),
                Err(e) => ops_broken_off(ops, repo, attempt, status, after, e),
            },
        },
    }
}

/// Whether `applied` is what comes of applying `ops` to `repo`, and `after` what
/// is left of it.
pub open spec fn plan_applied<R, E, X, S>(
    ops: Seq<Operation>,
    repo: R,
    attempt: X,
    status: S,
    after: R,
    applied: Result<Vec<OpResult>, E>,
) -> bool where
    X: Fn(R, &Operation) -> (R, Attempt<E>),
    S: Fn(R) -> (R, Result<RepoStatus, E>),
 {
    exists|seen: R, found: Result<RepoStatus, E>| #[trigger]
        call_ensures(status, (repo,), (seen, found)) && applied_to(
            found,
            ops,
            seen,
            attempt,
            status,
            after,
            applied,
        )
}

/// Applies a plan operation by operation and stops at the first result that is
/// not done. A repository in which something is in progress is left alone: the
/// only result is then an error that says so.
pub fn apply_plan<R, E, X, S>(repo: R, plan: &Plan, attempt: &X, status: &S) -> (applied: (
    R,
    Result<Vec<OpResult>, E>,
)) where
    X: Fn(R, &Operation) -> (R, Attempt<E>),
    S: Fn(R) -> (R, Result<RepoStatus, E>),

    requires
        forall|repo: R, op: Operation| #[trigger] call_requires(*attempt, (repo, &op)),
        forall|repo: R| #[trigger] call_requires(*status, (repo,)),
    ensures
        plan_applied(plan.ops@, repo, *attempt, *status, applied.0, applied.1),
{
    let (seen, found) = status(repo);
    assert(call_ensures(*status, (repo,), (seen, found)));
    let before = match found {
        Err(e) => {
            return (seen, Err(e));
        },
        Ok(before) => before,
    };
    if let Some(refused) = refuse_apply(before) {
        let ghost view = refused@;
        let results: Vec<OpResult> = vec![refused];
        assert(results.deep_view() =~= seq![view]);
        return (seen, Ok(results));
    }
    let ghost mut repos: Seq<R> = seq![seen];
    let mut results: Vec<OpResult> = Vec::new();
    let mut current = seen;
    let mut i: usize = 0;
    while i < plan.ops.len()
        invariant
            i <= plan.ops.len(),
            results.len() == i,
            forall|repo: R, op: Operation| #[trigger] call_requires(*attempt, (repo, &op)),
            forall|repo: R| #[trigger] call_requires(*status, (repo,)),
            call_ensures(*status, (repo,), (seen, Ok::<RepoStatus, E>(before))),
            refusal_result(before@) is None,
            ops_executed::<R, E, X, S>(plan.ops@, repos, *attempt, *status, results@),
            repos[0] == seen,
            repos.last() == current,
            forall|j: int| 0 <= j < i ==> (#[trigger] results@[j])@ is Done,
        decreases plan.ops.len() - i,
    {
        let (after, executed) = execute_op(current, &plan.ops[i], attempt, status);
        match executed {
            Err(e) => {
                assert(ops_broken_off(plan.ops@, seen, *attempt, *status, after, e));
                return (after, Err(e));
            },
            Ok(result) => {
                let stop = !result.is_done();
                let ghost repos_before = repos;
                let ghost results_before = results@;
                results.push(result);
                proof {
                    repos = repos.push(after);
                    assert forall|j: int| 0 <= j < results@.len() implies op_executed(
                        plan.ops@[j],
                        repos[j],
                        *attempt,
                        *status,
                        repos[j + 1],
                        Ok::<OpResult, E>(#[trigger] results@[j]),
                    ) by {
                        if j < i {
                            assert(results@[j] == results_before[j]);
                            assert(repos[j] == repos_before[j]);
                            assert(repos[j + 1] == repos_before[j + 1]);
                        }
                    }
                    assert(ops_executed::<R, E, X, S>(
                        plan.ops@,
                        repos,
                        *attempt,
                        *status,
                        results@,
                    ));
                }
                current = after;
                if stop {
                    assert(ops_ended::<R, E, X, S>(
                        plan.ops@,
                        seen,
                        *attempt,
                        *status,
                        current,
                        results@,
                    ));
                    return (current, Ok(results));
                }
            },
        }
        i = i + 1;
    }
    assert(ops_ended::<R, E, X, S>(plan.ops@, seen, *attempt, *status, current, results@));
    (current, Ok(results))
}

/// Every result names the branch that its operation changes.
pub proof fn results_name_their_branch<R, E, X, S>(
    op: Operation,
    before: R,
    attempt: X,
    status: S,
    after: R,
    result: OpResult,
) where X: Fn(R, &Operation) -> (R, Attempt<E>), S: Fn(R) -> (R, Result<RepoStatus, E>)
    requires
        op_executed(op, before, attempt, status, after, Ok::<OpResult, E>(result)),
    ensures
        result@.branch() == op@.target(),
{
}

/// Where nothing is in progress and there is nothing to do, nothing is done: no
/// result comes, and the repository stays as reading its state left it.
pub proof fn empty_plan_does_nothing<R, E, X, S>(
    repo: R,
    attempt: X,
    status: S,
    after: R,
    applied: Result<Vec<OpResult>, E>,
) where X: Fn(R, &Operation) -> (R, Attempt<E>), S: Fn(R) -> (R, Result<RepoStatus, E>)
    requires
        plan_applied(Seq::empty(), repo, attempt, status, after, applied),
        forall|seen: R, found: Result<RepoStatus, E>| #[trigger]
            call_ensures(status, (repo,), (seen, found)) ==> found is Ok && found->Ok_0@.state
                is Clean,
    ensures
        applied matches Ok(results) && results@.len() == 0,
        exists|found: Result<RepoStatus, E>| #[trigger]
            call_ensures(status, (repo,), (after, found)),
{
}

/// Where something is in progress a plan is refused, whatever it holds: the
/// one result is an error, and the repository stays as reading its state left
/// it, so that no operation was attempted on it.
pub proof fn busy_repository_is_refused<R, E, X, S>(
    ops: Seq<Operation>,
    repo: R,
    attempt: X,
    status: S,
    after: R,
    applied: Result<Vec<OpResult>, E>,
) where X: Fn(R, &Operation) -> (R, Attempt<E>), S: Fn(R) -> (R, Result<RepoStatus, E>)
    requires
        plan_applied(ops, repo, attempt, status, after, applied),
        forall|seen: R, found: Result<RepoStatus, E>| #[trigger]
            call_ensures(status, (repo,), (seen, found)) ==> found is Ok && !(
            found->Ok_0@.state is Clean),
    ensures
        applied matches Ok(results) && results@.len() == 1 && results@[0]@ is Error,
        exists|found: Result<RepoStatus, E>| #[trigger]
            call_ensures(status, (repo,), (after, found)),
{
    let results = applied->Ok_0;
    assert(results.deep_view().len() == 1);
    assert(results.deep_view()[0] == results@[0]@);
}

/// A plan goes no further than the first operation that is not done: every
/// result but the last is of a done operation, and operations are left over
/// only behind one that is not done. Where the plan was not refused, what is
/// left of the repository is what the operation of the last result left.
pub proof fn nothing_follows_a_failure<R, E, X, S>(
    ops: Seq<Operation>,
    repo: R,
    attempt: X,
    status: S,
    after: R,
    results: Vec<OpResult>,
) where X: Fn(R, &Operation) -> (R, Attempt<E>), S: Fn(R) -> (R, Result<RepoStatus, E>)
    requires
        plan_applied(ops, repo, attempt, status, after, Ok::<Vec<OpResult>, E>(results)),
    ensures
        forall|i: int| 0 <= i < results@.len() - 1 ==> (#[trigger] results@[i])@ is Done,
        results@.len() < ops.len() ==> results@.len() > 0 && !(results@.last()@ is Done),
        results@.len() > 0 && (forall|seen: R, found: Result<RepoStatus, E>| #[trigger]
            call_ensures(status, (repo,), (seen, found)) ==> found is Ok && found->Ok_0@.state
                is Clean) ==> exists|before: R| #[trigger]
            op_executed(
                ops[results@.len() - 1],
                before,
                attempt,
                status,
                after,
                Ok::<OpResult, E>(results@.last()),
            ),
{
    let (seen, found) = choose|seen: R, found: Result<RepoStatus, E>| #[trigger]
        call_ensures(status, (repo,), (seen, found)) && applied_to(
            found,
            ops,
            seen,
            attempt,
            status,
            after,
            Ok::<Vec<OpResult>, E>(results),
        );
    if let Some(refused) = refusal_result(found->Ok_0@) {
        assert(results.deep_view().len() == 1);
        assert(results.deep_view()[0] == results@[0]@);
    } else if results@.len() > 0 {
        let repos = choose|repos: Seq<R>| #[trigger]
            ops_executed::<R, E, X, S>(ops, repos, attempt, status, results@) && repos[0] == seen
                && repos.last() == after && at_end(ops, results@);
        let last = results@.len() - 1;
        assert(op_executed(
            ops[last],
            repos[last],
            attempt,
            status,
            repos[last + 1],
            Ok::<OpResult, E>(results@[last]),
        ));
    }
}

/// Whether executing `op` on `before` leaves `after` and succeeds.
pub open spec fn succeeded<R, E, X>(op: Operation, before: R, execute: X, after: R) -> bool where
    X: Fn(R, &Operation) -> (R, Result<(), E>),
 {
    call_ensures(execute, (before, &op), (after, Ok::<(), E>(())))
}

/// Whether the first operations, one for each repository but the first, are
/// executed in order, each on what the one before it left.
pub open spec fn all_succeeded<R, E, X>(ops: Seq<Operation>, repos: Seq<R>, execute: X) -> bool where
    X: Fn(R, &Operation) -> (R, Result<(), E>),
 {
    &&& 0 < repos.len() <= ops.len() + 1
    &&& forall|i: int|
        0 <= i < repos.len() - 1 ==> succeeded::<R, E, X>(
            #[trigger] ops[i],
            repos[i],
            execute,
            repos[i + 1],
        )
}

/// Whether `ended` is what comes of executing `ops` in order up to the first
/// error, and `after` what is left of `repo`.
pub open spec fn given_executed<R, E, X>(
    ops: Seq<Operation>,
    repo: R,
    execute: X,
    after: R,
    ended: Result<(), E>,
) -> bool where X: Fn(R, &Operation) -> (R, Result<(), E>) {
    exists|repos: Seq<R>| #[trigger]
        all_succeeded::<R, E, X>(ops, repos, execute) && repos[0] == repo && match ended {
            Ok(_) => repos.len() == ops.len() + 1 && repos.last() == after,
            Err(e) => repos.len() <= ops.len() && call_ensures(
                execute,
                (repos.last(), &ops[repos.len() - 1]),
                (after, Err::<(), E>(e)),
            ),
        }
}

/// Executes the operations in order, up to the first error.
pub fn execute_given_plan<R, E, X>(repo: R, plan: &Vec<Operation>, execute: &X) -> (ended: (
    R,
    Result<(), E>,
)) where X: Fn(R, &Operation) -> (R, Result<(), E>)
    requires
        forall|repo: R, op: Operation| #[trigger] call_requires(*execute, (repo, &op)),
    ensures
        given_executed(plan@, repo, *execute, ended.0, ended.1),
{
    let ghost mut repos: Seq<R> = seq![repo];
    let mut current = repo;
    let mut i: usize = 0;
    while i < plan.len()
        invariant
            i <= plan.len(),
            forall|repo: R, op: Operation| #[trigger] call_requires(*execute, (repo, &op)),
            repos.len() == i + 1,
            repos[0] == repo,
            repos.last() == current,
            all_succeeded::<R, E, X>(plan@, repos, *execute),
        decreases plan.len() - i,
    {
        let (after, executed) = execute(current, &plan[i]);
        assert(call_ensures(*execute, (current, &plan@[i as int]), (after, executed)));
        match executed {
            Ok(unit) => {
                assert(unit == ());
                let ghost before = repos;
                proof {
                    repos = repos.push(after);
                    assert forall|j: int| 0 <= j < repos.len() - 1 implies succeeded::<R, E, X>(
                        #[trigger] plan@[j],
                        repos[j],
                        *execute,
                        repos[j + 1],
                    ) by {
                        assert(repos[j] == before[j]);
                        if j < i {
                            assert(repos[j + 1] == before[j + 1]);
                        }
                    }
                }
                current = after;
            },
            Err(e) => {
                return (after, Err(e));
            },
        }
        i = i + 1;
    }
    (current, Ok(()))
}

/// Tells rebases from other operations.
pub open spec fn is_rebase() -> spec_fn(Operation) -> bool {
    |op: Operation| op is Rebase
}

/// The rebases among `ops`, in their order.
pub open spec fn rebases(ops: Seq<Operation>) -> Seq<Operation> {
    ops.filter(is_rebase())
}

/// The rebases among `plan`, in their order.
pub fn keep_rebases(plan: Vec<Operation>) -> (kept: Vec<Operation>)
    ensures
        kept@ == rebases(plan@),
{
    let ghost all = plan@;
    let mut kept: Vec<Operation> = Vec::new();
    for op in it: plan
        invariant
            it.seq() == all,
            kept@ == all.take(it.index() as int).filter(is_rebase()),
    {
        let ghost i = it.index() as int;
        reveal(Seq::filter);
        assert(all.take(i + 1).drop_last() =~= all.take(i));
        if let Operation::Rebase { .. } = op {
            kept.push(op);
        }
    }
    assert(all.take(all.len() as int) =~= all);
    kept
}

/// Whether a planner takes every snapshot under the given intents.
pub open spec fn accepts_snapshots<H, I, E, C>(intents: I, calculate: C) -> bool where
    C: FnOnce(&RepositorySnapshot<H>, &I) -> Result<Vec<Operation>, E>,
 {
    forall|snapshot: RepositorySnapshot<H>| #[trigger]
        call_requires(calculate, (&snapshot, &intents))
}

/// Whether `ended` is what comes of planning for the intents and executing what
/// is kept of the plan, and `after` what is left of `repo`. Where planning fails
/// nothing is executed.
pub open spec fn planned_and_executed<R, H, I, E, C, X>(
    repo: R,
    reading: RepositoryReading<H>,
    intents: I,
    calculate: C,
    keep: spec_fn(Seq<Operation>) -> Seq<Operation>,
    execute: X,
    after: R,
    ended: Result<(), E>,
) -> bool where
    C: FnOnce(&RepositorySnapshot<H>, &I) -> Result<Vec<Operation>, E>,
    X: Fn(R, &Operation) -> (R, Result<(), E>),
 {
    exists|planned: Result<Vec<Operation>, E>| #[trigger]
        call_ensures(calculate, (&snapshot_of(reading), &intents), planned) && match planned {
            Err(e) => after == repo && ended == Err::<(), E>(e),
            Ok(ops) => given_executed(keep(ops@), repo, execute, after, ended),
        }
}

/// Plans for the intents and executes the plan, up to the first error.
pub fn execute_plan<R, H, I, E, C, X>(
    repo: R,
    reading: RepositoryReading<H>,
    intents: &I,
    calculate: C,
    execute: &X,
) -> (ended: (R, Result<(), E>)) where
    C: FnOnce(&RepositorySnapshot<H>, &I) -> Result<Vec<Operation>, E>,
    X: Fn(R, &Operation) -> (R, Result<(), E>),

    requires
        accepts_snapshots(*intents, calculate),
        forall|repo: R, op: Operation| #[trigger] call_requires(*execute, (repo, &op)),
    ensures
        planned_and_executed(
            repo,
            reading,
            *intents,
            calculate,
            |ops: Seq<Operation>| ops,
            *execute,
            ended.0,
            ended.1,
        ),
{
    let snapshot = reading.into_snapshot();
    match calculate(&snapshot, intents) {
        Err(e) => (repo, Err(e)),
        Ok(ops) => execute_given_plan(repo, &ops, execute),
    }
}

/// Plans for the intents and executes the rebases of the plan alone, up to the
/// first error.
pub fn execute_rebases<R, H, I, E, C, X>(
    repo: R,
    reading: RepositoryReading<H>,
    intents: &I,
    calculate: C,
    execute: &X,
) -> (ended: (R, Result<(), E>)) where
    C: FnOnce(&RepositorySnapshot<H>, &I) -> Result<Vec<Operation>, E>,
    X: Fn(R, &Operation) -> (R, Result<(), E>),

    requires
        accepts_snapshots(*intents, calculate),
        forall|repo: R, op: Operation| #[trigger] call_requires(*execute, (repo, &op)),
    ensures
        planned_and_executed(
            repo,
            reading,
            *intents,
            calculate,
            |ops: Seq<Operation>| rebases(ops),
            *execute,
            ended.0,
            ended.1,
        ),
{
    let snapshot = reading.into_snapshot();
    match calculate(&snapshot, intents) {
        Err(e) => (repo, Err(e)),
        Ok(ops) => execute_given_plan(repo, &keep_rebases(ops), execute),
    }
}

/// Where only rebases are executed, what is executed is a rebase of the plan,
/// and every rebase of the plan is.
pub proof fn rebases_are_the_rebases(ops: Seq<Operation>, op: Operation)
    ensures
        rebases(ops).contains(op) <==> ops.contains(op) && op is Rebase,
    decreases ops.len(),
{
    reveal(Seq::filter);
    let kept = rebases(ops);
    if ops.len() > 0 {
        let rest = ops.drop_last();
        rebases_are_the_rebases(rest, op);
        assert(ops =~= rest.push(ops.last()));
        if ops.last() is Rebase {
            assert(kept == rebases(rest).push(ops.last()));
            if kept.contains(op) {
                let k = choose|k: int| 0 <= k < kept.len() && kept[k] == op;
                if k < rebases(rest).len() {
                    assert(rebases(rest)[k] == op);
                }
            }
            if rebases(rest).contains(op) {
                let k = choose|k: int| 0 <= k < rebases(rest).len() && rebases(rest)[k] == op;
                assert(kept[k] == op);
            }
            assert(kept.last() == ops.last());
        }
        if ops.contains(op) {
            let k = choose|k: int| 0 <= k < ops.len() && ops[k] == op;
            if k < rest.len() {
                assert(rest[k] == op);
            }
        }
        if rest.contains(op) {
            let k = choose|k: int| 0 <= k < rest.len() && rest[k] == op;
            assert(ops[k] == op);
        }
        assert(ops[ops.len() - 1] == ops.last());
    }
}

} // verus!
