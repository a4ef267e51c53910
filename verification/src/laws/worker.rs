//! Laws of the worker.

use crate::engine::{BranchInfo, Operation};
use crate::worker::{
    step, DiffReading, Event, GitCommand, GitResponse, Share, WorkerState,
};
use vstd::prelude::*;

verus! {

/// Whether the step led to the state `next` and sent `n` responses.
pub open spec fn went<H, C, D, E, F>(
    stepped: Option<(WorkerState<H, E>, Vec<GitResponse<H, C, D, E, F>>)>,
    next: WorkerState<H, E>,
    n: nat,
) -> bool {
    stepped matches Some((state, sent)) && state == next && sent@.len() == n
}

/// Whether the response tells how far a reading has come.
pub open spec fn tells<H, C, D, E, F>(
    response: GitResponse<H, C, D, E, F>,
    words: Seq<char>,
    percent: u8,
) -> bool {
    response matches GitResponse::Progress { message, share } && message@ == words && share
        == Share::<F>::Percent(percent)
}

/// The responses of a step.
pub open spec fn sent_by<H, C, D, E, F>(
    stepped: Option<(WorkerState<H, E>, Vec<GitResponse<H, C, D, E, F>>)>,
) -> Seq<GitResponse<H, C, D, E, F>> {
    match stepped {
        Some((state, sent)) => sent@,
        None => Seq::empty(),
    }
}

/// An idle worker takes up the command it is given, with all that the command
/// names; only of a diff it says at once that it is at it. When no command will
/// come it stops.
pub proof fn an_idle_worker_takes_up_its_command<H, C, D, E, F>(
    event: Event<H, C, D, E, F>,
    stepped: Option<(WorkerState<H, E>, Vec<GitResponse<H, C, D, E, F>>)>,
)
    requires
        call_ensures(step::<H, C, D, E, F>, (WorkerState::<H, E>::Idle, event), stepped),
    ensures
        match event {
            Event::Closed => went(stepped, WorkerState::Stopped, 0),
            Event::Command(GitCommand::GetBranches) => went(
                stepped,
                WorkerState::ReadingBranches,
                0,
            ),
            Event::Command(GitCommand::GetCurrentBranch) => went(
                stepped,
                WorkerState::ReadingCurrent,
                0,
            ),
            Event::Command(GitCommand::CheckConflict { branch, onto, base }) => went(
                stepped,
                WorkerState::CheckingConflict { branch, onto, base },
                0,
            ),
            Event::Command(GitCommand::GetCommitLog { branch }) => went(
                stepped,
                WorkerState::ReadingLog { branch },
                0,
            ),
            Event::Command(GitCommand::FetchDiff { branch, parent }) => went(
                stepped,
                WorkerState::ReadingDiff { branch, parent },
                1,
            ) && tells(sent_by(stepped)[0], "Calculating diff for "@ + branch@ + "..."@, 10),
            Event::Command(GitCommand::PredictConflicts { plan, branches }) => went(
                stepped,
                WorkerState::Predicting { plan, branches },
                0,
            ),
            _ => stepped is None,
        },
{
    seen_one_by_one(stepped);
}

/// What a step sent is what its responses say, one by one.
proof fn seen_one_by_one<H, C, D, E, F>(
    stepped: Option<(WorkerState<H, E>, Vec<GitResponse<H, C, D, E, F>>)>,
)
    ensures
        stepped matches Some((state, sent)) ==> {
            &&& sent.deep_view().len() == sent@.len()
            &&& forall|i: int|
                0 <= i < sent@.len() ==> (#[trigger] sent@[i])@ == sent.deep_view()[i]
        },
{
}

/// While the branches are read the worker passes on how far that has come, in the
/// engine's own measure; once they are, it goes on to the working tree with what
/// was read.
pub proof fn branches_are_followed_by_the_working_tree<H, C, D, E, F>(
    event: Event<H, C, D, E, F>,
    stepped: Option<(WorkerState<H, E>, Vec<GitResponse<H, C, D, E, F>>)>,
)
    requires
        call_ensures(
            step::<H, C, D, E, F>,
            (WorkerState::<H, E>::ReadingBranches, event),
            stepped,
        ),
    ensures
        match event {
            Event::BranchesProgress { message, share } => {
                &&& went(stepped, WorkerState::ReadingBranches, 1)
                &&& sent_by(stepped)[0] matches GitResponse::Progress { message: told, share: far }
                    && told@ == message@ && far == Share::Reported(share)
            },
            Event::BranchesRead(read) => went(stepped, WorkerState::ReadingDirty { read }, 1)
                && tells(sent_by(stepped)[0], "Checking for dirty worktree..."@, 95),
            _ => stepped is None,
        },
{
    seen_one_by_one(stepped);
}

/// The screen gets the branches, the history and whether the tree is dirty, all
/// as they were read, exactly where both readings went well; else it gets the
/// error of the first that failed.
pub proof fn branches_are_answered_if_both_readings_went_well<H, C, D, E, F>(
    read: Result<(Vec<BranchInfo>, H), E>,
    event: Event<H, C, D, E, F>,
    stepped: Option<(WorkerState<H, E>, Vec<GitResponse<H, C, D, E, F>>)>,
)
    requires
        call_ensures(
            step::<H, C, D, E, F>,
            (WorkerState::<H, E>::ReadingDirty { read }, event),
            stepped,
        ),
    ensures
        match event {
            Event::DirtyRead(dirty) => went(stepped, WorkerState::Idle, 1) && (sent_by(
                stepped,
            )[0] matches GitResponse::Branches(answer) && match answer {
                Ok((branches, history, is_dirty)) => read == Ok::<(Vec<BranchInfo>, H), E>(
                    (branches, history),
                ) && dirty == Ok::<bool, E>(is_dirty),
                Err(e) => read == Err::<(Vec<BranchInfo>, H), E>(e) || (read is Ok && dirty == Err::<
                    bool,
                    E,
                >(e)),
            }),
            _ => stepped is None,
        },
{
    seen_one_by_one(stepped);
}

/// The name of the current branch is passed on as it was read.
pub proof fn the_current_branch_is_passed_on<H, C, D, E, F>(
    event: Event<H, C, D, E, F>,
    stepped: Option<(WorkerState<H, E>, Vec<GitResponse<H, C, D, E, F>>)>,
)
    requires
        call_ensures(
            step::<H, C, D, E, F>,
            (WorkerState::<H, E>::ReadingCurrent, event),
            stepped,
        ),
    ensures
        match event {
            Event::CurrentRead(read) => went(stepped, WorkerState::Idle, 1) && sent_by(stepped)[0]
                == GitResponse::<H, C, D, E, F>::CurrentBranch(read),
            _ => stepped is None,
        },
{
    seen_one_by_one(stepped);
}

/// Whether branches conflict is passed on as it was found, with the branches that
/// were asked about.
pub proof fn a_conflict_check_is_passed_on<H, C, D, E, F>(
    branch: String,
    onto: String,
    base: Option<String>,
    event: Event<H, C, D, E, F>,
    stepped: Option<(WorkerState<H, E>, Vec<GitResponse<H, C, D, E, F>>)>,
)
    requires
        call_ensures(
            step::<H, C, D, E, F>,
            (WorkerState::<H, E>::CheckingConflict { branch, onto, base }, event),
            stepped,
        ),
    ensures
        match event {
            Event::ConflictChecked(checked) => went(stepped, WorkerState::Idle, 1) && sent_by(
                stepped,
            )[0] == GitResponse::<H, C, D, E, F>::ConflictCheck(branch, onto, base, checked),
            _ => stepped is None,
        },
{
    seen_one_by_one(stepped);
}

/// The commits of a branch are passed on as they were read, with its name.
pub proof fn a_log_is_passed_on<H, C, D, E, F>(
    branch: String,
    event: Event<H, C, D, E, F>,
    stepped: Option<(WorkerState<H, E>, Vec<GitResponse<H, C, D, E, F>>)>,
)
    requires
        call_ensures(
            step::<H, C, D, E, F>,
            (WorkerState::<H, E>::ReadingLog { branch }, event),
            stepped,
        ),
    ensures
        match event {
            Event::LogRead(read) => went(stepped, WorkerState::Idle, 1) && sent_by(stepped)[0]
                == GitResponse::<H, C, D, E, F>::CommitLog(branch, read),
            _ => stepped is None,
        },
{
    seen_one_by_one(stepped);
}

/// A diff is passed on as it was parsed, with the name of its branch and a word
/// on the parsing before it; where there was nothing to parse, the error comes
/// alone.
pub proof fn a_diff_is_passed_on<H, C, D, E, F>(
    branch: String,
    parent: String,
    event: Event<H, C, D, E, F>,
    stepped: Option<(WorkerState<H, E>, Vec<GitResponse<H, C, D, E, F>>)>,
)
    requires
        call_ensures(
            step::<H, C, D, E, F>,
            (WorkerState::<H, E>::ReadingDiff { branch, parent }, event),
            stepped,
        ),
    ensures
        match event {
            Event::DiffRead(DiffReading::Unresolved(e)) => went(stepped, WorkerState::Idle, 1)
                && sent_by(stepped)[0] == GitResponse::<H, C, D, E, F>::DiffLoaded(branch, Err(e)),
            Event::DiffRead(DiffReading::Parsed(parsed)) => went(stepped, WorkerState::Idle, 2)
                && tells(sent_by(stepped)[0], "Parsing diff for "@ + branch@ + "..."@, 50)
                && sent_by(stepped)[1] == GitResponse::<H, C, D, E, F>::DiffLoaded(branch, parsed),
            _ => stepped is None,
        },
{
    seen_one_by_one(stepped);
}

/// Each prediction is passed on as it is made, and the plan with all of them when
/// they are.
pub proof fn predictions_are_passed_on<H, C, D, E, F>(
    plan: Vec<Operation>,
    branches: Vec<BranchInfo>,
    event: Event<H, C, D, E, F>,
    stepped: Option<(WorkerState<H, E>, Vec<GitResponse<H, C, D, E, F>>)>,
)
    requires
        call_ensures(
            step::<H, C, D, E, F>,
            (WorkerState::<H, E>::Predicting { plan, branches }, event),
            stepped,
        ),
    ensures
        match event {
            Event::PredictionMade { index, result } => went(
                stepped,
                WorkerState::Predicting { plan, branches },
                1,
            ) && sent_by(stepped)[0] == (GitResponse::<H, C, D, E, F>::PredictionProgress {
                index,
                result,
            }),
            Event::Predicted(predicted) => went(stepped, WorkerState::Idle, 1) && sent_by(
                stepped,
            )[0] == GitResponse::<H, C, D, E, F>::ConflictsPredicted(predicted),
            _ => stepped is None,
        },
{
    seen_one_by_one(stepped);
}

/// A worker that has stopped takes no step.
pub proof fn a_stopped_worker_stays_stopped<H, C, D, E, F>(
    event: Event<H, C, D, E, F>,
    stepped: Option<(WorkerState<H, E>, Vec<GitResponse<H, C, D, E, F>>)>,
)
    requires
        call_ensures(step::<H, C, D, E, F>, (WorkerState::<H, E>::Stopped, event), stepped),
    ensures
        stepped is None,
{
}

} // verus!
