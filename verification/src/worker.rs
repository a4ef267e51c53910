//! The worker that reads the repository for the screen: which answers each
//! command gets, in which order, and what the worker has to read for them.

use crate::engine::{BranchInfo, Operation};
use vstd::prelude::*;

verus! {

/// What the screen asks of the worker.
#[derive(Debug, Clone)]
pub enum GitCommand {
    GetBranches,
    GetCurrentBranch,
    CheckConflict { branch: String, onto: String, base: Option<String> },
    GetCommitLog { branch: String },
    FetchDiff { branch: String, parent: String },
    PredictConflicts { plan: Vec<Operation>, branches: Vec<BranchInfo> },
}

/// How far something has come.
#[derive(Debug, Clone, Copy)]
pub enum Share<F> {
    /// As the engine reports it.
    Reported(F),
    /// In hundredths of the whole.
    Percent(u8),
}

/// What the worker sends to the screen. `H` is the history of a repository, `C`
/// a commit, `D` the diff of a file, `E` an error and `F` the measure in which the
/// engine reports its progress.
#[derive(Debug)]
pub enum GitResponse<H, C, D, E, F> {
    Branches(Result<(Vec<BranchInfo>, H, bool), E>),
    CurrentBranch(Result<String, E>),
    Progress { message: String, share: Share<F> },
    ConflictCheck(String, String, Option<String>, Result<bool, E>),
    CommitLog(String, Result<Vec<C>, E>),
    DiffLoaded(String, Result<Vec<D>, E>),
    ConflictsPredicted(Vec<Operation>),
    PredictionProgress { index: usize, result: Option<bool> },
}

/// What a [`GitResponse`] says.
pub enum GitResponseView<H, C, D, E, F> {
    Branches(Result<(Vec<BranchInfo>, H, bool), E>),
    CurrentBranch(Result<String, E>),
    Progress { message: Seq<char>, share: Share<F> },
    ConflictCheck(String, String, Option<String>, Result<bool, E>),
    CommitLog(String, Result<Vec<C>, E>),
    DiffLoaded(String, Result<Vec<D>, E>),
    ConflictsPredicted(Vec<Operation>),
    PredictionProgress { index: usize, result: Option<bool> },
}

impl<H, C, D, E, F> View for GitResponse<H, C, D, E, F> {
    type V = GitResponseView<H, C, D, E, F>;

    open spec fn view(&self) -> GitResponseView<H, C, D, E, F> {
        match *self {
            GitResponse::Branches(read) => GitResponseView::Branches(read),
            GitResponse::CurrentBranch(read) => GitResponseView::CurrentBranch(read),
            GitResponse::Progress { message, share } => GitResponseView::Progress {
                message: message@,
                share,
            },
            GitResponse::ConflictCheck(branch, onto, base, checked) => {
                GitResponseView::ConflictCheck(branch, onto, base, checked)
            },
            GitResponse::CommitLog(branch, read) => GitResponseView::CommitLog(branch, read),
            GitResponse::DiffLoaded(branch, read) => GitResponseView::DiffLoaded(branch, read),
            GitResponse::ConflictsPredicted(plan) => GitResponseView::ConflictsPredicted(plan),
            GitResponse::PredictionProgress { index, result } => {
                GitResponseView::PredictionProgress { index, result }
            },
        }
    }
}

impl<H, C, D, E, F> DeepView for GitResponse<H, C, D, E, F> {
    type V = GitResponseView<H, C, D, E, F>;

    open spec fn deep_view(&self) -> GitResponseView<H, C, D, E, F> {
        self@
    }
}

/// What the worker is at, which is also what it has to do next.
#[derive(Debug)]
pub enum WorkerState<H, E> {
    /// Wait for a command.
    Idle,
    /// Read the branches.
    ReadingBranches,
    /// Find out whether the working tree is dirty. The branches were read.
    ReadingDirty { read: Result<(Vec<BranchInfo>, H), E> },
    /// Read the name of the current branch.
    ReadingCurrent,
    /// Try whether `branch` can be put on `onto` without a conflict.
    CheckingConflict { branch: String, onto: String, base: Option<String> },
    /// Read the commits of `branch`.
    ReadingLog { branch: String },
    /// Read what `branch` changes with respect to `parent`.
    ReadingDiff { branch: String, parent: String },
    /// Predict the conflicts of `plan`.
    Predicting { plan: Vec<Operation>, branches: Vec<BranchInfo> },
    /// Nothing: no command will come.
    Stopped,
}

/// How the reading of a diff ended.
#[derive(Debug)]
pub enum DiffReading<D, E> {
    /// One of the branches, or their difference, could not be had.
    Unresolved(E),
    /// The difference was had, and parsed with this result.
    Parsed(Result<Vec<D>, E>),
}

/// What happens to the worker.
#[derive(Debug)]
pub enum Event<H, C, D, E, F> {
    Command(GitCommand),
    /// The screen is gone.
    Closed,
    /// So far the reading of the branches has come.
    BranchesProgress { message: String, share: F },
    BranchesRead(Result<(Vec<BranchInfo>, H), E>),
    DirtyRead(Result<bool, E>),
    CurrentRead(Result<String, E>),
    ConflictChecked(Result<bool, E>),
    LogRead(Result<Vec<C>, E>),
    DiffRead(DiffReading<D, E>),
    /// One operation of the plan has its prediction.
    PredictionMade { index: usize, result: Option<bool> },
    /// All have.
    Predicted(Vec<Operation>),
}

/// The branches together with whether the tree is dirty, or the first error of
/// the two readings.
pub open spec fn branches_and_dirty<H, E>(
    branches: Result<(Vec<BranchInfo>, H), E>,
    dirty: Result<bool, E>,
) -> Result<(Vec<BranchInfo>, H, bool), E> {
    match (branches, dirty) {
        (Err(e), _) => Err(e),
        (_, Err(e)) => Err(e),
        (Ok((branches, history)), Ok(dirty)) => Ok((branches, history, dirty)),
    }
}

/// The state that a command leads an idle worker to.
pub open spec fn taken_up<H, E>(command: GitCommand) -> WorkerState<H, E> {
    match command {
        GitCommand::GetBranches => WorkerState::ReadingBranches,
        GitCommand::GetCurrentBranch => WorkerState::ReadingCurrent,
        GitCommand::CheckConflict { branch, onto, base } => WorkerState::CheckingConflict {
            branch,
            onto,
            base,
        },
        GitCommand::GetCommitLog { branch } => WorkerState::ReadingLog { branch },
        GitCommand::FetchDiff { branch, parent } => WorkerState::ReadingDiff { branch, parent },
        GitCommand::PredictConflicts { plan, branches } => WorkerState::Predicting {
            plan,
            branches,
        },
    }
}

/// A step of the worker: the state that an event leads to and what is sent
/// meanwhile, in order. `None` where the event cannot happen in this state.
pub open spec fn stepped<H, C, D, E, F>(
    state: WorkerState<H, E>,
    event: Event<H, C, D, E, F>,
) -> Option<(WorkerState<H, E>, Seq<GitResponseView<H, C, D, E, F>>)> {
    match (state, event) {
        (WorkerState::Idle, Event::Closed) => Some((WorkerState::Stopped, Seq::empty())),
        (WorkerState::Idle, Event::Command(command)) => Some(
            (
                taken_up(command),
                match command {
                    GitCommand::FetchDiff { branch, parent } => seq![
                        GitResponseView::Progress {
                            message: "Calculating diff for "@ + branch@ + "..."@,
                            share: Share::Percent(10),
                        },
                    ],
                    _ => Seq::empty(),
                },
            ),
        ),
        (WorkerState::ReadingBranches, Event::BranchesProgress { message, share }) => Some(
            (
                WorkerState::ReadingBranches,
                seq![
                    GitResponseView::Progress { message: message@, share: Share::Reported(share) },
                ],
            ),
        ),
        (WorkerState::ReadingBranches, Event::BranchesRead(read)) => Some(
            (
                WorkerState::ReadingDirty { read },
                seq![
                    GitResponseView::Progress {
                        message: "Checking for dirty worktree..."@,
                        share: Share::Percent(95),
                    },
                ],
            ),
        ),
        (WorkerState::ReadingDirty { read }, Event::DirtyRead(dirty)) => Some(
            (
                WorkerState::Idle,
                seq![GitResponseView::Branches(branches_and_dirty(read, dirty))],
            ),
        ),
        (WorkerState::ReadingCurrent, Event::CurrentRead(read)) => Some(
            (WorkerState::Idle, seq![GitResponseView::CurrentBranch(read)]),
        ),
        (
            WorkerState::CheckingConflict { branch, onto, base },
            Event::ConflictChecked(checked),
        ) => Some(
            (
                WorkerState::Idle,
                seq![GitResponseView::ConflictCheck(branch, onto, base, checked)],
            ),
        ),
        (WorkerState::ReadingLog { branch }, Event::LogRead(read)) => Some(
            (WorkerState::Idle, seq![GitResponseView::CommitLog(branch, read)]),
        ),
        (WorkerState::ReadingDiff { branch, parent }, Event::DiffRead(read)) => Some(
            (
                WorkerState::Idle,
                match read {
                    DiffReading::Unresolved(e) => seq![GitResponseView::DiffLoaded(branch, Err(e))],
                    DiffReading::Parsed(parsed) => seq![
                        GitResponseView::Progress {
                            message: "Parsing diff for "@ + branch@ + "..."@,
                            share: Share::Percent(50),
                        },
                        GitResponseView::DiffLoaded(branch, parsed),
                    ],
                },
            ),
        ),
        (WorkerState::Predicting { plan, branches }, Event::PredictionMade { index, result }) => {
            Some(
                (
                    WorkerState::Predicting { plan, branches },
                    seq![GitResponseView::PredictionProgress { index, result }],
                ),
            )
        },
        (WorkerState::Predicting { plan, branches }, Event::Predicted(predicted)) => Some(
            (WorkerState::Idle, seq![GitResponseView::ConflictsPredicted(predicted)]),
        ),
        _ => None,
    }
}

fn combine<H, E>(branches: Result<(Vec<BranchInfo>, H), E>, dirty: Result<bool, E>) -> (both: Result<
    (Vec<BranchInfo>, H, bool),
    E,
>)
    ensures
        both == branches_and_dirty(branches, dirty),
{
    match (branches, dirty) {
        (Err(e), _) => Err(e),
        (_, Err(e)) => Err(e),
        (Ok((branches, history)), Ok(dirty)) => Ok((branches, history, dirty)),
    }
}

fn diff_progress<H, C, D, E, F>(doing: &str, branch: &String, percent: u8) -> (progress: GitResponse<
    H,
    C,
    D,
    E,
    F,
>)
    ensures
        progress@ == (GitResponseView::<H, C, D, E, F>::Progress {
            message: doing@ + branch@ + "..."@,
            share: Share::Percent(percent),
        }),
{
    let mut message = doing.to_owned();
    message.append(branch.as_str());
    message.append("...");
    GitResponse::Progress { message, share: Share::Percent(percent) }
}

/// Takes the worker one step on: gives its next state and what to send to the
/// screen. `None` says that the event cannot happen in this state.
pub fn step<H, C, D, E, F>(state: WorkerState<H, E>, event: Event<H, C, D, E, F>) -> (next: Option<
    (WorkerState<H, E>, Vec<GitResponse<H, C, D, E, F>>),
>)
    ensures
        match next {
            None => stepped(state, event) is None,
            Some((next, sent)) => stepped(state, event) == Some((next, sent.deep_view())),
        },
{
    let ghost wanted = match stepped(state, event) {
        Some((_, responses)) => responses,
        None => Seq::empty(),
    };
    let mut sent: Vec<GitResponse<H, C, D, E, F>> = Vec::new();
    let next = match (state, event) {
        (WorkerState::Idle, Event::Closed) => WorkerState::Stopped,
        (WorkerState::Idle, Event::Command(command)) => match command {
            GitCommand::GetBranches => WorkerState::ReadingBranches,
            GitCommand::GetCurrentBranch => WorkerState::ReadingCurrent,
            GitCommand::CheckConflict { branch, onto, base } => WorkerState::CheckingConflict {
                branch,
                onto,
                base,
            },
            GitCommand::GetCommitLog { branch } => WorkerState::ReadingLog { branch },
            GitCommand::FetchDiff { branch, parent } => {
                sent.push(diff_progress("Calculating diff for ", &branch, 10));
                WorkerState::ReadingDiff { branch, parent }
            },
            GitCommand::PredictConflicts { plan, branches } => WorkerState::Predicting {
                plan,
                branches,
            },
        },
        (WorkerState::ReadingBranches, Event::BranchesProgress { message, share }) => {
            sent.push(GitResponse::Progress { message, share: Share::Reported(share) });
            WorkerState::ReadingBranches
        },
        (WorkerState::ReadingBranches, Event::BranchesRead(read)) => {
            sent.push(
                GitResponse::Progress {
                    message: "Checking for dirty worktree...".to_owned(),
                    share: Share::Percent(95),
                },
            );
            WorkerState::ReadingDirty { read }
        },
        (WorkerState::ReadingDirty { read }, Event::DirtyRead(dirty)) => {
            sent.push(GitResponse::Branches(combine(read, dirty)));
            WorkerState::Idle
        },
        (WorkerState::ReadingCurrent, Event::CurrentRead(read)) => {
            sent.push(GitResponse::CurrentBranch(read));
            WorkerState::Idle
        },
        (
            WorkerState::CheckingConflict { branch, onto, base },
            Event::ConflictChecked(checked),
        ) => {
            sent.push(GitResponse::ConflictCheck(branch, onto, base, checked));
            WorkerState::Idle
        },
        (WorkerState::ReadingLog { branch }, Event::LogRead(read)) => {
            sent.push(GitResponse::CommitLog(branch, read));
            WorkerState::Idle
        },
        (WorkerState::ReadingDiff { branch, .. }, Event::DiffRead(read)) => {
            match read {
                DiffReading::Unresolved(e) => {
                    sent.push(GitResponse::DiffLoaded(branch, Err(e)));
                },
                DiffReading::Parsed(parsed) => {
                    sent.push(diff_progress("Parsing diff for ", &branch, 50));
                    sent.push(GitResponse::DiffLoaded(branch, parsed));
                },
            }
            WorkerState::Idle
        },
        (WorkerState::Predicting { plan, branches }, Event::PredictionMade { index, result }) => {
            sent.push(GitResponse::PredictionProgress { index, result });
            WorkerState::Predicting { plan, branches }
        },
        (WorkerState::Predicting { .. }, Event::Predicted(predicted)) => {
            sent.push(GitResponse::ConflictsPredicted(predicted));
            WorkerState::Idle
        },
        _ => {
            return None;
        },
    };
    assert(sent.deep_view() =~= wanted);
    Some((next, sent))
}

/// What a command is to be answered with, and for which branches.
pub enum Answer {
    Branches,
    CurrentBranch,
    ConflictCheck(String, String, Option<String>),
    CommitLog(String),
    DiffLoaded(String),
    ConflictsPredicted,
}

/// The answer that a command calls for.
pub open spec fn called_for(command: GitCommand) -> Answer {
    match command {
        GitCommand::GetBranches => Answer::Branches,
        GitCommand::GetCurrentBranch => Answer::CurrentBranch,
        GitCommand::CheckConflict { branch, onto, base } => Answer::ConflictCheck(
            branch,
            onto,
            base,
        ),
        GitCommand::GetCommitLog { branch } => Answer::CommitLog(branch),
        GitCommand::FetchDiff { branch, parent } => Answer::DiffLoaded(branch),
        GitCommand::PredictConflicts { plan, branches } => Answer::ConflictsPredicted,
    }
}

/// The answers that an event calls for: one where it is a command.
pub open spec fn called_for_by<H, C, D, E, F>(event: Event<H, C, D, E, F>) -> Seq<Answer> {
    match event {
        Event::Command(command) => seq![called_for(command)],
        _ => Seq::empty(),
    }
}

/// The answers that the worker owes: one where it is at work.
pub open spec fn owed<H, E>(state: WorkerState<H, E>) -> Seq<Answer> {
    match state {
        WorkerState::Idle => Seq::empty(),
        WorkerState::ReadingBranches => seq![Answer::Branches],
        WorkerState::ReadingDirty { read } => seq![Answer::Branches],
        WorkerState::ReadingCurrent => seq![Answer::CurrentBranch],
        WorkerState::CheckingConflict { branch, onto, base } => seq![
            Answer::ConflictCheck(branch, onto, base),
        ],
        WorkerState::ReadingLog { branch } => seq![Answer::CommitLog(branch)],
        WorkerState::ReadingDiff { branch, parent } => seq![Answer::DiffLoaded(branch)],
        WorkerState::Predicting { plan, branches } => seq![Answer::ConflictsPredicted],
        WorkerState::Stopped => Seq::empty(),
    }
}

/// The answer that a response gives, where it is more than a sign of progress.
pub open spec fn given_by<H, C, D, E, F>(response: GitResponseView<H, C, D, E, F>) -> Option<Answer> {
    match response {
        GitResponseView::Branches(read) => Some(Answer::Branches),
        GitResponseView::CurrentBranch(read) => Some(Answer::CurrentBranch),
        GitResponseView::Progress { .. } => None,
        GitResponseView::ConflictCheck(branch, onto, base, checked) => Some(
            Answer::ConflictCheck(branch, onto, base),
        ),
        GitResponseView::CommitLog(branch, read) => Some(Answer::CommitLog(branch)),
        GitResponseView::DiffLoaded(branch, read) => Some(Answer::DiffLoaded(branch)),
        GitResponseView::ConflictsPredicted(plan) => Some(Answer::ConflictsPredicted),
        GitResponseView::PredictionProgress { .. } => None,
    }
}

/// The answers among some responses, in their order.
pub open spec fn answers<H, C, D, E, F>(sent: Seq<GitResponseView<H, C, D, E, F>>) -> Seq<Answer>
    decreases sent.len(),
{
    if sent.len() == 0 {
        Seq::empty()
    } else {
        let before = answers(sent.drop_last());
        match given_by(sent.last()) {
            Some(answer) => before.push(answer),
            None => before,
        }
    }
}

/// The answers that some events call for, in their order.
pub open spec fn commanded<H, C, D, E, F>(events: Seq<Event<H, C, D, E, F>>) -> Seq<Answer>
    decreases events.len(),
{
    if events.len() == 0 {
        Seq::empty()
    } else {
        commanded(events.drop_last()) + called_for_by(events.last())
    }
}

/// What a worker comes to through some events, and all that it sends.
pub open spec fn worked<H, C, D, E, F>(
    state: WorkerState<H, E>,
    events: Seq<Event<H, C, D, E, F>>,
) -> Option<(WorkerState<H, E>, Seq<GitResponseView<H, C, D, E, F>>)>
    decreases events.len(),
{
    if events.len() == 0 {
        Some((state, Seq::empty()))
    } else {
        match worked(state, events.drop_last()) {
            None => None,
            Some((before, sent)) => match stepped(before, events.last()) {
                None => None,
                Some((after, more)) => Some((after, sent + more)),
            },
        }
    }
}

proof fn answers_go_on<H, C, D, E, F>(
    sent: Seq<GitResponseView<H, C, D, E, F>>,
    more: Seq<GitResponseView<H, C, D, E, F>>,
)
    ensures
        answers(sent + more) == answers(sent) + answers(more),
    decreases more.len(),
{
    if more.len() == 0 {
        assert(sent + more =~= sent);
    } else {
        answers_go_on(sent, more.drop_last());
        assert((sent + more).drop_last() =~= sent + more.drop_last());
        assert((sent + more).last() == more.last());
    }
}

/// In one step the worker gives the answer that it owes, or still owes it, or
/// takes a command up that it will owe the answer to.
pub proof fn answers_are_owed<H, C, D, E, F>(state: WorkerState<H, E>, event: Event<H, C, D, E, F>)
    requires
        stepped(state, event) is Some,
    ensures
        ({
            let (next, sent) = stepped(state, event)->0;
            answers(sent) + owed(next) == owed(state) + called_for_by(event)
        }),
{
    reveal_with_fuel(answers, 3);
    let (next, sent) = stepped(state, event)->0;
    assert(answers(sent) + owed(next) =~= owed(state) + called_for_by(event)) by {
        if sent.len() == 1 {
            assert(sent.drop_last() =~= Seq::empty());
        } else if sent.len() == 2 {
            assert(sent.drop_last().drop_last() =~= Seq::empty());
        }
    }
}

/// Every command gets one answer of its kind, for the branches that it names,
/// and the answers come in the order of the commands. Only the command that the
/// worker is at may be without its answer yet.
pub proof fn each_command_is_answered_once<H, C, D, E, F>(events: Seq<Event<H, C, D, E, F>>)
    requires
        worked(WorkerState::<H, E>::Idle, events) is Some,
    ensures
        ({
            let (state, sent) = worked(WorkerState::<H, E>::Idle, events)->0;
            &&& answers(sent) + owed(state) == commanded(events)
            &&& owed(state).len() <= 1
        }),
    decreases events.len(),
{
    let (state, sent) = worked(WorkerState::<H, E>::Idle, events)->0;
    if events.len() > 0 {
        let before = events.drop_last();
        each_command_is_answered_once(before);
        let (was, sent_before) = worked(WorkerState::<H, E>::Idle, before)->0;
        let (now, more) = stepped(was, events.last())->0;
        answers_are_owed(was, events.last());
        answers_go_on(sent_before, more);
        assert(answers(sent_before) + answers(more) + owed(now) =~= answers(sent_before) + (
        answers(more) + owed(now)));
        assert(answers(sent_before) + (owed(was) + called_for_by(events.last())) =~= answers(
            sent_before,
        ) + owed(was) + called_for_by(events.last()));
    }
    assert(answers(sent) + owed(state) =~= commanded(events));
}

} // verus!
