//! Plans: what is to be done to bring a branch where it should be, and why a
//! plan may be refused.

use crate::engine::{
    find_branch, first_place_is_first, has_branch, lookup, snapshot_of, BranchInfo, BranchView,
    Intent, IntentView, Operation, OperationView, RepositoryReading, RepositorySnapshot,
};
use vstd::prelude::*;

verus! {

/// What a plan is for.
#[derive(Debug, Clone, Copy, PartialEq, Eq, Structural)]
pub enum PlanIntent {
    Submit,
    Sync,
    Converge,
}

/// The operations that serve an intent, in the order in which they are due.
#[derive(Debug, Clone)]
pub struct Plan {
    pub intent: PlanIntent,
    pub branch: String,
    pub ops: Vec<Operation>,
    /// Branches that a cascade found no parent for. Empty in other plans.
    pub skipped_branches: Vec<String>,
}

/// What a [`Plan`] says.
pub struct PlanView {
    pub intent: PlanIntent,
    pub branch: Seq<char>,
    pub ops: Seq<OperationView>,
    pub skipped_branches: Seq<Seq<char>>,
}

impl View for Plan {
    type V = PlanView;

    open spec fn view(&self) -> PlanView {
        PlanView {
            intent: self.intent,
            branch: self.branch@,
            ops: self.ops.deep_view(),
            skipped_branches: self.skipped_branches.deep_view(),
        }
    }
}

/// Why no plan can be made for a branch.
#[derive(Debug, Clone)]
pub enum Refusal {
    BranchNotFound { branch: String },
    NotReadyToSubmit { branch: String },
    NoHeuristicParent { branch: String },
}

/// What a [`Refusal`] says.
pub enum RefusalView {
    BranchNotFound { branch: Seq<char> },
    NotReadyToSubmit { branch: Seq<char> },
    NoHeuristicParent { branch: Seq<char> },
}

impl View for Refusal {
    type V = RefusalView;

    open spec fn view(&self) -> RefusalView {
        match *self {
            Refusal::BranchNotFound { branch } => RefusalView::BranchNotFound { branch: branch@ },
            Refusal::NotReadyToSubmit { branch } => RefusalView::NotReadyToSubmit {
                branch: branch@,
            },
            Refusal::NoHeuristicParent { branch } => RefusalView::NoHeuristicParent {
                branch: branch@,
            },
        }
    }
}

/// The words in which a refusal is told.
pub open spec fn refusal_message(refusal: RefusalView) -> Seq<char> {
    match refusal {
        RefusalView::BranchNotFound { branch } => "Branch not found: "@ + branch,
        RefusalView::NotReadyToSubmit { branch } => "Branch is not ready to submit: "@ + branch,
        RefusalView::NoHeuristicParent { branch } => "No heuristic parent detected for branch: "@
            + branch,
    }
}

impl Refusal {
    /// The words in which the refusal is told.
    pub fn message(&self) -> (message: String)
        ensures
            message@ == refusal_message(self@),
    {
        match self {
            Refusal::BranchNotFound { branch } => {
                "Branch not found: ".to_owned().concat(branch.as_str())
            },
            Refusal::NotReadyToSubmit { branch } => {
                "Branch is not ready to submit: ".to_owned().concat(branch.as_str())
            },
            Refusal::NoHeuristicParent { branch } => {
                "No heuristic parent detected for branch: ".to_owned().concat(branch.as_str())
            },
        }
    }
}

/// Why there is no plan.
#[derive(Debug, Clone)]
pub enum PlanError<E> {
    /// The branch does not allow it.
    Refused(Refusal),
    /// The engine failed.
    Engine(E),
}

/// What is asked of the engine to submit a branch, or why it is not asked.
pub open spec fn submit_request(branches: Seq<BranchView>, branch: Seq<char>) -> Result<
    Seq<IntentView>,
    RefusalView,
> {
    match lookup(branches, branch) {
        None => Err(RefusalView::BranchNotFound { branch }),
        Some(info) => if info.submittable {
            Ok(seq![IntentView::Submit { branch }])
        } else {
            Err(RefusalView::NotReadyToSubmit { branch })
        },
    }
}

/// What is asked of the engine to sync a branch, or why it is not asked.
pub open spec fn sync_request(branches: Seq<BranchView>, branch: Seq<char>) -> Result<
    Seq<IntentView>,
    RefusalView,
> {
    if has_branch(branches, branch) {
        Ok(seq![IntentView::Reset { branch }])
    } else {
        Err(RefusalView::BranchNotFound { branch })
    }
}

/// What is asked of the engine to converge a branch, or why it is not asked.
pub open spec fn converge_request(branches: Seq<BranchView>, branch: Seq<char>) -> Result<
    Seq<IntentView>,
    RefusalView,
> {
    match lookup(branches, branch) {
        None => Err(RefusalView::BranchNotFound { branch }),
        Some(info) => match info.heuristic_parent {
            None => Err(RefusalView::NoHeuristicParent { branch }),
            Some(parent) => Ok(seq![IntentView::Move { branch, parent }]),
        },
    }
}

/// Whether a request, or its refusal, says what `wanted` says.
pub open spec fn requested(
    got: Result<Vec<Intent>, Refusal>,
    wanted: Result<Seq<IntentView>, RefusalView>,
) -> bool {
    match (got, wanted) {
        (Ok(intents), Ok(views)) => intents.deep_view() == views,
        (Err(refusal), Err(view)) => refusal@ == view,
        _ => false,
    }
}

/// What to ask of the engine to submit a branch.
pub fn request_submit(branches: &Vec<BranchInfo>, branch_name: &str) -> (request: Result<
    Vec<Intent>,
    Refusal,
>)
    ensures
        requested(request, submit_request(branches.deep_view(), branch_name@)),
{
    let branch = branch_name.to_owned();
    match find_branch(branches, &branch) {
        None => Err(Refusal::BranchNotFound { branch }),
        Some(place) => {
            assert(branches.deep_view()[place as int] == branches[place as int]@);
            if branches[place].can_submit() {
                let intents: Vec<Intent> = vec![Intent::Submit { branch }];
                assert(intents.deep_view() =~= seq![IntentView::Submit { branch: branch_name@ }]);
                Ok(intents)
            } else {
                Err(Refusal::NotReadyToSubmit { branch })
            }
        },
    }
}

/// What to ask of the engine to sync a branch.
pub fn request_sync(branches: &Vec<BranchInfo>, branch_name: &str) -> (request: Result<
    Vec<Intent>,
    Refusal,
>)
    ensures
        requested(request, sync_request(branches.deep_view(), branch_name@)),
{
    let branch = branch_name.to_owned();
    proof {
        first_place_is_first(branches.deep_view(), branch_name@);
    }
    match find_branch(branches, &branch) {
        None => Err(Refusal::BranchNotFound { branch }),
        Some(_) => {
            let intents: Vec<Intent> = vec![Intent::Reset { branch }];
            assert(intents.deep_view() =~= seq![IntentView::Reset { branch: branch_name@ }]);
            Ok(intents)
        },
    }
}

/// What to ask of the engine to converge a branch.
pub fn request_converge(branches: &Vec<BranchInfo>, branch_name: &str) -> (request: Result<
    Vec<Intent>,
    Refusal,
>)
    ensures
        requested(request, converge_request(branches.deep_view(), branch_name@)),
{
    let branch = branch_name.to_owned();
    match find_branch(branches, &branch) {
        None => Err(Refusal::BranchNotFound { branch }),
        Some(place) => {
            assert(branches.deep_view()[place as int] == branches[place as int]@);
            match &branches[place].heuristic_parent {
                None => Err(Refusal::NoHeuristicParent { branch }),
                Some(parent) => {
                    let ghost wanted = parent@;
                    let intents: Vec<Intent> = vec![
                        Intent::Move { branch, parent: parent.clone() },
                    ];
                    assert(intents.deep_view() =~= seq![
                        IntentView::Move { branch: branch_name@, parent: wanted },
                    ]);
                    Ok(intents)
                },
            }
        },
    }
}

/// Whether `planned` is what comes of handing `snapshot` and `intents` to the
/// engine: its operations, with the conflicts that it predicts, or its error.
pub open spec fn engine_planned<H, E, C, P>(
    intent: PlanIntent,
    branch: Seq<char>,
    snapshot: RepositorySnapshot<H>,
    intents: Vec<Intent>,
    skipped: Seq<Seq<char>>,
    calculate: C,
    predict: P,
    planned: Result<Plan, PlanError<E>>,
) -> bool where
    C: FnOnce(&RepositorySnapshot<H>, &Vec<Intent>) -> Result<Vec<Operation>, E>,
    P: FnOnce(Vec<Operation>, &Vec<BranchInfo>) -> Vec<Operation>,
 {
    match planned {
        Err(PlanError::Refused(_)) => false,
        Err(PlanError::Engine(e)) => call_ensures(
            calculate,
            (&snapshot, &intents),
            Err::<Vec<Operation>, E>(e),
        ),
        Ok(plan) => {
            &&& exists|ops: Vec<Operation>| #[trigger]
                call_ensures(calculate, (&snapshot, &intents), Ok::<Vec<Operation>, E>(ops))
                    && call_ensures(predict, (ops, &snapshot.branches), plan.ops)
            &&& plan.intent == intent
            &&& plan.branch@ == branch
            &&& plan.skipped_branches.deep_view() == skipped
        },
    }
}

/// Whether a planner takes every request.
pub open spec fn accepts_requests<H, E, C>(calculate: C) -> bool where
    C: FnOnce(&RepositorySnapshot<H>, &Vec<Intent>) -> Result<Vec<Operation>, E>,
 {
    forall|snapshot: RepositorySnapshot<H>, intents: Vec<Intent>| #[trigger]
        call_requires(calculate, (&snapshot, &intents))
}

/// Whether a predictor takes every list of operations.
pub open spec fn accepts_operations<P>(predict: P) -> bool where
    P: FnOnce(Vec<Operation>, &Vec<BranchInfo>) -> Vec<Operation>,
 {
    forall|ops: Vec<Operation>, branches: Vec<BranchInfo>| #[trigger]
        call_requires(predict, (ops, &branches))
}

/// Whether `planned` is the plan for a request on `snapshot`: the refusal where
/// the request was refused, else what the engine makes of it.
pub open spec fn plan_built<H, E, C, P>(
    intent: PlanIntent,
    branch: Seq<char>,
    snapshot: RepositorySnapshot<H>,
    request: Result<Seq<IntentView>, RefusalView>,
    calculate: C,
    predict: P,
    planned: Result<Plan, PlanError<E>>,
) -> bool where
    C: FnOnce(&RepositorySnapshot<H>, &Vec<Intent>) -> Result<Vec<Operation>, E>,
    P: FnOnce(Vec<Operation>, &Vec<BranchInfo>) -> Vec<Operation>,
 {
    match request {
        Err(view) => planned matches Err(PlanError::Refused(refusal)) && refusal@ == view,
        Ok(views) => exists|intents: Vec<Intent>|
            intents.deep_view() == views && #[trigger] engine_planned(
                intent,
                branch,
                snapshot,
                intents,
                Seq::empty(),
                calculate,
                predict,
                planned,
            ),
    }
}

pub(crate) fn run_engine<H, E, C, P>(
    intent: PlanIntent,
    branch: &str,
    snapshot: RepositorySnapshot<H>,
    intents: Vec<Intent>,
    skipped_branches: Vec<String>,
    calculate: C,
    predict: P,
) -> (planned: Result<Plan, PlanError<E>>) where
    C: FnOnce(&RepositorySnapshot<H>, &Vec<Intent>) -> Result<Vec<Operation>, E>,
    P: FnOnce(Vec<Operation>, &Vec<BranchInfo>) -> Vec<Operation>,

    requires
        accepts_requests(calculate),
        accepts_operations(predict),
    ensures
        engine_planned(
            intent,
            branch@,
            snapshot,
            intents,
            skipped_branches.deep_view(),
            calculate,
            predict,
            planned,
        ),
{
    match calculate(&snapshot, &intents) {
        Err(e) => Err(PlanError::Engine(e)),
        Ok(ops) => {
            let predicted = predict(ops, &snapshot.branches);
            Ok(Plan { intent, branch: branch.to_owned(), ops: predicted, skipped_branches })
        },
    }
}

/// The plan to submit a branch: it must exist and be ready.
pub fn build_submit_plan<H, E, C, P>(
    reading: RepositoryReading<H>,
    branch_name: &str,
    calculate: C,
    predict: P,
) -> (planned: Result<Plan, PlanError<E>>) where
    C: FnOnce(&RepositorySnapshot<H>, &Vec<Intent>) -> Result<Vec<Operation>, E>,
    P: FnOnce(Vec<Operation>, &Vec<BranchInfo>) -> Vec<Operation>,

    requires
        accepts_requests(calculate),
        accepts_operations(predict),
    ensures
        plan_built(
            PlanIntent::Submit,
            branch_name@,
            snapshot_of(reading),
            submit_request(reading.branches.deep_view(), branch_name@),
            calculate,
            predict,
            planned,
        ),
{
    match request_submit(&reading.branches, branch_name) {
        Err(refusal) => Err(PlanError::Refused(refusal)),
        Ok(intents) => {
            let none: Vec<String> = Vec::new();
            assert(none.deep_view() =~= Seq::<Seq<char>>::empty());
            run_engine(
                PlanIntent::Submit,
                branch_name,
                reading.into_snapshot(),
                intents,
                none,
                calculate,
                predict,
            )
        },
    }
}

/// The plan to bring a branch to where its upstream is.
pub fn build_sync_plan<H, E, C, P>(
    reading: RepositoryReading<H>,
    branch_name: &str,
    calculate: C,
    predict: P,
) -> (planned: Result<Plan, PlanError<E>>) where
    C: FnOnce(&RepositorySnapshot<H>, &Vec<Intent>) -> Result<Vec<Operation>, E>,
    P: FnOnce(Vec<Operation>, &Vec<BranchInfo>) -> Vec<Operation>,

    requires
        accepts_requests(calculate),
        accepts_operations(predict),
    ensures
        plan_built(
            PlanIntent::Sync,
            branch_name@,
            snapshot_of(reading),
            sync_request(reading.branches.deep_view(), branch_name@),
            calculate,
            predict,
            planned,
        ),
{
    match request_sync(&reading.branches, branch_name) {
        Err(refusal) => Err(PlanError::Refused(refusal)),
        Ok(intents) => {
            let none: Vec<String> = Vec::new();
            assert(none.deep_view() =~= Seq::<Seq<char>>::empty());
            run_engine(
                PlanIntent::Sync,
                branch_name,
                reading.into_snapshot(),
                intents,
                none,
                calculate,
                predict,
            )
        },
    }
}

/// The plan to put a branch on top of its heuristic parent.
pub fn build_converge_plan<H, E, C, P>(
    reading: RepositoryReading<H>,
    branch_name: &str,
    calculate: C,
    predict: P,
) -> (planned: Result<Plan, PlanError<E>>) where
    C: FnOnce(&RepositorySnapshot<H>, &Vec<Intent>) -> Result<Vec<Operation>, E>,
    P: FnOnce(Vec<Operation>, &Vec<BranchInfo>) -> Vec<Operation>,

    requires
        accepts_requests(calculate),
        accepts_operations(predict),
    ensures
        plan_built(
            PlanIntent::Converge,
            branch_name@,
            snapshot_of(reading),
            converge_request(reading.branches.deep_view(), branch_name@),
            calculate,
            predict,
            planned,
        ),
{
    match request_converge(&reading.branches, branch_name) {
        Err(refusal) => Err(PlanError::Refused(refusal)),
        Ok(intents) => {
            let none: Vec<String> = Vec::new();
            assert(none.deep_view() =~= Seq::<Seq<char>>::empty());
            run_engine(
                PlanIntent::Converge,
                branch_name,
                reading.into_snapshot(),
                intents,
                none,
                calculate,
                predict,
            )
        },
    }
}

} // verus!
