//! Laws of plans.

use crate::engine::{
    find_branch, find_last_branch, first_place, first_place_is_first, last_place_is_last,
    snapshot_of, BranchInfo, Intent, Operation, RepositoryReading, RepositorySnapshot,
};
use crate::plan::{
    build_converge_plan, build_submit_plan, build_sync_plan, converge_request, engine_planned,
    plan_built, request_converge, request_submit, request_sync, submit_request, sync_request, Plan,
    PlanError, PlanIntent, Refusal,
};
use vstd::prelude::*;

verus! {

/// Whether a snapshot is of the repository as it was read: a working tree that
/// could not be read counts as clean.
pub open spec fn as_read<H>(
    reading: RepositoryReading<H>,
    snapshot: RepositorySnapshot<H>,
) -> bool {
    &&& snapshot.branches == reading.branches
    &&& snapshot.history == reading.history
    &&& snapshot.is_dirty <==> reading.dirty is Some && reading.dirty->0
}

/// Whether the branch at `i` is the first with its name.
pub open spec fn first_named(branches: Seq<BranchInfo>, name: Seq<char>, i: int) -> bool {
    &&& 0 <= i < branches.len()
    &&& branches[i].name@ == name
    &&& forall|j: int| 0 <= j < i ==> (#[trigger] branches[j]).name@ != name
}

/// Whether no branch has the name.
pub open spec fn nobody_named(branches: Seq<BranchInfo>, name: Seq<char>) -> bool {
    forall|j: int| 0 <= j < branches.len() ==> (#[trigger] branches[j]).name@ != name
}

/// A place that is found is of the first branch with the name, and none is found
/// only where there is no such branch.
pub(crate) proof fn found_is_first(branches: Vec<BranchInfo>, name: Seq<char>)
    ensures
        match first_place(branches.deep_view(), name) {
            Some(i) => first_named(branches@, name, i),
            None => nobody_named(branches@, name),
        },
{
    let views = branches.deep_view();
    first_place_is_first(views, name);
    assert forall|j: int| 0 <= j < branches@.len() implies (#[trigger] branches@[j]).name@
        == views[j].name by {}
}

/// Whether `planned` is what the engine makes of `intents` on `snapshot`: its
/// error, or the operations that it plans, with the conflicts that it predicts
/// of them, in a plan for the given intent and branch.
pub open spec fn engine_made<H, E, C, P>(
    snapshot: RepositorySnapshot<H>,
    intents: Vec<Intent>,
    calculate: C,
    predict: P,
    intent: PlanIntent,
    branch: Seq<char>,
    planned: Result<Plan, PlanError<E>>,
) -> bool where
    C: FnOnce(&RepositorySnapshot<H>, &Vec<Intent>) -> Result<Vec<Operation>, E>,
    P: FnOnce(Vec<Operation>, &Vec<BranchInfo>) -> Vec<Operation>,
 {
    match planned {
        Err(PlanError::Refused(_)) => false,
        Err(PlanError::Engine(e)) => call_ensures(
            calculate,
            (&snapshot, &intents),
            Err::<Vec<Operation>, E>(e),
        ),
        Ok(plan) => {
            &&& plan.intent == intent
            &&& plan.branch@ == branch
            &&& exists|ops: Vec<Operation>| #[trigger]
                call_ensures(calculate, (&snapshot, &intents), Ok::<Vec<Operation>, E>(ops))
                    && call_ensures(predict, (ops, &snapshot.branches), plan.ops)
        },
    }
}

/// Whether `planned` is what the engine makes of one intent on the repository as
/// it was read, with no branch skipped.
pub open spec fn engine_made_of_one<H, E, C, P>(
    reading: RepositoryReading<H>,
    asked: Intent,
    calculate: C,
    predict: P,
    intent: PlanIntent,
    branch: Seq<char>,
    planned: Result<Plan, PlanError<E>>,
) -> bool where
    C: FnOnce(&RepositorySnapshot<H>, &Vec<Intent>) -> Result<Vec<Operation>, E>,
    P: FnOnce(Vec<Operation>, &Vec<BranchInfo>) -> Vec<Operation>,
 {
    &&& planned matches Ok(plan) ==> plan.skipped_branches@.len() == 0
    &&& exists|snapshot: RepositorySnapshot<H>, intents: Vec<Intent>|
        as_read(reading, snapshot) && intents@ == seq![asked] && #[trigger] engine_made(
            snapshot,
            intents,
            calculate,
            predict,
            intent,
            branch,
            planned,
        )
}

/// Whether `planned` is what comes of submitting a branch: refused where it is not
/// there or not ready, else what the engine makes of the wish to submit it.
pub open spec fn submits<H, E, C, P>(
    reading: RepositoryReading<H>,
    name: Seq<char>,
    calculate: C,
    predict: P,
    planned: Result<Plan, PlanError<E>>,
) -> bool where
    C: FnOnce(&RepositorySnapshot<H>, &Vec<Intent>) -> Result<Vec<Operation>, E>,
    P: FnOnce(Vec<Operation>, &Vec<BranchInfo>) -> Vec<Operation>,
 {
    match planned {
        Err(PlanError::Refused(Refusal::BranchNotFound { branch })) => branch@ == name
            && nobody_named(reading.branches@, name),
        Err(PlanError::Refused(Refusal::NotReadyToSubmit { branch })) => branch@ == name
            && exists|i: int| #[trigger]
            first_named(reading.branches@, name, i) && !reading.branches@[i].submittable,
        Err(PlanError::Refused(Refusal::NoHeuristicParent { .. })) => false,
        _ => {
            &&& exists|i: int| #[trigger]
                first_named(reading.branches@, name, i) && reading.branches@[i].submittable
            &&& exists|asked: Intent|
                (asked matches Intent::Submit { branch } && branch@ == name)
                    && #[trigger] engine_made_of_one(
                    reading,
                    asked,
                    calculate,
                    predict,
                    PlanIntent::Submit,
                    name,
                    planned,
                )
        },
    }
}

pub(crate) proof fn submits_when_built<H, E, C, P>(
    reading: RepositoryReading<H>,
    name: Seq<char>,
    calculate: C,
    predict: P,
    planned: Result<Plan, PlanError<E>>,
) where
    C: FnOnce(&RepositorySnapshot<H>, &Vec<Intent>) -> Result<Vec<Operation>, E>,
    P: FnOnce(Vec<Operation>, &Vec<BranchInfo>) -> Vec<Operation>,

    requires
        plan_built(
            PlanIntent::Submit,
            name,
            snapshot_of(reading),
            submit_request(reading.branches.deep_view(), name),
            calculate,
            predict,
            planned,
        ),
    ensures
        submits(reading, name, calculate, predict, planned),
{
    found_is_first(reading.branches, name);
    first_place_is_first(reading.branches.deep_view(), name);
    one_intent(reading, calculate, predict, PlanIntent::Submit, name, planned);
}

/// A branch is submitted exactly where it is there and ready; else the plan is
/// refused for the one or the other. What the engine is asked for is to submit
/// it, and nothing else.
pub proof fn a_ready_branch_is_submitted<H, E, C, P>(
    reading: RepositoryReading<H>,
    name: &str,
    calculate: C,
    predict: P,
    planned: Result<Plan, PlanError<E>>,
) where
    C: FnOnce(&RepositorySnapshot<H>, &Vec<Intent>) -> Result<Vec<Operation>, E>,
    P: FnOnce(Vec<Operation>, &Vec<BranchInfo>) -> Vec<Operation>,

    requires
        call_ensures(
            build_submit_plan::<H, E, C, P>,
            (reading, name, calculate, predict),
            planned,
        ),
    ensures
        submits(reading, name@, calculate, predict, planned),
{
    submits_when_built(reading, name@, calculate, predict, planned);
}

/// Whether `planned` is what comes of syncing a branch: refused where it is not
/// there, else what the engine makes of the wish to reset it.
pub open spec fn syncs<H, E, C, P>(
    reading: RepositoryReading<H>,
    name: Seq<char>,
    calculate: C,
    predict: P,
    planned: Result<Plan, PlanError<E>>,
) -> bool where
    C: FnOnce(&RepositorySnapshot<H>, &Vec<Intent>) -> Result<Vec<Operation>, E>,
    P: FnOnce(Vec<Operation>, &Vec<BranchInfo>) -> Vec<Operation>,
 {
    match planned {
        Err(PlanError::Refused(Refusal::BranchNotFound { branch })) => branch@ == name
            && nobody_named(reading.branches@, name),
        Err(PlanError::Refused(_)) => false,
        _ => {
            &&& exists|i: int| #[trigger] first_named(reading.branches@, name, i)
            &&& exists|asked: Intent|
                (asked matches Intent::Reset { branch } && branch@ == name)
                    && #[trigger] engine_made_of_one(
                    reading,
                    asked,
                    calculate,
                    predict,
                    PlanIntent::Sync,
                    name,
                    planned,
                )
        },
    }
}

pub(crate) proof fn syncs_when_built<H, E, C, P>(
    reading: RepositoryReading<H>,
    name: Seq<char>,
    calculate: C,
    predict: P,
    planned: Result<Plan, PlanError<E>>,
) where
    C: FnOnce(&RepositorySnapshot<H>, &Vec<Intent>) -> Result<Vec<Operation>, E>,
    P: FnOnce(Vec<Operation>, &Vec<BranchInfo>) -> Vec<Operation>,

    requires
        plan_built(
            PlanIntent::Sync,
            name,
            snapshot_of(reading),
            sync_request(reading.branches.deep_view(), name),
            calculate,
            predict,
            planned,
        ),
    ensures
        syncs(reading, name, calculate, predict, planned),
{
    found_is_first(reading.branches, name);
    first_place_is_first(reading.branches.deep_view(), name);
    one_intent(reading, calculate, predict, PlanIntent::Sync, name, planned);
}

/// A branch is synced wherever it is there; else the plan is refused. What the
/// engine is asked for is to reset it, and nothing else.
pub proof fn a_known_branch_is_synced<H, E, C, P>(
    reading: RepositoryReading<H>,
    name: &str,
    calculate: C,
    predict: P,
    planned: Result<Plan, PlanError<E>>,
) where
    C: FnOnce(&RepositorySnapshot<H>, &Vec<Intent>) -> Result<Vec<Operation>, E>,
    P: FnOnce(Vec<Operation>, &Vec<BranchInfo>) -> Vec<Operation>,

    requires
        call_ensures(build_sync_plan::<H, E, C, P>, (reading, name, calculate, predict), planned),
    ensures
        syncs(reading, name@, calculate, predict, planned),
{
    syncs_when_built(reading, name@, calculate, predict, planned);
}

/// Whether `planned` is what comes of converging a branch: refused where it is not
/// there or has no heuristic parent, else what the engine makes of the wish to
/// move it onto that parent.
pub open spec fn converges<H, E, C, P>(
    reading: RepositoryReading<H>,
    name: Seq<char>,
    calculate: C,
    predict: P,
    planned: Result<Plan, PlanError<E>>,
) -> bool where
    C: FnOnce(&RepositorySnapshot<H>, &Vec<Intent>) -> Result<Vec<Operation>, E>,
    P: FnOnce(Vec<Operation>, &Vec<BranchInfo>) -> Vec<Operation>,
 {
    match planned {
        Err(PlanError::Refused(Refusal::BranchNotFound { branch })) => branch@ == name
            && nobody_named(reading.branches@, name),
        Err(PlanError::Refused(Refusal::NoHeuristicParent { branch })) => branch@ == name
            && exists|i: int| #[trigger]
            first_named(reading.branches@, name, i) && reading.branches@[i].heuristic_parent
                is None,
        Err(PlanError::Refused(Refusal::NotReadyToSubmit { .. })) => false,
        _ => exists|i: int, asked: Intent|
            #![trigger first_named(reading.branches@, name, i), engine_made_of_one(
                reading,
                asked,
                calculate,
                predict,
                PlanIntent::Converge,
                name,
                planned,
            )]
            first_named(reading.branches@, name, i)
                && reading.branches@[i].heuristic_parent is Some && (asked
                matches Intent::Move { branch, parent } && branch@ == name && parent@
                == reading.branches@[i].heuristic_parent->0@) && engine_made_of_one(
                reading,
                asked,
                calculate,
                predict,
                PlanIntent::Converge,
                name,
                planned,
            ),
    }
}

pub(crate) proof fn converges_when_built<H, E, C, P>(
    reading: RepositoryReading<H>,
    name: Seq<char>,
    calculate: C,
    predict: P,
    planned: Result<Plan, PlanError<E>>,
) where
    C: FnOnce(&RepositorySnapshot<H>, &Vec<Intent>) -> Result<Vec<Operation>, E>,
    P: FnOnce(Vec<Operation>, &Vec<BranchInfo>) -> Vec<Operation>,

    requires
        plan_built(
            PlanIntent::Converge,
            name,
            snapshot_of(reading),
            converge_request(reading.branches.deep_view(), name),
            calculate,
            predict,
            planned,
        ),
    ensures
        converges(reading, name, calculate, predict, planned),
{
    found_is_first(reading.branches, name);
    first_place_is_first(reading.branches.deep_view(), name);
    one_intent(reading, calculate, predict, PlanIntent::Converge, name, planned);
    if let Some(i) = first_place(reading.branches.deep_view(), name) {
        assert(reading.branches.deep_view()[i] == reading.branches@[i]@);
    }
}

/// A branch converges exactly where it is there and has a heuristic parent; else
/// the plan is refused for the one or the other. What the engine is asked for is
/// to move it onto that parent, and nothing else.
pub proof fn a_branch_converges_on_its_heuristic_parent<H, E, C, P>(
    reading: RepositoryReading<H>,
    name: &str,
    calculate: C,
    predict: P,
    planned: Result<Plan, PlanError<E>>,
) where
    C: FnOnce(&RepositorySnapshot<H>, &Vec<Intent>) -> Result<Vec<Operation>, E>,
    P: FnOnce(Vec<Operation>, &Vec<BranchInfo>) -> Vec<Operation>,

    requires
        call_ensures(
            build_converge_plan::<H, E, C, P>,
            (reading, name, calculate, predict),
            planned,
        ),
    ensures
        converges(reading, name@, calculate, predict, planned),
{
    converges_when_built(reading, name@, calculate, predict, planned);
}

/// What the engine plans for intents that say one thing is what it makes of one
/// intent.
proof fn one_intent<H, E, C, P>(
    reading: RepositoryReading<H>,
    calculate: C,
    predict: P,
    intent: PlanIntent,
    branch: Seq<char>,
    planned: Result<Plan, PlanError<E>>,
) where
    C: FnOnce(&RepositorySnapshot<H>, &Vec<Intent>) -> Result<Vec<Operation>, E>,
    P: FnOnce(Vec<Operation>, &Vec<BranchInfo>) -> Vec<Operation>,

    ensures
        forall|intents: Vec<Intent>|
            intents.deep_view().len() == 1 && #[trigger] engine_planned(
                intent,
                branch,
                snapshot_of(reading),
                intents,
                Seq::empty(),
                calculate,
                predict,
                planned,
            ) ==> intents.deep_view()[0] == intents@[0]@ && engine_made_of_one(
                reading,
                intents@[0],
                calculate,
                predict,
                intent,
                branch,
                planned,
            ),
{
    assert forall|intents: Vec<Intent>|
        intents.deep_view().len() == 1 && #[trigger] engine_planned(
            intent,
            branch,
            snapshot_of(reading),
            intents,
            Seq::empty(),
            calculate,
            predict,
            planned,
        ) implies intents.deep_view()[0] == intents@[0]@ && engine_made_of_one(
        reading,
        intents@[0],
        calculate,
        predict,
        intent,
        branch,
        planned,
    ) by {
        assert(intents@ =~= seq![intents@[0]]);
        assert(as_read(reading, snapshot_of(reading)));
        assert(engine_made(
            snapshot_of(reading),
            intents,
            calculate,
            predict,
            intent,
            branch,
            planned,
        ));
        if let Ok(plan) = planned {
            assert(plan.skipped_branches.deep_view().len() == plan.skipped_branches@.len());
        }
    }
}

/// A refusal says what it is for, and names the branch.
pub proof fn a_refusal_names_its_branch(refusal: Refusal, message: String)
    requires
        call_ensures(Refusal::message, (&refusal,), message),
    ensures
        match refusal {
            Refusal::BranchNotFound { branch } => message@ == "Branch not found: "@ + branch@,
            Refusal::NotReadyToSubmit { branch } => message@ == "Branch is not ready to submit: "@
                + branch@,
            Refusal::NoHeuristicParent { branch } => message@
                == "No heuristic parent detected for branch: "@ + branch@,
        },
{
}

/// What is found is the first branch with the name, or the last, and nothing only
/// where there is none.
pub proof fn branches_are_found_by_name(
    branches: Vec<BranchInfo>,
    name: String,
    first: Option<usize>,
    last: Option<usize>,
)
    requires
        call_ensures(find_branch, (&branches, &name), first),
        call_ensures(find_last_branch, (&branches, &name), last),
    ensures
        first is None <==> nobody_named(branches@, name@),
        last is None <==> nobody_named(branches@, name@),
        first is Some ==> first_named(branches@, name@, first->0 as int),
        last is Some ==> 0 <= last->0 < branches@.len() && branches@[last->0 as int].name@ == name@
            && forall|j: int|
            last->0 < j < branches@.len() ==> (#[trigger] branches@[j]).name@ != name@,
{
    found_is_first(branches, name@);
    let views = branches.deep_view();
    last_place_is_last(views, name@);
    assert forall|j: int| 0 <= j < branches@.len() implies (#[trigger] branches@[j]).name@
        == views[j].name by {}
    if first is Some {
        assert(branches@[first->0 as int].name@ == name@);
    }
}

/// What is asked for to submit a branch is that and nothing else, exactly where it
/// is there and ready.
pub proof fn a_submit_is_requested_if_ready(
    branches: Vec<BranchInfo>,
    name: &str,
    request: Result<Vec<Intent>, Refusal>,
)
    requires
        call_ensures(request_submit, (&branches, name), request),
    ensures
        match request {
            Err(Refusal::BranchNotFound { branch }) => branch@ == name@ && nobody_named(
                branches@,
                name@,
            ),
            Err(Refusal::NotReadyToSubmit { branch }) => branch@ == name@ && exists|i: int|
             #[trigger]
                first_named(branches@, name@, i) && !branches@[i].submittable,
            Err(_) => false,
            Ok(intents) => {
                &&& exists|i: int| #[trigger]
                    first_named(branches@, name@, i) && branches@[i].submittable
                &&& intents@.len() == 1
                &&& intents@[0] matches Intent::Submit { branch } && branch@ == name@
            },
        },
{
    found_is_first(branches, name@);
    one_only(request);
}

/// What is asked for to sync a branch is to reset it and nothing else, wherever it
/// is there.
pub proof fn a_reset_is_requested_to_sync(
    branches: Vec<BranchInfo>,
    name: &str,
    request: Result<Vec<Intent>, Refusal>,
)
    requires
        call_ensures(request_sync, (&branches, name), request),
    ensures
        match request {
            Err(Refusal::BranchNotFound { branch }) => branch@ == name@ && nobody_named(
                branches@,
                name@,
            ),
            Err(_) => false,
            Ok(intents) => {
                &&& !nobody_named(branches@, name@)
                &&& intents@.len() == 1
                &&& intents@[0] matches Intent::Reset { branch } && branch@ == name@
            },
        },
{
    found_is_first(branches, name@);
    first_place_is_first(branches.deep_view(), name@);
    one_only(request);
}

/// What is asked for to converge a branch is to move it onto its heuristic parent
/// and nothing else, exactly where it is there and has one.
pub proof fn a_move_is_requested_to_converge(
    branches: Vec<BranchInfo>,
    name: &str,
    request: Result<Vec<Intent>, Refusal>,
)
    requires
        call_ensures(request_converge, (&branches, name), request),
    ensures
        match request {
            Err(Refusal::BranchNotFound { branch }) => branch@ == name@ && nobody_named(
                branches@,
                name@,
            ),
            Err(Refusal::NoHeuristicParent { branch }) => branch@ == name@ && exists|i: int|
             #[trigger]
                first_named(branches@, name@, i) && branches@[i].heuristic_parent is None,
            Err(_) => false,
            Ok(intents) => intents@.len() == 1 && exists|i: int| #[trigger]
                first_named(branches@, name@, i) && branches@[i].heuristic_parent is Some && (
                intents@[0] matches Intent::Move { branch, parent } && branch@ == name@ && parent@
                    == branches@[i].heuristic_parent->0@),
        },
{
    found_is_first(branches, name@);
    one_only(request);
    if let Some(i) = first_place(branches.deep_view(), name@) {
        assert(branches.deep_view()[i] == branches@[i]@);
    }
}

proof fn one_only(request: Result<Vec<Intent>, Refusal>)
    ensures
        request matches Ok(intents) ==> intents.deep_view().len() == intents@.len() && (
        intents@.len() > 0 ==> intents.deep_view()[0] == intents@[0]@),
{
}

/// The snapshot of a reading is the repository as it was read.
pub proof fn a_snapshot_is_as_read<H>(
    reading: RepositoryReading<H>,
    snapshot: RepositorySnapshot<H>,
)
    requires
        call_ensures(RepositoryReading::<H>::into_snapshot, (reading,), snapshot),
    ensures
        as_read(reading, snapshot),
{
}

/// A branch may be submitted exactly where the engine found it fit.
pub proof fn fit_branches_may_be_submitted(branch: BranchInfo, ready: bool)
    requires
        call_ensures(BranchInfo::can_submit, (&branch,), ready),
    ensures
        ready <==> branch.submittable,
{
}

} // verus!
