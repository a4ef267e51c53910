//! The cascade: a plan that syncs one branch and brings every other branch
//! along, those included that the plan would lose because their parent is
//! unknown or has been overtaken.

use crate::engine::{
    find_branch, find_last_branch, first_place, first_place_is_first, has_branch, last_place,
    last_place_is_last, places_go_by_name, snapshot_of, BranchInfo, BranchView, Intent, IntentView,
    Operation, RepositoryReading, RepositorySnapshot,
};
use crate::plan::{
    accepts_operations, accepts_requests, engine_planned, plan_built, run_engine, sync_request,
    Plan, PlanError, PlanIntent, Refusal, RefusalView,
};
use vstd::prelude::*;

verus! {

/// The places of the two tips that decide whether the parent of the branch at
/// `i` has been overtaken by the target of the cascade: the parent's and the
/// target's. `None` where nothing has to be asked: for remote branches and the
/// target itself, for branches without a known parent or on the target, and
/// where both tips are one commit.
pub open spec fn question(branches: Seq<BranchView>, target: Seq<char>, i: int) -> Option<
    (int, int),
> {
    let branch = branches[i];
    if branch.is_remote || branch.name == target {
        None
    } else {
        match (branch.original_parent, first_place(branches, target)) {
            (Some(parent), Some(t)) => if parent == target {
                None
            } else {
                match last_place(branches, parent) {
                    None => None,
                    Some(p) => if branches[p].oid == branches[t].oid {
                        None
                    } else {
                        Some((p, t))
                    },
                }
            },
            _ => None,
        }
    }
}

/// What a cascade does about the parent of a branch.
pub enum Anchor {
    /// The parent stays.
    Keep,
    /// The target becomes the parent.
    Reanchor,
    /// The heuristic parent becomes the parent.
    Adopt { parent: Seq<char> },
    /// There is no parent to be had.
    Skip,
}

/// What becomes of a branch, given whether its parent has been overtaken.
pub open spec fn anchor(branch: BranchView, target: Seq<char>, overtaken: bool) -> Anchor {
    if branch.is_remote || branch.name == target {
        Anchor::Keep
    } else if overtaken {
        Anchor::Reanchor
    } else if branch.original_parent is Some {
        Anchor::Keep
    } else {
        match branch.heuristic_parent {
            Some(parent) => Anchor::Adopt { parent },
            None => Anchor::Skip,
        }
    }
}

/// The branch as the planner is to see it: once re-anchored its commits begin
/// at the target, not where the older parent was.
pub open spec fn anchored(branch: BranchView, target: Seq<char>, overtaken: bool) -> BranchView {
    if anchor(branch, target, overtaken) is Reanchor {
        BranchView {
            original_parent: Some(target),
            heuristic_upstream_oid: None,
            ..branch
        }
    } else {
        branch
    }
}

/// All branches as the planner is to see them.
pub open spec fn anchored_all(
    branches: Seq<BranchView>,
    target: Seq<char>,
    overtaken: Seq<bool>,
) -> Seq<BranchView> {
    Seq::new(branches.len(), |i: int| anchored(branches[i], target, overtaken[i]))
}

/// Whether none of the first `n` branches gets the target for a parent.
pub open spec fn none_reanchored(
    branches: Seq<BranchView>,
    target: Seq<char>,
    overtaken: Seq<bool>,
    n: nat,
) -> bool {
    forall|i: int|
        0 <= i < n ==> !(anchor(#[trigger] branches[i], target, overtaken[i]) is Reanchor)
}

/// The moves that the first `n` branches need, in their order.
pub open spec fn moves_upto(
    branches: Seq<BranchView>,
    target: Seq<char>,
    overtaken: Seq<bool>,
    n: nat,
) -> Seq<IntentView>
    decreases n,
{
    if n == 0 {
        Seq::empty()
    } else {
        let before = moves_upto(branches, target, overtaken, (n - 1) as nat);
        let branch = branches[n - 1];
        match anchor(branch, target, overtaken[n - 1]) {
            Anchor::Reanchor => before.push(
                IntentView::Move { branch: branch.name, parent: target },
            ),
            Anchor::Adopt { parent } => before.push(
                IntentView::Move { branch: branch.name, parent },
            ),
            _ => before,
        }
    }
}

/// The names of those among the first `n` branches that have no parent to be
/// had, in their order.
pub open spec fn skipped_upto(
    branches: Seq<BranchView>,
    target: Seq<char>,
    overtaken: Seq<bool>,
    n: nat,
) -> Seq<Seq<char>>
    decreases n,
{
    if n == 0 {
        Seq::empty()
    } else {
        let before = skipped_upto(branches, target, overtaken, (n - 1) as nat);
        let branch = branches[n - 1];
        if anchor(branch, target, overtaken[n - 1]) is Skip {
            before.push(branch.name)
        } else {
            before
        }
    }
}

/// What a cascade asks of the engine: to reset the target, then the moves.
pub open spec fn cascade_intents(
    branches: Seq<BranchView>,
    target: Seq<char>,
    overtaken: Seq<bool>,
) -> Seq<IntentView> {
    seq![IntentView::Reset { branch: target }] + moves_upto(
        branches,
        target,
        overtaken,
        branches.len(),
    )
}

/// Whether `overtaken` holds the answers of `is_descendant` to the questions
/// of a cascade; where nothing is asked, or the answer fails, it is no.
pub open spec fn answered<E, D>(
    branches: Seq<BranchInfo>,
    views: Seq<BranchView>,
    target: Seq<char>,
    is_descendant: D,
    overtaken: Seq<bool>,
) -> bool where D: Fn(&String, &String) -> Result<bool, E> {
    &&& overtaken.len() == views.len()
    &&& forall|i: int|
        0 <= i < views.len() ==> answer(
            branches,
            question(views, target, i),
            is_descendant,
            #[trigger] overtaken[i],
        )
}

/// Whether `overtaken` is the answer of `is_descendant` to one question.
pub open spec fn answer<E, D>(
    branches: Seq<BranchInfo>,
    question: Option<(int, int)>,
    is_descendant: D,
    overtaken: bool,
) -> bool where D: Fn(&String, &String) -> Result<bool, E> {
    match question {
        None => !overtaken,
        Some((p, t)) => exists|reply: Result<bool, E>|
            #[trigger] call_ensures(is_descendant, (&branches[p].oid, &branches[t].oid), reply)
                && overtaken == (reply == Ok::<bool, E>(true)),
    }
}

/// Asks of every branch whether its parent has been overtaken by the target.
fn ask_all<E, D>(branches: &Vec<BranchInfo>, target: &String, is_descendant: &D) -> (overtaken: Vec<
    bool,
>) where D: Fn(&String, &String) -> Result<bool, E>
    requires
        forall|parent: String, tip: String| #[trigger]
            call_requires(*is_descendant, (&parent, &tip)),
    ensures
        answered::<E, D>(
            branches@,
            branches.deep_view(),
            target@,
            *is_descendant,
            overtaken@,
        ),
{
    let ghost views = branches.deep_view();
    let place = find_branch(branches, target);
    let mut overtaken: Vec<bool> = Vec::new();
    let mut i: usize = 0;
    while i < branches.len()
        invariant
            i <= branches.len(),
            views == branches.deep_view(),
            match place {
                Some(t) => first_place(views, target@) == Some(t as int) && t < branches.len(),
                None => first_place(views, target@) is None,
            },
            forall|parent: String, tip: String| #[trigger]
                call_requires(*is_descendant, (&parent, &tip)),
            overtaken.len() == i,
            forall|j: int|
                0 <= j < i ==> answer::<E, D>(
                    branches@,
                    question(views, target@, j),
                    *is_descendant,
                    #[trigger] overtaken@[j],
                ),
        decreases branches.len() - i,
    {
        assert(views[i as int] == branches[i as int]@);
        let branch = &branches[i];
        let mut yes = false;
        if !branch.is_remote && branch.name != *target {
            if let (Some(parent), Some(t)) = (&branch.original_parent, place) {
                if *parent != *target {
                    if let Some(p) = find_last_branch(branches, parent) {
                        assert(views[p as int] == branches[p as int]@);
                        assert(views[t as int] == branches[t as int]@);
                        if branches[p].oid != branches[t].oid {
                            let reply = is_descendant(&branches[p].oid, &branches[t].oid);
                            let ghost told = reply;
                            yes = match reply {
                                Ok(b) => b,
                                Err(_) => false,
                            };
                            assert(yes == (told == Ok::<bool, E>(true)));
                        }
                    }
                }
            }
        }
        assert(answer::<E, D>(branches@, question(views, target@, i as int), *is_descendant, yes));
        overtaken.push(yes);
        i = i + 1;
    }
    overtaken
}

/// Anchors every branch for a cascade, given which parents have been
/// overtaken. Gives the moves that this takes and the branches that it finds no
/// parent for.
pub fn anchor_branches(
    branches: &mut Vec<BranchInfo>,
    target: &String,
    overtaken: &Vec<bool>,
) -> (moved: (Vec<Intent>, Vec<String>))
    requires
        overtaken.len() == old(branches).len(),
    ensures
        final(branches).deep_view() == anchored_all(
            old(branches).deep_view(),
            target@,
            overtaken@,
        ),
        moved.0.deep_view() == moves_upto(
            old(branches).deep_view(),
            target@,
            overtaken@,
            old(branches).len() as nat,
        ),
        moved.1.deep_view() == skipped_upto(
            old(branches).deep_view(),
            target@,
            overtaken@,
            old(branches).len() as nat,
        ),
        none_reanchored(old(branches).deep_view(), target@, overtaken@, old(branches).len() as nat)
            ==> *final(branches) == *old(branches),
{
    let ghost views = branches.deep_view();
    let mut moves: Vec<Intent> = Vec::new();
    let mut skipped: Vec<String> = Vec::new();
    assert(moves.deep_view() =~= Seq::<IntentView>::empty());
    assert(skipped.deep_view() =~= Seq::<Seq<char>>::empty());
    let mut i: usize = 0;
    while i < branches.len()
        invariant
            i <= branches.len(),
            branches.len() == views.len(),
            overtaken.len() == views.len(),
            forall|j: int|
                0 <= j < i ==> (#[trigger] branches[j])@ == anchored(
                    views[j],
                    target@,
                    overtaken[j],
                ),
            forall|j: int| i <= j < views.len() ==> (#[trigger] branches[j])@ == views[j],
            moves.deep_view() == moves_upto(views, target@, overtaken@, i as nat),
            skipped.deep_view() == skipped_upto(views, target@, overtaken@, i as nat),
            none_reanchored(views, target@, overtaken@, i as nat) ==> *branches == *old(branches),
        decreases branches.len() - i,
    {
        let ghost before = *branches;
        let ghost moves_before = moves.deep_view();
        let ghost skipped_before = skipped.deep_view();
        let ghost view = views[i as int];
        assert(branches[i as int]@ == view);
        if !branches[i].is_remote && branches[i].name != *target {
            if overtaken[i] {
                let name = branches[i].name.clone();
                branches[i].original_parent = Some(target.clone());
                branches[i].heuristic_upstream_oid = None;
                moves.push(Intent::Move { branch: name, parent: target.clone() });
                assert(moves.deep_view() =~= moves_before.push(
                    IntentView::Move { branch: view.name, parent: target@ },
                ));
            } else if branches[i].original_parent.is_none() {
                let name = branches[i].name.clone();
                match branches[i].heuristic_parent.clone() {
                    Some(parent) => {
                        let ghost found = parent@;
                        moves.push(Intent::Move { branch: name, parent });
                        assert(moves.deep_view() =~= moves_before.push(
                            IntentView::Move { branch: view.name, parent: found },
                        ));
                    },
                    None => {
                        skipped.push(name);
                        assert(skipped.deep_view() =~= skipped_before.push(view.name));
                    },
                }
            }
        }
        assert(branches[i as int]@ == anchored(view, target@, overtaken[i as int]));
        assert forall|j: int| 0 <= j < views.len() && j != i implies #[trigger] branches[j]
            == before[j] by {}
        i = i + 1;
    }
    assert(branches.deep_view() =~= anchored_all(views, target@, overtaken@));
    (moves, skipped)
}

/// The plan to sync a branch and to bring along every other branch, those
/// included that the planner would drop: a branch whose parent lies behind the
/// target is put on the target, one without a parent on its heuristic parent,
/// and one without either is reported as skipped.
pub fn build_cascade_plan<H, E, D, C, P>(
    reading: RepositoryReading<H>,
    branch_name: &str,
    is_descendant: D,
    calculate: C,
    predict: P,
) -> (planned: Result<Plan, PlanError<E>>) where
    D: Fn(&String, &String) -> Result<bool, E>,
    C: FnOnce(&RepositorySnapshot<H>, &Vec<Intent>) -> Result<Vec<Operation>, E>,
    P: FnOnce(Vec<Operation>, &Vec<BranchInfo>) -> Vec<Operation>,

    requires
        forall|parent: String, tip: String| #[trigger]
            call_requires(is_descendant, (&parent, &tip)),
        accepts_requests(calculate),
        accepts_operations(predict),
    ensures
        cascade_built(reading, branch_name@, is_descendant, calculate, predict, planned),
{
    let target = branch_name.to_owned();
    proof {
        first_place_is_first(reading.branches.deep_view(), branch_name@);
    }
    if find_branch(&reading.branches, &target).is_none() {
        return Err(PlanError::Refused(Refusal::BranchNotFound { branch: target }));
    }
    let ghost given = reading;
    let ghost views = reading.branches.deep_view();
    let overtaken = ask_all(&reading.branches, &target, &is_descendant);
    let mut snapshot = reading.into_snapshot();
    let (mut moves, skipped) = anchor_branches(&mut snapshot.branches, &target, &overtaken);
    let mut intents: Vec<Intent> = vec![Intent::Reset { branch: target }];
    intents.append(&mut moves);
    assert(intents.deep_view() =~= cascade_intents(views, branch_name@, overtaken@));
    let planned = run_engine(
        PlanIntent::Sync,
        branch_name,
        snapshot,
        intents,
        skipped,
        calculate,
        predict,
    );
    assert(cascade_asked(
        given,
        branch_name@,
        overtaken@,
        snapshot,
        intents,
        is_descendant,
    ));
    planned
}

/// Whether `snapshot` and `intents` are what a cascade hands to the engine,
/// given which parents have been overtaken.
pub open spec fn cascade_asked<H, E, D>(
    reading: RepositoryReading<H>,
    target: Seq<char>,
    overtaken: Seq<bool>,
    snapshot: RepositorySnapshot<H>,
    intents: Vec<Intent>,
    is_descendant: D,
) -> bool where D: Fn(&String, &String) -> Result<bool, E> {
    let branches = reading.branches.deep_view();
    &&& answered(reading.branches@, branches, target, is_descendant, overtaken)
    &&& snapshot.branches.deep_view() == anchored_all(branches, target, overtaken)
    &&& none_reanchored(branches, target, overtaken, branches.len()) ==> snapshot.branches
        == reading.branches
    &&& snapshot.history == reading.history
    &&& snapshot.is_dirty == (reading.dirty == Some(true))
    &&& intents.deep_view() == cascade_intents(branches, target, overtaken)
}

/// Whether `planned` is the cascade of a branch: refused where there is no such
/// branch, else what the engine makes of the anchored branches.
pub open spec fn cascade_built<H, E, D, C, P>(
    reading: RepositoryReading<H>,
    target: Seq<char>,
    is_descendant: D,
    calculate: C,
    predict: P,
    planned: Result<Plan, PlanError<E>>,
) -> bool where
    D: Fn(&String, &String) -> Result<bool, E>,
    C: FnOnce(&RepositorySnapshot<H>, &Vec<Intent>) -> Result<Vec<Operation>, E>,
    P: FnOnce(Vec<Operation>, &Vec<BranchInfo>) -> Vec<Operation>,
 {
    let branches = reading.branches.deep_view();
    if !has_branch(branches, target) {
        planned matches Err(PlanError::Refused(refusal)) && refusal@
            == (RefusalView::BranchNotFound { branch: target })
    } else {
        exists|
            overtaken: Seq<bool>,
            snapshot: RepositorySnapshot<H>,
            intents: Vec<Intent>,
        | #[trigger]
            cascade_asked(reading, target, overtaken, snapshot, intents, is_descendant)
                && engine_planned(
                PlanIntent::Sync,
                target,
                snapshot,
                intents,
                skipped_upto(branches, target, overtaken, branches.len()),
                calculate,
                predict,
                planned,
            )
    }
}

/// Whether `overtaken` says yes only where a question is asked.
pub open spec fn only_where_asked(
    branches: Seq<BranchView>,
    target: Seq<char>,
    overtaken: Seq<bool>,
) -> bool {
    &&& overtaken.len() == branches.len()
    &&& forall|i: int|
        0 <= i < branches.len() && question(branches, target, i) is None ==> !(
        #[trigger] overtaken[i])
}

/// A cascade changes nothing but where a branch is anchored, and that of no
/// remote branch and not of the target.
pub proof fn cascade_changes_anchors_only(
    branches: Seq<BranchView>,
    target: Seq<char>,
    overtaken: Seq<bool>,
)
    requires
        overtaken.len() == branches.len(),
    ensures
        anchored_all(branches, target, overtaken).len() == branches.len(),
        forall|i: int|
            0 <= i < branches.len() ==> {
                let after = #[trigger] anchored_all(branches, target, overtaken)[i];
                &&& after == BranchView {
                    original_parent: after.original_parent,
                    heuristic_upstream_oid: after.heuristic_upstream_oid,
                    ..branches[i]
                }
                &&& branches[i].is_remote || branches[i].name == target ==> after == branches[i]
                &&& after == branches[i] || after.original_parent == Some(target)
            },
{
}

/// A move that a branch needs is among the moves.
proof fn move_is_listed(
    branches: Seq<BranchView>,
    target: Seq<char>,
    overtaken: Seq<bool>,
    i: int,
    n: nat,
)
    requires
        overtaken.len() == branches.len(),
        0 <= i < n <= branches.len(),
    ensures
        match anchor(branches[i], target, overtaken[i]) {
            Anchor::Keep => true,
            Anchor::Reanchor => moves_upto(branches, target, overtaken, n).contains(
                IntentView::Move { branch: branches[i].name, parent: target },
            ),
            Anchor::Adopt { parent } => moves_upto(branches, target, overtaken, n).contains(
                IntentView::Move { branch: branches[i].name, parent },
            ),
            Anchor::Skip => skipped_upto(branches, target, overtaken, n).contains(
                branches[i].name,
            ),
        },
    decreases n,
{
    let moves = moves_upto(branches, target, overtaken, n);
    let skipped = skipped_upto(branches, target, overtaken, n);
    let moves_before = moves_upto(branches, target, overtaken, (n - 1) as nat);
    let skipped_before = skipped_upto(branches, target, overtaken, (n - 1) as nat);
    if i == n - 1 {
        match anchor(branches[i], target, overtaken[i]) {
            Anchor::Keep => {},
            Anchor::Skip => {
                assert(skipped.last() == branches[i].name);
            },
            Anchor::Reanchor => {
                assert(moves.last() == IntentView::Move { branch: branches[i].name, parent: target });
            },
            Anchor::Adopt { parent } => {
                assert(moves.last() == IntentView::Move { branch: branches[i].name, parent });
            },
        }
    } else {
        move_is_listed(branches, target, overtaken, i, (n - 1) as nat);
        assert forall|m: IntentView| moves_before.contains(m) implies moves.contains(m) by {
            let k = choose|k: int| 0 <= k < moves_before.len() && moves_before[k] == m;
            assert(moves[k] == m);
        }
        assert forall|s: Seq<char>| skipped_before.contains(s) implies skipped.contains(s) by {
            let k = choose|k: int| 0 <= k < skipped_before.len() && skipped_before[k] == s;
            assert(skipped[k] == s);
        }
    }
}

/// No branch is dropped in silence: after a cascade a local branch other than
/// the target has the parent that it had, or is moved to the target or to its
/// heuristic parent, or is reported as skipped.
pub proof fn no_branch_is_lost(
    branches: Seq<BranchView>,
    target: Seq<char>,
    overtaken: Seq<bool>,
    i: int,
)
    requires
        overtaken.len() == branches.len(),
        0 <= i < branches.len(),
        !branches[i].is_remote,
        branches[i].name != target,
    ensures
        ({
            let branch = branches[i];
            let intents = cascade_intents(branches, target, overtaken);
            let skipped = skipped_upto(branches, target, overtaken, branches.len());
            ||| branch.original_parent is Some && anchored(branch, target, overtaken[i]) == branch
            ||| intents.contains(IntentView::Move { branch: branch.name, parent: target })
            ||| branch.heuristic_parent is Some && intents.contains(
                IntentView::Move { branch: branch.name, parent: branch.heuristic_parent->0 },
            )
            ||| skipped.contains(branch.name)
        }),
{
    move_is_listed(branches, target, overtaken, i, branches.len());
    let moves = moves_upto(branches, target, overtaken, branches.len());
    let intents = cascade_intents(branches, target, overtaken);
    assert forall|m: IntentView| moves.contains(m) implies intents.contains(m) by {
        let k = choose|k: int| 0 <= k < moves.len() && moves[k] == m;
        assert(intents[k + 1] == m);
    }
}

/// A branch is reported as skipped only if it is local, not the target, and
/// has neither a parent nor a heuristic parent.
pub proof fn skipped_branches_have_no_parent(
    branches: Seq<BranchView>,
    target: Seq<char>,
    overtaken: Seq<bool>,
    n: nat,
    name: Seq<char>,
)
    requires
        only_where_asked(branches, target, overtaken),
        n <= branches.len(),
        skipped_upto(branches, target, overtaken, n).contains(name),
    ensures
        exists|i: int|
            0 <= i < n && (#[trigger] branches[i]).name == name && name != target
                && !branches[i].is_remote && branches[i].original_parent is None
                && branches[i].heuristic_parent is None,
    decreases n,
{
    let skipped = skipped_upto(branches, target, overtaken, n);
    let k = choose|k: int| 0 <= k < skipped.len() && skipped[k] == name;
    let before = skipped_upto(branches, target, overtaken, (n - 1) as nat);
    if k < before.len() {
        assert(before[k] == name);
        skipped_branches_have_no_parent(branches, target, overtaken, (n - 1) as nat, name);
    } else {
        assert(branches[n - 1].name == name);
    }
}

/// Every branch that the plan of a cascade reports as skipped is local, not the
/// target, and has neither a parent nor a heuristic parent.
pub proof fn skipped_in_a_plan_have_no_parent<H, E, D, C, P>(
    reading: RepositoryReading<H>,
    target: Seq<char>,
    is_descendant: D,
    calculate: C,
    predict: P,
    plan: Plan,
    name: Seq<char>,
) where
    D: Fn(&String, &String) -> Result<bool, E>,
    C: FnOnce(&RepositorySnapshot<H>, &Vec<Intent>) -> Result<Vec<Operation>, E>,
    P: FnOnce(Vec<Operation>, &Vec<BranchInfo>) -> Vec<Operation>,

    requires
        cascade_built(
            reading,
            target,
            is_descendant,
            calculate,
            predict,
            Ok::<Plan, PlanError<E>>(plan),
        ),
        plan.skipped_branches.deep_view().contains(name),
    ensures
        ({
            let branches = reading.branches.deep_view();
            exists|i: int|
                0 <= i < branches.len() && (#[trigger] branches[i]).name == name && name != target
                    && !branches[i].is_remote && branches[i].original_parent is None
                    && branches[i].heuristic_parent is None
        }),
{
    let branches = reading.branches.deep_view();
    let (overtaken, snapshot, intents) = choose|
        overtaken: Seq<bool>,
        snapshot: RepositorySnapshot<H>,
        intents: Vec<Intent>,
    | #[trigger]
        cascade_asked(reading, target, overtaken, snapshot, intents, is_descendant)
            && engine_planned(
            PlanIntent::Sync,
            target,
            snapshot,
            intents,
            skipped_upto(branches, target, overtaken, branches.len()),
            calculate,
            predict,
            Ok::<Plan, PlanError<E>>(plan),
        );
    assert(only_where_asked(branches, target, overtaken)) by {
        assert forall|i: int|
            0 <= i < branches.len() && question(branches, target, i) is None implies !(
        #[trigger] overtaken[i]) by {
            assert(answer(
                reading.branches@,
                question(branches, target, i),
                is_descendant,
                overtaken[i],
            ));
        }
    }
    skipped_branches_have_no_parent(branches, target, overtaken, branches.len(), name);
}

/// A cascade that is planned again on the branches that it anchored anchors
/// nothing anew and skips the same branches, so a cascade that was halted can
/// be resumed by planning it again. The second answers agree with the first
/// where the same question is asked.
pub proof fn cascade_can_be_resumed(
    branches: Seq<BranchView>,
    target: Seq<char>,
    overtaken: Seq<bool>,
    again: Seq<bool>,
)
    requires
        only_where_asked(branches, target, overtaken),
        only_where_asked(anchored_all(branches, target, overtaken), target, again),
        forall|i: int|
            0 <= i < branches.len() && question(
                anchored_all(branches, target, overtaken),
                target,
                i,
            ) == question(branches, target, i) ==> (#[trigger] again[i]) == overtaken[i],
    ensures
        anchored_all(anchored_all(branches, target, overtaken), target, again) == anchored_all(
            branches,
            target,
            overtaken,
        ),
        skipped_upto(
            anchored_all(branches, target, overtaken),
            target,
            again,
            branches.len(),
        ) == skipped_upto(branches, target, overtaken, branches.len()),
{
    let after = anchored_all(branches, target, overtaken);
    assert forall|i: int| 0 <= i < branches.len() implies #[trigger] again[i] == (overtaken[i]
        && !(anchor(branches[i], target, overtaken[i]) is Reanchor)) by {
        question_after_anchoring(branches, target, overtaken, i);
        if anchor(branches[i], target, overtaken[i]) is Reanchor {
            assert(question(after, target, i) is None);
        } else {
            assert(question(after, target, i) == question(branches, target, i));
        }
    }
    assert forall|i: int| 0 <= i < branches.len() implies #[trigger] anchored(
        after[i],
        target,
        again[i],
    ) == after[i] by {
        assert(again[i] == (overtaken[i] && !(anchor(branches[i], target, overtaken[i]) is Reanchor)));
    }
    assert(anchored_all(after, target, again) =~= after);
    same_skipped(branches, target, overtaken, again, branches.len());
}

/// Once anchored, a branch that was re-anchored raises no question, and every
/// other raises the question that it raised before.
proof fn question_after_anchoring(
    branches: Seq<BranchView>,
    target: Seq<char>,
    overtaken: Seq<bool>,
    i: int,
)
    requires
        overtaken.len() == branches.len(),
        0 <= i < branches.len(),
    ensures
        question(anchored_all(branches, target, overtaken), target, i) == (if anchor(
            branches[i],
            target,
            overtaken[i],
        ) is Reanchor {
            None
        } else {
            question(branches, target, i)
        }),
{
    let after = anchored_all(branches, target, overtaken);
    places_go_by_name(branches, after, target);
    first_place_is_first(branches, target);
    if let Some(parent) = branches[i].original_parent {
        places_go_by_name(branches, after, parent);
        last_place_is_last(branches, parent);
    }
}

proof fn same_skipped(
    branches: Seq<BranchView>,
    target: Seq<char>,
    overtaken: Seq<bool>,
    again: Seq<bool>,
    n: nat,
)
    requires
        overtaken.len() == branches.len(),
        again.len() == branches.len(),
        n <= branches.len(),
        forall|i: int|
            0 <= i < branches.len() ==> #[trigger] again[i] == (overtaken[i] && !(anchor(
                branches[i],
                target,
                overtaken[i],
            ) is Reanchor)),
    ensures
        skipped_upto(anchored_all(branches, target, overtaken), target, again, n)
            == skipped_upto(branches, target, overtaken, n),
    decreases n,
{
    if n > 0 {
        same_skipped(branches, target, overtaken, again, (n - 1) as nat);
        assert(again[n - 1] == (overtaken[n - 1] && !(anchor(
            branches[n - 1],
            target,
            overtaken[n - 1],
        ) is Reanchor)));
    }
}

/// Where every branch keeps its parent, a cascade asks for what a plain sync
/// asks for: the branches stay as they are, the target is reset, and nothing is
/// skipped.
pub proof fn cascade_without_anchoring_is_a_sync(
    branches: Seq<BranchView>,
    target: Seq<char>,
    overtaken: Seq<bool>,
)
    requires
        overtaken.len() == branches.len(),
        has_branch(branches, target),
        forall|i: int|
            0 <= i < branches.len() ==> anchor(#[trigger] branches[i], target, overtaken[i])
                is Keep,
    ensures
        anchored_all(branches, target, overtaken) == branches,
        Ok::<Seq<IntentView>, RefusalView>(cascade_intents(branches, target, overtaken))
            == sync_request(branches, target),
        skipped_upto(branches, target, overtaken, branches.len()).len() == 0,
{
    assert(anchored_all(branches, target, overtaken) =~= branches);
    nothing_to_anchor(branches, target, overtaken, branches.len());
    assert(cascade_intents(branches, target, overtaken) =~= seq![
        IntentView::Reset { branch: target },
    ]);
}

/// Whether a cascade has nothing to do about the parent of the branch at `i`: it
/// is remote or the target itself, or it has a parent of which nothing is asked
/// or which, by every answer, has not been overtaken. Nothing is asked where the
/// parent is the target, is not among the branches, or has the tip of the target.
pub open spec fn parent_stands<E, D>(
    branches: Seq<BranchInfo>,
    views: Seq<BranchView>,
    target: Seq<char>,
    is_descendant: D,
    i: int,
) -> bool where D: Fn(&String, &String) -> Result<bool, E> {
    ||| views[i].is_remote
    ||| views[i].name == target
    ||| views[i].original_parent is Some && !may_be_overtaken(
        branches,
        question(views, target, i),
        is_descendant,
    )
}

/// Whether some answer to the question is yes.
pub open spec fn may_be_overtaken<E, D>(
    branches: Seq<BranchInfo>,
    question: Option<(int, int)>,
    is_descendant: D,
) -> bool where D: Fn(&String, &String) -> Result<bool, E> {
    match question {
        None => false,
        Some((p, t)) => call_ensures(
            is_descendant,
            (&branches[p].oid, &branches[t].oid),
            Ok::<bool, E>(true),
        ),
    }
}

/// Where every parent stands, a cascade and a plain sync of the same branch come
/// to the same: what comes of the cascade is what may come of the sync, with the
/// same intent, branch and operations and no branch skipped, and, once the
/// cascade has its answers, what comes of the sync is what may come of the
/// cascade.
pub proof fn cascade_and_sync_plan_alike<H, E, D, C, P>(
    reading: RepositoryReading<H>,
    target: Seq<char>,
    is_descendant: D,
    calculate: C,
    predict: P,
    planned: Result<Plan, PlanError<E>>,
) where
    D: Fn(&String, &String) -> Result<bool, E>,
    C: FnOnce(&RepositorySnapshot<H>, &Vec<Intent>) -> Result<Vec<Operation>, E>,
    P: FnOnce(Vec<Operation>, &Vec<BranchInfo>) -> Vec<Operation>,

    requires
        cascade_built(reading, target, is_descendant, calculate, predict, planned),
        forall|i: int|
            0 <= i < reading.branches@.len() ==> #[trigger] parent_stands(
                reading.branches@,
                reading.branches.deep_view(),
                target,
                is_descendant,
                i,
            ),
    ensures
        plan_built(
            PlanIntent::Sync,
            target,
            snapshot_of(reading),
            sync_request(reading.branches.deep_view(), target),
            calculate,
            predict,
            planned,
        ),
        planned matches Ok(plan) ==> plan.intent is Sync && plan.branch@ == target
            && plan.skipped_branches@.len() == 0,
        forall|synced: Result<Plan, PlanError<E>>| #[trigger]
            plan_built(
                PlanIntent::Sync,
                target,
                snapshot_of(reading),
                sync_request(reading.branches.deep_view(), target),
                calculate,
                predict,
                synced,
            ) ==> cascade_built(reading, target, is_descendant, calculate, predict, synced),
{
    let branches = reading.branches.deep_view();
    if has_branch(branches, target) {
        let (overtaken, snapshot, intents) = choose|
            overtaken: Seq<bool>,
            snapshot: RepositorySnapshot<H>,
            intents: Vec<Intent>,
        | #[trigger]
            cascade_asked(reading, target, overtaken, snapshot, intents, is_descendant)
                && engine_planned(
                PlanIntent::Sync,
                target,
                snapshot,
                intents,
                skipped_upto(branches, target, overtaken, branches.len()),
                calculate,
                predict,
                planned,
            );
        assert forall|i: int| 0 <= i < branches.len() implies anchor(
            #[trigger] branches[i],
            target,
            overtaken[i],
        ) is Keep by {
            assert(parent_stands(reading.branches@, branches, target, is_descendant, i));
            assert(answer(
                reading.branches@,
                question(branches, target, i),
                is_descendant,
                overtaken[i],
            ));
        }
        cascade_without_anchoring_is_a_sync(branches, target, overtaken);
        let skipped = skipped_upto(branches, target, overtaken, branches.len());
        assert(skipped =~= Seq::empty());
        assert(snapshot == snapshot_of(reading));
        assert(planned matches Ok(plan) ==> plan.skipped_branches.deep_view().len() == 0);
        assert forall|synced: Result<Plan, PlanError<E>>| #[trigger]
            plan_built(
                PlanIntent::Sync,
                target,
                snapshot_of(reading),
                sync_request(branches, target),
                calculate,
                predict,
                synced,
            ) implies cascade_built(
            reading,
            target,
            is_descendant,
            calculate,
            predict,
            synced,
        ) by {
            let asked = choose|asked: Vec<Intent>|
                asked.deep_view() == sync_request(branches, target)->Ok_0
                    && #[trigger] engine_planned(
                    PlanIntent::Sync,
                    target,
                    snapshot_of(reading),
                    asked,
                    Seq::empty(),
                    calculate,
                    predict,
                    synced,
                );
            assert(cascade_asked(
                reading,
                target,
                overtaken,
                snapshot_of(reading),
                asked,
                is_descendant,
            ));
        }
    }
}

proof fn nothing_to_anchor(
    branches: Seq<BranchView>,
    target: Seq<char>,
    overtaken: Seq<bool>,
    n: nat,
)
    requires
        overtaken.len() == branches.len(),
        n <= branches.len(),
        forall|i: int|
            0 <= i < branches.len() ==> anchor(#[trigger] branches[i], target, overtaken[i])
                is Keep,
    ensures
        moves_upto(branches, target, overtaken, n).len() == 0,
        skipped_upto(branches, target, overtaken, n).len() == 0,
    decreases n,
{
    if n > 0 {
        nothing_to_anchor(branches, target, overtaken, (n - 1) as nat);
        assert(anchor(branches[n - 1], target, overtaken[n - 1]) is Keep);
    }
}

} // verus!
