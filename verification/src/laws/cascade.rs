//! Laws of the cascade.

use crate::cascade::{
    anchored_all, answer, build_cascade_plan, cascade_asked, cascade_built, cascade_intents,
    moves_upto, question, skipped_upto,
};
use crate::engine::{
    first_place, first_place_is_first, last_place, last_place_is_last, BranchInfo, BranchView,
    Intent, IntentView, Operation, RepositoryReading, RepositorySnapshot,
};
use crate::laws::plans::{engine_made, first_named, found_is_first, nobody_named};
use crate::plan::{engine_planned, Plan, PlanError, PlanIntent, Refusal};
use vstd::prelude::*;

verus! {

/// Whether the branch at `i` is the last with its name.
pub open spec fn last_named(branches: Seq<BranchInfo>, name: Seq<char>, i: int) -> bool {
    &&& 0 <= i < branches.len()
    &&& branches[i].name@ == name
    &&& forall|j: int| i < j < branches.len() ==> (#[trigger] branches[j]).name@ != name
}

/// Whether `p` is the parent of the branch at `i` and `t` the target, and their
/// tips are different commits. This is asked only of a local branch that is not
/// the target and has another parent than the target.
pub open spec fn to_be_asked(
    branches: Seq<BranchInfo>,
    target: Seq<char>,
    i: int,
    p: int,
    t: int,
) -> bool {
    &&& !branches[i].is_remote
    &&& branches[i].name@ != target
    &&& branches[i].original_parent is Some
    &&& branches[i].original_parent->0@ != target
    &&& last_named(branches, branches[i].original_parent->0@, p)
    &&& first_named(branches, target, t)
    &&& branches[p].oid@ != branches[t].oid@
}

/// Whether `overtaken` tells rightly of the branch at `i` whether the target has
/// overtaken its parent: yes where the tip of the target was said to descend from
/// that of the parent, and no where the answer was another one or there was
/// nothing to ask.
pub open spec fn rightly_told<E, D>(
    branches: Seq<BranchInfo>,
    target: Seq<char>,
    is_descendant: D,
    i: int,
    overtaken: bool,
) -> bool where D: Fn(&String, &String) -> Result<bool, E> {
    if exists|p: int, t: int| #[trigger] to_be_asked(branches, target, i, p, t) {
        exists|p: int, t: int, reply: Result<bool, E>|
            to_be_asked(branches, target, i, p, t) && #[trigger] call_ensures(
                is_descendant,
                (&branches[p].oid, &branches[t].oid),
                reply,
            ) && (overtaken <==> reply == Ok::<bool, E>(true))
    } else {
        !overtaken
    }
}

/// Whether the branch at `i` is to get another parent: it was overtaken, or has
/// no parent but a heuristic one.
pub open spec fn to_be_moved(
    branches: Seq<BranchInfo>,
    target: Seq<char>,
    overtaken: Seq<bool>,
    i: int,
) -> bool {
    overtaken[i] || (!branches[i].is_remote && branches[i].name@ != target
        && branches[i].original_parent is None && branches[i].heuristic_parent is Some)
}

/// Whether the branch at `i` has no parent of either sort and so is skipped.
pub open spec fn to_be_skipped(
    branches: Seq<BranchInfo>,
    target: Seq<char>,
    i: int,
) -> bool {
    !branches[i].is_remote && branches[i].name@ != target && branches[i].original_parent is None
        && branches[i].heuristic_parent is None
}

/// Whether `places` go up within `n`.
pub open spec fn go_up(places: Seq<int>, n: nat) -> bool {
    &&& forall|k: int| 0 <= k < places.len() ==> 0 <= #[trigger] places[k] < n
    &&& forall|j: int, k: int|
        0 <= j < k < places.len() ==> #[trigger] places[j] < #[trigger] places[k]
}

/// Whether `intents` ask to reset the target, first and once, and then to move
/// the branches at `places`, which are all that are to be moved: an overtaken one
/// onto the target, any other onto its heuristic parent.
pub open spec fn resets_and_moves(
    branches: Seq<BranchInfo>,
    target: Seq<char>,
    overtaken: Seq<bool>,
    intents: Seq<Intent>,
    places: Seq<int>,
) -> bool {
    &&& intents.len() == places.len() + 1
    &&& intents[0] matches Intent::Reset { branch } && branch@ == target
    &&& go_up(places, branches.len())
    &&& forall|k: int|
        0 <= k < places.len() ==> {
            let place = #[trigger] places[k];
            intents[k + 1] matches Intent::Move { branch, parent } && branch@
                == branches[place].name@ && parent@ == (if overtaken[place] {
                target
            } else {
                branches[place].heuristic_parent->0@
            })
        }
    &&& forall|i: int|
        0 <= i < branches.len() ==> (#[trigger] places.contains(i) <==> to_be_moved(
            branches,
            target,
            overtaken,
            i,
        ))
}

/// Whether `skipped` are the names of the branches at `places`, which are all
/// that are to be skipped, in their order.
pub open spec fn skips(
    branches: Seq<BranchInfo>,
    target: Seq<char>,
    skipped: Seq<String>,
    places: Seq<int>,
) -> bool {
    &&& skipped.len() == places.len()
    &&& go_up(places, branches.len())
    &&& forall|k: int|
        0 <= k < places.len() ==> skipped[k]@ == branches[#[trigger] places[k]].name@
    &&& forall|i: int|
        0 <= i < branches.len() ==> (#[trigger] places.contains(i) <==> to_be_skipped(
            branches,
            target,
            i,
        ))
}

/// Whether the engine sees the repository as it was read, but for the branches
/// that were overtaken: their parent is the target, and where their commits begin
/// is left open.
pub open spec fn seen<H>(
    reading: RepositoryReading<H>,
    target: Seq<char>,
    overtaken: Seq<bool>,
    snapshot: RepositorySnapshot<H>,
) -> bool {
    &&& snapshot.history == reading.history
    &&& snapshot.is_dirty <==> reading.dirty is Some && reading.dirty->0
    &&& snapshot.branches@.len() == reading.branches@.len()
    &&& forall|i: int|
        0 <= i < reading.branches@.len() ==> seen_branch(
            reading.branches@[i],
            target,
            overtaken[i],
            #[trigger] snapshot.branches@[i],
        )
}

/// Whether a branch is seen as it was read, but for its parent and where its
/// commits begin where it was overtaken.
pub open spec fn seen_branch(
    read: BranchInfo,
    target: Seq<char>,
    overtaken: bool,
    after: BranchInfo,
) -> bool {
    &&& after.name@ == read.name@
    &&& after.oid@ == read.oid@
    &&& after.is_remote == read.is_remote
    &&& after.is_merged == read.is_merged
    &&& after.ahead == read.ahead
    &&& after.behind == read.behind
    &&& after.parent_behind == read.parent_behind
    &&& after.aliases.deep_view() == read.aliases.deep_view()
    &&& after.heuristic_parent.deep_view() == read.heuristic_parent.deep_view()
    &&& after.submittable == read.submittable
    &&& after.pr.deep_view() == read.pr.deep_view()
    &&& if overtaken {
        &&& after.original_parent is Some
        &&& after.original_parent->0@ == target
        &&& after.heuristic_upstream_oid is None
    } else {
        &&& after.original_parent.deep_view() == read.original_parent.deep_view()
        &&& after.heuristic_upstream_oid.deep_view() == read.heuristic_upstream_oid.deep_view()
    }
}

/// Whether `snapshot` and `intents` are what a cascade asks the engine with,
/// given which branches were overtaken.
pub open spec fn asked_with<H, E, D>(
    reading: RepositoryReading<H>,
    target: Seq<char>,
    is_descendant: D,
    overtaken: Seq<bool>,
    snapshot: RepositorySnapshot<H>,
    intents: Vec<Intent>,
) -> bool where D: Fn(&String, &String) -> Result<bool, E> {
    &&& overtaken.len() == reading.branches@.len()
    &&& forall|i: int|
        0 <= i < overtaken.len() ==> rightly_told(
            reading.branches@,
            target,
            is_descendant,
            i,
            #[trigger] overtaken[i],
        )
    &&& seen(reading, target, overtaken, snapshot)
    &&& exists|places: Seq<int>| #[trigger]
        resets_and_moves(reading.branches@, target, overtaken, intents@, places)
}

/// Whether `planned` is what comes of a cascade: refused where the branch is not
/// there, else what the engine makes of the wish to reset it and to move every
/// branch that needs it, with the branches that have no parent reported.
pub open spec fn cascades<H, E, D, C, P>(
    reading: RepositoryReading<H>,
    name: Seq<char>,
    is_descendant: D,
    calculate: C,
    predict: P,
    planned: Result<Plan, PlanError<E>>,
) -> bool where
    D: Fn(&String, &String) -> Result<bool, E>,
    C: FnOnce(&RepositorySnapshot<H>, &Vec<Intent>) -> Result<Vec<Operation>, E>,
    P: FnOnce(Vec<Operation>, &Vec<BranchInfo>) -> Vec<Operation>,
 {
    &&& nobody_named(reading.branches@, name) ==> (planned matches Err(
            PlanError::Refused(Refusal::BranchNotFound { branch }),
        ) && branch@ == name)
    &&& !nobody_named(reading.branches@, name) ==> exists|
            overtaken: Seq<bool>,
            snapshot: RepositorySnapshot<H>,
            intents: Vec<Intent>,
        | #[trigger]
            asked_with(reading, name, is_descendant, overtaken, snapshot, intents) && engine_made(
                snapshot,
                intents,
                calculate,
                predict,
                PlanIntent::Sync,
                name,
                planned,
            )
    &&& planned matches Ok(plan) ==> exists|places: Seq<int>| #[trigger]
            skips(reading.branches@, name, plan.skipped_branches@, places)
}

pub(crate) proof fn cascades_when_built<H, E, D, C, P>(
    reading: RepositoryReading<H>,
    name: Seq<char>,
    is_descendant: D,
    calculate: C,
    predict: P,
    planned: Result<Plan, PlanError<E>>,
) where
    D: Fn(&String, &String) -> Result<bool, E>,
    C: FnOnce(&RepositorySnapshot<H>, &Vec<Intent>) -> Result<Vec<Operation>, E>,
    P: FnOnce(Vec<Operation>, &Vec<BranchInfo>) -> Vec<Operation>,

    requires
        cascade_built(reading, name, is_descendant, calculate, predict, planned),
    ensures
        cascades(reading, name, is_descendant, calculate, predict, planned),
{
    let target = name;
    let branches = reading.branches@;
    let views = reading.branches.deep_view();
    found_is_first(reading.branches, target);
    first_place_is_first(views, target);
    if !nobody_named(branches, target) {
        let (overtaken, snapshot, intents) = choose|
            overtaken: Seq<bool>,
            snapshot: RepositorySnapshot<H>,
            intents: Vec<Intent>,
        | #[trigger]
            cascade_asked(reading, target, overtaken, snapshot, intents, is_descendant)
                && engine_planned(
                PlanIntent::Sync,
                target,
                snapshot,
                intents,
                skipped_upto(views, target, overtaken, views.len()),
                calculate,
                predict,
                planned,
            );
        assert forall|i: int| 0 <= i < overtaken.len() implies rightly_told(
            branches,
            target,
            is_descendant,
            i,
            #[trigger] overtaken[i],
        ) by {
            assert(answer(branches, question(views, target, i), is_descendant, overtaken[i]));
            an_answer_tells_rightly(reading.branches, target, is_descendant, i, overtaken[i]);
        }
        assert(seen(reading, target, overtaken, snapshot)) by {
            assert(snapshot.branches.deep_view().len() == snapshot.branches@.len());
            assert forall|i: int| 0 <= i < branches.len() implies seen_branch(
                branches[i],
                target,
                overtaken[i],
                #[trigger] snapshot.branches@[i],
            ) by {
                assert(snapshot.branches.deep_view()[i] == snapshot.branches@[i]@);
                assert(views[i] == branches[i]@);
                if overtaken[i] {
                    only_if_asked(reading.branches, target, is_descendant, i, overtaken[i]);
                }
                assert(snapshot.branches@[i]@ == anchored_all(views, target, overtaken)[i]);
            }
        }
        assert forall|i: int| 0 <= i < branches.len() && #[trigger] overtaken[i] implies
            !branches[i].is_remote && branches[i].name@ != target && branches[i].original_parent
            is Some by {
            only_if_asked(reading.branches, target, is_descendant, i, overtaken[i]);
        }
        let places = move_places(reading.branches, target, overtaken, views.len());
        let moves = moves_upto(views, target, overtaken, views.len());
        assert(intents.deep_view().len() == intents@.len());
        assert(intents.deep_view()[0] == intents@[0]@);
        assert forall|k: int| 0 <= k < places.len() implies {
            let place = #[trigger] places[k];
            intents@[k + 1] matches Intent::Move { branch, parent } && branch@
                == branches[place].name@ && parent@ == (if overtaken[place] {
                target
            } else {
                branches[place].heuristic_parent->0@
            })
        } by {
            assert(intents.deep_view()[k + 1] == intents@[k + 1]@);
            assert(intents.deep_view()[k + 1] == moves[k]);
        }
        assert(resets_and_moves(branches, target, overtaken, intents@, places));
        assert(asked_with(reading, target, is_descendant, overtaken, snapshot, intents));
        if let Ok(plan) = planned {
            let left_out = skip_places(reading.branches, target, overtaken, views.len());
            assert(plan.skipped_branches.deep_view().len() == plan.skipped_branches@.len());
            assert forall|k: int| 0 <= k < left_out.len() implies plan.skipped_branches@[k]@
                == branches[#[trigger] left_out[k]].name@ by {
                assert(plan.skipped_branches.deep_view()[k] == plan.skipped_branches@[k]@);
            }
            assert(skips(branches, target, plan.skipped_branches@, left_out));
        }
    }
}

/// A cascade of a branch that is there asks the engine to reset that branch and
/// to move every branch that needs it, on a repository in which the overtaken
/// branches stand on the target; what comes of it is what the engine makes of
/// that. The branches without any parent are reported. Without the branch the
/// plan is refused.
pub proof fn a_cascade_resets_its_target_and_brings_all_along<H, E, D, C, P>(
    reading: RepositoryReading<H>,
    name: &str,
    is_descendant: D,
    calculate: C,
    predict: P,
    planned: Result<Plan, PlanError<E>>,
) where
    D: Fn(&String, &String) -> Result<bool, E>,
    C: FnOnce(&RepositorySnapshot<H>, &Vec<Intent>) -> Result<Vec<Operation>, E>,
    P: FnOnce(Vec<Operation>, &Vec<BranchInfo>) -> Vec<Operation>,

    requires
        call_ensures(
            build_cascade_plan::<H, E, D, C, P>,
            (reading, name, is_descendant, calculate, predict),
            planned,
        ),
    ensures
        cascades(reading, name@, is_descendant, calculate, predict, planned),
{
    cascades_when_built(reading, name@, is_descendant, calculate, predict, planned);
}

proof fn an_answer_tells_rightly<E, D>(
    branches: Vec<BranchInfo>,
    target: Seq<char>,
    is_descendant: D,
    i: int,
    overtaken: bool,
) where D: Fn(&String, &String) -> Result<bool, E>
    requires
        0 <= i < branches@.len(),
        answer(branches@, question(branches.deep_view(), target, i), is_descendant, overtaken),
    ensures
        rightly_told(branches@, target, is_descendant, i, overtaken),
{
    let views = branches.deep_view();
    assert(views[i] == branches@[i]@);
    found_is_first(branches, target);
    let parent = branches@[i].original_parent;
    if parent is Some {
        found_is_last(branches, parent->0@);
    }
    match question(views, target, i) {
        Some((p, t)) => {
            assert(views[p] == branches@[p]@);
            assert(views[t] == branches@[t]@);
            assert(to_be_asked(branches@, target, i, p, t));
        },
        None => {
            assert forall|p: int, t: int| !(#[trigger] to_be_asked(branches@, target, i, p, t)) by {
                if to_be_asked(branches@, target, i, p, t) {
                    assert(views[p] == branches@[p]@);
                    assert(views[t] == branches@[t]@);
                    assert(first_place(views, target) is Some);
                    assert(last_place(views, parent->0@) is Some);
                    let first = first_place(views, target)->0;
                    let last = last_place(views, parent->0@)->0;
                    assert(first == t);
                    assert(last == p);
                }
            }
        },
    }
}

proof fn only_if_asked<E, D>(
    branches: Vec<BranchInfo>,
    target: Seq<char>,
    is_descendant: D,
    i: int,
    overtaken: bool,
) where D: Fn(&String, &String) -> Result<bool, E>
    requires
        0 <= i < branches@.len(),
        rightly_told(branches@, target, is_descendant, i, overtaken),
        overtaken,
    ensures
        !branches@[i].is_remote,
        branches@[i].name@ != target,
        branches@[i].original_parent is Some,
{
}

proof fn found_is_last(branches: Vec<BranchInfo>, name: Seq<char>)
    ensures
        match last_place(branches.deep_view(), name) {
            Some(i) => last_named(branches@, name, i),
            None => nobody_named(branches@, name),
        },
{
    let views = branches.deep_view();
    last_place_is_last(views, name);
    assert forall|j: int| 0 <= j < branches@.len() implies (#[trigger] branches@[j]).name@
        == views[j].name by {}
}

proof fn move_places(
    branches: Vec<BranchInfo>,
    target: Seq<char>,
    overtaken: Seq<bool>,
    n: nat,
) -> (places: Seq<int>)
    requires
        n <= branches@.len(),
        overtaken.len() == branches@.len(),
        forall|i: int|
            0 <= i < branches@.len() && #[trigger] overtaken[i] ==> !branches@[i].is_remote
                && branches@[i].name@ != target && branches@[i].original_parent is Some,
    ensures
        go_up(places, n),
        places.len() == moves_upto(branches.deep_view(), target, overtaken, n).len(),
        forall|k: int|
            0 <= k < places.len() ==> moves_upto(branches.deep_view(), target, overtaken, n)[k]
                == (IntentView::Move {
                branch: branches@[#[trigger] places[k]].name@,
                parent: if overtaken[places[k]] {
                    target
                } else {
                    branches@[places[k]].heuristic_parent->0@
                },
            }),
        forall|i: int|
            0 <= i < n ==> (#[trigger] places.contains(i) <==> to_be_moved(
                branches@,
                target,
                overtaken,
                i,
            )),
    decreases n,
{
    if n == 0 {
        Seq::empty()
    } else {
        let before = move_places(branches, target, overtaken, (n - 1) as nat);
        let last = n - 1;
        assert(branches.deep_view()[last] == branches@[last]@);
        let places = if to_be_moved(branches@, target, overtaken, last) {
            before.push(last)
        } else {
            before
        };
        assert forall|i: int| 0 <= i < n implies (#[trigger] places.contains(i) <==> to_be_moved(
            branches@,
            target,
            overtaken,
            i,
        )) by {
            kept_places(before, places, last, to_be_moved(branches@, target, overtaken, last), i);
        }
        places
    }
}

proof fn skip_places(
    branches: Vec<BranchInfo>,
    target: Seq<char>,
    overtaken: Seq<bool>,
    n: nat,
) -> (places: Seq<int>)
    requires
        n <= branches@.len(),
        overtaken.len() == branches@.len(),
        forall|i: int|
            0 <= i < branches@.len() && #[trigger] overtaken[i] ==> !branches@[i].is_remote
                && branches@[i].name@ != target && branches@[i].original_parent is Some,
    ensures
        go_up(places, n),
        places.len() == skipped_upto(branches.deep_view(), target, overtaken, n).len(),
        forall|k: int|
            0 <= k < places.len() ==> skipped_upto(branches.deep_view(), target, overtaken, n)[k]
                == branches@[#[trigger] places[k]].name@,
        forall|i: int|
            0 <= i < n ==> (#[trigger] places.contains(i) <==> to_be_skipped(
                branches@,
                target,
                i,
            )),
    decreases n,
{
    if n == 0 {
        Seq::empty()
    } else {
        let before = skip_places(branches, target, overtaken, (n - 1) as nat);
        let last = n - 1;
        assert(branches.deep_view()[last] == branches@[last]@);
        assert(overtaken[last] ==> branches@[last].original_parent is Some);
        let places = if to_be_skipped(branches@, target, last) {
            before.push(last)
        } else {
            before
        };
        assert forall|i: int| 0 <= i < n implies (#[trigger] places.contains(i)
            <==> to_be_skipped(branches@, target, i)) by {
            kept_places(before, places, last, to_be_skipped(branches@, target, last), i);
        }
        places
    }
}

/// One place more, or none, leaves the other places as they were.
proof fn kept_places(before: Seq<int>, places: Seq<int>, last: int, more: bool, i: int)
    requires
        places == (if more {
            before.push(last)
        } else {
            before
        }),
        go_up(before, last as nat),
        0 <= i <= last,
    ensures
        i < last ==> (places.contains(i) <==> before.contains(i)),
        i == last ==> (places.contains(i) <==> more),
{
    if before.contains(i) {
        let k = choose|k: int| 0 <= k < before.len() && before[k] == i;
        assert(places[k] == i);
    }
    if places.contains(i) {
        let k = choose|k: int| 0 <= k < places.len() && places[k] == i;
        if k < before.len() {
            assert(before[k] == i);
        }
    }
    if more {
        assert(places[before.len() as int] == last);
    }
}

/// What a cascade asks for, however many branches it moves, begins with the reset
/// of its target, and all that follows are moves.
pub proof fn the_reset_comes_first_and_once(
    branches: Seq<BranchView>,
    target: Seq<char>,
    overtaken: Seq<bool>,
)
    ensures
        ({
            let intents = cascade_intents(branches, target, overtaken);
            &&& intents.len() >= 1
            &&& intents[0] == (IntentView::Reset { branch: target })
            &&& forall|k: int| 1 <= k < intents.len() ==> (#[trigger] intents[k]) is Move
        }),
{
    only_moves(branches, target, overtaken, branches.len());
}

proof fn only_moves(
    branches: Seq<BranchView>,
    target: Seq<char>,
    overtaken: Seq<bool>,
    n: nat,
)
    ensures
        forall|k: int|
            0 <= k < moves_upto(branches, target, overtaken, n).len() ==> (
            #[trigger] moves_upto(branches, target, overtaken, n)[k]) is Move,
    decreases n,
{
    if n > 0 {
        only_moves(branches, target, overtaken, (n - 1) as nat);
    }
}

} // verus!
