//! Laws of the command line.

use crate::apply::{OpResult, OpResultView};
use crate::cli::{
    build_plan, choose_action, exit_code, git_bin, listed, listed_upto, print_op_results,
    report_applied, results_upto, warn_skipped, Action, Options,
};
use crate::engine::{BranchInfo, Intent, Operation, RepositoryReading, RepositorySnapshot};
use crate::laws::cascade::{cascades, cascades_when_built};
use crate::laws::plans::{
    converges, converges_when_built, submits, submits_when_built,
};
use crate::plan::{Plan, PlanError, PlanIntent};
use crate::text::decimal;
use vstd::prelude::*;

verus! {

/// A plan is carried out exactly where this was asked for, and never one to
/// converge: without the demand it is only shown.
pub proof fn plans_are_carried_out_on_demand(options: Options, action: Action)
    requires
        call_ensures(choose_action, (options,), action),
    ensures
        action matches Action::Plan { intent, branch, apply } ==> {
            &&& apply ==> options.apply
            &&& options.apply && !(intent is Converge) ==> apply
            &&& intent is Converge ==> !apply
        },
{
}

/// Of several requests one is heard: a rebase before the state, the state before
/// a plan to submit, that before one to converge, that before one to sync, and
/// that before the tree. The screen opens only where nothing is asked for.
pub proof fn requests_are_heard_in_order(options: Options, action: Action)
    requires
        call_ensures(choose_action, (options,), action),
    ensures
        action is Execute <==> options.rebase is Some,
        action is Status <==> options.rebase is None && options.status,
        action is Plan <==> options.rebase is None && !options.status && (options.submit is Some
            || options.converge is Some || options.sync is Some),
        action matches Action::Plan { intent, branch, apply } ==> match intent {
            PlanIntent::Submit => options.submit is Some && branch@ == options.submit->0@,
            PlanIntent::Converge => options.submit is None && options.converge is Some && branch@
                == options.converge->0@,
            PlanIntent::Sync => options.submit is None && options.converge is None && options.sync
                is Some && branch@ == options.sync->0@,
        },
        action is Tree <==> options.rebase is None && !options.status && options.submit is None
            && options.converge is None && options.sync is None && options.tree,
        action matches Action::Tree { show_remote } ==> show_remote == options.all,
        action is Interactive <==> options.rebase is None && !options.status && options.submit
            is None && options.converge is None && options.sync is None && !options.tree,
{
}

/// A rebase is asked for by a branch and where it goes, and by where its commits
/// begin if a third word is there. Nothing is predicted of it.
pub proof fn a_rebase_is_what_its_words_say(options: Options, action: Action)
    requires
        call_ensures(choose_action, (options,), action),
        options.rebase is Some,
        options.rebase->0@.len() >= 2,
    ensures
        action matches Action::Execute(op) && op matches Operation::Rebase {
            branch,
            onto,
            upstream,
            predicted_conflict,
        } && {
            let words = options.rebase->0@;
            &&& branch@ == words[0]@
            &&& onto@ == words[1]@
            &&& upstream is Some <==> words.len() > 2
            &&& upstream is Some ==> upstream->0@ == words[2]@
            &&& predicted_conflict is None
        },
{
    let views = options.rebase->0.deep_view();
    assert(views[0] == options.rebase->0@[0]@);
    assert(views[1] == options.rebase->0@[1]@);
    if views.len() > 2 {
        assert(views[2] == options.rebase->0@[2]@);
    }
}

/// The `git` that is run is the one that is configured, if one is.
pub proof fn the_configured_git_is_run(configured: Option<String>, program: String)
    requires
        call_ensures(git_bin, (configured,), program),
    ensures
        configured is Some ==> program@ == configured->0@,
        configured is None ==> program@ == "git"@,
{
}

/// A run ends with zero exactly where every result is of an operation that was
/// carried out, and else with one.
pub proof fn zero_is_for_all_done(results: Vec<OpResult>, code: i32)
    requires
        call_ensures(exit_code, (&results,), code),
    ensures
        code == 0 <==> forall|i: int| 0 <= i < results@.len() ==> (#[trigger] results@[i]) is Done,
        code == 0 || code == 1,
{
    let views = results.deep_view();
    if code == 0 {
        assert forall|i: int| 0 <= i < results@.len() implies (#[trigger] results@[i]) is Done by {
            assert(views[i] is Done);
        }
    }
    if forall|i: int| 0 <= i < results@.len() ==> (#[trigger] results@[i]) is Done {
        assert forall|i: int| 0 <= i < views.len() implies (#[trigger] views[i]) is Done by {
            assert(results@[i] is Done);
        }
    }
}

/// An empty list has no lines, and one item more is one line more at its end.
pub proof fn lists_grow_by_a_line(mark: Seq<char>, items: Seq<Seq<char>>, item: Seq<char>)
    ensures
        listed(mark, Seq::empty()).len() == 0,
        listed(mark, items.push(item)) == listed(mark, items) + mark + item + "\n"@,
{
    listing_looks_back(mark, items, items.push(item), items.len());
}

proof fn listing_looks_back(
    mark: Seq<char>,
    left: Seq<Seq<char>>,
    right: Seq<Seq<char>>,
    n: nat,
)
    requires
        n <= left.len(),
        n <= right.len(),
        forall|i: int| 0 <= i < n ==> left[i] == right[i],
    ensures
        listed_upto(mark, left, n) == listed_upto(mark, right, n),
    decreases n,
{
    if n > 0 {
        listing_looks_back(mark, left, right, (n - 1) as nat);
    }
}

/// There is a warning exactly where a branch is skipped. It tells how many are,
/// lists them in their order, and says what can be done.
pub proof fn skipped_branches_are_counted_and_listed(skipped: Vec<String>, warning: String)
    requires
        call_ensures(warn_skipped, (&skipped,), warning),
    ensures
        warning@.len() == 0 <==> skipped@.len() == 0,
        skipped@.len() > 0 ==> warning@ == "warning: "@ + decimal(skipped@.len())
            + " branch(es) skipped from cascade — no detectable parent:\n"@ + listed(
            "  - "@,
            skipped.deep_view(),
        ) + "run `gitui --converge BRANCH` to anchor manually.\n"@,
{
    reveal_strlit("warning: ");
}

/// What is told of no results is nothing, and one result more adds what is told
/// of it at the end: that the branch is fine; or that it is in conflict, with
/// every path, and that a rebase waits on it where one does; or its error.
pub proof fn results_are_told_one_by_one(
    results: Vec<OpResult>,
    more: Vec<OpResult>,
    text: String,
    longer: String,
)
    requires
        call_ensures(print_op_results, (&results,), text),
        call_ensures(print_op_results, (&more,), longer),
        more@.len() == results@.len() + 1,
        forall|i: int| 0 <= i < results@.len() ==> (#[trigger] more@[i]) == results@[i],
    ensures
        results@.len() == 0 ==> text@.len() == 0,
        match more@.last() {
            OpResult::Done { branch } => longer@ == text@ + ("  "@ + branch@ + " ok\n"@),
            OpResult::Error { branch, message } => longer@ == text@ + ("  "@ + branch@
                + " ERROR: "@ + message@ + "\n"@),
            OpResult::Conflict { branch, conflicted_paths, rebase_in_progress } => longer@
                == text@ + ("  "@ + branch@ + " CONFLICT\n"@ + listed(
                "    - "@,
                conflicted_paths.deep_view(),
            ) + (if rebase_in_progress {
                "  rebase in progress on "@ + branch@
                    + "; resolve and re-run `--apply` to continue\n"@
            } else {
                Seq::empty()
            })),
        },
{
    let left = results.deep_view();
    let right = more.deep_view();
    assert forall|i: int| 0 <= i < left.len() implies #[trigger] left[i] == right[i] by {
        assert(more@[i] == results@[i]);
    }
    telling_looks_back(left, right, left.len());
    assert(right[left.len() as int] == more@.last()@);
}

proof fn telling_looks_back(
    left: Seq<OpResultView>,
    right: Seq<OpResultView>,
    n: nat,
)
    requires
        n <= left.len(),
        n <= right.len(),
        forall|i: int| 0 <= i < n ==> left[i] == right[i],
    ensures
        results_upto(left, n) == results_upto(right, n),
    decreases n,
{
    if n > 0 {
        telling_looks_back(left, right, (n - 1) as nat);
    }
}

/// What is told of a plan that was carried out is a heading that names its
/// branch, and then what is told of the results.
pub proof fn a_report_is_a_heading_and_the_results(
    plan: Plan,
    results: Vec<OpResult>,
    report: String,
    told: String,
)
    requires
        call_ensures(report_applied, (&plan, &results), report),
        call_ensures(print_op_results, (&results,), told),
    ensures
        plan.intent is Submit ==> report@ == "Submitting "@ + plan.branch@ + ":\n"@ + told@,
        !(plan.intent is Submit) ==> report@ == "Applying plan for "@ + plan.branch@ + ":\n"@
            + told@,
{
}

/// A run plans what it is asked to: to submit, to converge, or, where it is to
/// sync, a cascade. Nothing else goes into the plan, so that the plan that is
/// shown is the plan that is carried out.
pub proof fn a_run_plans_what_it_is_asked_to<H, E, D, C, P>(
    intent: PlanIntent,
    name: &str,
    reading: RepositoryReading<H>,
    is_descendant: D,
    calculate: C,
    predict: P,
    planned: Result<Plan, PlanError<E>>,
) where
    D: Fn(&String, &String) -> Result<bool, E>,
    C: FnOnce(&RepositorySnapshot<H>, &Vec<Intent>) -> Result<Vec<Operation>, E>,
    P: FnOnce(Vec<Operation>, &Vec<BranchInfo>) -> Vec<Operation>,

    requires
        call_ensures(
            build_plan::<H, E, D, C, P>,
            (intent, name, reading, is_descendant, calculate, predict),
            planned,
        ),
    ensures
        match intent {
            PlanIntent::Submit => submits(reading, name@, calculate, predict, planned),
            PlanIntent::Converge => converges(reading, name@, calculate, predict, planned),
            PlanIntent::Sync => cascades(
                reading,
                name@,
                is_descendant,
                calculate,
                predict,
                planned,
            ),
        },
{
    match intent {
        PlanIntent::Submit => submits_when_built(reading, name@, calculate, predict, planned),
        PlanIntent::Converge => converges_when_built(reading, name@, calculate, predict, planned),
        PlanIntent::Sync => cascades_when_built(
            reading,
            name@,
            is_descendant,
            calculate,
            predict,
            planned,
        ),
    }
}

} // verus!
