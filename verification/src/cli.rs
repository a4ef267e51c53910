//! The command line: what a run of the program is asked to do, what it tells,
//! and how it ends.

use crate::apply::{
    applied_to, at_end, ops_executed, plan_applied, refusal_result, results_name_their_branch,
    Attempt, OpResult, OpResultView,
};
use crate::cascade::{build_cascade_plan, cascade_built};
use crate::engine::{
    snapshot_of, BranchInfo, Intent, Operation, OperationView, RepositoryReading,
    RepositorySnapshot,
};
use crate::plan::{
    accepts_operations, accepts_requests, build_converge_plan, build_submit_plan,
    converge_request, plan_built, submit_request, Plan, PlanError, PlanIntent,
};
use crate::status::RepoStatus;
use crate::text::{decimal, push_decimal, within, within_behind, within_goes_on};
use vstd::prelude::*;

verus! {

/// The `git` program that is run: the configured one, or the one that the search
/// path gives.
pub open spec fn git_program(configured: Option<Seq<char>>) -> Seq<char> {
    match configured {
        Some(path) => path,
        None => "git"@,
    }
}

/// The `git` program to run, given what the variable `GITUI_GIT_BIN` holds.
/// `None` stands for a variable that is not set, or does not hold text.
pub fn git_bin(configured: Option<String>) -> (program: String)
    ensures
        program@ == git_program(configured.deep_view()),
{
    match configured {
        Some(path) => path,
        None => "git".to_owned(),
    }
}

/// What the program is asked on its command line.
#[derive(Debug, Clone)]
pub struct Options {
    /// Print the tree.
    pub tree: bool,
    /// Show remote branches in the tree.
    pub all: bool,
    /// Plan to submit this branch.
    pub submit: Option<String>,
    /// Plan to converge this branch.
    pub converge: Option<String>,
    /// Plan to sync this branch.
    pub sync: Option<String>,
    /// Rebase: a branch, where it goes, and perhaps where its commits begin.
    pub rebase: Option<Vec<String>>,
    /// Report the state of the repository.
    pub status: bool,
    /// Carry the plan out.
    pub apply: bool,
}

/// What a run of the program does.
#[derive(Debug, Clone)]
pub enum Action {
    /// Carry one operation out.
    Execute(Operation),
    /// Report the state of the repository.
    Status,
    /// Make a plan and show it, or carry it out.
    Plan { intent: PlanIntent, branch: String, apply: bool },
    /// Print the tree.
    Tree { show_remote: bool },
    /// Open the screen.
    Interactive,
}

/// What an [`Action`] says.
pub enum ActionView {
    Execute(OperationView),
    Status,
    Plan { intent: PlanIntent, branch: Seq<char>, apply: bool },
    Tree { show_remote: bool },
    Interactive,
}

impl View for Action {
    type V = ActionView;

    open spec fn view(&self) -> ActionView {
        match *self {
            Action::Execute(op) => ActionView::Execute(op@),
            Action::Status => ActionView::Status,
            Action::Plan { intent, branch, apply } => ActionView::Plan {
                intent,
                branch: branch@,
                apply,
            },
            Action::Tree { show_remote } => ActionView::Tree { show_remote },
            Action::Interactive => ActionView::Interactive,
        }
    }
}

/// The rebase that is asked for in words.
pub open spec fn rebase_op(words: Seq<Seq<char>>) -> OperationView {
    OperationView::Rebase {
        branch: words[0],
        onto: words[1],
        upstream: if words.len() > 2 {
            Some(words[2])
        } else {
            None
        },
        predicted_conflict: None,
    }
}

/// What a run does under the given options. Of several requests one is heard: a
/// rebase first, the state next, then submit, converge, sync and the tree.
/// Converging is never carried out, only planned.
pub open spec fn chosen(options: Options) -> ActionView {
    if options.rebase is Some {
        ActionView::Execute(rebase_op(options.rebase->0.deep_view()))
    } else if options.status {
        ActionView::Status
    } else if options.submit is Some {
        ActionView::Plan {
            intent: PlanIntent::Submit,
            branch: options.submit->0@,
            apply: options.apply,
        }
    } else if options.converge is Some {
        ActionView::Plan {
            intent: PlanIntent::Converge,
            branch: options.converge->0@,
            apply: false,
        }
    } else if options.sync is Some {
        ActionView::Plan {
            intent: PlanIntent::Sync,
            branch: options.sync->0@,
            apply: options.apply,
        }
    } else if options.tree {
        ActionView::Tree { show_remote: options.all }
    } else {
        ActionView::Interactive
    }
}

/// Chooses what to do under the given options.
pub fn choose_action(options: Options) -> (action: Action)
    requires
        options.rebase is Some ==> options.rebase->0.len() >= 2,
    ensures
        action@ == chosen(options),
{
    if let Some(words) = options.rebase {
        let ghost views = words.deep_view();
        assert(views[0] == words[0]@);
        assert(views[1] == words[1]@);
        let upstream = if words.len() > 2 {
            assert(views[2] == words[2]@);
            Some(words[2].clone())
        } else {
            None
        };
        return Action::Execute(
            Operation::Rebase {
                branch: words[0].clone(),
                onto: words[1].clone(),
                upstream,
                predicted_conflict: None,
            },
        );
    }
    if options.status {
        return Action::Status;
    }
    if let Some(branch) = options.submit {
        return Action::Plan { intent: PlanIntent::Submit, branch, apply: options.apply };
    }
    if let Some(branch) = options.converge {
        return Action::Plan { intent: PlanIntent::Converge, branch, apply: false };
    }
    if let Some(branch) = options.sync {
        return Action::Plan { intent: PlanIntent::Sync, branch, apply: options.apply };
    }
    if options.tree {
        return Action::Tree { show_remote: options.all };
    }
    Action::Interactive
}

/// Whether `planned` is the plan that a run makes for an intent: to sync is to
/// plan a cascade.
pub open spec fn planned_for<H, E, D, C, P>(
    intent: PlanIntent,
    branch: Seq<char>,
    reading: RepositoryReading<H>,
    is_descendant: D,
    calculate: C,
    predict: P,
    planned: Result<Plan, PlanError<E>>,
) -> bool where
    D: Fn(&String, &String) -> Result<bool, E>,
    C: FnOnce(&RepositorySnapshot<H>, &Vec<Intent>) -> Result<Vec<Operation>, E>,
    P: FnOnce(Vec<Operation>, &Vec<BranchInfo>) -> Vec<Operation>,
 {
    match intent {
        PlanIntent::Submit => plan_built(
            PlanIntent::Submit,
            branch,
            snapshot_of(reading),
            submit_request(reading.branches.deep_view(), branch),
            calculate,
            predict,
            planned,
        ),
        PlanIntent::Converge => plan_built(
            PlanIntent::Converge,
            branch,
            snapshot_of(reading),
            converge_request(reading.branches.deep_view(), branch),
            calculate,
            predict,
            planned,
        ),
        PlanIntent::Sync => cascade_built(
            reading,
            branch,
            is_descendant,
            calculate,
            predict,
            planned,
        ),
    }
}

/// The plan that a run makes for an intent. It is the same whether it is then
/// shown or carried out, so that what is shown is what would be done.
pub fn build_plan<H, E, D, C, P>(
    intent: PlanIntent,
    branch_name: &str,
    reading: RepositoryReading<H>,
    is_descendant: D,
    calculate: C,
    predict: P,
) -> (planned: Result<Plan, PlanError<E>>) where
    D: Fn(&String, &String) -> Result<bool, E>,
    C: FnOnce(&RepositorySnapshot<H>, &Vec<Intent>) -> Result<Vec<Operation>, E>,
    P: FnOnce(Vec<Operation>, &Vec<BranchInfo>) -> Vec<Operation>,

    requires
        forall|parent: String, tip: String| #[trigger]
            call_requires(is_descendant, (&parent, &tip)),
        accepts_requests(calculate),
        accepts_operations(predict),
    ensures
        planned_for(
            intent,
            branch_name@,
            reading,
            is_descendant,
            calculate,
            predict,
            planned,
        ),
{
    match intent {
        PlanIntent::Submit => build_submit_plan(reading, branch_name, calculate, predict),
        PlanIntent::Converge => build_converge_plan(reading, branch_name, calculate, predict),
        PlanIntent::Sync => {
            build_cascade_plan(reading, branch_name, is_descendant, calculate, predict)
        },
    }
}

/// The first `n` of `items`, each on a line of its own behind `mark`.
pub open spec fn listed_upto(mark: Seq<char>, items: Seq<Seq<char>>, n: nat) -> Seq<char>
    decreases n,
{
    if n == 0 {
        Seq::empty()
    } else {
        listed_upto(mark, items, (n - 1) as nat) + mark + items[n - 1] + "\n"@
    }
}

/// All `items`, each on a line of its own behind `mark`.
pub open spec fn listed(mark: Seq<char>, items: Seq<Seq<char>>) -> Seq<char> {
    listed_upto(mark, items, items.len())
}

fn push_listed(out: &mut String, mark: &str, items: &Vec<String>)
    ensures
        final(out)@ == old(out)@ + listed(mark@, items.deep_view()),
{
    let ghost start = out@;
    let ghost all = items.deep_view();
    assert(start + listed_upto(mark@, all, 0) =~= start);
    let mut i: usize = 0;
    while i < items.len()
        invariant
            i <= items.len(),
            all == items.deep_view(),
            out@ == start + listed_upto(mark@, all, i as nat),
        decreases items.len() - i,
    {
        assert(all[i as int] == items[i as int]@);
        out.append(mark);
        out.append(items[i].as_str());
        out.append("\n");
        i = i + 1;
        assert(out@ =~= start + listed_upto(mark@, all, i as nat));
    }
}

/// The warning about branches that a cascade skips. There is none where none
/// is skipped.
pub open spec fn skipped_warning(skipped: Seq<Seq<char>>) -> Seq<char> {
    if skipped.len() == 0 {
        Seq::empty()
    } else {
        "warning: "@ + decimal(skipped.len())
            + " branch(es) skipped from cascade — no detectable parent:\n"@ + listed(
            "  - "@,
            skipped,
        ) + "run `gitui --converge BRANCH` to anchor manually.\n"@
    }
}

/// The warning about branches that a cascade skips. It is empty where none is
/// skipped.
pub fn warn_skipped(skipped: &Vec<String>) -> (warning: String)
    ensures
        warning@ == skipped_warning(skipped.deep_view()),
{
    if skipped.len() == 0 {
        let none = String::new();
        assert(none@ =~= Seq::empty());
        return none;
    }
    let mut warning = "warning: ".to_owned();
    push_decimal(&mut warning, skipped.len() as u64);
    warning.append(" branch(es) skipped from cascade — no detectable parent:\n");
    push_listed(&mut warning, "  - ", skipped);
    warning.append("run `gitui --converge BRANCH` to anchor manually.\n");
    warning
}

/// What is told of one result.
pub open spec fn result_text(result: OpResultView) -> Seq<char> {
    match result {
        OpResultView::Done { branch } => "  "@ + branch + " ok\n"@,
        OpResultView::Conflict { branch, conflicted_paths, rebase_in_progress } => "  "@ + branch
            + " CONFLICT\n"@ + listed("    - "@, conflicted_paths) + (if rebase_in_progress {
            "  rebase in progress on "@ + branch
                + "; resolve and re-run `--apply` to continue\n"@
        } else {
            Seq::empty()
        }),
        OpResultView::Error { branch, message } => "  "@ + branch + " ERROR: "@ + message + "\n"@,
    }
}

/// What is told of the first `n` results.
pub open spec fn results_upto(results: Seq<OpResultView>, n: nat) -> Seq<char>
    decreases n,
{
    if n == 0 {
        Seq::empty()
    } else {
        results_upto(results, (n - 1) as nat) + result_text(results[n - 1])
    }
}

fn push_result(out: &mut String, result: &OpResult)
    ensures
        final(out)@ == old(out)@ + result_text(result@),
{
    let ghost start = out@;
    out.append("  ");
    match result {
        OpResult::Done { branch } => {
            out.append(branch.as_str());
            out.append(" ok\n");
        },
        OpResult::Conflict { branch, conflicted_paths, rebase_in_progress } => {
            out.append(branch.as_str());
            out.append(" CONFLICT\n");
            push_listed(out, "    - ", conflicted_paths);
            if *rebase_in_progress {
                out.append("  rebase in progress on ");
                out.append(branch.as_str());
                out.append("; resolve and re-run `--apply` to continue\n");
            }
        },
        OpResult::Error { branch, message } => {
            out.append(branch.as_str());
            out.append(" ERROR: ");
            out.append(message.as_str());
            out.append("\n");
        },
    }
    assert(out@ =~= start + result_text(result@));
}

/// What is told of the results of a plan, each on lines of its own.
pub fn print_op_results(results: &Vec<OpResult>) -> (text: String)
    ensures
        text@ == results_upto(results.deep_view(), results.len() as nat),
{
    let ghost all = results.deep_view();
    let mut text = String::new();
    assert(text@ =~= results_upto(all, 0));
    let mut i: usize = 0;
    while i < results.len()
        invariant
            i <= results.len(),
            all == results.deep_view(),
            text@ == results_upto(all, i as nat),
        decreases results.len() - i,
    {
        assert(all[i as int] == results[i as int]@);
        push_result(&mut text, &results[i]);
        i = i + 1;
    }
    text
}

/// What is told of a plan that was carried out: a heading, then the results.
pub open spec fn applied_text(
    intent: PlanIntent,
    branch: Seq<char>,
    results: Seq<OpResultView>,
) -> Seq<char> {
    (if intent is Submit {
        "Submitting "@
    } else {
        "Applying plan for "@
    }) + branch + ":\n"@ + results_upto(results, results.len())
}

/// What is told of a plan that was carried out.
pub fn report_applied(plan: &Plan, results: &Vec<OpResult>) -> (text: String)
    ensures
        text@ == applied_text(plan.intent, plan.branch@, results.deep_view()),
{
    let mut text = (match plan.intent {
        PlanIntent::Submit => "Submitting ",
        _ => "Applying plan for ",
    }).to_owned();
    text.append(plan.branch.as_str());
    text.append(":\n");
    text.append(print_op_results(results).as_str());
    text
}

/// Whether all results are of operations that were carried out.
pub open spec fn all_done(results: Seq<OpResultView>) -> bool {
    forall|i: int| 0 <= i < results.len() ==> (#[trigger] results[i]) is Done
}

/// How a run ends that carried a plan out: with zero where all was done, else
/// with one.
pub fn exit_code(results: &Vec<OpResult>) -> (code: i32)
    ensures
        code == (if all_done(results.deep_view()) {
            0i32
        } else {
            1i32
        }),
{
    let ghost all = results.deep_view();
    let mut i: usize = 0;
    while i < results.len()
        invariant
            i <= results.len(),
            all == results.deep_view(),
            forall|j: int| 0 <= j < i ==> (#[trigger] all[j]) is Done,
        decreases results.len() - i,
    {
        assert(all[i as int] == results[i as int]@);
        if !results[i].is_done() {
            return 1;
        }
        i = i + 1;
    }
    0
}

/// Whether a plan is carried out or only shown makes no difference to what is
/// planned: the intent and the branch are the same.
pub proof fn preview_and_apply_plan_alike(options: Options)
    requires
        chosen(options) is Plan,
    ensures
        ({
            let other = Options { apply: !options.apply, ..options };
            &&& chosen(other) is Plan
            &&& chosen(other)->intent == chosen(options)->intent
            &&& chosen(other)->branch == chosen(options)->branch
        }),
{
}

/// A run that carries a plan out ends with zero only if every operation of the
/// plan was carried out: neither a halt nor a refusal passes for success.
pub proof fn zero_means_all_was_done<R, E, X, S>(
    ops: Seq<Operation>,
    repo: R,
    attempt: X,
    status: S,
    after: R,
    results: Vec<OpResult>,
) where X: Fn(R, &Operation) -> (R, Attempt<E>), S: Fn(R) -> (R, Result<RepoStatus, E>)
    requires
        plan_applied(ops, repo, attempt, status, after, Ok::<Vec<OpResult>, E>(results)),
        all_done(results.deep_view()),
    ensures
        results@.len() == ops.len(),
        forall|i: int|
            0 <= i < ops.len() ==> (#[trigger] results@[i])@ == (OpResultView::Done {
                branch: ops[i]@.target(),
            }),
{
    let (seen, found) = choose|seen: R, found: Result<RepoStatus, E>| #[trigger]
        call_ensures(status, (repo,), (seen, found)) && applied_to(
            found,
            ops,
            seen,
            attempt,
            status,
            after,
            Ok::<Vec<OpResult>, E>(results),
        );
    assert forall|i: int| 0 <= i < results@.len() implies (#[trigger] results@[i])@ is Done by {
        assert(results.deep_view()[i] is Done);
    }
    if let Some(refused) = refusal_result(found->Ok_0@) {
        assert(results.deep_view()[0] == refused);
    }
    let repos = choose|repos: Seq<R>| #[trigger]
        ops_executed::<R, E, X, S>(ops, repos, attempt, status, results@) && repos[0] == seen
            && repos.last() == after && at_end(ops, results@);
    assert forall|i: int| 0 <= i < ops.len() implies (#[trigger] results@[i])@
        == (OpResultView::Done { branch: ops[i]@.target() }) by {
        results_name_their_branch::<R, E, X, S>(
            ops[i],
            repos[i],
            attempt,
            status,
            repos[i + 1],
            results@[i],
        );
    }
}

/// What is listed stands on its line behind the mark.
proof fn listed_item_stands(mark: Seq<char>, items: Seq<Seq<char>>, i: int, n: nat)
    requires
        0 <= i < n <= items.len(),
    ensures
        within(listed_upto(mark, items, n), mark + items[i] + "\n"@),
    decreases n,
{
    let before = listed_upto(mark, items, (n - 1) as nat);
    let line = mark + items[n - 1] + "\n"@;
    assert(listed_upto(mark, items, n) =~= before + line);
    if i == n - 1 {
        assert(before + line =~= before + line + Seq::empty());
    } else {
        listed_item_stands(mark, items, i, (n - 1) as nat);
        within_goes_on(before, mark + items[i] + "\n"@, line);
    }
}

/// Every branch that is skipped is named in the warning, on a line of its own.
pub proof fn every_skipped_branch_is_told(skipped: Seq<Seq<char>>, i: int)
    requires
        0 <= i < skipped.len(),
    ensures
        within(skipped_warning(skipped), "  - "@ + skipped[i] + "\n"@),
{
    let line = "  - "@ + skipped[i] + "\n"@;
    let heading = "warning: "@ + decimal(skipped.len())
        + " branch(es) skipped from cascade — no detectable parent:\n"@;
    let list = listed("  - "@, skipped);
    listed_item_stands("  - "@, skipped, i, skipped.len());
    within_behind(heading, list, line);
    within_goes_on(heading + list, line, "run `gitui --converge BRANCH` to anchor manually.\n"@);
}

/// Whatever came of an operation, its branch is named at the head of a line.
pub proof fn every_result_is_told(results: Seq<OpResultView>, i: int, n: nat)
    requires
        0 <= i < n <= results.len(),
    ensures
        within(results_upto(results, n), "  "@ + results[i].branch()),
    decreases n,
{
    let before = results_upto(results, (n - 1) as nat);
    let text = result_text(results[n - 1]);
    let part = "  "@ + results[i].branch();
    if i == n - 1 {
        let rest = text.skip(part.len() as int);
        assert(text =~= part + rest);
        assert(before + text =~= before + part + rest);
    } else {
        every_result_is_told(results, i, (n - 1) as nat);
        within_goes_on(before, part, text);
    }
}

} // verus!
