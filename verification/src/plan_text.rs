//! Plans in words.

use crate::engine::{
    snapshot_of, BranchInfo, Intent, Operation, OperationView, RepositoryReading,
    RepositorySnapshot,
};
use crate::plan::{
    accepts_operations, accepts_requests, build_converge_plan, build_submit_plan,
    build_sync_plan, converge_request, plan_built, submit_request, sync_request, Plan, PlanError,
    PlanIntent, PlanView,
};
use vstd::prelude::*;

verus! {

/// The verb of an intent.
pub open spec fn verb(intent: PlanIntent) -> Seq<char> {
    match intent {
        PlanIntent::Submit => "submit"@,
        PlanIntent::Sync => "sync"@,
        PlanIntent::Converge => "converge"@,
    }
}

/// What is predicted of an operation, as it is shown behind it.
pub open spec fn prediction_label(op: OperationView) -> Seq<char> {
    match op {
        OperationView::Rebase { predicted_conflict: Some(true), .. } => " [CONFLICT]"@,
        OperationView::Sync { predicted_conflict: Some(true), .. } => " [NOT FF]"@,
        OperationView::Rebase { predicted_conflict: Some(false), .. } => " [CLEAN]"@,
        OperationView::Sync { predicted_conflict: Some(false), .. } => " [FF]"@,
        _ => ""@,
    }
}

/// The lines of the first `n` operations, given the words for each.
pub open spec fn op_lines_upto(
    ops: Seq<OperationView>,
    words: Seq<Seq<char>>,
    n: nat,
) -> Seq<char>
    decreases n,
{
    if n == 0 {
        Seq::empty()
    } else {
        op_lines_upto(ops, words, (n - 1) as nat) + "  "@ + words[n - 1] + prediction_label(
            ops[n - 1],
        ) + "\n"@
    }
}

/// A plan in words, given the words for each of its operations.
pub open spec fn plan_text(plan: PlanView, words: Seq<Seq<char>>) -> Seq<char> {
    if plan.ops.len() == 0 {
        "No operations to perform.\n"@
    } else {
        "Plan to "@ + verb(plan.intent) + " "@ + plan.branch + ":\n"@ + op_lines_upto(
            plan.ops,
            words,
            plan.ops.len(),
        )
    }
}

/// Whether `text` is the plan in words, with the words of `describe` for its
/// operations.
pub open spec fn plan_described<W>(plan: Plan, describe: W, text: Seq<char>) -> bool where
    W: Fn(&Operation) -> String,
 {
    exists|words: Seq<Seq<char>>| #[trigger]
        words_of(plan.ops@, describe, words) && text == plan_text(plan@, words)
}

/// Whether `words` are the words of `describe` for `ops`.
pub open spec fn words_of<W>(ops: Seq<Operation>, describe: W, words: Seq<Seq<char>>) -> bool where
    W: Fn(&Operation) -> String,
 {
    &&& words.len() == ops.len()
    &&& forall|i: int|
        0 <= i < ops.len() ==> word_of(ops[i], describe, #[trigger] words[i])
}

/// Whether `word` is a word of `describe` for `op`.
pub open spec fn word_of<W>(op: Operation, describe: W, word: Seq<char>) -> bool where
    W: Fn(&Operation) -> String,
 {
    exists|said: String| #[trigger] call_ensures(describe, (&op,), said) && said@ == word
}

fn verb_str(intent: PlanIntent) -> (s: &'static str)
    ensures
        s@ == verb(intent),
{
    match intent {
        PlanIntent::Submit => "submit",
        PlanIntent::Sync => "sync",
        PlanIntent::Converge => "converge",
    }
}

fn label_str(op: &Operation) -> (s: &'static str)
    ensures
        s@ == prediction_label(op@),
{
    match op {
        Operation::Rebase { predicted_conflict: Some(true), .. } => " [CONFLICT]",
        Operation::Sync { predicted_conflict: Some(true), .. } => " [NOT FF]",
        Operation::Rebase { predicted_conflict: Some(false), .. } => " [CLEAN]",
        Operation::Sync { predicted_conflict: Some(false), .. } => " [FF]",
        _ => "",
    }
}

/// The plan in words: a heading and a line for each operation with what is
/// predicted of it, or one line where there is nothing to do. The words for the
/// operations themselves are the engine's.
pub fn print_plan_to<W>(plan: &Plan, describe: &W) -> (text: String) where
    W: Fn(&Operation) -> String,

    requires
        forall|op: Operation| #[trigger] call_requires(*describe, (&op,)),
    ensures
        plan_described(*plan, *describe, text@),
{
    let mut words: Vec<String> = Vec::new();
    let mut i: usize = 0;
    while i < plan.ops.len()
        invariant
            i <= plan.ops.len(),
            words.len() == i,
            forall|op: Operation| #[trigger] call_requires(*describe, (&op,)),
            forall|j: int|
                0 <= j < i ==> #[trigger] call_ensures(*describe, (&plan.ops@[j],), words@[j]),
        decreases plan.ops.len() - i,
    {
        let said = describe(&plan.ops[i]);
        words.push(said);
        i = i + 1;
    }
    assert(words_of(plan.ops@, *describe, words.deep_view())) by {
        assert forall|j: int| 0 <= j < plan.ops@.len() implies word_of(
            plan.ops@[j],
            *describe,
            #[trigger] words.deep_view()[j],
        ) by {
            assert(call_ensures(*describe, (&plan.ops@[j],), words@[j]));
        }
    }
    plan_in_words(plan, &words)
}

/// The plan in words, given the words for each of its operations.
pub fn plan_in_words(plan: &Plan, words: &Vec<String>) -> (text: String)
    requires
        words.len() == plan.ops.len(),
    ensures
        text@ == plan_text(plan@, words.deep_view()),
{
    if plan.ops.len() == 0 {
        return "No operations to perform.\n".to_owned();
    }
    let mut text = "Plan to ".to_owned();
    text.append(verb_str(plan.intent));
    text.append(" ");
    text.append(plan.branch.as_str());
    text.append(":\n");
    let ghost heading = text@;
    let ghost ops = plan.ops.deep_view();
    let ghost said = words.deep_view();
    assert(heading + op_lines_upto(ops, said, 0) =~= heading);
    let mut i: usize = 0;
    while i < plan.ops.len()
        invariant
            i <= plan.ops.len(),
            words.len() == plan.ops.len(),
            ops == plan.ops.deep_view(),
            said == words.deep_view(),
            text@ == heading + op_lines_upto(ops, said, i as nat),
        decreases plan.ops.len() - i,
    {
        assert(ops[i as int] == plan.ops[i as int]@);
        assert(said[i as int] == words[i as int]@);
        text.append("  ");
        text.append(words[i].as_str());
        text.append(label_str(&plan.ops[i]));
        text.append("\n");
        i = i + 1;
        assert(text@ =~= heading + op_lines_upto(ops, said, i as nat));
    }
    text
}

/// Whether `printed` is the plan in words, or the error that there is in its
/// place.
pub open spec fn plan_printed<E, W>(
    planned: Result<Plan, PlanError<E>>,
    describe: W,
    printed: Result<String, PlanError<E>>,
) -> bool where W: Fn(&Operation) -> String {
    match planned {
        Err(e) => printed == Err::<String, PlanError<E>>(e),
        Ok(plan) => printed matches Ok(text) && plan_described(plan, describe, text@),
    }
}

fn print_planned<E, W>(planned: Result<Plan, PlanError<E>>, describe: &W) -> (printed: Result<
    String,
    PlanError<E>,
>) where W: Fn(&Operation) -> String
    requires
        forall|op: Operation| #[trigger] call_requires(*describe, (&op,)),
    ensures
        plan_printed(planned, *describe, printed),
{
    match planned {
        Err(e) => Err(e),
        Ok(plan) => Ok(print_plan_to(&plan, describe)),
    }
}

/// The plan to submit a branch, in words.
pub fn print_submit_plan_to<H, E, C, P, W>(
    reading: RepositoryReading<H>,
    branch_name: &str,
    calculate: C,
    predict: P,
    describe: &W,
) -> (printed: Result<String, PlanError<E>>) where
    C: FnOnce(&RepositorySnapshot<H>, &Vec<Intent>) -> Result<Vec<Operation>, E>,
    P: FnOnce(Vec<Operation>, &Vec<BranchInfo>) -> Vec<Operation>,
    W: Fn(&Operation) -> String,

    requires
        accepts_requests(calculate),
        accepts_operations(predict),
        forall|op: Operation| #[trigger] call_requires(*describe, (&op,)),
    ensures
        exists|planned: Result<Plan, PlanError<E>>| #[trigger]
            plan_built(
                PlanIntent::Submit,
                branch_name@,
                snapshot_of(reading),
                submit_request(reading.branches.deep_view(), branch_name@),
                calculate,
                predict,
                planned,
            ) && plan_printed(planned, *describe, printed),
{
    let planned = build_submit_plan(reading, branch_name, calculate, predict);
    print_planned(planned, describe)
}

/// The plan to sync a branch, in words.
pub fn print_sync_plan_to<H, E, C, P, W>(
    reading: RepositoryReading<H>,
    branch_name: &str,
    calculate: C,
    predict: P,
    describe: &W,
) -> (printed: Result<String, PlanError<E>>) where
    C: FnOnce(&RepositorySnapshot<H>, &Vec<Intent>) -> Result<Vec<Operation>, E>,
    P: FnOnce(Vec<Operation>, &Vec<BranchInfo>) -> Vec<Operation>,
    W: Fn(&Operation) -> String,

    requires
        accepts_requests(calculate),
        accepts_operations(predict),
        forall|op: Operation| #[trigger] call_requires(*describe, (&op,)),
    ensures
        exists|planned: Result<Plan, PlanError<E>>| #[trigger]
            plan_built(
                PlanIntent::Sync,
                branch_name@,
                snapshot_of(reading),
                sync_request(reading.branches.deep_view(), branch_name@),
                calculate,
                predict,
                planned,
            ) && plan_printed(planned, *describe, printed),
{
    let planned = build_sync_plan(reading, branch_name, calculate, predict);
    print_planned(planned, describe)
}

/// The plan to converge a branch, in words.
pub fn print_converge_plan_to<H, E, C, P, W>(
    reading: RepositoryReading<H>,
    branch_name: &str,
    calculate: C,
    predict: P,
    describe: &W,
) -> (printed: Result<String, PlanError<E>>) where
    C: FnOnce(&RepositorySnapshot<H>, &Vec<Intent>) -> Result<Vec<Operation>, E>,
    P: FnOnce(Vec<Operation>, &Vec<BranchInfo>) -> Vec<Operation>,
    W: Fn(&Operation) -> String,

    requires
        accepts_requests(calculate),
        accepts_operations(predict),
        forall|op: Operation| #[trigger] call_requires(*describe, (&op,)),
    ensures
        exists|planned: Result<Plan, PlanError<E>>| #[trigger]
            plan_built(
                PlanIntent::Converge,
                branch_name@,
                snapshot_of(reading),
                converge_request(reading.branches.deep_view(), branch_name@),
                calculate,
                predict,
                planned,
            ) && plan_printed(planned, *describe, printed),
{
    let planned = build_converge_plan(reading, branch_name, calculate, predict);
    print_planned(planned, describe)
}

/// A plan is told as having nothing to do exactly where it has nothing to do.
pub proof fn nothing_to_do_is_told(plan: PlanView, words: Seq<Seq<char>>)
    ensures
        plan_text(plan, words) == "No operations to perform.\n"@ <==> plan.ops.len() == 0,
{
    if plan.ops.len() > 0 {
        reveal_strlit("No operations to perform.\n");
        reveal_strlit("Plan to ");
        assert(plan_text(plan, words)[0] == "Plan to "@[0]);
        assert("Plan to "@[0] != "No operations to perform.\n"@[0]);
    }
}

} // verus!
