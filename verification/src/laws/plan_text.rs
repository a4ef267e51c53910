//! Laws of plans in words.

use crate::engine::{
    snapshot_of, BranchInfo, Intent, Operation, OperationView, RepositoryReading,
    RepositorySnapshot,
};
use crate::laws::plans::{
    converges, converges_when_built, submits, submits_when_built, syncs, syncs_when_built,
};
use crate::plan::{
    converge_request, plan_built, submit_request, sync_request, Plan, PlanError, PlanIntent,
};
use crate::plan_text::{
    op_lines_upto, plan_described, plan_in_words, plan_printed, plan_text, print_converge_plan_to,
    print_plan_to, print_submit_plan_to, print_sync_plan_to, word_of, words_of,
};
use vstd::prelude::*;

verus! {

/// What is predicted of an operation, in words: of a rebase whether it conflicts,
/// of a sync whether the branch can be forwarded, and of any other nothing.
pub open spec fn prediction_of(op: Operation) -> Seq<char> {
    match op {
        Operation::Rebase { predicted_conflict, .. } => match predicted_conflict {
            Some(conflict) => if conflict {
                " [CONFLICT]"@
            } else {
                " [CLEAN]"@
            },
            None => ""@,
        },
        Operation::Sync { predicted_conflict, .. } => match predicted_conflict {
            Some(conflict) => if conflict {
                " [NOT FF]"@
            } else {
                " [FF]"@
            },
            None => ""@,
        },
        Operation::Other { .. } => ""@,
    }
}

/// What a plan is to do, in words.
pub open spec fn purpose_of(intent: PlanIntent) -> Seq<char> {
    match intent {
        PlanIntent::Submit => "submit"@,
        PlanIntent::Sync => "sync"@,
        PlanIntent::Converge => "converge"@,
    }
}

/// The line of one operation.
pub open spec fn line_of(op: Operation, word: Seq<char>) -> Seq<char> {
    "  "@ + word + prediction_of(op) + "\n"@
}

/// Whether `text` is a plan in words: that there is nothing to do where there is
/// nothing, else a heading with what it is to do and to which branch, and then the
/// line of each operation, in their order.
pub open spec fn reads(plan: Plan, words: Seq<Seq<char>>, text: Seq<char>) -> bool {
    if plan.ops@.len() == 0 {
        text == "No operations to perform.\n"@
    } else {
        text == "Plan to "@ + purpose_of(plan.intent) + " "@ + plan.branch@ + ":\n"@ + Seq::new(
            plan.ops@.len(),
            |i: int| line_of(plan.ops@[i], words[i]),
        ).flatten()
    }
}

/// A plan in words is a heading and the lines of its operations.
pub proof fn a_plan_reads_as_its_operations(plan: Plan, words: Vec<String>, text: String)
    requires
        call_ensures(plan_in_words, (&plan, &words), text),
        words@.len() == plan.ops@.len(),
    ensures
        reads(plan, words.deep_view(), text@),
{
    reads_when_told(plan, words.deep_view());
}

proof fn reads_when_told(plan: Plan, words: Seq<Seq<char>>)
    requires
        words.len() == plan.ops@.len(),
    ensures
        reads(plan, words, plan_text(plan@, words)),
{
    let lines = Seq::new(plan.ops@.len(), |i: int| line_of(plan.ops@[i], words[i]));
    let ops = plan.ops.deep_view();
    assert(ops.len() == plan.ops@.len());
    lines_are_flat(plan, words, lines, lines.len());
    assert(lines.take(lines.len() as int) =~= lines);
}

proof fn lines_are_flat(plan: Plan, words: Seq<Seq<char>>, lines: Seq<Seq<char>>, n: nat)
    requires
        words.len() == plan.ops@.len(),
        lines.len() == plan.ops@.len(),
        n <= lines.len(),
        forall|i: int|
            0 <= i < lines.len() ==> #[trigger] lines[i] == line_of(plan.ops@[i], words[i]),
    ensures
        op_lines_upto(plan.ops.deep_view(), words, n) == lines.take(n as int).flatten(),
    decreases n,
{
    let ops = plan.ops.deep_view();
    if n == 0 {
        assert(lines.take(0) =~= Seq::empty());
        assert(lines.take(0).flatten() =~= Seq::empty());
    } else {
        lines_are_flat(plan, words, lines, (n - 1) as nat);
        let first = lines.take(n as int);
        assert(first.drop_last() =~= lines.take(n - 1));
        first.lemma_flatten_and_flatten_alt_are_equivalent();
        first.drop_last().lemma_flatten_and_flatten_alt_are_equivalent();
        assert(first.last() == lines[n - 1]);
        assert(ops[n - 1] == plan.ops@[n - 1]@);
        assert(op_lines_upto(ops, words, n) =~= op_lines_upto(ops, words, (n - 1) as nat)
            + line_of(plan.ops@[n - 1], words[n - 1]));
    }
}

/// A plan without operations says so. Any other has a heading with what it is to
/// do and to which branch, and then a line for each operation, in their order:
/// one operation more adds its line at the end and changes nothing before it.
pub proof fn a_plan_has_a_line_for_each_operation(
    plan: Plan,
    words: Vec<String>,
    text: String,
    longer: Plan,
    more_words: Vec<String>,
    longer_text: String,
)
    requires
        call_ensures(plan_in_words, (&plan, &words), text),
        call_ensures(plan_in_words, (&longer, &more_words), longer_text),
        words@.len() == plan.ops@.len(),
        more_words@.len() == longer.ops@.len(),
        longer.intent == plan.intent,
        longer.branch@ == plan.branch@,
        longer.ops@.len() == plan.ops@.len() + 1,
        forall|i: int| 0 <= i < plan.ops@.len() ==> (#[trigger] longer.ops@[i]) == plan.ops@[i],
        forall|i: int| 0 <= i < words@.len() ==> (#[trigger] more_words@[i]) == words@[i],
    ensures
        plan.ops@.len() == 0 ==> text@ == "No operations to perform.\n"@ && longer_text@
            == "Plan to "@ + purpose_of(plan.intent) + " "@ + plan.branch@ + ":\n"@ + line_of(
            longer.ops@[0],
            more_words@[0]@,
        ),
        plan.ops@.len() > 0 ==> longer_text@ == text@ + line_of(
            longer.ops@.last(),
            more_words@.last()@,
        ),
{
    let n = plan.ops@.len();
    let ops = plan.ops.deep_view();
    let more = longer.ops.deep_view();
    let said = words.deep_view();
    let said_more = more_words.deep_view();
    assert(ops.len() == n && more.len() == n + 1);
    assert forall|i: int| 0 <= i < n implies #[trigger] ops[i] == more[i] by {
        assert(longer.ops@[i] == plan.ops@[i]);
    }
    assert forall|i: int| 0 <= i < n implies #[trigger] said[i] == said_more[i] by {
        assert(more_words@[i] == words@[i]);
    }
    lines_look_back(ops, more, said, said_more, n);
    assert(more[n as int] == longer.ops@[n as int]@);
    assert(said_more[n as int] == more_words@[n as int]@);
    let line = line_of(longer.ops@[n as int], more_words@[n as int]@);
    assert(op_lines_upto(more, said_more, n + 1) =~= op_lines_upto(more, said_more, n) + line);
    assert(longer_text@ =~= "Plan to "@ + purpose_of(plan.intent) + " "@ + plan.branch@ + ":\n"@ + (
    op_lines_upto(more, said_more, n) + line));
    if n == 0 {
        assert(op_lines_upto(more, said_more, 0) + line =~= line);
    } else {
        assert(longer_text@ =~= text@ + line);
    }
}

proof fn lines_look_back(
    ops: Seq<OperationView>,
    more: Seq<OperationView>,
    said: Seq<Seq<char>>,
    said_more: Seq<Seq<char>>,
    n: nat,
)
    requires
        n <= ops.len(),
        n <= more.len(),
        n <= said.len(),
        n <= said_more.len(),
        forall|i: int| 0 <= i < n ==> ops[i] == more[i],
        forall|i: int| 0 <= i < n ==> said[i] == said_more[i],
    ensures
        op_lines_upto(ops, said, n) == op_lines_upto(more, said_more, n),
    decreases n,
{
    if n > 0 {
        lines_look_back(ops, more, said, said_more, (n - 1) as nat);
        assert(ops[n - 1] == more[n - 1]);
        assert(said[n - 1] == said_more[n - 1]);
    }
}

/// Whether a word is given for an operation.
pub open spec fn word_for<W>(op: Operation, describe: W, word: Seq<char>) -> bool where
    W: Fn(&Operation) -> String,
 {
    exists|said: String| #[trigger] call_ensures(describe, (&op,), said) && said@ == word
}

/// Whether a plan is told with the words that are given for each of its
/// operations.
pub open spec fn told_with<W>(plan: Plan, describe: W, text: Seq<char>) -> bool where
    W: Fn(&Operation) -> String,
 {
    exists|words: Seq<Seq<char>>| #[trigger]
        reads(plan, words, text) && words.len() == plan.ops@.len() && (forall|i: int|
            0 <= i < words.len() ==> word_for(plan.ops@[i], describe, #[trigger] words[i]))
}

proof fn told_when_described<W>(plan: Plan, describe: W, text: Seq<char>) where
    W: Fn(&Operation) -> String,

    requires
        plan_described(plan, describe, text),
    ensures
        told_with(plan, describe, text),
{
    let words = choose|words: Seq<Seq<char>>| #[trigger]
        words_of(plan.ops@, describe, words) && text == plan_text(plan@, words);
    assert forall|i: int| 0 <= i < words.len() implies word_for(
        plan.ops@[i],
        describe,
        #[trigger] words[i],
    ) by {
        assert(word_of(plan.ops@[i], describe, words[i]));
    }
    reads_when_told(plan, words);
    assert(reads(plan, words, text));
}

/// A plan is told with the words that are given for each of its operations.
pub proof fn a_plan_is_told_in_the_words_for_its_operations<W>(
    plan: Plan,
    describe: W,
    text: String,
) where W: Fn(&Operation) -> String
    requires
        call_ensures(print_plan_to::<W>, (&plan, &describe), text),
    ensures
        told_with(plan, describe, text@),
{
    told_when_described(plan, describe, text@);
}

/// Whether what is printed is the plan that was made, or the error that came in
/// its place.
pub open spec fn printed_as<E, W>(
    planned: Result<Plan, PlanError<E>>,
    describe: W,
    printed: Result<String, PlanError<E>>,
) -> bool where W: Fn(&Operation) -> String {
    match planned {
        Err(e) => printed == Err::<String, PlanError<E>>(e),
        Ok(plan) => printed matches Ok(text) && told_with(plan, describe, text@),
    }
}

proof fn printed_when_planned<E, W>(
    planned: Result<Plan, PlanError<E>>,
    describe: W,
    printed: Result<String, PlanError<E>>,
) where W: Fn(&Operation) -> String
    requires
        plan_printed(planned, describe, printed),
    ensures
        printed_as(planned, describe, printed),
{
    if let Ok(plan) = planned {
        told_when_described(plan, describe, printed->Ok_0@);
    }
}

/// What is printed of a plan to submit a branch is the plan that comes of it.
pub proof fn a_plan_to_submit_is_printed<H, E, C, P, W>(
    reading: RepositoryReading<H>,
    name: &str,
    calculate: C,
    predict: P,
    describe: W,
    printed: Result<String, PlanError<E>>,
) where
    C: FnOnce(&RepositorySnapshot<H>, &Vec<Intent>) -> Result<Vec<Operation>, E>,
    P: FnOnce(Vec<Operation>, &Vec<BranchInfo>) -> Vec<Operation>,
    W: Fn(&Operation) -> String,

    requires
        call_ensures(
            print_submit_plan_to::<H, E, C, P, W>,
            (reading, name, calculate, predict, &describe),
            printed,
        ),
    ensures
        exists|planned: Result<Plan, PlanError<E>>| #[trigger]
            submits(reading, name@, calculate, predict, planned) && printed_as(
                planned,
                describe,
                printed,
            ),
{
    let planned = choose|planned: Result<Plan, PlanError<E>>| #[trigger]
        plan_built(
            PlanIntent::Submit,
            name@,
            snapshot_of(reading),
            submit_request(reading.branches.deep_view(), name@),
            calculate,
            predict,
            planned,
        ) && plan_printed(planned, describe, printed);
    submits_when_built(reading, name@, calculate, predict, planned);
    printed_when_planned(planned, describe, printed);
}

/// What is printed of a plan to sync a branch is the plan that comes of it.
pub proof fn a_plan_to_sync_is_printed<H, E, C, P, W>(
    reading: RepositoryReading<H>,
    name: &str,
    calculate: C,
    predict: P,
    describe: W,
    printed: Result<String, PlanError<E>>,
) where
    C: FnOnce(&RepositorySnapshot<H>, &Vec<Intent>) -> Result<Vec<Operation>, E>,
    P: FnOnce(Vec<Operation>, &Vec<BranchInfo>) -> Vec<Operation>,
    W: Fn(&Operation) -> String,

    requires
        call_ensures(
            print_sync_plan_to::<H, E, C, P, W>,
            (reading, name, calculate, predict, &describe),
            printed,
        ),
    ensures
        exists|planned: Result<Plan, PlanError<E>>| #[trigger]
            syncs(reading, name@, calculate, predict, planned) && printed_as(
                planned,
                describe,
                printed,
            ),
{
    let planned = choose|planned: Result<Plan, PlanError<E>>| #[trigger]
        plan_built(
            PlanIntent::Sync,
            name@,
            snapshot_of(reading),
            sync_request(reading.branches.deep_view(), name@),
            calculate,
            predict,
            planned,
        ) && plan_printed(planned, describe, printed);
    syncs_when_built(reading, name@, calculate, predict, planned);
    printed_when_planned(planned, describe, printed);
}

/// What is printed of a plan to converge a branch is the plan that comes of it.
pub proof fn a_plan_to_converge_is_printed<H, E, C, P, W>(
    reading: RepositoryReading<H>,
    name: &str,
    calculate: C,
    predict: P,
    describe: W,
    printed: Result<String, PlanError<E>>,
) where
    C: FnOnce(&RepositorySnapshot<H>, &Vec<Intent>) -> Result<Vec<Operation>, E>,
    P: FnOnce(Vec<Operation>, &Vec<BranchInfo>) -> Vec<Operation>,
    W: Fn(&Operation) -> String,

    requires
        call_ensures(
            print_converge_plan_to::<H, E, C, P, W>,
            (reading, name, calculate, predict, &describe),
            printed,
        ),
    ensures
        exists|planned: Result<Plan, PlanError<E>>| #[trigger]
            converges(reading, name@, calculate, predict, planned) && printed_as(
                planned,
                describe,
                printed,
            ),
{
    let planned = choose|planned: Result<Plan, PlanError<E>>| #[trigger]
        plan_built(
            PlanIntent::Converge,
            name@,
            snapshot_of(reading),
            converge_request(reading.branches.deep_view(), name@),
            calculate,
            predict,
            planned,
        ) && plan_printed(planned, describe, printed);
    converges_when_built(reading, name@, calculate, predict, planned);
    printed_when_planned(planned, describe, printed);
}

} // verus!
