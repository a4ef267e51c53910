//! Plans, their words, and what is made of the engine's answers.

use gitui::apply::{
    execute_given_plan, execute_op, failed_op, keep_rebases, refuse_apply, Attempt,
};
use gitui::cascade::{anchor_branches, build_cascade_plan};
use gitui::cli::{
    build_plan, choose_action, exit_code, git_bin, print_op_results, report_applied, warn_skipped,
    Action, Options,
};
use gitui::engine::{
    find_branch, find_last_branch, BranchInfo, Intent, Operation, RepositoryReading,
    RepositorySnapshot,
};
use gitui::plan::{
    build_converge_plan, build_submit_plan, build_sync_plan, request_converge, request_submit,
    request_sync, PlanError, Refusal,
};
use gitui::plan_text::{
    plan_in_words, print_converge_plan_to, print_plan_to, print_submit_plan_to, print_sync_plan_to,
};
use gitui::{
    apply_plan, execute_plan, execute_rebases, OpResult, Plan, PlanIntent, RepoState, RepoStatus,
};

fn branch(name: &str, oid: &str, parent: Option<&str>) -> BranchInfo {
    BranchInfo {
        name: name.to_string(),
        oid: oid.to_string(),
        is_remote: false,
        is_merged: false,
        ahead: 0,
        behind: 0,
        parent_behind: 0,
        aliases: Vec::new(),
        original_parent: parent.map(|p| p.to_string()),
        heuristic_parent: None,
        heuristic_upstream_oid: None,
        submittable: false,
        pr: None,
    }
}

fn reading(branches: Vec<BranchInfo>) -> RepositoryReading<&'static str> {
    RepositoryReading { branches, history: "history", dirty: None }
}

fn rebase(branch: &str, onto: &str, predicted_conflict: Option<bool>) -> Operation {
    Operation::Rebase {
        branch: branch.to_string(),
        onto: onto.to_string(),
        upstream: None,
        predicted_conflict,
    }
}

fn sync(branch: &str, predicted_conflict: Option<bool>) -> Operation {
    Operation::Sync { branch: branch.to_string(), predicted_conflict }
}

fn other(branch: &str, action: &str) -> Operation {
    Operation::Other { branch: branch.to_string(), action: action.to_string() }
}

fn words(op: &Operation) -> String {
    match op {
        Operation::Rebase { branch, onto, .. } => format!("rebase {} onto {}", branch, onto),
        Operation::Sync { branch, .. } => format!("sync {}", branch),
        Operation::Other { branch, action } => format!("{} {}", action, branch),
    }
}

/// One operation for each intent.
fn ops_for(intents: &Vec<Intent>) -> Vec<Operation> {
    intents
        .iter()
        .map(|intent| match intent {
            Intent::Submit { branch } => other(branch, "submit"),
            Intent::Reset { branch } => sync(branch, None),
            Intent::Move { branch, parent } => rebase(branch, parent, None),
        })
        .collect()
}

fn calculate(
    snapshot: &RepositorySnapshot<&'static str>,
    intents: &Vec<Intent>,
) -> Result<Vec<Operation>, String> {
    assert_eq!(snapshot.history, "history");
    assert!(!snapshot.is_dirty);
    Ok(ops_for(intents))
}

fn fail(
    _snapshot: &RepositorySnapshot<&'static str>,
    _intents: &Vec<Intent>,
) -> Result<Vec<Operation>, String> {
    Err("no history".to_string())
}

/// Predicts a conflict of everything.
fn predict(ops: Vec<Operation>, _branches: &Vec<BranchInfo>) -> Vec<Operation> {
    ops.into_iter()
        .map(|op| match op {
            Operation::Rebase { branch, onto, upstream, .. } => {
                Operation::Rebase { branch, onto, upstream, predicted_conflict: Some(true) }
            }
            Operation::Sync { branch, .. } => {
                Operation::Sync { branch, predicted_conflict: Some(true) }
            }
            other => other,
        })
        .collect()
}

fn told(ops: &Vec<Operation>) -> Vec<String> {
    ops.iter().map(|op| words(op)).collect()
}

fn status(state: RepoState, conflicted: &[&str], current: Option<&str>) -> RepoStatus {
    RepoStatus {
        state,
        conflicted_paths: conflicted.iter().map(|p| p.to_string()).collect(),
        is_dirty: false,
        current_branch: current.map(|c| c.to_string()),
    }
}

// ============================================================================
// Requests
// ============================================================================

#[test]
fn a_plan_needs_its_branch() {
    let refused = |e: PlanError<String>| match e {
        PlanError::Refused(refusal) => refusal.message(),
        PlanError::Engine(e) => panic!("{}", e),
    };
    let none = || reading(vec![branch("main", "a", None)]);
    let submit = build_submit_plan(none(), "x", calculate, predict);
    assert_eq!(refused(submit.unwrap_err()), "Branch not found: x");
    let synced = build_sync_plan(none(), "x", calculate, predict);
    assert_eq!(refused(synced.unwrap_err()), "Branch not found: x");
    let converge = build_converge_plan(none(), "x", calculate, predict);
    assert_eq!(refused(converge.unwrap_err()), "Branch not found: x");
    let cascade = build_cascade_plan(
        none(),
        "x",
        |_: &String, _: &String| -> Result<bool, String> { Ok(true) },
        calculate,
        predict,
    );
    assert_eq!(refused(cascade.unwrap_err()), "Branch not found: x");
}

#[test]
fn only_a_ready_branch_is_submitted() {
    let branches = vec![branch("main", "a", None)];
    match request_submit(&branches, "main") {
        Err(Refusal::NotReadyToSubmit { branch }) => assert_eq!(branch, "main"),
        other => panic!("{:?}", other),
    }
    let refusal = Refusal::NotReadyToSubmit { branch: "main".to_string() };
    assert_eq!(refusal.message(), "Branch is not ready to submit: main");

    let mut ready = branch("feat", "b", Some("main"));
    ready.submittable = true;
    let plan = build_submit_plan(reading(vec![ready]), "feat", calculate, predict).unwrap();
    assert!(matches!(plan.intent, PlanIntent::Submit));
    assert_eq!(plan.branch, "feat");
    assert_eq!(told(&plan.ops), ["submit feat"]);
    assert!(plan.skipped_branches.is_empty());
}

#[test]
fn only_a_branch_with_a_heuristic_parent_converges() {
    let branches = vec![branch("main", "a", None)];
    match request_converge(&branches, "main") {
        Err(Refusal::NoHeuristicParent { branch }) => assert_eq!(branch, "main"),
        other => panic!("{:?}", other),
    }
    let refusal = Refusal::NoHeuristicParent { branch: "main".to_string() };
    assert_eq!(refusal.message(), "No heuristic parent detected for branch: main");

    let mut stray = branch("feat", "b", None);
    stray.heuristic_parent = Some("main".to_string());
    let plan = build_converge_plan(reading(vec![stray]), "feat", calculate, predict).unwrap();
    assert!(matches!(plan.intent, PlanIntent::Converge));
    assert_eq!(told(&plan.ops), ["rebase feat onto main"]);
    assert!(matches!(
        &plan.ops[0],
        Operation::Rebase { predicted_conflict: Some(true), .. }
    ));
}

#[test]
fn a_sync_asks_for_a_reset() {
    let branches = vec![branch("main", "a", None)];
    let intents = request_sync(&branches, "main").unwrap();
    assert_eq!(intents.len(), 1);
    assert!(matches!(&intents[0], Intent::Reset { branch } if branch == "main"));
    let plan = build_sync_plan(reading(branches), "main", calculate, predict).unwrap();
    assert!(matches!(plan.intent, PlanIntent::Sync));
    assert_eq!(told(&plan.ops), ["sync main"]);
}

#[test]
fn an_engine_error_is_passed_on() {
    let branches = vec![branch("main", "a", None)];
    match build_sync_plan(reading(branches), "main", fail, predict) {
        Err(PlanError::Engine(e)) => assert_eq!(e, "no history"),
        other => panic!("{:?}", other),
    }
}

#[test]
fn the_first_of_two_branches_is_found_and_the_last() {
    let branches =
        vec![branch("a", "1", None), branch("b", "2", None), branch("b", "3", None)];
    assert_eq!(find_branch(&branches, &"b".to_string()), Some(1));
    assert_eq!(find_last_branch(&branches, &"b".to_string()), Some(2));
    assert_eq!(find_branch(&branches, &"c".to_string()), None);
    assert_eq!(find_last_branch(&branches, &"c".to_string()), None);
}

// ============================================================================
// Cascades
// ============================================================================

#[test]
fn branches_are_anchored_by_what_is_known_of_their_parents() {
    let mut overtaken = branch("overtaken", "1", Some("old"));
    overtaken.heuristic_upstream_oid = Some("0".to_string());
    let mut adopted = branch("adopted", "2", None);
    adopted.heuristic_parent = Some("overtaken".to_string());
    let mut remote = branch("origin/x", "3", None);
    remote.is_remote = true;
    let mut branches = vec![
        branch("main", "9", None),
        overtaken,
        adopted,
        branch("loner", "4", None),
        branch("kept", "5", Some("main")),
        remote,
    ];
    let target = "main".to_string();
    let answers = vec![false, true, false, false, false, false];

    let (moves, skipped) = anchor_branches(&mut branches, &target, &answers);

    assert_eq!(
        told(&ops_for(&moves)),
        ["rebase overtaken onto main", "rebase adopted onto overtaken"]
    );
    assert_eq!(skipped, ["loner"]);
    assert_eq!(branches[1].original_parent.as_deref(), Some("main"));
    assert_eq!(branches[1].heuristic_upstream_oid, None);
    assert_eq!(branches[2].original_parent, None);
    assert_eq!(branches[4].original_parent.as_deref(), Some("main"));

    // Anchored once, they stay anchored.
    let none = vec![false; 6];
    let (again, skipped_again) = anchor_branches(&mut branches, &target, &none);
    assert_eq!(told(&ops_for(&again)), ["rebase adopted onto overtaken"]);
    assert_eq!(skipped_again, ["loner"]);
    assert_eq!(branches[1].original_parent.as_deref(), Some("main"));
}

#[test]
fn a_cascade_asks_only_about_parents_that_differ_from_the_target() {
    let asked = std::cell::RefCell::new(Vec::new());
    let mut remote = branch("origin/x", "r", Some("old"));
    remote.is_remote = true;
    let branches = vec![
        branch("main", "m", Some("old")),
        branch("on_old", "1", Some("old")),
        branch("old", "o", None),
        branch("on_main", "2", Some("main")),
        branch("on_twin", "3", Some("twin")),
        branch("twin", "m", Some("main")),
        branch("on_unknown", "4", Some("gone")),
        remote,
    ];
    let plan = build_cascade_plan(
        reading(branches),
        "main",
        |parent: &String, tip: &String| -> Result<bool, String> {
            asked.borrow_mut().push((parent.clone(), tip.clone()));
            Ok(true)
        },
        calculate,
        predict,
    )
    .unwrap();
    assert_eq!(*asked.borrow(), [("o".to_string(), "m".to_string())]);
    assert_eq!(told(&plan.ops), ["sync main", "rebase on_old onto main"]);
    assert_eq!(plan.skipped_branches, ["old"]);
}

#[test]
fn an_answer_that_fails_counts_as_no() {
    let branches =
        vec![branch("main", "m", None), branch("x", "1", Some("old")), branch("old", "o", Some("main"))];
    let plan = build_cascade_plan(
        reading(branches),
        "main",
        |_: &String, _: &String| -> Result<bool, String> { Err("no such commit".to_string()) },
        calculate,
        predict,
    )
    .unwrap();
    assert_eq!(told(&plan.ops), ["sync main"]);
}

#[test]
fn the_tip_of_a_parent_named_twice_is_the_last() {
    let asked = std::cell::RefCell::new(Vec::new());
    let branches = vec![
        branch("main", "m", None),
        branch("p", "1", Some("main")),
        branch("p", "2", Some("main")),
        branch("x", "3", Some("p")),
    ];
    let plan = build_cascade_plan(
        reading(branches),
        "main",
        |parent: &String, _: &String| -> Result<bool, String> {
            asked.borrow_mut().push(parent.clone());
            Ok(false)
        },
        calculate,
        predict,
    );
    assert!(plan.is_ok());
    assert_eq!(*asked.borrow(), ["2"]);
}

#[test]
fn a_cascade_that_anchors_nothing_is_a_sync() {
    let branches = || vec![branch("main", "m", None), branch("x", "1", Some("main"))];
    let cascade = build_cascade_plan(
        reading(branches()),
        "main",
        |_: &String, _: &String| -> Result<bool, String> { Ok(true) },
        calculate,
        predict,
    )
    .unwrap();
    let synced = build_sync_plan(reading(branches()), "main", calculate, predict).unwrap();
    assert_eq!(told(&cascade.ops), told(&synced.ops));
    assert!(matches!(cascade.intent, PlanIntent::Sync));
    assert_eq!(cascade.branch, synced.branch);
    assert!(cascade.skipped_branches.is_empty());
}

#[test]
fn a_cascade_whose_parents_all_stand_is_a_sync() {
    let mut remote = branch("origin/x", "r", None);
    remote.is_remote = true;
    let branches = || {
        vec![
            branch("main", "m", None),
            branch("on_main", "1", Some("main")),
            branch("on_unknown", "2", Some("gone")),
            branch("twin", "m", Some("main")),
            branch("on_twin", "3", Some("twin")),
            branch("ahead", "4", Some("main")),
            branch("on_ahead", "5", Some("ahead")),
            remote.clone(),
        ]
    };
    let cascade = build_cascade_plan(
        reading(branches()),
        "main",
        |parent: &String, _: &String| -> Result<bool, String> { Ok(parent.as_str() != "4") },
        calculate,
        predict,
    )
    .unwrap();
    let synced = build_sync_plan(reading(branches()), "main", calculate, predict).unwrap();
    assert_eq!(told(&cascade.ops), told(&synced.ops));
    assert_eq!(cascade.branch, synced.branch);
    assert!(cascade.skipped_branches.is_empty());
}

#[test]
fn a_tree_that_is_dirty_is_handed_on_as_dirty() {
    let seen = std::cell::Cell::new(false);
    let dirty = RepositoryReading {
        branches: vec![branch("main", "m", None)],
        history: (),
        dirty: Some(true),
    };
    let plan = build_sync_plan(
        dirty,
        "main",
        |snapshot: &RepositorySnapshot<()>, _: &Vec<Intent>| -> Result<Vec<Operation>, String> {
            seen.set(snapshot.is_dirty);
            Ok(Vec::new())
        },
        predict,
    );
    assert!(plan.unwrap().ops.is_empty());
    assert!(seen.get());
}

// ============================================================================
// Words
// ============================================================================

fn plan(intent: PlanIntent, ops: Vec<Operation>) -> Plan {
    Plan { intent, branch: "main".to_string(), ops, skipped_branches: Vec::new() }
}

#[test]
fn a_plan_in_words() {
    let full = plan(
        PlanIntent::Sync,
        vec![
            sync("main", Some(false)),
            sync("dev", Some(true)),
            sync("old", None),
            rebase("A", "main", Some(false)),
            rebase("B", "A", Some(true)),
            rebase("C", "B", None),
            other("D", "drop"),
        ],
    );
    assert_eq!(
        print_plan_to(&full, &words),
        "Plan to sync main:\n  sync main [FF]\n  sync dev [NOT FF]\n  sync old\n  \
         rebase A onto main [CLEAN]\n  rebase B onto A [CONFLICT]\n  rebase C onto B\n  \
         drop D\n"
    );
    let one = plan(PlanIntent::Submit, vec![other("main", "submit")]);
    assert_eq!(
        plan_in_words(&one, &vec!["hand main in".to_string()]),
        "Plan to submit main:\n  hand main in\n"
    );
    let none = plan(PlanIntent::Converge, Vec::new());
    assert_eq!(print_plan_to(&none, &words), "No operations to perform.\n");
}

#[test]
fn plans_are_built_and_told_in_one() {
    let mut feat = branch("feat", "f", None);
    feat.submittable = true;
    feat.heuristic_parent = Some("main".to_string());
    let branches = vec![branch("main", "m", None), feat];
    let print = |text: Result<String, PlanError<String>>| text.unwrap();
    assert_eq!(
        print(print_submit_plan_to(reading(branches.clone()), "feat", calculate, predict, &words)),
        "Plan to submit feat:\n  submit feat\n"
    );
    assert_eq!(
        print(print_sync_plan_to(reading(branches.clone()), "main", calculate, predict, &words)),
        "Plan to sync main:\n  sync main [NOT FF]\n"
    );
    assert_eq!(
        print(print_converge_plan_to(reading(branches.clone()), "feat", calculate, predict, &words)),
        "Plan to converge feat:\n  rebase feat onto main [CONFLICT]\n"
    );
    let refused = print_submit_plan_to(reading(branches), "gone", calculate, predict, &words);
    assert!(matches!(refused, Err(PlanError::Refused(Refusal::BranchNotFound { .. }))));
}

// ============================================================================
// Carrying plans out
// ============================================================================

#[test]
fn a_failure_is_told_from_a_conflict_by_what_is_left() {
    let op = rebase("A", "main", None);
    let message = || "exit 1".to_string();
    match failed_op(&op, status(RepoState::Clean, &[], None), message()) {
        OpResult::Error { branch, message } => {
            assert_eq!((branch.as_str(), message.as_str()), ("A", "exit 1"))
        }
        other => panic!("{:?}", other),
    }
    match failed_op(&op, status(RepoState::Clean, &["f"], None), message()) {
        OpResult::Conflict { branch, conflicted_paths, rebase_in_progress } => {
            assert_eq!(branch, "A");
            assert_eq!(conflicted_paths, ["f"]);
            assert!(!rebase_in_progress);
        }
        other => panic!("{:?}", other),
    }
    match failed_op(&op, status(RepoState::Merge, &[], None), message()) {
        OpResult::Conflict { rebase_in_progress, .. } => assert!(!rebase_in_progress),
        other => panic!("{:?}", other),
    }
    for state in [RepoState::Rebase, RepoState::RebaseInteractive, RepoState::RebaseMerge] {
        match failed_op(&op, status(state, &[], None), message()) {
            OpResult::Conflict { rebase_in_progress, .. } => assert!(rebase_in_progress),
            other => panic!("{:?}", other),
        }
    }
}

/// What was done to a repository, in order.
type Log = Vec<String>;

fn log_attempt(mut log: Log, op: &Operation) -> (Log, Attempt<String>) {
    let said = words(op);
    log.push(said.clone());
    let end = match said.as_str() {
        "sync bad" => Attempt::Failed { message: "exit 1".to_string() },
        "sync gone" => Attempt::Unopened("no repository".to_string()),
        _ => Attempt::Succeeded,
    };
    (log, end)
}

fn log_status(mut log: Log) -> (Log, Result<RepoStatus, String>) {
    log.push("status".to_string());
    (log, Ok(status(RepoState::Clean, &[], None)))
}

fn broken_status(log: Log) -> (Log, Result<RepoStatus, String>) {
    (log, Err("unreadable".to_string()))
}

fn busy_status(mut log: Log) -> (Log, Result<RepoStatus, String>) {
    log.push("status".to_string());
    (log, Ok(status(RepoState::Bisect, &[], Some("main"))))
}

#[test]
fn one_operation_is_executed() {
    let (log, done) = execute_op(Vec::new(), &sync("main", None), &log_attempt, &log_status);
    assert!(matches!(done, Ok(OpResult::Done { branch }) if branch == "main"));
    assert_eq!(log, ["sync main"]);

    let (log, failed) = execute_op(Vec::new(), &sync("bad", None), &log_attempt, &log_status);
    assert!(matches!(failed, Ok(OpResult::Error { branch, message })
        if branch == "bad" && message == "exit 1"));
    assert_eq!(log, ["sync bad", "status"]);

    let (_, unread) = execute_op(Vec::new(), &sync("bad", None), &log_attempt, &broken_status);
    assert_eq!(unread.unwrap_err(), "unreadable");

    let (log, unopened) = execute_op(Vec::new(), &sync("gone", None), &log_attempt, &log_status);
    assert_eq!(unopened.unwrap_err(), "no repository");
    assert_eq!(log, ["sync gone"]);
}

#[test]
fn nothing_is_attempted_behind_a_failure() {
    let ops = vec![sync("a", None), sync("bad", None), sync("c", None)];
    let (log, applied) =
        apply_plan(Vec::new(), &plan(PlanIntent::Sync, ops), &log_attempt, &log_status);
    let results = applied.unwrap();
    assert_eq!(results.len(), 2);
    assert!(matches!(&results[0], OpResult::Done { branch } if branch == "a"));
    assert!(matches!(&results[1], OpResult::Error { branch, .. } if branch == "bad"));
    assert_eq!(log, ["status", "sync a", "sync bad", "status"]);
    assert_eq!(exit_code(&results), 1);

    let ops = vec![sync("a", None), sync("gone", None), sync("c", None)];
    let (log, broken) =
        apply_plan(Vec::new(), &plan(PlanIntent::Sync, ops), &log_attempt, &log_status);
    assert_eq!(broken.unwrap_err(), "no repository");
    assert_eq!(log, ["status", "sync a", "sync gone"]);
}

#[test]
fn nothing_is_attempted_where_something_is_in_progress() {
    let ops = vec![sync("a", None)];
    let (log, applied) =
        apply_plan(Vec::new(), &plan(PlanIntent::Sync, ops.clone()), &log_attempt, &busy_status);
    let results = applied.unwrap();
    assert_eq!(results.len(), 1);
    assert!(matches!(&results[0], OpResult::Error { branch, message }
        if branch == "main" && message == "refusing to apply plan: repository is in Bisect state; \
            resolve or abort the in-progress operation first"));
    assert_eq!(log, ["status"]);
    assert_eq!(exit_code(&results), 1);

    let (log, unread) =
        apply_plan(Vec::new(), &plan(PlanIntent::Sync, ops), &log_attempt, &broken_status);
    assert_eq!(unread.unwrap_err(), "unreadable");
    assert!(log.is_empty());
}

#[test]
fn an_empty_plan_does_nothing() {
    let (log, applied) =
        apply_plan(Vec::new(), &plan(PlanIntent::Sync, Vec::new()), &log_attempt, &log_status);
    let results = applied.unwrap();
    assert!(results.is_empty());
    assert_eq!(log, ["status"]);
    assert_eq!(exit_code(&results), 0);
}

#[test]
fn a_refusal_names_the_state_and_where_the_head_is() {
    assert!(refuse_apply(status(RepoState::Clean, &["f"], None)).is_none());
    let names = [
        (RepoState::Rebase, "Rebase"),
        (RepoState::RebaseInteractive, "RebaseInteractive"),
        (RepoState::RebaseMerge, "RebaseMerge"),
        (RepoState::ApplyMailbox, "ApplyMailbox"),
        (RepoState::ApplyMailboxOrRebase, "ApplyMailboxOrRebase"),
        (RepoState::Merge, "Merge"),
        (RepoState::Revert, "Revert"),
        (RepoState::CherryPick, "CherryPick"),
        (RepoState::Bisect, "Bisect"),
        (RepoState::Other, "Other"),
    ];
    for (state, name) in names {
        assert_eq!(format!("{:?}", state), name);
        match refuse_apply(status(state, &[], None)) {
            Some(OpResult::Error { branch, message }) => {
                assert_eq!(branch, "(detached)");
                assert_eq!(
                    message,
                    format!(
                        "refusing to apply plan: repository is in {:?} state; \
                         resolve or abort the in-progress operation first",
                        state
                    )
                );
            }
            other => panic!("{:?}", other),
        }
    }
}

fn log_execute(mut log: Log, op: &Operation) -> (Log, Result<(), String>) {
    let said = words(op);
    log.push(said.clone());
    let ended = if said.contains("bad") { Err(said) } else { Ok(()) };
    (log, ended)
}

#[test]
fn operations_are_executed_up_to_the_first_error() {
    let ops = vec![sync("a", None), sync("bad", None), sync("c", None)];
    let (log, ended) = execute_given_plan(Vec::new(), &ops, &log_execute);
    assert_eq!(ended.unwrap_err(), "sync bad");
    assert_eq!(log, ["sync a", "sync bad"]);
    let (log, ended) = execute_given_plan(Vec::new(), &vec![sync("a", None)], &log_execute);
    assert!(ended.is_ok());
    assert_eq!(log, ["sync a"]);
}

#[test]
fn rebases_are_kept_in_order() {
    let ops = vec![rebase("A", "main", None), sync("x", None), rebase("B", "A", None), other("y", "z")];
    assert_eq!(told(&keep_rebases(ops)), ["rebase A onto main", "rebase B onto A"]);
}

#[test]
fn a_plan_is_made_and_executed() {
    let plan_for = |_: &RepositorySnapshot<&'static str>, intents: &u8| -> Result<Vec<Operation>, String> {
        if *intents == 0 {
            return Err("no plan".to_string());
        }
        Ok(vec![sync("main", None), rebase("A", "main", None)])
    };
    let all = execute_plan(Vec::new(), reading(Vec::new()), &1u8, plan_for, &log_execute);
    assert!(all.1.is_ok());
    assert_eq!(all.0, ["sync main", "rebase A onto main"]);
    let some = execute_rebases(Vec::new(), reading(Vec::new()), &1u8, plan_for, &log_execute);
    assert!(some.1.is_ok());
    assert_eq!(some.0, ["rebase A onto main"]);
    let none = execute_plan(Vec::new(), reading(Vec::new()), &0u8, plan_for, &log_execute);
    assert_eq!(none.1.unwrap_err(), "no plan");
    assert!(none.0.is_empty());
    let none = execute_rebases(Vec::new(), reading(Vec::new()), &0u8, plan_for, &log_execute);
    assert_eq!(none.1.unwrap_err(), "no plan");
    assert!(none.0.is_empty());
}

// ============================================================================
// The command line
// ============================================================================

fn options() -> Options {
    Options {
        tree: false,
        all: false,
        submit: None,
        converge: None,
        sync: None,
        rebase: None,
        status: false,
        apply: false,
    }
}

fn some(word: &str) -> Option<String> {
    Some(word.to_string())
}

#[test]
fn one_request_is_heard() {
    let mut asked = Options {
        tree: true,
        all: true,
        submit: some("s"),
        converge: some("c"),
        sync: some("y"),
        rebase: Some(vec!["b".to_string(), "o".to_string(), "u".to_string()]),
        status: true,
        apply: true,
    };
    match choose_action(asked.clone()) {
        Action::Execute(Operation::Rebase { branch, onto, upstream, predicted_conflict }) => {
            assert_eq!((branch.as_str(), onto.as_str()), ("b", "o"));
            assert_eq!(upstream.as_deref(), Some("u"));
            assert_eq!(predicted_conflict, None);
        }
        other => panic!("{:?}", other),
    }
    asked.rebase = Some(vec!["b".to_string(), "o".to_string()]);
    assert!(matches!(
        choose_action(asked.clone()),
        Action::Execute(Operation::Rebase { upstream: None, .. })
    ));
    asked.rebase = None;
    assert!(matches!(choose_action(asked.clone()), Action::Status));
    asked.status = false;
    assert!(matches!(
        choose_action(asked.clone()),
        Action::Plan { intent: PlanIntent::Submit, branch, apply: true } if branch == "s"
    ));
    asked.submit = None;
    assert!(matches!(
        choose_action(asked.clone()),
        Action::Plan { intent: PlanIntent::Converge, branch, apply: false } if branch == "c"
    ));
    asked.converge = None;
    assert!(matches!(
        choose_action(asked.clone()),
        Action::Plan { intent: PlanIntent::Sync, branch, apply: true } if branch == "y"
    ));
    asked.apply = false;
    assert!(matches!(
        choose_action(asked.clone()),
        Action::Plan { intent: PlanIntent::Sync, branch, apply: false } if branch == "y"
    ));
    asked.sync = None;
    assert!(matches!(choose_action(asked.clone()), Action::Tree { show_remote: true }));
    asked.tree = false;
    assert!(matches!(choose_action(asked), Action::Interactive));
    assert!(matches!(choose_action(options()), Action::Interactive));
}

#[test]
fn to_sync_from_the_command_line_is_to_cascade() {
    let loner = || reading(vec![branch("main", "m", None), branch("loner", "1", None)]);
    let no = |_: &String, _: &String| -> Result<bool, String> { Ok(false) };
    let plan = build_plan(PlanIntent::Sync, "main", loner(), no, calculate, predict).unwrap();
    assert_eq!(plan.skipped_branches, ["loner"]);
    let submit = build_plan(PlanIntent::Submit, "main", loner(), no, calculate, predict);
    assert!(matches!(submit, Err(PlanError::Refused(Refusal::NotReadyToSubmit { .. }))));
    let converge = build_plan(PlanIntent::Converge, "main", loner(), no, calculate, predict);
    assert!(matches!(converge, Err(PlanError::Refused(Refusal::NoHeuristicParent { .. }))));
}

#[test]
fn skipped_branches_are_warned_of() {
    assert_eq!(warn_skipped(&Vec::new()), "");
    assert_eq!(
        warn_skipped(&vec!["a".to_string(), "b".to_string()]),
        "warning: 2 branch(es) skipped from cascade — no detectable parent:\n  - a\n  - b\n\
         run `gitui --converge BRANCH` to anchor manually.\n"
    );
}

#[test]
fn results_in_words() {
    let done = OpResult::Done { branch: "a".to_string() };
    let conflict = OpResult::Conflict {
        branch: "b".to_string(),
        conflicted_paths: vec!["x".to_string(), "y".to_string()],
        rebase_in_progress: true,
    };
    let stuck = OpResult::Conflict {
        branch: "c".to_string(),
        conflicted_paths: Vec::new(),
        rebase_in_progress: false,
    };
    let error = OpResult::Error { branch: "d".to_string(), message: "exit 1".to_string() };
    let results = vec![done, conflict, stuck, error];
    let text = "  a ok\n  b CONFLICT\n    - x\n    - y\n  \
                rebase in progress on b; resolve and re-run `--apply` to continue\n  \
                c CONFLICT\n  d ERROR: exit 1\n";
    assert_eq!(print_op_results(&results), text);
    let applied = plan(PlanIntent::Sync, Vec::new());
    assert_eq!(report_applied(&applied, &results), format!("Applying plan for main:\n{}", text));
    let submitted = plan(PlanIntent::Submit, Vec::new());
    assert_eq!(report_applied(&submitted, &Vec::new()), "Submitting main:\n");
    assert_eq!(exit_code(&results), 1);
    assert_eq!(exit_code(&vec![OpResult::Done { branch: "a".to_string() }]), 0);
}

#[test]
fn git_is_the_one_that_is_configured() {
    assert_eq!(git_bin(None), "git");
    assert_eq!(git_bin(some("/opt/git/bin/git")), "/opt/git/bin/git");
}
