//! Plans and their application on a small repository that is kept in memory:
//! commits that change one file each, branches, and two remotes. The planner
//! and the executor here are as plain as they can be; what they are asked, and
//! what is made of their answers, is the library's.

use std::cell::{Cell, RefCell};

use gitui::apply::Attempt;
use gitui::cli::{
    build_plan, choose_action, exit_code, report_applied, warn_skipped, Action, Options,
};
use gitui::engine::{BranchInfo, Intent, Operation, RepositoryReading, RepositorySnapshot};
use gitui::status::{ObservedState, StatusEntry, StatusReading};
use gitui::{
    apply_plan, build_cascade_plan, repo_status, OpResult, Plan, PlanIntent, RepoState, RepoStatus,
};

// ============================================================================
// The repository
// ============================================================================

#[derive(Clone)]
struct Commit {
    parent: Option<usize>,
    summary: String,
    file: String,
    content: String,
}

#[derive(Clone)]
struct Halted {
    branch: String,
    base: usize,
    rest: Vec<usize>,
}

#[derive(Clone)]
struct Repo {
    commits: RefCell<Vec<Commit>>,
    locals: RefCell<Vec<(String, usize)>>,
    remotes: RefCell<Vec<(String, usize)>>,
    halted: RefCell<Option<Halted>>,
    staged: RefCell<Vec<String>>,
    submittable: RefCell<Vec<String>>,
    attempts: Cell<usize>,
    main_branch: String,
}

fn set_ref(refs: &RefCell<Vec<(String, usize)>>, name: &str, commit: usize) {
    let mut refs = refs.borrow_mut();
    match refs.iter_mut().find(|(n, _)| n == name) {
        Some(entry) => entry.1 = commit,
        None => refs.push((name.to_string(), commit)),
    }
}

fn oid(commit: usize) -> String {
    format!("{:040x}", commit)
}

fn number(oid: &str) -> usize {
    usize::from_str_radix(oid, 16).unwrap()
}

impl Repo {
    fn with_remotes(main_branch: &str) -> Repo {
        let repo = Repo {
            commits: RefCell::new(vec![Commit {
                parent: None,
                summary: "Initial commit".to_string(),
                file: "README".to_string(),
                content: "hello".to_string(),
            }]),
            locals: RefCell::new(vec![(main_branch.to_string(), 0)]),
            remotes: RefCell::new(Vec::new()),
            halted: RefCell::new(None),
            staged: RefCell::new(Vec::new()),
            submittable: RefCell::new(Vec::new()),
            attempts: Cell::new(0),
            main_branch: main_branch.to_string(),
        };
        repo.push("origin", main_branch);
        repo.push("upstream", main_branch);
        repo
    }

    fn push(&self, remote: &str, branch: &str) {
        let tip = self.tip(branch);
        set_ref(&self.remotes, &format!("{}/{}", remote, branch), tip);
    }

    fn tip(&self, name: &str) -> usize {
        let locals = self.locals.borrow();
        let remotes = self.remotes.borrow();
        let found = locals.iter().chain(remotes.iter()).find(|(n, _)| n == name);
        found.unwrap_or_else(|| panic!("no ref {}", name)).1
    }

    fn add_commit(&self, parent: usize, file: &str, content: &str, summary: &str) -> usize {
        let mut commits = self.commits.borrow_mut();
        commits.push(Commit {
            parent: Some(parent),
            summary: summary.to_string(),
            file: file.to_string(),
            content: content.to_string(),
        });
        commits.len() - 1
    }

    fn commit_file(&self, branch: &str, file: &str, content: &str, summary: &str) -> usize {
        let commit = self.add_commit(self.tip(branch), file, content, summary);
        set_ref(&self.locals, branch, commit);
        commit
    }

    fn stack_branch(&self, name: &str, parent: &str, file: &str, content: &str) {
        set_ref(&self.locals, name, self.tip(parent));
        self.commit_file(name, file, content, &format!("commit on {}", name));
    }

    /// A branch whose first commit has no parent.
    fn orphan(&self, name: &str, file: &str, content: &str, summary: &str) {
        let mut commits = self.commits.borrow_mut();
        commits.push(Commit {
            parent: None,
            summary: summary.to_string(),
            file: file.to_string(),
            content: content.to_string(),
        });
        set_ref(&self.locals, name, commits.len() - 1);
    }

    /// A commit that upstream has and the local main branch has not.
    fn advance_upstream(&self, file: &str, content: &str, summary: &str) -> usize {
        let commit = self.add_commit(self.tip(&self.main_branch), file, content, summary);
        set_ref(&self.remotes, &format!("upstream/{}", self.main_branch), commit);
        commit
    }

    /// Moves the local main branch to where upstream is.
    fn fast_forward_main(&self) {
        let upstream = self.tip(&format!("upstream/{}", self.main_branch));
        set_ref(&self.locals, &self.main_branch, upstream);
        self.push("origin", &self.main_branch);
    }

    fn ancestry(&self, commit: usize) -> Vec<usize> {
        let commits = self.commits.borrow();
        let mut line = vec![commit];
        while let Some(parent) = commits[*line.last().unwrap()].parent {
            line.push(parent);
        }
        line
    }

    fn is_ancestor(&self, ancestor: usize, descendant: usize) -> bool {
        self.ancestry(descendant).contains(&ancestor)
    }

    fn merge_base(&self, a: &str, b: &str) -> usize {
        let other = self.ancestry(self.tip(b));
        *self.ancestry(self.tip(a)).iter().find(|c| other.contains(c)).unwrap()
    }

    /// The commits of `branch` that `base` does not have, oldest first.
    fn commits_past(&self, base: usize, branch: usize) -> Vec<usize> {
        let known = self.ancestry(base);
        let mut past: Vec<usize> =
            self.ancestry(branch).into_iter().filter(|c| !known.contains(c)).collect();
        past.reverse();
        past
    }

    fn content(&self, commit: usize, file: &str) -> Option<String> {
        let commits = self.commits.borrow();
        self.ancestry(commit)
            .into_iter()
            .find(|c| commits[*c].file == file)
            .map(|c| commits[c].content.clone())
    }

    // ------------------------------------------------------------------------
    // What the engine reads
    // ------------------------------------------------------------------------

    fn parent_in_ancestry(&self, name: &str) -> Option<String> {
        let locals = self.locals.borrow();
        let remotes = self.remotes.borrow();
        let own = format!("origin/{}", name);
        for commit in self.ancestry(self.tip(name)) {
            let at = |(n, c): &&(String, usize)| *c == commit && n != name && *n != own;
            if let Some((found, _)) = locals.iter().find(at).or_else(|| remotes.iter().find(at)) {
                return Some(found.clone());
            }
        }
        None
    }

    /// The branch whose tip bears the summary of a commit behind the tip of
    /// `name`, and that commit.
    fn parent_by_summary(&self, name: &str) -> Option<(String, usize)> {
        let locals = self.locals.borrow();
        let commits = self.commits.borrow();
        for commit in self.ancestry(self.tip(name)).into_iter().skip(1) {
            let summary = &commits[commit].summary;
            let found = locals.iter().find(|(n, c)| n != name && commits[*c].summary == *summary);
            if let Some((found, _)) = found {
                return Some((found.clone(), commit));
            }
        }
        None
    }

    fn branch(&self, name: &str, is_remote: bool) -> BranchInfo {
        let heuristic = if is_remote { None } else { self.parent_by_summary(name) };
        BranchInfo {
            name: name.to_string(),
            oid: oid(self.tip(name)),
            is_remote,
            is_merged: false,
            ahead: 0,
            behind: 0,
            parent_behind: 0,
            aliases: Vec::new(),
            original_parent: if is_remote { None } else { self.parent_in_ancestry(name) },
            heuristic_parent: heuristic.as_ref().map(|(parent, _)| parent.clone()),
            heuristic_upstream_oid: heuristic.map(|(_, commit)| oid(commit)),
            submittable: self.submittable.borrow().iter().any(|n| n == name),
            pr: None,
        }
    }

    fn reading(&self) -> RepositoryReading<()> {
        let locals = self.locals.borrow().clone();
        let remotes = self.remotes.borrow().clone();
        let branches = locals
            .iter()
            .map(|(n, _)| self.branch(n, false))
            .chain(remotes.iter().map(|(n, _)| self.branch(n, true)))
            .collect();
        RepositoryReading { branches, history: (), dirty: Some(self.status().is_dirty) }
    }

    fn status(&self) -> RepoStatus {
        let halted = self.halted.borrow();
        let mut entries: Vec<StatusEntry> = self
            .staged
            .borrow()
            .iter()
            .map(|file| StatusEntry {
                path: Some(file.clone()),
                bits: git2::Status::INDEX_NEW.bits(),
            })
            .collect();
        if let Some(halted) = halted.as_ref() {
            entries.push(StatusEntry {
                path: Some(self.commits.borrow()[halted.rest[0]].file.clone()),
                bits: git2::Status::CONFLICTED.bits(),
            });
        }
        repo_status(StatusReading {
            state: if halted.is_some() {
                ObservedState::RebaseMerge
            } else {
                ObservedState::Clean
            },
            entries,
            head: if halted.is_some() { None } else { Some(self.main_branch.clone()) },
        })
    }

    // ------------------------------------------------------------------------
    // What the engine plans and does
    // ------------------------------------------------------------------------

    fn plan_ops(
        &self,
        snapshot: &RepositorySnapshot<()>,
        intents: &Vec<Intent>,
    ) -> Result<Vec<Operation>, String> {
        let mut ops = Vec::new();
        if snapshot.is_dirty {
            return Ok(ops);
        }
        let info = |name: &str| snapshot.branches.iter().find(|b| b.name == name).unwrap();
        let mut moved: Vec<String> = Vec::new();
        let mut moves: Vec<(String, String)> = Vec::new();
        for intent in intents {
            match intent {
                Intent::Reset { branch } => {
                    if self.tip(&format!("upstream/{}", branch)) != self.tip(branch) {
                        ops.push(Operation::Sync {
                            branch: branch.clone(),
                            predicted_conflict: None,
                        });
                        moved.push(branch.clone());
                    }
                }
                Intent::Move { branch, parent } => moves.push((branch.clone(), parent.clone())),
                Intent::Submit { branch } => ops.push(Operation::Other {
                    branch: branch.clone(),
                    action: "submit".to_string(),
                }),
            }
        }
        loop {
            let before = ops.len();
            for branch in snapshot.branches.iter().filter(|b| !b.is_remote) {
                if moved.contains(&branch.name) {
                    continue;
                }
                let asked = moves.iter().find(|(b, _)| *b == branch.name).map(|(_, p)| p.clone());
                let was_asked = asked.is_some();
                let Some(parent) = asked.or(branch.original_parent.clone()) else {
                    continue;
                };
                let on_parent = self.is_ancestor(self.tip(&parent), self.tip(&branch.name));
                let waits = moves.iter().any(|(b, _)| *b == parent) && !moved.contains(&parent);
                if waits || !(moved.contains(&parent) || (was_asked && !on_parent)) {
                    continue;
                }
                let upstream = match (&branch.heuristic_upstream_oid, &branch.original_parent) {
                    (_, Some(parent)) => Some(info(parent).oid.clone()),
                    (boundary, None) => boundary.clone(),
                };
                ops.push(Operation::Rebase {
                    branch: branch.name.clone(),
                    onto: parent,
                    upstream,
                    predicted_conflict: None,
                });
                moved.push(branch.name.clone());
            }
            if ops.len() == before {
                return Ok(ops);
            }
        }
    }

    fn predict(&self, mut ops: Vec<Operation>) -> Vec<Operation> {
        let trial = self.clone();
        for op in ops.iter_mut() {
            let failed = matches!(trial.attempt(op), Attempt::Failed { .. });
            *trial.halted.borrow_mut() = None;
            match op {
                Operation::Rebase { predicted_conflict, .. } => *predicted_conflict = Some(failed),
                Operation::Sync { predicted_conflict, .. } => *predicted_conflict = Some(failed),
                Operation::Other { .. } => {}
            }
        }
        ops
    }

    fn replay(&self, branch: &str, base: usize, commits: Vec<usize>) -> bool {
        let mut base = base;
        for (i, commit) in commits.iter().enumerate() {
            let Commit { parent, summary, file, content } = self.commits.borrow()[*commit].clone();
            let before = parent.and_then(|p| self.content(p, &file));
            let now = self.content(base, &file);
            if before != now && now.as_ref() != Some(&content) {
                *self.halted.borrow_mut() = Some(Halted {
                    branch: branch.to_string(),
                    base,
                    rest: commits[i..].to_vec(),
                });
                return false;
            }
            base = self.add_commit(base, &file, &content, &summary);
        }
        set_ref(&self.locals, branch, base);
        true
    }

    fn attempt(&self, op: &Operation) -> Attempt<String> {
        self.attempts.set(self.attempts.get() + 1);
        match op {
            Operation::Sync { branch, .. } => {
                let upstream = self.tip(&format!("upstream/{}", branch));
                set_ref(&self.locals, branch, upstream);
                self.push("origin", branch);
                Attempt::Succeeded
            }
            Operation::Rebase { branch, onto, upstream, .. } => {
                let boundary = upstream.as_ref().map(|u| number(u)).unwrap_or(self.tip(onto));
                let commits = self.commits_past(boundary, self.tip(branch));
                if self.replay(branch, self.tip(onto), commits) {
                    Attempt::Succeeded
                } else {
                    Attempt::Failed { message: format!("could not rebase {}", branch) }
                }
            }
            Operation::Other { branch, .. } => {
                let tip = self.tip(branch);
                set_ref(&self.remotes, &format!("upstream/{}", self.main_branch), tip);
                self.locals.borrow_mut().retain(|(n, _)| n != branch);
                Attempt::Succeeded
            }
        }
    }

    /// Resolves the conflict with `content` and goes on with the rebase.
    fn resume_rebase(&self, content: &str) -> bool {
        let Halted { branch, base, rest } = self.halted.borrow_mut().take().unwrap();
        let Commit { summary, file, .. } = self.commits.borrow()[rest[0]].clone();
        let resolved = self.add_commit(base, &file, content, &summary);
        self.replay(&branch, resolved, rest[1..].to_vec())
    }

    fn abort_rebase(&self) {
        *self.halted.borrow_mut() = None;
    }

    // ------------------------------------------------------------------------
    // The library on this repository
    // ------------------------------------------------------------------------

    fn cascade(&self) -> Plan {
        build_cascade_plan(
            self.reading(),
            &self.main_branch,
            |parent: &String, tip: &String| -> Result<bool, String> {
                Ok(self.is_ancestor(number(parent), number(tip)))
            },
            |snapshot: &RepositorySnapshot<()>, intents: &Vec<Intent>| {
                self.plan_ops(snapshot, intents)
            },
            |ops: Vec<Operation>, _branches: &Vec<BranchInfo>| self.predict(ops),
        )
        .unwrap_or_else(|e| panic!("no plan: {:?}", e))
    }

    fn apply(&self, plan: &Plan) -> Vec<OpResult> {
        let (_, applied) = apply_plan(
            self,
            plan,
            &attempt_on,
            &status_of,
        );
        applied.unwrap()
    }

    /// A run of the program: its exit code, and what it prints to either side.
    fn run(&self, options: Options) -> (i32, String, String) {
        let Action::Plan { intent, branch, apply } = choose_action(options) else {
            panic!("no plan was asked for");
        };
        let plan = build_plan(
            intent,
            &branch,
            self.reading(),
            |parent: &String, tip: &String| -> Result<bool, String> {
                Ok(self.is_ancestor(number(parent), number(tip)))
            },
            |snapshot: &RepositorySnapshot<()>, intents: &Vec<Intent>| {
                self.plan_ops(snapshot, intents)
            },
            |ops: Vec<Operation>, _branches: &Vec<BranchInfo>| self.predict(ops),
        )
        .unwrap_or_else(|e| panic!("no plan: {:?}", e));
        assert!(apply);
        let results = self.apply(&plan);
        (
            exit_code(&results),
            report_applied(&plan, &results),
            warn_skipped(&plan.skipped_branches),
        )
    }
}

fn attempt_on<'a>(repo: &'a Repo, op: &Operation) -> (&'a Repo, Attempt<String>) {
    (repo, repo.attempt(op))
}

fn status_of(repo: &Repo) -> (&Repo, Result<RepoStatus, String>) {
    (repo, Ok(repo.status()))
}

fn apply_options() -> Options {
    Options {
        tree: false,
        all: false,
        submit: None,
        converge: None,
        sync: None,
        rebase: None,
        status: false,
        apply: true,
    }
}

fn apply_sync(branch: &str) -> Options {
    Options { sync: Some(branch.to_string()), ..apply_options() }
}

fn apply_submit(branch: &str) -> Options {
    Options { submit: Some(branch.to_string()), ..apply_options() }
}

/// A stack of three of which the middle one conflicts with what upstream did.
fn setup_midstack_conflict(repo: &Repo) {
    let main = repo.main_branch.clone();
    repo.commit_file(&main, "conflict.txt", "v0\n", "Add conflict.txt v0");
    repo.push("origin", &main);
    repo.push("upstream", &main);
    repo.stack_branch("A", &main, "a.txt", "A content");
    set_ref(&repo.locals, "B", repo.tip("A"));
    repo.commit_file("B", "conflict.txt", "v-local\n", "B changes conflict.txt");
    set_ref(&repo.locals, "C", repo.tip("B"));
    repo.commit_file("C", "c.txt", "C content", "C unrelated");
    repo.advance_upstream("conflict.txt", "v-upstream\n", "upstream changes conflict.txt");
}

fn branch_of(result: &OpResult) -> &str {
    match result {
        OpResult::Done { branch }
        | OpResult::Conflict { branch, .. }
        | OpResult::Error { branch, .. } => branch,
    }
}

fn is_done(result: &OpResult) -> bool {
    matches!(result, OpResult::Done { .. })
}

fn assert_all_ok(results: &[OpResult]) {
    for (i, r) in results.iter().enumerate() {
        if !is_done(r) {
            panic!("op {} expected to be done, got {:?} (full: {:?})", i, r, results);
        }
    }
}

fn is_rebase_of(op: &Operation, name: &str) -> bool {
    matches!(op, Operation::Rebase { branch, .. } if branch == name)
}

// ============================================================================
// Cascades that go through
// ============================================================================

#[test]
fn tier_a_linear_stack_cascade() {
    let repo = Repo::with_remotes("main");
    repo.stack_branch("A", "main", "a.txt", "A");
    repo.stack_branch("B", "A", "b.txt", "B");
    repo.stack_branch("C", "B", "c.txt", "C");

    let new_upstream = repo.advance_upstream("u.txt", "u", "upstream commit");
    assert_eq!(new_upstream, repo.tip("upstream/main"));

    let plan = repo.cascade();
    assert!(!plan.ops.is_empty(), "expected plan, got empty");

    let results = repo.apply(&plan);
    assert_all_ok(&results);

    for branch in ["main", "A", "B", "C"] {
        assert!(repo.is_ancestor(new_upstream, repo.tip(branch)), "{}", branch);
    }
    assert_eq!(repo.merge_base("A", "main"), repo.tip("main"));
    assert_eq!(repo.merge_base("B", "A"), repo.tip("A"));
    assert_eq!(repo.merge_base("C", "B"), repo.tip("B"));
}

#[test]
fn tier_a_parallel_children_cascade() {
    let repo = Repo::with_remotes("main");
    repo.stack_branch("A", "main", "a.txt", "A");
    repo.stack_branch("B", "main", "b.txt", "B");
    repo.stack_branch("C", "main", "c.txt", "C");

    let new_upstream = repo.advance_upstream("u.txt", "u", "upstream commit");

    let plan = repo.cascade();
    let results = repo.apply(&plan);
    assert_all_ok(&results);

    let main_tip = repo.tip("main");
    for branch in ["A", "B", "C"] {
        assert!(repo.is_ancestor(new_upstream, repo.tip(branch)), "{}", branch);
        assert_eq!(repo.merge_base(branch, "main"), main_tip, "{}", branch);
    }
}

#[test]
fn tier_a_mixed_tree_cascade() {
    let repo = Repo::with_remotes("main");
    repo.stack_branch("A", "main", "a.txt", "A");
    repo.stack_branch("B", "A", "b.txt", "B");
    repo.stack_branch("C", "A", "c.txt", "C");
    repo.stack_branch("D", "main", "d.txt", "D");

    let new_upstream = repo.advance_upstream("u.txt", "u", "upstream commit");

    let plan = repo.cascade();
    let results = repo.apply(&plan);
    assert_all_ok(&results);

    let main_tip = repo.tip("main");
    let a_tip = repo.tip("A");
    for branch in ["main", "A", "B", "C", "D"] {
        assert!(repo.is_ancestor(new_upstream, repo.tip(branch)), "{}", branch);
    }
    assert_eq!(repo.merge_base("A", "main"), main_tip);
    assert_eq!(repo.merge_base("B", "A"), a_tip);
    assert_eq!(repo.merge_base("C", "A"), a_tip);
    assert_eq!(repo.merge_base("D", "main"), main_tip);
}

#[test]
fn tier_a_parity_with_master_named_branch() {
    let repo = Repo::with_remotes("master");
    assert_eq!(repo.main_branch, "master");
    repo.stack_branch("A", "master", "a.txt", "A");
    repo.stack_branch("B", "A", "b.txt", "B");

    let new_upstream = repo.advance_upstream("u.txt", "u", "upstream commit");

    let plan = repo.cascade();
    assert!(!plan.ops.is_empty(), "{:?}", plan);

    let results = repo.apply(&plan);
    assert_all_ok(&results);

    for branch in ["master", "A", "B"] {
        assert!(repo.is_ancestor(new_upstream, repo.tip(branch)), "{}", branch);
    }
    assert_eq!(repo.merge_base("A", "master"), repo.tip("master"));
    assert_eq!(repo.merge_base("B", "A"), repo.tip("A"));
}

#[test]
fn tier_a_multi_commit_branches_preserved() {
    let repo = Repo::with_remotes("main");
    set_ref(&repo.locals, "A", repo.tip("main"));
    repo.commit_file("A", "a1.txt", "a1", "A commit 1");
    repo.commit_file("A", "a2.txt", "a2", "A commit 2");
    repo.commit_file("A", "a3.txt", "a3", "A commit 3");
    set_ref(&repo.locals, "B", repo.tip("A"));
    repo.commit_file("B", "b1.txt", "b1", "B commit 1");
    repo.commit_file("B", "b2.txt", "b2", "B commit 2");

    let new_upstream = repo.advance_upstream("u.txt", "u", "upstream commit");

    let plan = repo.cascade();
    let results = repo.apply(&plan);
    assert_all_ok(&results);

    let main_tip = repo.tip("main");
    let a_count = repo.commits_past(main_tip, repo.tip("A")).len();
    let b_count = repo.commits_past(repo.tip("A"), repo.tip("B")).len();
    assert_eq!(a_count, 3, "A should still have 3 commits past main");
    assert_eq!(b_count, 2, "B should still have 2 commits past A");

    for branch in ["main", "A", "B"] {
        assert!(repo.is_ancestor(new_upstream, repo.tip(branch)));
    }
}

#[test]
fn tier_a_branch_names_with_slashes() {
    let repo = Repo::with_remotes("main");
    repo.stack_branch("feature/foo", "main", "f.txt", "foo");
    repo.stack_branch("feature/foo-child", "feature/foo", "fc.txt", "child");

    let new_upstream = repo.advance_upstream("u.txt", "u", "upstream commit");

    let plan = repo.cascade();
    let results = repo.apply(&plan);
    assert_all_ok(&results);

    for branch in ["main", "feature/foo", "feature/foo-child"] {
        assert!(repo.is_ancestor(new_upstream, repo.tip(branch)), "{}", branch);
    }
    assert_eq!(
        repo.merge_base("feature/foo-child", "feature/foo"),
        repo.tip("feature/foo"),
        "slash-named child should be stacked on slash-named parent"
    );
}

#[test]
fn tier_a_un_anchored_branches_reported_in_skipped() {
    let repo = Repo::with_remotes("main");
    repo.stack_branch("Normal", "main", "n.txt", "normal");
    repo.orphan("Loner", "loner.txt", "lonely content", "Loner orphan commit unique xyz");
    repo.advance_upstream("u.txt", "u", "upstream commit");

    let plan = repo.cascade();

    assert!(
        plan.skipped_branches.iter().any(|n| n == "Loner"),
        "Loner should appear in skipped_branches; got skipped: {:?}\nops: {:?}",
        plan.skipped_branches,
        plan.ops
    );
    assert!(
        plan.ops.iter().any(|op| is_rebase_of(op, "Normal")),
        "Normal branch should still appear in ops: {:?}",
        plan.ops
    );
}

// ============================================================================
// Stale parents, conflicts and going on after them
// ============================================================================

#[test]
fn tier_b_reanchors_when_topology_parent_is_ancestor_of_sync_target() {
    let repo = Repo::with_remotes("main");
    set_ref(&repo.remotes, "origin/shadow", repo.tip("main"));

    repo.commit_file("main", "main_progress.txt", "C1", "Advance main");
    repo.push("origin", "main");
    repo.push("upstream", "main");

    repo.stack_branch("Sib1", "main", "s1.txt", "s1");
    repo.advance_upstream("u.txt", "u", "upstream new commit");
    repo.fast_forward_main();

    let plan = repo.cascade();

    let sib1_op = plan.ops.iter().find_map(|op| match op {
        Operation::Rebase { branch, onto, upstream, predicted_conflict } if branch == "Sib1" => {
            Some((onto.clone(), upstream.clone(), *predicted_conflict))
        }
        _ => None,
    });
    let (sib1_onto, sib1_upstream, sib1_predicted) = sib1_op.unwrap_or_else(|| {
        panic!("Sib1 should be rebased: {:?} {:?}", plan.ops, plan.skipped_branches)
    });

    assert_eq!(sib1_onto, "main", "{:?}", plan.ops);

    let main_tip = oid(repo.tip("main"));
    let mb_sib1_main = oid(repo.merge_base("Sib1", "main"));
    if let Some(u) = &sib1_upstream {
        assert!(u == &main_tip || u == &mb_sib1_main, "{} {:?}", u, plan.ops);
    }

    assert_ne!(sib1_predicted, Some(true), "{:?}", plan.ops);

    let results = repo.apply(&plan);
    assert_all_ok(&results);
    let new_main_tip = repo.tip("main");
    assert_eq!(repo.merge_base("Sib1", "main"), new_main_tip);
    let commits_ahead = repo.commits_past(repo.tip("main"), repo.tip("Sib1")).len();
    assert_eq!(commits_ahead, 1);
}

#[test]
fn tier_b_detects_stale_siblings_when_some_already_rebased() {
    let repo = Repo::with_remotes("main");
    repo.stack_branch("Done1", "main", "d1.txt", "d1");
    repo.stack_branch("Done2", "main", "d2.txt", "d2");
    repo.stack_branch("Stale1", "main", "s1.txt", "s1");
    repo.stack_branch("Stale2", "main", "s2.txt", "s2");

    repo.advance_upstream("u.txt", "u", "upstream commit");
    let main_old = repo.merge_base("main", "Done1");
    repo.fast_forward_main();
    for branch in ["Done1", "Done2"] {
        let commits = repo.commits_past(main_old, repo.tip(branch));
        assert!(repo.replay(branch, repo.tip("main"), commits));
    }

    let plan = repo.cascade();

    for stale in ["Stale1", "Stale2"] {
        let in_ops = plan.ops.iter().any(|op| is_rebase_of(op, stale));
        let in_skipped = plan.skipped_branches.iter().any(|n| n == stale);
        assert!(
            in_ops || in_skipped,
            "expected {} to be planned or skipped: {:?} {:?}",
            stale,
            plan.ops,
            plan.skipped_branches
        );
    }
}

#[test]
fn tier_b_detects_stale_siblings_after_partial_cascade() {
    let repo = Repo::with_remotes("main");
    repo.stack_branch("Sib1", "main", "s1.txt", "s1");
    repo.stack_branch("Sib2", "main", "s2.txt", "s2");
    repo.stack_branch("Sib3", "main", "s3.txt", "s3");

    repo.advance_upstream("u.txt", "u", "upstream commit");
    repo.fast_forward_main();

    let plan = repo.cascade();

    for sib in ["Sib1", "Sib2", "Sib3"] {
        let in_ops = plan.ops.iter().any(|op| is_rebase_of(op, sib));
        let in_skipped = plan.skipped_branches.iter().any(|n| n == sib);
        assert!(
            in_ops || in_skipped,
            "expected {} to be planned or skipped: {:?} {:?}",
            sib,
            plan.ops,
            plan.skipped_branches
        );
    }
}

#[test]
fn tier_b_conflict_mid_cascade_halts_cleanly() {
    let repo = Repo::with_remotes("main");
    setup_midstack_conflict(&repo);

    let plan = repo.cascade();
    let results = repo.apply(&plan);

    let last = results.last().expect("should have at least one result");
    match last {
        OpResult::Conflict { branch, conflicted_paths, rebase_in_progress } => {
            assert_eq!(branch, "B", "expected halt on B, got on {}", branch);
            assert!(*rebase_in_progress, "rebase should be in progress");
            assert!(
                conflicted_paths.iter().any(|p| p == "conflict.txt"),
                "expected conflict.txt in conflicted_paths, got {:?}",
                conflicted_paths
            );
        }
        other => panic!("expected Conflict as last result, got {:?}", other),
    }

    for r in &results[..results.len() - 1] {
        assert!(is_done(r), "earlier op not done: {:?}", r);
    }
    assert!(
        !results.iter().any(|r| branch_of(r) == "C"),
        "C should not have been attempted; got {:?}",
        results
    );
    assert!(matches!(
        repo.status().state,
        RepoState::Rebase | RepoState::RebaseInteractive | RepoState::RebaseMerge
    ));
}

#[test]
fn tier_b_resume_after_continue() {
    let repo = Repo::with_remotes("main");
    setup_midstack_conflict(&repo);

    let plan1 = repo.cascade();
    let results1 = repo.apply(&plan1);
    assert!(matches!(results1.last(), Some(OpResult::Conflict { .. })));

    assert!(repo.resume_rebase("v-resolved\n"), "the rebase should go on");
    assert!(matches!(repo.status().state, RepoState::Clean));

    let plan2 = repo.cascade();
    assert!(!plan2.ops.is_empty(), "expected residual plan; got {:?}", plan2);

    let results2 = repo.apply(&plan2);
    assert_all_ok(&results2);

    assert_eq!(repo.merge_base("C", "B"), repo.tip("B"));
    let new_upstream = repo.tip("upstream/main");
    assert!(repo.is_ancestor(new_upstream, repo.tip("B")));
    assert!(repo.is_ancestor(new_upstream, repo.tip("C")));
}

#[test]
fn tier_b_resume_after_abort() {
    let repo = Repo::with_remotes("main");
    setup_midstack_conflict(&repo);

    let a_pre = repo.tip("A");
    let b_pre = repo.tip("B");
    let c_pre = repo.tip("C");

    let plan1 = repo.cascade();
    repo.apply(&plan1);
    repo.abort_rebase();
    assert!(matches!(repo.status().state, RepoState::Clean));

    assert_ne!(repo.tip("A"), a_pre, "A should remain rebased after abort");
    assert_eq!(repo.tip("B"), b_pre);
    assert_eq!(repo.tip("C"), c_pre);

    let plan2 = repo.cascade();
    let b_in_plan = plan2.ops.iter().any(|op| is_rebase_of(op, "B"));
    let c_in_plan = plan2.ops.iter().any(|op| is_rebase_of(op, "C"));
    assert!(b_in_plan, "B should be back in the plan after abort: {:?}", plan2);
    assert!(c_in_plan, "C should be in the plan after abort: {:?}", plan2);
}

// ============================================================================
// Guards
// ============================================================================

#[test]
fn tier_c_refuses_when_mid_rebase() {
    let repo = Repo::with_remotes("main");
    setup_midstack_conflict(&repo);

    let plan1 = repo.cascade();
    repo.apply(&plan1);
    assert!(!matches!(repo.status().state, RepoState::Clean));

    let dummy_plan = Plan {
        intent: PlanIntent::Sync,
        branch: "main".to_string(),
        ops: vec![Operation::Rebase {
            branch: "A".to_string(),
            onto: "main".to_string(),
            upstream: None,
            predicted_conflict: None,
        }],
        skipped_branches: Vec::new(),
    };
    let attempts = repo.attempts.get();
    let results = repo.apply(&dummy_plan);
    assert_eq!(repo.attempts.get(), attempts, "no operation may be attempted");
    assert_eq!(results.len(), 1, "expected exactly one refusal result");
    match &results[0] {
        OpResult::Error { message, .. } => {
            assert!(
                message.contains("refusing") || message.contains("in-progress"),
                "error message should explain the refusal, got: {}",
                message
            );
        }
        other => panic!("expected Error, got {:?}", other),
    }
}

#[test]
fn tier_c_dirty_tree_produces_empty_plan() {
    let repo = Repo::with_remotes("main");
    repo.stack_branch("A", "main", "a.txt", "A");
    repo.advance_upstream("u.txt", "u", "upstream commit");

    repo.staged.borrow_mut().push("dirty.txt".to_string());
    assert!(repo.status().is_dirty);

    let plan = repo.cascade();
    assert!(plan.ops.is_empty(), "expected empty plan when dirty, got: {:?}", plan.ops);
    let results = repo.apply(&plan);
    assert!(results.is_empty(), "expected no results, got: {:?}", results);
}

#[test]
fn tier_c_noop_when_already_up_to_date() {
    let repo = Repo::with_remotes("main");
    repo.stack_branch("A", "main", "a.txt", "A");

    let plan = repo.cascade();
    assert!(
        plan.ops.is_empty(),
        "expected empty plan when already up to date, got: {:?}",
        plan.ops
    );
    let results = repo.apply(&plan);
    assert!(results.is_empty());
}

// ============================================================================
// Predictions
// ============================================================================

#[test]
fn tier_d_predicted_clean_actually_applies_cleanly() {
    let repo = Repo::with_remotes("main");
    repo.stack_branch("A", "main", "a.txt", "A content");
    repo.stack_branch("B", "A", "b.txt", "B content");
    repo.advance_upstream("unrelated.txt", "u\n", "unrelated upstream change");

    let plan = repo.cascade();
    for op in &plan.ops {
        if let Operation::Rebase { branch, predicted_conflict, .. } = op {
            assert_eq!(
                *predicted_conflict,
                Some(false),
                "rebase of {} should be predicted CLEAN; full op: {:?}",
                branch,
                op
            );
        }
    }

    let results = repo.apply(&plan);
    assert_all_ok(&results);
}

#[test]
fn tier_d_predicted_conflict_actually_conflicts() {
    let repo = Repo::with_remotes("main");
    setup_midstack_conflict(&repo);

    let plan = repo.cascade();
    let b_predicted = plan.ops.iter().find_map(|op| match op {
        Operation::Rebase { branch, predicted_conflict, .. } if branch == "B" => {
            Some(*predicted_conflict)
        }
        _ => None,
    });
    assert_eq!(
        b_predicted,
        Some(Some(true)),
        "B's rebase should be predicted CONFLICT, full plan: {:?}",
        plan.ops
    );

    let results = repo.apply(&plan);
    let b_result = results.iter().find(|r| branch_of(r) == "B");
    assert!(
        matches!(b_result, Some(OpResult::Conflict { .. })),
        "B's actual outcome should be Conflict, got {:?}; results: {:?}",
        b_result,
        results
    );
}

// ============================================================================
// Runs from the command line
// ============================================================================

#[test]
fn cli_apply_sync_exit_zero_on_clean_cascade() {
    let repo = Repo::with_remotes("main");
    repo.stack_branch("A", "main", "a.txt", "A");
    repo.advance_upstream("u.txt", "u", "upstream commit");

    let (code, stdout, stderr) = repo.run(apply_sync("main"));
    assert_eq!(code, 0, "expected success exit\nstdout: {}\nstderr: {}", stdout, stderr);
}

#[test]
fn cli_apply_sync_exit_nonzero_on_conflict() {
    let repo = Repo::with_remotes("main");
    setup_midstack_conflict(&repo);

    let (code, stdout, stderr) = repo.run(apply_sync("main"));
    assert_ne!(code, 0, "expected non-zero exit\nstdout: {}\nstderr: {}", stdout, stderr);
}

#[test]
fn cli_apply_refuses_when_mid_rebase() {
    let repo = Repo::with_remotes("main");
    setup_midstack_conflict(&repo);

    repo.run(apply_sync("main"));
    let (code, stdout, stderr) = repo.run(apply_sync("main"));

    assert_ne!(code, 0, "expected refusal exit code");
    let combined = format!("{}{}", stdout, stderr);
    assert!(
        combined.contains("refusing") || combined.contains("in-progress"),
        "expected refusal message, got: stdout={}\nstderr={}",
        stdout,
        stderr
    );
}

#[test]
fn cli_apply_sync_human_output_mentions_affected_branches() {
    let repo = Repo::with_remotes("main");
    repo.stack_branch("A", "main", "a.txt", "A");
    repo.advance_upstream("u.txt", "u", "upstream commit");

    let (code, stdout, stderr) = repo.run(apply_sync("main"));
    assert_eq!(code, 0, "expected success: {}", stderr);

    let combined = format!("{}{}", stdout, stderr);
    assert!(combined.contains("main"), "got: {}", combined);
    assert!(combined.contains('A'), "got: {}", combined);
    assert_eq!(stdout, "Applying plan for main:\n  main ok\n  A ok\n");
}

#[test]
fn cli_apply_warns_on_un_anchored_branches() {
    let repo = Repo::with_remotes("main");
    repo.stack_branch("Normal", "main", "n.txt", "normal");
    repo.orphan("Loner", "loner.txt", "lonely", "Loner orphan commit unique xyz");
    repo.advance_upstream("u.txt", "u", "upstream commit");

    let (code, _stdout, stderr) = repo.run(apply_sync("main"));
    assert!(
        stderr.contains("Loner") && stderr.contains("skipped"),
        "expected stderr to warn about Loner skip; got stderr: {}",
        stderr
    );
    assert_eq!(code, 0, "anchored branches should still apply cleanly; stderr: {}", stderr);
}

#[test]
fn cli_apply_submit_executes_and_exits_zero() {
    let repo = Repo::with_remotes("main");
    repo.stack_branch("feat", "main", "feat.txt", "feat");
    repo.push("origin", "feat");
    repo.submittable.borrow_mut().push("feat".to_string());
    let feat_tip = repo.tip("feat");

    let (code, stdout, stderr) = repo.run(apply_submit("feat"));
    assert_eq!(code, 0, "expected success exit\nstdout: {}\nstderr: {}", stdout, stderr);

    let locals = repo.locals.borrow().clone();
    assert!(
        !locals.iter().any(|(b, _)| b == "feat"),
        "feat should be deleted locally; branches: {:?}",
        locals
    );
    assert_eq!(repo.tip("upstream/main"), feat_tip);
    assert_eq!(stdout, "Submitting feat:\n  feat ok\n");
}
