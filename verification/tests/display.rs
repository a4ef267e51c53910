//! The tree, its styles and the text it is made of; the state of a repository;
//! pull requests; the worker.

use gitui::engine::github::{fetch_open_prs, index_by_head, GhOutput, PrInfo};
use gitui::engine::{BranchInfo, Intent, Operation, RepositoryReading};
use gitui::status::{ObservedState, StatusEntry, StatusReading};
use gitui::style::{paint_all, Colour, Span, Style, Weight};
use gitui::text::{len_in_bytes, push_decimal, push_joined, push_repeated};
use gitui::tree::{branch_line, tree_lines, Row};
use gitui::worker::{step, DiffReading, Event, Share, WorkerState};
use gitui::{print_tree_to, repo_status, GitCommand, GitResponse, RepoState};

fn branch(name: &str) -> BranchInfo {
    BranchInfo {
        name: name.to_string(),
        oid: "0".to_string(),
        is_remote: false,
        is_merged: false,
        ahead: 0,
        behind: 0,
        parent_behind: 0,
        aliases: Vec::new(),
        original_parent: None,
        heuristic_parent: None,
        heuristic_upstream_oid: None,
        submittable: false,
        pr: None,
    }
}

fn pr(number: u64, head: &str, is_draft: bool) -> PrInfo {
    PrInfo {
        number,
        url: format!("https://example.com/{}", number),
        is_draft,
        state: "OPEN".to_string(),
        title: format!("Title {}", number),
        head_ref: head.to_string(),
    }
}

fn texts(spans: &Vec<Span>) -> String {
    spans.iter().map(|s| s.text.as_str()).collect()
}

// ============================================================================
// Text
// ============================================================================

#[test]
fn numbers_in_decimal() {
    for (n, text) in [(0u64, "0"), (9, "9"), (10, "10"), (120, "120"), (u64::MAX, "18446744073709551615")] {
        let mut out = "<".to_string();
        push_decimal(&mut out, n);
        assert_eq!(out, format!("<{}", text));
    }
}

#[test]
fn pieces_repeated_and_joined() {
    let mut out = "|".to_string();
    push_repeated(&mut out, "ab", 3);
    assert_eq!(out, "|ababab");
    push_repeated(&mut out, "x", 0);
    assert_eq!(out, "|ababab");
    let mut list = String::new();
    push_joined(&mut list, &vec!["a".to_string(), "b".to_string(), "c".to_string()], ", ");
    assert_eq!(list, "a, b, c");
    push_joined(&mut list, &Vec::new(), ", ");
    assert_eq!(list, "a, b, c");
    assert_eq!(len_in_bytes("aé↑"), 6);
}

// ============================================================================
// Styles
// ============================================================================

fn span(text: &str, colour: Option<Colour>, weight: Weight) -> Span {
    Span { text: text.to_string(), style: Some(Style { colour, weight }) }
}

// Whether colours are on holds for the whole process, so all that depends on it
// is in one test.
#[test]
fn styles_and_trees_are_painted() {
    crossterm::style::force_color_output(true);
    a_tree_is_printed();
    let painted = |s: Span| paint_all(&vec![s]);
    assert_eq!(painted(span("a", None, Weight::Normal)), "a");
    assert_eq!(painted(span("a", None, Weight::Bold)), "\x1b[1ma\x1b[0m");
    let colours = [
        (Colour::Red, 9),
        (Colour::Green, 10),
        (Colour::Yellow, 11),
        (Colour::Cyan, 14),
        (Colour::DarkGrey, 8),
    ];
    for (colour, code) in colours {
        assert_eq!(
            painted(span("a", Some(colour), Weight::Normal)),
            format!("\x1b[38;5;{}ma\x1b[39m", code)
        );
        assert_eq!(
            painted(span("a", Some(colour), Weight::Bold)),
            format!("\x1b[38;5;{}m\x1b[1ma\x1b[0m", code)
        );
    }
    crossterm::style::force_color_output(false);
    assert_eq!(painted(span("a", Some(Colour::Red), Weight::Normal)), "\x1b[ma\x1b[m");
    assert_eq!(painted(span("a", Some(Colour::Red), Weight::Bold)), "\x1b[m\x1b[1ma\x1b[0m");
    assert_eq!(paint_all(&Vec::new()), "");
    let pieces = vec![
        Span { text: " ".to_string(), style: None },
        span("a", None, Weight::Bold),
        Span { text: "\n".to_string(), style: None },
    ];
    assert_eq!(paint_all(&pieces), " \x1b[1ma\x1b[0m\n");
}

// ============================================================================
// The tree
// ============================================================================

#[test]
fn a_line_tells_all_that_is_known_of_a_branch() {
    let mut full = branch("feat");
    full.aliases = vec!["x".to_string(), "y".to_string()];
    full.ahead = 2;
    full.behind = 13;
    full.submittable = true;
    full.is_merged = true;
    full.parent_behind = 1;
    full.pr = Some(pr(42, "feat", true));
    let row: Row = ("feat".to_string(), 1);
    assert_eq!(
        texts(&branch_line(&row, &full, true, 12)),
        "*   feat      x, y (2↑ 13↓) [READY] [MERGED] [DIVERGED] #42 (draft)\n"
    );
    let bare = branch("feat");
    assert_eq!(texts(&branch_line(&row, &bare, false, 12)), "    feat\n");
}

#[test]
fn a_branch_has_diverged_where_its_parents_differ() {
    let row: Row = ("b".to_string(), 0);
    let told = |b: &BranchInfo| texts(&branch_line(&row, b, false, 0)).contains("[DIVERGED]");
    let mut b = branch("b");
    assert!(!told(&b));
    b.original_parent = Some("main".to_string());
    assert!(!told(&b));
    b.heuristic_parent = Some("main".to_string());
    assert!(!told(&b));
    b.heuristic_parent = Some("dev".to_string());
    assert!(told(&b));
    b.original_parent = None;
    assert!(told(&b));
    b.heuristic_parent = None;
    b.parent_behind = 1;
    assert!(told(&b));
}

#[test]
fn a_name_is_yellow_off_track_else_grey_where_remote() {
    let row: Row = ("b".to_string(), 0);
    let mut b = branch("b");
    let first = |b: &BranchInfo, current: bool| {
        let line = branch_line(&row, b, current, 0);
        let style = line[0].style.unwrap();
        (style.colour, style.weight)
    };
    assert!(matches!(first(&b, false), (None, Weight::Normal)));
    assert!(matches!(first(&b, true), (None, Weight::Bold)));
    b.is_remote = true;
    assert!(matches!(first(&b, false), (Some(Colour::DarkGrey), Weight::Normal)));
    b.behind = 1;
    assert!(matches!(first(&b, false), (Some(Colour::Yellow), Weight::Normal)));
    b.is_remote = false;
    assert!(matches!(first(&b, true), (Some(Colour::Yellow), Weight::Bold)));
}

#[test]
fn second_columns_line_up() {
    let mut branches = vec![branch("main"), branch("a-long-name"), branch("x")];
    for b in branches.iter_mut() {
        b.aliases = vec!["ALIAS".to_string()];
    }
    let rows: Vec<Row> =
        vec![("main".to_string(), 0), ("a-long-name".to_string(), 1), ("x".to_string(), 2)];
    let text = texts(&tree_lines(&branches, &rows, false, &"main".to_string()));
    assert_eq!(
        text,
        "* main         ALIAS\n    a-long-name  ALIAS\n      x        ALIAS\n"
    );
    // The widest row takes 13 columns behind its mark. Columns begin two behind
    // that; the widest row itself begins two further.
    let begins: Vec<usize> = text.lines().map(|l| l.find("ALIAS").unwrap()).collect();
    assert_eq!(begins, [15, 17, 15]);
}

#[test]
fn rows_of_unknown_branches_are_left_out() {
    let branches = vec![branch("main")];
    let rows: Vec<Row> = vec![("gone".to_string(), 0), ("main".to_string(), 0)];
    assert_eq!(
        texts(&tree_lines(&branches, &rows, false, &String::new())),
        "  main\n"
    );
}

#[test]
fn a_dirty_tree_is_warned_of() {
    let rows: Vec<Row> = Vec::new();
    let spans = tree_lines(&Vec::new(), &rows, true, &String::new());
    assert_eq!(texts(&spans), "Workspace is DIRTY - Read Only Mode\n");
    assert!(matches!(
        spans[0].style,
        Some(Style { colour: Some(Colour::Red), weight: Weight::Bold })
    ));
    assert!(spans[1].style.is_none());
    assert!(tree_lines(&Vec::new(), &rows, false, &String::new()).is_empty());
}

fn a_tree_is_printed() {
    let mut feat = branch("feat");
    feat.pr = Some(pr(7, "feat", false));
    let reading = RepositoryReading {
        branches: vec![branch("main"), feat],
        history: 5u8,
        dirty: Some(true),
    };
    let layout = |branches: &Vec<BranchInfo>, intents: &Vec<Intent>, history: &u8, remote: bool| {
        assert!(intents.is_empty());
        assert_eq!(*history, 5);
        assert!(remote);
        let rows: Vec<Row> =
            branches.iter().enumerate().map(|(i, b)| (b.name.clone(), i)).collect();
        Ok::<Vec<Row>, String>(rows)
    };
    let text = print_tree_to(&reading, Some("main".to_string()), true, layout).unwrap();
    assert_eq!(
        text,
        "\x1b[38;5;9m\x1b[1mWorkspace is DIRTY - Read Only Mode\x1b[0m\n\
         \x1b[1m* main\x1b[0m\n    feat \x1b[38;5;14m#7\x1b[39m\n"
    );
    let mut twins = vec![branch("m"), branch("feature")];
    for b in twins.iter_mut() {
        b.aliases = vec!["x".to_string()];
    }
    let two = RepositoryReading { branches: twins, history: 5u8, dirty: Some(false) };
    assert_eq!(
        print_tree_to(&two, Some("zz".to_string()), true, layout).unwrap(),
        "  m        \x1b[38;5;8mx\x1b[39m\n    feature  \x1b[38;5;8mx\x1b[39m\n"
    );
    let unmarked = RepositoryReading { branches: vec![branch("main")], history: 5u8, dirty: None };
    assert_eq!(print_tree_to(&unmarked, None, true, layout).unwrap(), "  main\n");
}

#[test]
fn a_layout_that_fails_is_passed_on() {
    let reading = RepositoryReading { branches: Vec::new(), history: (), dirty: None };
    let fails = |_: &Vec<BranchInfo>, _: &Vec<Intent>, _: &(), _: bool| -> Result<Vec<Row>, String> {
        Err("cycle".to_string())
    };
    match print_tree_to(&reading, None, false, fails) {
        Err(e) => assert_eq!(e, "cycle"),
        other => panic!("{:?}", other),
    }
}

// ============================================================================
// The state of a repository
// ============================================================================

fn entry(path: Option<&str>, status: git2::Status) -> StatusEntry {
    StatusEntry { path: path.map(|p| p.to_string()), bits: status.bits() }
}

fn state_of(entries: Vec<StatusEntry>) -> gitui::RepoStatus {
    repo_status(StatusReading { state: ObservedState::Clean, entries, head: None })
}

#[test]
fn conflicts_are_listed_and_make_dirty() {
    let status = state_of(vec![
        entry(Some("a"), git2::Status::CONFLICTED),
        entry(Some("b"), git2::Status::IGNORED),
        entry(Some("c"), git2::Status::CONFLICTED | git2::Status::WT_MODIFIED),
        entry(None, git2::Status::CONFLICTED),
    ]);
    assert_eq!(status.conflicted_paths, ["a", "c"]);
    assert!(status.is_dirty);
}

#[test]
fn a_tree_is_dirty_where_a_tracked_file_has_changed() {
    let dirty = [
        git2::Status::INDEX_NEW,
        git2::Status::INDEX_MODIFIED,
        git2::Status::INDEX_DELETED,
        git2::Status::INDEX_RENAMED,
        git2::Status::INDEX_TYPECHANGE,
        git2::Status::WT_MODIFIED,
        git2::Status::WT_DELETED,
        git2::Status::WT_RENAMED,
        git2::Status::WT_TYPECHANGE,
        git2::Status::CONFLICTED,
    ];
    for flag in dirty {
        let status = state_of(vec![entry(Some("f"), flag)]);
        assert!(status.is_dirty, "{:?}", flag);
        assert_eq!(status.conflicted_paths.len(), if flag == git2::Status::CONFLICTED { 1 } else { 0 });
    }
    for flag in [
        git2::Status::CURRENT,
        git2::Status::WT_NEW,
        git2::Status::IGNORED,
        git2::Status::WT_UNREADABLE,
    ] {
        assert!(!state_of(vec![entry(Some("f"), flag)]).is_dirty, "{:?}", flag);
    }
    assert!(!state_of(Vec::new()).is_dirty);
}

#[test]
fn sequences_are_reported_as_their_steps() {
    let states = [
        (ObservedState::Clean, RepoState::Clean),
        (ObservedState::Merge, RepoState::Merge),
        (ObservedState::Revert, RepoState::Revert),
        (ObservedState::RevertSequence, RepoState::Revert),
        (ObservedState::CherryPick, RepoState::CherryPick),
        (ObservedState::CherryPickSequence, RepoState::CherryPick),
        (ObservedState::Bisect, RepoState::Bisect),
        (ObservedState::Rebase, RepoState::Rebase),
        (ObservedState::RebaseInteractive, RepoState::RebaseInteractive),
        (ObservedState::RebaseMerge, RepoState::RebaseMerge),
        (ObservedState::ApplyMailbox, RepoState::ApplyMailbox),
        (ObservedState::ApplyMailboxOrRebase, RepoState::ApplyMailboxOrRebase),
    ];
    for (observed, reported) in states {
        let status = repo_status(StatusReading {
            state: observed,
            entries: Vec::new(),
            head: Some("main".to_string()),
        });
        assert_eq!(status.state, reported);
        assert_eq!(status.current_branch.as_deref(), Some("main"));
    }
}

// ============================================================================
// Pull requests
// ============================================================================

#[test]
fn the_first_listed_pull_request_of_a_branch_wins() {
    let open = index_by_head(vec![pr(1, "a", false), pr(2, "b", false), pr(3, "a", true)]);
    assert_eq!(open.get(&"a".to_string()).unwrap().number, 1);
    assert_eq!(open.get(&"b".to_string()).unwrap().number, 2);
    assert!(open.get(&"c".to_string()).is_none());
}

#[test]
fn pull_requests_are_listed_by_gh() {
    let open = fetch_open_prs(
        |arguments: Vec<String>| {
            assert_eq!(
                arguments,
                [
                    "pr",
                    "list",
                    "--limit",
                    "200",
                    "--state",
                    "open",
                    "--json",
                    "number,title,state,isDraft,headRefName,url"
                ]
            );
            Some(GhOutput { success: true, stdout: vec![7, 8] })
        },
        |stdout: &Vec<u8>| {
            assert_eq!(*stdout, [7, 8]);
            Some(vec![pr(5, "a", false)])
        },
    );
    assert_eq!(open.get(&"a".to_string()).unwrap().number, 5);
}

#[test]
fn whatever_fails_leaves_no_pull_requests() {
    let a = "a".to_string();
    let all = |_: &Vec<u8>| Some(vec![pr(5, "a", false)]);
    let missing = fetch_open_prs(|_: Vec<String>| None, all);
    assert!(missing.get(&a).is_none());
    let failed = fetch_open_prs(
        |_: Vec<String>| Some(GhOutput { success: false, stdout: Vec::new() }),
        all,
    );
    assert!(failed.get(&a).is_none());
    let garbled = fetch_open_prs(
        |_: Vec<String>| Some(GhOutput { success: true, stdout: Vec::new() }),
        |_: &Vec<u8>| None,
    );
    assert!(garbled.get(&a).is_none());
}

// ============================================================================
// The worker
// ============================================================================

type State = WorkerState<u8, String>;
type Response = GitResponse<u8, u16, u32, String, i64>;

fn go(state: State, event: Event<u8, u16, u32, String, i64>) -> (State, Vec<Response>) {
    step(state, event).unwrap()
}

#[test]
fn branches_are_read_before_the_tree() {
    let (state, sent) = go(WorkerState::Idle, Event::Command(GitCommand::GetBranches));
    assert!(sent.is_empty());
    assert!(matches!(state, WorkerState::ReadingBranches));
    let progress = Event::BranchesProgress { message: "half".to_string(), share: 123 };
    let (state, sent) = go(state, progress);
    assert!(matches!(state, WorkerState::ReadingBranches));
    assert!(matches!(&sent[..], [GitResponse::Progress { message, share: Share::Reported(123) }]
        if message == "half"));
    let (state, sent) = go(state, Event::BranchesRead(Ok((vec![branch("main")], 3))));
    assert!(matches!(&sent[..], [GitResponse::Progress { message, share: Share::Percent(95) }]
        if message == "Checking for dirty worktree..."));
    let (state, sent) = go(state, Event::DirtyRead(Ok(true)));
    assert!(matches!(state, WorkerState::Idle));
    assert!(matches!(&sent[..], [GitResponse::Branches(Ok((branches, 3, true)))]
        if branches.len() == 1));
}

#[test]
fn the_first_error_of_two_readings_is_told() {
    let err = |e: &str| e.to_string();
    for (branches, dirty, told) in [
        (Err(err("b")), Ok(true), "b"),
        (Ok((Vec::new(), 0)), Err(err("d")), "d"),
        (Err(err("b")), Err(err("d")), "b"),
    ] {
        let (state, _) = go(WorkerState::ReadingBranches, Event::BranchesRead(branches));
        let (_, sent) = go(state, Event::DirtyRead(dirty));
        assert!(matches!(&sent[..], [GitResponse::Branches(Err(e))] if e == told));
    }
}

#[test]
fn a_diff_is_told_with_its_progress() {
    let fetch = || {
        GitCommand::FetchDiff { branch: "feat".to_string(), parent: "main".to_string() }
    };
    let (state, sent) = go(WorkerState::Idle, Event::Command(fetch()));
    assert!(matches!(&sent[..], [GitResponse::Progress { message, share: Share::Percent(10) }]
        if message == "Calculating diff for feat..."));
    assert!(matches!(&state, WorkerState::ReadingDiff { branch, parent }
        if branch == "feat" && parent == "main"));
    let (state, sent) = go(state, Event::DiffRead(DiffReading::Parsed(Ok(vec![1, 2]))));
    assert!(matches!(&sent[..], [
        GitResponse::Progress { message, share: Share::Percent(50) },
        GitResponse::DiffLoaded(branch, Ok(files)),
    ] if message == "Parsing diff for feat..." && branch == "feat" && files.len() == 2));

    let (state, _) = go(state, Event::Command(fetch()));
    let unresolved = Event::DiffRead(DiffReading::Unresolved("no such branch".to_string()));
    let (state, sent) = go(state, unresolved);
    assert!(matches!(&sent[..], [GitResponse::DiffLoaded(branch, Err(e))]
        if branch == "feat" && e == "no such branch"));

    let (state, _) = go(state, Event::Command(fetch()));
    let (_, sent) = go(state, Event::DiffRead(DiffReading::Parsed(Err("garbled".to_string()))));
    assert_eq!(sent.len(), 2);
}

#[test]
fn other_commands_are_answered_in_one() {
    let (state, _) = go(WorkerState::Idle, Event::Command(GitCommand::GetCurrentBranch));
    let (state, sent) = go(state, Event::CurrentRead(Ok("main".to_string())));
    assert!(matches!(&sent[..], [GitResponse::CurrentBranch(Ok(name))] if name == "main"));

    let check = GitCommand::CheckConflict {
        branch: "b".to_string(),
        onto: "o".to_string(),
        base: Some("x".to_string()),
    };
    let (state, _) = go(state, Event::Command(check));
    let (state, sent) = go(state, Event::ConflictChecked(Ok(true)));
    assert!(matches!(&sent[..], [GitResponse::ConflictCheck(b, o, Some(x), Ok(true))]
        if b == "b" && o == "o" && x == "x"));

    let log = GitCommand::GetCommitLog { branch: "b".to_string() };
    let (state, _) = go(state, Event::Command(log));
    let (state, sent) = go(state, Event::LogRead(Ok(vec![1])));
    assert!(matches!(&sent[..], [GitResponse::CommitLog(b, Ok(log))] if b == "b" && log.len() == 1));

    let (state, sent) = go(state, Event::Closed);
    assert!(sent.is_empty());
    assert!(matches!(state, WorkerState::Stopped));
}

#[test]
fn predictions_are_told_one_by_one() {
    let plan = vec![Operation::Sync { branch: "main".to_string(), predicted_conflict: None }];
    let predict = GitCommand::PredictConflicts { plan: plan.clone(), branches: Vec::new() };
    let (state, sent) = go(WorkerState::Idle, Event::Command(predict));
    assert!(sent.is_empty());
    let (state, sent) = go(state, Event::PredictionMade { index: 0, result: Some(true) });
    assert!(matches!(&sent[..], [GitResponse::PredictionProgress { index: 0, result: Some(true) }]));
    assert!(matches!(&state, WorkerState::Predicting { plan, .. } if plan.len() == 1));
    let (state, sent) = go(state, Event::Predicted(plan));
    assert!(matches!(&sent[..], [GitResponse::ConflictsPredicted(plan)] if plan.len() == 1));
    assert!(matches!(state, WorkerState::Idle));
}

#[test]
fn an_event_out_of_place_is_no_step() {
    let read: Event<u8, u16, u32, String, i64> = Event::DirtyRead(Ok(true));
    assert!(step(State::Idle, read).is_none());
    let command: Event<u8, u16, u32, String, i64> = Event::Command(GitCommand::GetBranches);
    assert!(step(State::ReadingCurrent, command).is_none());
    let closed: Event<u8, u16, u32, String, i64> = Event::Closed;
    assert!(step(State::Stopped, closed).is_none());
}
