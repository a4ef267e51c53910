//! The tree of branches, one line for each branch.

use crate::engine::{find_branch, lookup, BranchInfo, BranchView, Intent, RepositoryReading};
use crate::style::{is_painting, paint_all, plain, styled, Colour, Span, SpanView, Style, Weight};
use crate::text::{
    byte_len, byte_len_adds, byte_len_of_repeated, decimal, joined, len_in_bytes, push_decimal,
    push_joined, push_repeated, repeated,
};
use vstd::prelude::*;
use vstd::utf8::is_ascii_chars_encode_utf8;

verus! {

/// A line of the tree: the branch and how deep it stands.
pub type Row = (String, usize);

/// The columns that a row takes behind its mark.
pub open spec fn row_width(row: (Seq<char>, usize)) -> nat {
    byte_len(row.0) + 2 * row.1 as nat
}

/// The widest of the first `n` rows.
pub open spec fn widest_upto(rows: Seq<(Seq<char>, usize)>, n: nat) -> nat
    decreases n,
{
    if n == 0 {
        0
    } else {
        let before = widest_upto(rows, (n - 1) as nat);
        let width = row_width(rows[n - 1]);
        if width > before {
            width
        } else {
            before
        }
    }
}

/// What stands in the first column: the mark of the current branch, the
/// indentation and the name.
pub open spec fn display_name(row: (Seq<char>, usize), current: bool) -> Seq<char> {
    (if current {
        "* "@
    } else {
        "  "@
    }) + repeated("  "@, row.1 as nat) + row.0
}

/// How many blanks keep the second column off the first.
pub open spec fn padding(widest: nat, taken: nat) -> nat {
    (if widest > taken {
        (widest - taken) as nat
    } else {
        0
    }) + 2
}

/// Whether the branch and the one it tracks have parted.
pub open spec fn off_track(branch: BranchView) -> bool {
    branch.ahead > 0 || branch.behind > 0
}

/// Whether the branch no longer stands where its parent is.
pub open spec fn diverged(branch: BranchView) -> bool {
    ||| branch.heuristic_parent is Some && branch.heuristic_parent != branch.original_parent
    ||| branch.parent_behind > 0
}

/// The first column in its style.
pub open spec fn name_span(row: (Seq<char>, usize), branch: BranchView, current: bool) -> SpanView {
    SpanView {
        text: display_name(row, current),
        style: Some(
            Style {
                colour: if off_track(branch) {
                    Some(Colour::Yellow)
                } else if branch.is_remote {
                    Some(Colour::DarkGrey)
                } else {
                    None
                },
                weight: if current {
                    Weight::Bold
                } else {
                    Weight::Normal
                },
            },
        ),
    }
}

/// The other names of the branch, in a column of their own.
pub open spec fn alias_spans(branch: BranchView, blanks: nat) -> Seq<SpanView> {
    if branch.aliases.len() == 0 {
        Seq::empty()
    } else {
        seq![
            plain(repeated(" "@, blanks)),
            styled(joined(branch.aliases, ", "@), Colour::DarkGrey, Weight::Normal),
        ]
    }
}

/// The distances from the tracked branch.
pub open spec fn distance_text(branch: BranchView) -> Seq<char> {
    "("@ + decimal(branch.ahead as nat) + "↑ "@ + decimal(branch.behind as nat) + "↓)"@
}

/// A note behind a blank, where it applies.
pub open spec fn note(applies: bool, span: SpanView) -> Seq<SpanView> {
    if applies {
        seq![plain(" "@), span]
    } else {
        Seq::empty()
    }
}

/// The pull request of the branch.
pub open spec fn pr_spans(branch: BranchView) -> Seq<SpanView> {
    match branch.pr {
        None => Seq::empty(),
        Some(pr) => {
            let label = "#"@ + decimal(pr.number as nat);
            seq![
                plain(" "@),
                if pr.is_draft {
                    styled(label + " (draft)"@, Colour::DarkGrey, Weight::Normal)
                } else {
                    styled(label, Colour::Cyan, Weight::Normal)
                },
            ]
        },
    }
}

/// The line of a branch, its end included.
pub open spec fn line_spans(
    row: (Seq<char>, usize),
    branch: BranchView,
    current: bool,
    widest: nat,
) -> Seq<SpanView> {
    let blanks = padding(widest, byte_len(display_name(row, current)));
    seq![name_span(row, branch, current)] + alias_spans(branch, blanks) + note(
        off_track(branch),
        styled(distance_text(branch), Colour::Yellow, Weight::Normal),
    ) + note(branch.submittable, styled("[READY]"@, Colour::Green, Weight::Bold)) + note(
        branch.is_merged,
        styled("[MERGED]"@, Colour::Green, Weight::Normal),
    ) + note(diverged(branch), styled("[DIVERGED]"@, Colour::Red, Weight::Bold)) + pr_spans(
        branch,
    ) + seq![plain("\n"@)]
}

/// The line of a row; a row that names no known branch has none.
pub open spec fn row_spans(
    branches: Seq<BranchView>,
    row: (Seq<char>, usize),
    current: Seq<char>,
    widest: nat,
) -> Seq<SpanView> {
    match lookup(branches, row.0) {
        None => Seq::empty(),
        Some(branch) => line_spans(row, branch, row.0 == current, widest),
    }
}

/// The lines of the first `n` rows.
pub open spec fn rows_upto(
    branches: Seq<BranchView>,
    rows: Seq<(Seq<char>, usize)>,
    current: Seq<char>,
    n: nat,
) -> Seq<SpanView>
    decreases n,
{
    if n == 0 {
        Seq::empty()
    } else {
        rows_upto(branches, rows, current, (n - 1) as nat) + row_spans(
            branches,
            rows[n - 1],
            current,
            widest_upto(rows, rows.len()),
        )
    }
}

/// The warning above the tree of a dirty working tree.
pub open spec fn dirty_spans(dirty: bool) -> Seq<SpanView> {
    if dirty {
        seq![
            styled("Workspace is DIRTY - Read Only Mode"@, Colour::Red, Weight::Bold),
            plain("\n"@),
        ]
    } else {
        Seq::empty()
    }
}

/// Everything that is printed for a tree.
pub open spec fn tree_spans(
    branches: Seq<BranchView>,
    rows: Seq<(Seq<char>, usize)>,
    dirty: bool,
    current: Seq<char>,
) -> Seq<SpanView> {
    dirty_spans(dirty) + rows_upto(branches, rows, current, rows.len())
}

fn span(text: String, colour: Option<Colour>, weight: Weight) -> (s: Span)
    ensures
        s@ == (SpanView { text: text@, style: Some(Style { colour, weight }) }),
{
    Span { text, style: Some(Style { colour, weight }) }
}

fn push_plain(spans: &mut Vec<Span>, text: &str)
    ensures
        final(spans).deep_view() == old(spans).deep_view().push(plain(text@)),
{
    spans.push(Span { text: text.to_owned(), style: None });
    assert(spans.deep_view() =~= old(spans).deep_view().push(plain(text@)));
}

fn push_styled(spans: &mut Vec<Span>, text: String, colour: Colour, weight: Weight)
    ensures
        final(spans).deep_view() == old(spans).deep_view().push(styled(text@, colour, weight)),
{
    spans.push(span(text, Some(colour), weight));
    assert(spans.deep_view() =~= old(spans).deep_view().push(styled(text@, colour, weight)));
}

fn push_note(spans: &mut Vec<Span>, applies: bool, text: String, colour: Colour, weight: Weight)
    ensures
        final(spans).deep_view() == old(spans).deep_view() + note(
            applies,
            styled(text@, colour, weight),
        ),
{
    if applies {
        push_plain(spans, " ");
        push_styled(spans, text, colour, weight);
    }
    assert(spans.deep_view() =~= old(spans).deep_view() + note(
        applies,
        styled(text@, colour, weight),
    ));
}

fn same_branch(left: &Option<String>, right: &Option<String>) -> (same: bool)
    ensures
        same == (left.deep_view() == right.deep_view()),
{
    match (left, right) {
        (Some(l), Some(r)) => *l == *r,
        (None, None) => true,
        _ => false,
    }
}

/// The widest of `rows`.
fn widest_row(rows: &Vec<Row>) -> (widest: u128)
    ensures
        widest == widest_upto(rows.deep_view(), rows.deep_view().len()),
{
    let ghost all = rows.deep_view();
    let mut widest: u128 = 0;
    let mut done: usize = 0;
    while done < rows.len()
        invariant
            done <= rows.len(),
            all == rows.deep_view(),
            widest == widest_upto(all, done as nat),
        decreases rows.len() - done,
    {
        assert(all[done as int] == (rows[done as int].0@, rows[done as int].1));
        let width: u128 = len_in_bytes(rows[done].0.as_str()) as u128 + 2u128
            * (rows[done].1 as u128);
        if width > widest {
            widest = width;
        }
        done = done + 1;
    }
    widest
}

/// Adds the other names of `branch`, `beyond` blanks and two more behind the
/// first column.
fn push_aliases(spans: &mut Vec<Span>, branch: &BranchInfo, beyond: u128)
    ensures
        final(spans).deep_view() == old(spans).deep_view() + alias_spans(
            branch@,
            (beyond + 2) as nat,
        ),
{
    if branch.aliases.len() > 0 {
        let mut gap = String::new();
        push_repeated(&mut gap, " ", beyond);
        gap.append(" ");
        gap.append(" ");
        proof {
            reveal_with_fuel(repeated, 3);
            assert(gap@ =~= repeated(" "@, (beyond + 2) as nat));
        }
        push_plain(spans, gap.as_str());
        let mut names = String::new();
        push_joined(&mut names, &branch.aliases, ", ");
        assert(names@ =~= joined(branch@.aliases, ", "@));
        push_styled(spans, names, Colour::DarkGrey, Weight::Normal);
    }
    assert(spans.deep_view() =~= old(spans).deep_view() + alias_spans(branch@, (beyond + 2) as nat));
}

/// Adds the pull request of `branch`.
fn push_pr(spans: &mut Vec<Span>, branch: &BranchInfo)
    ensures
        final(spans).deep_view() == old(spans).deep_view() + pr_spans(branch@),
{
    match &branch.pr {
        None => {},
        Some(pr) => {
            let mut label = "#".to_owned();
            push_decimal(&mut label, pr.number);
            push_plain(spans, " ");
            if pr.is_draft {
                label.append(" (draft)");
                push_styled(spans, label, Colour::DarkGrey, Weight::Normal);
            } else {
                push_styled(spans, label, Colour::Cyan, Weight::Normal);
            }
        },
    }
    assert(spans.deep_view() =~= old(spans).deep_view() + pr_spans(branch@));
}

/// The distances of `branch` from the one it tracks.
fn distances(branch: &BranchInfo) -> (text: String)
    ensures
        text@ == distance_text(branch@),
{
    let mut text = "(".to_owned();
    push_decimal(&mut text, branch.ahead);
    text.append("↑ ");
    push_decimal(&mut text, branch.behind);
    text.append("↓)");
    text
}

/// The line of `branch` in a tree whose widest row is given.
pub fn branch_line(row: &Row, branch: &BranchInfo, current: bool, widest: u128) -> (spans: Vec<
    Span,
>)
    ensures
        spans.deep_view() == line_spans((row.0@, row.1), branch@, current, widest as nat),
{
    let ghost shown = (row.0@, row.1);
    let mut name = (if current {
        "* "
    } else {
        "  "
    }).to_owned();
    push_repeated(&mut name, "  ", row.1 as u128);
    name.append(row.0.as_str());
    assert(name@ == display_name(shown, current));
    let taken: u128 = len_in_bytes(name.as_str()) as u128;
    let beyond: u128 = if widest > taken {
        widest - taken
    } else {
        0
    };
    let off = branch.ahead > 0 || branch.behind > 0;
    let colour = if off {
        Some(Colour::Yellow)
    } else if branch.is_remote {
        Some(Colour::DarkGrey)
    } else {
        None
    };
    let weight = if current {
        Weight::Bold
    } else {
        Weight::Normal
    };
    let apart = (branch.heuristic_parent.is_some() && !same_branch(
        &branch.heuristic_parent,
        &branch.original_parent,
    )) || branch.parent_behind > 0;
    let mut spans: Vec<Span> = Vec::new();
    spans.push(span(name, colour, weight));
    assert(spans.deep_view() =~= seq![name_span(shown, branch@, current)]);
    push_aliases(&mut spans, branch, beyond);
    push_note(&mut spans, off, distances(branch), Colour::Yellow, Weight::Normal);
    push_note(
        &mut spans,
        branch.can_submit(),
        "[READY]".to_owned(),
        Colour::Green,
        Weight::Bold,
    );
    push_note(
        &mut spans,
        branch.is_merged,
        "[MERGED]".to_owned(),
        Colour::Green,
        Weight::Normal,
    );
    push_note(&mut spans, apart, "[DIVERGED]".to_owned(), Colour::Red, Weight::Bold);
    push_pr(&mut spans, branch);
    let ghost before = spans.deep_view();
    push_plain(&mut spans, "\n");
    assert(before.push(plain("\n"@)) =~= before + seq![plain("\n"@)]);
    spans
}

/// The tree of `branches`, as it is printed: the rows that the engine laid
/// out, under a warning where the working tree is dirty.
pub fn tree_lines(
    branches: &Vec<BranchInfo>,
    rows: &Vec<Row>,
    dirty: bool,
    current: &String,
) -> (spans: Vec<Span>)
    ensures
        spans.deep_view() == tree_spans(
            branches.deep_view(),
            rows.deep_view(),
            dirty,
            current@,
        ),
{
    let ghost known = branches.deep_view();
    let ghost all = rows.deep_view();
    let ghost top = dirty_spans(dirty);
    let mut spans: Vec<Span> = Vec::new();
    if dirty {
        push_styled(
            &mut spans,
            "Workspace is DIRTY - Read Only Mode".to_owned(),
            Colour::Red,
            Weight::Bold,
        );
        push_plain(&mut spans, "\n");
    }
    assert(spans.deep_view() =~= top + rows_upto(known, all, current@, 0));
    let widest = widest_row(rows);
    let mut done: usize = 0;
    while done < rows.len()
        invariant
            done <= rows.len(),
            known == branches.deep_view(),
            all == rows.deep_view(),
            widest == widest_upto(all, all.len()),
            spans.deep_view() == top + rows_upto(known, all, current@, done as nat),
        decreases rows.len() - done,
    {
        let row = &rows[done];
        let ghost before = spans.deep_view();
        assert(all[done as int] == (row.0@, row.1));
        match find_branch(branches, &row.0) {
            None => {
                assert(before + Seq::<SpanView>::empty() =~= before);
            },
            Some(place) => {
                assert(known[place as int] == branches[place as int]@);
                let mut line = branch_line(row, &branches[place], row.0 == *current, widest);
                let ghost added = line.deep_view();
                spans.append(&mut line);
                assert(spans.deep_view() =~= before + added);
            },
        }
        assert(spans.deep_view() == before + row_spans(
            known,
            all[done as int],
            current@,
            widest as nat,
        ));
        done = done + 1;
        assert(spans.deep_view() =~= top + rows_upto(known, all, current@, done as nat));
    }
    spans
}

/// What is printed, given how the engine laid the branches out.
pub open spec fn tree_printed<H, E>(
    reading: RepositoryReading<H>,
    current: Option<String>,
    layout: Result<Vec<Row>, E>,
    printed: Result<String, E>,
) -> bool {
    match layout {
        Err(e) => printed == Err::<String, E>(e),
        Ok(rows) => printed matches Ok(text) && is_painting(
            text@,
            tree_spans(
                reading.branches.deep_view(),
                rows.deep_view(),
                reading.dirty == Some(true),
                match current {
                    Some(name) => name@,
                    None => ""@,
                },
            ),
        ),
    }
}

/// Prints the tree of the branches that were read. The engine lays them out,
/// with no pending intents; remote branches are shown on demand. A working tree
/// that could not be read counts as clean, and where the current branch could
/// not be read none is marked. The one error is the engine's.
pub fn print_tree_to<H, E, F>(
    reading: &RepositoryReading<H>,
    current: Option<String>,
    show_remote: bool,
    flatten: F,
) -> (printed: Result<String, E>) where
    F: FnOnce(&Vec<BranchInfo>, &Vec<Intent>, &H, bool) -> Result<Vec<Row>, E>,

    requires
        forall|none: Vec<Intent>|
            none@.len() == 0 ==> #[trigger] call_requires(
                flatten,
                (&reading.branches, &none, &reading.history, show_remote),
            ),
    ensures
        exists|none: Vec<Intent>, layout: Result<Vec<Row>, E>|
            none@.len() == 0 && #[trigger] call_ensures(
                flatten,
                (&reading.branches, &none, &reading.history, show_remote),
                layout,
            ) && tree_printed(*reading, current, layout, printed),
{
    let none: Vec<Intent> = Vec::new();
    let ghost asked = current;
    let layout = flatten(&reading.branches, &none, &reading.history, show_remote);
    let ghost answered = layout;
    let printed = match layout {
        Err(e) => Err(e),
        Ok(rows) => {
            let name = match current {
                Some(name) => name,
                None => "".to_owned(),
            };
            let dirty = match reading.dirty {
                Some(dirty) => dirty,
                None => false,
            };
            Ok(paint_all(&tree_lines(&reading.branches, &rows, dirty, &name)))
        },
    };
    assert(tree_printed(*reading, asked, answered, printed));
    printed
}

/// The first column takes the width of its row and two more for the mark.
pub proof fn first_column_width(row: (Seq<char>, usize), current: bool)
    ensures
        byte_len(display_name(row, current)) == row_width(row) + 2,
{
    reveal_strlit("* ");
    reveal_strlit("  ");
    let mark = if current {
        "* "@
    } else {
        "  "@
    };
    let indent = repeated("  "@, row.1 as nat);
    is_ascii_chars_encode_utf8("* "@);
    is_ascii_chars_encode_utf8("  "@);
    byte_len_of_repeated("  "@, row.1 as nat);
    byte_len_adds(mark, indent);
    byte_len_adds(mark + indent, row.0);
}

/// No row is wider than the widest.
proof fn widest_is_widest(rows: Seq<(Seq<char>, usize)>, i: int, n: nat)
    requires
        0 <= i < n <= rows.len(),
    ensures
        row_width(rows[i]) <= widest_upto(rows, n),
    decreases n,
{
    if i < n - 1 {
        widest_is_widest(rows, i, (n - 1) as nat);
    }
}

/// The second column of every row begins two columns behind the widest row, or
/// up to two further where the row itself comes within two of the widest; it
/// never touches the first.
pub proof fn second_columns_line_up(rows: Seq<(Seq<char>, usize)>, i: int, current: bool)
    requires
        0 <= i < rows.len(),
    ensures
        ({
            let widest = widest_upto(rows, rows.len());
            let taken = byte_len(display_name(rows[i], current));
            let begins = taken + padding(widest, taken);
            &&& begins >= taken + 2
            &&& widest + 2 <= begins <= widest + 4
            &&& row_width(rows[i]) + 2 <= widest ==> begins == widest + 2
        }),
{
    first_column_width(rows[i], current);
    widest_is_widest(rows, i, rows.len());
}

} // verus!
