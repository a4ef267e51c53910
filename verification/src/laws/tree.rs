//! Laws of the tree.

use crate::engine::{BranchInfo, Intent, RepositoryReading};
use crate::laws::plans::{first_named, found_is_first, nobody_named};
use crate::laws::text::{all_pieces, piece_of};
use crate::style::{
    all_shown, is_painting, plain, put_together, shown, styled, Colour, Span, SpanView, Style,
    Weight,
};
use crate::text::{byte_len, decimal, joined, repeated};
use crate::tree::{
    alias_spans, branch_line, dirty_spans, display_name, distance_text, diverged, line_spans,
    name_span, note, off_track, padding, pr_spans, print_tree_to, row_spans, rows_upto, tree_lines,
    tree_printed, tree_spans, widest_upto, Row,
};
use vstd::prelude::*;
use vstd::utf8::encode_utf8;

verus! {

/// A run of text and the style that it is displayed in, if it is.
pub type Run = (Seq<char>, Option<Style>);

/// The runs of some spans.
pub open spec fn runs(spans: Seq<Span>) -> Seq<Run> {
    Seq::new(spans.len(), |i: int| (spans[i].text@, spans[i].style))
}

/// A run that is written as it is.
pub open spec fn bare(text: Seq<char>) -> Run {
    (text, None)
}

/// A run in a colour and a weight.
pub open spec fn dressed(text: Seq<char>, colour: Colour, weight: Weight) -> Run {
    (text, Some(Style { colour: Some(colour), weight }))
}

/// How many of one thing there are.
pub open spec fn one_if(there: bool) -> int {
    if there {
        1
    } else {
        0
    }
}

/// Whether the branch has commits that the one it tracks has not, or the other
/// way round.
pub open spec fn apart(branch: BranchInfo) -> bool {
    branch.ahead != 0 || branch.behind != 0
}

/// Whether the parent has commits that the branch has not, or the heuristic parent
/// is another than the parent.
pub open spec fn astray(branch: BranchInfo) -> bool {
    ||| branch.parent_behind != 0
    ||| branch.heuristic_parent is Some && !(branch.original_parent is Some
        && branch.original_parent->0@ == branch.heuristic_parent->0@)
}

/// Whether `run` is the first of a line: the mark, which is a star for the current
/// branch, two blanks for each step down, and the name; bold for the current
/// branch; yellow for one that is apart from what it tracks, and else grey for a
/// remote one.
pub open spec fn names(run: Run, row: Row, branch: BranchInfo, current: bool) -> bool {
    let text = run.0;
    let indent = 2 * row.1 as int;
    &&& text.len() == 2 + indent + row.0@.len()
    &&& text[0] == (if current {
        '*'
    } else {
        ' '
    })
    &&& forall|i: int| 1 <= i < 2 + indent ==> #[trigger] text[i] == ' '
    &&& text.skip(2 + indent) == row.0@
    &&& run.1 matches Some(style) && {
        &&& style.weight is Bold <==> current
        &&& style.colour == (if apart(branch) {
            Some(Colour::Yellow)
        } else if branch.is_remote {
            Some(Colour::DarkGrey)
        } else {
            None::<Colour>
        })
    }
}

/// Whether `run` is the gap before the aliases of a line whose first run is
/// `first`: blanks up to two columns behind the widest row, or behind the first
/// run where that reaches further.
pub open spec fn gap(run: Run, first: Run, widest: int) -> bool {
    let taken = encode_utf8(first.0).len();
    &&& run.1 is None
    &&& forall|i: int| 0 <= i < run.0.len() ==> #[trigger] run.0[i] == ' '
    &&& taken + run.0.len() == 2 + (if widest > taken {
        widest
    } else {
        taken as int
    })
}

/// Whether `line` is that of a branch: its name; its aliases, where it has any; how
/// far it is apart from what it tracks, where it is; that it is ready, merged or
/// astray, where it is; its pull request, where it has one; and the end of the
/// line. All of them stand in this order, each behind a blank.
pub open spec fn is_line(
    line: Seq<Run>,
    row: Row,
    branch: BranchInfo,
    current: bool,
    widest: int,
) -> bool {
    let a = one_if(branch.aliases@.len() > 0);
    let d = one_if(apart(branch));
    let r = one_if(branch.submittable);
    let m = one_if(branch.is_merged);
    let v = one_if(astray(branch));
    let p = one_if(branch.pr is Some);
    &&& line.len() == 2 + 2 * (a + d + r + m + v + p)
    &&& names(line[0], row, branch, current)
    &&& a == 1 ==> gap(line[1], line[0], widest) && line[2] == dressed(
        joined(branch.aliases.deep_view(), ", "@),
        Colour::DarkGrey,
        Weight::Normal,
    )
    &&& d == 1 ==> line[1 + 2 * a] == bare(" "@) && line[2 + 2 * a] == dressed(
        "("@ + decimal(branch.ahead as nat) + "↑ "@ + decimal(branch.behind as nat) + "↓)"@,
        Colour::Yellow,
        Weight::Normal,
    )
    &&& r == 1 ==> line[1 + 2 * (a + d)] == bare(" "@) && line[2 + 2 * (a + d)] == dressed(
        "[READY]"@,
        Colour::Green,
        Weight::Bold,
    )
    &&& m == 1 ==> line[1 + 2 * (a + d + r)] == bare(" "@) && line[2 + 2 * (a + d + r)] == dressed(
        "[MERGED]"@,
        Colour::Green,
        Weight::Normal,
    )
    &&& v == 1 ==> line[1 + 2 * (a + d + r + m)] == bare(" "@) && line[2 + 2 * (a + d + r + m)]
        == dressed("[DIVERGED]"@, Colour::Red, Weight::Bold)
    &&& p == 1 ==> line[1 + 2 * (a + d + r + m + v)] == bare(" "@) && line[2 + 2 * (a + d + r + m
        + v)] == (if branch.pr->0.is_draft {
        dressed(
            "#"@ + decimal(branch.pr->0.number as nat) + " (draft)"@,
            Colour::DarkGrey,
            Weight::Normal,
        )
    } else {
        dressed("#"@ + decimal(branch.pr->0.number as nat), Colour::Cyan, Weight::Normal)
    })
    &&& line.last() == bare("\n"@)
}

/// The line of a branch tells all that is known of it and no more.
pub proof fn a_line_tells_what_is_known_of_its_branch(
    row: Row,
    branch: BranchInfo,
    current: bool,
    widest: u128,
    spans: Vec<Span>,
)
    requires
        call_ensures(branch_line, (&row, &branch, current, widest), spans),
    ensures
        is_line(runs(spans@), row, branch, current, widest as int),
{
    line_is_laid_out(row, branch, current, widest as nat);
    same_runs(spans, line_spans((row.0@, row.1), branch@, current, widest as nat));
}

/// The distances of a branch are told, and its name is yellow, exactly where it
/// has commits that the one it tracks has not or the other way round: no other
/// run of a line is yellow.
pub proof fn distances_are_told_exactly_where_there_are_any(
    row: Row,
    branch: BranchInfo,
    current: bool,
    widest: u128,
    spans: Vec<Span>,
)
    requires
        call_ensures(branch_line, (&row, &branch, current, widest), spans),
    ensures
        yellow(spans@[0]) <==> branch.ahead != 0 || branch.behind != 0,
        (exists|i: int| 1 <= i < spans@.len() && #[trigger] yellow(spans@[i])) <==> branch.ahead
            != 0 || branch.behind != 0,
        forall|i: int|
            1 <= i < spans@.len() && #[trigger] yellow(spans@[i]) ==> spans@[i].text@ == "("@
                + decimal(branch.ahead as nat) + "↑ "@ + decimal(branch.behind as nat) + "↓)"@,
{
    a_line_tells_what_is_known_of_its_branch(row, branch, current, widest, spans);
    let line = runs(spans@);
    let a = one_if(branch.aliases@.len() > 0);
    assert forall|i: int| 0 <= i < spans@.len() implies (#[trigger] spans@[i]).style
        == line[i].1 && spans@[i].text@ == line[i].0 by {}
    assert(spans@[0].style == line[0].1);
    if apart(branch) {
        assert(yellow(spans@[2 + 2 * a]));
    }
    let d = one_if(apart(branch));
    let r = one_if(branch.submittable);
    let m = one_if(branch.is_merged);
    let v = one_if(astray(branch));
    let p = one_if(branch.pr is Some);
    assert forall|i: int| 1 <= i < spans@.len() && #[trigger] yellow(spans@[i]) implies apart(
        branch,
    ) && i == 2 + 2 * a by {
        assert(line[i].1 == spans@[i].style);
    }
}

/// Whether a span is yellow.
pub open spec fn yellow(span: Span) -> bool {
    span.style matches Some(style) && style.colour == Some(Colour::Yellow)
}

/// The runs that some views speak of.
spec fn pairs(views: Seq<SpanView>) -> Seq<Run> {
    Seq::new(views.len(), |i: int| (views[i].text, views[i].style))
}

proof fn same_runs(spans: Vec<Span>, views: Seq<SpanView>)
    requires
        spans.deep_view() == views,
    ensures
        runs(spans@) == pairs(views),
{
    assert(spans.deep_view().len() == spans@.len());
    assert forall|i: int| 0 <= i < spans@.len() implies #[trigger] runs(spans@)[i] == pairs(
        views,
    )[i] by {
        assert(spans.deep_view()[i] == spans@[i]@);
    }
    assert(runs(spans@) =~= pairs(views));
}

proof fn first_run_names(row: Row, branch: BranchInfo, current: bool)
    ensures
        ({
            let name = name_span((row.0@, row.1), branch@, current);
            names((name.text, name.style), row, branch, current)
        }),
{
    let shown = (row.0@, row.1);
    let text = display_name(shown, current);
    let blanks = repeated("  "@, row.1 as nat);
    reveal_strlit("* ");
    reveal_strlit("  ");
    blanks_are_blank("  "@, row.1 as nat);
    assert(blanks.len() == 2 * row.1);
    assert forall|i: int| 1 <= i < 2 + 2 * row.1 implies #[trigger] text[i] == ' ' by {
        if i >= 2 {
            assert(text[i] == blanks[i - 2]);
        }
    }
    assert(text.skip(2 + 2 * row.1 as int) =~= row.0@);
}

proof fn blanks_are_blank(piece: Seq<char>, times: nat)
    requires
        forall|i: int| 0 <= i < piece.len() ==> #[trigger] piece[i] == ' ',
    ensures
        piece.len() == 1 ==> repeated(piece, times).len() == times,
        piece.len() == 2 ==> repeated(piece, times).len() == 2 * times,
        forall|i: int|
            0 <= i < repeated(piece, times).len() ==> #[trigger] repeated(piece, times)[i] == ' ',
    decreases times,
{
    if times > 0 {
        let before = repeated(piece, (times - 1) as nat);
        blanks_are_blank(piece, (times - 1) as nat);
        assert forall|i: int| 0 <= i < repeated(piece, times).len() implies #[trigger] repeated(
            piece,
            times,
        )[i] == ' ' by {
            if i < before.len() {
                assert(repeated(piece, times)[i] == before[i]);
            } else {
                assert(repeated(piece, times)[i] == piece[i - before.len()]);
            }
        }
    }
}

/// `first` and behind it the first `k` of some notes.
spec fn noted(first: Seq<SpanView>, notes: Seq<(bool, SpanView)>, k: nat) -> Seq<SpanView>
    decreases k,
{
    if k == 0 {
        first
    } else {
        noted(first, notes, (k - 1) as nat) + note(notes[k - 1].0, notes[k - 1].1)
    }
}

/// How many of the first `k` notes apply.
spec fn applying(notes: Seq<(bool, SpanView)>, k: nat) -> int
    decreases k,
{
    if k == 0 {
        0
    } else {
        applying(notes, (k - 1) as nat) + one_if(notes[k - 1].0)
    }
}

/// A note that applies stands with a blank behind `first` and the notes before it
/// that apply.
proof fn notes_stand_in_order(first: Seq<SpanView>, notes: Seq<(bool, SpanView)>, k: nat)
    requires
        k <= notes.len(),
    ensures
        noted(first, notes, k).len() == first.len() + 2 * applying(notes, k),
        applying(notes, k) >= 0,
        forall|i: int| 0 <= i < first.len() ==> #[trigger] noted(first, notes, k)[i] == first[i],
        forall|j: nat|
            j < k && notes[j as int].0 ==> {
                let at = first.len() + 2 * #[trigger] applying(notes, j);
                &&& 0 <= at
                &&& at + 1 < noted(first, notes, k).len()
                &&& noted(first, notes, k)[at] == plain(" "@)
                &&& noted(first, notes, k)[at + 1] == notes[j as int].1
            },
    decreases k,
{
    if k > 0 {
        notes_stand_in_order(first, notes, (k - 1) as nat);
        let before = noted(first, notes, (k - 1) as nat);
        let after = noted(first, notes, k);
        assert forall|i: int| 0 <= i < before.len() implies #[trigger] after[i] == before[i] by {}
        assert forall|j: nat| j < k && notes[j as int].0 implies {
            let at = first.len() + 2 * #[trigger] applying(notes, j);
            &&& 0 <= at
            &&& at + 1 < after.len()
            &&& after[at] == plain(" "@)
            &&& after[at + 1] == notes[j as int].1
        } by {
            let at = first.len() + 2 * applying(notes, j);
            if j < k - 1 {
                assert(after[at] == before[at]);
                assert(after[at + 1] == before[at + 1]);
            }
        }
    }
}

/// The pull request of a branch as its line tells it.
spec fn pr_run(branch: BranchInfo) -> SpanView {
    if branch.pr->0.is_draft {
        styled(
            "#"@ + decimal(branch.pr->0.number as nat) + " (draft)"@,
            Colour::DarkGrey,
            Weight::Normal,
        )
    } else {
        styled("#"@ + decimal(branch.pr->0.number as nat), Colour::Cyan, Weight::Normal)
    }
}

/// What a line may tell behind the aliases.
#[verifier::opaque]
spec fn notes_of(branch: BranchInfo) -> Seq<(bool, SpanView)> {
    seq![
        (apart(branch), styled(distance_text(branch@), Colour::Yellow, Weight::Normal)),
        (branch.submittable, styled("[READY]"@, Colour::Green, Weight::Bold)),
        (branch.is_merged, styled("[MERGED]"@, Colour::Green, Weight::Normal)),
        (astray(branch), styled("[DIVERGED]"@, Colour::Red, Weight::Bold)),
        (branch.pr is Some, pr_run(branch)),
    ]
}

proof fn line_is_noted(
    shown: (Seq<char>, usize),
    branch: BranchInfo,
    current: bool,
    widest: nat,
)
    ensures
        line_spans(shown, branch@, current, widest) == noted(
            seq![name_span(shown, branch@, current)] + alias_spans(
                branch@,
                padding(widest, byte_len(display_name(shown, current))),
            ),
            notes_of(branch),
            5,
        ) + seq![plain("\n"@)],
{
    let view = branch@;
    reveal(notes_of);
    assert(off_track(view) == apart(branch));
    assert(diverged(view) == astray(branch)) by {
        assert(view.original_parent is Some == branch.original_parent is Some);
        assert(view.heuristic_parent is Some == branch.heuristic_parent is Some);
    }
    assert(pr_spans(view) =~= note(branch.pr is Some, pr_run(branch)));
    reveal_with_fuel(noted, 6);
}

proof fn notes_are_counted(branch: BranchInfo)
    ensures
        ({
            let notes = notes_of(branch);
            let d = one_if(apart(branch));
            let r = one_if(branch.submittable);
            let m = one_if(branch.is_merged);
            let v = one_if(astray(branch));
            let p = one_if(branch.pr is Some);
            &&& notes.len() == 5
            &&& notes[0] == (
                apart(branch),
                styled(distance_text(branch@), Colour::Yellow, Weight::Normal),
            )
            &&& notes[1] == (branch.submittable, styled("[READY]"@, Colour::Green, Weight::Bold))
            &&& notes[2] == (branch.is_merged, styled("[MERGED]"@, Colour::Green, Weight::Normal))
            &&& notes[3] == (astray(branch), styled("[DIVERGED]"@, Colour::Red, Weight::Bold))
            &&& notes[4] == (branch.pr is Some, pr_run(branch))
            &&& applying(notes, 0) == 0
            &&& applying(notes, 1) == d
            &&& applying(notes, 2) == d + r
            &&& applying(notes, 3) == d + r + m
            &&& applying(notes, 4) == d + r + m + v
            &&& applying(notes, 5) == d + r + m + v + p
        }),
{
    reveal(notes_of);
    reveal_with_fuel(applying, 6);
}

proof fn line_is_laid_out(row: Row, branch: BranchInfo, current: bool, widest: nat)
    ensures
        is_line(
            pairs(line_spans((row.0@, row.1), branch@, current, widest)),
            row,
            branch,
            current,
            widest as int,
        ),
{
    let shown = (row.0@, row.1);
    let name = name_span(shown, branch@, current);
    let blanks = padding(widest, byte_len(display_name(shown, current)));
    let first = seq![name] + alias_spans(branch@, blanks);
    let notes = notes_of(branch);
    let told = noted(first, notes, 5);
    let line = line_spans(shown, branch@, current, widest);
    let w = pairs(line);
    line_is_noted(shown, branch, current, widest);
    notes_are_counted(branch);
    runs_of_line(first, notes, told, line);
    assert(branch.aliases.deep_view().len() == branch.aliases@.len());
    assert(first[0] == name);
    assert(w[0] == (name.text, name.style));
    first_run_names(row, branch, current);
    if branch.aliases@.len() > 0 {
        reveal_strlit(" ");
        blanks_are_blank(" "@, blanks);
        assert(first[1] == plain(repeated(" "@, blanks)));
        assert(w[1] == bare(repeated(" "@, blanks)));
        assert(w[2] == (first[2].text, first[2].style));
        assert(gap(w[1], w[0], widest as int));
    }
}

/// Where the notes of a line stand among its runs.
proof fn runs_of_line(
    first: Seq<SpanView>,
    notes: Seq<(bool, SpanView)>,
    told: Seq<SpanView>,
    line: Seq<SpanView>,
)
    requires
        notes.len() == 5,
        told == noted(first, notes, 5),
        line == told + seq![plain("\n"@)],
    ensures
        pairs(line).len() == first.len() + 2 * applying(notes, 5) + 1,
        forall|i: int|
            0 <= i < first.len() ==> #[trigger] pairs(line)[i] == (first[i].text, first[i].style),
        forall|j: nat|
            j < 5 && notes[j as int].0 ==> {
                let at = first.len() + 2 * #[trigger] applying(notes, j);
                &&& pairs(line)[at] == bare(" "@)
                &&& pairs(line)[at + 1] == (notes[j as int].1.text, notes[j as int].1.style)
            },
        pairs(line).last() == bare("\n"@),
{
    notes_stand_in_order(first, notes, 5);
    assert forall|i: int| 0 <= i < told.len() implies #[trigger] pairs(line)[i] == (
        told[i].text,
        told[i].style,
    ) by {}
    assert forall|i: int| 0 <= i < first.len() implies #[trigger] pairs(line)[i] == (
        first[i].text,
        first[i].style,
    ) by {
        assert(told[i] == first[i]);
    }
}

/// Whether `widest` is the width of the widest row, which takes the bytes of its
/// name and two for each step down.
pub open spec fn widest_of(rows: Seq<Row>, widest: int) -> bool {
    &&& rows.len() == 0 ==> widest == 0
    &&& forall|i: int|
        0 <= i < rows.len() ==> encode_utf8((#[trigger] rows[i]).0@).len() + 2 * rows[i].1
            <= widest
    &&& rows.len() > 0 ==> exists|i: int|
        0 <= i < rows.len() && encode_utf8((#[trigger] rows[i]).0@).len() + 2 * rows[i].1 == widest
}

/// Whether `lines` are those of the rows: none for a row that names no branch,
/// else that of the first branch with the name, which is the current one where
/// it has its name.
pub open spec fn lines_of(
    branches: Seq<BranchInfo>,
    rows: Seq<Row>,
    current: Seq<char>,
    widest: int,
    lines: Seq<Seq<Run>>,
) -> bool {
    &&& widest_of(rows, widest)
    &&& lines.len() == rows.len()
    &&& forall|i: int|
        0 <= i < rows.len() && nobody_named(branches, rows[i].0@) ==> (#[trigger] lines[i]).len()
            == 0
    &&& forall|i: int, b: int|
        0 <= i < rows.len() && #[trigger] first_named(branches, rows[i].0@, b) ==> is_line(
            #[trigger] lines[i],
            rows[i],
            branches[b],
            rows[i].0@ == current,
            widest,
        )
}

/// Whether `all` is the tree of the rows: a warning where the working tree is
/// dirty, and then the lines of the rows, in their order.
pub open spec fn is_tree(
    branches: Seq<BranchInfo>,
    rows: Seq<Row>,
    dirty: bool,
    current: Seq<char>,
    all: Seq<Run>,
) -> bool {
    exists|lines: Seq<Seq<Run>>, widest: int| #[trigger]
        lines_of(branches, rows, current, widest, lines) && all == (if dirty {
            seq![
                dressed("Workspace is DIRTY - Read Only Mode"@, Colour::Red, Weight::Bold),
                bare("\n"@),
            ]
        } else {
            Seq::empty()
        }) + lines.flatten()
}

/// A tree has the line of each row that names a branch, in the order of the rows,
/// under a warning exactly where the working tree is dirty.
pub proof fn a_tree_has_a_line_for_each_row(
    branches: Vec<BranchInfo>,
    rows: Vec<Row>,
    dirty: bool,
    current: String,
    spans: Vec<Span>,
)
    requires
        call_ensures(tree_lines, (&branches, &rows, dirty, &current), spans),
    ensures
        is_tree(branches@, rows@, dirty, current@, runs(spans@)),
{
    tree_is_laid_out(branches, rows, dirty, current@);
    same_runs(spans, tree_spans(branches.deep_view(), rows.deep_view(), dirty, current@));
}

proof fn tree_is_laid_out(
    branches: Vec<BranchInfo>,
    rows: Vec<Row>,
    dirty: bool,
    current: Seq<char>,
)
    ensures
        is_tree(
            branches@,
            rows@,
            dirty,
            current,
            pairs(tree_spans(branches.deep_view(), rows.deep_view(), dirty, current)),
        ),
{
    let known = branches.deep_view();
    let all = rows.deep_view();
    let widest = widest_upto(all, all.len());
    assert(all.len() == rows@.len());
    let lines = Seq::new(
        rows@.len(),
        |i: int| pairs(row_spans(known, all[i], current, widest)),
    );
    widest_is_reached(rows, all.len());
    assert(rows@.take(all.len() as int) =~= rows@);
    assert forall|i: int|
        0 <= i < rows@.len() && nobody_named(branches@, rows@[i].0@) implies (
    #[trigger] lines[i]).len() == 0 by {
        found_is_first(branches, rows@[i].0@);
        assert(all[i] == (rows@[i].0@, rows@[i].1));
    }
    assert forall|i: int, b: int|
        0 <= i < rows@.len() && #[trigger] first_named(branches@, rows@[i].0@, b) implies is_line(
        #[trigger] lines[i],
        rows@[i],
        branches@[b],
        rows@[i].0@ == current,
        widest as int,
    ) by {
        found_is_first(branches, rows@[i].0@);
        assert(all[i] == (rows@[i].0@, rows@[i].1));
        let place = crate::engine::first_place(known, rows@[i].0@)->0;
        assert(place == b);
        assert(known[b] == branches@[b]@);
        line_is_laid_out(rows@[i], branches@[b], rows@[i].0@ == current, widest);
    }
    assert(lines_of(branches@, rows@, current, widest as int, lines));
    rows_are_flat(known, all, current, lines, all.len());
    assert(lines.take(all.len() as int) =~= lines);
    let top = dirty_spans(dirty);
    let rest = rows_upto(known, all, current, all.len());
    assert(pairs(top + rest) =~= pairs(top) + pairs(rest));
    assert(pairs(top) =~= (if dirty {
        seq![
            dressed("Workspace is DIRTY - Read Only Mode"@, Colour::Red, Weight::Bold),
            bare("\n"@),
        ]
    } else {
        Seq::empty()
    }));
}

proof fn rows_are_flat(
    known: Seq<crate::engine::BranchView>,
    all: Seq<(Seq<char>, usize)>,
    current: Seq<char>,
    lines: Seq<Seq<Run>>,
    n: nat,
)
    requires
        n <= all.len(),
        lines.len() == all.len(),
        forall|i: int|
            0 <= i < all.len() ==> #[trigger] lines[i] == pairs(
                row_spans(known, all[i], current, widest_upto(all, all.len())),
            ),
    ensures
        pairs(rows_upto(known, all, current, n)) == lines.take(n as int).flatten(),
    decreases n,
{
    if n == 0 {
        assert(lines.take(0) =~= Seq::empty());
        assert(lines.take(0).flatten() =~= Seq::empty());
        assert(pairs(rows_upto(known, all, current, 0)) =~= Seq::empty());
    } else {
        rows_are_flat(known, all, current, lines, (n - 1) as nat);
        let first = lines.take(n as int);
        assert(first.drop_last() =~= lines.take(n - 1));
        first.lemma_flatten_and_flatten_alt_are_equivalent();
        first.drop_last().lemma_flatten_and_flatten_alt_are_equivalent();
        let before = rows_upto(known, all, current, (n - 1) as nat);
        let line = row_spans(known, all[n - 1], current, widest_upto(all, all.len()));
        assert(pairs(before + line) =~= pairs(before) + pairs(line));
        assert(first.last() == lines[n - 1]);
    }
}

proof fn widest_is_reached(rows: Vec<Row>, n: nat)
    requires
        n <= rows@.len(),
    ensures
        widest_of(rows@.take(n as int), widest_upto(rows.deep_view(), n) as int),
    decreases n,
{
    let all = rows.deep_view();
    let first = rows@.take(n as int);
    let widest = widest_upto(all, n);
    if n > 0 {
        widest_is_reached(rows, (n - 1) as nat);
        let before = rows@.take(n - 1);
        assert(all[n - 1] == (rows@[n - 1].0@, rows@[n - 1].1));
        assert forall|i: int| 0 <= i < first.len() implies encode_utf8(
            (#[trigger] first[i]).0@,
        ).len() + 2 * first[i].1 <= widest by {
            if i < n - 1 {
                assert(before[i] == first[i]);
            }
        }
        if widest == widest_upto(all, (n - 1) as nat) && n > 1 {
            let i = choose|i: int|
                0 <= i < before.len() && encode_utf8((#[trigger] before[i]).0@).len() + 2
                    * before[i].1 == widest_upto(all, (n - 1) as nat);
            assert(first[i] == before[i]);
        } else {
            assert(encode_utf8(first[n - 1].0@).len() + 2 * first[n - 1].1 == widest);
        }
    }
    if n == rows@.len() {
        assert(first =~= rows@);
    }
}

/// What is printed of a tree is the tree of the branches as they were read, in
/// the rows that the engine laid out for them without any intents; where the
/// engine fails, its error. The working tree is dirty where it was found to be,
/// and no branch is marked where the current one could not be read.
pub proof fn a_tree_is_printed_as_it_is_laid_out<H, E, F>(
    reading: RepositoryReading<H>,
    current: Option<String>,
    show_remote: bool,
    flatten: F,
    printed: Result<String, E>,
) where F: FnOnce(&Vec<BranchInfo>, &Vec<Intent>, &H, bool) -> Result<Vec<Row>, E>
    requires
        call_ensures(
            print_tree_to::<H, E, F>,
            (&reading, current, show_remote, flatten),
            printed,
        ),
    ensures
        exists|none: Vec<Intent>, layout: Result<Vec<Row>, E>|
            none@.len() == 0 && #[trigger] call_ensures(
                flatten,
                (&reading.branches, &none, &reading.history, show_remote),
                layout,
            ) && match layout {
                Err(e) => printed == Err::<String, E>(e),
                Ok(rows) => printed matches Ok(text) && exists|all: Seq<Run>| #[trigger]
                    sent_to_screen(all, text@) && is_tree(
                        reading.branches@,
                        rows@,
                        reading.dirty is Some && reading.dirty->0,
                        if current is Some {
                            current->0@
                        } else {
                            ""@
                        },
                        all,
                    ),
            },
{
    let (none, layout) = choose|none: Vec<Intent>, layout: Result<Vec<Row>, E>|
        none@.len() == 0 && #[trigger] call_ensures(
            flatten,
            (&reading.branches, &none, &reading.history, show_remote),
            layout,
        ) && tree_printed(reading, current, layout, printed);
    if let Ok(rows) = layout {
        let dirty = reading.dirty is Some && reading.dirty->0;
        let name = if current is Some {
            current->0@
        } else {
            ""@
        };
        let spans = tree_spans(reading.branches.deep_view(), rows.deep_view(), dirty, name);
        tree_is_laid_out(reading.branches, rows, dirty, name);
        let text = printed->Ok_0;
        assert(is_painting(text@, spans));
        let pieces = choose|pieces: Seq<Seq<char>>| #[trigger]
            all_shown(spans, pieces) && text@ == put_together(pieces, pieces.len());
        all_pieces(pieces);
        assert forall|i: int| 0 <= i < spans.len() implies piece_of(
            pairs(spans)[i].0,
            pairs(spans)[i].1,
            #[trigger] pieces[i],
        ) by {
            assert(shown(spans[i], pieces[i]));
        }
        assert(pieces_are(pairs(spans), pieces));
        assert(sent_to_screen(pairs(spans), text@));
    }
}

/// Whether `pieces` are those of the runs, one for each.
pub open spec fn pieces_are(all: Seq<Run>, pieces: Seq<Seq<char>>) -> bool {
    &&& pieces.len() == all.len()
    &&& forall|i: int|
        0 <= i < all.len() ==> piece_of(all[i].0, all[i].1, #[trigger] pieces[i])
}

/// Whether `text` is what is sent to the screen for some runs.
pub open spec fn sent_to_screen(all: Seq<Run>, text: Seq<char>) -> bool {
    exists|pieces: Seq<Seq<char>>| #[trigger] pieces_are(all, pieces) && text == pieces.flatten()
}

} // verus!
