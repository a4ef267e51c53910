//! Laws of pull requests.

use crate::engine::github::{
    by_head, fetch_open_prs, first_listed_wins, gh_arguments, index_by_head, GhOutput, OpenPrs,
    PrInfo, PrInfoView,
};
use vstd::prelude::*;

verus! {

/// Whether the pull request at `i` is the first that is listed for its branch.
pub open spec fn first_for(prs: Seq<PrInfo>, head: Seq<char>, i: int) -> bool {
    &&& 0 <= i < prs.len()
    &&& prs[i].head_ref@ == head
    &&& forall|j: int| 0 <= j < i ==> (#[trigger] prs[j]).head_ref@ != head
}

/// Whether a pull request was taken over with all that it says.
pub open spec fn same_pr(left: PrInfo, right: PrInfo) -> bool {
    &&& left.number == right.number
    &&& left.url@ == right.url@
    &&& left.is_draft == right.is_draft
    &&& left.state@ == right.state@
    &&& left.title@ == right.title@
    &&& left.head_ref@ == right.head_ref@
}

/// A branch has a pull request exactly where one is listed for it, and it is the
/// first of those, with all that it says.
pub proof fn a_branch_has_the_first_that_is_listed(
    prs: Vec<PrInfo>,
    open: OpenPrs,
    head: String,
    found: Option<&PrInfo>,
)
    requires
        call_ensures(index_by_head, (prs,), open),
        call_ensures(OpenPrs::get, (&open, &head), found),
    ensures
        match found {
            Some(pr) => exists|i: int| #[trigger]
                first_for(prs@, head@, i) && same_pr(*pr, prs@[i]),
            None => forall|j: int| 0 <= j < prs@.len() ==> (#[trigger] prs@[j]).head_ref@ != head@,
        },
{
    listed_first(prs, head@);
}

proof fn listed_first(prs: Vec<PrInfo>, head: Seq<char>)
    ensures
        by_head(prs.deep_view()).dom().contains(head) ==> exists|i: int| #[trigger]
            first_for(prs@, head, i) && by_head(prs.deep_view())[head] == prs@[i]@,
        !by_head(prs.deep_view()).dom().contains(head) ==> forall|j: int|
            0 <= j < prs@.len() ==> (#[trigger] prs@[j]).head_ref@ != head,
{
    let views = prs.deep_view();
    assert(views.len() == prs@.len());
    first_listed_wins(views, views.len(), head);
    if by_head(views).dom().contains(head) {
        let some = choose|i: int| 0 <= i < views.len() && (#[trigger] views[i]).head_ref == head;
        let i = earliest(views, head, some);
        assert(views[i] == prs@[i]@);
        assert forall|j: int| 0 <= j < i implies (#[trigger] prs@[j]).head_ref@ != head by {
            assert(views[j].head_ref != head);
        }
        assert(first_for(prs@, head, i));
    } else {
        assert forall|j: int| 0 <= j < prs@.len() implies (#[trigger] prs@[j]).head_ref@
            != head by {
            assert(views[j].head_ref != head);
        }
    }
}

proof fn earliest(prs: Seq<PrInfoView>, head: Seq<char>, some: int) -> (i: int)
    requires
        0 <= some < prs.len(),
        prs[some].head_ref == head,
    ensures
        0 <= i < prs.len(),
        prs[i].head_ref == head,
        forall|j: int| 0 <= j < i ==> (#[trigger] prs[j]).head_ref != head,
    decreases some,
{
    if forall|j: int| 0 <= j < some ==> (#[trigger] prs[j]).head_ref != head {
        some
    } else {
        let before = choose|j: int| 0 <= j < some && (#[trigger] prs[j]).head_ref == head;
        earliest(prs, head, before)
    }
}

/// Whether the words ask `gh` for the open pull requests, two hundred at most, with
/// all that is taken over of each.
pub open spec fn asks_for_open_prs(words: Seq<Seq<char>>) -> bool {
    words == seq![
        "pr"@,
        "list"@,
        "--limit"@,
        "200"@,
        "--state"@,
        "open"@,
        "--json"@,
        "number,title,state,isDraft,headRefName,url"@,
    ]
}

/// `gh` is asked once. Where it ran well and what it printed could be parsed, a
/// branch has the first pull request that is listed for it; where anything failed
/// no branch has one.
pub proof fn fetched_are_those_that_gh_lists<R, P>(
    run: R,
    parse: P,
    open: OpenPrs,
    head: String,
    found: Option<&PrInfo>,
) where R: FnOnce(Vec<String>) -> Option<GhOutput>, P: FnOnce(&Vec<u8>) -> Option<Vec<PrInfo>>
    requires
        call_ensures(fetch_open_prs::<R, P>, (run, parse), open),
        call_ensures(OpenPrs::get, (&open, &head), found),
    ensures
        exists|arguments: Vec<String>, output: Option<GhOutput>|
            asks_for_open_prs(arguments.deep_view()) && #[trigger] call_ensures(
                run,
                (arguments,),
                output,
            ) && listed_in(output, parse, head@, found),
{
    let (arguments, output) = choose|arguments: Vec<String>, output: Option<GhOutput>|
        arguments.deep_view() == gh_arguments() && #[trigger] call_ensures(
            run,
            (arguments,),
            output,
        ) && crate::engine::github::prs_of(output, parse, open@);
    if output is Some && output->0.success {
        let parsed = choose|parsed: Option<Vec<PrInfo>>| #[trigger]
            call_ensures(parse, (&output->0.stdout,), parsed) && open@ == (match parsed {
                None => Map::empty(),
                Some(prs) => by_head(prs.deep_view()),
            });
        if let Some(prs) = parsed {
            listed_first(prs, head@);
        }
        assert(parsed_to(parsed, head@, found));
    }
    assert(listed_in(output, parse, head@, found));
}

/// Whether `found` is what an output of `gh` gives for a branch.
pub open spec fn listed_in<P>(
    output: Option<GhOutput>,
    parse: P,
    head: Seq<char>,
    found: Option<&PrInfo>,
) -> bool where P: FnOnce(&Vec<u8>) -> Option<Vec<PrInfo>> {
    if output is Some && output->0.success {
        exists|parsed: Option<Vec<PrInfo>>| #[trigger]
            call_ensures(parse, (&output->0.stdout,), parsed) && parsed_to(parsed, head, found)
    } else {
        found is None
    }
}

/// Whether `found` is the first of the parsed pull requests for a branch.
pub open spec fn parsed_to(
    parsed: Option<Vec<PrInfo>>,
    head: Seq<char>,
    found: Option<&PrInfo>,
) -> bool {
    match (parsed, found) {
        (Some(prs), Some(pr)) => exists|i: int| #[trigger]
            first_for(prs@, head, i) && same_pr(*pr, prs@[i]),
        (Some(prs), None) => forall|j: int|
            0 <= j < prs@.len() ==> (#[trigger] prs@[j]).head_ref@ != head,
        (None, _) => found is None,
    }
}

} // verus!
