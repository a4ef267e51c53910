//! Pull requests as the `gh` command lists them.

use vstd::prelude::*;

verus! {

/// An open pull request.
#[derive(Debug, Clone)]
pub struct PrInfo {
    pub number: u64,
    pub url: String,
    pub is_draft: bool,
    pub state: String,
    pub title: String,
    /// The branch that the request asks to merge.
    pub head_ref: String,
}

/// What a [`PrInfo`] says.
pub struct PrInfoView {
    pub number: u64,
    pub url: Seq<char>,
    pub is_draft: bool,
    pub state: Seq<char>,
    pub title: Seq<char>,
    pub head_ref: Seq<char>,
}

impl View for PrInfo {
    type V = PrInfoView;

    open spec fn view(&self) -> PrInfoView {
        PrInfoView {
            number: self.number,
            url: self.url@,
            is_draft: self.is_draft,
            state: self.state@,
            title: self.title@,
            head_ref: self.head_ref@,
        }
    }
}

impl DeepView for PrInfo {
    type V = PrInfoView;

    open spec fn deep_view(&self) -> PrInfoView {
        self@
    }
}

/// The first of the first `n` pull requests for each branch.
pub open spec fn by_head_upto(prs: Seq<PrInfoView>, n: nat) -> Map<Seq<char>, PrInfoView>
    decreases n,
{
    if n == 0 {
        Map::empty()
    } else {
        let before = by_head_upto(prs, (n - 1) as nat);
        let pr = prs[n - 1];
        if before.dom().contains(pr.head_ref) {
            before
        } else {
            before.insert(pr.head_ref, pr)
        }
    }
}

/// The first of the pull requests for each branch.
pub open spec fn by_head(prs: Seq<PrInfoView>) -> Map<Seq<char>, PrInfoView> {
    by_head_upto(prs, prs.len())
}

/// Whether no two pull requests are for the same branch.
pub open spec fn one_per_head(prs: Seq<PrInfoView>) -> bool {
    forall|i: int, j: int|
        0 <= i < j < prs.len() ==> (#[trigger] prs[i]).head_ref != (#[trigger] prs[j]).head_ref
}

/// A branch has a pull request where one is listed for it, and of several the
/// one that is listed first.
pub proof fn first_listed_wins(prs: Seq<PrInfoView>, n: nat, head: Seq<char>)
    requires
        n <= prs.len(),
    ensures
        by_head_upto(prs, n).dom().contains(head) <==> exists|i: int|
            0 <= i < n && (#[trigger] prs[i]).head_ref == head,
        forall|i: int|
            0 <= i < n && (#[trigger] prs[i]).head_ref == head && (forall|j: int|
                0 <= j < i ==> (#[trigger] prs[j]).head_ref != head) ==> by_head_upto(
                prs,
                n,
            )[head] == prs[i],
    decreases n,
{
    if n > 0 {
        first_listed_wins(prs, (n - 1) as nat, head);
        let pr = prs[n - 1];
        assert(pr.head_ref == prs[n - 1].head_ref);
    }
}

/// Open pull requests, one for each branch that has any.
#[derive(Debug)]
pub struct OpenPrs {
    entries: Vec<PrInfo>,
}

impl View for OpenPrs {
    type V = Map<Seq<char>, PrInfoView>;

    open spec fn view(&self) -> Map<Seq<char>, PrInfoView> {
        by_head(self.entries())
    }
}

impl OpenPrs {
    /// The pull requests in the order in which they were listed.
    pub closed spec fn entries(self) -> Seq<PrInfoView> {
        self.entries.deep_view()
    }

    /// The pull request of a branch. `None` says that none is known.
    pub fn get(&self, head: &String) -> (pr: Option<&PrInfo>)
        ensures
            match pr {
                Some(pr) => self@.dom().contains(head@) && self@[head@] == pr@,
                None => !self@.dom().contains(head@),
            },
    {
        let ghost all = self.entries.deep_view();
        let mut i: usize = 0;
        while i < self.entries.len()
            invariant
                i <= self.entries.len(),
                all == self.entries.deep_view(),
                forall|j: int| 0 <= j < i ==> (#[trigger] all[j]).head_ref != head@,
            decreases self.entries.len() - i,
        {
            assert(all[i as int] == self.entries[i as int]@);
            if self.entries[i].head_ref == *head {
                proof {
                    first_listed_wins(all, all.len(), head@);
                }
                return Some(&self.entries[i]);
            }
            i = i + 1;
        }
        proof {
            first_listed_wins(all, all.len(), head@);
        }
        None
    }
}

/// Keeps the first pull request of each branch.
pub fn index_by_head(prs: Vec<PrInfo>) -> (open: OpenPrs)
    ensures
        open@ == by_head(prs.deep_view()),
        one_per_head(open.entries()),
{
    let ghost all = prs.deep_view();
    let ghost given = prs@;
    let mut open = OpenPrs { entries: Vec::new() };
    assert(open.entries() =~= Seq::<PrInfoView>::empty());
    for pr in it: prs
        invariant
            it.seq() == given,
            all.len() == given.len(),
            forall|j: int| 0 <= j < given.len() ==> all[j] == (#[trigger] given[j])@,
            open@ == by_head_upto(all, it.index() as nat),
            one_per_head(open.entries()),
    {
        let ghost i = it.index();
        let ghost before = open.entries();
        assert(all[i as int] == pr@);
        proof {
            first_listed_wins(before, before.len(), pr@.head_ref);
        }
        if open.get(&pr.head_ref).is_none() {
            let ghost view = pr@;
            open.entries.push(pr);
            assert(open.entries() =~= before.push(view));
            proof {
                by_head_looks_back(before, open.entries(), before.len());
            }
        }
    }
    open
}

/// What is kept of the first pull requests depends on them alone.
proof fn by_head_looks_back(left: Seq<PrInfoView>, right: Seq<PrInfoView>, n: nat)
    requires
        n <= left.len(),
        n <= right.len(),
        forall|i: int| 0 <= i < n ==> left[i] == right[i],
    ensures
        by_head_upto(left, n) == by_head_upto(right, n),
    decreases n,
{
    if n > 0 {
        by_head_looks_back(left, right, (n - 1) as nat);
    }
}

/// What the `gh` command left behind.
#[derive(Debug, Clone)]
pub struct GhOutput {
    pub success: bool,
    pub stdout: Vec<u8>,
}

/// The arguments under which `gh` lists the open pull requests.
pub open spec fn gh_arguments() -> Seq<Seq<char>> {
    seq![
        "pr"@,
        "list"@,
        "--limit"@,
        "200"@,
        "--state"@,
        "open"@,
        "--json"@,
        "number,title,state,isDraft,headRefName,url"@,
    ]
}

fn list_arguments() -> (arguments: Vec<String>)
    ensures
        arguments.deep_view() == gh_arguments(),
{
    let arguments: Vec<String> = vec![
        "pr".to_owned(),
        "list".to_owned(),
        "--limit".to_owned(),
        "200".to_owned(),
        "--state".to_owned(),
        "open".to_owned(),
        "--json".to_owned(),
        "number,title,state,isDraft,headRefName,url".to_owned(),
    ];
    assert(arguments.deep_view() =~= gh_arguments());
    arguments
}

/// The pull requests that an output of `gh` gives, or none where it failed or
/// could not be parsed.
pub open spec fn prs_of<P>(
    output: Option<GhOutput>,
    parse: P,
    open: Map<Seq<char>, PrInfoView>,
) -> bool where P: FnOnce(&Vec<u8>) -> Option<Vec<PrInfo>> {
    match output {
        None => open == Map::<Seq<char>, PrInfoView>::empty(),
        Some(output) => if !output.success {
            open == Map::<Seq<char>, PrInfoView>::empty()
        } else {
            exists|parsed: Option<Vec<PrInfo>>| #[trigger]
                call_ensures(parse, (&output.stdout,), parsed) && open == (match parsed {
                    None => Map::empty(),
                    Some(prs) => by_head(prs.deep_view()),
                })
        },
    }
}

/// The open pull requests of a repository, by the branch that they ask to
/// merge. Whatever fails on the way, the command or the parse, leaves none: a
/// branch without an entry has no known pull request.
pub fn fetch_open_prs<R, P>(run: R, parse: P) -> (open: OpenPrs) where
    R: FnOnce(Vec<String>) -> Option<GhOutput>,
    P: FnOnce(&Vec<u8>) -> Option<Vec<PrInfo>>,

    requires
        forall|arguments: Vec<String>|
            arguments.deep_view() == gh_arguments() ==> #[trigger] call_requires(
                run,
                (arguments,),
            ),
        forall|stdout: Vec<u8>| #[trigger] call_requires(parse, (&stdout,)),
    ensures
        one_per_head(open.entries()),
        exists|arguments: Vec<String>, output: Option<GhOutput>|
            arguments.deep_view() == gh_arguments() && #[trigger] call_ensures(
                run,
                (arguments,),
                output,
            ) && prs_of(output, parse, open@),
{
    let none: Vec<PrInfo> = Vec::new();
    assert(by_head(none.deep_view()) =~= Map::<Seq<char>, PrInfoView>::empty());
    let arguments = list_arguments();
    match run(arguments) {
        None => index_by_head(none),
        Some(output) => {
            if !output.success {
                return index_by_head(none);
            }
            match parse(&output.stdout) {
                None => index_by_head(none),
                Some(prs) => index_by_head(prs),
            }
        },
    }
}

} // verus!
