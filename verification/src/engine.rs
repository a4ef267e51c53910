//! The values that pass between the program and the engine that knows the
//! repository: branches, planned operations, and what is asked of a plan.

use vstd::prelude::*;

pub mod github;

use crate::engine::github::{PrInfo, PrInfoView};

verus! {

/// A branch, local or remote, as the engine found it.
#[derive(Debug, Clone)]
pub struct BranchInfo {
    /// Short name of the branch; remote branches carry the remote's name.
    pub name: String,
    /// The commit at the tip, in hexadecimal.
    pub oid: String,
    pub is_remote: bool,
    pub is_merged: bool,
    /// Commits that the tracked branch does not have.
    pub ahead: u64,
    /// Commits that only the tracked branch has.
    pub behind: u64,
    /// Commits of the parent that the branch does not have.
    pub parent_behind: u64,
    /// Other names of the same tip.
    pub aliases: Vec<String>,
    /// The branch whose tip is nearest in the ancestry.
    pub original_parent: Option<String>,
    /// The branch that commit summaries point to as parent.
    pub heuristic_parent: Option<String>,
    /// Where the commits of the branch begin, if the summaries tell.
    pub heuristic_upstream_oid: Option<String>,
    /// Whether the engine found the branch fit to be submitted.
    pub submittable: bool,
    pub pr: Option<PrInfo>,
}

/// What a [`BranchInfo`] says.
pub struct BranchView {
    pub name: Seq<char>,
    pub oid: Seq<char>,
    pub is_remote: bool,
    pub is_merged: bool,
    pub ahead: u64,
    pub behind: u64,
    pub parent_behind: u64,
    pub aliases: Seq<Seq<char>>,
    pub original_parent: Option<Seq<char>>,
    pub heuristic_parent: Option<Seq<char>>,
    pub heuristic_upstream_oid: Option<Seq<char>>,
    pub submittable: bool,
    pub pr: Option<PrInfoView>,
}

impl View for BranchInfo {
    type V = BranchView;

    open spec fn view(&self) -> BranchView {
        BranchView {
            name: self.name@,
            oid: self.oid@,
            is_remote: self.is_remote,
            is_merged: self.is_merged,
            ahead: self.ahead,
            behind: self.behind,
            parent_behind: self.parent_behind,
            aliases: self.aliases.deep_view(),
            original_parent: self.original_parent.deep_view(),
            heuristic_parent: self.heuristic_parent.deep_view(),
            heuristic_upstream_oid: self.heuristic_upstream_oid.deep_view(),
            submittable: self.submittable,
            pr: self.pr.deep_view(),
        }
    }
}

impl DeepView for BranchInfo {
    type V = BranchView;

    open spec fn deep_view(&self) -> BranchView {
        self@
    }
}

impl BranchInfo {
    /// Whether the branch may be submitted.
    pub fn can_submit(&self) -> (ready: bool)
        ensures
            ready == self@.submittable,
    {
        self.submittable
    }
}

/// One step of a plan.
#[derive(Debug, Clone)]
pub enum Operation {
    /// Replay the commits of `branch` behind `upstream` on top of `onto`.
    Rebase {
        branch: String,
        onto: String,
        upstream: Option<String>,
        predicted_conflict: Option<bool>,
    },
    /// Move `branch` to where its remote counterpart is.
    Sync { branch: String, predicted_conflict: Option<bool> },
    /// Any other step of the engine's, which `action` names.
    Other { branch: String, action: String },
}

/// What an [`Operation`] says.
pub enum OperationView {
    Rebase {
        branch: Seq<char>,
        onto: Seq<char>,
        upstream: Option<Seq<char>>,
        predicted_conflict: Option<bool>,
    },
    Sync { branch: Seq<char>, predicted_conflict: Option<bool> },
    Other { branch: Seq<char>, action: Seq<char> },
}

impl OperationView {
    /// The branch that the operation changes.
    pub open spec fn target(self) -> Seq<char> {
        match self {
            OperationView::Rebase { branch, .. } => branch,
            OperationView::Sync { branch, .. } => branch,
            OperationView::Other { branch, .. } => branch,
        }
    }
}

impl View for Operation {
    type V = OperationView;

    open spec fn view(&self) -> OperationView {
        match *self {
            Operation::Rebase { branch, onto, upstream, predicted_conflict } => {
                OperationView::Rebase {
                    branch: branch@,
                    onto: onto@,
                    upstream: upstream.deep_view(),
                    predicted_conflict,
                }
            },
            Operation::Sync { branch, predicted_conflict } => OperationView::Sync {
                branch: branch@,
                predicted_conflict,
            },
            Operation::Other { branch, action } => OperationView::Other {
                branch: branch@,
                action: action@,
            },
        }
    }
}

impl DeepView for Operation {
    type V = OperationView;

    open spec fn deep_view(&self) -> OperationView {
        self@
    }
}

impl Operation {
    /// The branch that the operation changes.
    pub fn target_branch(&self) -> (branch: &String)
        ensures
            branch@ == self@.target(),
    {
        match self {
            Operation::Rebase { branch, .. } => branch,
            Operation::Sync { branch, .. } => branch,
            Operation::Other { branch, .. } => branch,
        }
    }
}

/// What a plan is asked to bring about for a branch.
#[derive(Debug, Clone)]
pub enum Intent {
    /// Hand the branch in upstream.
    Submit { branch: String },
    /// Set the branch to its upstream.
    Reset { branch: String },
    /// Put the branch on top of `parent`.
    Move { branch: String, parent: String },
}

/// What an [`Intent`] says.
pub enum IntentView {
    Submit { branch: Seq<char> },
    Reset { branch: Seq<char> },
    Move { branch: Seq<char>, parent: Seq<char> },
}

impl View for Intent {
    type V = IntentView;

    open spec fn view(&self) -> IntentView {
        match *self {
            Intent::Submit { branch } => IntentView::Submit { branch: branch@ },
            Intent::Reset { branch } => IntentView::Reset { branch: branch@ },
            Intent::Move { branch, parent } => IntentView::Move {
                branch: branch@,
                parent: parent@,
            },
        }
    }
}

impl DeepView for Intent {
    type V = IntentView;

    open spec fn deep_view(&self) -> IntentView {
        self@
    }
}

/// What was read of a repository. `dirty` is `None` where the working tree
/// could not be read.
#[derive(Debug, Clone)]
pub struct RepositoryReading<H> {
    pub branches: Vec<BranchInfo>,
    pub history: H,
    pub dirty: Option<bool>,
}

/// The state of a repository that a plan is made for.
#[derive(Debug, Clone)]
pub struct RepositorySnapshot<H> {
    pub branches: Vec<BranchInfo>,
    pub history: H,
    pub is_dirty: bool,
}

/// The snapshot that a reading gives: a working tree that could not be read
/// counts as clean.
pub open spec fn snapshot_of<H>(reading: RepositoryReading<H>) -> RepositorySnapshot<H> {
    RepositorySnapshot {
        branches: reading.branches,
        history: reading.history,
        is_dirty: reading.dirty == Some(true),
    }
}

impl<H> RepositoryReading<H> {
    /// The snapshot of this reading.
    pub fn into_snapshot(self) -> (snapshot: RepositorySnapshot<H>)
        ensures
            snapshot == snapshot_of(self),
    {
        RepositorySnapshot {
            branches: self.branches,
            history: self.history,
            is_dirty: self.dirty.unwrap_or(false),
        }
    }
}

/// Whether some branch is called `name`.
pub open spec fn has_branch(branches: Seq<BranchView>, name: Seq<char>) -> bool {
    exists|i: int| 0 <= i < branches.len() && (#[trigger] branches[i]).name == name
}

/// The place of the first branch that is called `name`.
pub open spec fn first_place(branches: Seq<BranchView>, name: Seq<char>) -> Option<int>
    decreases branches.len(),
{
    if branches.len() == 0 {
        None
    } else {
        match first_place(branches.drop_last(), name) {
            Some(i) => Some(i),
            None => if branches.last().name == name {
                Some(branches.len() - 1)
            } else {
                None
            },
        }
    }
}

/// The place of the last branch that is called `name`.
pub open spec fn last_place(branches: Seq<BranchView>, name: Seq<char>) -> Option<int>
    decreases branches.len(),
{
    if branches.len() == 0 {
        None
    } else if branches.last().name == name {
        Some(branches.len() - 1)
    } else {
        last_place(branches.drop_last(), name)
    }
}

/// The first branch that is called `name`.
pub open spec fn lookup(branches: Seq<BranchView>, name: Seq<char>) -> Option<BranchView> {
    match first_place(branches, name) {
        None => None,
        Some(i) => Some(branches[i]),
    }
}

/// The first place of a name bears the name, and no place before it does; a
/// name without a place is borne by no branch.
pub proof fn first_place_is_first(branches: Seq<BranchView>, name: Seq<char>)
    ensures
        match first_place(branches, name) {
            Some(i) => {
                &&& 0 <= i < branches.len()
                &&& branches[i].name == name
                &&& forall|j: int| 0 <= j < i ==> (#[trigger] branches[j]).name != name
            },
            None => !has_branch(branches, name),
        },
    decreases branches.len(),
{
    if branches.len() > 0 {
        let rest = branches.drop_last();
        first_place_is_first(rest, name);
        if first_place(rest, name) is None {
            assert forall|j: int| 0 <= j < rest.len() implies (#[trigger] branches[j]).name
                != name by {
                assert(rest[j].name != name);
            }
        } else {
            let i = first_place(rest, name)->0;
            assert(rest[i] == branches[i]);
            assert forall|j: int| 0 <= j < i implies (#[trigger] branches[j]).name != name by {
                assert(rest[j].name != name);
            }
        }
    }
}

/// The last place of a name bears the name, and no place behind it does; a
/// name without a place is borne by no branch.
pub proof fn last_place_is_last(branches: Seq<BranchView>, name: Seq<char>)
    ensures
        match last_place(branches, name) {
            Some(i) => {
                &&& 0 <= i < branches.len()
                &&& branches[i].name == name
                &&& forall|j: int| i < j < branches.len() ==> (#[trigger] branches[j]).name != name
            },
            None => !has_branch(branches, name),
        },
    decreases branches.len(),
{
    if branches.len() > 0 && branches.last().name != name {
        let rest = branches.drop_last();
        last_place_is_last(rest, name);
        if last_place(rest, name) is None {
            assert forall|j: int| 0 <= j < branches.len() implies (#[trigger] branches[j]).name
                != name by {
                if j < rest.len() {
                    assert(rest[j].name != name);
                }
            }
        } else {
            let i = last_place(rest, name)->0;
            assert(rest[i] == branches[i]);
            assert forall|j: int| i < j < branches.len() implies (#[trigger] branches[j]).name
                != name by {
                if j < rest.len() {
                    assert(rest[j].name != name);
                }
            }
        }
    }
}

/// Places depend on the names alone.
pub proof fn places_go_by_name(left: Seq<BranchView>, right: Seq<BranchView>, name: Seq<char>)
    requires
        left.len() == right.len(),
        forall|i: int| 0 <= i < left.len() ==> (#[trigger] left[i]).name == right[i].name,
    ensures
        first_place(left, name) == first_place(right, name),
        last_place(left, name) == last_place(right, name),
    decreases left.len(),
{
    if left.len() > 0 {
        assert(left.last().name == right.last().name);
        assert forall|i: int| 0 <= i < left.len() - 1 implies (#[trigger] left.drop_last()[i]).name
            == right.drop_last()[i].name by {
            assert(left[i].name == right[i].name);
        }
        places_go_by_name(left.drop_last(), right.drop_last(), name);
    }
}

/// The place of the first branch that is called `name`.
pub fn find_branch(branches: &Vec<BranchInfo>, name: &String) -> (place: Option<usize>)
    ensures
        match place {
            Some(i) => first_place(branches.deep_view(), name@) == Some(i as int) && i
                < branches.len(),
            None => first_place(branches.deep_view(), name@) is None,
        },
{
    let ghost all = branches.deep_view();
    let mut i: usize = 0;
    while i < branches.len()
        invariant
            i <= branches.len(),
            all == branches.deep_view(),
            forall|j: int| 0 <= j < i ==> (#[trigger] all[j]).name != name@,
        decreases branches.len() - i,
    {
        assert(all[i as int] == branches[i as int]@);
        if branches[i].name == *name {
            proof {
                first_place_is_first(all, name@);
            }
            return Some(i);
        }
        i = i + 1;
    }
    proof {
        first_place_is_first(all, name@);
    }
    None
}

/// The place of the last branch that is called `name`.
pub fn find_last_branch(branches: &Vec<BranchInfo>, name: &String) -> (place: Option<usize>)
    ensures
        match place {
            Some(i) => last_place(branches.deep_view(), name@) == Some(i as int) && i
                < branches.len(),
            None => last_place(branches.deep_view(), name@) is None,
        },
{
    let ghost all = branches.deep_view();
    let mut behind: usize = branches.len();
    while behind > 0
        invariant
            behind <= branches.len(),
            all == branches.deep_view(),
            forall|j: int| behind <= j < all.len() ==> (#[trigger] all[j]).name != name@,
        decreases behind,
    {
        let i: usize = behind - 1;
        assert(all[i as int] == branches[i as int]@);
        if branches[i].name == *name {
            proof {
                last_place_is_last(all, name@);
            }
            return Some(i);
        }
        behind = i;
    }
    proof {
        last_place_is_last(all, name@);
    }
    None
}

} // verus!
