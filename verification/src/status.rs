//! The state of a repository: what is in progress, what is in conflict and
//! whether the working tree is dirty.

use vstd::prelude::*;

verus! {

/// What is in progress in a repository.
#[derive(Debug, Clone, Copy, PartialEq, Eq, Structural)]
pub enum RepoState {
    Clean,
    Rebase,
    RebaseInteractive,
    RebaseMerge,
    ApplyMailbox,
    ApplyMailboxOrRebase,
    Merge,
    Revert,
    CherryPick,
    Bisect,
    Other,
}

/// What a repository is found in, with sequences told apart from single steps.
#[derive(Debug, Clone, Copy, PartialEq, Eq, Structural)]
pub enum ObservedState {
    Clean,
    Merge,
    Revert,
    RevertSequence,
    CherryPick,
    CherryPickSequence,
    Bisect,
    Rebase,
    RebaseInteractive,
    RebaseMerge,
    ApplyMailbox,
    ApplyMailboxOrRebase,
}

/// The state that is reported for what is found.
pub open spec fn reported_state(observed: ObservedState) -> RepoState {
    match observed {
        ObservedState::Clean => RepoState::Clean,
        ObservedState::Merge => RepoState::Merge,
        ObservedState::Revert => RepoState::Revert,
        ObservedState::RevertSequence => RepoState::Revert,
        ObservedState::CherryPick => RepoState::CherryPick,
        ObservedState::CherryPickSequence => RepoState::CherryPick,
        ObservedState::Bisect => RepoState::Bisect,
        ObservedState::Rebase => RepoState::Rebase,
        ObservedState::RebaseInteractive => RepoState::RebaseInteractive,
        ObservedState::RebaseMerge => RepoState::RebaseMerge,
        ObservedState::ApplyMailbox => RepoState::ApplyMailbox,
        ObservedState::ApplyMailboxOrRebase => RepoState::ApplyMailboxOrRebase,
    }
}

/// Whether a rebase of any kind is in progress.
pub open spec fn rebasing(state: RepoState) -> bool {
    state is Rebase || state is RebaseInteractive || state is RebaseMerge
}

impl RepoState {
    /// Whether a rebase of any kind is in progress.
    pub fn is_rebase(&self) -> (yes: bool)
        ensures
            yes == rebasing(*self),
    {
        match self {
            RepoState::Rebase | RepoState::RebaseInteractive | RepoState::RebaseMerge => true,
            _ => false,
        }
    }

    /// Whether nothing is in progress.
    pub fn is_clean(&self) -> (yes: bool)
        ensures
            yes == (*self is Clean),
    {
        match self {
            RepoState::Clean => true,
            _ => false,
        }
    }

    /// The name of the state.
    pub fn name(&self) -> (name: &'static str)
        ensures
            name@ == state_name(*self),
    {
        match self {
            RepoState::Clean => "Clean",
            RepoState::Rebase => "Rebase",
            RepoState::RebaseInteractive => "RebaseInteractive",
            RepoState::RebaseMerge => "RebaseMerge",
            RepoState::ApplyMailbox => "ApplyMailbox",
            RepoState::ApplyMailboxOrRebase => "ApplyMailboxOrRebase",
            RepoState::Merge => "Merge",
            RepoState::Revert => "Revert",
            RepoState::CherryPick => "CherryPick",
            RepoState::Bisect => "Bisect",
            RepoState::Other => "Other",
        }
    }
}

/// The name of a state.
pub open spec fn state_name(state: RepoState) -> Seq<char> {
    match state {
        RepoState::Clean => "Clean"@,
        RepoState::Rebase => "Rebase"@,
        RepoState::RebaseInteractive => "RebaseInteractive"@,
        RepoState::RebaseMerge => "RebaseMerge"@,
        RepoState::ApplyMailbox => "ApplyMailbox"@,
        RepoState::ApplyMailboxOrRebase => "ApplyMailboxOrRebase"@,
        RepoState::Merge => "Merge"@,
        RepoState::Revert => "Revert"@,
        RepoState::CherryPick => "CherryPick"@,
        RepoState::Bisect => "Bisect"@,
        RepoState::Other => "Other"@,
    }
}

/// A file that differs from what is committed. `bits` are its status flags;
/// `path` is `None` where the name is no text.
#[derive(Debug, Clone)]
pub struct StatusEntry {
    pub path: Option<String>,
    pub bits: u32,
}

/// What a [`StatusEntry`] says.
pub struct StatusEntryView {
    pub path: Option<Seq<char>>,
    pub bits: u32,
}

impl View for StatusEntry {
    type V = StatusEntryView;

    open spec fn view(&self) -> StatusEntryView {
        StatusEntryView { path: self.path.deep_view(), bits: self.bits }
    }
}

impl DeepView for StatusEntry {
    type V = StatusEntryView;

    open spec fn deep_view(&self) -> StatusEntryView {
        self@
    }
}

/// What was read of the state of a repository. `head` is `None` where there is
/// no commit yet, or no name for where `HEAD` is.
#[derive(Debug, Clone)]
pub struct StatusReading {
    pub state: ObservedState,
    pub entries: Vec<StatusEntry>,
    pub head: Option<String>,
}

/// The state of a repository.
#[derive(Debug, Clone)]
pub struct RepoStatus {
    pub state: RepoState,
    pub conflicted_paths: Vec<String>,
    pub is_dirty: bool,
    pub current_branch: Option<String>,
}

/// What a [`RepoStatus`] says.
pub struct RepoStatusView {
    pub state: RepoState,
    pub conflicted_paths: Seq<Seq<char>>,
    pub is_dirty: bool,
    pub current_branch: Option<Seq<char>>,
}

impl View for RepoStatus {
    type V = RepoStatusView;

    open spec fn view(&self) -> RepoStatusView {
        RepoStatusView {
            state: self.state,
            conflicted_paths: self.conflicted_paths.deep_view(),
            is_dirty: self.is_dirty,
            current_branch: self.current_branch.deep_view(),
        }
    }
}

/// The status flags of a file that matter here.
#[derive(Debug, Clone, Copy)]
pub enum StatusFlag {
    IndexNew,
    IndexModified,
    IndexDeleted,
    IndexRenamed,
    IndexTypechange,
    WtModified,
    WtDeleted,
    WtTypechange,
    WtRenamed,
    Conflicted,
}

/// The bit of a flag.
pub open spec fn flag_bit(flag: StatusFlag) -> u32 {
    match flag {
        StatusFlag::IndexNew => 0x1,
        StatusFlag::IndexModified => 0x2,
        StatusFlag::IndexDeleted => 0x4,
        StatusFlag::IndexRenamed => 0x8,
        StatusFlag::IndexTypechange => 0x10,
        StatusFlag::WtModified => 0x100,
        StatusFlag::WtDeleted => 0x200,
        StatusFlag::WtTypechange => 0x400,
        StatusFlag::WtRenamed => 0x800,
        StatusFlag::Conflicted => 0x8000,
    }
}

/// Whether a flag is set.
pub open spec fn flagged(bits: u32, flag: StatusFlag) -> bool {
    bits & flag_bit(flag) != 0
}

/// Whether the flags speak of a change to a tracked file.
pub open spec fn changed(bits: u32) -> bool {
    ||| flagged(bits, StatusFlag::IndexNew)
    ||| flagged(bits, StatusFlag::IndexModified)
    ||| flagged(bits, StatusFlag::IndexDeleted)
    ||| flagged(bits, StatusFlag::IndexRenamed)
    ||| flagged(bits, StatusFlag::IndexTypechange)
    ||| flagged(bits, StatusFlag::WtModified)
    ||| flagged(bits, StatusFlag::WtDeleted)
    ||| flagged(bits, StatusFlag::WtRenamed)
    ||| flagged(bits, StatusFlag::WtTypechange)
    ||| flagged(bits, StatusFlag::Conflicted)
}

/// The bits of the constants of `git2::Status`, which are those of libgit2.
#[verifier::external_body]
fn flag_bits(flag: StatusFlag) -> (bits: u32)
    ensures
        bits == flag_bit(flag),
{
    let status = match flag {
        StatusFlag::IndexNew => git2::Status::INDEX_NEW,
        StatusFlag::IndexModified => git2::Status::INDEX_MODIFIED,
        StatusFlag::IndexDeleted => git2::Status::INDEX_DELETED,
        StatusFlag::IndexRenamed => git2::Status::INDEX_RENAMED,
        StatusFlag::IndexTypechange => git2::Status::INDEX_TYPECHANGE,
        StatusFlag::WtModified => git2::Status::WT_MODIFIED,
        StatusFlag::WtDeleted => git2::Status::WT_DELETED,
        StatusFlag::WtTypechange => git2::Status::WT_TYPECHANGE,
        StatusFlag::WtRenamed => git2::Status::WT_RENAMED,
        StatusFlag::Conflicted => git2::Status::CONFLICTED,
    };
    status.bits()
}

/// `git2::Status::contains`: whether all of `flags` are set in `bits`.
#[verifier::external_body]
fn contains_flags(bits: u32, flags: u32) -> (all: bool)
    ensures
        all == (bits & flags == flags),
{
    git2::Status::from_bits_retain(bits).contains(git2::Status::from_bits_retain(flags))
}

/// `git2::Status::intersects`: whether any of `flags` is set in `bits`.
#[verifier::external_body]
fn intersects_flags(bits: u32, flags: u32) -> (any: bool)
    ensures
        any == (bits & flags != 0),
{
    git2::Status::from_bits_retain(bits).intersects(git2::Status::from_bits_retain(flags))
}

/// Whether the flags tell of a conflict.
fn is_conflicted(bits: u32) -> (yes: bool)
    ensures
        yes == flagged(bits, StatusFlag::Conflicted),
{
    let flag: u32 = flag_bits(StatusFlag::Conflicted);
    assert((bits & 0x8000u32 == 0x8000u32) == (bits & 0x8000u32 != 0)) by (bit_vector);
    contains_flags(bits, flag)
}

/// Whether the flags speak of a change to a tracked file.
fn is_changed(bits: u32) -> (yes: bool)
    ensures
        yes == changed(bits),
{
    let mask: u32 = flag_bits(StatusFlag::IndexNew) | flag_bits(StatusFlag::IndexModified)
        | flag_bits(StatusFlag::IndexDeleted) | flag_bits(StatusFlag::IndexRenamed) | flag_bits(
        StatusFlag::IndexTypechange,
    ) | flag_bits(StatusFlag::WtModified) | flag_bits(StatusFlag::WtDeleted) | flag_bits(
        StatusFlag::WtRenamed,
    ) | flag_bits(StatusFlag::WtTypechange) | flag_bits(StatusFlag::Conflicted);
    assert((0x1u32 | 0x2u32 | 0x4u32 | 0x8u32 | 0x10u32 | 0x100u32 | 0x200u32 | 0x800u32 | 0x400u32
        | 0x8000u32) == 0x8f1fu32) by (bit_vector);
    assert((bits & 0x8f1fu32 != 0) == (bits & 0x1u32 != 0 || bits & 0x2u32 != 0 || bits & 0x4u32
        != 0 || bits & 0x8u32 != 0 || bits & 0x10u32 != 0 || bits & 0x100u32 != 0 || bits
        & 0x200u32 != 0 || bits & 0x800u32 != 0 || bits & 0x400u32 != 0 || bits & 0x8000u32 != 0))
        by (bit_vector);
    intersects_flags(bits, mask)
}

/// The paths in conflict among the first `n` entries, in their order.
pub open spec fn conflicts_upto(entries: Seq<StatusEntryView>, n: nat) -> Seq<Seq<char>>
    decreases n,
{
    if n == 0 {
        Seq::empty()
    } else {
        let before = conflicts_upto(entries, (n - 1) as nat);
        let entry = entries[n - 1];
        if flagged(entry.bits, StatusFlag::Conflicted) && entry.path is Some {
            before.push(entry.path->0)
        } else {
            before
        }
    }
}

/// Whether any of the entries is a change to a tracked file.
pub open spec fn any_changed(entries: Seq<StatusEntryView>) -> bool {
    exists|i: int| 0 <= i < entries.len() && changed((#[trigger] entries[i]).bits)
}

/// The state of the repository that was read: files in conflict are listed, and
/// the tree is dirty where a tracked file has changed.
pub fn repo_status(reading: StatusReading) -> (status: RepoStatus)
    ensures
        status@.state == reported_state(reading.state),
        status@.conflicted_paths == conflicts_upto(
            reading.entries.deep_view(),
            reading.entries.len() as nat,
        ),
        status@.is_dirty == any_changed(reading.entries.deep_view()),
        status@.current_branch == reading.head.deep_view(),
{
    let state = match reading.state {
        ObservedState::Clean => RepoState::Clean,
        ObservedState::Merge => RepoState::Merge,
        ObservedState::Revert | ObservedState::RevertSequence => RepoState::Revert,
        ObservedState::CherryPick | ObservedState::CherryPickSequence => RepoState::CherryPick,
        ObservedState::Bisect => RepoState::Bisect,
        ObservedState::Rebase => RepoState::Rebase,
        ObservedState::RebaseInteractive => RepoState::RebaseInteractive,
        ObservedState::RebaseMerge => RepoState::RebaseMerge,
        ObservedState::ApplyMailbox => RepoState::ApplyMailbox,
        ObservedState::ApplyMailboxOrRebase => RepoState::ApplyMailboxOrRebase,
    };
    let entries = reading.entries;
    let ghost views = entries.deep_view();
    let mut conflicted_paths: Vec<String> = Vec::new();
    let mut is_dirty = false;
    assert(conflicted_paths.deep_view() =~= Seq::<Seq<char>>::empty());
    let mut i: usize = 0;
    while i < entries.len()
        invariant
            i <= entries.len(),
            views == entries.deep_view(),
            conflicted_paths.deep_view() == conflicts_upto(views, i as nat),
            is_dirty == (exists|j: int| 0 <= j < i && changed((#[trigger] views[j]).bits)),
        decreases entries.len() - i,
    {
        let entry = &entries[i];
        assert(views[i as int] == entry@);
        let ghost before = conflicted_paths.deep_view();
        if is_conflicted(entry.bits) {
            if let Some(path) = &entry.path {
                conflicted_paths.push(path.clone());
                assert(conflicted_paths.deep_view() =~= before.push(path@));
            }
        }
        if is_changed(entry.bits) {
            is_dirty = true;
        }
        i = i + 1;
    }
    RepoStatus { state, conflicted_paths, is_dirty, current_branch: reading.head }
}

/// A repository with a file in conflict is dirty.
pub proof fn conflicts_make_dirty(entries: Seq<StatusEntryView>, n: nat)
    requires
        n <= entries.len(),
        conflicts_upto(entries, n).len() > 0,
    ensures
        any_changed(entries),
    decreases n,
{
    if n > 0 {
        if conflicts_upto(entries, (n - 1) as nat).len() > 0 {
            conflicts_make_dirty(entries, (n - 1) as nat);
        } else {
            assert(changed(entries[n - 1].bits));
        }
    }
}

} // verus!
