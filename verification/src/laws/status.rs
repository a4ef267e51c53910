//! Laws of the state of a repository.

use crate::status::{
    conflicts_upto, repo_status, RepoState, RepoStatus, StatusEntryView,
    StatusReading,
};
use vstd::prelude::*;

verus! {

/// The bits that tell of a change to a tracked file: new, modified, deleted,
/// renamed or of another type in the index; modified, deleted, of another type or
/// renamed in the working tree; and in conflict.
pub open spec fn change_bits() -> Seq<u32> {
    seq![0x1u32, 0x2, 0x4, 0x8, 0x10, 0x100, 0x200, 0x400, 0x800, 0x8000]
}

/// A repository is dirty exactly where some file has one of the bits that tell
/// of a change, whatever other bits it has.
pub proof fn one_bit_of_change_makes_dirty(reading: StatusReading, status: RepoStatus)
    requires
        call_ensures(repo_status, (reading,), status),
    ensures
        forall|i: int, k: int|
            0 <= i < reading.entries@.len() && 0 <= k < 10 && (#[trigger] reading.entries@[i]).bits
                & #[trigger] change_bits()[k] != 0 ==> status.is_dirty,
        status.is_dirty ==> exists|i: int, k: int|
            0 <= i < reading.entries@.len() && 0 <= k < 10 && (#[trigger] reading.entries@[i]).bits
                & #[trigger] change_bits()[k] != 0,
{
    let views = reading.entries.deep_view();
    assert(status.is_dirty == status@.is_dirty);
    assert forall|i: int, k: int|
        0 <= i < reading.entries@.len() && 0 <= k < 10 && (#[trigger] reading.entries@[i]).bits
            & #[trigger] change_bits()[k] != 0 implies status.is_dirty by {
        assert(views[i].bits == reading.entries@[i].bits);
        assert(crate::status::changed(views[i].bits));
    }
    if status.is_dirty {
        let i = choose|i: int|
            0 <= i < views.len() && crate::status::changed((#[trigger] views[i]).bits);
        let bits = reading.entries@[i].bits;
        assert(views[i].bits == bits);
        assert(change_bits()[0] == 0x1 && change_bits()[1] == 0x2 && change_bits()[2] == 0x4
            && change_bits()[3] == 0x8 && change_bits()[4] == 0x10 && change_bits()[5] == 0x100
            && change_bits()[6] == 0x200 && change_bits()[7] == 0x400 && change_bits()[8] == 0x800
            && change_bits()[9] == 0x8000);
    }
}

/// More bits on the same files never make a dirty repository clean.
pub proof fn more_bits_stay_dirty(
    few: StatusReading,
    many: StatusReading,
    before: RepoStatus,
    after: RepoStatus,
)
    requires
        call_ensures(repo_status, (few,), before),
        call_ensures(repo_status, (many,), after),
        few.entries@.len() <= many.entries@.len(),
        forall|i: int|
            0 <= i < few.entries@.len() ==> (#[trigger] few.entries@[i]).bits
                & many.entries@[i].bits == few.entries@[i].bits,
    ensures
        before.is_dirty ==> after.is_dirty,
{
    one_bit_of_change_makes_dirty(few, before);
    one_bit_of_change_makes_dirty(many, after);
    if before.is_dirty {
        let (i, k) = choose|i: int, k: int|
            0 <= i < few.entries@.len() && 0 <= k < 10 && (#[trigger] few.entries@[i]).bits
                & #[trigger] change_bits()[k] != 0;
        let small = few.entries@[i].bits;
        let large = many.entries@[i].bits;
        let bit = change_bits()[k];
        assert(large & bit != 0) by (bit_vector)
            requires
                small & large == small,
                small & bit != 0,
        ;
    }
}

/// The paths in conflict are those of the files with the bit of a conflict, in
/// the order of the files; only names that are no text are left out. `places`
/// are where they come from.
pub proof fn conflicts_are_listed_in_order(reading: StatusReading, status: RepoStatus)
    requires
        call_ensures(repo_status, (reading,), status),
    ensures
        exists|places: Seq<int>| #[trigger] conflicts_at(reading, status, places),
{
    let views = reading.entries.deep_view();
    let places = conflict_places(views, views.len());
    assert forall|k: int| 0 <= k < places.len() implies {
        let place = #[trigger] places[k];
        &&& 0 <= place < reading.entries@.len()
        &&& reading.entries@[place].path is Some
        &&& status.conflicted_paths@[k]@ == reading.entries@[place].path->0@
    } by {
        assert(status.conflicted_paths.deep_view()[k] == status.conflicted_paths@[k]@);
        assert(views[places[k]].path == reading.entries@[places[k]].path.deep_view());
    }
    assert forall|i: int| 0 <= i < reading.entries@.len() implies (#[trigger] places.contains(i)
        <==> reading.entries@[i].bits & 0x8000 != 0 && reading.entries@[i].path is Some) by {
        assert(views[i].path == reading.entries@[i].path.deep_view());
        assert(views[i].bits == reading.entries@[i].bits);
    }
    assert(status.conflicted_paths.deep_view().len() == status.conflicted_paths@.len());
    assert(conflicts_at(reading, status, places));
}

/// Whether the conflicted paths are those of the entries at `places`, which are
/// all that are in conflict, in their order.
pub open spec fn conflicts_at(
    reading: StatusReading,
    status: RepoStatus,
    places: Seq<int>,
) -> bool {
    &&& places.len() == status.conflicted_paths@.len()
    &&& forall|j: int, k: int|
        0 <= j < k < places.len() ==> #[trigger] places[j] < #[trigger] places[k]
    &&& forall|k: int|
        0 <= k < places.len() ==> {
            let place = #[trigger] places[k];
            &&& 0 <= place < reading.entries@.len()
            &&& reading.entries@[place].path is Some
            &&& status.conflicted_paths@[k]@ == reading.entries@[place].path->0@
        }
    &&& forall|i: int|
        0 <= i < reading.entries@.len() ==> (#[trigger] places.contains(i)
            <==> reading.entries@[i].bits & 0x8000 != 0 && reading.entries@[i].path is Some)
}

proof fn conflict_places(entries: Seq<StatusEntryView>, n: nat) -> (places: Seq<int>)
    requires
        n <= entries.len(),
    ensures
        places.len() == conflicts_upto(entries, n).len(),
        forall|j: int, k: int|
            0 <= j < k < places.len() ==> #[trigger] places[j] < #[trigger] places[k],
        forall|k: int|
            0 <= k < places.len() ==> 0 <= #[trigger] places[k] < n && entries[places[k]].path
                is Some && conflicts_upto(entries, n)[k] == entries[places[k]].path->0,
        forall|i: int|
            0 <= i < n ==> (#[trigger] places.contains(i) <==> entries[i].bits & 0x8000 != 0
                && entries[i].path is Some),
    decreases n,
{
    if n == 0 {
        Seq::empty()
    } else {
        let before = conflict_places(entries, (n - 1) as nat);
        let entry = entries[n - 1];
        if entry.bits & 0x8000 != 0 && entry.path is Some {
            let places = before.push(n - 1);
            assert forall|i: int| 0 <= i < n implies (#[trigger] places.contains(i)
                <==> entries[i].bits & 0x8000 != 0 && entries[i].path is Some) by {
                if i < n - 1 {
                    if before.contains(i) {
                        let k = choose|k: int| 0 <= k < before.len() && before[k] == i;
                        assert(places[k] == i);
                    }
                    if places.contains(i) {
                        let k = choose|k: int| 0 <= k < places.len() && places[k] == i;
                        assert(before[k] == i);
                    }
                } else {
                    assert(places[before.len() as int] == i);
                }
            }
            places
        } else {
            assert forall|i: int| 0 <= i < n implies (#[trigger] before.contains(i)
                <==> entries[i].bits & 0x8000 != 0 && entries[i].path is Some) by {
                if before.contains(i) {
                    let k = choose|k: int| 0 <= k < before.len() && before[k] == i;
                    assert(before[k] < n - 1);
                }
            }
            before
        }
    }
}

/// What is in progress is reported as it was found, a sequence as the step it
/// repeats, and so is the branch.
pub proof fn the_state_is_reported_as_found(reading: StatusReading, status: RepoStatus)
    requires
        call_ensures(repo_status, (reading,), status),
    ensures
        status.state is Clean <==> reading.state is Clean,
        status.state is Merge <==> reading.state is Merge,
        status.state is Revert <==> reading.state is Revert || reading.state is RevertSequence,
        status.state is CherryPick <==> reading.state is CherryPick || reading.state
            is CherryPickSequence,
        status.state is Bisect <==> reading.state is Bisect,
        status.state is Rebase <==> reading.state is Rebase,
        status.state is RebaseInteractive <==> reading.state is RebaseInteractive,
        status.state is RebaseMerge <==> reading.state is RebaseMerge,
        status.state is ApplyMailbox <==> reading.state is ApplyMailbox,
        status.state is ApplyMailboxOrRebase <==> reading.state is ApplyMailboxOrRebase,
        status.current_branch is Some <==> reading.head is Some,
        reading.head is Some ==> status.current_branch->0@ == reading.head->0@,
{
    assert(status.state == status@.state);
    assert(status.current_branch.deep_view() == reading.head.deep_view());
}

/// A state counts as a rebase exactly where one of the three kinds of rebase is
/// in progress, and as clean exactly where nothing is.
pub proof fn rebases_are_told_from_other_states(state: RepoState, rebase: bool, clean: bool)
    requires
        call_ensures(RepoState::is_rebase, (&state,), rebase),
        call_ensures(RepoState::is_clean, (&state,), clean),
    ensures
        rebase <==> state is Rebase || state is RebaseInteractive || state is RebaseMerge,
        clean <==> state is Clean,
{
}

/// What is in progress, in one word.
pub open spec fn called(state: RepoState) -> Seq<char> {
    match state {
        RepoState::Clean => "Clean"@,
        RepoState::Rebase => "Rebase"@,
        RepoState::RebaseInteractive => "RebaseInteractive"@,
        RepoState::RebaseMerge => "RebaseMerge"@,
        RepoState::ApplyMailbox => "ApplyMailbox"@,
        RepoState::ApplyMailboxOrRebase => "ApplyMailboxOrRebase"@,
        RepoState::Merge => "Merge"@,
        RepoState::Revert => "Revert"@,
        RepoState::CherryPick => "CherryPick"@,
        RepoState::Bisect => "Bisect"@,
        RepoState::Other => "Other"@,
    }
}

/// A state is called by its own name.
pub proof fn a_state_has_its_own_name(state: RepoState, name: &'static str)
    requires
        call_ensures(RepoState::name, (&state,), name),
    ensures
        name@ == called(state),
{
}

} // verus!
