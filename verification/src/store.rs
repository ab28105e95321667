//! What a move does to the directory of the trashed files.
//!
//! The directory is modelled as a map from the paths in it to what lies
//! there, and may not exist yet. The move of an item is modelled with the two
//! options that the mover sets: with both off, a destination that exists
//! makes the move fail. Against this model the laws of the last steps of a
//! move are stated: nothing in the trash is ever overwritten, and the
//! directory is made once and never again.

use vstd::prelude::*;
use crate::mover::{
    MoveFailure,
    MovePhase,
    MoveReport,
    MoveRequest,
    MoverState,
    destination,
    follow,
    wanted,
};

verus! {

/// The directory of the trashed files: whether it exists, and for each path
/// in it the path from which the item there was moved.
pub struct FilesDirectory {
    pub exists: bool,
    pub items: Map<Seq<u8>, Seq<u8>>,
}

/// What is left after the last steps of a move.
pub struct Relocation {
    /// The state in which the move ended.
    pub state: MoverState,
    /// The directory as the move left it.
    pub directory: FilesDirectory,
    /// How often the move asked for the directory to be made.
    pub directories_made: nat,
}

/// The file system's answer to a request, and the directory after it.
///
/// A move into a missing directory fails. A move to a free path puts the
/// item there. A move to a path that is taken replaces what lies there if
/// `overwrite` is set, leaves it and reports success if only `skip_exist` is
/// set, and fails if neither is.
pub open spec fn answer(directory: FilesDirectory, request: MoveRequest) -> (
    MoveReport,
    FilesDirectory,
) {
    match request {
        MoveRequest::Move { from, to, overwrite, skip_exist } => if !directory.exists {
            (MoveReport::NotFound, directory)
        } else if !directory.items.dom().contains(to) || overwrite {
            (MoveReport::Moved, FilesDirectory { items: directory.items.insert(to, from), ..directory })
        } else if skip_exist {
            (MoveReport::Moved, directory)
        } else {
            (MoveReport::AlreadyExists, directory)
        },
        MoveRequest::CreateDirAll(_) => (
            MoveReport::DirectoryReady,
            FilesDirectory { exists: true, ..directory },
        ),
        _ => (MoveReport::Failed, directory),
    }
}

/// True while the move is at its last steps: the item is to be moved, or the
/// directory to be made.
pub open spec fn is_relocating(state: MoverState) -> bool {
    state.phase == MovePhase::Moving || state.phase == MovePhase::MakingDirectory
}

/// The last steps of a move, from `state`, for at most `steps` operations.
pub open spec fn relocate(state: MoverState, directory: FilesDirectory, steps: nat) -> Relocation
    decreases steps,
{
    if steps == 0 || !is_relocating(state) {
        Relocation { state, directory, directories_made: 0 }
    } else {
        let reply = answer(directory, wanted(state));
        let rest = relocate(follow(state, reply.0, None), reply.1, (steps - 1) as nat);
        Relocation {
            directories_made: rest.directories_made + if wanted(state) is CreateDirAll {
                1nat
            } else {
                0nat
            },
            ..rest
        }
    }
}

/// True where everything that `before` holds, `after` holds unchanged.
pub open spec fn keeps_items(before: FilesDirectory, after: FilesDirectory) -> bool {
    forall|path: Seq<u8>| #[trigger]
        before.items.dom().contains(path) ==> after.items.dom().contains(path)
            && after.items[path] == before.items[path]
}

/// A move whose item is to be moved, the directory not made yet.
pub open spec fn about_to_move(state: MoverState) -> bool {
    state.phase == MovePhase::Moving && !state.retried
}

/// The last steps of a move never change what the trash holds.
pub proof fn lemma_relocate_keeps_items(state: MoverState, directory: FilesDirectory, steps: nat)
    ensures
        keeps_items(directory, relocate(state, directory, steps).directory),
        directory.exists ==> relocate(state, directory, steps).directory.exists,
    decreases steps,
{
    if steps != 0 && is_relocating(state) {
        let reply = answer(directory, wanted(state));
        lemma_relocate_keeps_items(follow(state, reply.0, None), reply.1, (steps - 1) as nat);
    }
}

/// The move of an item whose place in the trash is taken fails, and leaves
/// everything as it was.
pub proof fn lemma_taken_destination(state: MoverState, directory: FilesDirectory, steps: nat)
    requires
        state.phase == MovePhase::Moving,
        directory.exists,
        directory.items.dom().contains(destination(state)),
        steps >= 1,
    ensures
        relocate(state, directory, steps) == (Relocation {
            state: MoverState { phase: MovePhase::Aborted(MoveFailure::Move), ..state },
            directory,
            directories_made: 0,
        }),
{
    let reply = answer(directory, wanted(state));
    assert(reply.0 == MoveReport::AlreadyExists);
    let ended = follow(state, reply.0, None);
    assert(!is_relocating(ended));
    assert(relocate(ended, directory, (steps - 1) as nat) == (Relocation {
        state: ended,
        directory,
        directories_made: 0,
    }));
}

/// The move of an item whose place in the trash is free, into a directory
/// that exists, puts the item there.
pub proof fn lemma_free_destination(state: MoverState, directory: FilesDirectory, steps: nat)
    requires
        state.phase == MovePhase::Moving,
        directory.exists,
        !directory.items.dom().contains(destination(state)),
        steps >= 1,
    ensures
        relocate(state, directory, steps) == (Relocation {
            state: MoverState { phase: MovePhase::Done, ..state },
            directory: FilesDirectory {
                items: directory.items.insert(destination(state), state.source),
                ..directory
            },
            directories_made: 0,
        }),
{
    let reply = answer(directory, wanted(state));
    assert(reply.0 == MoveReport::Moved);
    let ended = follow(state, reply.0, None);
    assert(!is_relocating(ended));
    assert(relocate(ended, reply.1, (steps - 1) as nat) == (Relocation {
        state: ended,
        directory: reply.1,
        directories_made: 0,
    }));
}

/// Nothing is overwritten: whatever the trash holds when an item is about
/// to be moved, it holds unchanged afterwards; and where the place of the
/// item is taken, the move fails and the trash is as it was.
pub proof fn law_nothing_overwritten(state: MoverState, directory: FilesDirectory, steps: nat)
    requires
        about_to_move(state),
        steps >= 1,
    ensures
        wanted(state) matches MoveRequest::Move { overwrite, skip_exist, .. } && !overwrite
            && !skip_exist,
        keeps_items(directory, relocate(state, directory, steps).directory),
        directory.exists && directory.items.dom().contains(destination(state)) ==> {
            &&& relocate(state, directory, steps).state.phase == MovePhase::Aborted(
                MoveFailure::Move,
            )
            &&& relocate(state, directory, steps).directory == directory
        },
{
    lemma_relocate_keeps_items(state, directory, steps);
    if directory.exists && directory.items.dom().contains(destination(state)) {
        lemma_taken_destination(state, directory, steps);
    }
}

/// Making the directory once: a move that finds the directory of the trashed
/// files missing makes it, once, and puts the item there as if the directory
/// had been there; and a move into a directory that exists never asks for it
/// to be made.
pub proof fn law_files_directory_made_once(
    state: MoverState,
    directory: FilesDirectory,
    steps: nat,
)
    requires
        about_to_move(state),
    ensures
        !directory.exists && !directory.items.dom().contains(destination(state)) && steps >= 3
            ==> relocate(state, directory, steps) == (Relocation {
            state: MoverState { phase: MovePhase::Done, retried: true, ..state },
            directory: FilesDirectory {
                exists: true,
                items: directory.items.insert(destination(state), state.source),
            },
            directories_made: 1,
        }),
        directory.exists ==> relocate(state, directory, steps).directories_made == 0,
        relocate(state, directory, steps).directories_made <= 1,
{
    if steps >= 1 {
        let reply = answer(directory, wanted(state));
        if directory.exists {
            if directory.items.dom().contains(destination(state)) {
                lemma_taken_destination(state, directory, steps);
            } else {
                lemma_free_destination(state, directory, steps);
            }
        } else {
            assert(reply.0 == MoveReport::NotFound);
            let making = follow(state, reply.0, None);
            assert(making.phase == MovePhase::MakingDirectory);
            if steps >= 2 {
                let made = FilesDirectory { exists: true, ..directory };
                assert(answer(directory, wanted(making)) == (MoveReport::DirectoryReady, made));
                let again = follow(making, MoveReport::DirectoryReady, None);
                assert(again.phase == MovePhase::Moving && again.retried);
                assert(destination(again) == destination(state));
                if steps >= 3 {
                    if made.items.dom().contains(destination(again)) {
                        lemma_taken_destination(again, made, (steps - 2) as nat);
                    } else {
                        lemma_free_destination(again, made, (steps - 2) as nat);
                    }
                }
                assert(relocate(again, made, (steps - 2) as nat).directories_made == 0);
                assert(relocate(making, directory, (steps - 1) as nat).directories_made == 1);
            }
        }
    }
}

} // verus!
