//! What reservations do to a directory.
//!
//! The directory of the metadata files is modelled as a directory that may
//! not exist yet, with the set of the files in it. Against this model the laws
//! of the reservation are stated: the names that repeated reservations get,
//! that the directory is made once and never again, and that reservations
//! running at once never get one name and both get one.
//!
//! In the model nothing is ever removed and no operation fails for a reason
//! of its own: creating a file fails only where the file exists or the
//! directory is missing, and making the directory succeeds.

use vstd::prelude::*;
use crate::names::{
    is_file_name,
    info_name,
    internal_name,
    lemma_internal_name_is_file_name,
    lemma_joined_differ,
    lemma_names_differ,
};
use crate::reserve::{
    ReserveEvent,
    ReservePhase,
    Request,
    ReservationState,
    initial,
    candidate,
    request,
    next,
    is_finished,
};

verus! {

/// The directory of the metadata files: whether it exists, and the paths of
/// the files in it.
pub struct InfoDirectory {
    pub exists: bool,
    pub files: Set<Seq<u8>>,
}

/// What is left after one or more reservations ran.
pub struct Outcome {
    /// The state in which the reservation ended.
    pub state: ReservationState,
    /// The directory as the reservation left it.
    pub directory: InfoDirectory,
    /// How often the reservation asked for the directory to be made.
    pub directories_made: nat,
}

/// Two reservations on one directory.
pub struct Race {
    pub first: ReservationState,
    pub second: ReservationState,
    pub directory: InfoDirectory,
}

/// The file system's answer to a request, and the directory after it.
///
/// Creating a file is one indivisible operation: it finds the directory
/// missing, or the file there, or else puts the file there.
pub open spec fn perform(directory: InfoDirectory, request: Request) -> (
    ReserveEvent,
    InfoDirectory,
) {
    match request {
        Request::CreateNew(path) => if !directory.exists {
            (ReserveEvent::NotFound, directory)
        } else if directory.files.contains(path) {
            (ReserveEvent::AlreadyExists, directory)
        } else {
            (ReserveEvent::Created, InfoDirectory { files: directory.files.insert(path), ..directory })
        },
        Request::CreateDirAll(_) => (
            ReserveEvent::DirectoryReady,
            InfoDirectory { exists: true, ..directory },
        ),
        _ => (ReserveEvent::Failed, directory),
    }
}

/// A reservation that runs from `state` for at most `steps` operations.
pub open spec fn run(state: ReservationState, directory: InfoDirectory, steps: nat) -> Outcome
    decreases steps,
{
    if steps == 0 || is_finished(state) {
        Outcome { state, directory, directories_made: 0 }
    } else {
        let answer = perform(directory, request(state));
        let rest = run(next(state, answer.0), answer.1, (steps - 1) as nat);
        Outcome {
            directories_made: rest.directories_made + if request(state) is CreateDirAll {
                1nat
            } else {
                0nat
            },
            ..rest
        }
    }
}

/// A new reservation of `base` that runs for at most `steps` operations.
pub open spec fn reserve(info_dir: Seq<u8>, base: Seq<u8>, directory: InfoDirectory, steps: nat)
    -> Outcome {
    run(initial(info_dir, base), directory, steps)
}

/// The directory after `count` reservations of `base`, one after the other.
pub open spec fn directory_after(
    info_dir: Seq<u8>,
    base: Seq<u8>,
    directory: InfoDirectory,
    count: nat,
    steps: nat,
) -> InfoDirectory
    decreases count,
{
    if count == 0 {
        directory
    } else {
        reserve(
            info_dir,
            base,
            directory_after(info_dir, base, directory, (count - 1) as nat, steps),
            steps,
        ).directory
    }
}

/// A set of files together with the files of the attempts 1 to `count`.
pub open spec fn with_candidates(
    files: Set<Seq<u8>>,
    info_dir: Seq<u8>,
    base: Seq<u8>,
    count: nat,
) -> Set<Seq<u8>>
    decreases count,
{
    if count == 0 {
        files
    } else {
        with_candidates(files, info_dir, base, (count - 1) as nat).insert(
            candidate(info_dir, base, count),
        )
    }
}

/// One of the two reservations does its next operation; a finished one does
/// nothing.
pub open spec fn turn(race: Race, first_moves: bool) -> Race {
    if first_moves {
        if is_finished(race.first) {
            race
        } else {
            let answer = perform(race.directory, request(race.first));
            Race { first: next(race.first, answer.0), directory: answer.1, ..race }
        }
    } else {
        if is_finished(race.second) {
            race
        } else {
            let answer = perform(race.directory, request(race.second));
            Race { second: next(race.second, answer.0), directory: answer.1, ..race }
        }
    }
}

/// The race after the turns of a schedule, in which `true` lets the first
/// reservation move and `false` the second.
pub open spec fn race_after(race: Race, schedule: Seq<bool>) -> Race
    decreases schedule.len(),
{
    if schedule.len() == 0 {
        race
    } else {
        turn(race_after(race, schedule.drop_last()), schedule.last())
    }
}

/// What holds of a reservation in a race, whatever the schedule.
pub open spec fn keeps_order(state: ReservationState, directory: InfoDirectory) -> bool {
    &&& state.phase != ReservePhase::Aborted
    &&& state.bootstrapped ==> directory.exists
    &&& state.phase == ReservePhase::MakingDirectory ==> !state.bootstrapped
    &&& state.phase == ReservePhase::Reserved ==> directory.exists && directory.files.contains(
        candidate(state.info_dir, state.base, state.attempt),
    )
}

/// What holds of a race, whatever the schedule.
pub open spec fn race_in_order(race: Race) -> bool {
    &&& keeps_order(race.first, race.directory)
    &&& keeps_order(race.second, race.directory)
    &&& race.first.phase == ReservePhase::Reserved && race.second.phase == ReservePhase::Reserved
        ==> candidate(race.first.info_dir, race.first.base, race.first.attempt) != candidate(
        race.second.info_dir,
        race.second.base,
        race.second.attempt,
    )
}

/// Different attempts at one name ask for different files.
pub proof fn lemma_candidates_differ(info_dir: Seq<u8>, base: Seq<u8>, first: nat, second: nat)
    requires
        is_file_name(base),
        1 <= first,
        1 <= second,
        first != second,
    ensures
        candidate(info_dir, base, first) != candidate(info_dir, base, second),
{
    lemma_names_differ(base, first, second);
    lemma_internal_name_is_file_name(base, first);
    lemma_internal_name_is_file_name(base, second);
    lemma_joined_differ(info_dir, info_name(base, first), info_name(base, second));
}

/// In a directory that exists, a reservation passes over the names that are
/// taken and gets the first that is free.
pub proof fn lemma_run_passes_taken(
    state: ReservationState,
    directory: InfoDirectory,
    taken: nat,
    steps: nat,
)
    requires
        state.phase == ReservePhase::Creating,
        directory.exists,
        forall|k: nat|
            state.attempt <= k < state.attempt + taken ==> directory.files.contains(
                #[trigger] candidate(state.info_dir, state.base, k),
            ),
        !directory.files.contains(
            candidate(state.info_dir, state.base, state.attempt + taken),
        ),
        steps > taken,
    ensures
        run(state, directory, steps) == (Outcome {
            state: ReservationState {
                phase: ReservePhase::Reserved,
                attempt: state.attempt + taken,
                ..state
            },
            directory: InfoDirectory {
                files: directory.files.insert(
                    candidate(state.info_dir, state.base, state.attempt + taken),
                ),
                ..directory
            },
            directories_made: 0,
        }),
    decreases taken,
{
    let answer = perform(directory, request(state));
    let following = next(state, answer.0);
    if taken == 0 {
        assert(answer.0 == ReserveEvent::Created);
        assert(is_finished(following));
        assert(run(following, answer.1, (steps - 1) as nat) == (Outcome {
            state: following,
            directory: answer.1,
            directories_made: 0,
        }));
    } else {
        assert(directory.files.contains(candidate(state.info_dir, state.base, state.attempt)));
        assert(answer.0 == ReserveEvent::AlreadyExists);
        assert(following.attempt + (taken - 1) as nat == state.attempt + taken);
        lemma_run_passes_taken(following, directory, (taken - 1) as nat, (steps - 1) as nat);
    }
}

/// Where the directory is missing, a new reservation makes it and then gets
/// the first name, if that is free.
pub proof fn lemma_run_makes_directory(
    info_dir: Seq<u8>,
    base: Seq<u8>,
    directory: InfoDirectory,
    steps: nat,
)
    requires
        !directory.exists,
        !directory.files.contains(candidate(info_dir, base, 1)),
        steps >= 3,
    ensures
        reserve(info_dir, base, directory, steps) == (Outcome {
            state: ReservationState {
                phase: ReservePhase::Reserved,
                bootstrapped: true,
                ..initial(info_dir, base)
            },
            directory: InfoDirectory {
                exists: true,
                files: directory.files.insert(candidate(info_dir, base, 1)),
            },
            directories_made: 1,
        }),
{
    let start = initial(info_dir, base);
    let missing = next(start, ReserveEvent::NotFound);
    assert(perform(directory, request(start)).0 == ReserveEvent::NotFound);
    let made = InfoDirectory { exists: true, ..directory };
    let again = next(missing, ReserveEvent::DirectoryReady);
    assert(perform(directory, request(missing)) == (ReserveEvent::DirectoryReady, made));
    lemma_run_passes_taken(again, made, 0, (steps - 2) as nat);
    assert(run(missing, directory, (steps - 1) as nat).directories_made == 1);
    assert(run(start, directory, steps).directories_made == 1);
}

/// A reservation that does not wait for the directory never asks for it in a
/// directory that exists.
pub proof fn lemma_run_in_existing(state: ReservationState, directory: InfoDirectory, steps: nat)
    requires
        directory.exists,
        state.phase != ReservePhase::MakingDirectory,
    ensures
        run(state, directory, steps).directories_made == 0,
        run(state, directory, steps).directory.exists,
    decreases steps,
{
    if steps != 0 && !is_finished(state) {
        let answer = perform(directory, request(state));
        lemma_run_in_existing(next(state, answer.0), answer.1, (steps - 1) as nat);
    }
}

/// The files of the attempts 1 to `count` are among the files with them, and
/// no file of a later attempt is, where none was there before.
pub proof fn lemma_with_candidates(
    files: Set<Seq<u8>>,
    info_dir: Seq<u8>,
    base: Seq<u8>,
    count: nat,
)
    requires
        is_file_name(base),
        forall|k: nat| k >= 1 ==> !files.contains(#[trigger] candidate(info_dir, base, k)),
    ensures
        forall|k: nat|
            1 <= k <= count ==> with_candidates(files, info_dir, base, count).contains(
                #[trigger] candidate(info_dir, base, k),
            ),
        forall|k: nat|
            k > count ==> !with_candidates(files, info_dir, base, count).contains(
                #[trigger] candidate(info_dir, base, k),
            ),
    decreases count,
{
    if count > 0 {
        lemma_with_candidates(files, info_dir, base, (count - 1) as nat);
        assert forall|k: nat| k > count implies !with_candidates(
            files,
            info_dir,
            base,
            count,
        ).contains(#[trigger] candidate(info_dir, base, k)) by {
            lemma_candidates_differ(info_dir, base, k, count);
        }
    }
}

/// After `count` reservations of one name, in a directory that held no file
/// of that name, the directory holds the files of the attempts 1 to `count`
/// besides what it held, and the reservation that comes next gets the name of
/// attempt `count + 1`.
pub proof fn lemma_reservation_in_turn(
    info_dir: Seq<u8>,
    base: Seq<u8>,
    directory: InfoDirectory,
    count: nat,
    steps: nat,
)
    requires
        is_file_name(base),
        forall|k: nat| k >= 1 ==> !directory.files.contains(#[trigger] candidate(info_dir, base, k)),
        steps >= count + 3,
    ensures
        directory_after(info_dir, base, directory, count, steps).files == with_candidates(
            directory.files,
            info_dir,
            base,
            count,
        ),
        count >= 1 ==> directory_after(info_dir, base, directory, count, steps).exists,
        ({
            let before = directory_after(info_dir, base, directory, count, steps);
            let outcome = reserve(info_dir, base, before, steps);
            &&& outcome.state.phase == ReservePhase::Reserved
            &&& outcome.state.attempt == count + 1
            &&& outcome.state.info_dir == info_dir
            &&& outcome.state.base == base
            &&& outcome.directory.exists
            &&& outcome.directory.files == before.files.insert(
                candidate(info_dir, base, count + 1),
            )
        }),
    decreases count,
{
    let before = directory_after(info_dir, base, directory, count, steps);
    if count == 0 {
        if directory.exists {
            lemma_run_passes_taken(initial(info_dir, base), directory, 0, steps);
        } else {
            lemma_run_makes_directory(info_dir, base, directory, steps);
        }
    } else {
        lemma_reservation_in_turn(info_dir, base, directory, (count - 1) as nat, steps);
        lemma_with_candidates(directory.files, info_dir, base, count);
        lemma_run_passes_taken(initial(info_dir, base), before, count, steps);
    }
}

/// Repeated reservations: where one name is reserved again and again in a
/// directory that held no file of that name, and nothing is removed in
/// between, the reservations get the names of the attempts 1, 2, 3 and so on
/// in this order: `name.trashinfo`, `name.2.trashinfo`, `name.3.trashinfo`.
/// No two of these files are the same.
pub proof fn law_repeated_reservations(
    info_dir: Seq<u8>,
    base: Seq<u8>,
    directory: InfoDirectory,
    count: nat,
    steps: nat,
)
    requires
        is_file_name(base),
        forall|k: nat| k >= 1 ==> !directory.files.contains(#[trigger] candidate(info_dir, base, k)),
        steps >= count + 2,
    ensures
        forall|i: nat|
            1 <= i <= count ==> request(
                #[trigger] reserve(
                    info_dir,
                    base,
                    directory_after(info_dir, base, directory, (i - 1) as nat, steps),
                    steps,
                ).state,
            ) == (Request::Done {
                info_file: candidate(info_dir, base, i),
                internal_name: internal_name(base, i),
            }),
        forall|i: nat, j: nat|
            1 <= i < j ==> #[trigger] candidate(info_dir, base, i) != #[trigger] candidate(
                info_dir,
                base,
                j,
            ),
{
    assert forall|i: nat| 1 <= i <= count implies request(
        #[trigger] reserve(
            info_dir,
            base,
            directory_after(info_dir, base, directory, (i - 1) as nat, steps),
            steps,
        ).state,
    ) == (Request::Done {
        info_file: candidate(info_dir, base, i),
        internal_name: internal_name(base, i),
    }) by {
        lemma_reservation_in_turn(info_dir, base, directory, (i - 1) as nat, steps);
    }
    assert forall|i: nat, j: nat| 1 <= i < j implies #[trigger] candidate(info_dir, base, i)
        != #[trigger] candidate(info_dir, base, j) by {
        lemma_candidates_differ(info_dir, base, i, j);
    }
}

/// Making the directory once: a reservation that finds the directory missing
/// makes it, once, and gets its name as if the directory had been there; and
/// no reservation after it asks for the directory again.
pub proof fn law_directory_made_once(
    info_dir: Seq<u8>,
    base: Seq<u8>,
    directory: InfoDirectory,
    steps: nat,
)
    requires
        !directory.exists,
        !directory.files.contains(candidate(info_dir, base, 1)),
        steps >= 3,
    ensures
        ({
            let first = reserve(info_dir, base, directory, steps);
            &&& first.state.phase == ReservePhase::Reserved
            &&& first.state.attempt == 1
            &&& first.directories_made == 1
            &&& first.directory.exists
            &&& forall|other: Seq<u8>, more: nat|
                (#[trigger] reserve(info_dir, other, first.directory, more)).directories_made == 0
        }),
{
    lemma_run_makes_directory(info_dir, base, directory, steps);
    let first = reserve(info_dir, base, directory, steps);
    assert forall|other: Seq<u8>, more: nat|
        (#[trigger] reserve(info_dir, other, first.directory, more)).directories_made == 0 by {
        lemma_run_in_existing(initial(info_dir, other), first.directory, more);
    }
}

/// One turn keeps a race in order.
pub proof fn lemma_turn_in_order(race: Race, first_moves: bool)
    requires
        race_in_order(race),
    ensures
        race_in_order(turn(race, first_moves)),
{
}

/// Every schedule keeps a race in order.
pub proof fn lemma_race_in_order(race: Race, schedule: Seq<bool>)
    requires
        race_in_order(race),
    ensures
        race_in_order(race_after(race, schedule)),
    decreases schedule.len(),
{
    if schedule.len() > 0 {
        lemma_race_in_order(race, schedule.drop_last());
        lemma_turn_in_order(race_after(race, schedule.drop_last()), schedule.last());
    }
}

/// Reservations at once: two reservations that work on one directory, their
/// operations interleaved in any order, never get the same file, for the same
/// name or for different ones, and neither is ever given up.
pub proof fn law_reservations_at_once(
    info_dir: Seq<u8>,
    first_base: Seq<u8>,
    second_base: Seq<u8>,
    directory: InfoDirectory,
    schedule: Seq<bool>,
)
    ensures
        ({
            let end = race_after(
                Race {
                    first: initial(info_dir, first_base),
                    second: initial(info_dir, second_base),
                    directory,
                },
                schedule,
            );
            &&& end.first.phase != ReservePhase::Aborted
            &&& end.second.phase != ReservePhase::Aborted
            &&& end.first.phase == ReservePhase::Reserved && end.second.phase
                == ReservePhase::Reserved ==> request(end.first)->info_file != request(
                end.second,
            )->info_file
        }),
{
    let start = Race {
        first: initial(info_dir, first_base),
        second: initial(info_dir, second_base),
        directory,
    };
    lemma_race_in_order(start, schedule);
}

/// The first of two names, or the second.
pub open spec fn pick(first: bool, first_base: Seq<u8>, second_base: Seq<u8>) -> Seq<u8> {
    if first {
        first_base
    } else {
        second_base
    }
}

/// How often a schedule lets one of the two reservations move.
pub open spec fn turns(schedule: Seq<bool>, first: bool) -> nat
    decreases schedule.len(),
{
    if schedule.len() == 0 {
        0
    } else {
        turns(schedule.drop_last(), first) + if schedule.last() == first {
            1nat
        } else {
            0nat
        }
    }
}

/// How far a reservation has come: its attempt, and what it has done for the
/// directory.
pub open spec fn headway(state: ReservationState) -> nat {
    state.attempt + if state.bootstrapped {
        2nat
    } else if state.phase == ReservePhase::MakingDirectory {
        1nat
    } else {
        0nat
    }
}

/// What holds of one reservation in a race after it had `moves` turns, where
/// the directory held the files `held` at first, none of them a file of an
/// attempt beyond `bound`: every file is one that was held or one that a
/// reservation got, the attempt is at most two beyond the bound, and every
/// turn has brought the reservation on.
pub open spec fn gets_on(
    mine: ReservationState,
    other: ReservationState,
    directory: InfoDirectory,
    held: Set<Seq<u8>>,
    bound: nat,
    moves: nat,
) -> bool {
    &&& is_file_name(mine.base)
    &&& forall|k: nat|
        k > bound ==> !held.contains(#[trigger] candidate(mine.info_dir, mine.base, k))
    &&& mine.attempt >= 1
    &&& keeps_order(mine, directory)
    &&& keeps_order(other, directory)
    &&& forall|path: Seq<u8>| #[trigger]
        directory.files.contains(path) ==> {
            ||| held.contains(path)
            ||| mine.phase == ReservePhase::Reserved && path == candidate(
                mine.info_dir,
                mine.base,
                mine.attempt,
            )
            ||| other.phase == ReservePhase::Reserved && path == candidate(
                other.info_dir,
                other.base,
                other.attempt,
            )
        }
    &&& {
        ||| mine.attempt <= bound + 1
        ||| mine.attempt == bound + 2 && other.phase == ReservePhase::Reserved && candidate(
            other.info_dir,
            other.base,
            other.attempt,
        ) == candidate(mine.info_dir, mine.base, bound + 1)
    }
    &&& !is_finished(mine) ==> headway(mine) >= moves + 1
}

/// A turn of its own brings a reservation on.
pub proof fn lemma_own_turn(
    mine: ReservationState,
    other: ReservationState,
    directory: InfoDirectory,
    held: Set<Seq<u8>>,
    bound: nat,
    moves: nat,
)
    requires
        gets_on(mine, other, directory, held, bound, moves),
        !is_finished(mine),
    ensures
        gets_on(
            next(mine, perform(directory, request(mine)).0),
            other,
            perform(directory, request(mine)).1,
            held,
            bound,
            moves + 1,
        ),
{
    let event = perform(directory, request(mine)).0;
    let after = perform(directory, request(mine)).1;
    let following = next(mine, event);
    let tried = candidate(mine.info_dir, mine.base, mine.attempt);
    if mine.phase == ReservePhase::Creating {
        if event == ReserveEvent::AlreadyExists {
            assert(directory.files.contains(tried));
            assert(following.attempt == mine.attempt + 1);
            if mine.attempt == bound + 1 {
                assert(!held.contains(tried));
            } else if mine.attempt == bound + 2 {
                assert(!held.contains(tried));
                lemma_candidates_differ(mine.info_dir, mine.base, bound + 1, bound + 2);
                assert(false);
            }
        } else if event == ReserveEvent::Created {
            assert(after.files == directory.files.insert(tried));
            assert(following.phase == ReservePhase::Reserved);
        } else {
            assert(event == ReserveEvent::NotFound);
            assert(!mine.bootstrapped);
        }
    } else {
        assert(mine.phase == ReservePhase::MakingDirectory);
        assert(event == ReserveEvent::DirectoryReady);
    }
    assert forall|path: Seq<u8>| #[trigger] after.files.contains(path) implies {
        ||| held.contains(path)
        ||| following.phase == ReservePhase::Reserved && path == candidate(
            following.info_dir,
            following.base,
            following.attempt,
        )
        ||| other.phase == ReservePhase::Reserved && path == candidate(
            other.info_dir,
            other.base,
            other.attempt,
        )
    } by {
        if path != tried {
            assert(directory.files.contains(path));
        }
    }
}

/// A turn of the other reservation does not set a reservation back.
pub proof fn lemma_other_turn(
    mine: ReservationState,
    other: ReservationState,
    directory: InfoDirectory,
    held: Set<Seq<u8>>,
    bound: nat,
    moves: nat,
)
    requires
        gets_on(mine, other, directory, held, bound, moves),
        !is_finished(other),
    ensures
        gets_on(
            mine,
            next(other, perform(directory, request(other)).0),
            perform(directory, request(other)).1,
            held,
            bound,
            moves,
        ),
{
    let event = perform(directory, request(other)).0;
    let after = perform(directory, request(other)).1;
    let following = next(other, event);
    let tried = candidate(other.info_dir, other.base, other.attempt);
    if other.phase == ReservePhase::Creating {
        if event == ReserveEvent::Created {
            assert(after.files == directory.files.insert(tried));
        } else if event == ReserveEvent::NotFound {
            assert(!other.bootstrapped);
        }
    } else {
        assert(event == ReserveEvent::DirectoryReady);
    }
    assert forall|path: Seq<u8>| #[trigger] after.files.contains(path) implies {
        ||| held.contains(path)
        ||| mine.phase == ReservePhase::Reserved && path == candidate(
            mine.info_dir,
            mine.base,
            mine.attempt,
        )
        ||| following.phase == ReservePhase::Reserved && path == candidate(
            following.info_dir,
            following.base,
            following.attempt,
        )
    } by {
        if path != tried {
            assert(directory.files.contains(path));
        }
    }
}

/// Every schedule brings both reservations of a race on, turn by turn.
pub proof fn lemma_race_gets_on(
    info_dir: Seq<u8>,
    first_base: Seq<u8>,
    second_base: Seq<u8>,
    directory: InfoDirectory,
    schedule: Seq<bool>,
    bound: nat,
    first: bool,
)
    requires
        is_file_name(pick(first, first_base, second_base)),
        forall|k: nat|
            k > bound ==> !directory.files.contains(
                #[trigger] candidate(info_dir, pick(first, first_base, second_base), k),
            ),
    ensures
        ({
            let end = race_after(
                Race {
                    first: initial(info_dir, first_base),
                    second: initial(info_dir, second_base),
                    directory,
                },
                schedule,
            );
            if first {
                gets_on(
                    end.first,
                    end.second,
                    end.directory,
                    directory.files,
                    bound,
                    turns(schedule, true),
                )
            } else {
                gets_on(
                    end.second,
                    end.first,
                    end.directory,
                    directory.files,
                    bound,
                    turns(schedule, false),
                )
            }
        }),
    decreases schedule.len(),
{
    let start = Race {
        first: initial(info_dir, first_base),
        second: initial(info_dir, second_base),
        directory,
    };
    if schedule.len() > 0 {
        lemma_race_gets_on(
            info_dir,
            first_base,
            second_base,
            directory,
            schedule.drop_last(),
            bound,
            first,
        );
        let before = race_after(start, schedule.drop_last());
        let moves = turns(schedule.drop_last(), first);
        if first {
            if schedule.last() {
                if !is_finished(before.first) {
                    lemma_own_turn(
                        before.first,
                        before.second,
                        before.directory,
                        directory.files,
                        bound,
                        moves,
                    );
                }
            } else {
                if !is_finished(before.second) {
                    lemma_other_turn(
                        before.first,
                        before.second,
                        before.directory,
                        directory.files,
                        bound,
                        moves,
                    );
                }
            }
        } else {
            if schedule.last() {
                if !is_finished(before.first) {
                    lemma_other_turn(
                        before.second,
                        before.first,
                        before.directory,
                        directory.files,
                        bound,
                        moves,
                    );
                }
            } else {
                if !is_finished(before.second) {
                    lemma_own_turn(
                        before.second,
                        before.first,
                        before.directory,
                        directory.files,
                        bound,
                        moves,
                    );
                }
            }
        }
    }
}

/// Reservations at once succeed: of two reservations that work on one
/// directory, each gets a name once it had enough turns, however the turns of
/// the two are interleaved. Where the directory holds no file of an attempt
/// beyond `bound` at the name that is wanted, `bound + 4` turns are enough.
pub proof fn law_reservations_at_once_succeed(
    info_dir: Seq<u8>,
    first_base: Seq<u8>,
    second_base: Seq<u8>,
    directory: InfoDirectory,
    schedule: Seq<bool>,
    bound: nat,
    first: bool,
)
    requires
        is_file_name(pick(first, first_base, second_base)),
        forall|k: nat|
            k > bound ==> !directory.files.contains(
                #[trigger] candidate(info_dir, pick(first, first_base, second_base), k),
            ),
        turns(schedule, first) >= bound + 4,
    ensures
        ({
            let end = race_after(
                Race {
                    first: initial(info_dir, first_base),
                    second: initial(info_dir, second_base),
                    directory,
                },
                schedule,
            );
            if first {
                end.first.phase == ReservePhase::Reserved
            } else {
                end.second.phase == ReservePhase::Reserved
            }
        }),
{
    lemma_race_gets_on(info_dir, first_base, second_base, directory, schedule, bound, first);
}

} // verus!
