//! Moving an item to the trash.
//!
//! The steps are: resolve the path of the item to its absolute form, reserve
//! a name, write the metadata into the reserved file, and move the item under
//! the reserved name into the directory of the trashed files. Where that
//! directory is missing, it is made, once, and the move is tried again. The
//! metadata file is not taken back where the move fails.
//!
//! The file system is not touched here. A [`TrashMover`] says what is to be
//! done next, and is told how that ended.

use vstd::prelude::*;
use vstd::utf8::encode_utf8;
use crate::date::DeletionDate;
use crate::info::{
    ParseFailure,
    Record,
    TrashInfo,
    date_text,
    info_text,
    law_round_trip,
    path_text,
    record_of_values,
};
use crate::names::{
    file_name_of,
    info_extension,
    internal_name,
    is_file_name,
    joined,
    join,
    separator,
    lemma_file_name_of_path,
    lemma_internal_name_is_file_name,
};
use crate::reserve::{
    Reservation,
    ReservationState,
    ReserveAction,
    ReserveEvent,
    ReservePhase,
    Request,
    candidate,
    initial,
    next,
    request,
};

verus! {

/// Where a trashed item lies, and where its metadata.
#[derive(Debug, PartialEq, Eq)]
pub struct TrashFiles {
    /// The path of the item in the trash.
    pub trash_file: Vec<u8>,
    /// The path of the metadata file.
    pub info_file: Vec<u8>,
}

/// The two paths as mathematical values.
pub struct Locations {
    pub trash_file: Seq<u8>,
    pub info_file: Seq<u8>,
}

impl View for TrashFiles {
    type V = Locations;

    open spec fn view(&self) -> Locations {
        Locations { trash_file: self.trash_file@, info_file: self.info_file@ }
    }
}

impl TrashFiles {
    /// The two paths of one trashed item.
    pub fn new(trash_file: Vec<u8>, info_file: Vec<u8>) -> (r: TrashFiles)
        ensures
            r@ == (Locations { trash_file: trash_file@, info_file: info_file@ }),
    {
        TrashFiles { trash_file, info_file }
    }
}

/// The step at which moving an item to the trash failed.
#[derive(Clone, Copy, Debug, PartialEq, Eq, Structural)]
pub enum MoveFailure {
    /// The path could not be resolved, or not to an absolute path.
    Resolve,
    /// No name could be reserved.
    Reserve,
    /// The clock gave no date that the metadata can hold.
    Clock,
    /// The metadata could not be written.
    Write,
    /// The item could not be moved.
    Move,
    /// The directory of the trashed files could not be made.
    MakeDirectory,
}

/// Where a move to the trash stands.
#[derive(Clone, Copy, Debug, PartialEq, Eq, Structural)]
pub enum MovePhase {
    /// The path of the item is to be resolved.
    Resolving,
    /// A name is being reserved.
    Reserving,
    /// The metadata is to be written.
    Writing,
    /// The item is to be moved.
    Moving,
    /// The directory of the trashed files is to be made.
    MakingDirectory,
    /// The item is in the trash.
    Done,
    /// The move was given up.
    Aborted(MoveFailure),
}

/// How an operation on the file system ended.
#[derive(Debug, PartialEq, Eq)]
pub enum MoveEvent {
    /// The path was resolved, to this one.
    Resolved(Vec<u8>),
    /// The file did not exist; it was created and is open for writing.
    Created,
    /// The file, or the destination of the move, exists already.
    AlreadyExists,
    /// The directory that should hold the file or the item does not exist.
    NotFound,
    /// The directory and all its parents exist now.
    DirectoryReady,
    /// The text was written and the file closed.
    Written,
    /// The item was moved.
    Moved,
    /// The operation failed for another reason.
    Failed,
}

/// The end of an operation as a mathematical value.
pub enum MoveReport {
    Resolved(Seq<u8>),
    Created,
    AlreadyExists,
    NotFound,
    DirectoryReady,
    Written,
    Moved,
    Failed,
}

impl View for MoveEvent {
    type V = MoveReport;

    open spec fn view(&self) -> MoveReport {
        match self {
            MoveEvent::Resolved(path) => MoveReport::Resolved(path@),
            MoveEvent::Created => MoveReport::Created,
            MoveEvent::AlreadyExists => MoveReport::AlreadyExists,
            MoveEvent::NotFound => MoveReport::NotFound,
            MoveEvent::DirectoryReady => MoveReport::DirectoryReady,
            MoveEvent::Written => MoveReport::Written,
            MoveEvent::Moved => MoveReport::Moved,
            MoveEvent::Failed => MoveReport::Failed,
        }
    }
}

/// What a move to the trash asks for.
#[derive(Debug, PartialEq, Eq)]
pub enum MoveAction {
    /// Resolve this path to its absolute form, all links followed.
    Canonicalize(Vec<u8>),
    /// Create this file for writing; fail where it exists. Keep it open.
    CreateNew(Vec<u8>),
    /// Make this directory and every missing parent of it.
    CreateDirAll(Vec<u8>),
    /// Write this text into the file that was created, and close it.
    Write { file: Vec<u8>, text: String },
    /// Move the file or the directory `from` to `to`, with these two options
    /// for a destination that exists.
    Move { from: Vec<u8>, to: Vec<u8>, overwrite: bool, skip_exist: bool },
    /// Nothing more: the item is in the trash, at these paths.
    Done(TrashFiles),
    /// Nothing more: the move failed at this step, with the error of the
    /// operation that was reported last.
    Abort(MoveFailure),
}

/// What a move to the trash asks for, as a mathematical value.
pub enum MoveRequest {
    Canonicalize(Seq<u8>),
    CreateNew(Seq<u8>),
    CreateDirAll(Seq<u8>),
    Write { file: Seq<u8>, text: Seq<char> },
    Move { from: Seq<u8>, to: Seq<u8>, overwrite: bool, skip_exist: bool },
    Done(Locations),
    Abort(MoveFailure),
}

impl View for MoveAction {
    type V = MoveRequest;

    open spec fn view(&self) -> MoveRequest {
        match self {
            MoveAction::Canonicalize(path) => MoveRequest::Canonicalize(path@),
            MoveAction::CreateNew(path) => MoveRequest::CreateNew(path@),
            MoveAction::CreateDirAll(path) => MoveRequest::CreateDirAll(path@),
            MoveAction::Write { file, text } => MoveRequest::Write { file: file@, text: text@ },
            MoveAction::Move { from, to, overwrite, skip_exist } => MoveRequest::Move {
                from: from@,
                to: to@,
                overwrite: *overwrite,
                skip_exist: *skip_exist,
            },
            MoveAction::Done(files) => MoveRequest::Done(files@),
            MoveAction::Abort(failure) => MoveRequest::Abort(*failure),
        }
    }
}

/// A move to the trash as a mathematical value.
pub struct MoverState {
    /// The directory of the trash.
    pub trash_dir: Seq<u8>,
    /// The path of the item as the caller gave it.
    pub source: Seq<u8>,
    /// The resolved path of the item, once it is known.
    pub original: Seq<u8>,
    /// The reservation of the name.
    pub reservation: ReservationState,
    /// The text of the metadata, once the name is reserved.
    pub text: Seq<char>,
    /// True once the directory of the trashed files was made.
    pub retried: bool,
    pub phase: MovePhase,
}

/// A move to the trash under way.
#[derive(Debug)]
pub struct TrashMover {
    trash_dir: Vec<u8>,
    source: Vec<u8>,
    original: Vec<u8>,
    reservation: Reservation,
    text: String,
    retried: bool,
    phase: MovePhase,
}

impl View for TrashMover {
    type V = MoverState;

    closed spec fn view(&self) -> MoverState {
        MoverState {
            trash_dir: self.trash_dir@,
            source: self.source@,
            original: self.original@,
            reservation: self.reservation@,
            text: self.text@,
            retried: self.retried,
            phase: self.phase,
        }
    }
}

/// The directory of the trash under the user's data directory.
pub open spec fn trash_dir_of(data_home: Seq<u8>) -> Seq<u8> {
    joined(data_home, encode_utf8("Trash"@))
}

/// The directory of the metadata files.
pub open spec fn info_dir_of(trash_dir: Seq<u8>) -> Seq<u8> {
    joined(trash_dir, encode_utf8("info"@))
}

/// The directory of the trashed files.
pub open spec fn files_dir_of(trash_dir: Seq<u8>) -> Seq<u8> {
    joined(trash_dir, encode_utf8("files"@))
}

/// True for a path that begins at the root.
pub open spec fn is_absolute(path: Seq<u8>) -> bool {
    path.len() > 0 && path[0] == separator()
}

/// The move of the item at `source`, named `base`, before anything was done.
pub open spec fn starting(data_home: Seq<u8>, source: Seq<u8>, base: Seq<u8>) -> MoverState {
    MoverState {
        trash_dir: trash_dir_of(data_home),
        source,
        original: Seq::empty(),
        reservation: initial(info_dir_of(trash_dir_of(data_home)), base),
        text: Seq::empty(),
        retried: false,
        phase: MovePhase::Resolving,
    }
}

/// The name of the item in the trash, as the reservation stands.
pub open spec fn reserved_name(state: MoverState) -> Seq<u8> {
    internal_name(state.reservation.base, state.reservation.attempt)
}

/// The path of the metadata file, as the reservation stands.
pub open spec fn reserved_file(state: MoverState) -> Seq<u8> {
    candidate(state.reservation.info_dir, state.reservation.base, state.reservation.attempt)
}

/// The path of the item in the trash, as the reservation stands.
pub open spec fn destination(state: MoverState) -> Seq<u8> {
    joined(files_dir_of(state.trash_dir), reserved_name(state))
}

/// What a move asks for in a given state.
pub open spec fn wanted(state: MoverState) -> MoveRequest {
    match state.phase {
        MovePhase::Resolving => MoveRequest::Canonicalize(state.source),
        MovePhase::Reserving => match request(state.reservation) {
            Request::CreateNew(path) => MoveRequest::CreateNew(path),
            Request::CreateDirAll(path) => MoveRequest::CreateDirAll(path),
            _ => MoveRequest::Abort(MoveFailure::Reserve),
        },
        MovePhase::Writing => MoveRequest::Write { file: reserved_file(state), text: state.text },
        MovePhase::Moving => MoveRequest::Move {
            from: state.source,
            to: destination(state),
            overwrite: false,
            skip_exist: false,
        },
        MovePhase::MakingDirectory => MoveRequest::CreateDirAll(files_dir_of(state.trash_dir)),
        MovePhase::Done => MoveRequest::Done(
            Locations { trash_file: destination(state), info_file: reserved_file(state) },
        ),
        MovePhase::Aborted(failure) => MoveRequest::Abort(failure),
    }
}

/// What the end of an operation means to the reservation.
pub open spec fn to_reservation(report: MoveReport) -> ReserveEvent {
    match report {
        MoveReport::Created => ReserveEvent::Created,
        MoveReport::AlreadyExists => ReserveEvent::AlreadyExists,
        MoveReport::NotFound => ReserveEvent::NotFound,
        MoveReport::DirectoryReady => ReserveEvent::DirectoryReady,
        _ => ReserveEvent::Failed,
    }
}

/// The state with the move given up.
pub open spec fn given_up(state: MoverState, failure: MoveFailure) -> MoverState {
    MoverState { phase: MovePhase::Aborted(failure), ..state }
}

/// The state that follows when the operation asked for has ended. `clock` is
/// what the clock says at that moment; it counts only when a name has just
/// been reserved, for the date of the metadata.
pub open spec fn follow(state: MoverState, report: MoveReport, clock: Option<DeletionDate>)
    -> MoverState {
    match state.phase {
        MovePhase::Resolving => match report {
            MoveReport::Resolved(path) => if is_absolute(path) {
                MoverState { phase: MovePhase::Reserving, original: path, ..state }
            } else {
                given_up(state, MoveFailure::Resolve)
            },
            _ => given_up(state, MoveFailure::Resolve),
        },
        MovePhase::Reserving => {
            let reservation = next(state.reservation, to_reservation(report));
            let held = MoverState { reservation, ..state };
            match reservation.phase {
                ReservePhase::Reserved => match clock {
                    Some(date) => MoverState {
                        phase: MovePhase::Writing,
                        text: info_text(
                            Record {
                                internal_filename: reserved_name(held),
                                path: state.original,
                                deletion_date: date,
                            },
                        ),
                        ..held
                    },
                    None => given_up(held, MoveFailure::Clock),
                },
                ReservePhase::Aborted => given_up(held, MoveFailure::Reserve),
                _ => held,
            }
        },
        MovePhase::Writing => match report {
            MoveReport::Written => MoverState { phase: MovePhase::Moving, ..state },
            _ => given_up(state, MoveFailure::Write),
        },
        MovePhase::Moving => match report {
            MoveReport::Moved => MoverState { phase: MovePhase::Done, ..state },
            MoveReport::NotFound => if state.retried {
                given_up(state, MoveFailure::Move)
            } else {
                MoverState { phase: MovePhase::MakingDirectory, ..state }
            },
            _ => given_up(state, MoveFailure::Move),
        },
        MovePhase::MakingDirectory => match report {
            MoveReport::DirectoryReady => MoverState {
                phase: MovePhase::Moving,
                retried: true,
                ..state
            },
            _ => given_up(state, MoveFailure::MakeDirectory),
        },
        _ => state,
    }
}

/// True where the end of the operation makes the move read the clock: the
/// file of the current attempt was created, so the name is reserved.
pub open spec fn reads_clock(state: MoverState, report: MoveReport) -> bool {
    &&& state.phase == MovePhase::Reserving
    &&& state.reservation.phase == ReservePhase::Creating
    &&& report is Created
}

/// The directory of the metadata files in the trash under the user's data
/// directory: `Trash/info`.
pub fn info_directory(data_home: &[u8]) -> (path: Vec<u8>)
    ensures
        path@ == info_dir_of(trash_dir_of(data_home@)),
{
    let trash_dir = join(data_home, "Trash".as_bytes());
    join(trash_dir.as_slice(), "info".as_bytes())
}

/// The directory of the trashed files in the trash under the user's data
/// directory: `Trash/files`.
pub fn files_directory(data_home: &[u8]) -> (path: Vec<u8>)
    ensures
        path@ == files_dir_of(trash_dir_of(data_home@)),
{
    let trash_dir = join(data_home, "Trash".as_bytes());
    join(trash_dir.as_slice(), "files".as_bytes())
}

impl MoveEvent {
    /// What this event means to the reservation.
    fn reserve_event(&self) -> (event: ReserveEvent)
        ensures
            event == to_reservation(self@),
    {
        match self {
            MoveEvent::Created => ReserveEvent::Created,
            MoveEvent::AlreadyExists => ReserveEvent::AlreadyExists,
            MoveEvent::NotFound => ReserveEvent::NotFound,
            MoveEvent::DirectoryReady => ReserveEvent::DirectoryReady,
            _ => ReserveEvent::Failed,
        }
    }
}

impl TrashMover {
    /// The move of the item at `path` into the trash under the user's data
    /// directory `data_home`, if the path has a name.
    pub fn new(data_home: Vec<u8>, path: Vec<u8>) -> (r: Option<TrashMover>)
        ensures
            match file_name_of(path@) {
                Some(base) => r matches Some(mover) && mover@ == starting(
                    data_home@,
                    path@,
                    base,
                ),
                None => r is None,
            },
            r matches Some(mover) ==> is_sound(mover@),
    {
        proof {
            lemma_file_name_of_path(path@);
            if file_name_of(path@) is Some {
                lemma_starting_is_sound(data_home@, path@, file_name_of(path@)->0);
            }
        }
        let trash_dir = join(data_home.as_slice(), "Trash".as_bytes());
        let info_dir = info_directory(data_home.as_slice());
        match Reservation::for_path(info_dir, path.as_slice()) {
            Some(reservation) => Some(
                TrashMover {
                    trash_dir,
                    source: path,
                    original: Vec::new(),
                    reservation,
                    text: String::new(),
                    retried: false,
                    phase: MovePhase::Resolving,
                },
            ),
            None => None,
        }
    }

    /// Where the move stands.
    pub fn phase(&self) -> (r: MovePhase)
        ensures
            r == self@.phase,
    {
        self.phase
    }

    /// The number of the current attempt at a name.
    pub fn attempt(&self) -> (r: u64)
        ensures
            r == self@.reservation.attempt,
    {
        self.reservation.attempt()
    }

    /// Tells whether the end of an operation makes the move read the clock.
    pub fn needs_clock(&self, event: &MoveEvent) -> (r: bool)
        ensures
            r == reads_clock(self@, event@),
    {
        let created = match event {
            MoveEvent::Created => true,
            _ => false,
        };
        let reserving = match self.phase {
            MovePhase::Reserving => true,
            _ => false,
        };
        let creating = match self.reservation.phase() {
            ReservePhase::Creating => true,
            _ => false,
        };
        created && reserving && creating
    }

    /// The path of the item in the trash, as the reservation stands.
    fn destination(&self) -> (path: Vec<u8>)
        ensures
            path@ == destination(self@),
    {
        let files_dir = join(self.trash_dir.as_slice(), "files".as_bytes());
        let name = crate::names::make_internal_name(
            self.reservation.base_name(),
            self.reservation.attempt(),
        );
        join(files_dir.as_slice(), name.as_slice())
    }

    /// What is to be done next.
    pub fn action(&self) -> (action: MoveAction)
        ensures
            action@ == wanted(self@),
    {
        match self.phase {
            MovePhase::Resolving => MoveAction::Canonicalize(self.source.clone()),
            MovePhase::Reserving => match self.reservation.action() {
                ReserveAction::CreateNew(path) => MoveAction::CreateNew(path),
                ReserveAction::CreateDirAll(path) => MoveAction::CreateDirAll(path),
                _ => MoveAction::Abort(MoveFailure::Reserve),
            },
            MovePhase::Writing => MoveAction::Write {
                file: self.reservation.info_file(),
                text: self.text.clone(),
            },
            MovePhase::Moving => MoveAction::Move {
                from: self.source.clone(),
                to: self.destination(),
                overwrite: false,
                skip_exist: false,
            },
            MovePhase::MakingDirectory => MoveAction::CreateDirAll(
                join(self.trash_dir.as_slice(), "files".as_bytes()),
            ),
            MovePhase::Done => MoveAction::Done(
                TrashFiles::new(self.destination(), self.reservation.info_file()),
            ),
            MovePhase::Aborted(failure) => MoveAction::Abort(failure),
        }
    }

    /// Takes in how the operation asked for has ended, with what the clock
    /// says at that moment.
    pub fn advance_at(&mut self, event: MoveEvent, clock: Option<DeletionDate>)
        requires
            old(self)@.reservation.attempt < u64::MAX,
            clock matches Some(date) ==> date.valid(),
        ensures
            final(self)@ == follow(old(self)@, event@, clock),
            is_sound(old(self)@) ==> is_sound(final(self)@),
    {
        proof {
            if is_sound(self@) {
                lemma_follow_is_sound(self@, event@, clock);
            }
        }
        match self.phase {
            MovePhase::Resolving => match event {
                MoveEvent::Resolved(path) => {
                    if path.len() > 0 && path[0] == 0x2f {
                        self.original = path;
                        self.phase = MovePhase::Reserving;
                    } else {
                        self.phase = MovePhase::Aborted(MoveFailure::Resolve);
                    }
                },
                _ => {
                    self.phase = MovePhase::Aborted(MoveFailure::Resolve);
                },
            },
            MovePhase::Reserving => {
                self.reservation.advance(event.reserve_event());
                match self.reservation.phase() {
                    ReservePhase::Reserved => {
                        let name = crate::names::make_internal_name(
                            self.reservation.base_name(),
                            self.reservation.attempt(),
                        );
                        match TrashInfo::stamped(name, self.original.clone(), clock) {
                            Some(info) => {
                                self.text = info.serialize();
                                self.phase = MovePhase::Writing;
                            },
                            None => {
                                self.phase = MovePhase::Aborted(MoveFailure::Clock);
                            },
                        }
                    },
                    ReservePhase::Aborted => {
                        self.phase = MovePhase::Aborted(MoveFailure::Reserve);
                    },
                    _ => {},
                }
            },
            MovePhase::Writing => match event {
                MoveEvent::Written => {
                    self.phase = MovePhase::Moving;
                },
                _ => {
                    self.phase = MovePhase::Aborted(MoveFailure::Write);
                },
            },
            MovePhase::Moving => match event {
                MoveEvent::Moved => {
                    self.phase = MovePhase::Done;
                },
                MoveEvent::NotFound => {
                    if self.retried {
                        self.phase = MovePhase::Aborted(MoveFailure::Move);
                    } else {
                        self.phase = MovePhase::MakingDirectory;
                    }
                },
                _ => {
                    self.phase = MovePhase::Aborted(MoveFailure::Move);
                },
            },
            MovePhase::MakingDirectory => match event {
                MoveEvent::DirectoryReady => {
                    self.phase = MovePhase::Moving;
                    self.retried = true;
                },
                _ => {
                    self.phase = MovePhase::Aborted(MoveFailure::MakeDirectory);
                },
            },
            _ => {},
        }
    }

    /// From a state, the end of the last operation and the clock to the next
    /// state and what it asks for.
    pub fn step_at(self, event: MoveEvent, clock: Option<DeletionDate>) -> (r: (
        TrashMover,
        MoveAction,
    ))
        requires
            self@.reservation.attempt < u64::MAX,
            clock matches Some(date) ==> date.valid(),
        ensures
            r.0@ == follow(self@, event@, clock),
            r.1@ == wanted(r.0@),
            is_sound(self@) ==> is_sound(r.0@),
    {
        let mut mover = self;
        mover.advance_at(event, clock);
        let action = mover.action();
        (mover, action)
    }

    /// From a state and the end of the last operation to the next state and
    /// what it asks for. The clock is read where a name has just been
    /// reserved; what it says is not known beforehand, so the next state is
    /// the one that follows for some reading of the clock.
    pub fn step(self, event: MoveEvent) -> (r: (TrashMover, MoveAction))
        requires
            self@.reservation.attempt < u64::MAX,
        ensures
            exists|clock: Option<DeletionDate>|
                {
                    &&& clock matches Some(date) ==> date.valid()
                    &&& r.0@ == #[trigger] follow(self@, event@, clock)
                },
            !reads_clock(self@, event@) ==> r.0@ == follow(self@, event@, None),
            r.1@ == wanted(r.0@),
            is_sound(self@) ==> is_sound(r.0@),
    {
        let clock = if self.needs_clock(&event) {
            DeletionDate::now()
        } else {
            None
        };
        self.step_at(event, clock)
    }
}

/// Begins the move of the item at `path` into the trash under the user's data
/// directory `data_home`: gives the move and what it asks for first, which is
/// to resolve the path. A path without a name cannot be trashed.
pub fn move_to_trash(data_home: Vec<u8>, path: Vec<u8>) -> (r: Option<(TrashMover, MoveAction)>)
    ensures
        match file_name_of(path@) {
            Some(base) => r matches Some(begun) && begun.0@ == starting(data_home@, path@, base)
                && begun.1@ == MoveRequest::Canonicalize(path@) && is_sound(begun.0@),
            None => r is None,
        },
{
    match TrashMover::new(data_home, path) {
        Some(mover) => {
            let action = mover.action();
            Some((mover, action))
        },
        None => None,
    }
}

/// The record that a move writes once its name is reserved, for a given date.
pub open spec fn metadata(state: MoverState, date: DeletionDate) -> Record {
    Record { internal_filename: reserved_name(state), path: state.original, deletion_date: date }
}

/// True from the moment at which the name of the item is reserved and the
/// text of its metadata is made.
pub open spec fn has_name(state: MoverState) -> bool {
    ||| state.phase == MovePhase::Writing
    ||| state.phase == MovePhase::Moving
    ||| state.phase == MovePhase::MakingDirectory
    ||| state.phase == MovePhase::Done
}

/// What holds of a move at every step: the name that is wanted is one that a
/// file can have, the metadata files lie in the directory `info` of the
/// trash, the resolved path is absolute, and once the name is reserved the
/// text to be written is the text of a record with that name, that path and
/// a valid date.
pub open spec fn is_sound(state: MoverState) -> bool {
    &&& is_file_name(state.reservation.base)
    &&& state.reservation.attempt >= 1
    &&& state.reservation.info_dir == info_dir_of(state.trash_dir)
    &&& state.phase == MovePhase::Reserving || has_name(state) ==> is_absolute(state.original)
    &&& has_name(state) ==> state.reservation.phase == ReservePhase::Reserved
    &&& has_name(state) ==> exists|date: DeletionDate|
        date.valid() && state.text == info_text(#[trigger] metadata(state, date))
}

/// A move is sound when it starts.
pub proof fn lemma_starting_is_sound(data_home: Seq<u8>, source: Seq<u8>, base: Seq<u8>)
    requires
        is_file_name(base),
    ensures
        is_sound(starting(data_home, source, base)),
{
}

/// A move stays sound, whatever is reported to it, as long as the clock
/// gives valid dates only.
pub proof fn lemma_follow_is_sound(
    state: MoverState,
    report: MoveReport,
    clock: Option<DeletionDate>,
)
    requires
        is_sound(state),
        clock matches Some(date) ==> date.valid(),
    ensures
        is_sound(follow(state, report, clock)),
{
    let after = follow(state, report, clock);
    if has_name(after) {
        if has_name(state) {
            let date = choose|date: DeletionDate|
                date.valid() && state.text == info_text(#[trigger] metadata(state, date));
            assert(metadata(after, date) == metadata(state, date));
        } else {
            let date = clock->0;
            assert(after.text == info_text(metadata(after, date)));
        }
    }
}

/// One name in both directories: where a sound move has ended well, the item
/// lies in the directory `files` of the trash under a name that a file can
/// have, never empty and without a separator, and its metadata in the
/// directory `info` under the same name with the ending `.trashinfo`.
pub proof fn law_one_name_in_both_directories(state: MoverState)
    requires
        is_sound(state),
        state.phase == MovePhase::Done,
    ensures
        is_file_name(reserved_name(state)),
        wanted(state) == MoveRequest::Done(
            Locations {
                trash_file: joined(files_dir_of(state.trash_dir), reserved_name(state)),
                info_file: joined(
                    info_dir_of(state.trash_dir),
                    reserved_name(state) + info_extension(),
                ),
            },
        ),
{
    lemma_internal_name_is_file_name(state.reservation.base, state.reservation.attempt);
}

/// The metadata of a move: the text that a sound move asks to have written
/// is the text of a record whose name is one that a file can have, whose path
/// is absolute and whose date is valid; it goes into the file that was
/// reserved; and reading its two values gives that record back.
pub proof fn law_metadata_of_a_move(state: MoverState)
    requires
        is_sound(state),
        state.phase == MovePhase::Writing,
    ensures
        exists|record: Record|
            {
                &&& #[trigger] info_text(record) == state.text
                &&& record.internal_filename == reserved_name(state)
                &&& is_file_name(record.internal_filename)
                &&& is_absolute(record.path)
                &&& record.deletion_date.valid()
                &&& record_of_values(
                    record.internal_filename,
                    path_text(record.path),
                    date_text(record.deletion_date),
                ) == Ok::<Record, ParseFailure>(record)
            },
        wanted(state) == (MoveRequest::Write { file: reserved_file(state), text: state.text }),
{
    let date = choose|date: DeletionDate|
        date.valid() && state.text == info_text(#[trigger] metadata(state, date));
    let record = metadata(state, date);
    lemma_internal_name_is_file_name(state.reservation.base, state.reservation.attempt);
    law_round_trip(record);
    assert(info_text(record) == state.text);
}

} // verus!
