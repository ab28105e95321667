//! Reserving the name of a metadata file.
//!
//! A name is reserved by creating the file, in a way that fails where the
//! file exists: no test comes before the creation, so two reservations that
//! run at once can never both get one name. Where the name is taken, the next
//! one is tried: `name.trashinfo`, then `name.2.trashinfo`, `name.3.trashinfo`
//! and so on. Where the directory is missing, it is made, once, and the same
//! name is tried again.
//!
//! The file system is not touched here. A [`Reservation`] says what is to be
//! done next, and is told how that ended.

use vstd::prelude::*;
use crate::names::{
    is_file_name,
    file_name_of,
    info_name,
    internal_name,
    joined,
    check_file_name,
    file_name,
    join,
    make_info_name,
    make_internal_name,
    lemma_file_name_of_path,
};

verus! {

/// How an operation on the file system ended.
#[derive(Clone, Copy, Debug, PartialEq, Eq, Structural)]
pub enum ReserveEvent {
    /// The file did not exist; it was created and is open for writing.
    Created,
    /// The file exists already.
    AlreadyExists,
    /// The directory that should hold the file does not exist.
    NotFound,
    /// The directory and all its parents exist now.
    DirectoryReady,
    /// The operation failed for another reason.
    Failed,
}

/// Where a reservation stands.
#[derive(Clone, Copy, Debug, PartialEq, Eq, Structural)]
pub enum ReservePhase {
    /// The file of the current attempt is to be created.
    Creating,
    /// The directory is to be made.
    MakingDirectory,
    /// The file of the current attempt was created: the name is reserved.
    Reserved,
    /// An operation failed and the reservation was given up.
    Aborted,
}

/// What a reservation asks for.
#[derive(Debug, PartialEq, Eq)]
pub enum ReserveAction {
    /// Create this file for writing; fail where it exists.
    CreateNew(Vec<u8>),
    /// Make this directory and every missing parent of it.
    CreateDirAll(Vec<u8>),
    /// Nothing more: the name is reserved. `info_file` is the path of the
    /// file that was created, `internal_name` the name for the item itself.
    Done { info_file: Vec<u8>, internal_name: Vec<u8> },
    /// Nothing more: the reservation failed, with the error of the operation
    /// that was reported last.
    Abort,
}

/// What a reservation asks for, as a mathematical value.
pub enum Request {
    CreateNew(Seq<u8>),
    CreateDirAll(Seq<u8>),
    Done { info_file: Seq<u8>, internal_name: Seq<u8> },
    Abort,
}

impl View for ReserveAction {
    type V = Request;

    open spec fn view(&self) -> Request {
        match self {
            ReserveAction::CreateNew(path) => Request::CreateNew(path@),
            ReserveAction::CreateDirAll(path) => Request::CreateDirAll(path@),
            ReserveAction::Done { info_file, internal_name } => Request::Done {
                info_file: info_file@,
                internal_name: internal_name@,
            },
            ReserveAction::Abort => Request::Abort,
        }
    }
}

/// A reservation as a mathematical value.
pub struct ReservationState {
    /// The directory of the metadata files.
    pub info_dir: Seq<u8>,
    /// The name that is wanted.
    pub base: Seq<u8>,
    /// The number of the current attempt, from 1.
    pub attempt: nat,
    /// True once the directory was made.
    pub bootstrapped: bool,
    pub phase: ReservePhase,
}

/// A reservation under way.
#[derive(Debug)]
pub struct Reservation {
    info_dir: Vec<u8>,
    base: Vec<u8>,
    attempt: u64,
    bootstrapped: bool,
    phase: ReservePhase,
}

impl View for Reservation {
    type V = ReservationState;

    closed spec fn view(&self) -> ReservationState {
        ReservationState {
            info_dir: self.info_dir@,
            base: self.base@,
            attempt: self.attempt as nat,
            bootstrapped: self.bootstrapped,
            phase: self.phase,
        }
    }
}

/// The reservation before anything was tried.
pub open spec fn initial(info_dir: Seq<u8>, base: Seq<u8>) -> ReservationState {
    ReservationState {
        info_dir,
        base,
        attempt: 1,
        bootstrapped: false,
        phase: ReservePhase::Creating,
    }
}

/// The path of the metadata file at the given attempt.
pub open spec fn candidate(info_dir: Seq<u8>, base: Seq<u8>, attempt: nat) -> Seq<u8> {
    joined(info_dir, info_name(base, attempt))
}

/// What a reservation asks for in a given state.
pub open spec fn request(state: ReservationState) -> Request {
    match state.phase {
        ReservePhase::Creating => Request::CreateNew(
            candidate(state.info_dir, state.base, state.attempt),
        ),
        ReservePhase::MakingDirectory => Request::CreateDirAll(state.info_dir),
        ReservePhase::Reserved => Request::Done {
            info_file: candidate(state.info_dir, state.base, state.attempt),
            internal_name: internal_name(state.base, state.attempt),
        },
        ReservePhase::Aborted => Request::Abort,
    }
}

/// The state that follows when the operation asked for has ended.
///
/// A file that exists leads to the next attempt. A missing directory leads
/// to making it, but only once: where the directory is reported missing
/// again, the reservation is given up. Any other failure, and any report that
/// answers no request, gives it up at once.
pub open spec fn next(state: ReservationState, event: ReserveEvent) -> ReservationState {
    match state.phase {
        ReservePhase::Creating => match event {
            ReserveEvent::Created => ReservationState { phase: ReservePhase::Reserved, ..state },
            ReserveEvent::AlreadyExists => ReservationState {
                attempt: state.attempt + 1,
                ..state
            },
            ReserveEvent::NotFound => if state.bootstrapped {
                ReservationState { phase: ReservePhase::Aborted, ..state }
            } else {
                ReservationState { phase: ReservePhase::MakingDirectory, ..state }
            },
            _ => ReservationState { phase: ReservePhase::Aborted, ..state },
        },
        ReservePhase::MakingDirectory => match event {
            ReserveEvent::DirectoryReady => ReservationState {
                phase: ReservePhase::Creating,
                bootstrapped: true,
                ..state
            },
            _ => ReservationState { phase: ReservePhase::Aborted, ..state },
        },
        _ => state,
    }
}

/// True once nothing more is asked for.
pub open spec fn is_finished(state: ReservationState) -> bool {
    state.phase == ReservePhase::Reserved || state.phase == ReservePhase::Aborted
}

impl Reservation {
    /// A reservation of `base` in the directory `info_dir`, if `base` is a
    /// name that a file can have.
    pub fn new(info_dir: Vec<u8>, base: Vec<u8>) -> (r: Option<Reservation>)
        ensures
            match r {
                Some(reservation) => is_file_name(base@) && reservation@ == initial(
                    info_dir@,
                    base@,
                ),
                None => !is_file_name(base@),
            },
    {
        if check_file_name(base.as_slice()) {
            Some(
                Reservation {
                    info_dir,
                    base,
                    attempt: 1,
                    bootstrapped: false,
                    phase: ReservePhase::Creating,
                },
            )
        } else {
            None
        }
    }

    /// A reservation for the item at `path`, under the last segment of the
    /// path, if the path has a name.
    pub fn for_path(info_dir: Vec<u8>, path: &[u8]) -> (r: Option<Reservation>)
        ensures
            match file_name_of(path@) {
                Some(base) => r matches Some(reservation) && reservation@ == initial(
                    info_dir@,
                    base,
                ),
                None => r is None,
            },
    {
        proof {
            lemma_file_name_of_path(path@);
        }
        match file_name(path) {
            Some(base) => Reservation::new(info_dir, base),
            None => None,
        }
    }

    /// The number of the current attempt.
    pub fn attempt(&self) -> (r: u64)
        ensures
            r == self@.attempt,
    {
        self.attempt
    }

    /// The name that is wanted.
    pub fn base_name(&self) -> (r: &[u8])
        ensures
            r@ == self@.base,
    {
        self.base.as_slice()
    }

    /// The directory of the metadata files.
    pub fn info_dir(&self) -> (r: &[u8])
        ensures
            r@ == self@.info_dir,
    {
        self.info_dir.as_slice()
    }

    /// The path of the metadata file of the current attempt.
    pub fn info_file(&self) -> (path: Vec<u8>)
        ensures
            path@ == candidate(self@.info_dir, self@.base, self@.attempt),
    {
        let name = make_info_name(self.base.as_slice(), self.attempt);
        join(self.info_dir.as_slice(), name.as_slice())
    }

    /// Where the reservation stands.
    pub fn phase(&self) -> (r: ReservePhase)
        ensures
            r == self@.phase,
    {
        self.phase
    }

    /// What is to be done next.
    pub fn action(&self) -> (action: ReserveAction)
        ensures
            action@ == request(self@),
    {
        match self.phase {
            ReservePhase::Creating => {
                let name = make_info_name(self.base.as_slice(), self.attempt);
                ReserveAction::CreateNew(join(self.info_dir.as_slice(), name.as_slice()))
            },
            ReservePhase::MakingDirectory => ReserveAction::CreateDirAll(self.info_dir.clone()),
            ReservePhase::Reserved => {
                let name = make_info_name(self.base.as_slice(), self.attempt);
                ReserveAction::Done {
                    info_file: join(self.info_dir.as_slice(), name.as_slice()),
                    internal_name: make_internal_name(self.base.as_slice(), self.attempt),
                }
            },
            ReservePhase::Aborted => ReserveAction::Abort,
        }
    }

    /// Takes in how the operation asked for has ended.
    pub fn advance(&mut self, event: ReserveEvent)
        requires
            old(self)@.attempt < u64::MAX,
        ensures
            final(self)@ == next(old(self)@, event),
    {
        match self.phase {
            ReservePhase::Creating => match event {
                ReserveEvent::Created => {
                    self.phase = ReservePhase::Reserved;
                },
                ReserveEvent::AlreadyExists => {
                    self.attempt = self.attempt + 1;
                },
                ReserveEvent::NotFound => {
                    if self.bootstrapped {
                        self.phase = ReservePhase::Aborted;
                    } else {
                        self.phase = ReservePhase::MakingDirectory;
                    }
                },
                _ => {
                    self.phase = ReservePhase::Aborted;
                },
            },
            ReservePhase::MakingDirectory => match event {
                ReserveEvent::DirectoryReady => {
                    self.phase = ReservePhase::Creating;
                    self.bootstrapped = true;
                },
                _ => {
                    self.phase = ReservePhase::Aborted;
                },
            },
            _ => {},
        }
    }

    /// From a state and the end of the last operation to the next state and
    /// what it asks for.
    pub fn step(self, event: ReserveEvent) -> (r: (Reservation, ReserveAction))
        requires
            self@.attempt < u64::MAX,
        ensures
            r.0@ == next(self@, event),
            r.1@ == request(r.0@),
    {
        let mut reservation = self;
        reservation.advance(event);
        let action = reservation.action();
        (reservation, action)
    }
}

/// Begins the reservation of a metadata file for the item at `path` in the
/// directory `info_dir`: gives the reservation and what it asks for first,
/// which is to create the file named after the last segment of the path. A
/// path without a name gets no reservation.
pub fn reserve_filename(info_dir: Vec<u8>, path: &[u8]) -> (r: Option<(Reservation, ReserveAction)>)
    ensures
        match file_name_of(path@) {
            Some(base) => r matches Some(begun) && begun.0@ == initial(info_dir@, base)
                && begun.1@ == Request::CreateNew(candidate(info_dir@, base, 1)) && is_file_name(
                base,
            ),
            None => r is None,
        },
{
    proof {
        lemma_file_name_of_path(path@);
    }
    match Reservation::for_path(info_dir, path) {
        Some(reservation) => {
            let action = reservation.action();
            Some((reservation, action))
        },
        None => None,
    }
}

} // verus!
