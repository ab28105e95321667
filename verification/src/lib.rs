//! Moving files to the freedesktop.org trash: the metadata record and its text
//! form, the reservation of a unique metadata file name, and the decisions of
//! the move itself.
//!
//! The library performs no file operation. Where the file system has to act,
//! a state machine names the operation and is told how it ended.

pub mod date;
pub mod directory;
pub mod info;
pub mod inifile;
pub mod mover;
pub mod names;
pub mod percent;
pub mod reserve;
pub mod store;

pub use date::DeletionDate;
pub use info::{ParseFailure, ParseTrashInfoError, TrashInfo};
pub use mover::{
    files_directory, info_directory, move_to_trash, MoveAction, MoveEvent, MoveFailure, MovePhase,
    TrashFiles, TrashMover,
};
pub use reserve::{reserve_filename, Reservation, ReserveAction, ReserveEvent, ReservePhase};
