use std::collections::HashSet;
use trashcan::{reserve_filename, Reservation, ReserveAction, ReserveEvent, ReservePhase};

/// A directory of metadata files that exists or not, and the files in it.
struct Directory {
    path: Vec<u8>,
    exists: bool,
    files: HashSet<Vec<u8>>,
    made: u32,
}

impl Directory {
    fn missing(path: &[u8]) -> Directory {
        Directory { path: path.to_vec(), exists: false, files: HashSet::new(), made: 0 }
    }

    fn perform(&mut self, action: &ReserveAction) -> ReserveEvent {
        match action {
            ReserveAction::CreateNew(path) => {
                assert!(path.starts_with(&self.path));
                if !self.exists {
                    ReserveEvent::NotFound
                } else if self.files.insert(path.clone()) {
                    ReserveEvent::Created
                } else {
                    ReserveEvent::AlreadyExists
                }
            }
            ReserveAction::CreateDirAll(path) => {
                assert_eq!(path, &self.path);
                self.exists = true;
                self.made += 1;
                ReserveEvent::DirectoryReady
            }
            _ => panic!("nothing to perform"),
        }
    }

    fn reserve(&mut self, base: &[u8]) -> ReserveAction {
        let mut reservation = Reservation::new(self.path.clone(), base.to_vec()).expect("a name");
        let mut action = reservation.action();
        for _ in 0..1000 {
            if matches!(action, ReserveAction::Done { .. } | ReserveAction::Abort) {
                break;
            }
            let event = self.perform(&action);
            let (next, wanted) = reservation.step(event);
            reservation = next;
            action = wanted;
        }
        action
    }
}

fn done(info_file: &[u8], internal_name: &[u8]) -> ReserveAction {
    ReserveAction::Done { info_file: info_file.to_vec(), internal_name: internal_name.to_vec() }
}

#[test]
fn test_path_creation_no_existing() {
    let mut directory = Directory::missing(b"/tmp/data/Trash/info");
    let (mut reservation, mut action) =
        reserve_filename(directory.path.clone(), b"test.txt").expect("a path with a name");
    assert_eq!(action, ReserveAction::CreateNew(b"/tmp/data/Trash/info/test.txt.trashinfo".to_vec()));
    while !matches!(action, ReserveAction::Done { .. }) {
        let event = directory.perform(&action);
        reservation.advance(event);
        action = reservation.action();
    }
    assert_eq!(action, done(b"/tmp/data/Trash/info/test.txt.trashinfo", b"test.txt"));
}

#[test]
fn reserve_filename_refuses_a_path_without_a_name() {
    assert!(reserve_filename(b"/i".to_vec(), b"").is_none());
    assert!(reserve_filename(b"/i".to_vec(), b"/").is_none());
    assert!(reserve_filename(b"/i".to_vec(), b"a/..").is_none());
}

#[test]
fn new_refuses_what_is_no_file_name() {
    assert!(Reservation::new(b"/i".to_vec(), b"".to_vec()).is_none());
    assert!(Reservation::new(b"/i".to_vec(), b".".to_vec()).is_none());
    assert!(Reservation::new(b"/i".to_vec(), b"..".to_vec()).is_none());
    assert!(Reservation::new(b"/i".to_vec(), b"a/b".to_vec()).is_none());
    assert!(Reservation::new(b"/i".to_vec(), b"a".to_vec()).is_some());
}

#[test]
fn for_path_takes_the_last_segment() {
    let reservation = Reservation::for_path(b"/i".to_vec(), b"/home/u/docs/").expect("a name");
    assert_eq!(reservation.base_name(), b"docs");
    assert_eq!(reservation.info_dir(), b"/i");
    assert_eq!(reservation.attempt(), 1);
    assert_eq!(reservation.phase(), ReservePhase::Creating);
    assert!(Reservation::for_path(b"/i".to_vec(), b"/").is_none());
    assert!(Reservation::for_path(b"/i".to_vec(), b"/home/..").is_none());
}

#[test]
fn the_first_action_creates_the_plain_name() {
    let reservation = Reservation::new(b"/t/info".to_vec(), b"a.txt".to_vec()).expect("a name");
    assert_eq!(reservation.action(), ReserveAction::CreateNew(b"/t/info/a.txt.trashinfo".to_vec()));
    assert_eq!(reservation.info_file(), b"/t/info/a.txt.trashinfo".to_vec());
}

#[test]
fn a_name_that_is_taken_leads_to_the_next_number() {
    let reservation = Reservation::new(b"/t/info".to_vec(), b"a.txt".to_vec()).expect("a name");
    let (reservation, action) = reservation.step(ReserveEvent::AlreadyExists);
    assert_eq!(action, ReserveAction::CreateNew(b"/t/info/a.txt.2.trashinfo".to_vec()));
    assert_eq!(reservation.attempt(), 2);
    let (reservation, action) = reservation.step(ReserveEvent::AlreadyExists);
    assert_eq!(action, ReserveAction::CreateNew(b"/t/info/a.txt.3.trashinfo".to_vec()));
    let (reservation, action) = reservation.step(ReserveEvent::Created);
    assert_eq!(action, done(b"/t/info/a.txt.3.trashinfo", b"a.txt.3"));
    assert_eq!(reservation.phase(), ReservePhase::Reserved);
    assert_eq!(reservation.attempt(), 3);
}

#[test]
fn a_missing_directory_is_made_and_the_same_name_tried_again() {
    let reservation = Reservation::new(b"/t/info".to_vec(), b"a".to_vec()).expect("a name");
    let (reservation, action) = reservation.step(ReserveEvent::AlreadyExists);
    assert_eq!(action, ReserveAction::CreateNew(b"/t/info/a.2.trashinfo".to_vec()));
    let (reservation, action) = reservation.step(ReserveEvent::NotFound);
    assert_eq!(action, ReserveAction::CreateDirAll(b"/t/info".to_vec()));
    assert_eq!(reservation.phase(), ReservePhase::MakingDirectory);
    let (reservation, action) = reservation.step(ReserveEvent::DirectoryReady);
    assert_eq!(action, ReserveAction::CreateNew(b"/t/info/a.2.trashinfo".to_vec()));
    assert_eq!(reservation.attempt(), 2);
    let (_, action) = reservation.step(ReserveEvent::Created);
    assert_eq!(action, done(b"/t/info/a.2.trashinfo", b"a.2"));
}

#[test]
fn a_directory_that_is_missing_again_ends_the_reservation() {
    let reservation = Reservation::new(b"/t/info".to_vec(), b"a".to_vec()).expect("a name");
    let (reservation, _) = reservation.step(ReserveEvent::NotFound);
    let (reservation, _) = reservation.step(ReserveEvent::DirectoryReady);
    let (reservation, action) = reservation.step(ReserveEvent::NotFound);
    assert_eq!(action, ReserveAction::Abort);
    assert_eq!(reservation.phase(), ReservePhase::Aborted);
}

#[test]
fn a_directory_that_cannot_be_made_ends_the_reservation() {
    let reservation = Reservation::new(b"/t/info".to_vec(), b"a".to_vec()).expect("a name");
    let (reservation, _) = reservation.step(ReserveEvent::NotFound);
    let (_, action) = reservation.step(ReserveEvent::Failed);
    assert_eq!(action, ReserveAction::Abort);
}

#[test]
fn any_other_failure_ends_the_reservation_at_once() {
    let reservation = Reservation::new(b"/t/info".to_vec(), b"a".to_vec()).expect("a name");
    let (reservation, action) = reservation.step(ReserveEvent::Failed);
    assert_eq!(action, ReserveAction::Abort);
    let (reservation, action) = reservation.step(ReserveEvent::Created);
    assert_eq!(action, ReserveAction::Abort);
    assert_eq!(reservation.phase(), ReservePhase::Aborted);
}

#[test]
fn a_report_that_answers_no_request_ends_the_reservation() {
    let reservation = Reservation::new(b"/t/info".to_vec(), b"a".to_vec()).expect("a name");
    let (_, action) = reservation.step(ReserveEvent::DirectoryReady);
    assert_eq!(action, ReserveAction::Abort);
    let reservation = Reservation::new(b"/t/info".to_vec(), b"a".to_vec()).expect("a name");
    let (reservation, _) = reservation.step(ReserveEvent::NotFound);
    let (_, action) = reservation.step(ReserveEvent::Created);
    assert_eq!(action, ReserveAction::Abort);
}

#[test]
fn a_finished_reservation_stays_as_it_is() {
    let reservation = Reservation::new(b"/t/info".to_vec(), b"a".to_vec()).expect("a name");
    let (reservation, _) = reservation.step(ReserveEvent::Created);
    let (reservation, action) = reservation.step(ReserveEvent::AlreadyExists);
    assert_eq!(action, done(b"/t/info/a.trashinfo", b"a"));
    assert_eq!(reservation.attempt(), 1);
}

#[test]
fn repeated_reservations_get_the_names_in_order() {
    let mut directory = Directory::missing(b"/trash/info");
    assert_eq!(directory.reserve(b"base"), done(b"/trash/info/base.trashinfo", b"base"));
    for n in 2..=12u32 {
        let info = format!("/trash/info/base.{}.trashinfo", n).into_bytes();
        let internal = format!("base.{}", n).into_bytes();
        assert_eq!(directory.reserve(b"base"), done(&info, &internal));
    }
    assert_eq!(directory.files.len(), 12);
    assert_eq!(directory.made, 1);
}

#[test]
fn the_directory_is_made_once() {
    let mut directory = Directory::missing(b"/trash/info");
    assert_eq!(directory.reserve(b"one"), done(b"/trash/info/one.trashinfo", b"one"));
    assert_eq!(directory.made, 1);
    assert_eq!(directory.reserve(b"two"), done(b"/trash/info/two.trashinfo", b"two"));
    assert_eq!(directory.reserve(b"one"), done(b"/trash/info/one.2.trashinfo", b"one.2"));
    assert_eq!(directory.made, 1);
}

#[test]
fn a_free_number_between_taken_ones_is_used() {
    let mut directory = Directory::missing(b"/i");
    directory.exists = true;
    directory.files.insert(b"/i/a.trashinfo".to_vec());
    directory.files.insert(b"/i/a.3.trashinfo".to_vec());
    assert_eq!(directory.reserve(b"a"), done(b"/i/a.2.trashinfo", b"a.2"));
    assert_eq!(directory.reserve(b"a"), done(b"/i/a.4.trashinfo", b"a.4"));
}

#[test]
fn two_reservations_at_once_get_two_names() {
    for schedule in 0..64u32 {
        let mut directory = Directory::missing(b"/i");
        let mut first = Reservation::new(b"/i".to_vec(), b"same".to_vec()).expect("a name");
        let mut second = Reservation::new(b"/i".to_vec(), b"same".to_vec()).expect("a name");
        let mut turn = 0;
        while first.phase() != ReservePhase::Reserved || second.phase() != ReservePhase::Reserved {
            let first_moves = if first.phase() == ReservePhase::Reserved {
                false
            } else if second.phase() == ReservePhase::Reserved {
                true
            } else {
                (schedule >> (turn % 6)) & 1 == 0
            };
            turn += 1;
            let mover = if first_moves { &mut first } else { &mut second };
            let event = directory.perform(&mover.action());
            mover.advance(event);
            assert_ne!(mover.phase(), ReservePhase::Aborted);
        }
        assert_ne!(first.info_file(), second.info_file());
        let mut names = vec![first.info_file(), second.info_file()];
        names.sort();
        assert_eq!(names, vec![b"/i/same.2.trashinfo".to_vec(), b"/i/same.trashinfo".to_vec()]);
    }
}
