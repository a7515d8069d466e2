use std::cell::RefCell;

use linksen::materialize::{collect_native_ids, materialize, Event, Materialization, Step};
use linksen::types::{MusicClient, PlaylistItem, PlaylistItemId, Service, ServiceError};

fn video(id: &str, name: &str) -> PlaylistItem {
    PlaylistItem::new(PlaylistItemId::YouTube(id.to_string()), name.to_string(), "X".to_string())
}

fn song(id: &str, name: &str) -> PlaylistItem {
    PlaylistItem::new(PlaylistItemId::Spotify(id.to_string()), name.to_string(), "X".to_string())
}

fn three_videos() -> Vec<PlaylistItem> {
    vec![video("v1", "One"), video("v2", "Two"), video("v3", "Three")]
}

struct Shelf {
    fail_insert_at: Option<(usize, ServiceError)>,
    fail_create: Option<ServiceError>,
    log: RefCell<Vec<String>>,
}

impl Shelf {
    fn new() -> Self {
        Shelf { fail_insert_at: None, fail_create: None, log: RefCell::new(Vec::new()) }
    }
}

impl MusicClient for Shelf {
    fn service(&self) -> Service {
        Service::YouTube
    }

    fn get_playlist_items(&self, _url: &str) -> Result<Vec<PlaylistItem>, ServiceError> {
        Err(ServiceError::Unimplemented)
    }

    fn search(&self, _query: &String) -> Result<Option<String>, ServiceError> {
        Err(ServiceError::Unimplemented)
    }

    fn create_playlist(&self, name: &String) -> Result<String, ServiceError> {
        self.log.borrow_mut().push(format!("create {}", name));
        match self.fail_create {
            Some(error) => Err(error),
            None => Ok("PL1".to_string()),
        }
    }

    fn insert_track(&self, playlist: &String, id: &String) -> Result<(), ServiceError> {
        let inserts = self.log.borrow().iter().filter(|line| line.starts_with("insert")).count();
        self.log.borrow_mut().push(format!("insert {} {}", playlist, id));
        match self.fail_insert_at {
            Some((at, error)) if at == inserts + 1 => Err(error),
            _ => Ok(()),
        }
    }
}

#[test]
fn second_insert_fails_and_first_track_stays() {
    let mut run = Materialization::begin(&three_videos(), Service::YouTube, 1);
    assert!(matches!(run.next_step(), Step::AskName));
    run.answer("Road trip\n");
    assert!(matches!(run.next_step(), Step::Create { name } if name == "Road trip"));
    run.handle(Event::Created("PL1".to_string()));
    assert!(matches!(
        run.next_step(),
        Step::Insert { playlist, id } if playlist == "PL1" && id == "v1"
    ));
    run.handle(Event::Inserted);
    assert!(matches!(
        run.next_step(),
        Step::Insert { playlist, id } if playlist == "PL1" && id == "v2"
    ));
    run.handle(Event::Refused(ServiceError::Transport));
    match run.next_step() {
        Step::Abort { error, left_behind, inserted } => {
            assert_eq!(error, ServiceError::Transport);
            assert_eq!(left_behind, Some("PL1".to_string()));
            assert_eq!(inserted, 1);
        }
        other => panic!("unexpected step {:?}", other),
    }
    run.handle(Event::Inserted);
    run.handle(Event::Created("PL2".to_string()));
    run.answer("Another");
    assert!(matches!(
        run.next_step(),
        Step::Abort { error: ServiceError::Transport, inserted: 1, .. }
    ));
}

#[test]
fn second_insert_fails_under_the_driver() {
    let mut shelf = Shelf::new();
    shelf.fail_insert_at = Some((2, ServiceError::Transport));
    let run = materialize(&shelf, &three_videos(), 3, || "Road trip".to_string());
    match run.next_step() {
        Step::Abort { error, left_behind, inserted } => {
            assert_eq!(error, ServiceError::Transport);
            assert_eq!(left_behind, Some("PL1".to_string()));
            assert_eq!(inserted, 1);
        }
        other => panic!("unexpected step {:?}", other),
    }
    assert_eq!(
        *shelf.log.borrow(),
        vec![
            "create Road trip".to_string(),
            "insert PL1 v1".to_string(),
            "insert PL1 v2".to_string()
        ]
    );
}

#[test]
fn all_tracks_are_inserted_in_order() {
    let shelf = Shelf::new();
    let run = materialize(&shelf, &three_videos(), 1, || "  Mix \n".to_string());
    match run.next_step() {
        Step::Finish { playlist, inserted } => {
            assert_eq!(playlist, "PL1");
            assert_eq!(inserted, 3);
        }
        other => panic!("unexpected step {:?}", other),
    }
    assert_eq!(
        *shelf.log.borrow(),
        vec![
            "create Mix".to_string(),
            "insert PL1 v1".to_string(),
            "insert PL1 v2".to_string(),
            "insert PL1 v3".to_string()
        ]
    );
}

#[test]
fn empty_name_is_asked_for_again() {
    let answers = RefCell::new(vec!["Mix".to_string(), "   ".to_string(), "".to_string()]);
    let shelf = Shelf::new();
    let run = materialize(&shelf, &three_videos(), 5, || answers.borrow_mut().pop().unwrap());
    assert!(answers.borrow().is_empty());
    assert!(matches!(run.next_step(), Step::Finish { inserted: 3, .. }));
    assert_eq!(shelf.log.borrow()[0], "create Mix".to_string());
}

#[test]
fn name_prompts_run_out() {
    let asked = RefCell::new(0);
    let shelf = Shelf::new();
    let run = materialize(&shelf, &three_videos(), 2, || {
        *asked.borrow_mut() += 1;
        " \t ".to_string()
    });
    assert_eq!(*asked.borrow(), 2);
    match run.next_step() {
        Step::Abort { error, left_behind, inserted } => {
            assert_eq!(error, ServiceError::InvalidInput);
            assert_eq!(left_behind, None);
            assert_eq!(inserted, 0);
        }
        other => panic!("unexpected step {:?}", other),
    }
    assert!(shelf.log.borrow().is_empty());
}

#[test]
fn no_prompt_allowed_fails_before_anything_is_asked() {
    let run = Materialization::begin(&three_videos(), Service::YouTube, 0);
    assert!(matches!(
        run.next_step(),
        Step::Abort { error: ServiceError::InvalidInput, left_behind: None, inserted: 0 }
    ));
}

#[test]
fn refused_creation_leaves_nothing_behind() {
    let mut shelf = Shelf::new();
    shelf.fail_create = Some(ServiceError::Auth);
    let run = materialize(&shelf, &three_videos(), 1, || "Mix".to_string());
    assert!(matches!(
        run.next_step(),
        Step::Abort { error: ServiceError::Auth, left_behind: None, inserted: 0 }
    ));
    assert_eq!(*shelf.log.borrow(), vec!["create Mix".to_string()]);
}

#[test]
fn empty_playlist_is_created_and_done() {
    let shelf = Shelf::new();
    let run = materialize(&shelf, &Vec::new(), 1, || "Mix".to_string());
    assert!(matches!(run.next_step(), Step::Finish { inserted: 0, .. }));
    assert_eq!(*shelf.log.borrow(), vec!["create Mix".to_string()]);
}

#[test]
fn tracks_of_another_service_are_not_inserted() {
    let items = vec![video("v1", "One"), song("s2", "Two"), video("v3", "Three")];
    assert_eq!(
        collect_native_ids(&items, Service::YouTube),
        vec!["v1".to_string(), "v3".to_string()]
    );
    assert_eq!(collect_native_ids(&items, Service::Spotify), vec!["s2".to_string()]);
    let shelf = Shelf::new();
    let run = materialize(&shelf, &items, 1, || "Mix".to_string());
    assert!(matches!(run.next_step(), Step::Finish { inserted: 2, .. }));
    assert_eq!(
        *shelf.log.borrow(),
        vec!["create Mix".to_string(), "insert PL1 v1".to_string(), "insert PL1 v3".to_string()]
    );
}

#[test]
fn events_out_of_turn_are_ignored() {
    let mut run = Materialization::begin(&three_videos(), Service::YouTube, 2);
    run.handle(Event::Inserted);
    run.handle(Event::Created("PL0".to_string()));
    run.handle(Event::Refused(ServiceError::Transport));
    assert!(matches!(run.next_step(), Step::AskName));
    run.handle(Event::Named("Mix".to_string()));
    run.handle(Event::Named("Other".to_string()));
    run.handle(Event::Inserted);
    assert!(matches!(run.next_step(), Step::Create { name } if name == "Mix"));
    run.handle(Event::Created("PL1".to_string()));
    run.handle(Event::Created("PL2".to_string()));
    run.handle(Event::Inserted);
    run.handle(Event::Inserted);
    run.handle(Event::Inserted);
    assert!(matches!(
        run.next_step(),
        Step::Finish { playlist, inserted: 3 } if playlist == "PL1"
    ));
    run.handle(Event::Refused(ServiceError::Transport));
    assert!(matches!(run.next_step(), Step::Finish { inserted: 3, .. }));
}

#[test]
fn a_given_name_is_taken_as_it_is() {
    let mut run = Materialization::begin(&three_videos(), Service::YouTube, 1);
    run.handle(Event::Named(" spaced ".to_string()));
    assert!(matches!(run.next_step(), Step::Create { name } if name == " spaced "));
    let mut run = Materialization::begin(&three_videos(), Service::YouTube, 1);
    run.answer(" spaced ");
    assert!(matches!(run.next_step(), Step::Create { name } if name == "spaced"));
}

#[test]
fn no_prompt_allowed_asks_nothing_of_anyone() {
    let shelf = Shelf::new();
    let asked = RefCell::new(0);
    let run = materialize(&shelf, &three_videos(), 0, || {
        *asked.borrow_mut() += 1;
        "Mix".to_string()
    });
    assert!(matches!(
        run.next_step(),
        Step::Abort { error: ServiceError::InvalidInput, left_behind: None, inserted: 0 }
    ));
    assert_eq!(*asked.borrow(), 0);
    assert!(shelf.log.borrow().is_empty());
}

#[test]
fn a_blank_line_is_no_name() {
    let mut run = Materialization::begin(&three_videos(), Service::YouTube, 2);
    run.answer(" \t\u{a0}\u{3000}\r\n");
    assert!(matches!(run.next_step(), Step::AskName));
    run.answer("\u{2003}");
    assert!(matches!(
        run.next_step(),
        Step::Abort { error: ServiceError::InvalidInput, left_behind: None, inserted: 0 }
    ));
}
