use std::cell::RefCell;

use linksen::resolve::{parse_playlist_items, read_reply, Request, Resolution};
use linksen::types::{MusicClient, PlaylistItem, PlaylistItemId, Service, ServiceError};

struct Catalogue {
    service: Service,
    entries: Vec<(String, Result<Option<String>, ServiceError>)>,
    asked: RefCell<Vec<String>>,
}

impl Catalogue {
    fn new(service: Service, entries: Vec<(&str, Result<Option<&str>, ServiceError>)>) -> Self {
        Catalogue {
            service,
            entries: entries
                .into_iter()
                .map(|(query, answer)| (query.to_string(), answer.map(|id| id.map(str::to_string))))
                .collect(),
            asked: RefCell::new(Vec::new()),
        }
    }
}

impl MusicClient for Catalogue {
    fn service(&self) -> Service {
        self.service
    }

    fn get_playlist_items(&self, _url: &str) -> Result<Vec<PlaylistItem>, ServiceError> {
        Err(ServiceError::Unimplemented)
    }

    fn search(&self, query: &String) -> Result<Option<String>, ServiceError> {
        self.asked.borrow_mut().push(query.clone());
        for (known, answer) in &self.entries {
            if known == query {
                return answer.clone();
            }
        }
        Ok(None)
    }

    fn create_playlist(&self, _name: &String) -> Result<String, ServiceError> {
        Err(ServiceError::Unimplemented)
    }

    fn insert_track(&self, _playlist: &String, _id: &String) -> Result<(), ServiceError> {
        Err(ServiceError::Unimplemented)
    }
}

fn spotify_track(id: &str, name: &str, artists: &str) -> PlaylistItem {
    PlaylistItem::new(PlaylistItemId::Spotify(id.to_string()), name.to_string(), artists.to_string())
}

fn youtube_track(id: &str, name: &str, artists: &str) -> PlaylistItem {
    PlaylistItem::new(PlaylistItemId::YouTube(id.to_string()), name.to_string(), artists.to_string())
}

fn describe(items: &[PlaylistItem]) -> Vec<(String, String, String, String)> {
    items
        .iter()
        .map(|item| {
            let id = match &item.id {
                PlaylistItemId::Spotify(id) => format!("spotify:{}", id),
                PlaylistItemId::YouTube(id) => format!("youtube:{}", id),
            };
            (id, item.name.clone(), item.artists.clone(), item.handle.clone())
        })
        .collect()
}

fn row(id: &str, name: &str, artists: &str, handle: &str) -> (String, String, String, String) {
    (id.to_string(), name.to_string(), artists.to_string(), handle.to_string())
}

fn song_playlist() -> Vec<PlaylistItem> {
    vec![spotify_track("s1", "Song A", "Artist X"), spotify_track("s2", "Song B", "Artist Y")]
}

#[test]
fn one_of_two_tracks_is_found() {
    let youtube = Catalogue::new(
        Service::YouTube,
        vec![("Song A - Artist X", Ok(Some("id1"))), ("Song B - Artist Y", Ok(None))],
    );
    let seen = RefCell::new(Vec::new());
    let run = parse_playlist_items(&youtube, song_playlist(), |request: &Request| {
        seen.borrow_mut().push(format!("{:?}", request));
    });
    assert_eq!(run.failure(), None);
    assert_eq!(run.searches(), 2);
    assert_eq!(
        describe(run.resolved()),
        vec![row("youtube:id1", "Song A", "Artist X", "Song A - Artist X")]
    );
    assert!(matches!(run.request(), Request::Finish { resolved: 1, total: 2 }));
    assert_eq!(
        *youtube.asked.borrow(),
        vec!["Song A - Artist X".to_string(), "Song B - Artist Y".to_string()]
    );
    assert_eq!(
        *seen.borrow(),
        vec![
            "Search { position: 1, total: 2, name: \"Song A\", query: \"Song A - Artist X\" }"
                .to_string(),
            "Search { position: 2, total: 2, name: \"Song B\", query: \"Song B - Artist Y\" }"
                .to_string(),
            "Finish { resolved: 1, total: 2 }".to_string(),
        ]
    );
}

#[test]
fn resolving_the_result_again_asks_nothing() {
    let youtube = Catalogue::new(Service::YouTube, vec![("Song A - Artist X", Ok(Some("id1")))]);
    let first = parse_playlist_items(&youtube, song_playlist(), |_request: &Request| {})
        .into_resolved();
    let before = describe(&first);
    assert_eq!(before.len(), 1);
    let asked = youtube.asked.borrow().len();
    let again = parse_playlist_items(&youtube, first, |_request: &Request| {});
    assert_eq!(describe(again.resolved()), before);
    assert_eq!(again.searches(), 0);
    assert_eq!(again.failure(), None);
    assert_eq!(youtube.asked.borrow().len(), asked);
    assert!(matches!(again.request(), Request::Finish { resolved: 1, total: 1 }));
}

#[test]
fn native_tracks_pass_without_a_search() {
    let youtube = Catalogue::new(Service::YouTube, vec![]);
    let playlist = vec![youtube_track("v1", "One", "A"), youtube_track("v2", "Two", "B, C")];
    let seen = RefCell::new(Vec::new());
    let run = parse_playlist_items(&youtube, playlist, |request: &Request| {
        seen.borrow_mut().push(format!("{:?}", request));
    });
    assert!(youtube.asked.borrow().is_empty());
    assert_eq!(run.searches(), 0);
    assert_eq!(
        describe(run.resolved()),
        vec![row("youtube:v1", "One", "A", "One - A"), row("youtube:v2", "Two", "B, C", "Two - B, C")]
    );
    assert_eq!(
        *seen.borrow(),
        vec![
            "Keep { position: 1, total: 2, name: \"One\" }".to_string(),
            "Keep { position: 2, total: 2, name: \"Two\" }".to_string(),
            "Finish { resolved: 2, total: 2 }".to_string(),
        ]
    );
}

#[test]
fn survivors_keep_their_order() {
    let spotify = Catalogue::new(
        Service::Spotify,
        vec![
            ("One - A", Ok(Some("t1"))),
            ("Two - B", Ok(None)),
            ("Four - D", Ok(Some("t4"))),
            ("Five - E", Err(ServiceError::NotFound)),
        ],
    );
    let playlist = vec![
        youtube_track("v1", "One", "A"),
        youtube_track("v2", "Two", "B"),
        spotify_track("t3", "Three", "C"),
        youtube_track("v4", "Four", "D"),
        youtube_track("v5", "Five", "E"),
    ];
    let run = parse_playlist_items(&spotify, playlist, |_request: &Request| {});
    assert_eq!(run.failure(), None);
    assert_eq!(
        describe(run.resolved()),
        vec![
            row("spotify:t1", "One", "A", "One - A"),
            row("spotify:t3", "Three", "C", "Three - C"),
            row("spotify:t4", "Four", "D", "Four - D"),
        ]
    );
    assert_eq!(run.searches(), 4);
    assert!(matches!(run.request(), Request::Finish { resolved: 3, total: 5 }));
    assert_eq!(
        *spotify.asked.borrow(),
        vec![
            "One - A".to_string(),
            "Two - B".to_string(),
            "Four - D".to_string(),
            "Five - E".to_string()
        ]
    );
}

#[test]
fn result_is_as_long_as_the_playlist_when_all_are_found() {
    let youtube = Catalogue::new(
        Service::YouTube,
        vec![("Song A - Artist X", Ok(Some("id1"))), ("Song B - Artist Y", Ok(Some("id2")))],
    );
    let run = parse_playlist_items(&youtube, song_playlist(), |_request: &Request| {});
    assert_eq!(run.resolved().len(), 2);
    let none = Catalogue::new(Service::YouTube, vec![]);
    let run = parse_playlist_items(&none, song_playlist(), |_request: &Request| {});
    assert_eq!(run.resolved().len(), 0);
    assert_eq!(run.failure(), None);
    assert!(matches!(run.request(), Request::Finish { resolved: 0, total: 2 }));
}

#[test]
fn unmatched_track_is_dropped_and_run_goes_on() {
    let youtube = Catalogue::new(
        Service::YouTube,
        vec![("Song A - Artist X", Ok(None)), ("Song B - Artist Y", Ok(Some("id2")))],
    );
    let run = parse_playlist_items(&youtube, song_playlist(), |_request: &Request| {});
    assert_eq!(run.failure(), None);
    assert_eq!(
        describe(run.resolved()),
        vec![row("youtube:id2", "Song B", "Artist Y", "Song B - Artist Y")]
    );
    assert_eq!(youtube.asked.borrow().len(), 2);
}

#[test]
fn transport_failure_stops_the_run_and_keeps_what_was_resolved() {
    let youtube = Catalogue::new(
        Service::YouTube,
        vec![
            ("One - A", Ok(Some("v1"))),
            ("Two - B", Err(ServiceError::Transport)),
            ("Three - C", Ok(Some("v3"))),
        ],
    );
    let playlist = vec![
        spotify_track("t1", "One", "A"),
        spotify_track("t2", "Two", "B"),
        spotify_track("t3", "Three", "C"),
    ];
    let seen = RefCell::new(Vec::new());
    let run = parse_playlist_items(&youtube, playlist, |request: &Request| {
        seen.borrow_mut().push(format!("{:?}", request));
    });
    assert_eq!(run.failure(), Some(ServiceError::Transport));
    assert_eq!(*youtube.asked.borrow(), vec!["One - A".to_string(), "Two - B".to_string()]);
    assert_eq!(run.searches(), 2);
    assert!(matches!(
        run.request(),
        Request::Abort { error: ServiceError::Transport, position: 2, total: 3 }
    ));
    assert_eq!(seen.borrow().len(), 3);
    assert_eq!(
        seen.borrow()[2],
        "Abort { error: Transport, position: 2, total: 3 }".to_string()
    );
    assert_eq!(describe(&run.into_resolved()), vec![row("youtube:v1", "One", "A", "One - A")]);
}

#[test]
fn auth_failure_is_told_apart_from_transport() {
    let youtube = Catalogue::new(Service::YouTube, vec![("One - A", Err(ServiceError::Auth))]);
    let run = parse_playlist_items(
        &youtube,
        vec![spotify_track("t1", "One", "A")],
        |_request: &Request| {},
    );
    assert_eq!(run.failure(), Some(ServiceError::Auth));
    assert!(matches!(
        run.request(),
        Request::Abort { error: ServiceError::Auth, position: 1, total: 1 }
    ));
}

#[test]
fn empty_playlist_finishes_at_once() {
    let youtube = Catalogue::new(Service::YouTube, vec![]);
    let run = parse_playlist_items(&youtube, Vec::new(), |_request: &Request| {});
    assert!(matches!(run.request(), Request::Finish { resolved: 0, total: 0 }));
    assert!(run.resolved().is_empty());
    assert!(youtube.asked.borrow().is_empty());
}

#[test]
fn a_run_can_be_driven_by_hand() {
    let playlist = vec![spotify_track("s1", "Song A", "Artist X")];
    let mut run = Resolution::begin(playlist, Service::YouTube);
    match run.request() {
        Request::Search { position, total, name, query } => {
            assert_eq!((position, total), (1, 1));
            assert_eq!(name, "Song A");
            assert_eq!(query, "Song A - Artist X");
        }
        other => panic!("unexpected request {:?}", other),
    }
    run.record(Err(ServiceError::Transport));
    assert!(matches!(
        run.request(),
        Request::Abort { error: ServiceError::Transport, position: 1, total: 1 }
    ));
    assert_eq!(run.failure(), Some(ServiceError::Transport));
    assert!(run.resolved().is_empty());
}

#[test]
fn events_that_are_not_awaited_change_nothing() {
    let playlist = vec![spotify_track("s1", "Song A", "Artist X"), youtube_track("v2", "Two", "B")];
    let mut run = Resolution::begin(playlist, Service::YouTube);
    run.keep();
    assert!(matches!(run.request(), Request::Search { position: 1, total: 2, .. }));
    assert!(run.resolved().is_empty());
    run.record(Ok(Some("v1".to_string())));
    assert!(matches!(run.request(), Request::Keep { position: 2, total: 2, .. }));
    run.record(Ok(Some("other".to_string())));
    assert_eq!(run.searches(), 1);
    assert_eq!(run.resolved().len(), 1);
    run.keep();
    assert!(matches!(run.request(), Request::Finish { resolved: 2, total: 2 }));
    run.keep();
    run.record(Err(ServiceError::Transport));
    assert_eq!(run.failure(), None);
    assert_eq!(
        describe(run.resolved()),
        vec![
            row("youtube:v1", "Song A", "Artist X", "Song A - Artist X"),
            row("youtube:v2", "Two", "B", "Two - B")
        ]
    );
}

#[test]
fn a_failed_run_takes_nothing_more() {
    let playlist = vec![spotify_track("s1", "Song A", "Artist X"), spotify_track("s2", "Two", "B")];
    let mut run = Resolution::begin(playlist, Service::YouTube);
    run.record(Err(ServiceError::Auth));
    run.record(Ok(Some("v1".to_string())));
    run.keep();
    assert_eq!(run.failure(), Some(ServiceError::Auth));
    assert_eq!(run.searches(), 1);
    assert!(run.resolved().is_empty());
}

#[test]
fn the_handle_is_carried_over_not_made_anew() {
    let odd = PlaylistItem {
        id: PlaylistItemId::Spotify("s1".to_string()),
        name: "Name".to_string(),
        artists: "Artists".to_string(),
        handle: "a handle of its own".to_string(),
    };
    let mut run = Resolution::begin(vec![odd], Service::YouTube);
    assert!(matches!(run.request(), Request::Search { query, .. } if query == "a handle of its own"));
    run.record(Ok(Some("v1".to_string())));
    assert_eq!(
        describe(run.resolved()),
        vec![row("youtube:v1", "Name", "Artists", "a handle of its own")]
    );
}

#[test]
fn a_service_that_reports_nothing_found_has_answered() {
    assert_eq!(read_reply(Err(ServiceError::NotFound)), Ok(None));
    assert_eq!(read_reply(Err(ServiceError::Transport)), Err(ServiceError::Transport));
    assert_eq!(read_reply(Err(ServiceError::Auth)), Err(ServiceError::Auth));
    assert_eq!(read_reply(Err(ServiceError::InvalidInput)), Err(ServiceError::InvalidInput));
    assert_eq!(read_reply(Err(ServiceError::Unimplemented)), Err(ServiceError::Unimplemented));
    assert_eq!(read_reply(Ok(None)), Ok(None));
    assert_eq!(read_reply(Ok(Some("id".to_string()))), Ok(Some("id".to_string())));
}
