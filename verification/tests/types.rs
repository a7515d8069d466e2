use linksen::types::{PlaylistItem, PlaylistItemId, Service, ServiceError};

#[test]
fn handle_is_name_dash_artists() {
    let item = PlaylistItem::new(
        PlaylistItemId::Spotify("abc".to_string()),
        "Song A".to_string(),
        "Artist X, Artist Y".to_string(),
    );
    assert_eq!(item.name, "Song A");
    assert_eq!(item.artists, "Artist X, Artist Y");
    assert_eq!(item.handle, "Song A - Artist X, Artist Y");
    assert!(matches!(&item.id, PlaylistItemId::Spotify(id) if id == "abc"));
}

#[test]
fn handle_of_empty_texts() {
    let item =
        PlaylistItem::new(PlaylistItemId::YouTube(String::new()), String::new(), String::new());
    assert_eq!(item.handle, " - ");
}

#[test]
fn id_knows_its_service() {
    let spotify = PlaylistItemId::Spotify("s".to_string());
    let youtube = PlaylistItemId::YouTube("y".to_string());
    assert_eq!(spotify.service(), Service::Spotify);
    assert_eq!(youtube.service(), Service::YouTube);
    assert_eq!(spotify.opaque_id(), "s");
    assert_eq!(youtube.to_string(), "y");
    assert!(matches!(PlaylistItemId::on(Service::Spotify, "a".to_string()), PlaylistItemId::Spotify(id) if id == "a"));
    assert!(matches!(PlaylistItemId::on(Service::YouTube, "b".to_string()), PlaylistItemId::YouTube(id) if id == "b"));
}

#[test]
fn a_track_is_native_to_its_own_service_only() {
    let item = PlaylistItem::new(
        PlaylistItemId::Spotify("s".to_string()),
        "N".to_string(),
        "A".to_string(),
    );
    assert!(item.is_native_to(Service::Spotify));
    assert!(!item.is_native_to(Service::YouTube));
}

#[test]
fn resolving_changes_the_identity_and_nothing_else() {
    let item = PlaylistItem {
        id: PlaylistItemId::Spotify("s".to_string()),
        name: "N".to_string(),
        artists: "A".to_string(),
        handle: "kept as it is".to_string(),
    };
    let found = item.resolved_as(Service::YouTube, "v".to_string());
    assert!(matches!(&found.id, PlaylistItemId::YouTube(id) if id == "v"));
    assert_eq!(found.name, "N");
    assert_eq!(found.artists, "A");
    assert_eq!(found.handle, "kept as it is");
    assert!(matches!(&item.id, PlaylistItemId::Spotify(id) if id == "s"));
}

#[test]
fn a_copy_is_the_same_track() {
    let item = PlaylistItem::new(
        PlaylistItemId::YouTube("v".to_string()),
        "N".to_string(),
        "A".to_string(),
    );
    let copy = item.clone();
    assert!(matches!(&copy.id, PlaylistItemId::YouTube(id) if id == "v"));
    assert_eq!(copy.name, item.name);
    assert_eq!(copy.artists, item.artists);
    assert_eq!(copy.handle, item.handle);
}

#[test]
fn only_a_search_without_result_is_no_fatal_failure() {
    assert!(!ServiceError::NotFound.fatal());
    assert!(ServiceError::Transport.fatal());
    assert!(ServiceError::Auth.fatal());
    assert!(ServiceError::InvalidInput.fatal());
    assert!(ServiceError::Unimplemented.fatal());
}

#[test]
fn http_status_names_the_failure() {
    assert_eq!(ServiceError::from_status(401), ServiceError::Auth);
    assert_eq!(ServiceError::from_status(404), ServiceError::NotFound);
    assert_eq!(ServiceError::from_status(403), ServiceError::Transport);
    assert_eq!(ServiceError::from_status(500), ServiceError::Transport);
    assert_eq!(ServiceError::from_status(0), ServiceError::Transport);
}

#[test]
fn every_failure_has_its_own_words() {
    let all = [
        ServiceError::NotFound,
        ServiceError::Transport,
        ServiceError::Auth,
        ServiceError::InvalidInput,
        ServiceError::Unimplemented,
    ];
    for (i, one) in all.iter().enumerate() {
        assert!(!one.cause().is_empty());
        for other in &all[i + 1..] {
            assert_ne!(one.cause(), other.cause());
        }
    }
    assert_eq!(ServiceError::Auth.cause(), "the credentials were refused");
    assert_eq!(ServiceError::Unimplemented.cause(), "this direction is not supported yet");
}
