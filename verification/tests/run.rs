use linksen::run::{consents, wants_playlist, Mode, Route, RunEvent, RunState};
use linksen::types::{Service, ServiceError};

#[test]
fn spotify_to_youtube_is_a_way() {
    assert_eq!(
        Mode::SpotifyPlaylistToYoutube.route(),
        Ok(Route { source: Service::Spotify, destination: Service::YouTube })
    );
}

#[test]
fn youtube_to_spotify_is_not_there_yet() {
    assert_eq!(Mode::YoutubePlaylistToSpotify.route(), Err(ServiceError::Unimplemented));
    let state = RunState::Idle.advance(RunEvent::Chosen(Mode::YoutubePlaylistToSpotify));
    assert_eq!(state, RunState::Failed(ServiceError::Unimplemented));
    assert_eq!(state.exit_code(), Some(1));
}

#[test]
fn a_run_with_a_playlist_goes_through_its_states() {
    let mut state = RunState::Idle;
    assert_eq!(state.exit_code(), None);
    state = state.advance(RunEvent::Chosen(Mode::SpotifyPlaylistToYoutube));
    assert_eq!(state, RunState::Fetching);
    state = state.advance(RunEvent::Fetched);
    assert_eq!(state, RunState::Resolving);
    state = state.advance(RunEvent::Resolved { create: true });
    assert_eq!(state, RunState::Materializing);
    assert_eq!(state.exit_code(), None);
    state = state.advance(RunEvent::Materialized);
    assert_eq!(state, RunState::Done);
    assert_eq!(state.exit_code(), Some(0));
}

#[test]
fn a_run_without_a_playlist_ends_after_the_preview() {
    let state = RunState::Resolving.advance(RunEvent::Resolved { create: false });
    assert_eq!(state, RunState::Previewing);
    assert_eq!(state.advance(RunEvent::Materialized), RunState::Previewing);
    assert_eq!(state.advance(RunEvent::Shown), RunState::Done);
}

#[test]
fn a_failure_ends_the_run_from_any_working_state() {
    for state in
        [RunState::Fetching, RunState::Resolving, RunState::Previewing, RunState::Materializing]
    {
        assert_eq!(
            state.advance(RunEvent::Broken(ServiceError::Transport)),
            RunState::Failed(ServiceError::Transport)
        );
        assert_eq!(
            state.advance(RunEvent::Broken(ServiceError::Auth)),
            RunState::Failed(ServiceError::Auth)
        );
    }
    assert_eq!(RunState::Idle.advance(RunEvent::Broken(ServiceError::Auth)), RunState::Idle);
}

#[test]
fn final_states_stay() {
    let events = [
        RunEvent::Chosen(Mode::SpotifyPlaylistToYoutube),
        RunEvent::Fetched,
        RunEvent::Resolved { create: true },
        RunEvent::Shown,
        RunEvent::Materialized,
        RunEvent::Broken(ServiceError::Transport),
    ];
    for event in events {
        assert_eq!(RunState::Done.advance(event), RunState::Done);
        assert_eq!(
            RunState::Failed(ServiceError::Auth).advance(event),
            RunState::Failed(ServiceError::Auth)
        );
    }
}

#[test]
fn events_out_of_turn_change_nothing() {
    assert_eq!(RunState::Idle.advance(RunEvent::Fetched), RunState::Idle);
    assert_eq!(RunState::Fetching.advance(RunEvent::Resolved { create: true }), RunState::Fetching);
    assert_eq!(RunState::Resolving.advance(RunEvent::Fetched), RunState::Resolving);
    assert_eq!(RunState::Materializing.advance(RunEvent::Shown), RunState::Materializing);
    assert_eq!(
        RunState::Fetching.advance(RunEvent::Chosen(Mode::YoutubePlaylistToSpotify)),
        RunState::Fetching
    );
}

#[test]
fn yes_in_any_case_and_nothing_at_all_ask_for_the_playlist() {
    assert!(wants_playlist("yes\n"));
    assert!(wants_playlist("YES"));
    assert!(wants_playlist("  Y \r\n"));
    assert!(wants_playlist("y"));
    assert!(wants_playlist("\n"));
    assert!(wants_playlist(""));
    assert!(wants_playlist("   "));
}

#[test]
fn anything_else_asks_for_the_preview() {
    assert!(!wants_playlist("n\n"));
    assert!(!wants_playlist("no"));
    assert!(!wants_playlist("yes please"));
    assert!(!wants_playlist("ye"));
    assert!(!wants_playlist("y e s"));
}

#[test]
fn consent_is_read_from_the_trimmed_and_the_lowered_answer() {
    assert!(consents("Yes", "yes"));
    assert!(consents("Y", "y"));
    assert!(consents("", ""));
    assert!(!consents("No", "no"));
    assert!(!consents("Yes", "Yes"));
    assert!(consents("", "anything"));
}
