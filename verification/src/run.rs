//! The course of one migration, from the choice of a direction to its end.

use vstd::prelude::*;
use crate::text::{
    is_white_space, lemma_blank_text_is_trimmed_away, lowercased, to_lowercase, trim, trimmed,
};
use crate::types::{Service, ServiceError};

verus! {

/// The direction of a migration.
#[derive(Clone, Copy, PartialEq, Eq, Structural, Debug)]
pub enum Mode {
    SpotifyPlaylistToYoutube,
    YoutubePlaylistToSpotify,
}

/// The two services of a migration.
#[derive(Clone, Copy, PartialEq, Eq, Structural, Debug)]
pub struct Route {
    /// The service that the playlist is fetched from.
    pub source: Service,
    /// The service that the playlist is made on.
    pub destination: Service,
}

impl Mode {
    /// The services that a direction joins. From YouTube to Spotify there is no
    /// way yet.
    pub open spec fn route_of(self) -> Result<Route, ServiceError> {
        match self {
            Mode::SpotifyPlaylistToYoutube => Ok(
                Route { source: Service::Spotify, destination: Service::YouTube },
            ),
            Mode::YoutubePlaylistToSpotify => Err(ServiceError::Unimplemented),
        }
    }

    /// The services that this direction joins, or the reason why it cannot be
    /// taken.
    pub fn route(self) -> (route: Result<Route, ServiceError>)
        ensures
            route == self.route_of(),
    {
        match self {
            Mode::SpotifyPlaylistToYoutube => Ok(
                Route { source: Service::Spotify, destination: Service::YouTube },
            ),
            Mode::YoutubePlaylistToSpotify => Err(ServiceError::Unimplemented),
        }
    }
}

/// Where a migration stands.
#[derive(Clone, Copy, PartialEq, Eq, Structural, Debug)]
pub enum RunState {
    /// Nothing has been done yet.
    Idle,
    /// The playlist is being fetched from its service.
    Fetching,
    /// The tracks are being looked up on the destination.
    Resolving,
    /// The resolved tracks are being shown; no playlist is made.
    Previewing,
    /// The playlist is being made on the destination.
    Materializing,
    /// The migration has come to its end.
    Done,
    /// The migration was given up.
    Failed(ServiceError),
}

/// What moves a migration on.
#[derive(Clone, Copy, PartialEq, Eq, Structural, Debug)]
pub enum RunEvent {
    /// A direction was chosen.
    Chosen(Mode),
    /// The playlist has been fetched.
    Fetched,
    /// The tracks have been resolved, and the user has said whether a playlist
    /// is to be made of them.
    Resolved { create: bool },
    /// The resolved tracks have been shown.
    Shown,
    /// The playlist has been made.
    Materialized,
    /// The step under way has failed.
    Broken(ServiceError),
}

impl RunState {
    /// The state that follows this one when `event` comes in. A migration goes
    /// from idle to fetching, to resolving, then either to previewing or to
    /// materializing, and from there to its end; a failure on the way ends it at
    /// once, as does a direction for which there is no way. An event that the
    /// state does not wait for changes nothing.
    pub open spec fn after(self, event: RunEvent) -> RunState {
        match (self, event) {
            (RunState::Idle, RunEvent::Chosen(mode)) => match mode.route_of() {
                Ok(_) => RunState::Fetching,
                Err(error) => RunState::Failed(error),
            },
            (RunState::Fetching, RunEvent::Fetched) => RunState::Resolving,
            (RunState::Resolving, RunEvent::Resolved { create }) => if create {
                RunState::Materializing
            } else {
                RunState::Previewing
            },
            (RunState::Previewing, RunEvent::Shown) => RunState::Done,
            (RunState::Materializing, RunEvent::Materialized) => RunState::Done,
            (RunState::Fetching, RunEvent::Broken(error)) => RunState::Failed(error),
            (RunState::Resolving, RunEvent::Broken(error)) => RunState::Failed(error),
            (RunState::Previewing, RunEvent::Broken(error)) => RunState::Failed(error),
            (RunState::Materializing, RunEvent::Broken(error)) => RunState::Failed(error),
            _ => self,
        }
    }

    /// A state from which a migration goes no further.
    pub open spec fn is_final(self) -> bool {
        self is Done || self is Failed
    }

    /// The code with which the program ends in a final state: zero where the
    /// migration is done, one where it failed.
    pub open spec fn exit_code_of(self) -> Option<u8> {
        match self {
            RunState::Done => Some(0u8),
            RunState::Failed(_) => Some(1u8),
            _ => None,
        }
    }

    /// Moves the migration on by one event.
    pub fn advance(self, event: RunEvent) -> (next: RunState)
        ensures
            next == self.after(event),
    {
        match (self, event) {
            (RunState::Idle, RunEvent::Chosen(mode)) => match mode.route() {
                Ok(_) => RunState::Fetching,
                Err(error) => RunState::Failed(error),
            },
            (RunState::Fetching, RunEvent::Fetched) => RunState::Resolving,
            (RunState::Resolving, RunEvent::Resolved { create }) => if create {
                RunState::Materializing
            } else {
                RunState::Previewing
            },
            (RunState::Previewing, RunEvent::Shown) => RunState::Done,
            (RunState::Materializing, RunEvent::Materialized) => RunState::Done,
            (RunState::Fetching, RunEvent::Broken(error)) => RunState::Failed(error),
            (RunState::Resolving, RunEvent::Broken(error)) => RunState::Failed(error),
            (RunState::Previewing, RunEvent::Broken(error)) => RunState::Failed(error),
            (RunState::Materializing, RunEvent::Broken(error)) => RunState::Failed(error),
            _ => self,
        }
    }

    /// The code with which the program is to end, once the migration is over.
    pub fn exit_code(self) -> (code: Option<u8>)
        ensures
            code == self.exit_code_of(),
    {
        match self {
            RunState::Done => Some(0),
            RunState::Failed(_) => Some(1),
            _ => None,
        }
    }
}

/// A final state is left by no event.
pub proof fn lemma_final_state_stays(state: RunState, event: RunEvent)
    requires
        state.is_final(),
    ensures
        state.after(event) == state,
{
}

/// Previewing and materializing exclude each other: the answer given after the
/// resolution picks one of them, and neither leads to the other.
pub proof fn lemma_preview_or_playlist(create: bool, event: RunEvent)
    ensures
        RunState::Resolving.after(RunEvent::Resolved { create }) == if create {
            RunState::Materializing
        } else {
            RunState::Previewing
        },
        RunState::Previewing.after(event) != RunState::Materializing,
        RunState::Materializing.after(event) != RunState::Previewing,
{
}

/// An answer that asks for the playlist: `yes` or `y` in any case, or nothing at
/// all. `answer` is what was typed without the white space round it, `lowered`
/// the same in lower case.
pub open spec fn is_consent(answer: Seq<char>, lowered: Seq<char>) -> bool {
    lowered == "yes"@ || lowered == "y"@ || answer.len() == 0
}

/// A line of nothing but white space asks for the playlist.
pub proof fn lemma_blank_line_consents(line: Seq<char>)
    requires
        forall|i: int| 0 <= i < line.len() ==> is_white_space(#[trigger] line[i]),
    ensures
        is_consent(trimmed(line), lowercased(trimmed(line))),
{
    lemma_blank_text_is_trimmed_away(line);
}

/// Tells whether an answer asks for the playlist, given the answer without the
/// white space round it and the same in lower case.
pub fn consents(answer: &str, lowered: &str) -> (yes: bool)
    ensures
        yes == is_consent(answer@, lowered@),
{
    let lowered = lowered.to_owned();
    lowered == "yes".to_owned() || lowered == "y".to_owned() || answer.is_empty()
}

/// Reads the line that the user typed when asked whether a playlist is to be
/// made.
pub fn wants_playlist(line: &str) -> (yes: bool)
    ensures
        yes == is_consent(trimmed(line@), lowercased(trimmed(line@))),
{
    let answer = trim(line);
    let lowered = to_lowercase(answer);
    consents(answer, lowered.as_str())
}

} // verus!
