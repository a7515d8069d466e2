//! Moves playlists between music services.
//!
//! A playlist is fetched from the service it lives on, every track is looked up
//! on the destination service by a free-text query, and the tracks that were
//! found are written to a new playlist there. This crate holds the rules of that
//! migration: which tracks need a lookup, what becomes of each answer, when a run
//! stops, and in which order a playlist is filled. Network calls, prompts and
//! progress bars belong to the caller.

pub mod materialize;
pub mod resolve;
pub mod run;
pub mod spotify;
pub mod text;
pub mod types;
pub mod youtube;
