//! The identity of a track, the services that know it, and the ways a service can fail.

use vstd::prelude::*;

verus! {

/// A music service.
#[derive(Clone, Copy, PartialEq, Eq, Structural, Debug)]
pub enum Service {
    Spotify,
    YouTube,
}

/// Why a service could not do what it was asked.
#[derive(Clone, Copy, PartialEq, Eq, Structural, Debug)]
pub enum ServiceError {
    /// A search came back empty or with something that is no track.
    NotFound,
    /// The service could not be reached, or its answer could not be read.
    Transport,
    /// The credentials were refused.
    Auth,
    /// The caller's input was malformed.
    InvalidInput,
    /// The pair of services is not supported.
    Unimplemented,
}

impl ServiceError {
    /// The failure that an HTTP status other than success stands for: 401 says
    /// that the credentials were refused, 404 that what was asked for is not
    /// there, and any other that the service could not do its work.
    pub open spec fn of_status(status: u16) -> ServiceError {
        if status == 401 {
            ServiceError::Auth
        } else if status == 404 {
            ServiceError::NotFound
        } else {
            ServiceError::Transport
        }
    }

    /// Reads the HTTP status with which a service refused a request.
    pub fn from_status(status: u16) -> (error: ServiceError)
        ensures
            error == Self::of_status(status),
    {
        if status == 401 {
            ServiceError::Auth
        } else if status == 404 {
            ServiceError::NotFound
        } else {
            ServiceError::Transport
        }
    }

    /// What the user is told of this failure.
    pub open spec fn cause_of(self) -> Seq<char> {
        match self {
            ServiceError::NotFound => "nothing was found"@,
            ServiceError::Transport => "the service could not be reached, or its answer could not be read"@,
            ServiceError::Auth => "the credentials were refused"@,
            ServiceError::InvalidInput => "the input is malformed"@,
            ServiceError::Unimplemented => "this direction is not supported yet"@,
        }
    }

    /// Says in words what went wrong.
    pub fn cause(self) -> (text: &'static str)
        ensures
            text@ == self.cause_of(),
    {
        match self {
            ServiceError::NotFound => "nothing was found",
            ServiceError::Transport => "the service could not be reached, or its answer could not be read",
            ServiceError::Auth => "the credentials were refused",
            ServiceError::InvalidInput => "the input is malformed",
            ServiceError::Unimplemented => "this direction is not supported yet",
        }
    }

    /// Only a search without a result lets a run go on.
    pub open spec fn is_fatal(self) -> bool {
        self != ServiceError::NotFound
    }

    /// Tells whether this error ends the run it occurred in.
    pub fn fatal(self) -> (fatal: bool)
        ensures
            fatal == self.is_fatal(),
    {
        match self {
            ServiceError::NotFound => false,
            _ => true,
        }
    }
}

/// What identifies a track: the service that knows it and the id it has there.
pub ghost enum TrackIdentity {
    Spotify(Seq<char>),
    YouTube(Seq<char>),
}

impl TrackIdentity {
    /// The service on which this identity can be used as it is.
    pub open spec fn service(self) -> Service {
        match self {
            TrackIdentity::Spotify(_) => Service::Spotify,
            TrackIdentity::YouTube(_) => Service::YouTube,
        }
    }

    /// The id that the service gave the track.
    pub open spec fn opaque_id(self) -> Seq<char> {
        match self {
            TrackIdentity::Spotify(id) => id,
            TrackIdentity::YouTube(id) => id,
        }
    }

    /// The identity that `service` gives to the track it knows as `id`.
    pub open spec fn on(service: Service, id: Seq<char>) -> TrackIdentity {
        match service {
            Service::Spotify => TrackIdentity::Spotify(id),
            Service::YouTube => TrackIdentity::YouTube(id),
        }
    }
}

/// A track as the contracts see it.
pub ghost struct Track {
    pub id: TrackIdentity,
    pub name: Seq<char>,
    pub artists: Seq<char>,
    pub handle: Seq<char>,
}

/// The text by which a track is searched for: its name, `" - "`, its artists.
pub open spec fn search_handle(name: Seq<char>, artists: Seq<char>) -> Seq<char> {
    name + seq![' ', '-', ' '] + artists
}

/// A service-tagged track id.
#[derive(Debug)]
pub enum PlaylistItemId {
    Spotify(String),
    YouTube(String),
}

impl View for PlaylistItemId {
    type V = TrackIdentity;

    open spec fn view(&self) -> TrackIdentity {
        match self {
            PlaylistItemId::Spotify(id) => TrackIdentity::Spotify(id@),
            PlaylistItemId::YouTube(id) => TrackIdentity::YouTube(id@),
        }
    }
}

impl Clone for PlaylistItemId {
    fn clone(&self) -> (copy: Self)
        ensures
            copy@ == self@,
    {
        match self {
            PlaylistItemId::Spotify(id) => PlaylistItemId::Spotify(id.clone()),
            PlaylistItemId::YouTube(id) => PlaylistItemId::YouTube(id.clone()),
        }
    }
}

impl PlaylistItemId {
    /// The id that `service` gave to a track.
    pub fn on(service: Service, id: String) -> (tagged: Self)
        ensures
            tagged@ == TrackIdentity::on(service, id@),
    {
        match service {
            Service::Spotify => PlaylistItemId::Spotify(id),
            Service::YouTube => PlaylistItemId::YouTube(id),
        }
    }

    /// The service that knows the track by this id.
    pub fn service(&self) -> (service: Service)
        ensures
            service == self@.service(),
    {
        match self {
            PlaylistItemId::Spotify(_) => Service::Spotify,
            PlaylistItemId::YouTube(_) => Service::YouTube,
        }
    }

    /// The id without its tag.
    pub fn opaque_id(&self) -> (id: &String)
        ensures
            id@ == self@.opaque_id(),
    {
        match self {
            PlaylistItemId::Spotify(id) => id,
            PlaylistItemId::YouTube(id) => id,
        }
    }

    /// The id as text, for display.
    pub fn to_string(&self) -> (text: String)
        ensures
            text@ == self@.opaque_id(),
    {
        self.opaque_id().clone()
    }
}

/// One track of a playlist.
#[derive(Debug)]
pub struct PlaylistItem {
    pub id: PlaylistItemId,
    pub name: String,
    pub artists: String,
    pub handle: String,
}

impl View for PlaylistItem {
    type V = Track;

    open spec fn view(&self) -> Track {
        Track { id: self.id@, name: self.name@, artists: self.artists@, handle: self.handle@ }
    }
}

impl DeepView for PlaylistItem {
    type V = Track;

    open spec fn deep_view(&self) -> Track {
        self@
    }
}

impl PlaylistItem {
    /// A track as its own service hands it out. The handle is made here, once,
    /// from the name and the artists, and goes with the track from then on.
    pub fn new(id: PlaylistItemId, name: String, artists: String) -> (item: Self)
        ensures
            item@ == (Track {
                id: id@,
                name: name@,
                artists: artists@,
                handle: search_handle(name@, artists@),
            }),
    {
        let mut handle = name.clone();
        handle.append(" - ");
        handle.append(artists.as_str());
        proof {
            reveal_strlit(" - ");
            assert(" - "@ =~= seq![' ', '-', ' ']);
        }
        PlaylistItem { id, name, artists, handle }
    }

    /// Tells whether `target` knows this track as it is.
    pub fn is_native_to(&self, target: Service) -> (native: bool)
        ensures
            native == (self@.id.service() == target),
    {
        self.id.service() == target
    }

    /// This track under the id that `target` gave it. Name, artists and handle
    /// are copied as they are; the handle is not made anew.
    pub fn resolved_as(&self, target: Service, id: String) -> (item: Self)
        ensures
            item@ == (Track { id: TrackIdentity::on(target, id@), ..self@ }),
    {
        PlaylistItem {
            id: PlaylistItemId::on(target, id),
            name: self.name.clone(),
            artists: self.artists.clone(),
            handle: self.handle.clone(),
        }
    }
}

impl Clone for PlaylistItem {
    fn clone(&self) -> (copy: Self)
        ensures
            copy@ == self@,
    {
        PlaylistItem {
            id: self.id.clone(),
            name: self.name.clone(),
            artists: self.artists.clone(),
            handle: self.handle.clone(),
        }
    }
}

/// What a music service offers to a migration. Every method reports a failure of
/// the service as an error; none of them hides one.
pub trait MusicClient {
    /// The service that this client speaks to.
    fn service(&self) -> Service;

    /// Fetches the tracks of the playlist at `url`, all of them and in the
    /// playlist's order, leaving out what cannot be played.
    fn get_playlist_items(&self, url: &str) -> Result<Vec<PlaylistItem>, ServiceError>;

    /// Searches the service for `query` and gives the id of the first hit, or
    /// `None` where there is no hit or the first hit is no track.
    fn search(&self, query: &String) -> Result<Option<String>, ServiceError>;

    /// Creates a new playlist called `name` and gives the handle by which the
    /// service knows it.
    fn create_playlist(&self, name: &String) -> Result<String, ServiceError>;

    /// Puts the track `id` at the end of `playlist`.
    fn insert_track(&self, playlist: &String, id: &String) -> Result<(), ServiceError>;
}

/// `serde_json::Map`: the members of a JSON object. Nothing in this crate looks
/// inside one.
#[verifier::external_type_specification]
#[verifier::external_body]
#[verifier::reject_recursive_types(K)]
#[verifier::reject_recursive_types(V)]
pub struct ExJsonMap<K, V>(serde_json::Map<K, V>);

/// `serde_json::Value`: any JSON value. Nothing in this crate looks inside one.
#[verifier::external_type_specification]
#[verifier::external_body]
pub struct ExJsonValue(serde_json::Value);

/// The data that YouTube lays into the page of a search.
#[derive(Debug)]
pub struct YoutubeResponse {
    pub contents: YoutubeResponseContents,
}

#[derive(Debug)]
pub struct YoutubeResponseContents {
    pub two_column_search_results_renderer: YoutubeResponseTwoColumnSearchResultsRenderer,
}

#[derive(Debug)]
pub struct YoutubeResponseTwoColumnSearchResultsRenderer {
    pub primary_contents: YoutubeResponsePrimaryContents,
}

#[derive(Debug)]
pub struct YoutubeResponsePrimaryContents {
    pub section_list_renderer: YoutubeResponseSectionListRenderer,
}

/// The sections of the list of results, from the top of the page down.
#[derive(Debug)]
pub struct YoutubeResponseSectionListRenderer {
    pub contents: Vec<YoutubeResponseSectionListRendererContent>,
}

/// One section of the list of results.
#[derive(Debug)]
pub enum YoutubeResponseSectionListRendererContent {
    /// A section that holds results.
    ItemSectionRenderer(YoutubeResponseSectionListRendererContentItemSectionRenderer),
    /// The mark at which further results would be loaded.
    ContinuationItemRenderer(YoutubeResponseSectionListRendererContentContinuationItemRenderer),
}

#[derive(Debug)]
pub struct YoutubeResponseSectionListRendererContentItemSectionRenderer {
    pub item_section_renderer: YoutubeResponseItemSectionRenderer,
}

#[derive(Debug)]
pub struct YoutubeResponseSectionListRendererContentContinuationItemRenderer {
    pub continuation_item_renderer: YoutubeResponseItemSectionContinuationRenderer,
}

#[derive(Debug)]
pub struct YoutubeResponseItemSectionContinuationRenderer {
    pub trigger: String,
}

/// The results of one section, best first.
#[derive(Debug)]
pub struct YoutubeResponseItemSectionRenderer {
    pub contents: Vec<YoutubeResponseItemSectionRendererContent>,
}

/// One result of a search.
#[derive(Debug)]
pub enum YoutubeResponseItemSectionRendererContent {
    /// A video.
    VideoRenderer(YoutubeResponseItemSectionRendererContentVideoRenderer),
    /// Anything else: a channel, a playlist, a shelf, an advertisement.
    OtherRenderer(serde_json::Map<String, serde_json::Value>),
}

#[derive(Debug)]
pub struct YoutubeResponseItemSectionRendererContentVideoRenderer {
    pub video_renderer: YoutubeResponseVideoRenderer,
}

#[derive(Debug)]
pub struct YoutubeResponseVideoRenderer {
    pub video_id: String,
}

} // verus!
