//! What is particular to Spotify: the address of a playlist, the shape in which
//! its tracks arrive, and the reading of a search result.

use vstd::prelude::*;
use crate::text::{
    find, first_occurrence, join, joined, lemma_replaced_at_the_start, occurs_at, replace_all,
    replaced,
};
use crate::types::{PlaylistItem, PlaylistItemId, ServiceError, Track, TrackIdentity, search_handle};

verus! {

/// What the address of a playlist holds before the playlist's id.
pub open spec fn playlist_address() -> Seq<char> {
    "https://open.spotify.com/playlist/"@
}

/// The id of the playlist that `url` points to: what follows the first
/// occurrence of [`playlist_address`], up to the first `?` or to the end.
pub open spec fn playlist_id_in(url: Seq<char>) -> Option<Seq<char>> {
    match first_occurrence(url, playlist_address()) {
        None => None,
        Some(start) => {
            let rest = url.subrange(start + playlist_address().len(), url.len() as int);
            match first_occurrence(rest, seq!['?']) {
                Some(end) => Some(rest.subrange(0, end)),
                None => Some(rest),
            }
        },
    }
}

/// Takes the id of a playlist out of its address.
pub fn extract_playlist_id(url: &str) -> (id: Option<&str>)
    ensures
        match playlist_id_in(url@) {
            Some(text) => id matches Some(found) && found@ == text,
            None => id is None,
        },
{
    let prefix = "https://open.spotify.com/playlist/";
    let query_param_prefix = "?";
    proof {
        reveal_strlit("?");
        assert("?"@ =~= seq!['?']);
    }
    match find(url, prefix) {
        Some(start_index) => {
            let end_of_string = url.unicode_len();
            let rest_of_string = url.substring_char(
                start_index + prefix.unicode_len(),
                end_of_string,
            );
            match find(rest_of_string, query_param_prefix) {
                Some(end_index) => Some(rest_of_string.substring_char(0, end_index)),
                None => Some(rest_of_string),
            }
        },
        None => None,
    }
}

/// A letter of the English alphabet or a digit.
pub open spec fn is_ascii_alphanumeric(c: char) -> bool {
    ||| 0x30 <= c as u32 <= 0x39
    ||| 0x41 <= c as u32 <= 0x5a
    ||| 0x61 <= c as u32 <= 0x7a
}

/// A text that can be an id on Spotify: letters and digits only.
pub open spec fn is_spotify_id(id: Seq<char>) -> bool {
    forall|i: int| 0 <= i < id.len() ==> is_ascii_alphanumeric(#[trigger] id[i])
}

/// `PlaylistId::from_id` of rspotify, asked whether it takes `id`. It does so
/// exactly where every character of `id` is an ASCII letter or digit; the empty
/// text is taken too.
#[verifier::external_body]
fn accepts_playlist_id(id: &str) -> (accepted: bool)
    ensures
        accepted == is_spotify_id(id@),
{
    rspotify::model::PlaylistId::from_id(id).is_ok()
}

/// The id of the playlist at `url`, where `url` holds one that Spotify can take.
pub fn playlist_id_from_url(url: &str) -> (id: Result<String, ServiceError>)
    ensures
        match playlist_id_in(url@) {
            Some(text) if is_spotify_id(text) => id matches Ok(found) && found@ == text,
            _ => id == Err::<String, ServiceError>(ServiceError::InvalidInput),
        },
{
    match extract_playlist_id(url) {
        Some(id) => {
            if accepts_playlist_id(id) {
                Ok(id.to_owned())
            } else {
                Err(ServiceError::InvalidInput)
            }
        },
        None => Err(ServiceError::InvalidInput),
    }
}

/// Where the next page of a playlist starts, given where the last one started,
/// how many entries it held and whether Spotify said that more follow. There is
/// no next page where nothing more follows, where the last page was empty, or
/// where its start could not be counted any more.
pub open spec fn page_after(offset: u32, received: u32, more: bool) -> Option<u32> {
    if more && received > 0 && offset + received <= u32::MAX {
        Some((offset + received) as u32)
    } else {
        None
    }
}

/// Tells where to go on fetching a playlist, if anywhere.
pub fn next_page_offset(offset: u32, received: u32, more: bool) -> (next: Option<u32>)
    ensures
        next == page_after(offset, received, more),
{
    if more && received > 0 && received <= u32::MAX - offset {
        Some(offset + received)
    } else {
        None
    }
}

/// One entry of a playlist as Spotify hands it out.
#[derive(Debug)]
pub enum FetchedItem {
    /// A track. `id` is the text that Spotify shows for the track's id; a track
    /// that is local to its owner has none.
    Track { id: Option<String>, name: String, artists: Vec<String> },
    /// An episode of a podcast.
    Episode,
    /// An entry with nothing behind it, such as a track that was taken down.
    Unavailable,
}

/// The track that an entry stands for, if it can be played as a track: its
/// artists are written in a row, in the order given, with `", "` between them.
pub open spec fn listed(item: FetchedItem) -> Option<Track> {
    match item {
        FetchedItem::Track { id: Some(id), name, artists } => {
            let artists = joined(artists.deep_view(), seq![',', ' ']);
            Some(
                Track {
                    id: TrackIdentity::Spotify(id@),
                    name: name@,
                    artists,
                    handle: search_handle(name@, artists),
                },
            )
        },
        _ => None,
    }
}

/// The tracks among the first `n` entries of a page, in the page's order.
pub open spec fn tracks_of_page(page: Seq<FetchedItem>, n: nat) -> Seq<Track>
    decreases n,
{
    if n == 0 {
        Seq::empty()
    } else {
        let before = tracks_of_page(page, (n - 1) as nat);
        match listed(page[n - 1]) {
            Some(track) => before.push(track),
            None => before,
        }
    }
}

/// The tracks of the first `n` pages, page after page.
pub open spec fn tracks_of_pages(pages: Seq<Vec<FetchedItem>>, n: nat) -> Seq<Track>
    decreases n,
{
    if n == 0 {
        Seq::empty()
    } else {
        tracks_of_pages(pages, (n - 1) as nat) + tracks_of_page(pages[n - 1]@, pages[n - 1]@.len())
    }
}

/// A track that was read from a playlist is Spotify's own, and its handle is made
/// of its name and its artists.
pub open spec fn is_ingested(track: Track) -> bool {
    track.id is Spotify && track.handle == search_handle(track.name, track.artists)
}

/// Every track of a page that was read is Spotify's own and has the handle made
/// of its name and its artists; there are no more tracks than entries.
pub proof fn lemma_tracks_of_page(page: Seq<FetchedItem>, n: nat)
    requires
        n <= page.len(),
    ensures
        tracks_of_page(page, n).len() <= n,
        forall|j: int|
            0 <= j < tracks_of_page(page, n).len() ==> is_ingested(
                #[trigger] tracks_of_page(page, n)[j],
            ),
    decreases n,
{
    if n > 0 {
        lemma_tracks_of_page(page, (n - 1) as nat);
    }
}

/// Every track of a playlist that was read is Spotify's own and has the handle
/// made of its name and its artists.
pub proof fn lemma_tracks_of_pages(pages: Seq<Vec<FetchedItem>>, n: nat)
    requires
        n <= pages.len(),
    ensures
        forall|j: int|
            0 <= j < tracks_of_pages(pages, n).len() ==> is_ingested(
                #[trigger] tracks_of_pages(pages, n)[j],
            ),
    decreases n,
{
    if n > 0 {
        lemma_tracks_of_pages(pages, (n - 1) as nat);
        lemma_tracks_of_page(pages[n - 1]@, pages[n - 1]@.len());
        let before = tracks_of_pages(pages, (n - 1) as nat);
        let last = tracks_of_page(pages[n - 1]@, pages[n - 1]@.len());
        assert forall|j: int| 0 <= j < (before + last).len() implies is_ingested(
            #[trigger] (before + last)[j],
        ) by {}
    }
}

/// Reads one entry of a playlist.
pub fn playlist_item_from(item: &FetchedItem) -> (track: Option<PlaylistItem>)
    ensures
        match listed(*item) {
            Some(expected) => track matches Some(found) && found@ == expected,
            None => track is None,
        },
{
    match item {
        FetchedItem::Track { id: Some(id), name, artists } => {
            let artists = join(artists, ", ");
            proof {
                reveal_strlit(", ");
                assert(", "@ =~= seq![',', ' ']);
            }
            Some(PlaylistItem::new(PlaylistItemId::Spotify(id.clone()), name.clone(), artists))
        },
        _ => None,
    }
}

/// Reads a playlist that was fetched page by page: every track that can be
/// played, in the order in which Spotify has them. Entries that are no tracks,
/// or that have nothing behind them, are left out.
pub fn playlist_items_from(pages: &Vec<Vec<FetchedItem>>) -> (tracks: Vec<PlaylistItem>)
    ensures
        tracks.deep_view() == tracks_of_pages(pages@, pages@.len()),
{
    let mut tracks: Vec<PlaylistItem> = Vec::new();
    let mut p: usize = 0;
    while p < pages.len()
        invariant
            p <= pages.len(),
            tracks.deep_view() == tracks_of_pages(pages@, p as nat),
        decreases pages.len() - p,
    {
        let page = &pages[p];
        let ghost before = tracks.deep_view();
        let mut i: usize = 0;
        while i < page.len()
            invariant
                i <= page.len(),
                tracks.deep_view() == before + tracks_of_page(page@, i as nat),
            decreases page.len() - i,
        {
            let ghost so_far = tracks.deep_view();
            if let Some(track) = playlist_item_from(&page[i]) {
                tracks.push(track);
                assert(so_far.push(track@) =~= before + tracks_of_page(page@, (i + 1) as nat));
            }
            i += 1;
        }
        p += 1;
    }
    tracks
}

/// Reads the outcome of a fetch: a failure on any page is the failure of the
/// whole fetch, and a fetch that went through gives the tracks of its pages.
pub fn fetch_reply(outcome: &Result<Vec<Vec<FetchedItem>>, ServiceError>) -> (reply: Result<
    Vec<PlaylistItem>,
    ServiceError,
>)
    ensures
        match *outcome {
            Ok(pages) => reply matches Ok(tracks) && tracks.deep_view() == tracks_of_pages(
                pages@,
                pages@.len(),
            ),
            Err(error) => reply matches Err(given) && given == error,
        },
{
    match outcome {
        Ok(pages) => Ok(playlist_items_from(pages)),
        Err(error) => Err(*error),
    }
}

/// A fetch under way, as the contracts see it.
pub ghost struct Fetching {
    /// The pages that have come in, in order.
    pub pages: Seq<Vec<FetchedItem>>,
    /// Where the next page starts, if one is to be fetched.
    pub offset: Option<u32>,
    /// The failure that ended the fetch, if one did.
    pub failure: Option<ServiceError>,
}

/// The number of entries of a page, as far as it can be counted.
pub open spec fn received(entries: nat) -> u32 {
    if entries > u32::MAX {
        u32::MAX
    } else {
        entries as u32
    }
}

/// The fetch after the page it asked for came in, or failed to. A page is told
/// by its entries and by whether Spotify said that more follow. A failure ends
/// the fetch; a fetch that is over takes nothing more.
pub open spec fn fetched(
    state: Fetching,
    outcome: Result<(Vec<FetchedItem>, bool), ServiceError>,
) -> Fetching {
    match state.offset {
        None => state,
        Some(offset) => match outcome {
            Ok((entries, more)) => Fetching {
                pages: state.pages.push(entries),
                offset: page_after(offset, received(entries@.len()), more),
                failure: None,
            },
            Err(error) => Fetching { pages: state.pages, offset: None, failure: Some(error) },
        },
    }
}

/// What a fetch that is over hands out: the failure that ended it, or the
/// tracks of its pages.
pub open spec fn harvest(state: Fetching) -> Result<Seq<Track>, ServiceError> {
    match state.failure {
        Some(error) => Err(error),
        None => Ok(tracks_of_pages(state.pages, state.pages.len())),
    }
}

/// The fetching of one playlist, page by page.
pub struct Fetch {
    pages: Vec<Vec<FetchedItem>>,
    offset: Option<u32>,
    failure: Option<ServiceError>,
}

impl View for Fetch {
    type V = Fetching;

    closed spec fn view(&self) -> Fetching {
        Fetching { pages: self.pages@, offset: self.offset, failure: self.failure }
    }
}

impl Fetch {
    /// A fetch that is to start with the first page.
    pub fn begin() -> (fetch: Self)
        ensures
            fetch@ == (Fetching { pages: Seq::empty(), offset: Some(0u32), failure: None }),
    {
        Fetch { pages: Vec::new(), offset: Some(0), failure: None }
    }

    /// Where the page to fetch next starts; `None` once the fetch is over.
    pub fn next_offset(&self) -> (offset: Option<u32>)
        ensures
            offset == self@.offset,
    {
        self.offset
    }

    /// Takes in the page that was asked for, or the failure to get it.
    pub fn take(&mut self, outcome: Result<(Vec<FetchedItem>, bool), ServiceError>)
        ensures
            final(self)@ == fetched(old(self)@, outcome),
    {
        if let Some(offset) = self.offset {
            match outcome {
                Ok((entries, more)) => {
                    let count: u32 = if entries.len() > 0xffff_ffff {
                        0xffff_ffff
                    } else {
                        entries.len() as u32
                    };
                    self.pages.push(entries);
                    self.offset = next_page_offset(offset, count, more);
                    self.failure = None;
                },
                Err(error) => {
                    self.offset = None;
                    self.failure = Some(error);
                },
            }
        }
    }

    /// Ends the fetch and hands out the tracks it has read, or the failure that
    /// ended it.
    pub fn finish(self) -> (reply: Result<Vec<PlaylistItem>, ServiceError>)
        ensures
            match harvest(self@) {
                Ok(tracks) => reply matches Ok(found) && found.deep_view() == tracks,
                Err(error) => reply matches Err(given) && given == error,
            },
    {
        let outcome = match self.failure {
            Some(error) => Err(error),
            None => Ok(self.pages),
        };
        fetch_reply(&outcome)
    }
}

/// A page that could not be had fails the whole fetch: the failure is what the
/// fetch hands out, no further page is asked for, and nothing that comes in
/// later changes that.
pub proof fn lemma_failed_page_fails_the_fetch(
    state: Fetching,
    error: ServiceError,
    later: Result<(Vec<FetchedItem>, bool), ServiceError>,
)
    requires
        state.offset is Some,
    ensures
        ({
            let failed = fetched(state, Err(error));
            &&& harvest(failed) == Err::<Seq<Track>, ServiceError>(error)
            &&& failed.offset is None
            &&& fetched(failed, later) == failed
        }),
{
}

/// What a search on Spotify came back with.
#[derive(Debug)]
pub enum SearchResult {
    /// Tracks, best hit first, each with the text that Spotify shows for its id
    /// where it has one.
    Tracks(Vec<Option<String>>),
    /// Something other than tracks.
    Other,
}

/// What stands before the id in the text that Spotify shows for a track's id.
pub open spec fn track_prefix() -> Seq<char> {
    "spotify:track:"@
}

/// The id of the first hit of a search, without [`track_prefix`] wherever it
/// stands in it; `None` where there is no hit, where the first hit has no id,
/// or where the search gave something other than tracks.
pub open spec fn first_hit(result: SearchResult) -> Option<Seq<char>> {
    match result {
        SearchResult::Tracks(hits) => if hits@.len() > 0 {
            match hits@[0] {
                Some(id) => Some(replaced(id@, track_prefix(), Seq::empty())),
                None => None,
            }
        } else {
            None
        },
        SearchResult::Other => None,
    }
}

/// Where the first hit of a search is shown as `spotify:track:` and an id of
/// letters and digits, that id is what the search has found.
pub proof fn lemma_first_hit_is_the_bare_id(hits: Vec<Option<String>>, id: Seq<char>)
    requires
        hits@.len() > 0,
        hits@[0] matches Some(shown) && shown@ == track_prefix() + id,
        is_spotify_id(id),
    ensures
        first_hit(SearchResult::Tracks(hits)) == Some(id),
{
    reveal_strlit("spotify:track:");
    let prefix = track_prefix();
    assert forall|at: int| !occurs_at(id, prefix, at) by {
        if occurs_at(id, prefix, at) {
            assert(id.subrange(at, at + prefix.len())[7] == prefix[7]);
        }
    }
    lemma_replaced_at_the_start(prefix, id, Seq::empty());
}

/// Picks the track that a search has found: its first hit, and no other.
pub fn first_track_id(result: &SearchResult) -> (id: Option<String>)
    ensures
        match first_hit(*result) {
            Some(text) => id matches Some(found) && found@ == text,
            None => id is None,
        },
{
    match result {
        SearchResult::Tracks(hits) => {
            if hits.len() > 0 {
                match &hits[0] {
                    Some(id) => {
                        proof {
                            reveal_strlit("");
                            assert(""@ =~= Seq::<char>::empty());
                        }
                        Some(replace_all(id.as_str(), "spotify:track:", ""))
                    },
                    None => None,
                }
            } else {
                None
            }
        },
        SearchResult::Other => None,
    }
}

/// Reads the outcome of a search: a failure of the service stays a failure, and
/// a search that went through gives its first hit.
pub fn search_reply(outcome: &Result<SearchResult, ServiceError>) -> (reply: Result<
    Option<String>,
    ServiceError,
>)
    ensures
        match *outcome {
            Ok(result) => match first_hit(result) {
                Some(text) => reply matches Ok(Some(found)) && found@ == text,
                None => reply == Ok::<Option<String>, ServiceError>(None),
            },
            Err(error) => reply == Err::<Option<String>, ServiceError>(error),
        },
{
    match outcome {
        Ok(result) => Ok(first_track_id(result)),
        Err(error) => Err(*error),
    }
}

} // verus!
