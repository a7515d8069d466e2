//! What is particular to YouTube: the address of a search, the data that lies in
//! the page it answers with, and the result that is taken from that data.

use vstd::prelude::*;
use crate::types::{
    ServiceError, YoutubeResponse, YoutubeResponseItemSectionRendererContent,
    YoutubeResponseSectionListRendererContent,
};

verus! {

/// The address of a search, up to the query.
pub open spec fn search_address() -> Seq<char> {
    "https://www.youtube.com/results?search_query="@
}

/// The address at which YouTube answers a search for `query`. The query is put
/// in as it is.
pub fn search_url(query: &str) -> (url: String)
    ensures
        url@ == search_address() + query@,
{
    let mut url = "https://www.youtube.com/results?search_query=".to_owned();
    url.append(query);
    url
}

/// The regular expression that finds the search data in a page: the shortest
/// text on one line between `var ytInitialData = ` and `};`.
pub open spec fn initial_data_pattern() -> Seq<char> {
    "var ytInitialData = (.*?)};"@
}

/// What the first group of the regular expression `pattern` holds in its
/// leftmost match in `text`, as the regex crate finds it; `None` where `pattern`
/// is no regular expression that the crate takes, where it matches nowhere in
/// `text`, or where it has no first group that took part in the match.
pub uninterp spec fn first_group(pattern: Seq<char>, text: Seq<char>) -> Option<Seq<char>>;

/// `Regex::new`, `Regex::captures` and `Captures::get` of the regex crate:
/// compiles `pattern`, searches `text` for its leftmost match and hands out what
/// the first group of that match holds. The contract only gives that text its
/// name.
#[verifier::external_body]
fn capture_first_group(pattern: &str, text: &str) -> (group: Option<String>)
    ensures
        group.deep_view() == first_group(pattern@, text@),
{
    match regex::Regex::new(pattern) {
        Ok(expression) => expression.captures(text).and_then(|found| found.get(1)).map(
            |group| group.as_str().to_string(),
        ),
        Err(_) => None,
    }
}

/// The search data, given what stood between `var ytInitialData = ` and `};`: the
/// brace that the pattern left out is put back.
pub open spec fn closed(captured: Option<Seq<char>>) -> Option<Seq<char>> {
    match captured {
        Some(text) => Some(text.push('}')),
        None => None,
    }
}

/// Makes the search data whole again, given what was captured of it.
pub fn close_initial_data(captured: Option<String>) -> (data: Option<String>)
    ensures
        data.deep_view() == closed(captured.deep_view()),
{
    match captured {
        Some(matched_text) => {
            let mut data = matched_text;
            proof {
                reveal_strlit("}");
            }
            data.append("}");
            Some(data)
        },
        None => None,
    }
}

/// Takes the search data out of the page that YouTube answered with.
pub fn extract_yt_initial_data(input: &str) -> (data: Option<String>)
    ensures
        data.deep_view() == closed(first_group(initial_data_pattern(), input@)),
{
    close_initial_data(capture_first_group("var ytInitialData = (.*?)};", input))
}

/// The id of the first result of the first section where that result is a
/// video; `None` where the page has no section, where its first section holds
/// no results or is the mark for further ones, or where the first result is
/// something else than a video.
pub open spec fn first_video(response: YoutubeResponse) -> Option<Seq<char>> {
    let sections =
        response.contents.two_column_search_results_renderer.primary_contents.section_list_renderer.contents@;
    if sections.len() == 0 {
        None
    } else {
        match sections[0] {
            YoutubeResponseSectionListRendererContent::ItemSectionRenderer(section) => {
                let results = section.item_section_renderer.contents@;
                if results.len() == 0 {
                    None
                } else {
                    match results[0] {
                        YoutubeResponseItemSectionRendererContent::VideoRenderer(video) => Some(
                            video.video_renderer.video_id@,
                        ),
                        YoutubeResponseItemSectionRendererContent::OtherRenderer(_) => None,
                    }
                }
            },
            YoutubeResponseSectionListRendererContent::ContinuationItemRenderer(_) => None,
        }
    }
}

/// Picks the video that a search has found: its first result, and no other.
pub fn first_video_id(response: &YoutubeResponse) -> (id: Option<String>)
    ensures
        id.deep_view() == first_video(*response),
{
    let sections =
        &response.contents.two_column_search_results_renderer.primary_contents.section_list_renderer.contents;
    if sections.len() == 0 {
        return None;
    }
    match &sections[0] {
        YoutubeResponseSectionListRendererContent::ItemSectionRenderer(item_section_renderer) => {
            let results = &item_section_renderer.item_section_renderer.contents;
            if results.len() == 0 {
                return None;
            }
            match &results[0] {
                YoutubeResponseItemSectionRendererContent::VideoRenderer(video_renderer) => Some(
                    video_renderer.video_renderer.video_id.clone(),
                ),
                YoutubeResponseItemSectionRendererContent::OtherRenderer(_) => None,
            }
        },
        YoutubeResponseSectionListRendererContent::ContinuationItemRenderer(_) => None,
    }
}

/// Takes the search data out of the page that YouTube answered with. A page
/// without such data is an answer that cannot be read.
pub fn page_data(page: &str) -> (data: Result<String, ServiceError>)
    ensures
        match closed(first_group(initial_data_pattern(), page@)) {
            Some(text) => data matches Ok(found) && found@ == text,
            None => data == Err::<String, ServiceError>(ServiceError::Transport),
        },
{
    match extract_yt_initial_data(page) {
        Some(data) => Ok(data),
        None => Err(ServiceError::Transport),
    }
}

/// Reads the outcome of a search: a failure stays a failure, and a search that
/// went through gives its first result where that is a video.
pub fn search_reply(outcome: &Result<YoutubeResponse, ServiceError>) -> (reply: Result<
    Option<String>,
    ServiceError,
>)
    ensures
        match *outcome {
            Ok(response) => reply matches Ok(id) && id.deep_view() == first_video(response),
            Err(error) => reply == Err::<Option<String>, ServiceError>(error),
        },
{
    match outcome {
        Ok(response) => Ok(first_video_id(response)),
        Err(error) => Err(*error),
    }
}

} // verus!
