use vstd::prelude::*;

use super::tokens;
use super::tokens::{
    extension_spec, extract_extension, normalize_name, normalize_spec, strip_extension,
    strip_extension_spec, title_spec,
};
use super::{extract_year_from_input, year_spec, MediaInfo};
use crate::text::copy_str;

verus! {

/// `info` is what `parse_movie` gives for `input`: title and year from the normalized
/// name without its extension, and no season or episode.
pub open spec fn movie_info(info: MediaInfo, input: Seq<char>) -> bool {
    let n = normalize_spec(strip_extension_spec(input));
    &&& info.title.deep_view() == title_spec(n)
    &&& info.year == year_spec(n)
    &&& info.season is None
    &&& info.episode is None
    &&& info.extension@ == extension_spec(input)
    &&& info.original_filename@ == input
    &&& info.full_path is None
}

/// Parses a movie release name.
pub fn parse_movie(input: &str) -> (r: MediaInfo)
    ensures
        movie_info(r, input@),
{
    let extension = extract_extension(input);
    let base = strip_extension(input);
    let normalized = normalize_name(base.as_str());
    let year = extract_year_from_input(normalized.as_str());
    let title = extract_title(normalized.as_str());
    MediaInfo {
        title,
        year,
        season: None,
        episode: None,
        extension,
        original_filename: copy_str(input),
        full_path: None,
    }
}

/// The movie title of a normalized name: the cleaned text before the first boundary.
fn extract_title(normalized: &str) -> (r: Option<String>)
    ensures
        r.deep_view() == title_spec(normalized@),
{
    tokens::extract_title(normalized)
}

} // verus!
