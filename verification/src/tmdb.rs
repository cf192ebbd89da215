//! Release years from The Movie Database: what is asked and what the answer means.
use vstd::prelude::*;

use crate::config::MediaType;
use crate::text::{chars_of, parse_u16, parse_u16_spec, string_from_range, trim, trim_seq};

verus! {

/// Looks up the release year of a title. The HTTP client implements it; so can anything
/// else that knows release years.
pub trait MetadataLookup {
    /// Whether `answer` is one this lookup may give when asked for `title` as `media_type`.
    /// A lookup may give different answers to the same question; one that states nothing
    /// of its answers may give any.
    open spec fn answers(&self, title: Seq<char>, media_type: MediaType, answer: Result<Option<u16>, String>) -> bool {
        true
    }

    fn lookup_year(&self, title: &str, media_type: MediaType) -> (r: Result<Option<u16>, String>)
        ensures
            self.answers(title@, media_type, r),
    ;
}

/// The year a lookup answer stands for: none when the lookup failed.
pub open spec fn answered_year(answer: Result<Option<u16>, String>) -> Option<u16> {
    match answer {
        Ok(y) => y,
        Err(_) => None,
    }
}

pub open spec fn endpoint_of(media_type: MediaType) -> Seq<char> {
    match media_type {
        MediaType::Show => "https://api.themoviedb.org/3/search/tv"@,
        MediaType::Movie => "https://api.themoviedb.org/3/search/movie"@,
    }
}

/// The search endpoint for shows or movies.
pub fn tmdb_endpoint(media_type: MediaType) -> (r: &'static str)
    ensures
        r@ == endpoint_of(media_type),
{
    match media_type {
        MediaType::Show => "https://api.themoviedb.org/3/search/tv",
        MediaType::Movie => "https://api.themoviedb.org/3/search/movie",
    }
}

/// A lookup is only made with a key that is not blank.
pub fn has_api_key(api_key: &str) -> (r: bool)
    ensures
        r == (trim_seq(api_key@).len() > 0),
{
    let t = trim(api_key);
    t.as_str().unicode_len() > 0
}

/// The year at the start of a date such as `2019-01-31`: the first four characters
/// parsed as a number.
pub open spec fn year_of_date(s: Seq<char>) -> Option<u16> {
    if s.len() < 4 {
        None
    } else {
        parse_u16_spec(s.subrange(0, 4))
    }
}

pub fn parse_year_from_date(s: String) -> (r: Option<u16>)
    ensures
        r == year_of_date(s@),
{
    let cs = chars_of(s.as_str());
    if cs.len() < 4 {
        return None;
    }
    let head = string_from_range(&cs, 0, 4);
    parse_u16(head.as_str())
}

/// The year of the first search result: its first air date for a show, its release
/// date for a movie.
pub fn first_result_year(media_type: MediaType, release_date: Option<String>, first_air_date: Option<String>) -> (r: Option<u16>)
    ensures
        r == (match media_type {
            MediaType::Show => match first_air_date {
                Some(d) => year_of_date(d@),
                None => None,
            },
            MediaType::Movie => match release_date {
                Some(d) => year_of_date(d@),
                None => None,
            },
        }),
{
    let date = match media_type {
        MediaType::Show => first_air_date,
        MediaType::Movie => release_date,
    };
    match date {
        Some(d) => parse_year_from_date(d),
        None => None,
    }
}

} // verus!
