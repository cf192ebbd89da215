use vstd::prelude::*;

pub mod movie;
pub mod show;
pub mod tokens;

use crate::regex_ops::{capture_u16, captures, group_u16, regex_captures};
use crate::text::{contains, contains_seq, lower_seq, to_ascii_lowercase};

verus! {

/// What the parser learned about one media file name.
#[derive(Debug, Clone, Default)]
pub struct MediaInfo {
    pub title: Option<String>,
    pub year: Option<u16>,
    pub season: Option<u16>,
    pub episode: Option<u16>,
    pub extension: String,
    pub original_filename: String,
    pub full_path: Option<String>,
}

/// Parses `input` as a show release name.
pub fn parse_show(input: &str) -> (r: MediaInfo)
    ensures
        show::show_info(r, input@),
{
    show::parse_show(input)
}

/// Parses `input` as a movie release name.
pub fn parse_movie(input: &str) -> (r: MediaInfo)
    ensures
        movie::movie_info(r, input@),
{
    movie::parse_movie(input)
}

pub const YEAR_PAREN: &'static str = r"\((19\d{2}|20\d{2})\)";
pub const YEAR_STANDALONE: &'static str = r"(?:^|[^0-9])(19\d{2}|20\d{2})(?:[^0-9]|$)";
pub const SEASON_S: &'static str = r"(?i)\bS(\d{1,2})\b";
pub const SEASON_WORD: &'static str = r"(?i)Season\s*(\d{1,2})";

/// The year of `input`: a parenthesised 19xx/20xx year if there is one, otherwise a
/// 19xx/20xx number not adjacent to other digits.
pub open spec fn year_spec(input: Seq<char>) -> Option<u16> {
    let paren = regex_captures(YEAR_PAREN@, input);
    if paren is Some {
        group_u16(paren, 1)
    } else {
        group_u16(regex_captures(YEAR_STANDALONE@, input), 1)
    }
}

/// Finds a plausible release year in `input`.
pub fn extract_year_from_input(input: &str) -> (r: Option<u16>)
    ensures
        r == year_spec(input@),
{
    let paren = captures(YEAR_PAREN, input);
    if paren.is_some() {
        return capture_u16(&paren, 1);
    }
    let standalone = captures(YEAR_STANDALONE, input);
    capture_u16(&standalone, 1)
}

/// The name mentions specials or extras (case-insensitively), which belong to season 0.
pub open spec fn mentions_specials(input: Seq<char>) -> bool {
    let lower = lower_seq(input);
    ||| contains_seq(lower, "special"@)
    ||| contains_seq(lower, "specials"@)
    ||| contains_seq(lower, "extras"@)
    ||| contains_seq(lower, "featurette"@)
    ||| contains_seq(lower, "featurettes"@)
}

/// The season of `input`: 0 for specials and extras, otherwise an `Sxx` code, otherwise
/// a "Season xx" phrase.
pub open spec fn season_spec(input: Seq<char>) -> Option<u16> {
    if mentions_specials(input) {
        Some(0)
    } else if group_u16(regex_captures(SEASON_S@, input), 1) is Some {
        group_u16(regex_captures(SEASON_S@, input), 1)
    } else {
        group_u16(regex_captures(SEASON_WORD@, input), 1)
    }
}

/// Finds a season number in `input`.
pub fn extract_season_from_input(input: &str) -> (r: Option<u16>)
    ensures
        r == season_spec(input@),
{
    let lower = to_ascii_lowercase(input);
    let l = lower.as_str();
    if contains(l, "special") || contains(l, "specials") || contains(l, "extras") || contains(
        l,
        "featurette",
    ) || contains(l, "featurettes") {
        return Some(0);
    }
    let s_code = captures(SEASON_S, input);
    let season = capture_u16(&s_code, 1);
    if season.is_some() {
        return season;
    }
    let word = captures(SEASON_WORD, input);
    capture_u16(&word, 1)
}

} // verus!
