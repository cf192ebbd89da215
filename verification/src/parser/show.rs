use vstd::prelude::*;

use super::tokens::{
    extension_spec, extract_extension, extract_title, normalize_name, normalize_spec,
    strip_extension, strip_extension_spec, title_spec,
};
use super::{extract_year_from_input, year_spec, MediaInfo};
use crate::regex_ops::{capture_u16, captures, group_u16, regex_captures};
use crate::text::copy_str;

verus! {

pub const PATTERN_MULTI: &'static str = r"(?i)S(\d{1,2})E(\d{1,3})(?:E\d{1,3})+";
pub const PATTERN_RANGE: &'static str = r"(?i)S(\d{1,2})E(\d{1,3})-E(\d{1,3})";
pub const PATTERN_SE: &'static str = r"(?i)S(\d{1,2})E(\d{1,3})";
pub const PATTERN_X: &'static str = r"(?i)\b(\d{1,2})x(\d{1,3})\b";
pub const PATTERN_SEASON_EPISODE_WORD: &'static str = r"(?i)Season\s*(\d{1,2})\s*Episode\s*(\d{1,3})";
pub const PATTERN_SEASON_ONLY: &'static str = r"(?i)\bS(\d{1,2})\b";
pub const PATTERN_SEASON_WORD: &'static str = r"(?i)Season\s*(\d{1,2})";
pub const PATTERN_EP_ONLY: &'static str = r"(?i)\bE(\d{1,3})\b";
pub const PATTERN_EPISODE_WORD: &'static str = r"(?i)Episode\s*(\d{1,3})";

/// Season and episode of a normalized show name: the first of the patterns (multi-episode
/// code, episode range, `SxxEyy`, `NxM`, "Season N Episode M", season only, episode only)
/// that matches decides, and its groups are read as numbers.
pub open spec fn season_episode_spec(n: Seq<char>) -> (Option<u16>, Option<u16>) {
    let multi = regex_captures(PATTERN_MULTI@, n);
    let range = regex_captures(PATTERN_RANGE@, n);
    let se = regex_captures(PATTERN_SE@, n);
    let x = regex_captures(PATTERN_X@, n);
    let words = regex_captures(PATTERN_SEASON_EPISODE_WORD@, n);
    let season_only = regex_captures(PATTERN_SEASON_ONLY@, n);
    let season_word = regex_captures(PATTERN_SEASON_WORD@, n);
    let ep_only = regex_captures(PATTERN_EP_ONLY@, n);
    let episode_word = regex_captures(PATTERN_EPISODE_WORD@, n);
    if multi is Some {
        (group_u16(multi, 1), group_u16(multi, 2))
    } else if range is Some {
        (group_u16(range, 1), group_u16(range, 2))
    } else if se is Some {
        (group_u16(se, 1), group_u16(se, 2))
    } else if x is Some {
        (group_u16(x, 1), group_u16(x, 2))
    } else if words is Some {
        (group_u16(words, 1), group_u16(words, 2))
    } else if season_only is Some {
        (group_u16(season_only, 1), None)
    } else if season_word is Some {
        (group_u16(season_word, 1), None)
    } else if ep_only is Some {
        (None, group_u16(ep_only, 1))
    } else if episode_word is Some {
        (None, group_u16(episode_word, 1))
    } else {
        (None, None)
    }
}

/// Season and episode numbers in a normalized show name.
pub fn extract_season_episode(normalized: &str) -> (r: (Option<u16>, Option<u16>))
    ensures
        r == season_episode_spec(normalized@),
{
    let c = captures(PATTERN_MULTI, normalized);
    if c.is_some() {
        return (capture_u16(&c, 1), capture_u16(&c, 2));
    }
    let c = captures(PATTERN_RANGE, normalized);
    if c.is_some() {
        return (capture_u16(&c, 1), capture_u16(&c, 2));
    }
    let c = captures(PATTERN_SE, normalized);
    if c.is_some() {
        return (capture_u16(&c, 1), capture_u16(&c, 2));
    }
    let c = captures(PATTERN_X, normalized);
    if c.is_some() {
        return (capture_u16(&c, 1), capture_u16(&c, 2));
    }
    let c = captures(PATTERN_SEASON_EPISODE_WORD, normalized);
    if c.is_some() {
        return (capture_u16(&c, 1), capture_u16(&c, 2));
    }
    let c = captures(PATTERN_SEASON_ONLY, normalized);
    if c.is_some() {
        return (capture_u16(&c, 1), None);
    }
    let c = captures(PATTERN_SEASON_WORD, normalized);
    if c.is_some() {
        return (capture_u16(&c, 1), None);
    }
    let c = captures(PATTERN_EP_ONLY, normalized);
    if c.is_some() {
        return (None, capture_u16(&c, 1));
    }
    let c = captures(PATTERN_EPISODE_WORD, normalized);
    if c.is_some() {
        return (None, capture_u16(&c, 1));
    }
    (None, None)
}

/// `info` is what `parse_show` gives for `input`: the name without its extension is
/// normalized, and title, year, season and episode are read from that.
pub open spec fn show_info(info: MediaInfo, input: Seq<char>) -> bool {
    let n = normalize_spec(strip_extension_spec(input));
    &&& info.title.deep_view() == title_spec(n)
    &&& info.year == year_spec(n)
    &&& (info.season, info.episode) == season_episode_spec(n)
    &&& info.extension@ == extension_spec(input)
    &&& info.original_filename@ == input
    &&& info.full_path is None
}

/// Parses a show release name.
pub fn parse_show(input: &str) -> (r: MediaInfo)
    ensures
        show_info(r, input@),
{
    let extension = extract_extension(input);
    let base = strip_extension(input);
    let normalized = normalize_name(base.as_str());
    let (season, episode) = extract_season_episode(normalized.as_str());
    let year = extract_year_from_input(normalized.as_str());
    let title = extract_title(normalized.as_str());
    MediaInfo {
        title,
        year,
        season,
        episode,
        extension,
        original_filename: copy_str(input),
        full_path: None,
    }
}

} // verus!
