//! What the interactive questions say and what their answers mean. Asking is done by
//! the terminal front end.
use vstd::prelude::*;

use crate::resolve::{ShowGroupResolution, ShowPromptGroup};
use crate::text::{concat, copy_str, decimal, parse_u16, parse_u16_spec, trim, trim_seq, usize_to_string};

verus! {

/// What a folder question is about.
#[derive(Debug, Clone, PartialEq, Eq)]
pub struct ShowGroupPrompt {
    pub title: Option<String>,
    pub parent_path: String,
    pub file_count: usize,
    pub missing_season: bool,
    pub missing_episode: bool,
}

impl ShowGroupPrompt {
    /// The question for a group of files.
    pub fn for_group(group: &ShowPromptGroup) -> (r: ShowGroupPrompt)
        ensures
            r.title.deep_view() == group.title.deep_view(),
            r.parent_path@ == group.parent_path@,
            r.file_count == group.indices@.len(),
            r.missing_season == group.missing_season,
            r.missing_episode == group.missing_episode,
    {
        ShowGroupPrompt {
            title: match &group.title {
                Some(t) => Some(copy_str(t.as_str())),
                None => None,
            },
            parent_path: copy_str(group.parent_path.as_str()),
            file_count: group.indices.len(),
            missing_season: group.missing_season,
            missing_episode: group.missing_episode,
        }
    }
}

/// A typed number: blank means no answer, and so does anything that is not a number
/// from 0 to 65535.
pub fn parse_number_answer(text: &str) -> (r: Option<u16>)
    ensures
        r == parse_u16_spec(trim_seq(text@)),
{
    let t = trim(text);
    parse_u16(t.as_str())
}

/// What the folder question names: the quoted title when there is a non-blank one,
/// else "this group".
pub open spec fn target_text(title: Option<Seq<char>>) -> Seq<char> {
    match title {
        Some(t) => if trim_seq(t).len() > 0 {
            "\""@ + t + "\""@
        } else {
            "this group"@
        },
        None => "this group"@,
    }
}

/// `Missing show metadata for <target> in <folder> (<n> file[s]). Leave blank to skip
/// this group.`
pub open spec fn intro_text(p: ShowGroupPrompt) -> Seq<char> {
    "Missing show metadata for "@ + target_text(p.title.deep_view()) + " in "@ + p.parent_path@ + " ("@ + decimal(
        p.file_count as nat,
    ) + " "@ + (if p.file_count == 1 {
        "file"@
    } else {
        "files"@
    }) + "). Leave blank to skip this group."@
}

pub fn group_intro(p: &ShowGroupPrompt) -> (r: String)
    ensures
        r@ == intro_text(*p),
{
    let target = match &p.title {
        Some(t) => {
            let tt = trim(t.as_str());
            if tt.as_str().unicode_len() > 0 {
                let mut s = copy_str("\"");
                s.append(t.as_str());
                s.append("\"");
                s
            } else {
                copy_str("this group")
            }
        },
        None => copy_str("this group"),
    };
    let mut s = concat("Missing show metadata for ", target.as_str());
    s.append(" in ");
    s.append(p.parent_path.as_str());
    s.append(" (");
    s.append(usize_to_string(p.file_count).as_str());
    s.append(" ");
    s.append(if p.file_count == 1 { "file" } else { "files" });
    s.append("). Leave blank to skip this group.");
    s
}

/// The season question; it says that a blank answer skips the group when it is the
/// only question.
pub fn season_question(p: &ShowGroupPrompt) -> (r: &'static str)
    ensures
        r@ == if p.missing_episode {
            "Season number"@
        } else {
            "Season number (leave blank to skip this group)"@
        },
{
    if p.missing_episode {
        "Season number"
    } else {
        "Season number (leave blank to skip this group)"
    }
}

/// The episode question.
pub fn episode_question(p: &ShowGroupPrompt) -> (r: &'static str)
    ensures
        r@ == if p.missing_season {
            "Episode number"@
        } else {
            "Episode number (leave blank to skip this group)"@
        },
{
    if p.missing_season {
        "Episode number"
    } else {
        "Episode number (leave blank to skip this group)"
    }
}

/// The answer for a folder: the group is skipped when a needed number is missing;
/// otherwise each missing field gets its number.
pub open spec fn resolution_of(p: ShowGroupPrompt, season: Option<u16>, episode: Option<u16>) -> Option<ShowGroupResolution> {
    if p.missing_season && season is None {
        None
    } else if p.missing_episode && episode is None {
        None
    } else {
        Some(
            ShowGroupResolution {
                season: if p.missing_season {
                    season
                } else {
                    None
                },
                episode: if p.missing_episode {
                    episode
                } else {
                    None
                },
            },
        )
    }
}

pub fn group_resolution(p: &ShowGroupPrompt, season: Option<u16>, episode: Option<u16>) -> (r: Option<ShowGroupResolution>)
    ensures
        r == resolution_of(*p, season, episode),
{
    if p.missing_season && season.is_none() {
        return None;
    }
    if p.missing_episode && episode.is_none() {
        return None;
    }
    Some(
        ShowGroupResolution {
            season: if p.missing_season {
                season
            } else {
                None
            },
            episode: if p.missing_episode {
                episode
            } else {
                None
            },
        },
    )
}

/// The year question, naming the title when it is not blank.
pub open spec fn year_question_text(title: Option<Seq<char>>) -> Seq<char> {
    match title {
        Some(t) => if trim_seq(t).len() > 0 {
            "Year not found for \""@ + t + "\". Enter year (or leave blank to skip)"@
        } else {
            "Year not found. Enter year (or leave blank to skip)"@
        },
        None => "Year not found. Enter year (or leave blank to skip)"@,
    }
}

pub fn year_question(title: Option<&str>) -> (r: String)
    ensures
        r@ == year_question_text(match title {
            Some(t) => Some(t@),
            None => None,
        }),
{
    match title {
        Some(t) => {
            let tt = trim(t);
            if tt.as_str().unicode_len() > 0 {
                let mut s = concat("Year not found for \"", t);
                s.append("\". Enter year (or leave blank to skip)");
                s
            } else {
                copy_str("Year not found. Enter year (or leave blank to skip)")
            }
        },
        None => copy_str("Year not found. Enter year (or leave blank to skip)"),
    }
}

} // verus!
