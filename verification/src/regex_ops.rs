use vstd::prelude::*;

use crate::text::{parse_u16, parse_u16_spec};

verus! {

/// What `regex::Regex::captures` reports for `pattern` on `haystack`: `None` when the
/// pattern does not compile or does not match, otherwise one entry per capture group
/// (group 0 is the whole match), each `Some((start, text))` with the start position
/// counted in characters, or `None` for a group that took no part in the match.
pub uninterp spec fn regex_captures(pattern: Seq<char>, haystack: Seq<char>) -> Option<Seq<Option<(usize, Seq<char>)>>>;

/// A group span that lies inside the haystack and spells out the text it reports.
pub open spec fn group_within(haystack: Seq<char>, g: Option<(usize, Seq<char>)>) -> bool {
    g matches Some((start, text)) ==> {
        &&& start + text.len() <= haystack.len()
        &&& haystack.subrange(start as int, start + text.len()) == text
    }
}

/// Trusted: compiles `pattern` with `regex::Regex::new` and runs `Regex::captures` on
/// `haystack`. The result is named by `regex_captures`; beyond the name, the contract
/// states only what the regex documentation promises: group 0 is present in every
/// match, and each reported group is the haystack text at the reported position.
#[verifier::external_body]
pub(crate) fn captures(pattern: &str, haystack: &str) -> (r: Option<Vec<Option<(usize, String)>>>)
    ensures
        r.deep_view() == regex_captures(pattern@, haystack@),
        r matches Some(groups) ==> {
            &&& groups.len() >= 1
            &&& groups@[0] is Some
            &&& forall|i: int| 0 <= i < groups.len() ==> group_within(haystack@, #[trigger] groups@[i].deep_view())
        },
{
    let re = match regex::Regex::new(pattern) {
        Ok(re) => re,
        Err(_) => return None,
    };
    let caps = re.captures(haystack)?;
    let mut groups = Vec::new();
    for m in caps.iter() {
        groups.push(m.map(|m| (haystack[..m.start()].chars().count(), m.as_str().to_string())));
    }
    Some(groups)
}

/// The number in capture group `i`, read as `str::parse::<u16>` reads it.
pub open spec fn group_u16(caps: Option<Seq<Option<(usize, Seq<char>)>>>, i: int) -> Option<u16> {
    match caps {
        Some(groups) => if 0 <= i < groups.len() {
            match groups[i] {
                Some(g) => parse_u16_spec(g.1),
                None => None,
            }
        } else {
            None
        },
        None => None,
    }
}

/// Start position of the whole match.
pub open spec fn match_start(caps: Option<Seq<Option<(usize, Seq<char>)>>>) -> Option<usize> {
    match caps {
        Some(groups) => if groups.len() > 0 {
            match groups[0] {
                Some(g) => Some(g.0),
                None => None,
            }
        } else {
            None
        },
        None => None,
    }
}

/// Reads capture group `i` as a `u16`.
pub fn capture_u16(caps: &Option<Vec<Option<(usize, String)>>>, i: usize) -> (r: Option<u16>)
    ensures
        r == group_u16(caps.deep_view(), i as int),
{
    match caps {
        Some(groups) => {
            if i < groups.len() {
                match &groups[i] {
                    Some(g) => parse_u16(g.1.as_str()),
                    None => None,
                }
            } else {
                None
            }
        },
        None => None,
    }
}

/// Start position of the whole match, if any.
pub fn capture_start(caps: &Option<Vec<Option<(usize, String)>>>) -> (r: Option<usize>)
    ensures
        r == match_start(caps.deep_view()),
{
    match caps {
        Some(groups) => {
            if groups.len() > 0 {
                match &groups[0] {
                    Some(g) => Some(g.0),
                    None => None,
                }
            } else {
                None
            }
        },
        None => None,
    }
}

} // verus!
