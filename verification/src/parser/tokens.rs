use vstd::prelude::*;

use crate::regex_ops::{capture_start, captures, match_start, regex_captures};
use crate::text::{
    chars_of, is_whitespace, is_ws, last_index_of, lemma_last_index_of, lower_seq, push_char,
    rfind_char, string_from_chars, string_from_range, to_ascii_lowercase, trim, trim_seq,
};

verus! {

// ---------------------------------------------------------------------------
// Name normalisation
// ---------------------------------------------------------------------------

/// Characters that separate words in a release name: whitespace, `.` and `_`.
pub open spec fn is_name_sep(c: char) -> bool {
    is_ws(c) || c == '.' || c == '_'
}

/// The words of `s`: its maximal runs of characters that are not separators, in order.
pub open spec fn words(s: Seq<char>) -> Seq<Seq<char>>
    decreases s.len(),
{
    if s.len() == 0 {
        seq![]
    } else {
        let w = words(s.drop_last());
        let c = s.last();
        if is_name_sep(c) {
            w
        } else if s.len() >= 2 && !is_name_sep(s[s.len() - 2]) {
            w.update(w.len() - 1, w.last().push(c))
        } else {
            w.push(seq![c])
        }
    }
}

/// `ws` joined with single spaces.
pub open spec fn join_words(ws: Seq<Seq<char>>) -> Seq<char>
    decreases ws.len(),
{
    if ws.len() == 0 {
        seq![]
    } else if ws.len() == 1 {
        ws[0]
    } else {
        join_words(ws.drop_last()) + seq![' '] + ws.last()
    }
}

/// What `normalize_name` gives for `s`.
pub open spec fn normalize_spec(s: Seq<char>) -> Seq<char> {
    join_words(words(s))
}

pub(crate) proof fn lemma_words_nonempty_when_last_is_word_char(s: Seq<char>)
    requires
        s.len() > 0,
        !is_name_sep(s.last()),
    ensures
        words(s).len() > 0,
    decreases s.len(),
{
    let w = words(s.drop_last());
    if s.len() >= 2 && !is_name_sep(s[s.len() - 2]) {
        lemma_words_nonempty_when_last_is_word_char(s.drop_last());
    }
}

proof fn lemma_join_extend_last(ws: Seq<Seq<char>>, c: char)
    requires
        ws.len() > 0,
    ensures
        join_words(ws.update(ws.len() - 1, ws.last().push(c))) == join_words(ws).push(c),
{
    let u = ws.update(ws.len() - 1, ws.last().push(c));
    if ws.len() > 1 {
        assert(u.drop_last() =~= ws.drop_last());
    }
}

proof fn lemma_join_push_word(ws: Seq<Seq<char>>, c: char)
    requires
        ws.len() > 0,
    ensures
        join_words(ws.push(seq![c])) == join_words(ws).push(' ').push(c),
{
    assert(ws.push(seq![c]).drop_last() =~= ws);
}

/// Replaces `.` and `_` with spaces and collapses whitespace: the words of `input`
/// joined by single spaces.
pub fn normalize_name(input: &str) -> (r: String)
    ensures
        r@ == normalize_spec(input@),
{
    let cs = chars_of(input);
    let mut out = String::new();
    let mut in_word = false;
    let mut have_word = false;
    let mut i: usize = 0;
    while i < cs.len()
        invariant
            cs@ == input@,
            i <= cs.len(),
            out@ == join_words(words(cs@.subrange(0, i as int))),
            in_word == (i > 0 && !is_name_sep(cs@[i - 1])),
            have_word == (words(cs@.subrange(0, i as int)).len() > 0),
        decreases cs.len() - i,
    {
        let c = cs[i];
        let ghost before = cs@.subrange(0, i as int);
        let ghost after = cs@.subrange(0, i + 1);
        assert(after.drop_last() =~= before);
        let sep = is_whitespace(c) || c == '.' || c == '_';
        if sep {
            in_word = false;
        } else if in_word {
            proof {
                lemma_words_nonempty_when_last_is_word_char(before);
                lemma_join_extend_last(words(before), c);
            }
            push_char(&mut out, c);
        } else {
            if have_word {
                proof {
                    lemma_join_push_word(words(before), c);
                }
                push_char(&mut out, ' ');
            } else {
                assert(words(before).push(seq![c]) =~= seq![seq![c]]);
            }
            push_char(&mut out, c);
            in_word = true;
            have_word = true;
        }
        i = i + 1;
    }
    assert(cs@.subrange(0, i as int) =~= input@);
    out
}

// ---------------------------------------------------------------------------
// Extensions
// ---------------------------------------------------------------------------

/// `name` without the text from its last `.` on.
pub open spec fn strip_extension_spec(name: Seq<char>) -> Seq<char> {
    match last_index_of(name, '.') {
        Some(i) => name.subrange(0, i),
        None => name,
    }
}

/// The text of `name` from its last `.` on, lowercased; empty when there is no `.`.
pub open spec fn extension_spec(name: Seq<char>) -> Seq<char> {
    match last_index_of(name, '.') {
        Some(i) => lower_seq(name.subrange(i, name.len() as int)),
        None => seq![],
    }
}

/// `name` up to (not including) its last `.`.
pub fn strip_extension(name: &str) -> (r: String)
    ensures
        r@ == strip_extension_spec(name@),
{
    let cs = chars_of(name);
    proof {
        lemma_last_index_of(name@, '.');
    }
    match rfind_char(&cs, '.') {
        Some(idx) => string_from_range(&cs, 0, idx),
        None => string_from_chars(&cs),
    }
}

/// The lowercased extension of `name`, dot included, or the empty string.
pub fn extract_extension(name: &str) -> (r: String)
    ensures
        r@ == extension_spec(name@),
{
    let cs = chars_of(name);
    proof {
        lemma_last_index_of(name@, '.');
    }
    match rfind_char(&cs, '.') {
        Some(idx) => {
            let tail = string_from_range(&cs, idx, cs.len());
            to_ascii_lowercase(tail.as_str())
        },
        None => String::new(),
    }
}

// ---------------------------------------------------------------------------
// Titles
// ---------------------------------------------------------------------------

/// Characters that `clean_title` removes from the end of a title.
pub open spec fn is_trailing_mark(c: char) -> bool {
    c == '-' || c == ':' || c == '[' || c == '('
}

/// `s` without trailing `-`, `:`, `[` and `(` characters.
pub open spec fn strip_trailing_marks(s: Seq<char>) -> Seq<char>
    decreases s.len(),
{
    if s.len() > 0 && is_trailing_mark(s.last()) {
        strip_trailing_marks(s.drop_last())
    } else {
        s
    }
}

/// What `clean_title` gives for `raw`.
pub open spec fn clean_title_spec(raw: Seq<char>) -> Seq<char> {
    trim_seq(strip_trailing_marks(trim_seq(raw)))
}

/// Trims `raw`, drops trailing `-`, `:`, `[`, `(` and trims again.
pub fn clean_title(raw: &str) -> (r: String)
    ensures
        r@ == clean_title_spec(raw@),
{
    let first = trim(raw);
    let cs = chars_of(first.as_str());
    let mut end = cs.len();
    assert(cs@.subrange(0, cs.len() as int) =~= cs@);
    while end > 0 && (cs[end - 1] == '-' || cs[end - 1] == ':' || cs[end - 1] == '[' || cs[end
        - 1] == '(')
        invariant
            end <= cs.len(),
            strip_trailing_marks(cs@) == strip_trailing_marks(cs@.subrange(0, end as int)),
        decreases end,
    {
        let ghost p = cs@.subrange(0, end as int);
        assert(p.drop_last() =~= cs@.subrange(0, end - 1));
        end = end - 1;
    }
    proof {
        let p = cs@.subrange(0, end as int);
        if end > 0 {
            assert(p.last() == cs@[end - 1]);
        }
        assert(strip_trailing_marks(p) == p);
    }
    let stripped = string_from_range(&cs, 0, end);
    trim(stripped.as_str())
}

pub const BOUNDARY_EPISODE_CODE: &'static str = r"(?i)\bS\d{1,2}E\d{1,3}(?:E\d{1,3})*(?:-E\d{1,3})?\b";
pub const BOUNDARY_X_CODE: &'static str = r"(?i)\b\d{1,2}x\d{1,3}\b";
pub const BOUNDARY_SEASON_EPISODE_WORDS: &'static str = r"(?i)\bSeason\s*\d{1,2}\s*Episode\s*\d{1,3}\b";
pub const BOUNDARY_EPISODE_WORD: &'static str = r"(?i)\bEpisode\s*\d{1,3}\b";
pub const BOUNDARY_SEASON_CODE: &'static str = r"(?i)\bS\d{1,2}\b";
pub const BOUNDARY_SEASON_WORD: &'static str = r"(?i)\bSeason\s*\d{1,2}\b";
pub const BOUNDARY_YEAR_PAREN: &'static str = r"\((19\d{2}|20\d{2})\)";
pub const BOUNDARY_YEAR: &'static str = r"\b(19\d{2}|20\d{2})\b";
pub const BOUNDARY_RESOLUTION: &'static str = r"(?i)\b(480p|720p|1080p|2160p|4K)\b";
pub const BOUNDARY_SOURCE: &'static str = r"(?i)\b(BluRay|BRRip|WEB-DL|WEBRip|HDTV|DVDRip|DRPO|Remux|UHD)\b";
pub const BOUNDARY_CODEC: &'static str = r"(?i)\b(x264|x265|H\.?264|H\.?265|HEVC|AVC|AV1|XviD|DivX)\b";
pub const BOUNDARY_AUDIO: &'static str = r"(?i)\b(AAC(2\.0|5\.1)?|AC3|DTS|FLAC|MP3|EAC3|Atmos|TrueHD)\b";
pub const BOUNDARY_HDR: &'static str = r"(?i)\b(SDR|HDR|HDR10\+?|DV|DoVi|Dolby\s*Vision)\b";
pub const BOUNDARY_EDITION: &'static str = r"(?i)\b(REMUX|PROPER|REPACK|EXTENDED)\b";
pub const BOUNDARY_BRACKET_TAG: &'static str = r"(?i)\[[^\]]*(480p|720p|1080p|2160p|4K|BluRay|WEB-DL|WEBRip|HEVC|x265|Remux)[^\]]*\]";

/// Number of title-boundary patterns.
pub open spec fn boundary_count() -> int {
    15
}

/// The `i`-th title-boundary pattern: episode codes, season markers, years, and release
/// tags (resolution, source, codec, audio, HDR, edition, bracketed tags).
pub open spec fn boundary_pattern(i: int) -> Seq<char> {
    if i == 0 {
        BOUNDARY_EPISODE_CODE@
    } else if i == 1 {
        BOUNDARY_X_CODE@
    } else if i == 2 {
        BOUNDARY_SEASON_EPISODE_WORDS@
    } else if i == 3 {
        BOUNDARY_EPISODE_WORD@
    } else if i == 4 {
        BOUNDARY_SEASON_CODE@
    } else if i == 5 {
        BOUNDARY_SEASON_WORD@
    } else if i == 6 {
        BOUNDARY_YEAR_PAREN@
    } else if i == 7 {
        BOUNDARY_YEAR@
    } else if i == 8 {
        BOUNDARY_RESOLUTION@
    } else if i == 9 {
        BOUNDARY_SOURCE@
    } else if i == 10 {
        BOUNDARY_CODEC@
    } else if i == 11 {
        BOUNDARY_AUDIO@
    } else if i == 12 {
        BOUNDARY_HDR@
    } else if i == 13 {
        BOUNDARY_EDITION@
    } else {
        BOUNDARY_BRACKET_TAG@
    }
}

fn boundary_pattern_str(i: usize) -> (r: &'static str)
    requires
        i < 15,
    ensures
        r@ == boundary_pattern(i as int),
{
    if i == 0 {
        BOUNDARY_EPISODE_CODE
    } else if i == 1 {
        BOUNDARY_X_CODE
    } else if i == 2 {
        BOUNDARY_SEASON_EPISODE_WORDS
    } else if i == 3 {
        BOUNDARY_EPISODE_WORD
    } else if i == 4 {
        BOUNDARY_SEASON_CODE
    } else if i == 5 {
        BOUNDARY_SEASON_WORD
    } else if i == 6 {
        BOUNDARY_YEAR_PAREN
    } else if i == 7 {
        BOUNDARY_YEAR
    } else if i == 8 {
        BOUNDARY_RESOLUTION
    } else if i == 9 {
        BOUNDARY_SOURCE
    } else if i == 10 {
        BOUNDARY_CODEC
    } else if i == 11 {
        BOUNDARY_AUDIO
    } else if i == 12 {
        BOUNDARY_HDR
    } else if i == 13 {
        BOUNDARY_EDITION
    } else {
        BOUNDARY_BRACKET_TAG
    }
}

/// The smallest match start of the first `k` boundary patterns in `s`, or `s.len()` when
/// none of them matches.
pub open spec fn boundary_upto(s: Seq<char>, k: int) -> int
    decreases k,
{
    if k <= 0 {
        s.len() as int
    } else {
        let prev = boundary_upto(s, k - 1);
        match match_start(regex_captures(boundary_pattern(k - 1), s)) {
            Some(start) => if (start as int) < prev {
                start as int
            } else {
                prev
            },
            None => prev,
        }
    }
}

/// Where the title of a normalized name ends: the earliest position at which any
/// boundary pattern matches, or the length of the name.
pub open spec fn boundary_spec(s: Seq<char>) -> int {
    boundary_upto(s, boundary_count())
}

pub(crate) proof fn lemma_boundary_upto_bounded(s: Seq<char>, k: int)
    ensures
        0 <= boundary_upto(s, k) <= s.len(),
    decreases k,
{
    if k > 0 {
        lemma_boundary_upto_bounded(s, k - 1);
    }
}

/// Position (in characters) where the title part of `normalized` ends.
pub fn title_boundary_index(normalized: &str) -> (r: usize)
    ensures
        r == boundary_spec(normalized@),
        r <= normalized@.len(),
{
    let mut min = normalized.unicode_len();
    let mut k: usize = 0;
    while k < 15
        invariant
            k <= 15,
            min == boundary_upto(normalized@, k as int),
        decreases 15 - k,
    {
        let caps = captures(boundary_pattern_str(k), normalized);
        match capture_start(&caps) {
            Some(start) => {
                if start < min {
                    min = start;
                }
            },
            None => {},
        }
        k = k + 1;
    }
    proof {
        lemma_boundary_upto_bounded(normalized@, 15);
    }
    min
}

/// What `extract_title` gives for a normalized name.
pub open spec fn title_spec(normalized: Seq<char>) -> Option<Seq<char>> {
    let end = boundary_spec(normalized);
    let candidate = if end < normalized.len() {
        normalized.subrange(0, end)
    } else {
        normalized
    };
    let cleaned = clean_title_spec(candidate);
    if cleaned.len() == 0 {
        None
    } else {
        Some(cleaned)
    }
}

/// The cleaned text before the first boundary pattern, if it is not empty.
pub fn extract_title(normalized: &str) -> (r: Option<String>)
    ensures
        r.deep_view() == title_spec(normalized@),
{
    let end = title_boundary_index(normalized);
    let cs = chars_of(normalized);
    let candidate = string_from_range(&cs, 0, end);
    proof {
        assert(cs@.subrange(0, cs@.len() as int) =~= cs@);
    }
    let cleaned = clean_title(candidate.as_str());
    if cleaned.unicode_len() == 0 {
        None
    } else {
        Some(cleaned)
    }
}

} // verus!
