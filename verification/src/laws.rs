//! Properties of the library as a whole, each stated over the specifications that the
//! functions' own contracts use, and proved.
use vstd::prelude::*;

use crate::config::{
    layered_api_key, layered_auto_confirm, layered_clean, layered_conflict, layered_list, layered_log_file,
    layered_mode, layered_non_media, normalized_extension, normalized_log_file, normalized_views, GeneralConfig,
    MediaType, PartialConfig, PartialGeneralConfig,
};
use crate::parser::MediaInfo;
use crate::parser::tokens::{is_name_sep, join_words, lemma_words_nonempty_when_last_is_word_char, normalize_spec, words};
use crate::parser::movie::movie_info;
use crate::parser::show::{
    season_episode_spec, show_info, PATTERN_MULTI, PATTERN_RANGE, PATTERN_SE, PATTERN_SEASON_EPISODE_WORD, PATTERN_X,
};
use crate::parser::tokens::{
    boundary_pattern, boundary_spec, boundary_upto, clean_title_spec, is_trailing_mark, lemma_boundary_upto_bounded,
    strip_extension_spec, strip_trailing_marks, title_spec, BOUNDARY_AUDIO, BOUNDARY_BRACKET_TAG, BOUNDARY_CODEC,
    BOUNDARY_EDITION, BOUNDARY_EPISODE_CODE, BOUNDARY_EPISODE_WORD, BOUNDARY_HDR, BOUNDARY_RESOLUTION,
    BOUNDARY_SEASON_CODE, BOUNDARY_SEASON_EPISODE_WORDS, BOUNDARY_SEASON_WORD, BOUNDARY_SOURCE, BOUNDARY_X_CODE,
    BOUNDARY_YEAR, BOUNDARY_YEAR_PAREN,
};
use crate::parser::{season_spec, year_spec};
use crate::regex_ops::{group_u16, match_start, regex_captures};
use crate::report::kind_of;
use crate::resolve::{is_extras_name, movie_file_info, show_file_info};
use crate::scanner::ScannedFile;
use crate::paths::{file_name_of, joined, parent_of};
use crate::planner::{conflicts_of, planned_ops, planned_skips, OpView, OperationKind};
use crate::preview::truncated;
use crate::report::{included, rank_of, tally, ScanItemReport, Tally};
use crate::resolve::{filled, same_info, titles_without_year, year_after, years_resolved, ShowGroupResolution};
use crate::tmdb::MetadataLookup;
use crate::text::{ascii_lower, is_ws, last_index_of, lemma_last_index_of, lower_seq, trim_end, trim_seq, trim_start};

verus! {

// ---------------------------------------------------------------------------
// Configuration
// ---------------------------------------------------------------------------

/// Neither end is whitespace.
pub open spec fn tight(s: Seq<char>) -> bool {
    s.len() == 0 || (!is_ws(s[0]) && !is_ws(s.last()))
}

proof fn lemma_trim_start_suffix(s: Seq<char>)
    ensures
        exists|k: int| 0 <= k <= s.len() && trim_start(s) == s.subrange(k, s.len() as int),
        trim_start(s).len() == 0 || !is_ws(trim_start(s)[0]),
    decreases s.len(),
{
    if s.len() > 0 && is_ws(s[0]) {
        lemma_trim_start_suffix(s.drop_first());
        let k = choose|k: int| 0 <= k <= s.drop_first().len() && trim_start(s.drop_first()) == s.drop_first().subrange(k, s.drop_first().len() as int);
        assert(s.drop_first().subrange(k, s.drop_first().len() as int) =~= s.subrange(k + 1, s.len() as int));
    } else {
        assert(s.subrange(0, s.len() as int) =~= s);
    }
}

proof fn lemma_trim_end_prefix(s: Seq<char>)
    ensures
        exists|j: int| 0 <= j <= s.len() && trim_end(s) == s.subrange(0, j),
        trim_end(s).len() == 0 || !is_ws(trim_end(s).last()),
    decreases s.len(),
{
    if s.len() > 0 && is_ws(s.last()) {
        lemma_trim_end_prefix(s.drop_last());
        let j = choose|j: int| 0 <= j <= s.drop_last().len() && trim_end(s.drop_last()) == s.drop_last().subrange(0, j);
        assert(s.drop_last().subrange(0, j) =~= s.subrange(0, j));
    } else {
        assert(s.subrange(0, s.len() as int) =~= s);
    }
}

proof fn lemma_trimmed_tight(s: Seq<char>)
    ensures
        tight(trim_seq(s)),
{
    let u = trim_start(s);
    lemma_trim_start_suffix(s);
    lemma_trim_end_prefix(u);
    let r = trim_end(u);
    if r.len() > 0 {
        let j = choose|j: int| 0 <= j <= u.len() && trim_end(u) == u.subrange(0, j);
        assert(r[0] == u[0]);
    }
}

proof fn lemma_tight_trim_fixed(s: Seq<char>)
    requires
        tight(s),
    ensures
        trim_seq(s) == s,
{
    assert(trim_start(s) == s);
    assert(trim_end(s) == s);
}

proof fn lemma_lower_char(c: char)
    ensures
        is_ws(ascii_lower(c)) == is_ws(c),
        ascii_lower(ascii_lower(c)) == ascii_lower(c),
        (ascii_lower(c) == '.') == (c == '.'),
{
    if 'A' <= c && c <= 'Z' {
        let d = ((c as u32) + 32) as char;
        assert('a' <= d && d <= 'z');
    }
}

proof fn lemma_lower_tight(t: Seq<char>)
    requires
        tight(t),
    ensures
        tight(lower_seq(t)),
        lower_seq(lower_seq(t)) == lower_seq(t),
{
    let l = lower_seq(t);
    if t.len() > 0 {
        lemma_lower_char(t[0]);
        lemma_lower_char(t.last());
        assert(l[0] == ascii_lower(t[0]));
        assert(l.last() == ascii_lower(t.last()));
    }
    assert forall|i: int| 0 <= i < l.len() implies #[trigger] lower_seq(l)[i] == l[i] by {
        lemma_lower_char(t[i]);
    }
    assert(lower_seq(l) =~= l);
}

/// Normalizing a configured extension a second time changes nothing: trimming,
/// lowercasing and the leading dot are each done once and for all.
pub proof fn law_extension_normalization_idempotent(x: Seq<char>)
    ensures
        normalized_extension(normalized_extension(x)) == normalized_extension(x),
{
    let tr = trim_seq(x);
    lemma_trimmed_tight(x);
    let t = lower_seq(tr);
    lemma_lower_tight(tr);
    let y = normalized_extension(x);
    if t.len() > 0 && t[0] != '.' {
        assert(y == seq!['.'] + t);
        assert(tight(y)) by {
            assert(y.last() == t.last());
        }
        lemma_tight_trim_fixed(y);
        assert(lower_seq(y) =~= seq!['.'] + lower_seq(t)) by {
            lemma_lower_char('.');
        }
        assert(lower_seq(y) =~= y);
    } else {
        assert(y == t);
        lemma_tight_trim_fixed(t);
        assert(lower_seq(t) == t);
    }
}

pub open spec fn sets_mode(l: PartialConfig) -> bool {
    l.general matches Some(g) && g.default_mode is Some
}

pub open spec fn sets_conflict(l: PartialConfig) -> bool {
    l.general matches Some(g) && g.conflict_mode is Some
}

pub open spec fn sets_api_key(l: PartialConfig) -> bool {
    l.tmdb matches Some(t) && t.api_key is Some
}

pub open spec fn sets_non_media(l: PartialConfig) -> bool {
    l.non_media matches Some(n) && n.mode is Some
}

pub open spec fn sets_auto_confirm(l: PartialConfig) -> bool {
    l.general matches Some(g) && g.auto_confirm is Some
}

pub open spec fn sets_clean(l: PartialConfig) -> bool {
    l.general matches Some(g) && g.clean_empty_dirs is Some
}

pub open spec fn sets_log_file(l: PartialConfig) -> bool {
    l.general matches Some(g) && g.log_file is Some
}

pub open spec fn sets_video(l: PartialConfig) -> bool {
    l.media_extensions matches Some(m) && m.video is Some
}

/// The configuration files are read global, then local, then explicit, and a later file
/// wins: a setting has the value of the last file that sets it (here the operation
/// mode, the conflict mode, the TMDB key and the non-media mode).
pub proof fn law_last_layer_wins(layers: Seq<PartialConfig>, i: int)
    requires
        0 <= i < layers.len(),
    ensures
        sets_mode(layers[i]) && (forall|j: int| i < j < layers.len() ==> !sets_mode(#[trigger] layers[j]))
            ==> layered_mode(layers) == layers[i].general->0.default_mode->0,
        sets_conflict(layers[i]) && (forall|j: int| i < j < layers.len() ==> !sets_conflict(#[trigger] layers[j]))
            ==> layered_conflict(layers) == layers[i].general->0.conflict_mode->0,
        sets_api_key(layers[i]) && (forall|j: int| i < j < layers.len() ==> !sets_api_key(#[trigger] layers[j]))
            ==> layered_api_key(layers) == trim_seq(layers[i].tmdb->0.api_key->0@),
        sets_non_media(layers[i]) && (forall|j: int| i < j < layers.len() ==> !sets_non_media(#[trigger] layers[j]))
            ==> layered_non_media(layers) == layers[i].non_media->0.mode->0,
        sets_auto_confirm(layers[i]) && (forall|j: int| i < j < layers.len() ==> !sets_auto_confirm(#[trigger] layers[j]))
            ==> layered_auto_confirm(layers) == layers[i].general->0.auto_confirm->0,
        sets_clean(layers[i]) && (forall|j: int| i < j < layers.len() ==> !sets_clean(#[trigger] layers[j]))
            ==> layered_clean(layers) == layers[i].general->0.clean_empty_dirs->0,
        sets_log_file(layers[i]) && (forall|j: int| i < j < layers.len() ==> !sets_log_file(#[trigger] layers[j]))
            ==> layered_log_file(layers) == normalized_log_file(Some(layers[i].general->0.log_file->0@)),
        sets_video(layers[i]) && (forall|j: int| i < j < layers.len() ==> !sets_video(#[trigger] layers[j]))
            ==> layered_list(layers, 0) == normalized_views(layers[i].media_extensions->0.video->0@),
    decreases layers.len(),
{
    if i < layers.len() - 1 {
        let prev = layers.drop_last();
        law_last_layer_wins(prev, i);
        assert forall|j: int| i < j < prev.len() implies prev[j] == layers[j] by {}
        assert(prev[i] == layers[i]);
        let l = layers[layers.len() - 1];
        assert(layers.last() == l);
    }
}

/// Merging a configuration file that sets nothing in `[general]` changes nothing.
pub proof fn law_empty_general_merge_is_identity(before: GeneralConfig, incoming: PartialGeneralConfig, after: GeneralConfig)
    requires
        incoming.default_mode is None,
        incoming.auto_confirm is None,
        incoming.clean_empty_dirs is None,
        incoming.conflict_mode is None,
        incoming.log_file is None,
        GeneralConfig::merged(before, incoming, after),
    ensures
        after.default_mode == before.default_mode,
        after.auto_confirm == before.auto_confirm,
        after.clean_empty_dirs == before.clean_empty_dirs,
        after.conflict_mode == before.conflict_mode,
        after.log_file.deep_view() == before.log_file.deep_view(),
{
}

// ---------------------------------------------------------------------------
// Plans
// ---------------------------------------------------------------------------

/// How many of the parsed files have a path.
pub open spec fn with_path(parsed: Seq<MediaInfo>) -> nat
    decreases parsed.len(),
{
    if parsed.len() == 0 {
        0
    } else {
        with_path(parsed.drop_last()) + if parsed.last().full_path is Some {
            1nat
        } else {
            0nat
        }
    }
}

/// Every parsed video file with a path either gets an operation or is reported as left
/// out, never both and never neither.
pub proof fn law_plan_accounts_for_every_video(
    parsed: Seq<MediaInfo>,
    media: MediaType,
    root: Seq<char>,
    ft: Option<Seq<char>>,
    fy: Option<u16>,
    kind: OperationKind,
)
    ensures
        planned_ops(parsed, media, root, ft, fy, kind).len() + planned_skips(parsed, media, root, ft, fy).len() == with_path(
            parsed,
        ),
    decreases parsed.len(),
{
    if parsed.len() > 0 {
        law_plan_accounts_for_every_video(parsed.drop_last(), media, root, ft, fy, kind);
    }
}

/// A conflict is always the destination of one of the planned operations.
pub proof fn law_conflicts_are_destinations(ops: Seq<OpView>, entries: Seq<crate::planner::PathState>, c: int)
    requires
        0 <= c < conflicts_of(ops, entries).len(),
    ensures
        exists|k: int| 0 <= k < ops.len() && ops[k].1 == conflicts_of(ops, entries)[c],
    decreases ops.len(),
{
    let prev = conflicts_of(ops.drop_last(), entries);
    if c < prev.len() {
        law_conflicts_are_destinations(ops.drop_last(), entries, c);
        let k = choose|k: int| 0 <= k < ops.drop_last().len() && ops.drop_last()[k].1 == prev[c];
        assert(ops[k] == ops.drop_last()[k]);
    } else {
        assert(ops[ops.len() - 1].1 == conflicts_of(ops, entries)[c]);
    }
}

/// A file joined onto a folder lies in that folder under its own name (for a plain
/// name: not empty, no `/`, not `..`; and a folder that does not end in `/`).
pub proof fn law_join_places_file_in_folder(base: Seq<char>, name: Seq<char>)
    requires
        base.len() > 0,
        base.last() != '/',
        name.len() > 0,
        forall|k: int| 0 <= k < name.len() ==> name[k] != '/',
        name != seq!['.', '.'],
    ensures
        parent_of(joined(base, name)) == Some(base),
        file_name_of(joined(base, name)) == Some(name),
{
    let p = joined(base, name);
    assert(p == base + seq!['/'] + name);
    let i = base.len() as int;
    lemma_last_index_of(p, '/');
    assert(p[i] == '/');
    assert(last_index_of(p, '/') == Some(i)) by {
        lemma_last_from_back(p, i);
    }
    assert(p.subrange(0, i) =~= base);
    assert(p.subrange(i + 1, p.len() as int) =~= name);
    if i == 0 {
    }
}

/// A plain file name: not empty, no `/`, not `..`.
pub open spec fn plain_name(name: Seq<char>) -> bool {
    &&& name.len() > 0
    &&& forall|k: int| 0 <= k < name.len() ==> name[k] != '/'
    &&& name != seq!['.', '.']
}

/// Joining a plain name onto any folder keeps the name as the last component.
pub proof fn law_join_keeps_name(base: Seq<char>, name: Seq<char>)
    requires
        plain_name(name),
    ensures
        file_name_of(joined(base, name)) == Some(name),
{
    let p = joined(base, name);
    lemma_last_index_of(p, '/');
    if base.len() == 0 {
        assert(p == name);
        assert(last_index_of(p, '/') is None);
        assert(p.subrange(0, p.len() as int) =~= name);
    } else if base.last() == '/' {
        assert(p == base + name);
        let i = base.len() - 1;
        assert(p[i] == '/');
        assert(forall|k: int| i < k < p.len() ==> p[k] == name[k - base.len()]);
        lemma_last_from_back(p, i);
        assert(p.subrange(i + 1, p.len() as int) =~= name);
    } else {
        assert(p == base + seq!['/'] + name);
        let i = base.len() as int;
        assert(p[i] == '/');
        assert(forall|k: int| i < k < p.len() ==> p[k] == name[k - base.len() - 1]);
        lemma_last_from_back(p, i);
        assert(p.subrange(i + 1, p.len() as int) =~= name);
    }
}

/// Each parsed file's name is the last component of its path and a plain name.
pub open spec fn names_match_paths(parsed: Seq<MediaInfo>) -> bool {
    forall|k: int|
        0 <= k < parsed.len() && (#[trigger] parsed[k].full_path.deep_view()) is Some ==> {
            &&& file_name_of(parsed[k].full_path.deep_view()->0) == Some(parsed[k].original_filename@)
            &&& plain_name(parsed[k].original_filename@)
        }
}

/// Files are not renamed: every video operation's destination ends in the same file
/// name as its source.
pub proof fn law_files_keep_their_names(
    parsed: Seq<MediaInfo>,
    media: MediaType,
    root: Seq<char>,
    ft: Option<Seq<char>>,
    fy: Option<u16>,
    kind: OperationKind,
)
    requires
        names_match_paths(parsed),
    ensures
        forall|j: int|
            0 <= j < planned_ops(parsed, media, root, ft, fy, kind).len() ==> file_name_of(
                (#[trigger] planned_ops(parsed, media, root, ft, fy, kind)[j]).1,
            ) == file_name_of(planned_ops(parsed, media, root, ft, fy, kind)[j].0),
    decreases parsed.len(),
{
    if parsed.len() > 0 {
        let prev = parsed.drop_last();
        assert(names_match_paths(prev)) by {
            assert forall|k: int| 0 <= k < prev.len() && (#[trigger] prev[k].full_path.deep_view()) is Some implies {
                &&& file_name_of(prev[k].full_path.deep_view()->0) == Some(prev[k].original_filename@)
                &&& plain_name(prev[k].original_filename@)
            } by {
                assert(prev[k] == parsed[k]);
            }
        }
        law_files_keep_their_names(prev, media, root, ft, fy, kind);
        let info = parsed.last();
        let ops = planned_ops(parsed, media, root, ft, fy, kind);
        let pops = planned_ops(prev, media, root, ft, fy, kind);
        if info.full_path.deep_view() is Some {
            assert(parsed[parsed.len() - 1] == info);
            match crate::planner::planned_destination(media, info, root, ft, fy) {
                Ok(d) => {
                    let name = info.original_filename@;
                    match media {
                        MediaType::Show => {
                            let t = crate::planner::resolved_title(info, ft)->0;
                            let base = joined(
                                joined(root, crate::planner::folder_name(t, crate::planner::resolved_year(info, fy))),
                                crate::planner::season_folder(info.season->0),
                            );
                            law_join_keeps_name(base, name);
                        },
                        MediaType::Movie => {
                            let f = crate::planner::movie_folder_of(info, root, ft, fy)->0;
                            law_join_keeps_name(f, name);
                        },
                    }
                    assert forall|j: int| 0 <= j < ops.len() implies file_name_of((#[trigger] ops[j]).1) == file_name_of(ops[j].0) by {
                        if j < pops.len() {
                            assert(ops[j] == pops[j]);
                        }
                    }
                },
                Err(_) => {},
            }
        }
    }
}

/// Each scanned file's name is the last component of its path and a plain name.
pub open spec fn files_named(files: Seq<crate::scanner::ScannedFile>) -> bool {
    forall|k: int|
        0 <= k < files.len() ==> {
            &&& file_name_of((#[trigger] files[k]).path@) == Some(files[k].file_name@)
            &&& plain_name(files[k].file_name@)
        }
}

/// Files carried along with the videos are not renamed either.
pub proof fn law_carried_files_keep_their_names(
    files: Seq<crate::scanner::ScannedFile>,
    primary: Seq<OpView>,
    parsed: Seq<MediaInfo>,
    root: Seq<char>,
    ft: Option<Seq<char>>,
    fy: Option<u16>,
    kind: OperationKind,
)
    requires
        files_named(files),
    ensures
        forall|j: int|
            0 <= j < crate::planner::show_attached(files, primary, kind).len() ==> file_name_of(
                (#[trigger] crate::planner::show_attached(files, primary, kind)[j]).1,
            ) == file_name_of(crate::planner::show_attached(files, primary, kind)[j].0),
        forall|j: int|
            0 <= j < crate::planner::movie_attached(files, parsed, root, ft, fy, kind).len() ==> file_name_of(
                (#[trigger] crate::planner::movie_attached(files, parsed, root, ft, fy, kind)[j]).1,
            ) == file_name_of(crate::planner::movie_attached(files, parsed, root, ft, fy, kind)[j].0),
    decreases files.len(),
{
    if files.len() > 0 {
        let prev = files.drop_last();
        assert(files_named(prev)) by {
            assert forall|k: int| 0 <= k < prev.len() implies {
                &&& file_name_of((#[trigger] prev[k]).path@) == Some(prev[k].file_name@)
                &&& plain_name(prev[k].file_name@)
            } by {
                assert(prev[k] == files[k]);
            }
        }
        law_carried_files_keep_their_names(prev, primary, parsed, root, ft, fy, kind);
        let f = files.last();
        assert(files[files.len() - 1] == f);
        let sa = crate::planner::show_attached(files, primary, kind);
        let psa = crate::planner::show_attached(prev, primary, kind);
        let ma = crate::planner::movie_attached(files, parsed, root, ft, fy, kind);
        let pma = crate::planner::movie_attached(prev, parsed, root, ft, fy, kind);
        assert forall|base: Seq<char>| #[trigger] file_name_of(joined(base, f.file_name@)) == Some(f.file_name@) by {
            law_join_keeps_name(base, f.file_name@);
        }
        assert forall|j: int| 0 <= j < sa.len() implies file_name_of((#[trigger] sa[j]).1) == file_name_of(sa[j].0) by {
            if j < psa.len() {
                assert(sa[j] == psa[j]);
            }
        }
        assert forall|j: int| 0 <= j < ma.len() implies file_name_of((#[trigger] ma[j]).1) == file_name_of(ma[j].0) by {
            if j < pma.len() {
                assert(ma[j] == pma[j]);
            }
        }
    }
}

proof fn lemma_last_from_back(p: Seq<char>, i: int)
    requires
        0 <= i < p.len(),
        p[i] == '/',
        forall|k: int| i < k < p.len() ==> p[k] != '/',
    ensures
        last_index_of(p, '/') == Some(i),
    decreases p.len(),
{
    if p.len() - 1 > i {
        lemma_last_from_back(p.drop_last(), i);
    }
}

// ---------------------------------------------------------------------------
// Scan reports
// ---------------------------------------------------------------------------

/// Every report is counted once as parsed or failed, once as with or without a year, a
/// season and an episode, and once as a show, a movie or unknown.
pub proof fn law_summary_counts_partition(items: Seq<ScanItemReport>)
    ensures
        tally(items, Tally::Titled) + tally(items, Tally::Untitled) == items.len(),
        tally(items, Tally::WithYear) + tally(items, Tally::WithoutYear) == items.len(),
        tally(items, Tally::WithSeason) + tally(items, Tally::WithoutSeason) == items.len(),
        tally(items, Tally::WithEpisode) + tally(items, Tally::WithoutEpisode) == items.len(),
        tally(items, Tally::Show) + tally(items, Tally::Movie) + tally(items, Tally::Unknown) == items.len(),
    decreases items.len(),
{
    if items.len() > 0 {
        law_summary_counts_partition(items.drop_last());
        let info = items.last().info;
        lemma_kinds_distinct();
    }
}

proof fn lemma_kinds_distinct()
    ensures
        "show"@ != "movie"@,
        "show"@ != "unknown"@,
        "movie"@ != "unknown"@,
{
    reveal_strlit("show");
    reveal_strlit("movie");
    reveal_strlit("unknown");
    assert("show"@[0] != "movie"@[0]);
    assert("show"@[0] != "unknown"@[0]);
    assert("movie"@[0] != "unknown"@[0]);
}

/// Confidence levels rank high over medium over low over anything else.
pub proof fn law_confidence_ranks_ordered(other: Seq<char>)
    requires
        other != "high"@,
        other != "medium"@,
        other != "low"@,
    ensures
        rank_of("high"@) > rank_of("medium"@),
        rank_of("medium"@) > rank_of("low"@),
        rank_of("low"@) > rank_of(other),
{
    reveal_strlit("high");
    reveal_strlit("medium");
    reveal_strlit("low");
    assert("medium"@[0] != "high"@[0]);
    assert("low"@[0] != "high"@[0]);
    assert("low"@[0] != "medium"@[0]);
}

/// Filters only ever narrow: a file shown at a higher minimum confidence is shown at a
/// lower one, and a file shown with `--only-failed` is shown without it.
pub proof fn law_scan_filters_narrow(info: MediaInfo, low: u8, high: u8)
    requires
        low <= high,
    ensures
        included(info, false, high) ==> included(info, false, low),
        included(info, true, high) ==> included(info, true, low),
        included(info, true, low) ==> included(info, false, low),
{
}

// ---------------------------------------------------------------------------
// Answers and years
// ---------------------------------------------------------------------------

/// A season or episode answer only fills what is missing, and giving the same answer
/// again changes nothing more.
pub proof fn law_answers_only_fill_gaps(a: MediaInfo, res: ShowGroupResolution, b: MediaInfo, c: MediaInfo)
    requires
        filled(a, res, b),
        filled(b, res, c),
    ensures
        a.season is Some ==> b.season == a.season,
        a.episode is Some ==> b.episode == a.episode,
        same_info(b, c),
{
}

/// Files of the same title that had no year end with the same year.
pub proof fn law_same_title_same_year<L: MetadataLookup>(
    before: Seq<MediaInfo>,
    after: Seq<MediaInfo>,
    years: Seq<Option<u16>>,
    yes_mode: bool,
    answers: Seq<Option<u16>>,
    lookup: L,
    media_type: MediaType,
    k1: int,
    k2: int,
)
    requires
        years_resolved(before, after, years, yes_mode, answers, lookup, media_type),
        0 <= k1 < before.len(),
        0 <= k2 < before.len(),
        before[k1].year is None,
        before[k2].year is None,
        before[k1].title.deep_view() == before[k2].title.deep_view(),
    ensures
        after[k1].year == after[k2].year,
{
    assert(after[k1].year == year_after(before[k1], titles_without_year(before), years));
    assert(after[k2].year == year_after(before[k2], titles_without_year(before), years));
}

// ---------------------------------------------------------------------------
// Display
// ---------------------------------------------------------------------------

/// A shortened name fits its limit (for limits of 8 and more), and a name that already
/// fits is left as it is.
pub proof fn law_truncation_fits(value: Seq<char>, max_len: nat)
    ensures
        max_len >= 8 ==> truncated(value, max_len).len() <= max_len,
        value.len() <= max_len ==> truncated(value, max_len) == value,
{
    reveal_strlit("...");
}


// ---------------------------------------------------------------------------
// Name normalisation
// ---------------------------------------------------------------------------

/// A word: not empty, and free of separators.
pub open spec fn plain_word(w: Seq<char>) -> bool {
    w.len() > 0 && forall|i: int| 0 <= i < w.len() ==> !is_name_sep(#[trigger] w[i])
}

/// Every character is a space or not a separator, no space starts or ends the text, and
/// no two spaces stand side by side.
pub open spec fn single_spaced(t: Seq<char>) -> bool {
    &&& forall|i: int| 0 <= i < t.len() ==> #[trigger] t[i] == ' ' || !is_name_sep(t[i])
    &&& t.len() > 0 ==> t[0] != ' ' && t.last() != ' '
    &&& forall|i: int, j: int| 0 <= i && j == i + 1 && j < t.len() && #[trigger] t[i] == ' ' ==> #[trigger] t[j] != ' '
}

proof fn lemma_words_plain(s: Seq<char>)
    ensures
        forall|j: int| 0 <= j < words(s).len() ==> plain_word(#[trigger] words(s)[j]),
    decreases s.len(),
{
    if s.len() > 0 {
        lemma_words_plain(s.drop_last());
        let w = words(s.drop_last());
        let c = s.last();
        if is_name_sep(c) {
        } else if s.len() >= 2 && !is_name_sep(s[s.len() - 2]) {
            lemma_words_nonempty_when_last_is_word_char(s.drop_last());
            let u = w.update(w.len() - 1, w.last().push(c));
            assert forall|j: int| 0 <= j < u.len() implies plain_word(#[trigger] u[j]) by {
                if j == w.len() - 1 {
                    assert(plain_word(w[j]));
                    let x = w.last().push(c);
                    assert forall|i: int| 0 <= i < x.len() implies !is_name_sep(#[trigger] x[i]) by {
                        if i < w.last().len() {
                            assert(x[i] == w.last()[i]);
                        }
                    }
                } else {
                    assert(u[j] == w[j]);
                }
            }
        } else {
            let u = w.push(seq![c]);
            assert forall|j: int| 0 <= j < u.len() implies plain_word(#[trigger] u[j]) by {
                if j < w.len() {
                    assert(u[j] == w[j]);
                }
            }
        }
    }
}

proof fn lemma_words_append_plain(a: Seq<char>, w: Seq<char>)
    requires
        plain_word(w),
        a.len() == 0 || is_name_sep(a.last()),
    ensures
        words(a + w) == words(a).push(w),
    decreases w.len(),
{
    let t = a + w;
    if w.len() == 1 {
        assert(t.drop_last() =~= a);
        assert(t.last() == w[0]);
        assert(!is_name_sep(w[0]));
        if t.len() >= 2 {
            assert(t[t.len() - 2] == a.last());
        }
        assert(seq![w[0]] =~= w);
    } else {
        let w1 = w.drop_last();
        assert forall|i: int| 0 <= i < w1.len() implies !is_name_sep(#[trigger] w1[i]) by {
            assert(w1[i] == w[i]);
        }
        lemma_words_append_plain(a, w1);
        assert(t.drop_last() =~= a + w1);
        assert(t[t.len() - 2] == w[w.len() - 2]);
        assert(!is_name_sep(w[w.len() - 2]));
        assert(!is_name_sep(w.last()));
        let ws = words(a).push(w1);
        assert(w1.push(w.last()) =~= w);
        assert(ws.update(ws.len() - 1, ws.last().push(w.last())) =~= words(a).push(w));
    }
}

proof fn lemma_join_roundtrip(ws: Seq<Seq<char>>)
    requires
        forall|j: int| 0 <= j < ws.len() ==> plain_word(#[trigger] ws[j]),
    ensures
        words(join_words(ws)) == ws,
    decreases ws.len(),
{
    if ws.len() == 1 {
        assert(plain_word(ws[0]));
        lemma_words_append_plain(Seq::<char>::empty(), ws[0]);
        assert(Seq::<char>::empty() + ws[0] =~= ws[0]);
        assert(Seq::<Seq<char>>::empty().push(ws[0]) =~= ws);
    } else if ws.len() > 1 {
        let p = ws.drop_last();
        assert forall|j: int| 0 <= j < p.len() implies plain_word(#[trigger] p[j]) by {
            assert(p[j] == ws[j]);
        }
        lemma_join_roundtrip(p);
        let a = join_words(p) + seq![' '];
        assert(a.last() == ' ');
        assert(plain_word(ws.last()));
        lemma_words_append_plain(a, ws.last());
        assert(a.drop_last() =~= join_words(p));
        assert(words(a) == words(join_words(p)));
        assert(p.push(ws.last()) =~= ws);
    }
}

proof fn lemma_join_single_spaced(ws: Seq<Seq<char>>)
    requires
        forall|j: int| 0 <= j < ws.len() ==> plain_word(#[trigger] ws[j]),
    ensures
        single_spaced(join_words(ws)),
        ws.len() > 0 ==> join_words(ws).len() > 0,
    decreases ws.len(),
{
    if ws.len() == 1 {
        assert(plain_word(ws[0]));
        let t = ws[0];
        assert forall|i: int, j: int| 0 <= i && j == i + 1 && j < t.len() && #[trigger] t[i] == ' ' implies #[trigger] t[j] != ' ' by {
            assert(!is_name_sep(t[i]));
        }
        assert(!is_name_sep(t[0]));
        assert(!is_name_sep(t[t.len() - 1]));
    } else if ws.len() > 1 {
        let p = ws.drop_last();
        assert forall|j: int| 0 <= j < p.len() implies plain_word(#[trigger] p[j]) by {
            assert(p[j] == ws[j]);
        }
        lemma_join_single_spaced(p);
        let q = join_words(p);
        let w = ws.last();
        assert(plain_word(w));
        let t = join_words(ws);
        assert(t == q + seq![' '] + w);
        let n = q.len() as int;
        assert forall|i: int| 0 <= i < t.len() implies #[trigger] t[i] == ' ' || !is_name_sep(t[i]) by {
            if i < n {
                assert(t[i] == q[i]);
            } else if i > n {
                assert(t[i] == w[i - n - 1]);
            }
        }
        assert(t[0] == q[0]);
        assert(t.last() == w[w.len() - 1]);
        assert(!is_name_sep(w[w.len() - 1]));
        assert forall|i: int, j: int| 0 <= i && j == i + 1 && j < t.len() && #[trigger] t[i] == ' ' implies #[trigger] t[j] != ' ' by {
            if j < n {
                assert(t[i] == q[i]);
                assert(t[j] == q[j]);
            } else if j == n {
                assert(t[i] == q[n - 1]);
            } else if j == n + 1 {
                assert(t[j] == w[0]);
                assert(!is_name_sep(w[0]));
            } else {
                assert(t[i] == w[i - n - 1]);
                assert(!is_name_sep(w[i - n - 1]));
            }
        }
    }
}

/// Normalizing a name a second time changes nothing, and a normalized name holds no `.`
/// and no `_`: its words are separated by single spaces, with none at either end.
pub proof fn law_normalize_name_is_stable(s: Seq<char>)
    ensures
        normalize_spec(normalize_spec(s)) == normalize_spec(s),
        !normalize_spec(s).contains('.'),
        !normalize_spec(s).contains('_'),
        single_spaced(normalize_spec(s)),
{
    lemma_words_plain(s);
    lemma_join_roundtrip(words(s));
    lemma_join_single_spaced(words(s));
    let t = normalize_spec(s);
    if t.contains('.') {
        let i = choose|i: int| 0 <= i < t.len() && t[i] == '.';
        assert(t[i] == ' ' || !is_name_sep(t[i]));
    }
    if t.contains('_') {
        let i = choose|i: int| 0 <= i < t.len() && t[i] == '_';
        assert(t[i] == ' ' || !is_name_sep(t[i]));
    }
}


// ---------------------------------------------------------------------------
// Reading release names
// ---------------------------------------------------------------------------

/// A parsed video file takes each field from its own name, and only where the name gives
/// none from its folder: the folder's title, the folder's year, the folder's season (a
/// specials or extras folder meaning season 0). The episode comes from the name alone.
/// `own` is what the file's name alone parses to.
pub proof fn law_show_file_fills_gaps_from_folder(f: ScannedFile, r: MediaInfo, own: MediaInfo)
    requires
        show_file_info(r, f),
        show_info(own, f.file_name@),
    ensures
        own.title is Some ==> r.title.deep_view() == own.title.deep_view(),
        own.year is Some ==> r.year == own.year,
        own.year is None ==> r.year == year_spec(f.parent_name@),
        own.season is Some ==> r.season == own.season,
        own.season is None && season_spec(f.parent_name@) is Some ==> r.season == season_spec(f.parent_name@),
        own.season is None && season_spec(f.parent_name@) is None && is_extras_name(f.parent_name@) ==> r.season
            == Some(0u16),
        r.episode == own.episode,
{
}

/// A parsed movie file takes its title and year from its own name, and only where the
/// name gives none from its folder. `own` is what the file's name alone parses to.
pub proof fn law_movie_file_fills_gaps_from_folder(f: ScannedFile, r: MediaInfo, own: MediaInfo)
    requires
        movie_file_info(r, f),
        movie_info(own, f.file_name@),
    ensures
        own.title is Some ==> r.title.deep_view() == own.title.deep_view(),
        own.year is Some ==> r.year == own.year,
        own.year is None ==> r.year == year_spec(f.parent_name@),
        r.season is None,
        r.episode is None,
{
}

/// An episode code decides season and episode in that order: the number after the `S`
/// is the season and the number after the first `E` the episode, whether the code stands
/// alone (`S01E05`), lists more episodes (`S01E05E06`) or spans a range (`S01E05-E06`).
/// The first of these forms that matches is read. Without such a code, `NxM` and
/// "Season N Episode M" likewise give the season first and the episode second.
pub proof fn law_episode_code_reads_season_then_episode(n: Seq<char>)
    ensures
        regex_captures(PATTERN_MULTI@, n) is Some ==> season_episode_spec(n) == (
            group_u16(regex_captures(PATTERN_MULTI@, n), 1),
            group_u16(regex_captures(PATTERN_MULTI@, n), 2),
        ),
        regex_captures(PATTERN_MULTI@, n) is None && regex_captures(PATTERN_RANGE@, n) is Some ==> season_episode_spec(n) == (
            group_u16(regex_captures(PATTERN_RANGE@, n), 1),
            group_u16(regex_captures(PATTERN_RANGE@, n), 2),
        ),
        regex_captures(PATTERN_MULTI@, n) is None && regex_captures(PATTERN_RANGE@, n) is None && regex_captures(
            PATTERN_SE@,
            n,
        ) is Some ==> season_episode_spec(n) == (
            group_u16(regex_captures(PATTERN_SE@, n), 1),
            group_u16(regex_captures(PATTERN_SE@, n), 2),
        ),
        no_episode_code(n) && regex_captures(PATTERN_X@, n) is Some ==> season_episode_spec(n) == (
            group_u16(regex_captures(PATTERN_X@, n), 1),
            group_u16(regex_captures(PATTERN_X@, n), 2),
        ),
        no_episode_code(n) && regex_captures(PATTERN_X@, n) is None && regex_captures(PATTERN_SEASON_EPISODE_WORD@, n)
            is Some ==> season_episode_spec(n) == (
            group_u16(regex_captures(PATTERN_SEASON_EPISODE_WORD@, n), 1),
            group_u16(regex_captures(PATTERN_SEASON_EPISODE_WORD@, n), 2),
        ),
{
}

/// `n` holds no `SxxEyy` episode code in any of its forms.
pub open spec fn no_episode_code(n: Seq<char>) -> bool {
    &&& regex_captures(PATTERN_MULTI@, n) is None
    &&& regex_captures(PATTERN_RANGE@, n) is None
    &&& regex_captures(PATTERN_SE@, n) is None
}

/// A parse result with a season or an episode, either one, is reported as a show; one
/// with neither is a movie when it has a title.
pub proof fn law_season_or_episode_means_show(info: MediaInfo)
    ensures
        info.season is Some ==> kind_of(info) == "show"@,
        info.episode is Some ==> kind_of(info) == "show"@,
        info.season is None && info.episode is None && info.title is Some ==> kind_of(info) == "movie"@,
{
}

/// The title part of `n` ends at or before where `pat` first matches, if it matches.
pub open spec fn ends_before(n: Seq<char>, pat: Seq<char>) -> bool {
    match match_start(regex_captures(pat, n)) {
        Some(p) => boundary_spec(n) <= p,
        None => true,
    }
}

/// `t` is a contiguous piece of `s` that ends at or before position `end`.
pub open spec fn piece_before(t: Seq<char>, s: Seq<char>, end: int) -> bool {
    exists|a: int, b: int| 0 <= a <= b <= end && b <= s.len() && t == s.subrange(a, b)
}

proof fn lemma_upto_le_start(s: Seq<char>, k: int, i: int)
    requires
        0 <= i < k,
        match_start(regex_captures(boundary_pattern(i), s)) is Some,
    ensures
        boundary_upto(s, k) <= match_start(regex_captures(boundary_pattern(i), s))->0,
    decreases k,
{
    if k > i + 1 {
        lemma_upto_le_start(s, k - 1, i);
    }
}

proof fn lemma_strip_marks_prefix(s: Seq<char>)
    ensures
        exists|j: int| 0 <= j <= s.len() && strip_trailing_marks(s) == s.subrange(0, j),
    decreases s.len(),
{
    if s.len() > 0 && is_trailing_mark(s.last()) {
        lemma_strip_marks_prefix(s.drop_last());
        let j = choose|j: int| 0 <= j <= s.drop_last().len() && strip_trailing_marks(s.drop_last()) == s.drop_last().subrange(0, j);
        assert(s.drop_last().subrange(0, j) =~= s.subrange(0, j));
    } else {
        assert(s.subrange(0, s.len() as int) =~= s);
    }
}

proof fn lemma_piece_of_piece(u: Seq<char>, t: Seq<char>, s: Seq<char>, end: int, c: int, d: int)
    requires
        piece_before(t, s, end),
        0 <= c <= d <= t.len(),
        u == t.subrange(c, d),
    ensures
        piece_before(u, s, end),
{
    let (a, b) = choose|a: int, b: int| 0 <= a <= b <= end && b <= s.len() && t == s.subrange(a, b);
    assert(u =~= s.subrange(a + c, a + d));
}

proof fn lemma_trim_piece(t: Seq<char>, s: Seq<char>, end: int)
    requires
        piece_before(t, s, end),
    ensures
        piece_before(trim_seq(t), s, end),
{
    lemma_trim_start_suffix(t);
    let k = choose|k: int| 0 <= k <= t.len() && trim_start(t) == t.subrange(k, t.len() as int);
    lemma_piece_of_piece(trim_start(t), t, s, end, k, t.len() as int);
    let ts = trim_start(t);
    lemma_trim_end_prefix(ts);
    let j = choose|j: int| 0 <= j <= ts.len() && trim_end(ts) == ts.subrange(0, j);
    lemma_piece_of_piece(trim_end(ts), ts, s, end, 0, j);
}

/// The title never reaches past a boundary tag: it is a piece of the name that ends at or
/// before the first match of every boundary pattern (episode and season codes, years,
/// resolution, source, codec, audio, HDR and edition tags, bracketed tags).
pub proof fn law_title_ends_before_tags(n: Seq<char>)
    ensures
        title_spec(n) matches Some(t) ==> piece_before(t, n, boundary_spec(n)),
        ends_before(n, BOUNDARY_EPISODE_CODE@),
        ends_before(n, BOUNDARY_X_CODE@),
        ends_before(n, BOUNDARY_SEASON_EPISODE_WORDS@),
        ends_before(n, BOUNDARY_EPISODE_WORD@),
        ends_before(n, BOUNDARY_SEASON_CODE@),
        ends_before(n, BOUNDARY_SEASON_WORD@),
        ends_before(n, BOUNDARY_YEAR_PAREN@),
        ends_before(n, BOUNDARY_YEAR@),
        ends_before(n, BOUNDARY_RESOLUTION@),
        ends_before(n, BOUNDARY_SOURCE@),
        ends_before(n, BOUNDARY_CODEC@),
        ends_before(n, BOUNDARY_AUDIO@),
        ends_before(n, BOUNDARY_HDR@),
        ends_before(n, BOUNDARY_EDITION@),
        ends_before(n, BOUNDARY_BRACKET_TAG@),
{
    assert forall|i: int| 0 <= i < 15 implies ends_before(n, #[trigger] boundary_pattern(i)) by {
        if match_start(regex_captures(boundary_pattern(i), n)) is Some {
            lemma_upto_le_start(n, 15, i);
        }
    }
    assert(ends_before(n, boundary_pattern(0)));
    assert(ends_before(n, boundary_pattern(1)));
    assert(ends_before(n, boundary_pattern(2)));
    assert(ends_before(n, boundary_pattern(3)));
    assert(ends_before(n, boundary_pattern(4)));
    assert(ends_before(n, boundary_pattern(5)));
    assert(ends_before(n, boundary_pattern(6)));
    assert(ends_before(n, boundary_pattern(7)));
    assert(ends_before(n, boundary_pattern(8)));
    assert(ends_before(n, boundary_pattern(9)));
    assert(ends_before(n, boundary_pattern(10)));
    assert(ends_before(n, boundary_pattern(11)));
    assert(ends_before(n, boundary_pattern(12)));
    assert(ends_before(n, boundary_pattern(13)));
    assert(ends_before(n, boundary_pattern(14)));
    let end = boundary_spec(n);
    lemma_boundary_upto_bounded(n, 15);
    let candidate = if end < n.len() {
        n.subrange(0, end)
    } else {
        n
    };
    assert(candidate =~= n.subrange(0, end));
    assert(piece_before(candidate, n, end));
    lemma_trim_piece(candidate, n, end);
    let t1 = trim_seq(candidate);
    lemma_strip_marks_prefix(t1);
    let j = choose|j: int| 0 <= j <= t1.len() && strip_trailing_marks(t1) == t1.subrange(0, j);
    lemma_piece_of_piece(strip_trailing_marks(t1), t1, n, end, 0, j);
    lemma_trim_piece(strip_trailing_marks(t1), n, end);
    assert(clean_title_spec(candidate) == trim_seq(strip_trailing_marks(t1)));
}

} // verus!
