//! Filling in what the file names did not say: folder fallbacks, season and episode
//! answers per folder, and release years per title.
use vstd::prelude::*;

use crate::config::{str_eq, MediaType};
use crate::order::{group_by_key, indices_with_key, is_grouping, members_view};
use crate::parser::show::season_episode_spec;
use crate::parser::tokens::title_spec;
use crate::parser::{extract_season_from_input, extract_year_from_input, parse_movie, parse_show, season_spec, year_spec, MediaInfo};
use crate::paths::{parent, parent_of};
use crate::planner::{skips_view, UnparseableItem, UnparseableReason};
use crate::report::name_key;
use crate::scanner::ScannedFile;
use crate::text::{contains, contains_seq, copy_str, lower_seq, to_ascii_lowercase};
use crate::tmdb::{answered_year, MetadataLookup};

verus! {

// ---------------------------------------------------------------------------
// Copies of parse results
// ---------------------------------------------------------------------------

/// `a` and `b` hold the same values, field by field.
pub open spec fn same_info(a: MediaInfo, b: MediaInfo) -> bool {
    &&& a.title.deep_view() == b.title.deep_view()
    &&& a.year == b.year
    &&& a.season == b.season
    &&& a.episode == b.episode
    &&& a.extension@ == b.extension@
    &&& a.original_filename@ == b.original_filename@
    &&& a.full_path.deep_view() == b.full_path.deep_view()
}

fn copy_opt(v: &Option<String>) -> (r: Option<String>)
    ensures
        r.deep_view() == v.deep_view(),
{
    match v {
        Some(s) => Some(copy_str(s.as_str())),
        None => None,
    }
}

/// `info` with new year, season and episode.
fn with_numbers(info: &MediaInfo, year: Option<u16>, season: Option<u16>, episode: Option<u16>) -> (r: MediaInfo)
    ensures
        r.title.deep_view() == info.title.deep_view(),
        r.year == year,
        r.season == season,
        r.episode == episode,
        r.extension@ == info.extension@,
        r.original_filename@ == info.original_filename@,
        r.full_path.deep_view() == info.full_path.deep_view(),
{
    MediaInfo {
        title: copy_opt(&info.title),
        year,
        season,
        episode,
        extension: copy_str(info.extension.as_str()),
        original_filename: copy_str(info.original_filename.as_str()),
        full_path: copy_opt(&info.full_path),
    }
}

// ---------------------------------------------------------------------------
// Parsing the scanned video files
// ---------------------------------------------------------------------------

/// The folder name marks extras, featurettes, behind-the-scenes material or specials.
pub open spec fn is_extras_name(name: Seq<char>) -> bool {
    let n = lower_seq(name);
    ||| contains_seq(n, "extras"@)
    ||| contains_seq(n, "featurettes"@)
    ||| contains_seq(n, "behind the scenes"@)
    ||| contains_seq(n, "specials"@)
}

pub fn is_extras_folder(name: &str) -> (r: bool)
    ensures
        r == is_extras_name(name@),
{
    let lowered = to_ascii_lowercase(name);
    let n = lowered.as_str();
    contains(n, "extras") || contains(n, "featurettes") || contains(n, "behind the scenes") || contains(n, "specials")
}

/// What a show run reads for a video file: each field from the file name, else the
/// title, year and season from the parent folder's name, else season 0 for an extras
/// folder.
pub open spec fn show_file_info(info: MediaInfo, f: ScannedFile) -> bool {
    let n = name_key(f.file_name@);
    let (s0, e0) = season_episode_spec(n);
    &&& info.title.deep_view() == (if title_spec(n) is Some {
        title_spec(n)
    } else {
        title_spec(name_key(f.parent_name@))
    })
    &&& info.year == (if year_spec(n) is Some {
        year_spec(n)
    } else {
        year_spec(f.parent_name@)
    })
    &&& info.season == (if s0 is Some {
        s0
    } else if season_spec(f.parent_name@) is Some {
        season_spec(f.parent_name@)
    } else if is_extras_name(f.parent_name@) {
        Some(0u16)
    } else {
        None
    })
    &&& info.episode == e0
    &&& info.extension@ == f.extension@
    &&& info.original_filename@ == f.file_name@
    &&& info.full_path.deep_view() == Some(f.path@)
}

/// What a movie run reads for a video file: title and year from the file name, else
/// from the parent folder's name; no season or episode.
pub open spec fn movie_file_info(info: MediaInfo, f: ScannedFile) -> bool {
    let n = name_key(f.file_name@);
    &&& info.title.deep_view() == (if title_spec(n) is Some {
        title_spec(n)
    } else {
        title_spec(name_key(f.parent_name@))
    })
    &&& info.year == (if year_spec(n) is Some {
        year_spec(n)
    } else {
        year_spec(f.parent_name@)
    })
    &&& info.season is None
    &&& info.episode is None
    &&& info.extension@ == f.extension@
    &&& info.original_filename@ == f.file_name@
    &&& info.full_path.deep_view() == Some(f.path@)
}

/// Parses one video file for a show run.
pub fn parse_show_file(f: &ScannedFile) -> (r: MediaInfo)
    ensures
        show_file_info(r, *f),
{
    let mut item = parse_show(f.file_name.as_str());
    item.original_filename = copy_str(f.file_name.as_str());
    item.extension = copy_str(f.extension.as_str());
    item.full_path = Some(copy_str(f.path.as_str()));
    if item.title.is_none() {
        item.title = parse_show(f.parent_name.as_str()).title;
    }
    if item.year.is_none() {
        item.year = extract_year_from_input(f.parent_name.as_str());
    }
    if item.season.is_none() {
        item.season = extract_season_from_input(f.parent_name.as_str());
    }
    if item.season.is_none() && is_extras_folder(f.parent_name.as_str()) {
        item.season = Some(0);
    }
    item
}

/// Parses one video file for a movie run.
pub fn parse_movie_file(f: &ScannedFile) -> (r: MediaInfo)
    ensures
        movie_file_info(r, *f),
{
    let mut item = parse_movie(f.file_name.as_str());
    item.original_filename = copy_str(f.file_name.as_str());
    item.extension = copy_str(f.extension.as_str());
    item.full_path = Some(copy_str(f.path.as_str()));
    if item.title.is_none() {
        item.title = parse_movie(f.parent_name.as_str()).title;
    }
    if item.year.is_none() {
        item.year = extract_year_from_input(f.parent_name.as_str());
    }
    item
}

/// Parses every video file, in order, for a show run or a movie run.
pub fn parse_video_files(files: &Vec<ScannedFile>, media_type: MediaType) -> (r: Vec<MediaInfo>)
    ensures
        r@.len() == files@.len(),
        forall|k: int|
            0 <= k < files@.len() ==> (match media_type {
                MediaType::Show => show_file_info(#[trigger] r@[k], files@[k]),
                MediaType::Movie => movie_file_info(r@[k], files@[k]),
            }),
{
    let mut out: Vec<MediaInfo> = Vec::new();
    let mut i: usize = 0;
    while i < files.len()
        invariant
            i <= files@.len(),
            out@.len() == i,
            forall|k: int|
                0 <= k < i ==> (match media_type {
                    MediaType::Show => show_file_info(#[trigger] out@[k], files@[k]),
                    MediaType::Movie => movie_file_info(out@[k], files@[k]),
                }),
        decreases files.len() - i,
    {
        let item = match media_type {
            MediaType::Show => parse_show_file(&files[i]),
            MediaType::Movie => parse_movie_file(&files[i]),
        };
        out.push(item);
        i = i + 1;
    }
    out
}

// ---------------------------------------------------------------------------
// Show files without season or episode, by folder
// ---------------------------------------------------------------------------

/// The folder a file is grouped by when its season or episode is missing: its parent
/// path, or `.` when it has none; no folder when both are known.
pub open spec fn prompt_key(info: MediaInfo) -> Option<Seq<char>> {
    if info.season is Some && info.episode is Some {
        None
    } else {
        match info.full_path.deep_view() {
            Some(p) => match parent_of(p) {
                Some(q) => Some(q),
                None => Some("."@),
            },
            None => Some("."@),
        }
    }
}

pub open spec fn prompt_keys(parsed: Seq<MediaInfo>) -> Seq<Option<Seq<char>>> {
    Seq::new(parsed.len(), |k: int| prompt_key(parsed[k]))
}

/// The first title among the files at `idx`.
pub open spec fn first_title(parsed: Seq<MediaInfo>, idx: Seq<usize>) -> Option<Seq<char>>
    decreases idx.len(),
{
    if idx.len() == 0 {
        None
    } else {
        let prev = first_title(parsed, idx.drop_last());
        if prev is Some {
            prev
        } else {
            parsed[idx.last() as int].title.deep_view()
        }
    }
}

/// Some file at `idx` lacks a season (`season`) or an episode (`!season`).
pub open spec fn any_missing(parsed: Seq<MediaInfo>, idx: Seq<usize>, season: bool) -> bool
    decreases idx.len(),
{
    if idx.len() == 0 {
        false
    } else {
        any_missing(parsed, idx.drop_last(), season) || (if season {
            parsed[idx.last() as int].season is None
        } else {
            parsed[idx.last() as int].episode is None
        })
    }
}

/// The files of one folder that need a season or an episode.
#[derive(Debug, Clone)]
pub struct ShowPromptGroup {
    pub parent_path: String,
    pub title: Option<String>,
    pub indices: Vec<usize>,
    pub missing_season: bool,
    pub missing_episode: bool,
}

/// `groups` are the folders of the files that need a season or an episode, in folder
/// order, each with its files in order, the first title among them, and whether any of
/// them lacks a season or an episode.
pub open spec fn is_prompt_grouping(parsed: Seq<MediaInfo>, groups: Seq<ShowPromptGroup>) -> bool {
    &&& is_grouping(
        prompt_keys(parsed),
        groups.map_values(|g: ShowPromptGroup| g.parent_path@),
        groups.map_values(|g: ShowPromptGroup| g.indices@),
    )
    &&& forall|g: int|
        0 <= g < groups.len() ==> {
            &&& (#[trigger] groups[g]).title.deep_view() == first_title(parsed, groups[g].indices@)
            &&& groups[g].missing_season == any_missing(parsed, groups[g].indices@, true)
            &&& groups[g].missing_episode == any_missing(parsed, groups[g].indices@, false)
        }
}

proof fn lemma_indices_below(keys: Seq<Option<Seq<char>>>, k: Seq<char>)
    requires
        keys.len() <= usize::MAX,
    ensures
        forall|j: int| 0 <= j < indices_with_key(keys, k).len() ==> (#[trigger] indices_with_key(keys, k)[j]) < keys.len(),
    decreases keys.len(),
{
    if keys.len() > 0 {
        let prev = indices_with_key(keys.drop_last(), k);
        lemma_indices_below(keys.drop_last(), k);
        assert forall|j: int| 0 <= j < indices_with_key(keys, k).len() implies (#[trigger] indices_with_key(keys, k)[j]) < keys.len() by {
            if j < prev.len() {
                assert(indices_with_key(keys, k)[j] == prev[j]);
            }
        }
    }
}

/// Groups the files that need a season or an episode by folder.
pub fn collect_show_prompt_groups(parsed: &[MediaInfo]) -> (r: Vec<ShowPromptGroup>)
    ensures
        is_prompt_grouping(parsed@, r@),
{
    let ghost pk = prompt_keys(parsed@);
    let mut keys: Vec<Option<String>> = Vec::new();
    let mut i: usize = 0;
    while i < parsed.len()
        invariant
            i <= parsed@.len(),
            pk == prompt_keys(parsed@),
            keys.deep_view() == pk.take(i as int),
        decreases parsed.len() - i,
    {
        let item = &parsed[i];
        let key = if item.season.is_some() && item.episode.is_some() {
            None
        } else {
            match &item.full_path {
                Some(p) => match parent(p.as_str()) {
                    Some(q) => Some(q),
                    None => Some(copy_str(".")),
                },
                None => Some(copy_str(".")),
            }
        };
        let ghost before = keys.deep_view();
        keys.push(key);
        assert(keys.deep_view() =~= before.push(pk[i as int]));
        assert(pk.take(i + 1) =~= pk.take(i as int).push(pk[i as int]));
        i = i + 1;
    }
    assert(pk.take(pk.len() as int) =~= pk);
    let (gk, gm) = group_by_key(&keys);
    let ghost gkv = gk.deep_view();
    let ghost gmv = members_view(gm@);
    let mut groups: Vec<ShowPromptGroup> = Vec::new();
    let mut g: usize = 0;
    while g < gk.len()
        invariant
            pk == prompt_keys(parsed@),
            pk.len() == parsed@.len(),
            parsed@.len() <= usize::MAX,
            keys.deep_view() == pk,
            gkv == gk.deep_view(),
            gmv == members_view(gm@),
            is_grouping(pk, gkv, gmv),
            g <= gk.len(),
            groups@.len() == g,
            forall|h: int|
                0 <= h < g ==> {
                    &&& (#[trigger] groups@[h]).parent_path@ == gkv[h]
                    &&& groups@[h].indices@ == gmv[h]
                    &&& groups@[h].title.deep_view() == first_title(parsed@, gmv[h])
                    &&& groups@[h].missing_season == any_missing(parsed@, gmv[h], true)
                    &&& groups@[h].missing_episode == any_missing(parsed@, gmv[h], false)
                },
        decreases gk.len() - g,
    {
        let members = &gm[g];
        assert(members@ == gmv[g as int]);
        proof {
            assert(pk.len() == parsed@.len());
            lemma_indices_below(pk, gkv[g as int]);
        }
        let mut title: Option<String> = None;
        let mut missing_season = false;
        let mut missing_episode = false;
        let mut indices: Vec<usize> = Vec::new();
        let mut j: usize = 0;
        while j < members.len()
            invariant
                pk == prompt_keys(parsed@),
                members@ == indices_with_key(pk, gkv[g as int]),
                forall|q: int| 0 <= q < members@.len() ==> (#[trigger] members@[q]) < parsed@.len(),
                j <= members.len(),
                indices@ == members@.take(j as int),
                title.deep_view() == first_title(parsed@, members@.take(j as int)),
                missing_season == any_missing(parsed@, members@.take(j as int), true),
                missing_episode == any_missing(parsed@, members@.take(j as int), false),
            decreases members.len() - j,
        {
            let k = members[j];
            assert(members@.take(j + 1).drop_last() =~= members@.take(j as int));
            assert(members@.take(j + 1).last() == k);
            let item = &parsed[k];
            if title.is_none() {
                title = copy_opt(&item.title);
            }
            missing_season = missing_season || item.season.is_none();
            missing_episode = missing_episode || item.episode.is_none();
            indices.push(k);
            assert(indices@ =~= members@.take(j + 1));
            j = j + 1;
        }
        assert(members@.take(members@.len() as int) =~= members@);
        groups.push(
            ShowPromptGroup {
                parent_path: copy_str(gk[g].as_str()),
                title,
                indices,
                missing_season,
                missing_episode,
            },
        );
        g = g + 1;
    }
    assert(groups@.map_values(|x: ShowPromptGroup| x.parent_path@) =~= gkv);
    assert(groups@.map_values(|x: ShowPromptGroup| x.indices@) =~= gmv);
    groups
}

/// A season and an episode given for a folder of files.
#[derive(Debug, Clone, Copy, PartialEq, Eq)]
pub struct ShowGroupResolution {
    pub season: Option<u16>,
    pub episode: Option<u16>,
}

impl Default for ShowGroupResolution {
    fn default() -> (r: Self)
        ensures
            r.season is None,
            r.episode is None,
    {
        ShowGroupResolution { season: None, episode: None }
    }
}

/// `b` is `a` with a missing season or episode taken from `res`; what `a` has stays.
pub open spec fn filled(a: MediaInfo, res: ShowGroupResolution, b: MediaInfo) -> bool {
    &&& b.title.deep_view() == a.title.deep_view()
    &&& b.year == a.year
    &&& b.season == (if a.season is Some {
        a.season
    } else {
        res.season
    })
    &&& b.episode == (if a.episode is Some {
        a.episode
    } else {
        res.episode
    })
    &&& b.extension@ == a.extension@
    &&& b.original_filename@ == a.original_filename@
    &&& b.full_path.deep_view() == a.full_path.deep_view()
}

/// Fills the missing season and episode of the files at `indices` from `resolution`.
pub fn apply_show_group_resolution(parsed: &mut Vec<MediaInfo>, indices: &[usize], resolution: ShowGroupResolution)
    requires
        forall|j: int| 0 <= j < indices@.len() ==> (#[trigger] indices@[j]) < old(parsed)@.len(),
    ensures
        final(parsed)@.len() == old(parsed)@.len(),
        forall|k: int|
            0 <= k < old(parsed)@.len() ==> if indices@.contains(k as usize) {
                filled(old(parsed)@[k], resolution, #[trigger] final(parsed)@[k])
            } else {
                same_info(old(parsed)@[k], final(parsed)@[k])
            },
{
    let ghost orig = parsed@;
    let n = parsed.len();
    let mut j: usize = 0;
    while j < indices.len()
        invariant
            parsed@.len() == orig.len(),
            orig.len() == n,
            orig == old(parsed)@,
            j <= indices@.len(),
            forall|q: int| 0 <= q < indices@.len() ==> (#[trigger] indices@[q]) < orig.len(),
            forall|k: int|
                0 <= k < orig.len() ==> if indices@.take(j as int).contains(k as usize) {
                    filled(orig[k], resolution, #[trigger] parsed@[k])
                } else {
                    same_info(orig[k], parsed@[k])
                },
        decreases indices.len() - j,
    {
        let k = indices[j];
        let cur = &parsed[k];
        let season = if cur.season.is_none() {
            resolution.season
        } else {
            cur.season
        };
        let episode = if cur.episode.is_none() {
            resolution.episode
        } else {
            cur.episode
        };
        let next = with_numbers(cur, cur.year, season, episode);
        parsed.set(k, next);
        proof {
            assert forall|x: int| 0 <= x < orig.len() implies (if indices@.take(j + 1).contains(x as usize) {
                filled(orig[x], resolution, #[trigger] parsed@[x])
            } else {
                same_info(orig[x], parsed@[x])
            }) by {
                assert(indices@.take(j + 1) =~= indices@.take(j as int).push(k));
                if x == k as int {
                    assert(indices@.take(j + 1).contains(x as usize)) by {
                        assert(indices@.take(j + 1)[j as int] == k);
                    }
                } else {
                    let a = indices@.take(j as int);
                    let b = indices@.take(j + 1);
                    assert((x as usize) != k);
                    if b.contains(x as usize) {
                        let w = choose|w: int| 0 <= w < b.len() && b[w] == x as usize;
                        assert(w != j as int);
                        assert(a[w] == b[w]);
                        assert(a.contains(x as usize));
                    }
                    if a.contains(x as usize) {
                        let w = choose|w: int| 0 <= w < a.len() && a[w] == x as usize;
                        assert(a[w] == b[w]);
                        assert(b.contains(x as usize));
                    }
                }
            }
        }
        j = j + 1;
    }
    assert(indices@.take(indices@.len() as int) =~= indices@);
}

/// `after` is `before` filled from `answer`, when there is one.
pub open spec fn filled_by(before: MediaInfo, answer: Option<ShowGroupResolution>, after: MediaInfo) -> bool {
    match answer {
        Some(res) => filled(before, res, after),
        None => false,
    }
}

/// The files left out when a folder got no answer: those of `idx` that have a path.
pub open spec fn skipped_paths(parsed: Seq<MediaInfo>, idx: Seq<usize>) -> Seq<(Seq<char>, UnparseableReason)>
    decreases idx.len(),
{
    if idx.len() == 0 {
        Seq::empty()
    } else {
        let prev = skipped_paths(parsed, idx.drop_last());
        match parsed[idx.last() as int].full_path.deep_view() {
            Some(p) => prev.push((p, UnparseableReason::UserSkippedInteractiveResolution)),
            None => prev,
        }
    }
}

/// The answer given for group `g`: none when the answers end before it.
pub open spec fn answer_at(answers: Seq<Option<ShowGroupResolution>>, g: int) -> Option<ShowGroupResolution> {
    if 0 <= g < answers.len() {
        answers[g]
    } else {
        None
    }
}

/// The files skipped over the first `n` groups.
pub open spec fn skipped_over(
    parsed: Seq<MediaInfo>,
    groups: Seq<ShowPromptGroup>,
    answers: Seq<Option<ShowGroupResolution>>,
    n: int,
) -> Seq<(Seq<char>, UnparseableReason)>
    decreases n,
{
    if n <= 0 {
        Seq::empty()
    } else {
        let prev = skipped_over(parsed, groups, answers, n - 1);
        if answer_at(answers, n - 1) is None {
            prev + skipped_paths(parsed, groups[n - 1].indices@)
        } else {
            prev
        }
    }
}

/// The outcome of the answers: each file of an answered group is filled from its
/// answer, the others stay; the files of unanswered groups are skipped, group by group.
pub open spec fn answered(
    before: Seq<MediaInfo>,
    after: Seq<MediaInfo>,
    groups: Seq<ShowPromptGroup>,
    answers: Seq<Option<ShowGroupResolution>>,
    skipped: Seq<(Seq<char>, UnparseableReason)>,
) -> bool {
    &&& after.len() == before.len()
    &&& forall|k: int|
        0 <= k < before.len() ==> (if exists|g: int|
            0 <= g < groups.len() && answer_at(answers, g) is Some && groups[g].indices@.contains(k as usize) {
            exists|g: int|
                0 <= g < groups.len() && groups[g].indices@.contains(k as usize) && filled_by(before[k], answer_at(answers, g), #[trigger] after[k])
        } else {
            same_info(before[k], after[k])
        })
    &&& skipped == skipped_over(before, groups, answers, groups.len() as int)
}

/// Applies the answers given for the folders of `collect_show_prompt_groups` (one per
/// group, in order; a missing answer skips the group). With `yes_mode` nothing is asked
/// and nothing changes.
pub fn resolve_missing_show_fields(
    parsed: &mut Vec<MediaInfo>,
    yes_mode: bool,
    answers: &Vec<Option<ShowGroupResolution>>,
) -> (r: Result<Vec<UnparseableItem>, String>)
    ensures
        r is Ok,
        yes_mode ==> (final(parsed)@ == old(parsed)@ && (r matches Ok(s) && s@.len() == 0)),
        !yes_mode ==> (r matches Ok(s) && exists|groups: Seq<ShowPromptGroup>|
            is_prompt_grouping(old(parsed)@, groups) && answered(old(parsed)@, final(parsed)@, groups, answers@, skips_view(s@))),
{
    if yes_mode {
        return Ok(Vec::new());
    }
    let groups = collect_show_prompt_groups(parsed.as_slice());
    let ghost orig = parsed@;
    let n = parsed.len();
    assert(orig.len() == n);
    let ghost gs = groups@;
    let mut skipped: Vec<UnparseableItem> = Vec::new();
    let mut g: usize = 0;
    assert(skips_view(skipped@) =~= Seq::<(Seq<char>, UnparseableReason)>::empty());
    proof {
        assert forall|h: int| 0 <= h < gs.len() implies forall|q: int|
            0 <= q < (#[trigger] gs[h]).indices@.len() ==> gs[h].indices@[q] < orig.len() by {
            lemma_group_indices_below(orig, gs, h);
        }
        lemma_groups_disjoint(orig, gs);
    }
    while g < groups.len()
        invariant
            gs == groups@,
            orig == old(parsed)@,
            is_prompt_grouping(orig, gs),
            forall|h: int, q: int| 0 <= h < gs.len() && 0 <= q < gs[h].indices@.len() ==> #[trigger] gs[h].indices@[q] < orig.len(),
            forall|h1: int, h2: int, x: usize|
                0 <= h1 < gs.len() && 0 <= h2 < gs.len() && h1 != h2 && (#[trigger] gs[h1].indices@.contains(x)) ==> !(
                #[trigger] gs[h2].indices@.contains(x)),
            g <= gs.len(),
            parsed@.len() == orig.len(),
            forall|z: int| 0 <= z < parsed@.len() ==> #[trigger] parsed@[z].full_path.deep_view() == orig[z].full_path.deep_view(),
            skips_view(skipped@) == skipped_over(orig, gs, answers@, g as int),
            forall|k: int|
                0 <= k < orig.len() ==> (if exists|h: int|
                    0 <= h < g && answer_at(answers@, h) is Some && gs[h].indices@.contains(k as usize) {
                    exists|h: int|
                        0 <= h < g && gs[h].indices@.contains(k as usize) && filled_by(orig[k], answer_at(answers@, h), #[trigger] parsed@[k])
                } else {
                    same_info(orig[k], parsed@[k])
                }),
        decreases gs.len() - g,
    {
        let answer = if g < answers.len() {
            answers[g]
        } else {
            None
        };
        let group = &groups[g];
        match answer {
            Some(res) => {
                let ghost before = parsed@;
                apply_show_group_resolution(parsed, group.indices.as_slice(), res);
                proof {
                    assert forall|z: int| 0 <= z < parsed@.len() implies #[trigger] parsed@[z].full_path.deep_view() == orig[z].full_path.deep_view() by {
                        if group.indices@.contains(z as usize) {
                            assert(filled(before[z], res, parsed@[z]));
                        } else {
                            assert(same_info(before[z], parsed@[z]));
                        }
                    }
                    assert forall|k: int| 0 <= k < orig.len() implies (if exists|h: int|
                        0 <= h < g + 1 && answer_at(answers@, h) is Some && gs[h].indices@.contains(k as usize) {
                        exists|h: int|
                            0 <= h < g + 1 && gs[h].indices@.contains(k as usize) && filled_by(orig[k], answer_at(answers@, h), #[trigger] parsed@[k])
                    } else {
                        same_info(orig[k], parsed@[k])
                    }) by {
                        if gs[g as int].indices@.contains(k as usize) {
                            // no earlier group holds k, so it was untouched before
                            assert forall|h: int| 0 <= h < g implies !gs[h].indices@.contains(k as usize) by {}
                            assert(same_info(orig[k], before[k]));
                            assert(filled(before[k], res, parsed@[k]));
                            assert(filled(orig[k], res, parsed@[k]));
                            assert(answer_at(answers@, g as int) == Some(res));
                        } else {
                            assert(same_info(before[k], parsed@[k]));
                        }
                    }
                }
            },
            None => {
                let mut q: usize = 0;
                let ghost base = skips_view(skipped@);
                let ghost idx = group.indices@;
                while q < group.indices.len()
                    invariant
                        idx == group.indices@,
                        gs == groups@,
                        g < gs.len(),
                        group == &groups[g as int],
                        parsed@.len() == orig.len(),
                        forall|x: int| 0 <= x < orig.len() ==> same_info(orig[x], parsed@[x]) || true,
                        forall|z: int| 0 <= z < idx.len() ==> #[trigger] idx[z] < parsed@.len(),
                        forall|z: int| 0 <= z < parsed@.len() ==> #[trigger] parsed@[z].full_path.deep_view() == orig[z].full_path.deep_view(),
                        q <= idx.len(),
                        skips_view(skipped@) == base + skipped_paths(orig, idx.take(q as int)),
                    decreases idx.len() - q,
                {
                    let k = group.indices[q];
                    assert(idx.take(q + 1).drop_last() =~= idx.take(q as int));
                    assert(idx.take(q + 1).last() == k);
                    assert(parsed@[k as int].full_path.deep_view() == orig[k as int].full_path.deep_view());
                    match &parsed[k].full_path {
                        Some(p) => {
                            let u = UnparseableItem {
                                path: copy_str(p.as_str()),
                                reason: UnparseableReason::UserSkippedInteractiveResolution,
                            };
                            let ghost sv = skips_view(skipped@);
                            skipped.push(u);
                            assert(skips_view(skipped@) =~= sv.push(u@));
                            assert(orig[k as int].full_path.deep_view() == Some(p@));
                            assert(skipped_paths(orig, idx.take(q + 1)) == skipped_paths(orig, idx.take(q as int)).push(u@));
                            assert(skips_view(skipped@) =~= base + skipped_paths(orig, idx.take(q + 1)));
                        },
                        None => {
                            assert(skipped_paths(orig, idx.take(q + 1)) == skipped_paths(orig, idx.take(q as int)));
                        },
                    }
                    q = q + 1;
                }
                assert(idx.take(idx.len() as int) =~= idx);
            },
        }
        g = g + 1;
    }
    Ok(skipped)
}

proof fn lemma_group_indices_below(parsed: Seq<MediaInfo>, gs: Seq<ShowPromptGroup>, h: int)
    requires
        parsed.len() <= usize::MAX,
        is_prompt_grouping(parsed, gs),
        0 <= h < gs.len(),
    ensures
        forall|q: int| 0 <= q < gs[h].indices@.len() ==> gs[h].indices@[q] < parsed.len(),
{
    let keys = prompt_keys(parsed);
    let gk = gs.map_values(|g: ShowPromptGroup| g.parent_path@);
    let gm = gs.map_values(|g: ShowPromptGroup| g.indices@);
    assert(gm[h] == gs[h].indices@);
    assert(gm[h] == indices_with_key(keys, gk[h]));
    lemma_indices_below(keys, gk[h]);
}

proof fn lemma_indices_members(keys: Seq<Option<Seq<char>>>, k: Seq<char>, x: usize)
    requires
        keys.len() <= usize::MAX,
    ensures
        indices_with_key(keys, k).contains(x) ==> (x < keys.len() && keys[x as int] == Some(k)),
    decreases keys.len(),
{
    if keys.len() > 0 {
        lemma_indices_members(keys.drop_last(), k, x);
        let prev = indices_with_key(keys.drop_last(), k);
        if indices_with_key(keys, k).contains(x) {
            if keys.last() == Some(k) {
                let s = prev.push((keys.len() - 1) as usize);
                let w = choose|w: int| 0 <= w < s.len() && s[w] == x;
                if w < prev.len() {
                    assert(prev.contains(x));
                    assert(keys.drop_last()[x as int] == keys[x as int]);
                }
            } else {
                assert(keys.drop_last()[x as int] == keys[x as int]) by {
                    assert(prev.contains(x));
                }
            }
        }
    }
}

proof fn lemma_groups_disjoint(parsed: Seq<MediaInfo>, gs: Seq<ShowPromptGroup>)
    requires
        parsed.len() <= usize::MAX,
        is_prompt_grouping(parsed, gs),
    ensures
        forall|h1: int, h2: int, x: usize|
            0 <= h1 < gs.len() && 0 <= h2 < gs.len() && h1 != h2 && (#[trigger] gs[h1].indices@.contains(x)) ==> !(
            #[trigger] gs[h2].indices@.contains(x)),
{
    let keys = prompt_keys(parsed);
    let gk = gs.map_values(|g: ShowPromptGroup| g.parent_path@);
    let gm = gs.map_values(|g: ShowPromptGroup| g.indices@);
    assert forall|h1: int, h2: int, x: usize|
        0 <= h1 < gs.len() && 0 <= h2 < gs.len() && h1 != h2 && (#[trigger] gs[h1].indices@.contains(x)) implies !(
        #[trigger] gs[h2].indices@.contains(x)) by {
        assert(gm[h1] == indices_with_key(keys, gk[h1]));
        assert(gm[h2] == indices_with_key(keys, gk[h2]));
        lemma_indices_members(keys, gk[h1], x);
        lemma_indices_members(keys, gk[h2], x);
        if gs[h2].indices@.contains(x) {
            assert(gk[h1] == gk[h2]);
            if h1 < h2 {
                assert(crate::order::lex_lt(gk[h1], gk[h2]));
                crate::order::lemma_lex_irreflexive(gk[h1]);
            } else {
                assert(crate::order::lex_lt(gk[h2], gk[h1]));
                crate::order::lemma_lex_irreflexive(gk[h1]);
            }
        }
    }
}

// ---------------------------------------------------------------------------
// Release years
// ---------------------------------------------------------------------------

/// What a lookup answer means: its year, or none when it failed.
pub fn year_from_lookup(result: Result<Option<u16>, String>) -> (r: Option<u16>)
    ensures
        r == answered_year(result),
{
    match result {
        Ok(year) => year,
        Err(_) => None,
    }
}

/// The year of a title: none without a title; the year typed at the prompt (only asked
/// when not in `yes_mode`) if any; else whatever the lookup finds, none when it fails.
pub fn resolve_year<L: MetadataLookup>(
    title: Option<&str>,
    media_type: MediaType,
    yes_mode: bool,
    prompted: Option<u16>,
    lookup: &L,
) -> (r: Result<Option<u16>, String>)
    ensures
        r is Ok,
        title is None ==> r == Ok::<Option<u16>, String>(None),
        title is Some && !yes_mode && prompted is Some ==> r == Ok::<Option<u16>, String>(prompted),
        title is Some && (yes_mode || prompted is None) ==> exists|a: Result<Option<u16>, String>|
            #[trigger] lookup.answers(title->0@, media_type, a) && r == Ok::<Option<u16>, String>(answered_year(a)),
{
    let t = match title {
        None => {
            return Ok(None);
        },
        Some(t) => t,
    };
    if !yes_mode {
        if prompted.is_some() {
            return Ok(prompted);
        }
    }
    Ok(year_from_lookup(lookup.lookup_year(t, media_type)))
}

/// The distinct titles of the files without a year, in order of first appearance.
pub open spec fn titles_without_year(parsed: Seq<MediaInfo>) -> Seq<Seq<char>>
    decreases parsed.len(),
{
    if parsed.len() == 0 {
        Seq::empty()
    } else {
        let prev = titles_without_year(parsed.drop_last());
        let info = parsed.last();
        match info.title.deep_view() {
            Some(t) => if info.year is None && !prev.contains(t) {
                prev.push(t)
            } else {
                prev
            },
            None => prev,
        }
    }
}

fn holds(v: &Vec<String>, p: &str) -> (r: Option<usize>)
    ensures
        r matches Some(j) ==> j < v.deep_view().len() && v.deep_view()[j as int] == p@,
        r is None ==> !v.deep_view().contains(p@),
{
    let mut k: usize = 0;
    while k < v.len()
        invariant
            k <= v.len(),
            forall|q: int| 0 <= q < k ==> v.deep_view()[q] != p@,
        decreases v.len() - k,
    {
        if str_eq(v[k].as_str(), p) {
            return Some(k);
        }
        k = k + 1;
    }
    None
}

/// The titles that a year is asked and looked up for.
pub fn titles_missing_year(parsed: &[MediaInfo]) -> (r: Vec<String>)
    ensures
        r.deep_view() == titles_without_year(parsed@),
{
    let mut out: Vec<String> = Vec::new();
    let mut i: usize = 0;
    while i < parsed.len()
        invariant
            i <= parsed@.len(),
            out.deep_view() == titles_without_year(parsed@.take(i as int)),
        decreases parsed.len() - i,
    {
        assert(parsed@.take(i + 1).drop_last() =~= parsed@.take(i as int));
        assert(parsed@.take(i + 1).last() == parsed@[i as int]);
        let item = &parsed[i];
        if item.year.is_none() {
            match &item.title {
                Some(t) => {
                    if holds(&out, t.as_str()).is_none() {
                        let ghost before = out.deep_view();
                        out.push(copy_str(t.as_str()));
                        assert(out.deep_view() =~= before.push(t@));
                    }
                },
                None => {},
            }
        }
        i = i + 1;
    }
    assert(parsed@.take(parsed@.len() as int) =~= parsed@);
    out
}

/// The year a file ends with: its own, else the year found for its title.
pub open spec fn year_after(info: MediaInfo, titles: Seq<Seq<char>>, years: Seq<Option<u16>>) -> Option<u16> {
    if info.year is Some {
        info.year
    } else {
        match info.title.deep_view() {
            Some(t) => if exists|j: int| 0 <= j < titles.len() && titles[j] == t {
                years[choose|j: int| 0 <= j < titles.len() && titles[j] == t]
            } else {
                None
            },
            None => None,
        }
    }
}

pub open spec fn distinct(s: Seq<Seq<char>>) -> bool {
    forall|a: int, b: int| 0 <= a < b < s.len() ==> s[a] != s[b]
}

proof fn lemma_titles_distinct(parsed: Seq<MediaInfo>)
    ensures
        distinct(titles_without_year(parsed)),
        forall|k: int|
            0 <= k < parsed.len() && parsed[k].year is None && (#[trigger] parsed[k].title.deep_view()) is Some
                ==> titles_without_year(parsed).contains(parsed[k].title.deep_view()->0),
    decreases parsed.len(),
{
    if parsed.len() > 0 {
        let prev = parsed.drop_last();
        lemma_titles_distinct(prev);
        assert forall|k: int|
            0 <= k < parsed.len() && parsed[k].year is None && (#[trigger] parsed[k].title.deep_view()) is Some
                implies titles_without_year(parsed).contains(parsed[k].title.deep_view()->0) by {
            let t = parsed[k].title.deep_view()->0;
            if k < parsed.len() - 1 {
                assert(prev[k] == parsed[k]);
                let w = choose|w: int| 0 <= w < titles_without_year(prev).len() && titles_without_year(prev)[w] == t;
                assert(titles_without_year(parsed)[w] == t);
            } else {
                if !titles_without_year(prev).contains(t) {
                    assert(titles_without_year(parsed).last() == t);
                } else {
                    let w = choose|w: int| 0 <= w < titles_without_year(prev).len() && titles_without_year(prev)[w] == t;
                    assert(titles_without_year(parsed)[w] == t);
                }
            }
        }
    }
}

/// Resolves missing years: a forced year fills every missing one; otherwise each title
/// without a year gets one year (typed at the prompt, one answer per title of
/// `titles_missing_year`, or else looked up), and every file of that title that has no
/// year takes it.
pub fn resolve_missing_years<L: MetadataLookup>(
    parsed: &mut Vec<MediaInfo>,
    forced_year: Option<u16>,
    media_type: MediaType,
    yes_mode: bool,
    answers: &Vec<Option<u16>>,
    lookup: &L,
) -> (r: Result<(), String>)
    ensures
        r is Ok,
        final(parsed)@.len() == old(parsed)@.len(),
        forced_year is Some ==> forall|k: int|
            0 <= k < old(parsed)@.len() ==> {
                &&& (#[trigger] final(parsed)@[k]).year == if old(parsed)@[k].year is Some {
                    old(parsed)@[k].year
                } else {
                    forced_year
                }
                &&& same_info(with_year_spec(old(parsed)@[k], final(parsed)@[k].year), final(parsed)@[k])
            },
        forced_year is None ==> exists|years: Seq<Option<u16>>|
            #[trigger] years_resolved(old(parsed)@, final(parsed)@, years, yes_mode, answers@, *lookup, media_type),
{
    let ghost orig = parsed@;
    if let Some(year) = forced_year {
        let mut k: usize = 0;
        while k < parsed.len()
            invariant
                orig == old(parsed)@,
                parsed@.len() == orig.len(),
                forced_year == Some(year),
                k <= parsed@.len(),
                forall|x: int|
                    0 <= x < orig.len() ==> {
                        &&& (#[trigger] parsed@[x]).year == if x < k && orig[x].year is None {
                            forced_year
                        } else {
                            orig[x].year
                        }
                        &&& same_info(with_year_spec(orig[x], parsed@[x].year), parsed@[x])
                    },
            decreases parsed.len() - k,
        {
            if parsed[k].year.is_none() {
                let next = with_numbers(&parsed[k], Some(year), parsed[k].season, parsed[k].episode);
                parsed.set(k, next);
            }
            k = k + 1;
        }
        return Ok(());
    }
    let titles = titles_missing_year(parsed.as_slice());
    let ghost tv = titles.deep_view();
    let mut years: Vec<Option<u16>> = Vec::new();
    let mut j: usize = 0;
    while j < titles.len()
        invariant
            tv == titles.deep_view(),
            j <= titles.len(),
            years@.len() == j,
            forall|q: int|
                0 <= q < j && !yes_mode && q < answers@.len() && answers@[q] is Some ==> #[trigger] years@[q] == answers@[q],
            forall|q: int|
                0 <= q < j && !(!yes_mode && q < answers@.len() && answers@[q] is Some) ==> #[trigger] looked_up(
                    *lookup,
                    tv[q],
                    media_type,
                    years@[q],
                ),
        decreases titles.len() - j,
    {
        let prompted = if j < answers.len() {
            answers[j]
        } else {
            None
        };
        let year = if !yes_mode && prompted.is_some() {
            prompted
        } else {
            match resolve_year(Some(titles[j].as_str()), media_type, true, None, lookup) {
                Ok(y) => y,
                Err(_) => None,
            }
        };
        years.push(year);
        j = j + 1;
    }
    proof {
        lemma_titles_distinct(orig);
    }
    let mut k: usize = 0;
    while k < parsed.len()
        invariant
            orig == old(parsed)@,
            tv == titles.deep_view(),
            tv == titles_without_year(orig),
            distinct(tv),
            years@.len() == tv.len(),
            forall|x: int|
                0 <= x < orig.len() && orig[x].year is None && (#[trigger] orig[x].title.deep_view()) is Some ==> tv.contains(
                    orig[x].title.deep_view()->0,
                ),
            parsed@.len() == orig.len(),
            k <= parsed@.len(),
            forall|x: int|
                0 <= x < orig.len() ==> {
                    &&& (#[trigger] parsed@[x]).year == if x < k {
                        year_after(orig[x], tv, years@)
                    } else {
                        orig[x].year
                    }
                    &&& same_info(with_year_spec(orig[x], parsed@[x].year), parsed@[x])
                },
        decreases parsed.len() - k,
    {
        if parsed[k].year.is_none() {
            let found = match &parsed[k].title {
                Some(t) => holds(&titles, t.as_str()),
                None => None,
            };
            match found {
                Some(jj) => {
                    let y = years[jj];
                    proof {
                        let t = orig[k as int].title.deep_view()->0;
                        assert(tv[jj as int] == t);
                        let c = choose|q: int| 0 <= q < tv.len() && tv[q] == t;
                        assert(c == jj as int);
                    }
                    let next = with_numbers(&parsed[k], y, parsed[k].season, parsed[k].episode);
                    parsed.set(k, next);
                },
                None => {
                    proof {
                        if orig[k as int].title.deep_view() is Some {
                            assert(tv.contains(orig[k as int].title.deep_view()->0));
                        }
                    }
                },
            }
        }
        k = k + 1;
    }
    assert(years_resolved(orig, parsed@, years@, yes_mode, answers@, *lookup, media_type));
    Ok(())
}

/// `year` is what some answer of `lookup` for `title` stands for.
pub open spec fn looked_up<L: MetadataLookup>(lookup: L, title: Seq<char>, media_type: MediaType, year: Option<u16>) -> bool {
    exists|a: Result<Option<u16>, String>| #[trigger] lookup.answers(title, media_type, a) && year == answered_year(a)
}

/// One year per title without a year (the typed answer when there is one and prompts
/// were made, else what the lookup answered for that title), and each file ends with its
/// own year or its title's.
pub open spec fn years_resolved<L: MetadataLookup>(
    before: Seq<MediaInfo>,
    after: Seq<MediaInfo>,
    years: Seq<Option<u16>>,
    yes_mode: bool,
    answers: Seq<Option<u16>>,
    lookup: L,
    media_type: MediaType,
) -> bool {
    let titles = titles_without_year(before);
    &&& years.len() == titles.len()
    &&& forall|j: int|
        0 <= j < years.len() && !yes_mode && j < answers.len() && answers[j] is Some ==> #[trigger] years[j] == answers[j]
    &&& forall|j: int|
        0 <= j < years.len() && !(!yes_mode && j < answers.len() && answers[j] is Some) ==> #[trigger] looked_up(
            lookup,
            titles[j],
            media_type,
            years[j],
        )
    &&& after.len() == before.len()
    &&& forall|k: int|
        0 <= k < before.len() ==> {
            &&& (#[trigger] after[k]).year == year_after(before[k], titles, years)
            &&& same_info(with_year_spec(before[k], after[k].year), after[k])
        }
}

/// `info` with `year` in place of its year.
pub open spec fn with_year_spec(info: MediaInfo, year: Option<u16>) -> MediaInfo {
    MediaInfo { year, ..info }
}

} // verus!
