//! What `scan` reports about each video file, and the summaries over all of them.
use vstd::prelude::*;

use crate::cli::{ConfidenceArg, ScanType};
use crate::config::str_eq;
use crate::parser::show::{season_episode_spec, show_info};
use crate::parser::tokens::{normalize_spec, strip_extension_spec, title_spec};
use crate::parser::{extract_season_from_input, extract_year_from_input, parse_movie, parse_show, season_spec, year_spec, MediaInfo};
use crate::scanner::ScannedFile;
use crate::text::{concat, copy_str, decimal, join_strings, join_with, usize_to_string};

verus! {

// ---------------------------------------------------------------------------
// Kind and confidence
// ---------------------------------------------------------------------------

/// `show` when a season or an episode is known, else `movie` when a title is known,
/// else `unknown`.
pub open spec fn kind_of(info: MediaInfo) -> Seq<char> {
    if info.season is Some || info.episode is Some {
        "show"@
    } else if info.title is Some {
        "movie"@
    } else {
        "unknown"@
    }
}

pub fn detected_kind(info: &MediaInfo) -> (r: &'static str)
    ensures
        r@ == kind_of(*info),
{
    if info.season.is_some() || info.episode.is_some() {
        "show"
    } else if info.title.is_some() {
        "movie"
    } else {
        "unknown"
    }
}

/// Two points for a title, one each for year, season and episode.
pub open spec fn confidence_score(info: MediaInfo) -> int {
    (if info.title is Some { 2int } else { 0int }) + (if info.year is Some { 1int } else { 0int }) + (if info.season is Some {
        1int
    } else {
        0int
    }) + (if info.episode is Some { 1int } else { 0int })
}

/// `high` from four points, `medium` from two, else `low`.
pub open spec fn confidence_of(info: MediaInfo) -> Seq<char> {
    if confidence_score(info) >= 4 {
        "high"@
    } else if confidence_score(info) >= 2 {
        "medium"@
    } else {
        "low"@
    }
}

pub fn parse_confidence(info: &MediaInfo) -> (r: &'static str)
    ensures
        r@ == confidence_of(*info),
{
    let mut score = 0u8;
    if info.title.is_some() {
        score += 2;
    }
    if info.year.is_some() {
        score += 1;
    }
    if info.season.is_some() {
        score += 1;
    }
    if info.episode.is_some() {
        score += 1;
    }
    if score >= 4 {
        "high"
    } else if score >= 2 {
        "medium"
    } else {
        "low"
    }
}

/// 3, 2 and 1 for `high`, `medium` and `low`; 0 for anything else.
pub open spec fn rank_of(value: Seq<char>) -> u8 {
    if value == "high"@ {
        3
    } else if value == "medium"@ {
        2
    } else if value == "low"@ {
        1
    } else {
        0
    }
}

pub fn confidence_rank(value: &str) -> (r: u8)
    ensures
        r == rank_of(value@),
{
    if str_eq(value, "high") {
        3
    } else if str_eq(value, "medium") {
        2
    } else if str_eq(value, "low") {
        1
    } else {
        0
    }
}

pub open spec fn arg_rank(value: ConfidenceArg) -> u8 {
    match value {
        ConfidenceArg::Low => 1,
        ConfidenceArg::Medium => 2,
        ConfidenceArg::High => 3,
    }
}

/// The rank that `--min-confidence` asks for.
pub fn confidence_arg_to_rank(value: ConfidenceArg) -> (r: u8)
    ensures
        r == arg_rank(value),
{
    match value {
        ConfidenceArg::Low => 1,
        ConfidenceArg::Medium => 2,
        ConfidenceArg::High => 3,
    }
}

/// With `only_failed`, only files without a title pass; and a file passes only if its
/// confidence ranks at least `min_rank`.
pub open spec fn included(info: MediaInfo, only_failed: bool, min_rank: u8) -> bool {
    !(only_failed && info.title is Some) && rank_of(confidence_of(info)) >= min_rank
}

pub fn should_include_scan_item(info: &MediaInfo, only_failed: bool, min_confidence_rank: u8) -> (r: bool)
    ensures
        r == included(*info, only_failed, min_confidence_rank),
{
    if only_failed && info.title.is_some() {
        return false;
    }
    confidence_rank(parse_confidence(info)) >= min_confidence_rank
}

pub fn should_include_scan_report(report: &ScanItemReport, only_failed: bool, min_confidence_rank: u8) -> (r: bool)
    ensures
        r == included(report.info, only_failed, min_confidence_rank),
{
    should_include_scan_item(&report.info, only_failed, min_confidence_rank)
}

// ---------------------------------------------------------------------------
// Issues
// ---------------------------------------------------------------------------

/// `missing_title` and `missing_year` for any file, and for a show also
/// `missing_season` and `missing_episode`, in that order.
pub open spec fn issues_of(info: MediaInfo) -> Seq<Seq<char>> {
    let show = kind_of(info) == "show"@;
    (if info.title is None { seq!["missing_title"@] } else { Seq::empty() }) + (if info.year is None {
        seq!["missing_year"@]
    } else {
        Seq::empty()
    }) + (if show && info.season is None { seq!["missing_season"@] } else { Seq::empty() }) + (if show
        && info.episode is None {
        seq!["missing_episode"@]
    } else {
        Seq::empty()
    })
}

pub fn scan_issues(info: &MediaInfo) -> (r: Vec<String>)
    ensures
        r.deep_view() == issues_of(*info),
{
    let mut issues: Vec<String> = Vec::new();
    let ghost a = if info.title is None { seq!["missing_title"@] } else { Seq::<Seq<char>>::empty() };
    let ghost b = if info.year is None { seq!["missing_year"@] } else { Seq::<Seq<char>>::empty() };
    let show = str_eq(detected_kind(info), "show");
    let ghost c = if show && info.season is None { seq!["missing_season"@] } else { Seq::<Seq<char>>::empty() };
    let ghost d = if show && info.episode is None { seq!["missing_episode"@] } else { Seq::<Seq<char>>::empty() };
    if info.title.is_none() {
        issues.push(copy_str("missing_title"));
    }
    assert(issues.deep_view() =~= a);
    if info.year.is_none() {
        issues.push(copy_str("missing_year"));
    }
    assert(issues.deep_view() =~= a + b);
    if show {
        if info.season.is_none() {
            issues.push(copy_str("missing_season"));
        }
        assert(issues.deep_view() =~= a + b + c);
        if info.episode.is_none() {
            issues.push(copy_str("missing_episode"));
        }
    }
    assert(issues.deep_view() =~= a + b + c + d);
    issues
}

// ---------------------------------------------------------------------------
// Parsing one scanned file
// ---------------------------------------------------------------------------

/// Where a field came from.
#[derive(Debug, Clone, Copy, PartialEq, Eq)]
pub enum FieldSource {
    Filename,
    Parent,
    Missing,
}

pub open spec fn source_text(s: FieldSource) -> Seq<char> {
    match s {
        FieldSource::Filename => "filename"@,
        FieldSource::Parent => "parent"@,
        FieldSource::Missing => "missing"@,
    }
}

impl FieldSource {
    pub fn as_str(&self) -> (r: &'static str)
        ensures
            r@ == source_text(*self),
    {
        match self {
            FieldSource::Filename => "filename",
            FieldSource::Parent => "parent",
            FieldSource::Missing => "missing",
        }
    }
}

/// Where each field of a scanned file came from.
#[derive(Debug, Clone, Copy, PartialEq, Eq)]
pub struct ScanFieldSources {
    pub title: FieldSource,
    pub year: FieldSource,
    pub season: FieldSource,
    pub episode: FieldSource,
}

impl Default for ScanFieldSources {
    fn default() -> (r: Self)
        ensures
            r.title == FieldSource::Missing,
            r.year == FieldSource::Missing,
            r.season == FieldSource::Missing,
            r.episode == FieldSource::Missing,
    {
        ScanFieldSources {
            title: FieldSource::Missing,
            year: FieldSource::Missing,
            season: FieldSource::Missing,
            episode: FieldSource::Missing,
        }
    }
}

/// A scanned file with the parser `scan` uses for it (`show`, `movie` or `auto`).
#[derive(Debug, Clone)]
pub struct ScanContext<'a> {
    pub file: &'a ScannedFile,
    pub parser_mode: &'static str,
}

pub open spec fn mode_text(hint: Option<ScanType>) -> Seq<char> {
    match hint {
        Some(ScanType::Show) => "show"@,
        Some(ScanType::Movie) => "movie"@,
        None => "auto"@,
    }
}

pub fn scan_parse_context<'a>(file: &'a ScannedFile, hint: Option<ScanType>) -> (r: ScanContext<'a>)
    ensures
        *r.file == *file,
        r.parser_mode@ == mode_text(hint),
{
    let parser_mode = match hint {
        Some(ScanType::Show) => "show",
        Some(ScanType::Movie) => "movie",
        None => "auto",
    };
    ScanContext { file, parser_mode }
}

/// Parses `input` as a show when it has a season or an episode, else as a movie.
pub fn auto_parse(input: &str) -> (r: MediaInfo)
    ensures
        show_info(r, input@),
{
    let show = parse_show(input);
    if show.season.is_some() || show.episode.is_some() {
        return show;
    }
    parse_movie(input)
}

/// The name that titles, years, seasons and episodes are read from: without extension,
/// normalized.
pub open spec fn name_key(name: Seq<char>) -> Seq<char> {
    normalize_spec(strip_extension_spec(name))
}

/// Season and episode from a file name; a movie scan reads neither.
pub open spec fn hinted_season_episode(hint: Option<ScanType>, name: Seq<char>) -> (Option<u16>, Option<u16>) {
    match hint {
        Some(ScanType::Movie) => (None, None),
        _ => season_episode_spec(name_key(name)),
    }
}

/// `info` and `sources` are what `scan` reads for `file`: each field from the file name,
/// else (title, year and season) from the parent folder's name, else missing.
pub open spec fn is_scan_info(info: MediaInfo, sources: ScanFieldSources, file: ScannedFile, hint: Option<ScanType>) -> bool {
    let n = name_key(file.file_name@);
    let pn = name_key(file.parent_name@);
    let (s0, e0) = hinted_season_episode(hint, file.file_name@);
    &&& info.title.deep_view() == (if title_spec(n) is Some {
        title_spec(n)
    } else {
        title_spec(pn)
    })
    &&& sources.title == (if title_spec(n) is Some {
        FieldSource::Filename
    } else if title_spec(pn) is Some {
        FieldSource::Parent
    } else {
        FieldSource::Missing
    })
    &&& info.year == (if year_spec(n) is Some {
        year_spec(n)
    } else {
        year_spec(file.parent_name@)
    })
    &&& sources.year == (if year_spec(n) is Some {
        FieldSource::Filename
    } else if year_spec(file.parent_name@) is Some {
        FieldSource::Parent
    } else {
        FieldSource::Missing
    })
    &&& info.season == (if s0 is Some {
        s0
    } else {
        season_spec(file.parent_name@)
    })
    &&& sources.season == (if s0 is Some {
        FieldSource::Filename
    } else if season_spec(file.parent_name@) is Some {
        FieldSource::Parent
    } else {
        FieldSource::Missing
    })
    &&& info.episode == e0
    &&& sources.episode == (if e0 is Some {
        FieldSource::Filename
    } else {
        FieldSource::Missing
    })
    &&& info.extension@ == file.extension@
    &&& info.original_filename@ == file.file_name@
    &&& info.full_path.deep_view() == Some(file.path@)
}

/// Parses a scanned file, filling what the file name lacks from the parent folder.
pub fn parse_scan_info(context: &ScanContext, hint: Option<ScanType>) -> (r: (MediaInfo, ScanFieldSources))
    ensures
        is_scan_info(r.0, r.1, *context.file, hint),
{
    let file = context.file;
    let mut info = match hint {
        Some(ScanType::Show) => parse_show(file.file_name.as_str()),
        Some(ScanType::Movie) => parse_movie(file.file_name.as_str()),
        None => auto_parse(file.file_name.as_str()),
    };
    let mut sources = ScanFieldSources {
        title: if info.title.is_some() {
            FieldSource::Filename
        } else {
            FieldSource::Missing
        },
        year: if info.year.is_some() {
            FieldSource::Filename
        } else {
            FieldSource::Missing
        },
        season: if info.season.is_some() {
            FieldSource::Filename
        } else {
            FieldSource::Missing
        },
        episode: if info.episode.is_some() {
            FieldSource::Filename
        } else {
            FieldSource::Missing
        },
    };
    if info.title.is_none() {
        let parent_info = match hint {
            Some(ScanType::Movie) => parse_movie(file.parent_name.as_str()),
            _ => parse_show(file.parent_name.as_str()),
        };
        if let Some(title) = parent_info.title {
            info.title = Some(title);
            sources.title = FieldSource::Parent;
        }
    }
    if info.year.is_none() {
        if let Some(year) = extract_year_from_input(file.parent_name.as_str()) {
            info.year = Some(year);
            sources.year = FieldSource::Parent;
        }
    }
    if info.season.is_none() {
        if let Some(season) = extract_season_from_input(file.parent_name.as_str()) {
            info.season = Some(season);
            sources.season = FieldSource::Parent;
        }
    }
    info.original_filename = copy_str(file.file_name.as_str());
    info.extension = copy_str(file.extension.as_str());
    info.full_path = Some(copy_str(file.path.as_str()));
    (info, sources)
}

// ---------------------------------------------------------------------------
// Reports
// ---------------------------------------------------------------------------

/// How a scanned file was parsed.
#[derive(Debug, Clone)]
pub struct ScanDiagnostics {
    pub parser_mode: String,
    pub title_source: String,
    pub year_source: String,
    pub season_source: String,
    pub episode_source: String,
    pub issues: Vec<String>,
}

/// A scanned file's parse and how it came about.
#[derive(Debug, Clone)]
pub struct ScanItemReport {
    pub info: MediaInfo,
    pub diagnostics: ScanDiagnostics,
}

/// `r` is the report `scan` makes for `file`: the parse with its field sources, the
/// parser used, and the issues.
pub open spec fn is_item_report(r: ScanItemReport, file: ScannedFile, hint: Option<ScanType>) -> bool {
    &&& exists|sources: ScanFieldSources|
        {
            &&& #[trigger] is_scan_info(r.info, sources, file, hint)
            &&& r.diagnostics.title_source@ == source_text(sources.title)
            &&& r.diagnostics.year_source@ == source_text(sources.year)
            &&& r.diagnostics.season_source@ == source_text(sources.season)
            &&& r.diagnostics.episode_source@ == source_text(sources.episode)
        }
    &&& r.diagnostics.parser_mode@ == mode_text(hint)
    &&& r.diagnostics.issues.deep_view() == issues_of(r.info)
}

/// The report for one scanned file.
pub fn scan_item_report(file: &ScannedFile, hint: Option<ScanType>) -> (r: ScanItemReport)
    ensures
        is_item_report(r, *file, hint),
{
    let context = scan_parse_context(file, hint);
    let (info, sources) = parse_scan_info(&context, hint);
    let issues = scan_issues(&info);
    let diagnostics = ScanDiagnostics {
        parser_mode: copy_str(context.parser_mode),
        title_source: copy_str(sources.title.as_str()),
        year_source: copy_str(sources.year.as_str()),
        season_source: copy_str(sources.season.as_str()),
        episode_source: copy_str(sources.episode.as_str()),
        issues,
    };
    ScanItemReport { info, diagnostics }
}

/// One file of the JSON scan report.
#[derive(Debug, Clone)]
pub struct ScanItemJson {
    pub file_name: String,
    pub source_path: String,
    pub extension: String,
    pub title: Option<String>,
    pub year: Option<u16>,
    pub season: Option<u16>,
    pub episode: Option<u16>,
    pub media_type: String,
    pub detected_kind: String,
    pub parse_confidence: String,
    pub parser_mode: String,
    pub title_source: String,
    pub year_source: String,
    pub season_source: String,
    pub episode_source: String,
    pub issues: Vec<String>,
}

fn copy_strings(v: &Vec<String>) -> (r: Vec<String>)
    ensures
        r.deep_view() == v.deep_view(),
{
    let mut out: Vec<String> = Vec::new();
    let mut i: usize = 0;
    while i < v.len()
        invariant
            i <= v.len(),
            out.deep_view() == v.deep_view().take(i as int),
        decreases v.len() - i,
    {
        let c = copy_str(v[i].as_str());
        let ghost before = out.deep_view();
        out.push(c);
        assert(out.deep_view() =~= before.push(v@[i as int]@));
        assert(v.deep_view().take(i + 1) =~= v.deep_view().take(i as int).push(v.deep_view()[i as int]));
        i = i + 1;
    }
    assert(v.deep_view().take(v.len() as int) =~= v.deep_view());
    out
}

fn copy_opt(v: &Option<String>) -> (r: Option<String>)
    ensures
        r.deep_view() == v.deep_view(),
{
    match v {
        Some(s) => Some(copy_str(s.as_str())),
        None => None,
    }
}

/// `item` is the JSON form of `file` and `report`.
pub open spec fn is_json_item(item: ScanItemJson, file: ScannedFile, report: ScanItemReport) -> bool {
    &&& item.file_name@ == file.file_name@
    &&& item.source_path@ == file.path@
    &&& item.extension@ == file.extension@
    &&& item.title.deep_view() == report.info.title.deep_view()
    &&& item.year == report.info.year
    &&& item.season == report.info.season
    &&& item.episode == report.info.episode
    &&& item.media_type@ == "video"@
    &&& item.detected_kind@ == kind_of(report.info)
    &&& item.parse_confidence@ == confidence_of(report.info)
    &&& item.parser_mode@ == report.diagnostics.parser_mode@
    &&& item.title_source@ == report.diagnostics.title_source@
    &&& item.year_source@ == report.diagnostics.year_source@
    &&& item.season_source@ == report.diagnostics.season_source@
    &&& item.episode_source@ == report.diagnostics.episode_source@
    &&& item.issues.deep_view() == report.diagnostics.issues.deep_view()
}

impl ScanItemReport {
    pub fn to_json_item(&self, file: &ScannedFile) -> (r: ScanItemJson)
        ensures
            is_json_item(r, *file, *self),
    {
        ScanItemJson {
            file_name: copy_str(file.file_name.as_str()),
            source_path: copy_str(file.path.as_str()),
            extension: copy_str(file.extension.as_str()),
            title: copy_opt(&self.info.title),
            year: self.info.year,
            season: self.info.season,
            episode: self.info.episode,
            media_type: copy_str("video"),
            detected_kind: copy_str(detected_kind(&self.info)),
            parse_confidence: copy_str(parse_confidence(&self.info)),
            parser_mode: copy_str(self.diagnostics.parser_mode.as_str()),
            title_source: copy_str(self.diagnostics.title_source.as_str()),
            year_source: copy_str(self.diagnostics.year_source.as_str()),
            season_source: copy_str(self.diagnostics.season_source.as_str()),
            episode_source: copy_str(self.diagnostics.episode_source.as_str()),
            issues: copy_strings(&self.diagnostics.issues),
        }
    }
}

fn bare_item_report(info: &MediaInfo) -> (r: ScanItemReport)
    ensures
        r.info.title.deep_view() == info.title.deep_view(),
        r.info.year == info.year,
        r.info.season == info.season,
        r.info.episode == info.episode,
        r.diagnostics.parser_mode@ == "test"@,
        r.diagnostics.title_source@ == "missing"@,
        r.diagnostics.year_source@ == "missing"@,
        r.diagnostics.season_source@ == "missing"@,
        r.diagnostics.episode_source@ == "missing"@,
        r.diagnostics.issues@.len() == 0,
{
    let copy = MediaInfo {
        title: copy_opt(&info.title),
        year: info.year,
        season: info.season,
        episode: info.episode,
        extension: copy_str(info.extension.as_str()),
        original_filename: copy_str(info.original_filename.as_str()),
        full_path: copy_opt(&info.full_path),
    };
    ScanItemReport {
        info: copy,
        diagnostics: ScanDiagnostics {
            parser_mode: copy_str("test"),
            title_source: copy_str("missing"),
            year_source: copy_str("missing"),
            season_source: copy_str("missing"),
            episode_source: copy_str("missing"),
            issues: Vec::new(),
        },
    }
}

/// The JSON form of `file` parsed as `info`, with empty diagnostics.
pub fn to_json_scan_item(file: &ScannedFile, info: &MediaInfo) -> (r: ScanItemJson)
    ensures
        r.file_name@ == file.file_name@,
        r.source_path@ == file.path@,
        r.extension@ == file.extension@,
        r.title.deep_view() == info.title.deep_view(),
        r.year == info.year,
        r.season == info.season,
        r.episode == info.episode,
        r.media_type@ == "video"@,
        r.detected_kind@ == kind_of(*info),
        r.parse_confidence@ == confidence_of(*info),
        r.parser_mode@ == "test"@,
        r.title_source@ == "missing"@,
        r.year_source@ == "missing"@,
        r.season_source@ == "missing"@,
        r.episode_source@ == "missing"@,
        r.issues@.len() == 0,
{
    let report = bare_item_report(info);
    let r = report.to_json_item(file);
    assert(r.issues.deep_view().len() == 0);
    r
}

/// The reports of a scan, which of them pass the filters, and the counts.
#[derive(Debug, Clone)]
pub struct ScanRun {
    pub reports: Vec<ScanItemReport>,
    pub emitted: Vec<bool>,
    pub total: usize,
    pub emitted_total: usize,
    pub omitted_by_filters: usize,
}

/// How many of `flags` are set.
pub open spec fn count_true(flags: Seq<bool>) -> nat
    decreases flags.len(),
{
    if flags.len() == 0 {
        0
    } else {
        count_true(flags.drop_last()) + if flags.last() {
            1nat
        } else {
            0nat
        }
    }
}

proof fn lemma_count_true_bound(flags: Seq<bool>)
    ensures
        count_true(flags) <= flags.len(),
    decreases flags.len(),
{
    if flags.len() > 0 {
        lemma_count_true_bound(flags.drop_last());
    }
}

/// Reports every video file, marks those that pass the filters, and counts them.
pub fn scan_run(files: &Vec<ScannedFile>, hint: Option<ScanType>, only_failed: bool, min_confidence_rank: u8) -> (r: ScanRun)
    ensures
        r.reports@.len() == files@.len(),
        r.emitted@.len() == files@.len(),
        forall|k: int|
            0 <= k < files@.len() ==> {
                &&& is_item_report(#[trigger] r.reports@[k], files@[k], hint)
                &&& r.emitted@[k] == included(r.reports@[k].info, only_failed, min_confidence_rank)
            },
        r.total == files@.len(),
        r.emitted_total == count_true(r.emitted@),
        r.omitted_by_filters == r.total - r.emitted_total,
{
    let mut reports: Vec<ScanItemReport> = Vec::new();
    let mut emitted: Vec<bool> = Vec::new();
    let mut count: usize = 0;
    let mut i: usize = 0;
    while i < files.len()
        invariant
            i <= files@.len(),
            reports@.len() == i,
            emitted@.len() == i,
            forall|k: int|
                0 <= k < i ==> {
                    &&& is_item_report(#[trigger] reports@[k], files@[k], hint)
                    &&& emitted@[k] == included(reports@[k].info, only_failed, min_confidence_rank)
                },
            count == count_true(emitted@),
        decreases files.len() - i,
    {
        let report = scan_item_report(&files[i], hint);
        let passes = should_include_scan_report(&report, only_failed, min_confidence_rank);
        proof {
            lemma_count_true_bound(emitted@);
        }
        let ghost before = emitted@;
        emitted.push(passes);
        assert(emitted@.drop_last() =~= before);
        if passes {
            count = count + 1;
        }
        reports.push(report);
        i = i + 1;
    }
    proof {
        lemma_count_true_bound(emitted@);
    }
    let total = reports.len();
    ScanRun { reports, emitted, total, emitted_total: count, omitted_by_filters: total - count }
}

// ---------------------------------------------------------------------------
// Summaries
// ---------------------------------------------------------------------------

/// Counts over the parsed files.
#[derive(Debug, Clone, Copy, PartialEq, Eq)]
pub struct ScanSummary {
    pub parsed_ok: usize,
    pub parsed_failed: usize,
    pub with_year: usize,
    pub with_season: usize,
    pub with_episode: usize,
    pub detected_show: usize,
    pub detected_movie: usize,
    pub detected_unknown: usize,
    pub used_parent_fallback: usize,
    pub missing_title: usize,
    pub missing_year: usize,
    pub missing_season: usize,
    pub missing_episode: usize,
}

/// What a summary counter counts.
pub enum Tally {
    Titled,
    Untitled,
    WithYear,
    WithoutYear,
    WithSeason,
    WithoutSeason,
    WithEpisode,
    WithoutEpisode,
    Show,
    Movie,
    Unknown,
    ParentFallback,
}

/// Whether a report counts towards a counter.
pub open spec fn counts(t: Tally, r: ScanItemReport) -> bool {
    let info = r.info;
    match t {
        Tally::Titled => info.title is Some,
        Tally::Untitled => info.title is None,
        Tally::WithYear => info.year is Some,
        Tally::WithoutYear => info.year is None,
        Tally::WithSeason => info.season is Some,
        Tally::WithoutSeason => info.season is None,
        Tally::WithEpisode => info.episode is Some,
        Tally::WithoutEpisode => info.episode is None,
        Tally::Show => kind_of(info) == "show"@,
        Tally::Movie => kind_of(info) == "movie"@,
        Tally::Unknown => kind_of(info) != "show"@ && kind_of(info) != "movie"@,
        Tally::ParentFallback => r.diagnostics.title_source@ == "parent"@ || r.diagnostics.year_source@ == "parent"@
            || r.diagnostics.season_source@ == "parent"@ || r.diagnostics.episode_source@ == "parent"@,
    }
}

/// How many reports count towards a counter.
pub open spec fn tally(items: Seq<ScanItemReport>, t: Tally) -> nat
    decreases items.len(),
{
    if items.len() == 0 {
        0
    } else {
        tally(items.drop_last(), t) + if counts(t, items.last()) {
            1nat
        } else {
            0nat
        }
    }
}

pub proof fn lemma_tally_bound(items: Seq<ScanItemReport>, t: Tally)
    ensures
        tally(items, t) <= items.len(),
    decreases items.len(),
{
    if items.len() > 0 {
        lemma_tally_bound(items.drop_last(), t);
    }
}

/// `s` holds the counters of `items`.
pub open spec fn is_summary(s: ScanSummary, items: Seq<ScanItemReport>) -> bool {
    &&& s.parsed_ok == tally(items, Tally::Titled)
    &&& s.parsed_failed == tally(items, Tally::Untitled)
    &&& s.with_year == tally(items, Tally::WithYear)
    &&& s.with_season == tally(items, Tally::WithSeason)
    &&& s.with_episode == tally(items, Tally::WithEpisode)
    &&& s.detected_show == tally(items, Tally::Show)
    &&& s.detected_movie == tally(items, Tally::Movie)
    &&& s.detected_unknown == tally(items, Tally::Unknown)
    &&& s.used_parent_fallback == tally(items, Tally::ParentFallback)
    &&& s.missing_title == tally(items, Tally::Untitled)
    &&& s.missing_year == tally(items, Tally::WithoutYear)
    &&& s.missing_season == tally(items, Tally::WithoutSeason)
    &&& s.missing_episode == tally(items, Tally::WithoutEpisode)
}

fn bump(n: usize, yes: bool) -> (r: usize)
    requires
        yes ==> n < usize::MAX,
    ensures
        r == n + if yes {
            1int
        } else {
            0int
        },
{
    if yes {
        n + 1
    } else {
        n
    }
}

/// The counters over the scanned files' reports.
pub fn scan_summary_from_reports(items: &[ScanItemReport]) -> (r: ScanSummary)
    ensures
        is_summary(r, items@),
{
    let mut out = ScanSummary {
        parsed_ok: 0,
        parsed_failed: 0,
        with_year: 0,
        with_season: 0,
        with_episode: 0,
        detected_show: 0,
        detected_movie: 0,
        detected_unknown: 0,
        used_parent_fallback: 0,
        missing_title: 0,
        missing_year: 0,
        missing_season: 0,
        missing_episode: 0,
    };
    let mut i: usize = 0;
    while i < items.len()
        invariant
            i <= items@.len(),
            is_summary(out, items@.take(i as int)),
        decreases items.len() - i,
    {
        let ghost pre = items@.take(i as int);
        let ghost now = items@.take(i + 1);
        assert(now.drop_last() =~= pre);
        assert(now.last() == items@[i as int]);
        proof {
            lemma_tally_bound(pre, Tally::Titled);
            lemma_tally_bound(pre, Tally::Untitled);
            lemma_tally_bound(pre, Tally::WithYear);
            lemma_tally_bound(pre, Tally::WithoutYear);
            lemma_tally_bound(pre, Tally::WithSeason);
            lemma_tally_bound(pre, Tally::WithoutSeason);
            lemma_tally_bound(pre, Tally::WithEpisode);
            lemma_tally_bound(pre, Tally::WithoutEpisode);
            lemma_tally_bound(pre, Tally::Show);
            lemma_tally_bound(pre, Tally::Movie);
            lemma_tally_bound(pre, Tally::Unknown);
            lemma_tally_bound(pre, Tally::ParentFallback);
        }
        let item = &items[i];
        let info = &item.info;
        out.parsed_ok = bump(out.parsed_ok, info.title.is_some());
        out.parsed_failed = bump(out.parsed_failed, info.title.is_none());
        out.with_year = bump(out.with_year, info.year.is_some());
        out.missing_year = bump(out.missing_year, info.year.is_none());
        out.with_season = bump(out.with_season, info.season.is_some());
        out.missing_season = bump(out.missing_season, info.season.is_none());
        out.with_episode = bump(out.with_episode, info.episode.is_some());
        out.missing_episode = bump(out.missing_episode, info.episode.is_none());
        out.missing_title = bump(out.missing_title, info.title.is_none());
        let kind = detected_kind(info);
        let is_show = str_eq(kind, "show");
        let is_movie = str_eq(kind, "movie");
        out.detected_show = bump(out.detected_show, is_show);
        out.detected_movie = bump(out.detected_movie, is_movie);
        out.detected_unknown = bump(out.detected_unknown, !is_show && !is_movie);
        let d = &item.diagnostics;
        let fallback = str_eq(d.title_source.as_str(), "parent") || str_eq(d.year_source.as_str(), "parent")
            || str_eq(d.season_source.as_str(), "parent") || str_eq(d.episode_source.as_str(), "parent");
        out.used_parent_fallback = bump(out.used_parent_fallback, fallback);
        i = i + 1;
    }
    assert(items@.take(items@.len() as int) =~= items@);
    out
}

/// The counters over parse results without diagnostics.
pub fn summarize_scan(items: &[MediaInfo]) -> (r: ScanSummary)
    ensures
        r.parsed_ok == infos_tally(items@, Tally::Titled),
        r.parsed_failed == infos_tally(items@, Tally::Untitled),
        r.with_year == infos_tally(items@, Tally::WithYear),
        r.with_season == infos_tally(items@, Tally::WithSeason),
        r.with_episode == infos_tally(items@, Tally::WithEpisode),
        r.detected_show == infos_tally(items@, Tally::Show),
        r.detected_movie == infos_tally(items@, Tally::Movie),
        r.detected_unknown == infos_tally(items@, Tally::Unknown),
        r.used_parent_fallback == 0,
        r.missing_title == infos_tally(items@, Tally::Untitled),
        r.missing_year == infos_tally(items@, Tally::WithoutYear),
        r.missing_season == infos_tally(items@, Tally::WithoutSeason),
        r.missing_episode == infos_tally(items@, Tally::WithoutEpisode),
{
    let mut reports: Vec<ScanItemReport> = Vec::new();
    let mut i: usize = 0;
    while i < items.len()
        invariant
            i <= items@.len(),
            reports@.len() == i,
            forall|k: int| 0 <= k < i ==> bare_view(#[trigger] reports@[k], items@[k]),
        decreases items.len() - i,
    {
        reports.push(bare_item_report(&items[i]));
        i = i + 1;
    }
    let r = scan_summary_from_reports(reports.as_slice());
    proof {
        lemma_bare_tallies(reports@, items@);
        lemma_no_fallback(items@);
    }
    r
}

/// `report` carries the fields of `info` that the counters read, and no fallback.
pub open spec fn bare_view(report: ScanItemReport, info: MediaInfo) -> bool {
    &&& report.info.title.deep_view() == info.title.deep_view()
    &&& report.info.year == info.year
    &&& report.info.season == info.season
    &&& report.info.episode == info.episode
    &&& report.diagnostics.title_source@ == "missing"@
    &&& report.diagnostics.year_source@ == "missing"@
    &&& report.diagnostics.season_source@ == "missing"@
    &&& report.diagnostics.episode_source@ == "missing"@
}

/// Whether a parse result counts towards a counter (no fallback is ever counted).
pub open spec fn info_counts(t: Tally, info: MediaInfo) -> bool {
    match t {
        Tally::Titled => info.title is Some,
        Tally::Untitled => info.title is None,
        Tally::WithYear => info.year is Some,
        Tally::WithoutYear => info.year is None,
        Tally::WithSeason => info.season is Some,
        Tally::WithoutSeason => info.season is None,
        Tally::WithEpisode => info.episode is Some,
        Tally::WithoutEpisode => info.episode is None,
        Tally::Show => kind_of(info) == "show"@,
        Tally::Movie => kind_of(info) == "movie"@,
        Tally::Unknown => kind_of(info) != "show"@ && kind_of(info) != "movie"@,
        Tally::ParentFallback => false,
    }
}

pub open spec fn infos_tally(items: Seq<MediaInfo>, t: Tally) -> nat
    decreases items.len(),
{
    if items.len() == 0 {
        0
    } else {
        infos_tally(items.drop_last(), t) + if info_counts(t, items.last()) {
            1nat
        } else {
            0nat
        }
    }
}

proof fn lemma_bare_tallies(reports: Seq<ScanItemReport>, items: Seq<MediaInfo>)
    requires
        reports.len() == items.len(),
        forall|k: int| 0 <= k < items.len() ==> bare_view(#[trigger] reports[k], items[k]),
    ensures
        forall|t: Tally| tally(reports, t) == #[trigger] infos_tally(items, t),
    decreases items.len(),
{
    if items.len() > 0 {
        let rs = reports.drop_last();
        let is = items.drop_last();
        assert forall|k: int| 0 <= k < is.len() implies bare_view(#[trigger] rs[k], is[k]) by {
            assert(rs[k] == reports[k]);
        }
        lemma_bare_tallies(rs, is);
        let r = reports.last();
        let m = items.last();
        assert(bare_view(reports[items.len() - 1], items[items.len() - 1]));
        assert forall|t: Tally| tally(reports, t) == #[trigger] infos_tally(items, t) by {
            assert(tally(rs, t) == infos_tally(is, t));
            assert(r.info.title is Some <==> m.title is Some);
            assert(kind_of(r.info) == kind_of(m));
            assert(counts(t, r) == info_counts(t, m)) by {
                if t is ParentFallback {
                    lemma_missing_not_parent();
                }
            }
        }
    }
}

proof fn lemma_no_fallback(items: Seq<MediaInfo>)
    ensures
        infos_tally(items, Tally::ParentFallback) == 0,
    decreases items.len(),
{
    if items.len() > 0 {
        lemma_no_fallback(items.drop_last());
    }
}

proof fn lemma_missing_not_parent()
    ensures
        "missing"@ != "parent"@,
{
    reveal_strlit("missing");
    reveal_strlit("parent");
    assert("missing"@[0] != "parent"@[0]);
}

// ---------------------------------------------------------------------------
// Diagnostics summary
// ---------------------------------------------------------------------------

#[derive(Debug, Clone, Copy, PartialEq, Eq)]
pub struct IssueSummary {
    pub missing_title: usize,
    pub missing_year: usize,
    pub missing_season: usize,
    pub missing_episode: usize,
}

#[derive(Debug, Clone, Copy, PartialEq, Eq)]
pub struct FallbackSummary {
    pub title: usize,
    pub year: usize,
    pub season: usize,
    pub episode: usize,
}

#[derive(Debug, Clone, Copy, PartialEq, Eq)]
pub struct DetectedKindSummary {
    pub show: usize,
    pub movie: usize,
    pub unknown: usize,
}

#[derive(Debug, Clone, Copy, PartialEq, Eq)]
pub struct ParseDiagnosticsSummary {
    pub issue_summary: IssueSummary,
    pub fallback_summary: FallbackSummary,
    pub detected_kind_summary: DetectedKindSummary,
}

/// How many of `issues` are `name`.
pub open spec fn issue_count(issues: Seq<Seq<char>>, name: Seq<char>) -> nat
    decreases issues.len(),
{
    if issues.len() == 0 {
        0
    } else {
        issue_count(issues.drop_last(), name) + if issues.last() == name {
            1nat
        } else {
            0nat
        }
    }
}

/// How many issues named `name` the reports list in all.
pub open spec fn issue_total(items: Seq<ScanItemReport>, name: Seq<char>) -> nat
    decreases items.len(),
{
    if items.len() == 0 {
        0
    } else {
        issue_total(items.drop_last(), name) + issue_count(items.last().diagnostics.issues.deep_view(), name)
    }
}

/// How many reports name the parent as a field's source.
pub open spec fn fallback_count(items: Seq<ScanItemReport>, field: int) -> nat
    decreases items.len(),
{
    if items.len() == 0 {
        0
    } else {
        let d = items.last().diagnostics;
        let src = if field == 0 {
            d.title_source@
        } else if field == 1 {
            d.year_source@
        } else if field == 2 {
            d.season_source@
        } else {
            d.episode_source@
        };
        fallback_count(items.drop_last(), field) + if src == "parent"@ {
            1nat
        } else {
            0nat
        }
    }
}

proof fn lemma_fallback_bound(items: Seq<ScanItemReport>, field: int)
    ensures
        fallback_count(items, field) <= items.len(),
    decreases items.len(),
{
    if items.len() > 0 {
        lemma_fallback_bound(items.drop_last(), field);
    }
}

proof fn lemma_issue_total_monotone(items: Seq<ScanItemReport>, i: int, name: Seq<char>)
    requires
        0 <= i <= items.len(),
    ensures
        issue_total(items.take(i), name) <= issue_total(items, name),
    decreases items.len() - i,
{
    if i < items.len() {
        lemma_issue_total_monotone(items, i + 1, name);
        assert(items.take(i + 1).drop_last() =~= items.take(i));
    } else {
        assert(items.take(i) =~= items);
    }
}

/// Adds the issues named `name` in `issues` to `n`.
fn add_issue_count(n: usize, issues: &Vec<String>, name: &str, bound: Ghost<nat>) -> (r: usize)
    requires
        n + issue_count(issues.deep_view(), name@) <= bound@,
        bound@ <= usize::MAX,
    ensures
        r == n + issue_count(issues.deep_view(), name@),
{
    let mut acc = n;
    let mut k: usize = 0;
    while k < issues.len()
        invariant
            k <= issues.len(),
            acc == n + issue_count(issues.deep_view().take(k as int), name@),
            n + issue_count(issues.deep_view(), name@) <= bound@,
            bound@ <= usize::MAX,
        decreases issues.len() - k,
    {
        proof {
            lemma_issue_count_prefix(issues.deep_view(), k + 1, name@);
            assert(issues.deep_view().take(k + 1).drop_last() =~= issues.deep_view().take(k as int));
        }
        if str_eq(issues[k].as_str(), name) {
            acc = acc + 1;
        }
        k = k + 1;
    }
    assert(issues.deep_view().take(issues.len() as int) =~= issues.deep_view());
    acc
}

proof fn lemma_issue_count_prefix(issues: Seq<Seq<char>>, i: int, name: Seq<char>)
    requires
        0 <= i <= issues.len(),
    ensures
        issue_count(issues.take(i), name) <= issue_count(issues, name),
    decreases issues.len() - i,
{
    if i < issues.len() {
        lemma_issue_count_prefix(issues, i + 1, name);
        assert(issues.take(i + 1).drop_last() =~= issues.take(i));
    } else {
        assert(issues.take(i) =~= issues);
    }
}

/// `s` holds the diagnostics counters of `items`.
pub open spec fn is_diagnostics_summary(s: ParseDiagnosticsSummary, items: Seq<ScanItemReport>) -> bool {
    &&& s.detected_kind_summary.show == tally(items, Tally::Show)
    &&& s.detected_kind_summary.movie == tally(items, Tally::Movie)
    &&& s.detected_kind_summary.unknown == tally(items, Tally::Unknown)
    &&& s.fallback_summary.title == fallback_count(items, 0)
    &&& s.fallback_summary.year == fallback_count(items, 1)
    &&& s.fallback_summary.season == fallback_count(items, 2)
    &&& s.fallback_summary.episode == fallback_count(items, 3)
    &&& s.issue_summary.missing_title == issue_total(items, "missing_title"@)
    &&& s.issue_summary.missing_year == issue_total(items, "missing_year"@)
    &&& s.issue_summary.missing_season == issue_total(items, "missing_season"@)
    &&& s.issue_summary.missing_episode == issue_total(items, "missing_episode"@)
}

/// Counts detected kinds, parent fallbacks and issues over the reports.
pub fn summarize_diagnostics(items: &[ScanItemReport]) -> (r: ParseDiagnosticsSummary)
    requires
        issue_total(items@, "missing_title"@) <= usize::MAX,
        issue_total(items@, "missing_year"@) <= usize::MAX,
        issue_total(items@, "missing_season"@) <= usize::MAX,
        issue_total(items@, "missing_episode"@) <= usize::MAX,
    ensures
        is_diagnostics_summary(r, items@),
{
    let mut out = ParseDiagnosticsSummary {
        issue_summary: IssueSummary { missing_title: 0, missing_year: 0, missing_season: 0, missing_episode: 0 },
        fallback_summary: FallbackSummary { title: 0, year: 0, season: 0, episode: 0 },
        detected_kind_summary: DetectedKindSummary { show: 0, movie: 0, unknown: 0 },
    };
    let mut i: usize = 0;
    while i < items.len()
        invariant
            i <= items@.len(),
            is_diagnostics_summary(out, items@.take(i as int)),
            issue_total(items@, "missing_title"@) <= usize::MAX,
            issue_total(items@, "missing_year"@) <= usize::MAX,
            issue_total(items@, "missing_season"@) <= usize::MAX,
            issue_total(items@, "missing_episode"@) <= usize::MAX,
        decreases items.len() - i,
    {
        let ghost pre = items@.take(i as int);
        let ghost now = items@.take(i + 1);
        assert(now.drop_last() =~= pre);
        assert(now.last() == items@[i as int]);
        proof {
            lemma_tally_bound(pre, Tally::Show);
            lemma_tally_bound(pre, Tally::Movie);
            lemma_tally_bound(pre, Tally::Unknown);
            lemma_fallback_bound(pre, 0);
            lemma_fallback_bound(pre, 1);
            lemma_fallback_bound(pre, 2);
            lemma_fallback_bound(pre, 3);
            lemma_issue_total_monotone(items@, i + 1, "missing_title"@);
            lemma_issue_total_monotone(items@, i + 1, "missing_year"@);
            lemma_issue_total_monotone(items@, i + 1, "missing_season"@);
            lemma_issue_total_monotone(items@, i + 1, "missing_episode"@);
        }
        let item = &items[i];
        let kind = detected_kind(&item.info);
        let is_show = str_eq(kind, "show");
        let is_movie = str_eq(kind, "movie");
        out.detected_kind_summary.show = bump(out.detected_kind_summary.show, is_show);
        out.detected_kind_summary.movie = bump(out.detected_kind_summary.movie, is_movie);
        out.detected_kind_summary.unknown = bump(out.detected_kind_summary.unknown, !is_show && !is_movie);
        let d = &item.diagnostics;
        out.fallback_summary.title = bump(out.fallback_summary.title, str_eq(d.title_source.as_str(), "parent"));
        out.fallback_summary.year = bump(out.fallback_summary.year, str_eq(d.year_source.as_str(), "parent"));
        out.fallback_summary.season = bump(out.fallback_summary.season, str_eq(d.season_source.as_str(), "parent"));
        out.fallback_summary.episode = bump(out.fallback_summary.episode, str_eq(d.episode_source.as_str(), "parent"));
        out.issue_summary.missing_title = add_issue_count(
            out.issue_summary.missing_title,
            &d.issues,
            "missing_title",
            Ghost(issue_total(items@, "missing_title"@)),
        );
        out.issue_summary.missing_year = add_issue_count(
            out.issue_summary.missing_year,
            &d.issues,
            "missing_year",
            Ghost(issue_total(items@, "missing_year"@)),
        );
        out.issue_summary.missing_season = add_issue_count(
            out.issue_summary.missing_season,
            &d.issues,
            "missing_season",
            Ghost(issue_total(items@, "missing_season"@)),
        );
        out.issue_summary.missing_episode = add_issue_count(
            out.issue_summary.missing_episode,
            &d.issues,
            "missing_episode",
            Ghost(issue_total(items@, "missing_episode"@)),
        );
        i = i + 1;
    }
    assert(items@.take(items@.len() as int) =~= items@);
    out
}

// ---------------------------------------------------------------------------
// Text report
// ---------------------------------------------------------------------------

/// A number as shown, or `(not found)`.
pub open spec fn shown_number(v: Option<u16>) -> Seq<char> {
    match v {
        Some(n) => decimal(n as nat),
        None => "(not found)"@,
    }
}

fn number_text(v: Option<u16>) -> (r: String)
    ensures
        r@ == shown_number(v),
{
    match v {
        Some(n) => usize_to_string(n as usize),
        None => copy_str("(not found)"),
    }
}

/// The lines that describe one scanned file: name, fields, kind and confidence, and
/// with `verbose` the parser, the field sources and the issues; then a blank line.
pub open spec fn report_lines(file: ScannedFile, report: ScanItemReport, verbose: bool) -> Seq<Seq<char>> {
    let info = report.info;
    let d = report.diagnostics;
    let base = seq![
        "  "@ + file.file_name@,
        "    Title:   "@ + match info.title.deep_view() {
            Some(t) => t,
            None => "(not found)"@,
        },
        "    Year:    "@ + shown_number(info.year),
        "    Season:  "@ + shown_number(info.season),
        "    Episode: "@ + shown_number(info.episode),
        "    Type:    video"@,
        "    Kind:    "@ + kind_of(info),
        "    Parse:   "@ + confidence_of(info),
    ];
    let extra = if verbose {
        seq![
            "    Parser:  "@ + d.parser_mode@,
            "    Source:  title="@ + d.title_source@ + ", year="@ + d.year_source@ + ", season="@ + d.season_source@
                + ", episode="@ + d.episode_source@,
        ] + if d.issues@.len() > 0 {
            seq!["    Issues:  "@ + join_with(d.issues.deep_view(), ", "@)]
        } else {
            Seq::<Seq<char>>::empty()
        }
    } else {
        Seq::<Seq<char>>::empty()
    };
    base + extra + seq![Seq::<char>::empty()]
}

fn push_line(lines: &mut Vec<String>, line: String)
    ensures
        final(lines).deep_view() == old(lines).deep_view().push(line@),
{
    lines.push(line);
    assert(lines.deep_view() =~= old(lines).deep_view().push(line@));
}

pub fn scan_report_lines(file: &ScannedFile, report: &ScanItemReport, verbose: bool) -> (r: Vec<String>)
    ensures
        r.deep_view() == report_lines(*file, *report, verbose),
{
    let info = &report.info;
    let d = &report.diagnostics;
    let mut lines: Vec<String> = Vec::new();
    push_line(&mut lines, concat("  ", file.file_name.as_str()));
    let title = match &info.title {
        Some(t) => copy_str(t.as_str()),
        None => copy_str("(not found)"),
    };
    push_line(&mut lines, concat("    Title:   ", title.as_str()));
    push_line(&mut lines, concat("    Year:    ", number_text(info.year).as_str()));
    push_line(&mut lines, concat("    Season:  ", number_text(info.season).as_str()));
    push_line(&mut lines, concat("    Episode: ", number_text(info.episode).as_str()));
    push_line(&mut lines, copy_str("    Type:    video"));
    push_line(&mut lines, concat("    Kind:    ", detected_kind(info)));
    push_line(&mut lines, concat("    Parse:   ", parse_confidence(info)));
    let ghost base = lines.deep_view();
    if verbose {
        push_line(&mut lines, concat("    Parser:  ", d.parser_mode.as_str()));
        let mut src = concat("    Source:  title=", d.title_source.as_str());
        src.append(", year=");
        src.append(d.year_source.as_str());
        src.append(", season=");
        src.append(d.season_source.as_str());
        src.append(", episode=");
        src.append(d.episode_source.as_str());
        push_line(&mut lines, src);
        if d.issues.len() > 0 {
            let joined = join_strings(&d.issues, ", ");
            push_line(&mut lines, concat("    Issues:  ", joined.as_str()));
        }
    }
    push_line(&mut lines, String::new());
    assert(lines.deep_view() =~= report_lines(*file, *report, verbose));
    lines
}

} // verus!
