//! Turning parsed media files into a plan of file operations.
//!
//! A plan is computed from the scan, the parsed video files, the destination root and a
//! snapshot of what already exists on disk under the destinations; it does no I/O itself.
use vstd::prelude::*;

use crate::config::{str_eq, EffectiveOperationMode, MediaType};
use crate::parser::MediaInfo;
use crate::paths::{join, joined, lemma_parent_shorter, parent, parent_of};
use crate::scanner::{NonMediaPolicy, ScanResult, ScannedFile};
use crate::text::{copy_str, decimal, two_digit_string, two_digits, usize_to_string};

verus! {

// ---------------------------------------------------------------------------
// Operations
// ---------------------------------------------------------------------------

/// How one file reaches its destination.
#[derive(Debug, Clone, Copy, PartialEq, Eq)]
pub enum OperationKind {
    Move,
    Copy,
    HardLink,
    SymLink,
}

/// The operation kind for an operation mode.
pub open spec fn kind_of_mode(mode: EffectiveOperationMode) -> OperationKind {
    match mode {
        EffectiveOperationMode::Move => OperationKind::Move,
        EffectiveOperationMode::Copy => OperationKind::Copy,
        EffectiveOperationMode::HardLink => OperationKind::HardLink,
        EffectiveOperationMode::SymLink => OperationKind::SymLink,
    }
}

impl From<EffectiveOperationMode> for OperationKind {
    fn from(value: EffectiveOperationMode) -> (r: Self) {
        match value {
            EffectiveOperationMode::Move => OperationKind::Move,
            EffectiveOperationMode::Copy => OperationKind::Copy,
            EffectiveOperationMode::HardLink => OperationKind::HardLink,
            EffectiveOperationMode::SymLink => OperationKind::SymLink,
        }
    }
}

impl vstd::std_specs::convert::FromSpecImpl<EffectiveOperationMode> for OperationKind {
    open spec fn obeys_from_spec() -> bool {
        true
    }

    open spec fn from_spec(v: EffectiveOperationMode) -> Self {
        kind_of_mode(v)
    }
}

/// Source, destination and kind of an operation.
pub type OpView = (Seq<char>, Seq<char>, OperationKind);

/// One file operation.
#[derive(Debug, Clone)]
pub struct Operation {
    pub source: String,
    pub destination: String,
    pub kind: OperationKind,
}

impl View for Operation {
    type V = OpView;

    open spec fn view(&self) -> OpView {
        (self.source@, self.destination@, self.kind)
    }
}

pub open spec fn ops_view(v: Seq<Operation>) -> Seq<OpView> {
    v.map_values(|o: Operation| o@)
}

/// Why a video file has no operation.
#[derive(Debug, Clone, Copy, PartialEq, Eq)]
pub enum UnparseableReason {
    /// A movie file without a title.
    MissingTitle,
    /// A show file without a title, a season or an episode.
    MissingSeasonOrEpisode,
    /// A show file whose folder was skipped when asked for its season and episode.
    UserSkippedInteractiveResolution,
}

pub open spec fn reason_text(reason: UnparseableReason) -> Seq<char> {
    match reason {
        UnparseableReason::MissingTitle => "missing title"@,
        UnparseableReason::MissingSeasonOrEpisode => "missing title, season, or episode"@,
        UnparseableReason::UserSkippedInteractiveResolution => "skipped during interactive resolution"@,
    }
}

impl UnparseableReason {
    /// Files skipped during interactive resolution are reported by group, the others
    /// one by one.
    pub fn should_display(&self) -> (r: bool)
        ensures
            r == !(*self is UserSkippedInteractiveResolution),
    {
        match self {
            UnparseableReason::UserSkippedInteractiveResolution => false,
            _ => true,
        }
    }

    pub fn description(&self) -> (r: &'static str)
        ensures
            r@ == reason_text(*self),
    {
        match self {
            UnparseableReason::MissingTitle => "missing title",
            UnparseableReason::MissingSeasonOrEpisode => "missing title, season, or episode",
            UnparseableReason::UserSkippedInteractiveResolution => "skipped during interactive resolution",
        }
    }
}

/// A video file that gets no operation.
#[derive(Debug, Clone)]
pub struct UnparseableItem {
    pub path: String,
    pub reason: UnparseableReason,
}

impl View for UnparseableItem {
    type V = (Seq<char>, UnparseableReason);

    open spec fn view(&self) -> (Seq<char>, UnparseableReason) {
        (self.path@, self.reason)
    }
}

pub open spec fn skips_view(v: Seq<UnparseableItem>) -> Seq<(Seq<char>, UnparseableReason)> {
    v.map_values(|u: UnparseableItem| u@)
}

/// What stands in the way of a destination.
#[derive(Debug, Clone, Copy, PartialEq, Eq)]
pub enum ConflictKind {
    ExistingFile,
    ExistingDirectory,
    ParentPathIsFile,
}

/// A destination that is taken, and by what.
#[derive(Debug, Clone)]
pub struct ConflictDetail {
    pub path: String,
    pub kind: ConflictKind,
    pub blocked_by: Option<String>,
}

pub type ConflictView = (Seq<char>, ConflictKind, Option<Seq<char>>);

impl View for ConflictDetail {
    type V = ConflictView;

    open spec fn view(&self) -> ConflictView {
        (self.path@, self.kind, self.blocked_by.deep_view())
    }
}

pub open spec fn details_view(v: Seq<ConflictDetail>) -> Seq<ConflictView> {
    v.map_values(|d: ConflictDetail| d@)
}

pub open spec fn strings_view(v: Seq<String>) -> Seq<Seq<char>> {
    v.map_values(|s: String| s@)
}

/// The operations to perform, the destinations already taken, and the video files
/// left out.
#[derive(Debug, Clone)]
pub struct Plan {
    pub operations: Vec<Operation>,
    pub conflicts: Vec<String>,
    pub conflict_details: Vec<ConflictDetail>,
    pub unparseable: Vec<UnparseableItem>,
}

impl Default for Plan {
    fn default() -> (r: Self)
        ensures
            r.operations@.len() == 0,
            r.conflicts@.len() == 0,
            r.conflict_details@.len() == 0,
            r.unparseable@.len() == 0,
    {
        Plan {
            operations: Vec::new(),
            conflicts: Vec::new(),
            conflict_details: Vec::new(),
            unparseable: Vec::new(),
        }
    }
}

// ---------------------------------------------------------------------------
// What exists on disk
// ---------------------------------------------------------------------------

/// Whether an existing path is a file or a directory.
#[derive(Debug, Clone, Copy, PartialEq, Eq)]
pub enum PathKind {
    File,
    Directory,
}

/// A path that exists, as observed before planning.
#[derive(Debug, Clone)]
pub struct PathState {
    pub path: String,
    pub kind: PathKind,
    pub read_only: bool,
}

/// The first observation of `p`, if `p` was observed to exist.
pub open spec fn state_at(entries: Seq<PathState>, p: Seq<char>) -> Option<PathState>
    decreases entries.len(),
{
    if entries.len() == 0 {
        None
    } else if entries[0].path@ == p {
        Some(entries[0])
    } else {
        state_at(entries.subrange(1, entries.len() as int), p)
    }
}

/// `p` itself if it exists, else its nearest existing ancestor.
pub open spec fn nearest_existing(p: Seq<char>, entries: Seq<PathState>) -> Option<Seq<char>>
    decreases p.len(),
{
    if state_at(entries, p) is Some {
        Some(p)
    } else {
        match parent_of(p) {
            None => None,
            Some(q) => {
                proof {
                    lemma_parent_shorter(p);
                }
                nearest_existing(q, entries)
            },
        }
    }
}

/// What blocks `dest`: the path itself existing, or the nearest existing ancestor of its
/// parent being a file.
pub open spec fn conflict_at(dest: Seq<char>, entries: Seq<PathState>) -> Option<(ConflictKind, Option<Seq<char>>)> {
    match state_at(entries, dest) {
        Some(s) => Some(
            (
                if s.kind == PathKind::File {
                    ConflictKind::ExistingFile
                } else {
                    ConflictKind::ExistingDirectory
                },
                None,
            ),
        ),
        None => match parent_of(dest) {
            None => None,
            Some(q) => match nearest_existing(q, entries) {
                None => None,
                Some(a) => match state_at(entries, a) {
                    Some(sa) => if sa.kind == PathKind::File {
                        Some((ConflictKind::ParentPathIsFile, Some(a)))
                    } else {
                        None
                    },
                    None => None,
                },
            },
        },
    }
}

/// Index of the first observation of `p`.
pub fn find_state(entries: &[PathState], p: &str) -> (r: Option<usize>)
    ensures
        r matches Some(k) ==> k < entries@.len() && state_at(entries@, p@) == Some(entries@[k as int]),
        r is None ==> state_at(entries@, p@) is None,
{
    let mut k: usize = 0;
    assert(entries@.subrange(0, entries@.len() as int) =~= entries@);
    while k < entries.len()
        invariant
            k <= entries@.len(),
            state_at(entries@, p@) == state_at(entries@.subrange(k as int, entries@.len() as int), p@),
        decreases entries.len() - k,
    {
        let ghost rest = entries@.subrange(k as int, entries@.len() as int);
        if str_eq(entries[k].path.as_str(), p) {
            return Some(k);
        }
        assert(rest.subrange(1, rest.len() as int) =~= entries@.subrange(k + 1, entries@.len() as int));
        k = k + 1;
    }
    None
}

/// `p` or its nearest existing ancestor, as an index into `entries`.
pub fn find_nearest_existing(p: &str, entries: &[PathState]) -> (r: Option<(String, usize)>)
    ensures
        r matches Some((a, k)) ==> nearest_existing(p@, entries@) == Some(a@) && k < entries@.len()
            && state_at(entries@, a@) == Some(entries@[k as int]),
        r is None ==> nearest_existing(p@, entries@) is None,
{
    let mut cur: Option<String> = Some(copy_str(p));
    loop
        invariant
            cur matches Some(c) ==> nearest_existing(p@, entries@) == nearest_existing(c@, entries@),
            cur is None ==> nearest_existing(p@, entries@) is None,
        decreases (match cur {
            Some(c) => c@.len() + 1,
            None => 0,
        }),
    {
        match cur {
            None => {
                return None;
            },
            Some(c) => {
                if let Some(k) = find_state(entries, c.as_str()) {
                    return Some((c, k));
                }
                proof {
                    lemma_parent_shorter(c@);
                }
                cur = parent(c.as_str());
            },
        }
    }
}

/// What blocks `dest`.
pub fn conflict_for(dest: &str, entries: &[PathState]) -> (r: Option<(ConflictKind, Option<String>)>)
    ensures
        r matches Some((k, b)) ==> conflict_at(dest@, entries@) == Some((k, b.deep_view())),
        r is None ==> conflict_at(dest@, entries@) is None,
{
    match find_state(entries, dest) {
        Some(k) => {
            let kind = match entries[k].kind {
                PathKind::File => ConflictKind::ExistingFile,
                PathKind::Directory => ConflictKind::ExistingDirectory,
            };
            Some((kind, None))
        },
        None => match parent(dest) {
            None => None,
            Some(q) => match find_nearest_existing(q.as_str(), entries) {
                None => None,
                Some((a, k)) => match entries[k].kind {
                    PathKind::File => Some((ConflictKind::ParentPathIsFile, Some(a))),
                    PathKind::Directory => None,
                },
            },
        },
    }
}

// ---------------------------------------------------------------------------
// Destinations
// ---------------------------------------------------------------------------

/// The title used for a file: the forced one, else the parsed one.
pub open spec fn resolved_title(info: MediaInfo, forced: Option<Seq<char>>) -> Option<Seq<char>> {
    match forced {
        Some(t) => Some(t),
        None => info.title.deep_view(),
    }
}

/// The year used for a file: the forced one, else the parsed one.
pub open spec fn resolved_year(info: MediaInfo, forced: Option<u16>) -> Option<u16> {
    match forced {
        Some(y) => Some(y),
        None => info.year,
    }
}

/// `Title (Year)`, or `Title` without a year.
pub open spec fn folder_name(title: Seq<char>, year: Option<u16>) -> Seq<char> {
    match year {
        Some(y) => title + " ("@ + decimal(y as nat) + ")"@,
        None => title,
    }
}

/// `Season NN`.
pub open spec fn season_folder(season: u16) -> Seq<char> {
    "Season "@ + two_digits(season as nat)
}

/// The movie folder of a file: the root joined with `Title (Year)`.
pub open spec fn movie_folder_of(info: MediaInfo, root: Seq<char>, ft: Option<Seq<char>>, fy: Option<u16>) -> Option<Seq<char>> {
    match resolved_title(info, ft) {
        Some(t) => Some(joined(root, folder_name(t, resolved_year(info, fy)))),
        None => None,
    }
}

/// Where a parsed video file goes, or why it goes nowhere. A show file goes to
/// `root/Title (Year)/Season NN/name` and needs a title, a season and an episode; a movie
/// file goes to `root/Title (Year)/name` and needs a title.
pub open spec fn planned_destination(
    media: MediaType,
    info: MediaInfo,
    root: Seq<char>,
    ft: Option<Seq<char>>,
    fy: Option<u16>,
) -> Result<Seq<char>, UnparseableReason> {
    match media {
        MediaType::Show => if info.season is None || info.episode is None {
            Err(UnparseableReason::MissingSeasonOrEpisode)
        } else {
            match resolved_title(info, ft) {
                None => Err(UnparseableReason::MissingSeasonOrEpisode),
                Some(t) => Ok(
                    joined(
                        joined(joined(root, folder_name(t, resolved_year(info, fy))), season_folder(info.season->0)),
                        info.original_filename@,
                    ),
                ),
            }
        },
        MediaType::Movie => match movie_folder_of(info, root, ft, fy) {
            None => Err(UnparseableReason::MissingTitle),
            Some(f) => Ok(joined(f, info.original_filename@)),
        },
    }
}

/// The operations for the video files that have a path and a destination, in order.
pub open spec fn planned_ops(
    parsed: Seq<MediaInfo>,
    media: MediaType,
    root: Seq<char>,
    ft: Option<Seq<char>>,
    fy: Option<u16>,
    kind: OperationKind,
) -> Seq<OpView>
    decreases parsed.len(),
{
    if parsed.len() == 0 {
        Seq::empty()
    } else {
        let prev = planned_ops(parsed.drop_last(), media, root, ft, fy, kind);
        let info = parsed.last();
        match info.full_path.deep_view() {
            Some(src) => match planned_destination(media, info, root, ft, fy) {
                Ok(d) => prev.push((src, d, kind)),
                Err(_) => prev,
            },
            None => prev,
        }
    }
}

/// The video files that have a path but no destination, with the reason, in order.
pub open spec fn planned_skips(
    parsed: Seq<MediaInfo>,
    media: MediaType,
    root: Seq<char>,
    ft: Option<Seq<char>>,
    fy: Option<u16>,
) -> Seq<(Seq<char>, UnparseableReason)>
    decreases parsed.len(),
{
    if parsed.len() == 0 {
        Seq::empty()
    } else {
        let prev = planned_skips(parsed.drop_last(), media, root, ft, fy);
        let info = parsed.last();
        match info.full_path.deep_view() {
            Some(src) => match planned_destination(media, info, root, ft, fy) {
                Ok(_) => prev,
                Err(reason) => prev.push((src, reason)),
            },
            None => prev,
        }
    }
}

/// The destinations of `ops` that are blocked, in order.
pub open spec fn conflicts_of(ops: Seq<OpView>, entries: Seq<PathState>) -> Seq<Seq<char>>
    decreases ops.len(),
{
    if ops.len() == 0 {
        Seq::empty()
    } else {
        let prev = conflicts_of(ops.drop_last(), entries);
        if conflict_at(ops.last().1, entries) is Some {
            prev.push(ops.last().1)
        } else {
            prev
        }
    }
}

/// What blocks each blocked destination of `ops`, in order.
pub open spec fn conflict_details_of(ops: Seq<OpView>, entries: Seq<PathState>) -> Seq<ConflictView>
    decreases ops.len(),
{
    if ops.len() == 0 {
        Seq::empty()
    } else {
        let prev = conflict_details_of(ops.drop_last(), entries);
        match conflict_at(ops.last().1, entries) {
            Some((k, b)) => prev.push((ops.last().1, k, b)),
            None => prev,
        }
    }
}

/// The destination folder of the first operation whose source lies in `dir`.
pub open spec fn first_dest_for_dir(ops: Seq<OpView>, dir: Seq<char>) -> Option<Seq<char>>
    decreases ops.len(),
{
    if ops.len() == 0 {
        None
    } else if parent_of(ops[0].0) == Some(dir) && parent_of(ops[0].1) is Some {
        parent_of(ops[0].1)
    } else {
        first_dest_for_dir(ops.subrange(1, ops.len() as int), dir)
    }
}

/// Show plans carry a non-video file along into the folder of the first video file from
/// the same directory; files from other directories stay behind.
pub open spec fn show_attached(files: Seq<ScannedFile>, primary: Seq<OpView>, kind: OperationKind) -> Seq<OpView>
    decreases files.len(),
{
    if files.len() == 0 {
        Seq::empty()
    } else {
        let prev = show_attached(files.drop_last(), primary, kind);
        let f = files.last();
        match parent_of(f.path@) {
            Some(p) => match first_dest_for_dir(primary, p) {
                Some(d) => prev.push((f.path@, joined(d, f.file_name@), kind)),
                None => prev,
            },
            None => prev,
        }
    }
}

/// The movie folder of the last video file from `dir` that has one.
pub open spec fn last_movie_folder(
    parsed: Seq<MediaInfo>,
    dir: Seq<char>,
    root: Seq<char>,
    ft: Option<Seq<char>>,
    fy: Option<u16>,
) -> Option<Seq<char>>
    decreases parsed.len(),
{
    if parsed.len() == 0 {
        None
    } else {
        let info = parsed.last();
        let rest = last_movie_folder(parsed.drop_last(), dir, root, ft, fy);
        match info.full_path.deep_view() {
            Some(src) => match movie_folder_of(info, root, ft, fy) {
                Some(t) => if parent_of(src) == Some(dir) {
                    Some(t)
                } else {
                    rest
                },
                None => rest,
            },
            None => rest,
        }
    }
}

/// The movie folder of the first video file that has a path and a folder.
pub open spec fn first_movie_folder(parsed: Seq<MediaInfo>, root: Seq<char>, ft: Option<Seq<char>>, fy: Option<u16>) -> Option<Seq<char>>
    decreases parsed.len(),
{
    if parsed.len() == 0 {
        None
    } else {
        let prev = first_movie_folder(parsed.drop_last(), root, ft, fy);
        let info = parsed.last();
        if prev is Some {
            prev
        } else if info.full_path is Some {
            movie_folder_of(info, root, ft, fy)
        } else {
            None
        }
    }
}

/// Movie plans carry a non-video file along into the folder of the last movie from the
/// same directory, or else into the first movie's folder.
pub open spec fn movie_attached(
    files: Seq<ScannedFile>,
    parsed: Seq<MediaInfo>,
    root: Seq<char>,
    ft: Option<Seq<char>>,
    fy: Option<u16>,
    kind: OperationKind,
) -> Seq<OpView>
    decreases files.len(),
{
    if files.len() == 0 {
        Seq::empty()
    } else {
        let prev = movie_attached(files.drop_last(), parsed, root, ft, fy, kind);
        let f = files.last();
        let fallback = first_movie_folder(parsed, root, ft, fy);
        let target = match parent_of(f.path@) {
            Some(p) => match last_movie_folder(parsed, p, root, ft, fy) {
                Some(t) => Some(t),
                None => fallback,
            },
            None => fallback,
        };
        match target {
            Some(t) => prev.push((f.path@, joined(t, f.file_name@), kind)),
            None => prev,
        }
    }
}

/// The operations for the non-video files, subtitles first, then audio, then the rest.
pub open spec fn non_media_ops(
    scan: ScanResult,
    media: MediaType,
    parsed: Seq<MediaInfo>,
    root: Seq<char>,
    ft: Option<Seq<char>>,
    fy: Option<u16>,
    kind: OperationKind,
) -> Seq<OpView> {
    let primary = planned_ops(parsed, media, root, ft, fy, kind);
    match media {
        MediaType::Show => show_attached(scan.subtitle_files@, primary, kind) + show_attached(
            scan.audio_files@,
            primary,
            kind,
        ) + show_attached(scan.other_files@, primary, kind),
        MediaType::Movie => movie_attached(scan.subtitle_files@, parsed, root, ft, fy, kind)
            + movie_attached(scan.audio_files@, parsed, root, ft, fy, kind) + movie_attached(
            scan.other_files@,
            parsed,
            root,
            ft,
            fy,
            kind,
        ),
    }
}

/// `plan` is the plan for `parsed`: the video operations, then (when non-media files
/// are kept) the non-video operations; the video files left out; and the destinations of
/// all these operations that are blocked, with what blocks them.
pub open spec fn is_plan(
    plan: Plan,
    scan: ScanResult,
    media: MediaType,
    parsed: Seq<MediaInfo>,
    root: Seq<char>,
    ft: Option<Seq<char>>,
    fy: Option<u16>,
    mode: EffectiveOperationMode,
    policy: NonMediaPolicy,
    entries: Seq<PathState>,
) -> bool {
    let kind = kind_of_mode(mode);
    let primary = planned_ops(parsed, media, root, ft, fy, kind);
    &&& ops_view(plan.operations@) == primary + (if policy == NonMediaPolicy::Keep {
        non_media_ops(scan, media, parsed, root, ft, fy, kind)
    } else {
        Seq::empty()
    })
    &&& skips_view(plan.unparseable@) == planned_skips(parsed, media, root, ft, fy)
    &&& strings_view(plan.conflicts@) == conflicts_of(ops_view(plan.operations@), entries)
    &&& details_view(plan.conflict_details@) == conflict_details_of(ops_view(plan.operations@), entries)
}

// ---------------------------------------------------------------------------
// Building plans
// ---------------------------------------------------------------------------

/// `Title (Year)` or `Title`.
fn folder_name_string(title: &str, year: Option<u16>) -> (r: String)
    ensures
        r@ == folder_name(title@, year),
{
    match year {
        Some(y) => {
            let mut s = copy_str(title);
            s.append(" (");
            let digits = usize_to_string(y as usize);
            s.append(digits.as_str());
            s.append(")");
            s
        },
        None => copy_str(title),
    }
}

/// The title in force for `info`.
fn title_for(info: &MediaInfo, forced_title: &Option<String>) -> (r: Option<String>)
    ensures
        r.deep_view() == resolved_title(*info, forced_title.deep_view()),
{
    match forced_title {
        Some(t) => Some(copy_str(t.as_str())),
        None => match &info.title {
            Some(t) => Some(copy_str(t.as_str())),
            None => None,
        },
    }
}

/// The movie folder of `info`.
fn movie_folder(info: &MediaInfo, root: &str, forced_title: &Option<String>, forced_year: Option<u16>) -> (r: Option<String>)
    ensures
        r.deep_view() == movie_folder_of(*info, root@, forced_title.deep_view(), forced_year),
{
    match title_for(info, forced_title) {
        None => None,
        Some(t) => {
            let year = match forced_year {
                Some(y) => Some(y),
                None => info.year,
            };
            let name = folder_name_string(t.as_str(), year);
            Some(join(root, name.as_str()))
        },
    }
}

/// Where `info` goes, or why it goes nowhere.
fn destination_for(
    media: MediaType,
    info: &MediaInfo,
    root: &str,
    forced_title: &Option<String>,
    forced_year: Option<u16>,
) -> (r: Result<String, UnparseableReason>)
    ensures
        r matches Ok(d) ==> planned_destination(media, *info, root@, forced_title.deep_view(), forced_year) == Ok::<
            Seq<char>,
            UnparseableReason,
        >(d@),
        r matches Err(e) ==> planned_destination(media, *info, root@, forced_title.deep_view(), forced_year) == Err::<
            Seq<char>,
            UnparseableReason,
        >(e),
{
    match media {
        MediaType::Show => {
            let season = match info.season {
                Some(s) => s,
                None => {
                    return Err(UnparseableReason::MissingSeasonOrEpisode);
                },
            };
            if info.episode.is_none() {
                return Err(UnparseableReason::MissingSeasonOrEpisode);
            }
            match title_for(info, forced_title) {
                None => Err(UnparseableReason::MissingSeasonOrEpisode),
                Some(t) => {
                    let year = match forced_year {
                        Some(y) => Some(y),
                        None => info.year,
                    };
                    let show_folder = folder_name_string(t.as_str(), year);
                    let mut season_name = copy_str("Season ");
                    let digits = two_digit_string(season);
                    season_name.append(digits.as_str());
                    let a = join(root, show_folder.as_str());
                    let b = join(a.as_str(), season_name.as_str());
                    Ok(join(b.as_str(), info.original_filename.as_str()))
                },
            }
        },
        MediaType::Movie => match movie_folder(info, root, forced_title, forced_year) {
            None => Err(UnparseableReason::MissingTitle),
            Some(f) => Ok(join(f.as_str(), info.original_filename.as_str())),
        },
    }
}

proof fn lemma_push_views(ops: Seq<Operation>, o: Operation)
    ensures
        ops_view(ops.push(o)) == ops_view(ops).push(o@),
{
    assert(ops_view(ops.push(o)) =~= ops_view(ops).push(o@));
}

/// The video operations and the left-out files of a plan.
fn plan_videos(
    media: MediaType,
    parsed: &[MediaInfo],
    root: &str,
    forced_title: &Option<String>,
    forced_year: Option<u16>,
    kind: OperationKind,
) -> (plan: Plan)
    ensures
        ops_view(plan.operations@) == planned_ops(parsed@, media, root@, forced_title.deep_view(), forced_year, kind),
        skips_view(plan.unparseable@) == planned_skips(parsed@, media, root@, forced_title.deep_view(), forced_year),
{
    let ghost ft = forced_title.deep_view();
    let mut plan = Plan::default();
    assert(ops_view(plan.operations@) =~= Seq::<OpView>::empty());
    assert(skips_view(plan.unparseable@) =~= Seq::<(Seq<char>, UnparseableReason)>::empty());
    let mut i: usize = 0;
    while i < parsed.len()
        invariant
            i <= parsed@.len(),
            ft == forced_title.deep_view(),
            ops_view(plan.operations@) == planned_ops(parsed@.take(i as int), media, root@, ft, forced_year, kind),
            skips_view(plan.unparseable@) == planned_skips(parsed@.take(i as int), media, root@, ft, forced_year),
        decreases parsed.len() - i,
    {
        let info = &parsed[i];
        let ghost before_ops = ops_view(plan.operations@);
        assert(parsed@.take(i + 1).drop_last() =~= parsed@.take(i as int));
        assert(parsed@.take(i + 1).last() == parsed@[i as int]);
        match &info.full_path {
            None => {},
            Some(src) => {
                let res = destination_for(media, info, root, forced_title, forced_year);
                match res {
                    Ok(dest) => {
                        let op = Operation { source: copy_str(src.as_str()), destination: dest, kind };
                        proof {
                            lemma_push_views(plan.operations@, op);
                        }
                        plan.operations.push(op);
                    },
                    Err(reason) => {
                        let u = UnparseableItem { path: copy_str(src.as_str()), reason };
                        assert(skips_view(plan.unparseable@.push(u)) =~= skips_view(plan.unparseable@).push(u@));
                        plan.unparseable.push(u);
                    },
                }
            },
        }
        i = i + 1;
    }
    assert(parsed@.take(parsed@.len() as int) =~= parsed@);
    plan
}

/// The blocked destinations of `ops`, in order, with what blocks each.
fn find_conflicts(ops: &Vec<Operation>, entries: &[PathState]) -> (r: (Vec<String>, Vec<ConflictDetail>))
    ensures
        strings_view(r.0@) == conflicts_of(ops_view(ops@), entries@),
        details_view(r.1@) == conflict_details_of(ops_view(ops@), entries@),
{
    let mut conflicts: Vec<String> = Vec::new();
    let mut details: Vec<ConflictDetail> = Vec::new();
    assert(strings_view(conflicts@) =~= Seq::<Seq<char>>::empty());
    assert(details_view(details@) =~= Seq::<ConflictView>::empty());
    let mut i: usize = 0;
    while i < ops.len()
        invariant
            i <= ops@.len(),
            strings_view(conflicts@) == conflicts_of(ops_view(ops@.take(i as int)), entries@),
            details_view(details@) == conflict_details_of(ops_view(ops@.take(i as int)), entries@),
        decreases ops.len() - i,
    {
        let dest = ops[i].destination.as_str();
        assert(ops_view(ops@.take(i + 1)).drop_last() =~= ops_view(ops@.take(i as int)));
        assert(ops_view(ops@.take(i + 1)).last().1 == dest@);
        match conflict_for(dest, entries) {
            Some((k, b)) => {
                let d = ConflictDetail { path: copy_str(dest), kind: k, blocked_by: b };
                let c = copy_str(dest);
                assert(details_view(details@.push(d)) =~= details_view(details@).push(d@));
                assert(strings_view(conflicts@.push(c)) =~= strings_view(conflicts@).push(dest@));
                conflicts.push(c);
                details.push(d);
            },
            None => {},
        }
        i = i + 1;
    }
    assert(ops@.take(ops@.len() as int) =~= ops@);
    (conflicts, details)
}

/// The destination folder of the first of `ops[..count]` whose source lies in `dir`.
fn first_dest(ops: &Vec<Operation>, count: usize, dir: &str) -> (r: Option<String>)
    requires
        count <= ops@.len(),
    ensures
        r.deep_view() == first_dest_for_dir(ops_view(ops@.take(count as int)), dir@),
{
    let ghost all = ops_view(ops@.take(count as int));
    let mut k: usize = 0;
    assert(all.subrange(0, all.len() as int) =~= all);
    while k < count
        invariant
            count <= ops@.len(),
            k <= count,
            all == ops_view(ops@.take(count as int)),
            first_dest_for_dir(all, dir@) == first_dest_for_dir(all.subrange(k as int, count as int), dir@),
        decreases count - k,
    {
        let ghost rest = all.subrange(k as int, count as int);
        assert(rest[0] == ops@[k as int]@);
        let sp = parent(ops[k].source.as_str());
        let dp = parent(ops[k].destination.as_str());
        let same = match &sp {
            Some(s) => str_eq(s.as_str(), dir),
            None => false,
        };
        if same {
            if dp.is_some() {
                return dp;
            }
        }
        assert(rest.subrange(1, rest.len() as int) =~= all.subrange(k + 1, count as int));
        k = k + 1;
    }
    None
}

/// Adds the operations that carry `files` along with the video files of a show plan.
fn attach_show_files(files: &Vec<ScannedFile>, ops: &mut Vec<Operation>, count: usize, kind: OperationKind)
    requires
        count <= old(ops)@.len(),
    ensures
        final(ops)@.len() >= old(ops)@.len(),
        final(ops)@.take(count as int) == old(ops)@.take(count as int),
        ops_view(final(ops)@) == ops_view(old(ops)@) + show_attached(
            files@,
            ops_view(old(ops)@.take(count as int)),
            kind,
        ),
{
    let ghost primary = ops_view(old(ops)@.take(count as int));
    let ghost start = ops_view(old(ops)@);
    let mut i: usize = 0;
    assert(start + show_attached(files@.take(0), primary, kind) =~= start);
    while i < files.len()
        invariant
            i <= files@.len(),
            count <= ops@.len(),
            ops@.len() >= old(ops)@.len(),
            ops@.take(count as int) == old(ops)@.take(count as int),
            primary == ops_view(old(ops)@.take(count as int)),
            start == ops_view(old(ops)@),
            ops_view(ops@) == start + show_attached(files@.take(i as int), primary, kind),
        decreases files.len() - i,
    {
        let f = &files[i];
        assert(files@.take(i + 1).drop_last() =~= files@.take(i as int));
        assert(files@.take(i + 1).last() == files@[i as int]);
        let ghost before = ops_view(ops@);
        match parent(f.path.as_str()) {
            None => {},
            Some(p) => {
                match first_dest(ops, count, p.as_str()) {
                    None => {},
                    Some(d) => {
                        let op = Operation {
                            source: copy_str(f.path.as_str()),
                            destination: join(d.as_str(), f.file_name.as_str()),
                            kind,
                        };
                        proof {
                            lemma_push_views(ops@, op);
                        }
                        ops.push(op);
                        assert(ops@.take(count as int) =~= old(ops)@.take(count as int));
                    },
                }
            },
        }
        i = i + 1;
    }
    assert(files@.take(files@.len() as int) =~= files@);
}

/// The movie folder of the last of `parsed` from `dir` that has one.
fn last_folder(parsed: &[MediaInfo], dir: &str, root: &str, forced_title: &Option<String>, forced_year: Option<u16>) -> (r: Option<String>)
    ensures
        r.deep_view() == last_movie_folder(parsed@, dir@, root@, forced_title.deep_view(), forced_year),
{
    let mut k: usize = parsed.len();
    assert(parsed@.take(k as int) =~= parsed@);
    while k > 0
        invariant
            k <= parsed@.len(),
            last_movie_folder(parsed@, dir@, root@, forced_title.deep_view(), forced_year) == last_movie_folder(
                parsed@.take(k as int),
                dir@,
                root@,
                forced_title.deep_view(),
                forced_year,
            ),
        decreases k,
    {
        let info = &parsed[k - 1];
        assert(parsed@.take(k as int).drop_last() =~= parsed@.take(k - 1));
        assert(parsed@.take(k as int).last() == parsed@[k - 1]);
        match &info.full_path {
            None => {},
            Some(src) => {
                match movie_folder(info, root, forced_title, forced_year) {
                    None => {},
                    Some(t) => {
                        let sp = parent(src.as_str());
                        let same = match &sp {
                            Some(s) => str_eq(s.as_str(), dir),
                            None => false,
                        };
                        if same {
                            return Some(t);
                        }
                    },
                }
            },
        }
        k = k - 1;
    }
    None
}

/// Adds the operations that carry `files` along with the video files of a movie plan.
fn attach_movie_files(
    files: &Vec<ScannedFile>,
    ops: &mut Vec<Operation>,
    parsed: &[MediaInfo],
    root: &str,
    forced_title: &Option<String>,
    forced_year: Option<u16>,
    fallback: &Option<String>,
    kind: OperationKind,
)
    requires
        fallback.deep_view() == first_movie_folder(parsed@, root@, forced_title.deep_view(), forced_year),
    ensures
        ops_view(final(ops)@) == ops_view(old(ops)@) + movie_attached(
            files@,
            parsed@,
            root@,
            forced_title.deep_view(),
            forced_year,
            kind,
        ),
{
    let ghost ft = forced_title.deep_view();
    let ghost start = ops_view(old(ops)@);
    let mut i: usize = 0;
    assert(start + movie_attached(files@.take(0), parsed@, root@, ft, forced_year, kind) =~= start);
    while i < files.len()
        invariant
            i <= files@.len(),
            ft == forced_title.deep_view(),
            fallback.deep_view() == first_movie_folder(parsed@, root@, ft, forced_year),
            start == ops_view(old(ops)@),
            ops_view(ops@) == start + movie_attached(files@.take(i as int), parsed@, root@, ft, forced_year, kind),
        decreases files.len() - i,
    {
        let f = &files[i];
        assert(files@.take(i + 1).drop_last() =~= files@.take(i as int));
        assert(files@.take(i + 1).last() == files@[i as int]);
        let target = match parent(f.path.as_str()) {
            Some(p) => match last_folder(parsed, p.as_str(), root, forced_title, forced_year) {
                Some(t) => Some(t),
                None => match fallback {
                    Some(t) => Some(copy_str(t.as_str())),
                    None => None,
                },
            },
            None => match fallback {
                Some(t) => Some(copy_str(t.as_str())),
                None => None,
            },
        };
        match target {
            None => {},
            Some(t) => {
                let op = Operation {
                    source: copy_str(f.path.as_str()),
                    destination: join(t.as_str(), f.file_name.as_str()),
                    kind,
                };
                proof {
                    lemma_push_views(ops@, op);
                }
                ops.push(op);
            },
        }
        i = i + 1;
    }
    assert(files@.take(files@.len() as int) =~= files@);
}

/// The first movie folder of `parsed`.
fn first_folder(parsed: &[MediaInfo], root: &str, forced_title: &Option<String>, forced_year: Option<u16>) -> (r: Option<String>)
    ensures
        r.deep_view() == first_movie_folder(parsed@, root@, forced_title.deep_view(), forced_year),
{
    let mut found: Option<String> = None;
    let mut i: usize = 0;
    while i < parsed.len()
        invariant
            i <= parsed@.len(),
            found.deep_view() == first_movie_folder(parsed@.take(i as int), root@, forced_title.deep_view(), forced_year),
        decreases parsed.len() - i,
    {
        assert(parsed@.take(i + 1).drop_last() =~= parsed@.take(i as int));
        assert(parsed@.take(i + 1).last() == parsed@[i as int]);
        if found.is_none() && parsed[i].full_path.is_some() {
            found = movie_folder(&parsed[i], root, forced_title, forced_year);
        }
        i = i + 1;
    }
    assert(parsed@.take(parsed@.len() as int) =~= parsed@);
    found
}

/// Adds the non-video operations of a show plan.
fn attach_non_media(scan: &ScanResult, plan: &mut Plan, mode: EffectiveOperationMode)
    ensures
        ops_view(final(plan).operations@) == ops_view(old(plan).operations@) + show_attached(
            scan.subtitle_files@,
            ops_view(old(plan).operations@),
            kind_of_mode(mode),
        ) + show_attached(scan.audio_files@, ops_view(old(plan).operations@), kind_of_mode(mode))
            + show_attached(scan.other_files@, ops_view(old(plan).operations@), kind_of_mode(mode)),
        final(plan).conflicts == old(plan).conflicts,
        final(plan).conflict_details == old(plan).conflict_details,
        final(plan).unparseable == old(plan).unparseable,
{
    let kind = OperationKind::from(mode);
    let count = plan.operations.len();
    assert(old(plan).operations@.take(count as int) =~= old(plan).operations@);
    attach_show_files(&scan.subtitle_files, &mut plan.operations, count, kind);
    attach_show_files(&scan.audio_files, &mut plan.operations, count, kind);
    attach_show_files(&scan.other_files, &mut plan.operations, count, kind);
}

/// The plan for a show: each video file goes to
/// `destination_root/Title (Year)/Season NN/`, and (when non-media files are kept) each
/// other file from the same directory goes into the same season folder.
pub fn build_show_plan(
    scan: &ScanResult,
    parsed: &[MediaInfo],
    destination_root: &str,
    forced_title: Option<String>,
    forced_year: Option<u16>,
    mode: EffectiveOperationMode,
    non_media_mode: NonMediaPolicy,
    existing: &[PathState],
) -> (r: Result<Plan, String>)
    ensures
        r matches Ok(plan) && is_plan(
            plan,
            *scan,
            MediaType::Show,
            parsed@,
            destination_root@,
            forced_title.deep_view(),
            forced_year,
            mode,
            non_media_mode,
            existing@,
        ),
{
    let kind = OperationKind::from(mode);
    let mut plan = plan_videos(MediaType::Show, parsed, destination_root, &forced_title, forced_year, kind);
    let ghost primary = ops_view(plan.operations@);
    match non_media_mode {
        NonMediaPolicy::Keep => {
            attach_non_media(scan, &mut plan, mode);
            assert(ops_view(plan.operations@) =~= primary + (show_attached(scan.subtitle_files@, primary, kind)
                + show_attached(scan.audio_files@, primary, kind) + show_attached(scan.other_files@, primary, kind)));
        },
        NonMediaPolicy::Ignore => {
            assert(ops_view(plan.operations@) =~= ops_view(plan.operations@) + Seq::<OpView>::empty());
        },
    }
    let (conflicts, details) = find_conflicts(&plan.operations, existing);
    plan.conflicts = conflicts;
    plan.conflict_details = details;
    Ok(plan)
}

/// The plan for movies: each video file goes to `destination_root/Title (Year)/`, and
/// (when non-media files are kept) each other file goes into the folder of the last
/// movie from the same directory, or else into the first movie's folder.
pub fn build_movie_plan(
    scan: &ScanResult,
    parsed: &[MediaInfo],
    destination_root: &str,
    forced_title: Option<String>,
    forced_year: Option<u16>,
    mode: EffectiveOperationMode,
    non_media_mode: NonMediaPolicy,
    existing: &[PathState],
) -> (r: Result<Plan, String>)
    ensures
        r matches Ok(plan) && is_plan(
            plan,
            *scan,
            MediaType::Movie,
            parsed@,
            destination_root@,
            forced_title.deep_view(),
            forced_year,
            mode,
            non_media_mode,
            existing@,
        ),
{
    let kind = OperationKind::from(mode);
    let mut plan = plan_videos(MediaType::Movie, parsed, destination_root, &forced_title, forced_year, kind);
    let ghost primary = ops_view(plan.operations@);
    let ghost ft = forced_title.deep_view();
    let ghost root = destination_root@;
    match non_media_mode {
        NonMediaPolicy::Keep => {
            let fallback = first_folder(parsed, destination_root, &forced_title, forced_year);
            attach_movie_files(
                &scan.subtitle_files,
                &mut plan.operations,
                parsed,
                destination_root,
                &forced_title,
                forced_year,
                &fallback,
                kind,
            );
            attach_movie_files(
                &scan.audio_files,
                &mut plan.operations,
                parsed,
                destination_root,
                &forced_title,
                forced_year,
                &fallback,
                kind,
            );
            attach_movie_files(
                &scan.other_files,
                &mut plan.operations,
                parsed,
                destination_root,
                &forced_title,
                forced_year,
                &fallback,
                kind,
            );
            assert(ops_view(plan.operations@) =~= primary + (movie_attached(scan.subtitle_files@, parsed@, root, ft, forced_year, kind)
                + movie_attached(scan.audio_files@, parsed@, root, ft, forced_year, kind) + movie_attached(scan.other_files@, parsed@, root, ft, forced_year, kind)));
        },
        NonMediaPolicy::Ignore => {
            assert(ops_view(plan.operations@) =~= ops_view(plan.operations@) + Seq::<OpView>::empty());
        },
    }
    let (conflicts, details) = find_conflicts(&plan.operations, existing);
    plan.conflicts = conflicts;
    plan.conflict_details = details;
    Ok(plan)
}

} // verus!
