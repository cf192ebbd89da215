//! The `doctor` report: what the configuration and the paths look like.
use vstd::prelude::*;

use crate::cli::DoctorArgs;
use crate::config::{str_eq, AppConfig, ConflictMode, EffectiveOperationMode};
use crate::paths::{parent, parent_of};
use crate::text::{concat, copy_str, decimal, usize_to_string};

verus! {

/// One check: its name, `pass`, `warn` or `fail`, and a detail.
#[derive(Debug, Clone)]
pub struct DoctorCheck {
    pub name: String,
    pub status: String,
    pub detail: String,
}

impl View for DoctorCheck {
    type V = (Seq<char>, Seq<char>, Seq<char>);

    open spec fn view(&self) -> (Seq<char>, Seq<char>, Seq<char>) {
        (self.name@, self.status@, self.detail@)
    }
}

pub open spec fn checks_view(v: Seq<DoctorCheck>) -> Seq<(Seq<char>, Seq<char>, Seq<char>)> {
    v.map_values(|c: DoctorCheck| c@)
}

/// The whole report.
#[derive(Debug, Clone)]
pub struct DoctorReport {
    pub config_path: Option<String>,
    pub tmdb_api_key_present: bool,
    pub checks: Vec<DoctorCheck>,
}

/// What was found on disk for the report.
#[derive(Debug, Clone, Copy)]
pub struct DoctorProbes {
    pub source_exists: bool,
    pub destination_exists: bool,
    pub destination_parent_exists: bool,
}

pub fn doctor_check(name: &str, status: &str, detail: String) -> (r: DoctorCheck)
    ensures
        r@ == (name@, status@, detail@),
{
    DoctorCheck { name: copy_str(name), status: copy_str(status), detail }
}

pub open spec fn status_of(exists: bool) -> Seq<char> {
    if exists {
        "pass"@
    } else {
        "fail"@
    }
}

/// `pass` for a path that exists, else `fail`.
pub fn path_status(exists: bool) -> (r: &'static str)
    ensures
        r@ == status_of(exists),
{
    if exists {
        "pass"
    } else {
        "fail"
    }
}

/// The destination passes when it exists or its parent does, and warns otherwise.
pub open spec fn destination_status_of(path: Seq<char>, exists: bool, parent_exists: bool) -> (Seq<char>, Seq<char>) {
    if exists {
        ("pass"@, "destination exists: "@ + path)
    } else if parent_of(path) is Some && parent_exists {
        ("pass"@, "destination parent exists: "@ + parent_of(path)->0)
    } else {
        ("warn"@, "destination parent missing: "@ + path)
    }
}

pub fn destination_status(path: &str, exists: bool, parent_exists: bool) -> (r: (&'static str, String))
    ensures
        (r.0@, r.1@) == destination_status_of(path@, exists, parent_exists),
{
    if exists {
        return ("pass", concat("destination exists: ", path));
    }
    if let Some(p) = parent(path) {
        if parent_exists {
            return ("pass", concat("destination parent exists: ", p.as_str()));
        }
    }
    ("warn", concat("destination parent missing: ", path))
}

pub open spec fn mode_debug(m: EffectiveOperationMode) -> Seq<char> {
    match m {
        EffectiveOperationMode::Move => "Move"@,
        EffectiveOperationMode::Copy => "Copy"@,
        EffectiveOperationMode::HardLink => "HardLink"@,
        EffectiveOperationMode::SymLink => "SymLink"@,
    }
}

pub open spec fn conflict_debug(m: ConflictMode) -> Seq<char> {
    match m {
        ConflictMode::Skip => "Skip"@,
        ConflictMode::Overwrite => "Overwrite"@,
        ConflictMode::Abort => "Abort"@,
    }
}

pub open spec fn bool_text(b: bool) -> Seq<char> {
    if b {
        "true"@
    } else {
        "false"@
    }
}

fn mode_name(m: EffectiveOperationMode) -> (r: &'static str)
    ensures
        r@ == mode_debug(m),
{
    match m {
        EffectiveOperationMode::Move => "Move",
        EffectiveOperationMode::Copy => "Copy",
        EffectiveOperationMode::HardLink => "HardLink",
        EffectiveOperationMode::SymLink => "SymLink",
    }
}

fn conflict_name(m: ConflictMode) -> (r: &'static str)
    ensures
        r@ == conflict_debug(m),
{
    match m {
        ConflictMode::Skip => "Skip",
        ConflictMode::Overwrite => "Overwrite",
        ConflictMode::Abort => "Abort",
    }
}

fn bool_name(b: bool) -> (r: &'static str)
    ensures
        r@ == bool_text(b),
{
    if b {
        "true"
    } else {
        "false"
    }
}

pub open spec fn config_summary(config: AppConfig) -> Seq<char> {
    "mode="@ + mode_debug(config.general.default_mode) + ", auto_confirm="@ + bool_text(config.general.auto_confirm)
        + ", clean_empty_dirs="@ + bool_text(config.general.clean_empty_dirs) + ", conflict_mode="@ + conflict_debug(
        config.general.conflict_mode,
    )
}

/// `mode=…, auto_confirm=…, clean_empty_dirs=…, conflict_mode=…`.
pub fn effective_config_summary(config: &AppConfig) -> (r: String)
    ensures
        r@ == config_summary(*config),
{
    let mut s = copy_str("mode=");
    s.append(mode_name(config.general.default_mode));
    s.append(", auto_confirm=");
    s.append(bool_name(config.general.auto_confirm));
    s.append(", clean_empty_dirs=");
    s.append(bool_name(config.general.clean_empty_dirs));
    s.append(", conflict_mode=");
    s.append(conflict_name(config.general.conflict_mode));
    s
}

pub open spec fn extensions_summary(config: AppConfig) -> Seq<char> {
    "video="@ + decimal(config.media_extensions.video@.len()) + ", subtitle="@ + decimal(
        config.media_extensions.subtitle@.len(),
    ) + ", audio="@ + decimal(config.media_extensions.audio@.len())
}

/// `video=N, subtitle=N, audio=N`: how many extensions each list holds.
pub fn media_extensions_summary(config: &AppConfig) -> (r: String)
    ensures
        r@ == extensions_summary(*config),
{
    let mut s = copy_str("video=");
    s.append(usize_to_string(config.media_extensions.video.len()).as_str());
    s.append(", subtitle=");
    s.append(usize_to_string(config.media_extensions.subtitle.len()).as_str());
    s.append(", audio=");
    s.append(usize_to_string(config.media_extensions.audio.len()).as_str());
    s
}

/// The configuration file the report names: the one given on the command line, else
/// the local one when it exists, else the global one when it exists.
pub open spec fn report_config_path(
    cli_config: Option<Seq<char>>,
    local_exists: bool,
    global_path: Option<Seq<char>>,
    global_exists: bool,
) -> Option<Seq<char>> {
    if cli_config is Some {
        cli_config
    } else if local_exists {
        Some(".organize.toml"@)
    } else if global_exists {
        global_path
    } else {
        None
    }
}

pub fn config_path_for_report(
    cli_config: Option<String>,
    local_exists: bool,
    global_path: Option<String>,
    global_exists: bool,
) -> (r: Option<String>)
    ensures
        r.deep_view() == report_config_path(cli_config.deep_view(), local_exists, global_path.deep_view(), global_exists),
{
    if cli_config.is_some() {
        return cli_config;
    }
    if local_exists {
        return Some(copy_str(".organize.toml"));
    }
    if global_exists {
        global_path
    } else {
        None
    }
}

/// The checks of the report, in order: config, effective config, TMDB key, source and
/// destination when given, media extensions.
pub open spec fn checks_of(
    config_path: Option<Seq<char>>,
    config: AppConfig,
    args: DoctorArgs,
    probes: DoctorProbes,
) -> Seq<(Seq<char>, Seq<char>, Seq<char>)> {
    let no_key = config.tmdb.api_key@.len() == 0;
    let base = seq![
        ("config"@, "pass"@, match config_path {
            Some(p) => p,
            None => "using default config discovery"@,
        }),
        ("effective_config"@, "pass"@, config_summary(config)),
        ("tmdb_api_key"@, if no_key {
            "warn"@
        } else {
            "pass"@
        }, if no_key {
            "TMDB API key not configured"@
        } else {
            "TMDB API key is available"@
        }),
    ];
    let source = match args.source {
        Some(s) => seq![
            ("source"@, status_of(probes.source_exists), if probes.source_exists {
                "source exists: "@ + s@
            } else {
                "source missing: "@ + s@
            }),
        ],
        None => Seq::empty(),
    };
    let destination = match args.destination {
        Some(d) => {
            let (st, detail) = destination_status_of(d@, probes.destination_exists, probes.destination_parent_exists);
            seq![("destination"@, st, detail)]
        },
        None => Seq::empty(),
    };
    base + source + destination + seq![("media_extensions"@, "pass"@, extensions_summary(config))]
}

fn push_check(checks: &mut Vec<DoctorCheck>, c: DoctorCheck)
    ensures
        checks_view(final(checks)@) == checks_view(old(checks)@).push(c@),
{
    checks.push(c);
    assert(checks_view(checks@) =~= checks_view(old(checks)@).push(c@));
}

/// The report from the configuration, the paths given and what was found on disk.
pub fn doctor_report(config_path: Option<String>, config: &AppConfig, args: &DoctorArgs, probes: DoctorProbes) -> (r: DoctorReport)
    ensures
        r.config_path.deep_view() == config_path.deep_view(),
        r.tmdb_api_key_present == (config.tmdb.api_key@.len() > 0),
        checks_view(r.checks@) == checks_of(config_path.deep_view(), *config, *args, probes),
{
    let mut checks: Vec<DoctorCheck> = Vec::new();
    let config_detail = match &config_path {
        Some(p) => copy_str(p.as_str()),
        None => copy_str("using default config discovery"),
    };
    push_check(&mut checks, doctor_check("config", "pass", config_detail));
    push_check(&mut checks, doctor_check("effective_config", "pass", effective_config_summary(config)));
    let no_key = config.tmdb.api_key.as_str().unicode_len() == 0;
    if no_key {
        push_check(&mut checks, doctor_check("tmdb_api_key", "warn", copy_str("TMDB API key not configured")));
    } else {
        push_check(&mut checks, doctor_check("tmdb_api_key", "pass", copy_str("TMDB API key is available")));
    }
    let ghost base = checks_view(checks@);
    if let Some(source) = &args.source {
        let detail = if probes.source_exists {
            concat("source exists: ", source.as_str())
        } else {
            concat("source missing: ", source.as_str())
        };
        push_check(&mut checks, doctor_check("source", path_status(probes.source_exists), detail));
    }
    let ghost with_source = checks_view(checks@);
    if let Some(destination) = &args.destination {
        let (status, detail) = destination_status(
            destination.as_str(),
            probes.destination_exists,
            probes.destination_parent_exists,
        );
        push_check(&mut checks, doctor_check("destination", status, detail));
    }
    let ghost with_destination = checks_view(checks@);
    push_check(&mut checks, doctor_check("media_extensions", "pass", media_extensions_summary(config)));
    proof {
        let spec_checks = checks_of(config_path.deep_view(), *config, *args, probes);
        assert(checks_view(checks@) =~= spec_checks);
    }
    DoctorReport { config_path, tmdb_api_key_present: !no_key, checks }
}

/// How many checks have `status`.
pub open spec fn status_count(checks: Seq<(Seq<char>, Seq<char>, Seq<char>)>, status: Seq<char>) -> nat
    decreases checks.len(),
{
    if checks.len() == 0 {
        0
    } else {
        status_count(checks.drop_last(), status) + if checks.last().1 == status {
            1nat
        } else {
            0nat
        }
    }
}

proof fn lemma_status_count_bound(checks: Seq<(Seq<char>, Seq<char>, Seq<char>)>, status: Seq<char>)
    ensures
        status_count(checks, status) <= checks.len(),
    decreases checks.len(),
{
    if checks.len() > 0 {
        lemma_status_count_bound(checks.drop_last(), status);
    }
}

/// How many checks pass, warn and fail.
pub fn doctor_tally(report: &DoctorReport) -> (r: (usize, usize, usize))
    ensures
        r.0 == status_count(checks_view(report.checks@), "pass"@),
        r.1 == status_count(checks_view(report.checks@), "warn"@),
        r.2 == status_count(checks_view(report.checks@), "fail"@),
{
    let ghost c = checks_view(report.checks@);
    let mut pass: usize = 0;
    let mut warn: usize = 0;
    let mut fail: usize = 0;
    let mut i: usize = 0;
    while i < report.checks.len()
        invariant
            c == checks_view(report.checks@),
            i <= c.len(),
            pass == status_count(c.take(i as int), "pass"@),
            warn == status_count(c.take(i as int), "warn"@),
            fail == status_count(c.take(i as int), "fail"@),
        decreases c.len() - i,
    {
        assert(c.take(i + 1).drop_last() =~= c.take(i as int));
        assert(c.take(i + 1).last() == report.checks@[i as int]@);
        proof {
            lemma_status_count_bound(c.take(i as int), "pass"@);
            lemma_status_count_bound(c.take(i as int), "warn"@);
            lemma_status_count_bound(c.take(i as int), "fail"@);
        }
        let s = report.checks[i].status.as_str();
        if str_eq(s, "pass") {
            pass = pass + 1;
        }
        if str_eq(s, "warn") {
            warn = warn + 1;
        }
        if str_eq(s, "fail") {
            fail = fail + 1;
        }
        i = i + 1;
    }
    assert(c.take(c.len() as int) =~= c);
    (pass, warn, fail)
}

} // verus!
