use organize::prompt::{group_intro, group_resolution, parse_number_answer, year_question, ShowGroupPrompt};
use organize::config::{EffectiveOperationMode, MediaExtensions, MediaType, AppConfig};
use organize::cli::DoctorArgs;
use organize::doctor::{
    config_path_for_report, destination_status, doctor_report, doctor_tally, effective_config_summary,
    media_extensions_summary, DoctorProbes,
};
use organize::executor::{failure_detail, plan_step, ExecutionResult, OperationStep};
use organize::order::{group_by_key, sort_strings, str_less};
use organize::parser::MediaInfo;
use organize::paths::{file_name, first_component, join, parent, strip_prefix};
use organize::planner::{
    build_movie_plan, build_show_plan, ConflictKind, OperationKind, PathKind, PathState,
    UnparseableReason,
};
use organize::preview::{merge_skipped_groups, plan_preview};
use organize::planner::UnparseableItem;
use organize::resolve::{
    is_extras_folder, parse_video_files, resolve_missing_show_fields, titles_missing_year,
    ShowGroupResolution,
};
use organize::scanner::{classify, lower_ext, scanned_file, MediaClass, NonMediaPolicy, ScanResult};
use organize::tmdb::{first_result_year, has_api_key, parse_year_from_date, tmdb_endpoint};

fn show_info(title: Option<&str>, season: Option<u16>, episode: Option<u16>, path: &str) -> MediaInfo {
    let name = path.rsplit('/').next().unwrap().to_string();
    MediaInfo {
        title: title.map(|t| t.to_string()),
        year: None,
        season,
        episode,
        extension: ".mkv".to_string(),
        original_filename: name,
        full_path: Some(path.to_string()),
    }
}

fn scan_with(paths: &[&str]) -> ScanResult {
    let exts = MediaExtensions::default();
    let mut scan = ScanResult::default();
    for p in paths {
        scan.add(&exts, scanned_file(p));
    }
    scan
}

#[test]
fn paths_split_and_join() {
    assert_eq!(parent("/a/b/c.mkv").as_deref(), Some("/a/b"));
    assert_eq!(parent("/c.mkv").as_deref(), Some("/"));
    assert_eq!(parent("c.mkv").as_deref(), Some(""));
    assert_eq!(parent("/"), None);
    assert_eq!(parent(""), None);
    assert_eq!(file_name("/a/b/c.mkv").as_deref(), Some("c.mkv"));
    assert_eq!(file_name("/a/.."), None);
    assert_eq!(join("/a", "b"), "/a/b");
    assert_eq!(join("/a/", "b"), "/a/b");
    assert_eq!(join("/a", "/b"), "/b");
    assert_eq!(join("", "b"), "b");
    assert_eq!(strip_prefix("/lib/shows/x/y", "/lib/shows").as_deref(), Some("x/y"));
    assert_eq!(strip_prefix("/lib/showsx/y", "/lib/shows"), None);
    assert_eq!(strip_prefix("/lib", "/lib").as_deref(), Some(""));
    assert_eq!(first_component("x/y/z").as_deref(), Some("x"));
    assert_eq!(first_component("/x").as_deref(), Some("/"));
    assert_eq!(first_component(""), None);
}

#[test]
fn joined_file_sits_in_its_folder() {
    let p = join("/library/Show (2019)", "ep.mkv");
    assert_eq!(parent(&p).as_deref(), Some("/library/Show (2019)"));
    assert_eq!(file_name(&p).as_deref(), Some("ep.mkv"));
}

#[test]
fn string_order_and_sorting() {
    assert!(str_less("a", "b"));
    assert!(str_less("ab", "abc"));
    assert!(!str_less("b", "a"));
    assert!(!str_less("same", "same"));
    assert!(str_less("Z", "a"));
    let sorted = sort_strings(vec!["d".to_string(), "b".to_string(), "c".to_string(), "b".to_string()]);
    assert_eq!(sorted, vec!["b", "b", "c", "d"]);
}

#[test]
fn grouping_by_key_sorts_and_partitions() {
    let keys = vec![
        Some("y".to_string()),
        None,
        Some("x".to_string()),
        Some("y".to_string()),
    ];
    let (gk, gm) = group_by_key(&keys);
    assert_eq!(gk, vec!["x", "y"]);
    assert_eq!(gm, vec![vec![2], vec![0, 3]]);
}

#[test]
fn scanner_classifies_by_extension_ignoring_case() {
    assert_eq!(lower_ext("/show/episode01.MKV"), ".mkv");
    assert_eq!(lower_ext("/show/.hidden"), "");
    assert_eq!(lower_ext("/show/noext"), "");
    assert_eq!(lower_ext("/show/archive.tar.GZ"), ".gz");
    let f = scanned_file("/downloads/show/episode01.MKV");
    assert_eq!(f.file_name, "episode01.MKV");
    assert_eq!(f.parent_name, "show");
    assert_eq!(f.extension, ".mkv");
    let exts = MediaExtensions::default();
    assert_eq!(classify(&exts, ".MKV"), MediaClass::Video);
    assert_eq!(classify(&exts, ".srt"), MediaClass::Subtitle);
    assert_eq!(classify(&exts, ".flac"), MediaClass::Audio);
    assert_eq!(classify(&exts, ".jpg"), MediaClass::Other);
    let scan = scan_with(&[
        "/r/show/episode01.MKV",
        "/r/show/episode01.srt",
        "/r/show/episode01.FLAC",
        "/r/show/poster.jpg",
    ]);
    assert_eq!(scan.video_files.len(), 1);
    assert_eq!(scan.subtitle_files.len(), 1);
    assert_eq!(scan.audio_files.len(), 1);
    assert_eq!(scan.other_files.len(), 1);
}

#[test]
fn show_plan_routes_by_season_and_keeps_sidecars() {
    let scan = scan_with(&[
        "/src/Show.Name.S01E01.mkv",
        "/src/Show.Name.S02E01.mkv",
        "/src/Show.Name.S01E01.srt",
        "/elsewhere/notes.txt",
    ]);
    let parsed = parse_video_files(&scan.video_files, MediaType::Show);
    let plan = build_show_plan(
        &scan,
        &parsed,
        "/dest",
        None,
        None,
        EffectiveOperationMode::Copy,
        NonMediaPolicy::Keep,
        &[],
    )
    .expect("plans never fail");
    let dests: Vec<&str> = plan.operations.iter().map(|o| o.destination.as_str()).collect();
    assert_eq!(
        dests,
        vec![
            "/dest/Show Name/Season 01/Show.Name.S01E01.mkv",
            "/dest/Show Name/Season 02/Show.Name.S02E01.mkv",
            "/dest/Show Name/Season 01/Show.Name.S01E01.srt",
        ]
    );
    assert!(plan.operations.iter().all(|o| o.kind == OperationKind::Copy));
    assert!(plan.conflicts.is_empty());
    assert!(plan.unparseable.is_empty());
}

#[test]
fn show_plan_ignore_policy_moves_only_videos() {
    let scan = scan_with(&["/src/Show.Name.S01E01.mkv", "/src/Show.Name.S01E01.srt"]);
    let parsed = parse_video_files(&scan.video_files, MediaType::Show);
    let plan = build_show_plan(
        &scan,
        &parsed,
        "/dest",
        None,
        None,
        EffectiveOperationMode::Move,
        NonMediaPolicy::Ignore,
        &[],
    )
    .unwrap();
    assert_eq!(plan.operations.len(), 1);
    assert_eq!(plan.operations[0].source, "/src/Show.Name.S01E01.mkv");
}

#[test]
fn show_plan_reports_missing_fields_and_conflicts() {
    let parsed = vec![
        show_info(Some("Show"), Some(1), Some(1), "/src/a.mkv"),
        show_info(Some("Show"), None, Some(2), "/src/b.mkv"),
        show_info(None, Some(1), Some(3), "/src/c.mkv"),
        MediaInfo::default(),
    ];
    let existing = vec![
        PathState { path: "/dest/Show/Season 01/a.mkv".to_string(), kind: PathKind::File, read_only: false },
        PathState { path: "/dest".to_string(), kind: PathKind::Directory, read_only: false },
    ];
    let plan = build_show_plan(
        &ScanResult::default(),
        &parsed,
        "/dest",
        None,
        Some(2019),
        EffectiveOperationMode::Move,
        NonMediaPolicy::Keep,
        &existing,
    )
    .unwrap();
    assert_eq!(plan.operations.len(), 1);
    assert_eq!(plan.operations[0].destination, "/dest/Show (2019)/Season 01/a.mkv");
    assert_eq!(plan.unparseable.len(), 2);
    assert_eq!(plan.unparseable[0].reason, UnparseableReason::MissingSeasonOrEpisode);
    assert_eq!(plan.unparseable[1].reason, UnparseableReason::MissingSeasonOrEpisode);
    assert_eq!(plan.unparseable[1].reason.description(), "missing title, season, or episode");
    assert!(plan.conflicts.is_empty());

    let existing = vec![PathState {
        path: "/dest/Show (2019)/Season 01/a.mkv".to_string(),
        kind: PathKind::File,
        read_only: false,
    }];
    let plan = build_show_plan(
        &ScanResult::default(),
        &parsed,
        "/dest",
        None,
        Some(2019),
        EffectiveOperationMode::Move,
        NonMediaPolicy::Keep,
        &existing,
    )
    .unwrap();
    assert_eq!(plan.conflicts, vec!["/dest/Show (2019)/Season 01/a.mkv"]);
    assert_eq!(plan.conflict_details[0].kind, ConflictKind::ExistingFile);
}

#[test]
fn parent_file_blocks_destination() {
    let parsed = vec![show_info(Some("Show"), Some(1), Some(1), "/src/a.mkv")];
    let existing = vec![PathState { path: "/dest/Show".to_string(), kind: PathKind::File, read_only: false }];
    let plan = build_show_plan(
        &ScanResult::default(),
        &parsed,
        "/dest",
        None,
        None,
        EffectiveOperationMode::Move,
        NonMediaPolicy::Keep,
        &existing,
    )
    .unwrap();
    assert_eq!(plan.conflict_details.len(), 1);
    assert_eq!(plan.conflict_details[0].kind, ConflictKind::ParentPathIsFile);
    assert_eq!(plan.conflict_details[0].blocked_by.as_deref(), Some("/dest/Show"));
}

#[test]
fn movie_plan_sends_sidecars_to_matching_or_first_folder() {
    let scan = scan_with(&[
        "/src/a/Movie.Name.2023.1080p.mkv",
        "/src/a/Movie.Name.2023.1080p.srt",
        "/src/b/Other.Film.1999.mkv",
        "/src/c/loose.srt",
    ]);
    let parsed = parse_video_files(&scan.video_files, MediaType::Movie);
    let plan = build_movie_plan(
        &scan,
        &parsed,
        "/movies",
        None,
        None,
        EffectiveOperationMode::Move,
        NonMediaPolicy::Keep,
        &[],
    )
    .unwrap();
    let dests: Vec<&str> = plan.operations.iter().map(|o| o.destination.as_str()).collect();
    assert_eq!(
        dests,
        vec![
            "/movies/Movie Name (2023)/Movie.Name.2023.1080p.mkv",
            "/movies/Other Film (1999)/Other.Film.1999.mkv",
            "/movies/Movie Name (2023)/Movie.Name.2023.1080p.srt",
            "/movies/Movie Name (2023)/loose.srt",
        ]
    );
}

#[test]
fn forced_title_and_year_apply_to_every_movie() {
    let parsed = vec![show_info(None, None, None, "/src/x.mkv")];
    let plan = build_movie_plan(
        &ScanResult::default(),
        &parsed,
        "/movies",
        Some("Forced".to_string()),
        Some(2001),
        EffectiveOperationMode::HardLink,
        NonMediaPolicy::Ignore,
        &[],
    )
    .unwrap();
    assert_eq!(plan.operations[0].destination, "/movies/Forced (2001)/x.mkv");
    assert_eq!(plan.operations[0].kind, OperationKind::HardLink);
}

#[test]
fn extras_folders_map_to_season_zero() {
    assert!(is_extras_folder("Behind The Scenes"));
    assert!(!is_extras_folder("Season 1"));
    let scan = scan_with(&["/src/Show.Specials/Show.Name.E01.mkv"]);
    let parsed = parse_video_files(&scan.video_files, MediaType::Show);
    assert_eq!(parsed[0].season, Some(0));
    assert_eq!(parsed[0].episode, Some(1));
    assert_eq!(parsed[0].title.as_deref(), Some("Show Name E01"));
}

#[test]
fn answers_fill_groups_and_unanswered_groups_are_skipped() {
    let mut items = vec![
        show_info(Some("Show"), None, Some(1), "/d/show/e1.mkv"),
        show_info(Some("Other"), Some(1), None, "/d/other/x.mkv"),
        show_info(Some("Show"), Some(3), Some(3), "/d/show/e3.mkv"),
    ];
    let answers = vec![None, Some(ShowGroupResolution { season: Some(2), episode: None })];
    let skipped = resolve_missing_show_fields(&mut items, false, &answers).unwrap();
    assert_eq!(items[0].season, Some(2));
    assert_eq!(items[1].episode, None);
    assert_eq!(skipped.len(), 1);
    assert_eq!(skipped[0].path, "/d/other/x.mkv");
    assert_eq!(skipped[0].reason, UnparseableReason::UserSkippedInteractiveResolution);
}

#[test]
fn titles_missing_year_are_distinct_in_order() {
    let mut a = show_info(Some("B"), None, None, "/x/1.mkv");
    a.year = None;
    let items = vec![
        a.clone(),
        show_info(Some("A"), None, None, "/x/2.mkv"),
        a,
        MediaInfo { year: Some(2000), title: Some("C".to_string()), ..Default::default() },
    ];
    assert_eq!(titles_missing_year(&items), vec!["B", "A"]);
}

#[test]
fn skipped_groups_replace_missing_entries() {
    let mut plan = organize::planner::Plan::default();
    plan.unparseable.push(UnparseableItem {
        path: "/d/a.mkv".to_string(),
        reason: UnparseableReason::MissingSeasonOrEpisode,
    });
    plan.unparseable.push(UnparseableItem {
        path: "/d/b.mkv".to_string(),
        reason: UnparseableReason::MissingTitle,
    });
    merge_skipped_groups(
        &mut plan,
        vec![UnparseableItem {
            path: "/d/a.mkv".to_string(),
            reason: UnparseableReason::UserSkippedInteractiveResolution,
        }],
    );
    assert_eq!(plan.unparseable.len(), 2);
    assert_eq!(plan.unparseable[0].path, "/d/b.mkv");
    assert_eq!(plan.unparseable[1].reason, UnparseableReason::UserSkippedInteractiveResolution);
}

#[test]
fn preview_groups_folders_and_sorts_files() {
    let scan = scan_with(&["/s/Show.S01E02.mkv", "/s/Show.S01E01.mkv", "/s/Show.S02E01.mkv"]);
    let parsed = parse_video_files(&scan.video_files, MediaType::Show);
    let existing = vec![PathState {
        path: "/dest/Show/Season 01/Show.S01E02.mkv".to_string(),
        kind: PathKind::File,
        read_only: false,
    }];
    let plan = build_show_plan(
        &scan,
        &parsed,
        "/dest",
        None,
        None,
        EffectiveOperationMode::Move,
        NonMediaPolicy::Keep,
        &existing,
    )
    .unwrap();
    let preview = plan_preview(&plan, "/dest");
    assert_eq!(preview.collection_name.as_deref(), Some("Show"));
    assert_eq!(preview.groups.len(), 2);
    assert_eq!(preview.groups[0].folder, "Show/Season 01");
    assert_eq!(preview.groups[0].files[0].name, "Show.S01E01.mkv");
    assert!(!preview.groups[0].files[0].conflict);
    assert_eq!(preview.groups[0].files[1].name, "Show.S01E02.mkv");
    assert!(preview.groups[0].files[1].conflict);
    assert_eq!(preview.groups[1].folder, "Show/Season 02");
    assert_eq!(preview.conflict_count, 1);
    assert_eq!(preview.existing_file_conflicts, 1);
    assert_eq!(preview.operation_count, 3);
}

#[test]
fn executor_steps_and_exit_results() {
    assert_eq!(plan_step(true, false), OperationStep::Skip);
    assert_eq!(plan_step(true, true), OperationStep::Perform { remove_existing: true });
    assert_eq!(plan_step(false, true), OperationStep::Perform { remove_existing: false });
    assert_eq!(failure_detail("/a", "/b", "boom"), "/a -> /b: boom");

    let mut r = ExecutionResult::default();
    r.record_success();
    r.record_skipped();
    assert!(r.into_exit_result().is_ok());

    let mut r = ExecutionResult::default();
    r.record_failure("x failed".to_string());
    assert_eq!(r.failures.len(), 1);
    assert_eq!(r.into_exit_result().unwrap_err(), "complete failure: all operations failed");

    let mut r = ExecutionResult::default();
    r.record_success();
    r.record_failure("x".to_string());
    r.record_failure("y".to_string());
    assert_eq!(r.into_exit_result().unwrap_err(), "partial failure: 2 operations failed");
}

#[test]
fn doctor_report_lists_checks() {
    let config = AppConfig::default();
    assert_eq!(
        effective_config_summary(&config),
        "mode=Move, auto_confirm=false, clean_empty_dirs=false, conflict_mode=Skip"
    );
    assert_eq!(media_extensions_summary(&config), "video=9, subtitle=8, audio=11");
    let args = DoctorArgs {
        source: Some("/src".to_string()),
        destination: Some("/media/tv".to_string()),
        json: false,
        output: None,
    };
    let probes = DoctorProbes { source_exists: false, destination_exists: false, destination_parent_exists: true };
    let report = doctor_report(None, &config, &args, probes);
    assert!(!report.tmdb_api_key_present);
    let names: Vec<&str> = report.checks.iter().map(|c| c.name.as_str()).collect();
    assert_eq!(
        names,
        vec!["config", "effective_config", "tmdb_api_key", "source", "destination", "media_extensions"]
    );
    assert_eq!(report.checks[0].detail, "using default config discovery");
    assert_eq!(report.checks[2].status, "warn");
    assert_eq!(report.checks[3].detail, "source missing: /src");
    assert_eq!(report.checks[4].detail, "destination parent exists: /media");
    assert_eq!(doctor_tally(&report), (4, 1, 1));
    assert_eq!(destination_status("/x/y", false, false).0, "warn");
    assert_eq!(
        config_path_for_report(None, true, Some("/home/u/.config/organize/config.toml".to_string()), true)
            .as_deref(),
        Some(".organize.toml")
    );
}

#[test]
fn tmdb_answers_are_read_by_media_type() {
    assert_eq!(tmdb_endpoint(MediaType::Show), "https://api.themoviedb.org/3/search/tv");
    assert_eq!(parse_year_from_date("2019-01-31".to_string()), Some(2019));
    assert_eq!(parse_year_from_date("20".to_string()), None);
    assert_eq!(parse_year_from_date("abcd-01".to_string()), None);
    assert_eq!(
        first_result_year(MediaType::Show, Some("1999-01-01".to_string()), Some("2005-02-02".to_string())),
        Some(2005)
    );
    assert_eq!(
        first_result_year(MediaType::Movie, Some("1999-01-01".to_string()), None),
        Some(1999)
    );
    assert!(!has_api_key("   "));
    assert!(has_api_key(" k "));
}

#[test]
fn scan_files_sorts_paths_by_kind() {
    let paths = vec![
        "/r/a.mkv".to_string(),
        "/r/a.srt".to_string(),
        "/r/b.MP4".to_string(),
        "/r/notes".to_string(),
    ];
    let scan = organize::scanner::scan_files(&paths, &MediaExtensions::default());
    let videos: Vec<&str> = scan.video_files.iter().map(|f| f.path.as_str()).collect();
    assert_eq!(videos, vec!["/r/a.mkv", "/r/b.MP4"]);
    assert_eq!(scan.subtitle_files.len(), 1);
    assert_eq!(scan.other_files[0].extension, "");
}

#[test]
fn scan_run_marks_filtered_reports() {
    let scan = scan_with(&["/d/Show/Show.S01E01.mkv", "/d/x/zzz.mkv"]);
    let run = organize::report::scan_run(&scan.video_files, None, true, 0);
    assert_eq!(run.total, 2);
    assert_eq!(run.reports[0].diagnostics.parser_mode, "auto");
    assert_eq!(run.emitted, vec![false, false]);
    assert_eq!(run.emitted_total, 0);
    assert_eq!(run.omitted_by_filters, 2);
    let run = organize::report::scan_run(&scan.video_files, None, false, 0);
    assert_eq!(run.emitted_total, 2);
}

#[test]
fn scan_report_lines_show_fields() {
    let file = scanned_file("/d/Show/Show.S01E02.mkv");
    let report = organize::report::scan_item_report(&file, Some(organize::cli::ScanType::Show));
    let lines = organize::report::scan_report_lines(&file, &report, true);
    assert_eq!(lines[0], "  Show.S01E02.mkv");
    assert_eq!(lines[1], "    Title:   Show");
    assert_eq!(lines[2], "    Year:    (not found)");
    assert_eq!(lines[3], "    Season:  1");
    assert_eq!(lines[4], "    Episode: 2");
    assert_eq!(lines[6], "    Kind:    show");
    assert_eq!(lines[7], "    Parse:   high");
    assert_eq!(lines[8], "    Parser:  show");
    assert_eq!(lines[9], "    Source:  title=filename, year=missing, season=filename, episode=filename");
    assert_eq!(lines[10], "    Issues:  missing_year");
    assert_eq!(lines[11], "");
}

#[test]
fn plan_preview_lines_render_the_tree() {
    let scan = scan_with(&["/s/Show.S01E01.mkv"]);
    let parsed = parse_video_files(&scan.video_files, MediaType::Show);
    let plan = build_show_plan(
        &scan,
        &parsed,
        "/dest",
        None,
        None,
        EffectiveOperationMode::Move,
        NonMediaPolicy::Keep,
        &[],
    )
    .unwrap();
    let (_, lines) = organize::preview::plan_preview_lines(&plan, true, true, "/dest");
    assert_eq!(
        lines,
        vec![
            "[DRY RUN] Organizing show: Show",
            "",
            "Destination Preview:",
            "  Show/Season 01/",
            "    [OK] Show.S01E01.mkv",
            "",
            "Summary: 1 files to process, 0 conflicts, 0 skipped",
        ]
    );
}

#[test]
fn prompt_texts_and_answers() {
    let p = ShowGroupPrompt {
        title: Some("Show".to_string()),
        parent_path: "/d/show".to_string(),
        file_count: 1,
        missing_season: true,
        missing_episode: false,
    };
    assert_eq!(
        group_intro(&p),
        "Missing show metadata for \"Show\" in /d/show (1 file). Leave blank to skip this group."
    );
    assert_eq!(parse_number_answer(" 12 "), Some(12));
    assert_eq!(parse_number_answer(""), None);
    assert_eq!(parse_number_answer("x"), None);
    assert_eq!(parse_number_answer("70000"), None);
    assert_eq!(group_resolution(&p, None, None), None);
    assert_eq!(
        group_resolution(&p, Some(3), Some(9)),
        Some(ShowGroupResolution { season: Some(3), episode: None })
    );
    assert_eq!(year_question(Some("  ")), "Year not found. Enter year (or leave blank to skip)");
    assert_eq!(
        year_question(Some("Dune")),
        "Year not found for \"Dune\". Enter year (or leave blank to skip)"
    );
}

#[test]
fn carried_file_conflict_aborts() {
    let scan = scan_with(&["/src/a.mkv", "/src/a.srt"]);
    let parsed = vec![show_info(Some("Show"), Some(1), Some(1), "/src/a.mkv")];
    let existing = vec![PathState {
        path: "/dest/Show/Season 01/a.srt".to_string(),
        kind: PathKind::File,
        read_only: false,
    }];
    let plan = build_show_plan(
        &scan,
        &parsed,
        "/dest",
        None,
        None,
        EffectiveOperationMode::Move,
        NonMediaPolicy::Keep,
        &existing,
    )
    .unwrap();
    assert_eq!(plan.operations.len(), 2);
    assert_eq!(plan.operations[1].destination, "/dest/Show/Season 01/a.srt");
    assert_eq!(plan.conflicts, vec!["/dest/Show/Season 01/a.srt"]);
    assert_eq!(plan.conflict_details[0].kind, ConflictKind::ExistingFile);
    assert!(organize::preflight::preflight_conflicts(&plan, organize::preflight::ConflictPolicy::Abort).is_err());
    assert!(organize::preflight::preflight_conflicts(&plan, organize::preflight::ConflictPolicy::Skip).is_ok());

    let plan = build_show_plan(
        &scan,
        &parsed,
        "/dest",
        None,
        None,
        EffectiveOperationMode::Move,
        NonMediaPolicy::Ignore,
        &existing,
    )
    .unwrap();
    assert!(plan.conflicts.is_empty());
}
