use organize::cli::{ConfidenceArg, ConflictArg, ShowMovieArgs};
use organize::config::{AppConfig, ConflictMode, MediaType};
use organize::parser::MediaInfo;
use organize::paths::join;
use organize::planner::{
    Operation, OperationKind, PathKind, PathState, Plan, UnparseableItem, UnparseableReason,
};
use organize::preflight::{
    preflight_conflicts, preflight_destination_access, resolve_conflict_policy, ConflictPolicy,
};
use organize::preview::{build_group_preview, infer_collection_name, summarize_skipped_groups, truncate_middle};
use organize::report::{
    confidence_arg_to_rank, confidence_rank, detected_kind, parse_confidence, should_include_scan_item,
    summarize_scan, to_json_scan_item,
};
use organize::resolve::{
    apply_show_group_resolution, collect_show_prompt_groups, resolve_missing_show_fields,
    resolve_missing_years, resolve_year, ShowGroupResolution, ShowPromptGroup,
};
use organize::scanner::ScannedFile;
use organize::tmdb::MetadataLookup;
use std::path::Path;
use tempfile::tempdir;

struct FailingLookup;

struct FixedLookup {
    year: Option<u16>,
}

impl MetadataLookup for FailingLookup {
    fn lookup_year(&self, _title: &str, _media_type: MediaType) -> Result<Option<u16>, String> {
        Err("network unavailable".to_string())
    }
}

impl MetadataLookup for FixedLookup {
    fn lookup_year(&self, _title: &str, _media_type: MediaType) -> Result<Option<u16>, String> {
        Ok(self.year)
    }
}

fn args(overwrite: bool, on_conflict: Option<ConflictArg>) -> ShowMovieArgs {
    ShowMovieArgs {
        source: "/tmp/src".to_string(),
        destination: "/tmp/dst".to_string(),
        copy: false,
        link: false,
        symlink: false,
        overwrite,
        on_conflict,
        clean: false,
        title: None,
        year: None,
        non_media: None,
        dry_run: false,
        yes: false,
    }
}

fn config_with_conflict_mode(mode: ConflictMode) -> AppConfig {
    let mut cfg = AppConfig::default();
    cfg.general.conflict_mode = mode;
    cfg
}

/// A temporary directory, as the program records an existing writable directory.
fn writable_dir(path: &Path) -> PathState {
    PathState {
        path: path.display().to_string(),
        kind: PathKind::Directory,
        read_only: false,
    }
}

#[test]
fn truncate_middle_short_string_unchanged() {
    assert_eq!(truncate_middle("short", 20), "short");
}

#[test]
fn truncate_middle_long_string_uses_ellipsis() {
    let value = "/this/is/a/very/long/path/that/needs/truncation/file.mkv";
    let out = truncate_middle(value, 24);
    assert!(out.contains("..."));
    assert!(out.len() <= 25);
}

#[test]
fn truncate_middle_handles_utf8_without_panicking() {
    let value = "/movies/अंदाज़-अपना-अपना/épisode-finale-東京.mkv";
    let out = truncate_middle(value, 18);
    assert!(out.contains("..."));
    assert!(out.chars().count() <= 18);
}

#[test]
fn resolve_missing_years_applies_forced_year_to_all_missing() {
    let mut items = vec![
        MediaInfo {
            title: Some("Game Changer".to_string()),
            year: None,
            ..Default::default()
        },
        MediaInfo {
            title: Some("Game Changer".to_string()),
            year: Some(2018),
            ..Default::default()
        },
    ];

    resolve_missing_years(&mut items, Some(2019), MediaType::Show, true, &vec![], &FailingLookup)
        .expect("forced year should resolve without lookup");

    assert_eq!(items[0].year, Some(2019));
    assert_eq!(items[1].year, Some(2018));
}

#[test]
fn resolve_missing_years_uses_lookup_when_unresolved() {
    let mut items = vec![
        MediaInfo {
            title: Some("Game Changer".to_string()),
            year: None,
            ..Default::default()
        },
        MediaInfo {
            title: Some("Game Changer".to_string()),
            year: None,
            ..Default::default()
        },
    ];

    resolve_missing_years(
        &mut items,
        None,
        MediaType::Show,
        true,
        &vec![],
        &FixedLookup { year: Some(2019) },
    )
    .expect("lookup should resolve shared title year");

    assert_eq!(items[0].year, Some(2019));
    assert_eq!(items[1].year, Some(2019));
}

#[test]
fn infer_collection_name_uses_first_destination_component() {
    let destination = "/library/shows";
    let mut plan = Plan::default();
    plan.operations.push(Operation {
        source: "/downloads/Game.Changer.S01E01.mkv".to_string(),
        destination: join(
            &join(&join(destination, "Game Changer (2019)"), "Season 01"),
            "Game.Changer.S01E01.mkv",
        ),
        kind: OperationKind::Move,
    });

    let folder = infer_collection_name(&plan, destination);
    assert_eq!(folder.as_deref(), Some("Game Changer (2019)"));
}

#[test]
fn conflict_policy_overwrite_flag_wins() {
    let a = args(true, Some(ConflictArg::Abort));
    let cfg = config_with_conflict_mode(ConflictMode::Skip);
    assert_eq!(resolve_conflict_policy(&a, &cfg), ConflictPolicy::Overwrite);
}

#[test]
fn conflict_policy_uses_on_conflict_value() {
    let cfg = config_with_conflict_mode(ConflictMode::Skip);
    assert_eq!(
        resolve_conflict_policy(&args(false, Some(ConflictArg::Skip)), &cfg),
        ConflictPolicy::Skip
    );
    assert_eq!(
        resolve_conflict_policy(&args(false, Some(ConflictArg::Overwrite)), &cfg),
        ConflictPolicy::Overwrite
    );
    assert_eq!(
        resolve_conflict_policy(&args(false, Some(ConflictArg::Abort)), &cfg),
        ConflictPolicy::Abort
    );
}

#[test]
fn conflict_policy_falls_back_to_config() {
    let args = args(false, None);
    let cfg_overwrite = config_with_conflict_mode(ConflictMode::Overwrite);
    let cfg_abort = config_with_conflict_mode(ConflictMode::Abort);
    let cfg_skip = config_with_conflict_mode(ConflictMode::Skip);

    assert_eq!(resolve_conflict_policy(&args, &cfg_overwrite), ConflictPolicy::Overwrite);
    assert_eq!(resolve_conflict_policy(&args, &cfg_abort), ConflictPolicy::Abort);
    assert_eq!(resolve_conflict_policy(&args, &cfg_skip), ConflictPolicy::Skip);
}

#[test]
fn preflight_conflicts_aborts_when_configured() {
    let mut plan = Plan::default();
    plan.conflicts.push("/tmp/existing.mkv".to_string());
    assert!(preflight_conflicts(&plan, ConflictPolicy::Abort).is_err());
    assert!(preflight_conflicts(&plan, ConflictPolicy::Skip).is_ok());
    assert!(preflight_conflicts(&plan, ConflictPolicy::Overwrite).is_ok());
}

#[test]
fn summarize_scan_counts_parse_coverage() {
    let items = vec![
        MediaInfo {
            title: Some("A".to_string()),
            year: Some(2020),
            season: Some(1),
            episode: Some(1),
            ..Default::default()
        },
        MediaInfo {
            title: Some("B".to_string()),
            year: None,
            season: Some(2),
            episode: None,
            ..Default::default()
        },
        MediaInfo::default(),
    ];

    let summary = summarize_scan(&items);
    assert_eq!(summary.parsed_ok, 2);
    assert_eq!(summary.parsed_failed, 1);
    assert_eq!(summary.with_year, 1);
    assert_eq!(summary.with_season, 2);
    assert_eq!(summary.with_episode, 1);
}

#[test]
fn parse_confidence_classifies_expected_levels() {
    let high = MediaInfo {
        title: Some("Show".to_string()),
        year: Some(2020),
        season: Some(1),
        episode: Some(2),
        ..Default::default()
    };
    let medium = MediaInfo {
        title: Some("Movie".to_string()),
        ..Default::default()
    };
    let low = MediaInfo::default();

    assert_eq!(parse_confidence(&high), "high");
    assert_eq!(parse_confidence(&medium), "medium");
    assert_eq!(parse_confidence(&low), "low");
}

#[test]
fn detected_kind_prefers_show_when_episode_or_season_present() {
    let show_info = MediaInfo {
        title: Some("The Show".to_string()),
        season: Some(1),
        ..Default::default()
    };
    let movie_info = MediaInfo {
        title: Some("The Movie".to_string()),
        ..Default::default()
    };
    let unknown = MediaInfo::default();

    assert_eq!(detected_kind(&show_info), "show");
    assert_eq!(detected_kind(&movie_info), "movie");
    assert_eq!(detected_kind(&unknown), "unknown");
}

#[test]
fn resolve_year_returns_none_on_lookup_failure() {
    let lookup = FailingLookup;
    let year = resolve_year(Some("Some Title"), MediaType::Movie, true, None, &lookup)
        .expect("resolve_year should not fail when lookup errors");
    assert_eq!(year, None);
}

#[test]
fn to_json_scan_item_includes_kind_and_confidence() {
    let file = ScannedFile {
        path: "/tmp/Show.S01E01.mkv".to_string(),
        file_name: "Show.S01E01.mkv".to_string(),
        parent_name: "Show".to_string(),
        extension: ".mkv".to_string(),
    };
    let info = MediaInfo {
        title: Some("Show".to_string()),
        season: Some(1),
        episode: Some(1),
        ..Default::default()
    };

    let json_item = to_json_scan_item(&file, &info);
    assert_eq!(json_item.file_name, "Show.S01E01.mkv");
    assert_eq!(json_item.source_path, "/tmp/Show.S01E01.mkv");
    assert_eq!(json_item.extension, ".mkv");
    assert_eq!(json_item.media_type, "video");
    assert_eq!(json_item.detected_kind, "show");
    assert_eq!(json_item.parse_confidence, "high");
}

#[test]
fn confidence_rank_orders_levels() {
    assert!(confidence_rank("high") > confidence_rank("medium"));
    assert!(confidence_rank("medium") > confidence_rank("low"));
    assert_eq!(confidence_rank("unknown"), 0);
}

#[test]
fn confidence_arg_to_rank_matches_strings() {
    assert_eq!(confidence_arg_to_rank(ConfidenceArg::Low), 1);
    assert_eq!(confidence_arg_to_rank(ConfidenceArg::Medium), 2);
    assert_eq!(confidence_arg_to_rank(ConfidenceArg::High), 3);
}

#[test]
fn should_include_scan_item_applies_filters() {
    let ok = MediaInfo {
        title: Some("Show".to_string()),
        year: Some(2020),
        season: Some(1),
        episode: Some(1),
        ..Default::default()
    };
    let failed = MediaInfo::default();

    assert!(should_include_scan_item(&ok, false, 1));
    assert!(should_include_scan_item(&ok, false, 3));
    assert!(!should_include_scan_item(&ok, true, 1));
    assert!(should_include_scan_item(&failed, true, 1));
    assert!(!should_include_scan_item(&failed, false, 2));
}

#[test]
fn omitted_by_filters_count_math_is_stable() {
    let total = 10usize;
    let emitted = 4usize;
    let omitted = total.saturating_sub(emitted);
    assert_eq!(omitted, 6);
}

#[test]
fn preflight_destination_access_accepts_writable_temp_path() {
    let dir = tempdir().expect("create tempdir");
    let plan = Plan {
        operations: vec![Operation {
            source: dir.path().join("src/file.mkv").display().to_string(),
            destination: dir.path().join("dest/file.mkv").display().to_string(),
            kind: OperationKind::Copy,
        }],
        ..Default::default()
    };

    let existing = vec![writable_dir(dir.path())];
    assert!(preflight_destination_access(&plan, &existing).is_ok());
}

#[test]
fn preflight_destination_access_rejects_parent_path_file_collision() {
    let dir = tempdir().expect("create tempdir");
    let blocker = dir.path().join("dest");
    let existing = vec![
        writable_dir(dir.path()),
        PathState {
            path: blocker.display().to_string(),
            kind: PathKind::File,
            read_only: false,
        },
    ];

    let plan = Plan {
        operations: vec![Operation {
            source: dir.path().join("src/file.mkv").display().to_string(),
            destination: blocker.join("child/file.mkv").display().to_string(),
            kind: OperationKind::Copy,
        }],
        ..Default::default()
    };

    let err = preflight_destination_access(&plan, &existing)
        .expect_err("expected parent file collision to fail");
    assert!(err.contains("parent path collides with existing file"));
}

#[test]
fn collect_show_prompt_groups_groups_by_parent_folder() {
    let items = vec![
        MediaInfo {
            title: Some("Show".to_string()),
            season: None,
            episode: Some(1),
            full_path: Some("/tmp/downloads/show/ep1.mkv".to_string()),
            ..Default::default()
        },
        MediaInfo {
            title: Some("Show".to_string()),
            season: None,
            episode: Some(2),
            full_path: Some("/tmp/downloads/show/ep2.mkv".to_string()),
            ..Default::default()
        },
        MediaInfo {
            title: Some("Other".to_string()),
            season: Some(1),
            episode: None,
            full_path: Some("/tmp/downloads/other/ep1.mkv".to_string()),
            ..Default::default()
        },
    ];

    let groups = collect_show_prompt_groups(&items);
    assert_eq!(groups.len(), 2);
    assert_eq!(groups[0].indices, vec![2]);
    assert_eq!(groups[0].parent_path, "/tmp/downloads/other");
    assert!(!groups[0].missing_season);
    assert!(groups[0].missing_episode);
    assert_eq!(groups[1].indices, vec![0, 1]);
    assert_eq!(groups[1].parent_path, "/tmp/downloads/show");
    assert!(groups[1].missing_season);
    assert!(!groups[1].missing_episode);
}

#[test]
fn build_group_preview_collects_sorted_samples_and_remaining_count() {
    let items = vec![
        MediaInfo {
            original_filename: "c.mkv".to_string(),
            ..Default::default()
        },
        MediaInfo {
            original_filename: "a.mkv".to_string(),
            ..Default::default()
        },
        MediaInfo {
            original_filename: "d.mkv".to_string(),
            ..Default::default()
        },
        MediaInfo {
            original_filename: "b.mkv".to_string(),
            ..Default::default()
        },
    ];
    let group = ShowPromptGroup {
        parent_path: "/tmp/downloads/show".to_string(),
        title: Some("Show".to_string()),
        indices: vec![0, 1, 2, 3],
        missing_season: true,
        missing_episode: false,
    };

    let preview = build_group_preview(&items, &group);
    assert_eq!(preview.parent_path, "/tmp/downloads/show");
    assert_eq!(preview.file_count, 4);
    assert_eq!(preview.sample_files, vec!["a.mkv", "b.mkv", "c.mkv"]);
    assert_eq!(preview.remaining_count, 1);
}

#[test]
fn summarize_skipped_groups_groups_by_parent_folder() {
    let items = [
        UnparseableItem {
            path: "/tmp/downloads/show/a.mkv".to_string(),
            reason: UnparseableReason::UserSkippedInteractiveResolution,
        },
        UnparseableItem {
            path: "/tmp/downloads/show/b.mkv".to_string(),
            reason: UnparseableReason::UserSkippedInteractiveResolution,
        },
        UnparseableItem {
            path: "/tmp/downloads/other/c.mkv".to_string(),
            reason: UnparseableReason::UserSkippedInteractiveResolution,
        },
    ];

    let groups = summarize_skipped_groups(&items);
    assert_eq!(groups.len(), 2);
    assert_eq!(groups[0].parent_path, "/tmp/downloads/other");
    assert_eq!(groups[0].file_count, 1);
    assert_eq!(groups[0].sample_files, vec!["c.mkv"]);
    assert_eq!(groups[1].parent_path, "/tmp/downloads/show");
    assert_eq!(groups[1].file_count, 2);
    assert_eq!(groups[1].sample_files, vec!["a.mkv", "b.mkv"]);
}

#[test]
fn apply_show_group_resolution_only_fills_missing_fields() {
    let mut items = vec![
        MediaInfo {
            season: Some(4),
            episode: None,
            ..Default::default()
        },
        MediaInfo {
            season: None,
            episode: Some(9),
            ..Default::default()
        },
    ];

    apply_show_group_resolution(
        &mut items,
        &[0, 1],
        ShowGroupResolution {
            season: Some(2),
            episode: Some(7),
        },
    );

    assert_eq!(items[0].season, Some(4));
    assert_eq!(items[0].episode, Some(7));
    assert_eq!(items[1].season, Some(2));
    assert_eq!(items[1].episode, Some(9));
}

#[test]
fn resolve_missing_show_fields_yes_mode_skips_prompting() {
    let mut items = vec![MediaInfo {
        title: Some("Show".to_string()),
        season: None,
        episode: None,
        full_path: Some("/tmp/downloads/show/ep1.mkv".to_string()),
        ..Default::default()
    }];

    let skipped =
        resolve_missing_show_fields(&mut items, true, &vec![]).expect("yes mode should not fail");
    assert!(skipped.is_empty());
    assert_eq!(items[0].season, None);
    assert_eq!(items[0].episode, None);
}
