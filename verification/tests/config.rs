use organize::cli::{Cli, Commands, ConflictArg, NonMediaArg, ScanArgs, ShowMovieArgs};
use organize::config::non_media_policy;
use organize::preflight::{run_flags, RunFlags};
use organize::scanner::NonMediaPolicy;
use organize::config::{
    normalize_extensions, parse_mode_name, AppConfig, ConflictMode, EffectiveOperationMode,
    GeneralConfig, MediaExtensions, NonMediaMode, PartialConfig, PartialGeneralConfig,
    PartialMediaExtensions, PartialNonMediaConfig, PartialTmdbConfig,
};

#[test]
fn general_merge_applies_conflict_mode_override() {
    let mut general = GeneralConfig::default();
    assert_eq!(general.conflict_mode, ConflictMode::Skip);

    general.merge(PartialGeneralConfig {
        default_mode: None,
        auto_confirm: None,
        clean_empty_dirs: None,
        conflict_mode: Some(ConflictMode::Abort),
        log_file: None,
    });

    assert_eq!(general.conflict_mode, ConflictMode::Abort);
}

#[test]
fn general_merge_ignores_absent_fields() {
    let mut general = GeneralConfig {
        default_mode: EffectiveOperationMode::Copy,
        auto_confirm: true,
        ..Default::default()
    };

    general.merge(PartialGeneralConfig {
        default_mode: None,
        auto_confirm: None,
        clean_empty_dirs: None,
        conflict_mode: None,
        log_file: None,
    });

    assert_eq!(general.default_mode, EffectiveOperationMode::Copy);
    assert!(general.auto_confirm);
    assert_eq!(general.conflict_mode, ConflictMode::Skip);
}

#[test]
fn media_extensions_merge_normalizes_values() {
    let mut exts = MediaExtensions::default();
    exts.merge(PartialMediaExtensions {
        video: Some(vec![" MKV ".to_string(), "mp4".to_string()]),
        subtitle: None,
        audio: Some(vec![" FlAc ".to_string()]),
    });

    assert_eq!(exts.video, vec![".mkv", ".mp4"]);
    assert_eq!(exts.audio, vec![".flac"]);
}

#[test]
fn mode_names_parse_and_unknown_names_fail() {
    assert_eq!(parse_mode_name(" HardLink "), Ok(EffectiveOperationMode::HardLink));
    assert_eq!(parse_mode_name("symlink"), Ok(EffectiveOperationMode::SymLink));
    let err = parse_mode_name("teleport").expect_err("teleport is not a mode");
    assert_eq!(
        err,
        "invalid default_mode 'teleport', expected one of: move, copy, hardlink, symlink"
    );
}

#[test]
fn normalizing_extensions_twice_changes_nothing() {
    let mut values = vec![" .MKV ".to_string(), "Mp4".to_string(), "".to_string(), "  ".to_string()];
    normalize_extensions(&mut values);
    assert_eq!(values, vec![".mkv", ".mp4", "", ""]);
    let once = values.clone();
    normalize_extensions(&mut values);
    assert_eq!(values, once);
}

#[test]
fn default_media_extensions_lists() {
    let exts = MediaExtensions::default();
    assert_eq!(exts.video.len(), 9);
    assert_eq!(exts.subtitle.len(), 8);
    assert_eq!(exts.audio.len(), 11);
    assert_eq!(exts.video[0], ".mkv");
    assert_eq!(exts.audio[10], ".m4a");
}

fn scan_cli() -> Cli {
    Cli {
        verbose: 0,
        dry_run: false,
        yes: false,
        config: None,
        log_file: None,
        command: Commands::Scan(ScanArgs {
            source: "/src".to_string(),
            scan_type: None,
            json: false,
            output: None,
            only_failed: false,
            min_confidence: None,
        }),
    }
}

fn layer_with_mode(mode: Option<EffectiveOperationMode>, key: Option<&str>) -> PartialConfig {
    PartialConfig {
        general: Some(PartialGeneralConfig {
            default_mode: mode,
            auto_confirm: None,
            clean_empty_dirs: None,
            conflict_mode: None,
            log_file: None,
        }),
        tmdb: Some(PartialTmdbConfig { api_key: key.map(|k| k.to_string()) }),
        media_extensions: None,
        non_media: None,
    }
}

#[test]
fn later_config_file_wins() {
    let layers = vec![
        layer_with_mode(Some(EffectiveOperationMode::Copy), Some(" global-key ")),
        layer_with_mode(None, None),
        layer_with_mode(Some(EffectiveOperationMode::SymLink), None),
    ];
    let cfg = AppConfig::from_layers(layers, &scan_cli(), None);
    assert_eq!(cfg.general.default_mode, EffectiveOperationMode::SymLink);
    assert_eq!(cfg.tmdb.api_key, "global-key");
}

#[test]
fn environment_key_used_only_without_configured_key() {
    let cfg = AppConfig::from_layers(vec![], &scan_cli(), Some("  env-key ".to_string()));
    assert_eq!(cfg.tmdb.api_key, "env-key");
    let layers = vec![layer_with_mode(None, Some("file-key"))];
    let cfg = AppConfig::from_layers(layers, &scan_cli(), Some("env-key".to_string()));
    assert_eq!(cfg.tmdb.api_key, "file-key");
}

#[test]
fn command_line_flags_override_files() {
    let args = ShowMovieArgs {
        source: "/src".to_string(),
        destination: "/dst".to_string(),
        copy: false,
        link: false,
        symlink: false,
        overwrite: false,
        on_conflict: None,
        clean: true,
        title: None,
        year: None,
        non_media: Some(NonMediaArg::Ignore),
        dry_run: false,
        yes: true,
    };
    let cli = Cli {
        verbose: 0,
        dry_run: false,
        yes: false,
        config: None,
        log_file: Some("".to_string()),
        command: Commands::Show(args),
    };
    let layers = vec![PartialConfig {
        general: Some(PartialGeneralConfig {
            default_mode: None,
            auto_confirm: Some(false),
            clean_empty_dirs: Some(false),
            conflict_mode: None,
            log_file: Some("/var/log/organize.log".to_string()),
        }),
        tmdb: None,
        media_extensions: Some(PartialMediaExtensions {
            video: Some(vec!["MKV".to_string()]),
            subtitle: None,
            audio: None,
        }),
        non_media: Some(PartialNonMediaConfig { mode: Some(NonMediaMode::Keep) }),
    }];
    let cfg = AppConfig::from_layers(layers, &cli, None);
    assert!(cfg.general.auto_confirm);
    assert!(cfg.general.clean_empty_dirs);
    assert_eq!(cfg.non_media.mode, NonMediaMode::Ignore);
    assert_eq!(cfg.general.log_file, None);
    assert_eq!(cfg.media_extensions.video, vec![".mkv"]);
}

#[test]
fn operation_mode_prefers_flags_over_config() {
    let mut cfg = AppConfig::default();
    cfg.general.default_mode = EffectiveOperationMode::HardLink;
    let mut args = ShowMovieArgs {
        source: "/src".to_string(),
        destination: "/dst".to_string(),
        copy: false,
        link: false,
        symlink: true,
        overwrite: false,
        on_conflict: None,
        clean: false,
        title: None,
        year: None,
        non_media: None,
        dry_run: false,
        yes: false,
    };
    assert_eq!(
        EffectiveOperationMode::from_args_and_config(&args, &cfg),
        EffectiveOperationMode::SymLink
    );
    args.symlink = false;
    assert_eq!(
        EffectiveOperationMode::from_args_and_config(&args, &cfg),
        EffectiveOperationMode::HardLink
    );
    args.copy = true;
    assert_eq!(
        EffectiveOperationMode::from_args_and_config(&args, &cfg),
        EffectiveOperationMode::Copy
    );
}

fn plain_args() -> ShowMovieArgs {
    ShowMovieArgs {
        source: "/src".to_string(),
        destination: "/dst".to_string(),
        copy: false,
        link: false,
        symlink: false,
        overwrite: false,
        on_conflict: None,
        clean: false,
        title: None,
        year: None,
        non_media: None,
        dry_run: false,
        yes: false,
    }
}

#[test]
fn non_media_policy_prefers_flag_over_config() {
    let mut cfg = AppConfig::default();
    let mut args = plain_args();
    assert_eq!(non_media_policy(&args, &cfg), NonMediaPolicy::Keep);
    cfg.non_media.mode = NonMediaMode::Ignore;
    assert_eq!(non_media_policy(&args, &cfg), NonMediaPolicy::Ignore);
    args.non_media = Some(NonMediaArg::Keep);
    assert_eq!(non_media_policy(&args, &cfg), NonMediaPolicy::Keep);
}

#[test]
fn run_flags_combine_flags_and_config() {
    let mut cfg = AppConfig::default();
    let mut args = plain_args();
    assert_eq!(
        run_flags(&args, &cfg, false, false),
        RunFlags { dry_run: false, yes_mode: false, overwrite: false, clean: false }
    );
    assert_eq!(
        run_flags(&args, &cfg, true, true),
        RunFlags { dry_run: true, yes_mode: true, overwrite: false, clean: false }
    );
    cfg.general.auto_confirm = true;
    cfg.general.clean_empty_dirs = true;
    cfg.general.conflict_mode = ConflictMode::Overwrite;
    assert_eq!(
        run_flags(&args, &cfg, false, false),
        RunFlags { dry_run: false, yes_mode: true, overwrite: true, clean: true }
    );
    args.on_conflict = Some(ConflictArg::Skip);
    args.dry_run = true;
    assert_eq!(
        run_flags(&args, &cfg, false, false),
        RunFlags { dry_run: true, yes_mode: true, overwrite: false, clean: true }
    );
}
