use organize::parser::movie::parse_movie;
use organize::parser::show::parse_show;
use organize::parser::tokens::{
    clean_title, extract_extension, extract_title, normalize_name, strip_extension,
    title_boundary_index,
};
use organize::parser::{extract_season_from_input, extract_year_from_input};

#[test]
fn detects_numeric_season_patterns() {
    assert_eq!(extract_season_from_input("Show.S02.1080p"), Some(2));
    assert_eq!(extract_season_from_input("Show Season 3 Pack"), Some(3));
}

#[test]
fn maps_specials_and_extras_to_season_zero() {
    assert_eq!(extract_season_from_input("Show Specials"), Some(0));
    assert_eq!(extract_season_from_input("Show Featurettes Pack"), Some(0));
    assert_eq!(extract_season_from_input("Show Extras"), Some(0));
}

#[test]
fn parses_movie_with_year_token() {
    let info = parse_movie("Movie.Name.2023.1080p.BluRay.x265.mkv");
    assert_eq!(info.title.as_deref(), Some("Movie Name"));
    assert_eq!(info.year, Some(2023));
    assert_eq!(info.season, None);
    assert_eq!(info.episode, None);
}

#[test]
fn parses_batman_style() {
    let info = parse_movie("The Batman (2022) (1080p BluRay x265 10bit Tigole).mkv");
    assert_eq!(info.title.as_deref(), Some("The Batman"));
    assert_eq!(info.year, Some(2022));
}

#[test]
fn parses_breaking_bad_like_as_movie_for_shared_parser_case() {
    let info = parse_movie("Breaking.Bad.S01E01.Pilot.1080p.BluRay.x265.HEVC.10bit-CAKES.mkv");
    assert_eq!(info.title.as_deref(), Some("Breaking Bad"));
}

#[test]
fn parses_example_game_changer() {
    let info = parse_show(
        "Game Changer (2019) S05E01 (1080p DRPO WEB-DL H264 SDR AAC 2.0 English - HONE).mkv",
    );
    assert_eq!(info.title.as_deref(), Some("Game Changer"));
    assert_eq!(info.year, Some(2019));
    assert_eq!(info.season, Some(5));
    assert_eq!(info.episode, Some(1));
}

#[test]
fn parses_dot_release() {
    let info = parse_show("Game.Changer.S01E01.1080p.DRPO.WEB-DL.AAC2.0.x264-FiZ.mkv");
    assert_eq!(info.title.as_deref(), Some("Game Changer"));
    assert_eq!(info.year, None);
    assert_eq!(info.season, Some(1));
    assert_eq!(info.episode, Some(1));
}

#[test]
fn parses_black_mirror_style() {
    let info = parse_show(
        "Black Mirror (2011) - S04E01 - USS Callister (1080p BluRay x265 Panda).mkv",
    );
    assert_eq!(info.title.as_deref(), Some("Black Mirror"));
    assert_eq!(info.year, Some(2011));
    assert_eq!(info.season, Some(4));
    assert_eq!(info.episode, Some(1));
}

#[test]
fn parses_office_us() {
    let info = parse_show("The.Office.US.S01E01.Pilot.720p.BluRay.x264-DEMAND.mkv");
    assert_eq!(info.title.as_deref(), Some("The Office US"));
    assert_eq!(info.season, Some(1));
    assert_eq!(info.episode, Some(1));
}

#[test]
fn parses_multi_episode() {
    let info = parse_show("Show.Name.S01E01E02.1080p.mkv");
    assert_eq!(info.title.as_deref(), Some("Show Name"));
    assert_eq!(info.season, Some(1));
    assert_eq!(info.episode, Some(1));
}

#[test]
fn parses_breaking_bad() {
    let info = parse_show("Breaking.Bad.S01E01.Pilot.1080p.BluRay.x265.HEVC.10bit-CAKES.mkv");
    assert_eq!(info.title.as_deref(), Some("Breaking Bad"));
    assert_eq!(info.season, Some(1));
    assert_eq!(info.episode, Some(1));
}

#[test]
fn parses_folder_game_changer() {
    let info = parse_show(
        "Game Changer (2019) S05 (1080p DRPO WEB-DL H264 SDR AAC 2.0 English - HONE)",
    );
    assert_eq!(info.title.as_deref(), Some("Game Changer"));
    assert_eq!(info.year, Some(2019));
    assert_eq!(info.season, Some(5));
}

#[test]
fn parses_folder_game_changer_dotted() {
    let info = parse_show("Game.Changer.S01.1080p.DRPO.WEB-DL.AAC2.0.x264-FiZ");
    assert_eq!(info.title.as_deref(), Some("Game Changer"));
    assert_eq!(info.year, None);
    assert_eq!(info.season, Some(1));
}

#[test]
fn parses_folder_name_patterns() {
    let info = parse_show(
        "Black Mirror (2011) Season 4 S04 (1080p BluRay x265 HEVC 10bit AAC 5.1 Panda)",
    );
    assert_eq!(info.title.as_deref(), Some("Black Mirror"));
    assert_eq!(info.year, Some(2011));
    assert_eq!(info.season, Some(4));
}

#[test]
fn parses_x_episode_pattern() {
    let info = parse_show("Show.Name.1x03.1080p.WEB-DL.mkv");
    assert_eq!(info.title.as_deref(), Some("Show Name"));
    assert_eq!(info.season, Some(1));
    assert_eq!(info.episode, Some(3));
}

#[test]
fn parses_season_episode_words() {
    let info = parse_show("Show Name Season 2 Episode 5 1080p.mkv");
    assert_eq!(info.title.as_deref(), Some("Show Name"));
    assert_eq!(info.season, Some(2));
    assert_eq!(info.episode, Some(5));
}

#[test]
fn normalize_name_collapses_separators() {
    assert_eq!(normalize_name("  A.B__C   D. "), "A B C D");
    assert_eq!(normalize_name(""), "");
    assert_eq!(normalize_name("..._"), "");
}

#[test]
fn extension_helpers_split_at_last_dot() {
    assert_eq!(strip_extension("Show.Name.S01E01.MKV"), "Show.Name.S01E01");
    assert_eq!(extract_extension("Show.Name.S01E01.MKV"), ".mkv");
    assert_eq!(strip_extension("noext"), "noext");
    assert_eq!(extract_extension("noext"), "");
}

#[test]
fn clean_title_strips_trailing_marks() {
    assert_eq!(clean_title("  Black Mirror - ( "), "Black Mirror -");
    assert_eq!(clean_title("  Black Mirror -( "), "Black Mirror");
    assert_eq!(clean_title("Show:"), "Show");
    assert_eq!(clean_title(" -[( "), "");
}

#[test]
fn title_boundary_counts_characters() {
    assert_eq!(title_boundary_index("Café S01E02"), 5);
    assert_eq!(title_boundary_index("Plain Title"), 11);
    assert_eq!(extract_title("Plain Title"), Some("Plain Title".to_string()));
    assert_eq!(extract_title("S01E01"), None);
}

#[test]
fn year_prefers_parenthesised_form() {
    assert_eq!(extract_year_from_input("Movie 1999 (2005)"), Some(2005));
    assert_eq!(extract_year_from_input("Movie 1999"), Some(1999));
    assert_eq!(extract_year_from_input("Movie 12019"), None);
}

#[test]
fn normalize_name_is_stable() {
    let once = normalize_name("Game.Changer__S01 ");
    assert_eq!(once, "Game Changer S01");
    assert_eq!(normalize_name(&once), once);
    assert!(!once.contains('.') && !once.contains('_') && !once.contains("  "));
    let twice = normalize_name(&normalize_name("\tThe_Office.US \u{a0} 2005"));
    assert_eq!(twice, "The Office US 2005");
}
