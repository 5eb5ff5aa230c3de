use stardb_exporter::error::ExportError;
use stardb_exporter::game::{first_existing, Game};
use stardb_exporter::logs::{find_marked, first_match, hsr_directory, zzz_directory};

fn lines(list: &[&str]) -> Vec<String> {
    list.iter().map(|s| s.to_string()).collect()
}

#[test]
fn star_rail_directory_is_the_parent_of_the_logged_file() {
    let log = lines(&[
        "Initialize engine version: 2019.4",
        "Loading player data from D:/Star Rail/Games/StarRail_Data/data.unity3d",
        "Loading player data from E:/Other/StarRail_Data/data.unity3d",
    ]);
    assert_eq!(Game::Hsr.game_path(&log), Ok("D:/Star Rail/Games/StarRail_Data".to_string()));
}

#[test]
fn star_rail_marker_must_begin_the_line() {
    let log = lines(&[" Loading player data from D:/a/b", "loading player data from D:/a/b"]);
    assert_eq!(Game::Hsr.game_path(&log), Err(ExportError::GamePathNotFound));
}

#[test]
fn star_rail_path_without_parent_is_kept() {
    assert_eq!(Game::Hsr.game_path(&lines(&["Loading player data from /"])), Ok("/".to_string()));
    assert_eq!(Game::Hsr.game_path(&lines(&["Loading player data from "])), Ok(String::new()));
    assert_eq!(hsr_directory("a/b".to_string(), Some("a".to_string())), "a");
    assert_eq!(hsr_directory("a/b".to_string(), None), "a/b");
}

#[test]
fn genshin_directory_is_the_match_of_the_pattern() {
    let log = lines(&[
        "Mono path[0] = 'nothing of interest'",
        "Warmup file C:\\Program Files\\Genshin Impact\\Genshin Impact game\\GenshinImpact_Data\\StreamingAssets\\x",
        "Warmup file D:\\Elsewhere\\YuanShen_Data\\y",
    ]);
    assert_eq!(
        Game::Gi.game_path(&log),
        Ok("C:\\Program Files\\Genshin Impact\\Genshin Impact game\\GenshinImpact_Data".to_string())
    );
    let cn = lines(&["[x] D:\\Games\\YuanShen_Data\\Managed and D:\\Games\\YuanShen_Data\\Native"]);
    assert_eq!(
        Game::Gi.game_path(&cn),
        Ok("D:\\Games\\YuanShen_Data\\Managed and D:\\Games\\YuanShen_Data".to_string())
    );
}

#[test]
fn zenless_directory_is_the_logged_path_without_its_ending() {
    let log = lines(&[
        "[Physics] Initialized",
        "[Subsystems] Discovering subsystems at path D:/ZenlessZoneZero Game/ZenlessZoneZero_Data/UnitySubsystems",
    ]);
    assert_eq!(
        Game::Zzz.game_path(&log),
        Ok("D:/ZenlessZoneZero Game/ZenlessZoneZero_Data".to_string())
    );
    assert_eq!(zzz_directory("/UnitySubsystems"), Ok(String::new()));
}

#[test]
fn zenless_path_without_the_ending_names_no_directory() {
    let log = lines(&[
        "[Subsystems] Discovering subsystems at path D:/Game/Data/Other",
        "[Subsystems] Discovering subsystems at path D:/Game/Data/UnitySubsystems",
    ]);
    assert_eq!(Game::Zzz.game_path(&log), Err(ExportError::GamePathNotFound));
    assert_eq!(zzz_directory("D:/Game/Data/UnitySubsystems/"), Err(ExportError::GamePathNotFound));
}

#[test]
fn log_without_marker_names_no_directory() {
    let log = lines(&["one", "two", ""]);
    for game in [Game::Hsr, Game::Gi, Game::Zzz] {
        assert_eq!(game.game_path(&log), Err(ExportError::GamePathNotFound));
        assert_eq!(game.game_path(&Vec::new()), Err(ExportError::GamePathNotFound));
    }
}

#[test]
fn markers_of_other_games_do_not_count() {
    let log = lines(&[
        "Loading player data from D:/a/b",
        "[Subsystems] Discovering subsystems at path D:/c/UnitySubsystems",
    ]);
    assert_eq!(Game::Hsr.game_path(&log), Ok("D:/a".to_string()));
    assert_eq!(Game::Zzz.game_path(&log), Ok("D:/c".to_string()));
    assert_eq!(Game::Gi.game_path(&log), Err(ExportError::GamePathNotFound));
}

#[test]
fn first_existing_log_is_picked() {
    assert_eq!(first_existing(&vec![true, true]), Ok(0));
    assert_eq!(first_existing(&vec![false, true]), Ok(1));
    assert_eq!(first_existing(&vec![false, false]), Err(ExportError::LogFileNotFound));
    assert_eq!(first_existing(&Vec::new()), Err(ExportError::LogFileNotFound));
}

#[test]
fn log_locations_by_game() {
    let hsr = Game::Hsr.log_locations();
    assert_eq!(hsr.len(), 2);
    assert_eq!((hsr[0].publisher.as_str(), hsr[0].title.as_str(), hsr[0].file.as_str()), ("Cognosphere", "Star Rail", "Player.log"));
    assert_eq!((hsr[1].publisher.as_str(), hsr[1].title.as_str(), hsr[1].file.as_str()), ("miHoYo", "崩坏：星穹铁道", "Player.log"));
    let gi = Game::Gi.log_locations();
    assert_eq!((gi[0].publisher.as_str(), gi[0].title.as_str(), gi[0].file.as_str()), ("miHoYo", "Genshin Impact", "output_log.txt"));
    assert_eq!((gi[1].publisher.as_str(), gi[1].title.as_str(), gi[1].file.as_str()), ("miHoYo", "原神", "output_log.txt"));
    let zzz = Game::Zzz.log_locations();
    assert_eq!((zzz[0].publisher.as_str(), zzz[0].title.as_str(), zzz[0].file.as_str()), ("miHoYo", "ZenlessZoneZero", "Player.log"));
    assert_eq!((zzz[1].publisher.as_str(), zzz[1].title.as_str(), zzz[1].file.as_str()), ("miHoYo", "绝区零", "Player.log"));
}

#[test]
fn pattern_is_searched_line_by_line() {
    let log = lines(&["nothing", "abc 123 def 456", "789"]);
    assert_eq!(first_match("[0-9]+", &log), Ok("123".to_string()));
    assert_eq!(first_match("^[0-9]+$", &log), Ok("789".to_string()));
    assert_eq!(first_match("[A-Z]", &log), Err(ExportError::GamePathNotFound));
    assert_eq!(first_match("[0-9]+", &Vec::new()), Err(ExportError::GamePathNotFound));
}

#[test]
fn refused_pattern_is_reported() {
    let log = lines(&["abc"]);
    assert_eq!(first_match("(", &log), Err(ExportError::MarkerPatternInvalid));
    assert_eq!(first_match("[", &log), Err(ExportError::MarkerPatternInvalid));
    assert_eq!(first_match("(", &Vec::new()), Err(ExportError::GamePathNotFound));
}

#[test]
fn first_marked_line_is_found() {
    let log = lines(&["x: 1", "key: one", "key: two", "key:"]);
    assert_eq!(find_marked(&log, "key: "), Some((1, "one".to_string())));
    assert_eq!(find_marked(&log, "key:"), Some((1, " one".to_string())));
    assert_eq!(find_marked(&log, "key: t"), Some((2, "wo".to_string())));
    assert_eq!(find_marked(&log, "y: "), None);
    assert_eq!(find_marked(&log, ""), Some((0, "x: 1".to_string())));
    assert_eq!(find_marked(&Vec::new(), ""), None);
}
