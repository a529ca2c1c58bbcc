use goodgame::config::Config;
use goodgame::errors::GgError;
use goodgame::game::Game;
use goodgame::registry::Games;

fn empty_games() -> Games {
    Games::new(Vec::new(), Config::default(), String::from("/data")).unwrap()
}

fn game(name: &str, root: &str, save: &str) -> Game {
    Game::new(
        String::from(name),
        String::from(root),
        String::from(save),
        None,
        None,
        None,
        None,
    )
}

#[test]
fn push_keeps_registry_sorted_and_unique() {
    let mut games = empty_games();
    games.push(game("Zelda", "/z", "/z/save")).unwrap();
    games.push(game("Astro", "/a", "/a/save")).unwrap();
    games.push(game("Mario", "/m", "/m/save")).unwrap();
    let names = games.names();
    assert_eq!(names, vec!["Astro", "Mario", "Zelda"]);

    // Pushing an already-managed name again merges instead of duplicating.
    games.push(game("Mario", "/m2", "/m2/save")).unwrap();
    let names = games.names();
    assert_eq!(names, vec!["Astro", "Mario", "Zelda"]);
    assert_eq!(games.games().len(), 3);
}

#[test]
fn ordering_is_by_code_point_even_past_ascii() {
    let mut games = empty_games();
    games.push(game("\u{e9}p\u{e9}e", "/e", "/e/save")).unwrap();
    games.push(game("Zebra", "/z", "/z/save")).unwrap();
    games.push(game("apple", "/a", "/a/save")).unwrap();
    assert_eq!(games.names(), vec!["Zebra", "apple", "\u{e9}p\u{e9}e"]);
}

#[test]
fn push_merges_only_explicit_fields() {
    let mut games = empty_games();
    games
        .push(Game::new(
            String::from("A"),
            String::from("/r1"),
            String::from("/s1"),
            Some(String::from("/e")),
            None,
            None,
            None,
        ))
        .unwrap();
    let merged = games
        .push(Game::new(
            String::from("A"),
            String::from("/r2"),
            String::from("/s1"),
            None,
            None,
            None,
            None,
        ))
        .unwrap();
    assert_eq!(merged.name, "A");
    assert_eq!(merged.root, "/r2");
    assert_eq!(merged.save_location, "/s1");
    assert_eq!(merged.executable, Some(String::from("/e")));
    assert_eq!(merged.run_commands, None);
}

#[test]
fn push_overwrites_launch_metadata_when_given() {
    let mut games = empty_games();
    games
        .push(Game::new(
            String::from("A"),
            String::from("/r1"),
            String::from("/s1"),
            Some(String::from("/old")),
            None,
            None,
            Some(vec![String::from("old-cmd")]),
        ))
        .unwrap();
    let merged = games
        .push(Game::new(
            String::from("A"),
            String::from("/r1"),
            String::from("/s1"),
            Some(String::from("/new")),
            Some(vec![String::from("--fullscreen")]),
            Some(vec![(String::from("WINEPREFIX"), String::from("/pfx"))]),
            Some(vec![String::from("new-cmd")]),
        ))
        .unwrap();
    assert_eq!(merged.executable, Some(String::from("/new")));
    assert_eq!(merged.executable_args, Some(vec![String::from("--fullscreen")]));
    assert_eq!(
        merged.environment_vars,
        Some(vec![(String::from("WINEPREFIX"), String::from("/pfx"))])
    );
    assert_eq!(merged.run_commands, Some(vec![String::from("new-cmd")]));
}

#[test]
fn push_rejects_root_collision_under_other_name() {
    let mut games = empty_games();
    games.push(game("A", "/shared", "/a/save")).unwrap();
    let err = games.push(game("B", "/shared", "/b/save")).unwrap_err();
    assert!(matches!(err, GgError::DuplicateEntity { .. }));
    assert_eq!(games.games().len(), 1);
}

#[test]
fn push_rejects_save_collision_under_other_name() {
    let mut games = empty_games();
    games.push(game("A", "/a", "/shared/save")).unwrap();
    let err = games.push(game("B", "/b", "/shared/save")).unwrap_err();
    assert!(matches!(err, GgError::DuplicateEntity { .. }));
}

#[test]
fn delete_then_get_by_name_is_not_found() {
    let mut games = empty_games();
    games.push(game("Mario", "/m", "/m/save")).unwrap();
    games.push(game("Zelda", "/z", "/z/save")).unwrap();
    let removed = games.delete("Mario").unwrap();
    assert_eq!(removed.name, "Mario");
    let err = games.get_by_name("Mario").unwrap_err();
    assert!(matches!(err, GgError::NotFound { .. }));
    assert!(games.get_by_name("Zelda").is_ok());
}

#[test]
fn delete_of_unknown_name_yields_none() {
    let mut games = empty_games();
    games.push(game("Mario", "/m", "/m/save")).unwrap();
    assert!(games.delete("Luigi").is_none());
    assert_eq!(games.games().len(), 1);
}

#[test]
fn get_by_root_and_save_scan_exact_paths() {
    let mut games = empty_games();
    games.push(game("A", "/a", "/a/save")).unwrap();
    games.push(game("B", "/b", "/b/save")).unwrap();
    assert_eq!(games.get_by_root("/b").unwrap().name, "B");
    assert!(games.get_by_root("/c").is_none());
    assert_eq!(games.get_by_save("/a/save").unwrap().name, "A");
    assert!(games.get_by_save("/a").is_none());
}

#[test]
fn get_by_current_dir_matches_root_or_save() {
    let mut games = empty_games();
    games.push(game("A", "/a", "/a/save")).unwrap();
    assert_eq!(games.get_by_current_dir("/a").unwrap().name, "A");
    assert_eq!(games.get_by_current_dir("/a/save").unwrap().name, "A");
    assert!(games.get_by_current_dir("/elsewhere").is_none());
}

#[test]
fn try_get_resolves_name_before_directory() {
    let mut games = empty_games();
    games.push(game("A", "/a", "/a/save")).unwrap();
    games.push(game("B", "/b", "/b/save")).unwrap();
    assert_eq!(games.try_get(Some("B"), "/a").unwrap().name, "B");
    assert_eq!(games.try_get(None, "/a").unwrap().name, "A");
    let err = games.try_get(Some("C"), "/a").unwrap_err();
    assert!(matches!(err, GgError::NotFound { .. }));
}

#[test]
fn resolve_without_name_or_matching_dir_names_the_directory() {
    let games = empty_games();
    let err = games.try_get(None, "/nowhere/special").unwrap_err();
    match err {
        GgError::CouldNotInfer { current_dir } => {
            assert_eq!(current_dir, "/nowhere/special");
        }
        other => panic!("expected CouldNotInfer, got {other:?}"),
    }
}

#[test]
fn new_rejects_unsorted_records() {
    let records = vec![game("Zelda", "/z", "/z/save"), game("Astro", "/a", "/a/save")];
    let err = Games::new(records, Config::default(), String::from("/data")).unwrap_err();
    assert!(matches!(err, GgError::ConfigError { .. }));
}

#[test]
fn new_rejects_duplicate_paths() {
    let records = vec![game("A", "/same", "/a/save"), game("B", "/same", "/b/save")];
    let err = Games::new(records, Config::default(), String::from("/data")).unwrap_err();
    match err {
        GgError::ConfigError { path } => assert_eq!(path, "/data/games.json"),
        other => panic!("expected ConfigError, got {other:?}"),
    }
}

#[test]
fn new_accepts_sorted_distinct_records() {
    let records = vec![game("Astro", "/a", "/a/save"), game("Zelda", "/z", "/z/save")];
    let games = Games::new(records, Config::default(), String::from("/data")).unwrap();
    assert_eq!(games.names(), vec!["Astro", "Zelda"]);
}

#[test]
fn games_path_joins_data_dir_and_file_name() {
    let games = empty_games();
    assert_eq!(Games::games_file_name(), "games.json");
    assert_eq!(games.games_path(), "/data/games.json");
}

#[test]
fn should_cloud_init_only_for_new_names() {
    let mut games = empty_games();
    games.push(game("A", "/a", "/a/save")).unwrap();
    assert!(games.should_cloud_init("B", false, false));
    assert!(!games.should_cloud_init("A", false, false));
    assert!(!games.should_cloud_init("B", true, false));
    assert!(!games.should_cloud_init("B", false, true));
}
