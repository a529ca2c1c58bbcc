use goodgame::commands::hook_result;
use goodgame::config::{Backup, Config, Run};
use goodgame::errors::GgError;
use goodgame::game::Game;
use goodgame::registry::Games;

fn shell_config() -> Config {
    Config {
        shell: String::from("sh"),
        run: Run {
            commands: vec![String::from("wine $EXE"), String::from("sync-$GAME")],
        },
        backup: Backup {
            cloud_init_commands: vec![String::from("git init")],
            cloud_commit_commands: vec![
                String::from("git add ."),
                String::from("git commit -m $GAME"),
            ],
            cloud_push_commands: Vec::new(),
        },
    }
}

fn games_with_config() -> Games {
    Games::new(Vec::new(), shell_config(), String::from("/data")).unwrap()
}

fn mario() -> Game {
    Game::new(
        String::from("Mario"),
        String::from("/games/mario"),
        String::from("/games/mario/saves"),
        Some(String::from("/games/mario/mario.exe")),
        None,
        None,
        None,
    )
}

#[test]
fn empty_template_list_means_not_configured() {
    let games = games_with_config();
    assert!(games
        .commands_to_process(&Vec::new(), Some(&mario()))
        .is_none());
    assert!(games.commands_to_process(&Vec::new(), None).is_none());
}

#[test]
fn templates_join_with_and_and_substitute_variables() {
    let games = games_with_config();
    let cmds = vec![String::from("echo $GAME"), String::from("run $EXE")];
    let cmd = games.commands_to_process(&cmds, Some(&mario())).unwrap();
    assert_eq!(cmd.program, "sh");
    assert_eq!(cmd.args.len(), 2);
    assert_eq!(cmd.args[0], "-c");
    assert_eq!(cmd.args[1], "echo Mario&&run '/games/mario/mario.exe'");
}

#[test]
fn without_a_record_no_substitution_happens() {
    let games = games_with_config();
    let cmds = vec![String::from("echo $GAME")];
    let cmd = games.commands_to_process(&cmds, None).unwrap();
    assert_eq!(cmd.args[1], "echo $GAME");
}

#[test]
fn cloud_hooks_use_their_configured_templates() {
    let games = games_with_config();
    let g = mario();
    let init = games.cloud_init_command(&g).unwrap();
    assert_eq!(init.args[1], "git init");
    let commit = games.cloud_commit_command(&g).unwrap();
    assert_eq!(commit.args[1], "git add .&&git commit -m Mario");
    // No push templates are configured, so the hook is not configured.
    assert!(games.cloud_push_command(&g).is_none());
}

#[test]
fn run_command_uses_global_templates_by_default() {
    let games = games_with_config();
    let cmd = games.run_command(&mario()).unwrap();
    assert_eq!(
        cmd.args[1],
        "wine '/games/mario/mario.exe'&&sync-Mario"
    );
}

#[test]
fn per_game_override_splices_global_line_at_run_variable() {
    let games = games_with_config();
    let g = Game::new(
        String::from("Mario"),
        String::from("/games/mario"),
        String::from("/games/mario/saves"),
        Some(String::from("/games/mario/mario.exe")),
        None,
        None,
        Some(vec![String::from("pre-step && $RUN")]),
    );
    let cmd = games.run_command(&g).unwrap();
    assert_eq!(
        cmd.args[1],
        "pre-step && wine '/games/mario/mario.exe'&&sync-Mario"
    );
}

#[test]
fn replace_vars_quotes_executable_and_names_game() {
    let g = mario();
    assert_eq!(
        g.replace_vars(String::from("start $EXE as $GAME")),
        "start '/games/mario/mario.exe' as Mario"
    );
    let plain = Game::new(
        String::from("Mario"),
        String::from("/games/mario"),
        String::from("/games/mario/saves"),
        None,
        None,
        None,
        None,
    );
    // Without an executable, $EXE is left alone.
    assert_eq!(
        plain.replace_vars(String::from("start $EXE as $GAME")),
        "start $EXE as Mario"
    );
}

#[test]
fn replace_vars_substitutes_every_occurrence() {
    let g = mario();
    assert_eq!(
        g.replace_vars(String::from("$GAME and $GAME again")),
        "Mario and Mario again"
    );
}

#[test]
fn merged_with_replaces_only_given_fields() {
    let g = mario();
    let edited = g.merged_with(
        None,
        Some(String::from("/moved")),
        None,
        None,
        Some(vec![String::from("new")]),
    );
    assert_eq!(edited.name, "Mario");
    assert_eq!(edited.root, "/moved");
    assert_eq!(edited.save_location, "/games/mario/saves");
    assert_eq!(edited.executable, Some(String::from("/games/mario/mario.exe")));
    assert_eq!(edited.run_commands, Some(vec![String::from("new")]));
}

#[test]
fn hook_failure_carries_description_and_exit_code() {
    assert!(hook_result(false, false, 0, "cloud push").is_ok());
    assert!(hook_result(true, true, 0, "cloud push").is_ok());
    let err = hook_result(true, false, 128, "cloud push").unwrap_err();
    match err {
        GgError::HookError {
            description,
            exit_code,
        } => {
            assert_eq!(description, "cloud push");
            assert_eq!(exit_code, 128);
        }
        other => panic!("expected HookError, got {other:?}"),
    }
}

#[test]
fn backups_path_lives_under_the_root() {
    assert_eq!(mario().backups_path(), "/games/mario/gg-saves");
}
