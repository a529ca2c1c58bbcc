use goodgame::engine::{plan_backup, plan_restore, EngineStep};
use goodgame::errors::GgError;
use goodgame::game::Game;
use goodgame::naming::{backup_file_name, backup_index, safety_desc};

fn foo() -> Game {
    Game::new(
        String::from("Foo"),
        String::from("/games/foo"),
        String::from("/games/foo/saves"),
        None,
        None,
        None,
        None,
    )
}

#[test]
fn first_backup_without_description() {
    assert_eq!(backup_file_name("Foo", 0, None), "Foo-000.tar.zst");
}

#[test]
fn second_backup_with_description() {
    assert_eq!(
        backup_file_name("Foo", 1, Some("pre-patch")),
        "Foo-001-pre-patch.tar.zst"
    );
}

#[test]
fn index_padding_grows_past_three_digits() {
    assert_eq!(backup_file_name("Foo", 42, None), "Foo-042.tar.zst");
    assert_eq!(backup_file_name("Foo", 999, None), "Foo-999.tar.zst");
    assert_eq!(backup_file_name("Foo", 1000, None), "Foo-1000.tar.zst");
}

#[test]
fn backup_index_takes_second_component_digits() {
    assert_eq!(
        backup_index("Foo-001-pre-patch.tar.zst"),
        Some(String::from("001"))
    );
    assert_eq!(backup_index("Foo-000.tar.zst"), Some(String::from("000")));
    assert_eq!(backup_index("nodash"), None);
    // A game name holding a dash shifts the second component to the name's
    // tail, which holds no digits at all.
    assert_eq!(
        backup_index("pre-patch-007.tar.zst"),
        Some(String::from(""))
    );
}

#[test]
fn safety_description_carries_the_parsed_index() {
    assert_eq!(
        safety_desc("Foo-007.tar.zst"),
        Some(String::from("replaced-with-007"))
    );
    assert_eq!(safety_desc("nodash"), None);
}

#[test]
fn backup_plan_writes_archive_then_runs_hooks() {
    let steps = plan_backup(&foo(), 0, None, false);
    assert_eq!(steps.len(), 3);
    assert!(matches!(
        &steps[0],
        EngineStep::CreateArchive { file_name } if file_name == "Foo-000.tar.zst"
    ));
    assert!(matches!(steps[1], EngineStep::CloudCommit));
    assert!(matches!(steps[2], EngineStep::CloudPush));
}

#[test]
fn backup_plan_skips_hooks_when_asked() {
    let steps = plan_backup(&foo(), 2, Some("pre-patch"), true);
    assert_eq!(steps.len(), 1);
    assert!(matches!(
        &steps[0],
        EngineStep::CreateArchive { file_name } if file_name == "Foo-002-pre-patch.tar.zst"
    ));
}

#[test]
fn restore_plan_opens_with_exactly_one_safety_snapshot() {
    let steps = plan_restore(&foo(), "Foo-002-old.tar.zst", true, 5, false).unwrap();
    assert!(matches!(
        &steps[0],
        EngineStep::CreateArchive { file_name } if file_name == "Foo-005-replaced-with-002.tar.zst"
    ));
    let creates = steps
        .iter()
        .filter(|s| matches!(s, EngineStep::CreateArchive { .. }))
        .count();
    assert_eq!(creates, 1);
    let extract_at = steps
        .iter()
        .position(|s| matches!(s, EngineStep::Extract { .. }))
        .unwrap();
    assert!(extract_at > 0);
    assert!(matches!(
        &steps[extract_at],
        EngineStep::Extract { file_name } if file_name == "Foo-002-old.tar.zst"
    ));
}

#[test]
fn restore_plan_without_hooks() {
    let steps = plan_restore(&foo(), "Foo-000.tar.zst", true, 1, true).unwrap();
    assert_eq!(steps.len(), 2);
    assert!(matches!(
        &steps[0],
        EngineStep::CreateArchive { file_name } if file_name == "Foo-001-replaced-with-000.tar.zst"
    ));
    assert!(matches!(
        &steps[1],
        EngineStep::Extract { file_name } if file_name == "Foo-000.tar.zst"
    ));
}

#[test]
fn restore_plan_refuses_missing_target() {
    let err = plan_restore(&foo(), "Foo-009.tar.zst", false, 3, false).unwrap_err();
    match err {
        GgError::NotFound { what } => assert_eq!(what, "Foo-009.tar.zst"),
        other => panic!("expected NotFound, got {other:?}"),
    }
}
