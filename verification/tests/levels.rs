use conveyor_chaos::levels::LevelState;
use conveyor_chaos::ui::ShowVictory;

#[test]
fn level_order() {
    assert_eq!(LevelState::default(), LevelState::MainMenu);
    assert_eq!(LevelState::MainMenu.next(), LevelState::Level00);
    assert_eq!(LevelState::Level00.next(), LevelState::Level01);
    assert_eq!(LevelState::Level01.next(), LevelState::Level02);
    assert_eq!(LevelState::Level02.next(), LevelState::Level03);
    assert_eq!(LevelState::Level03.next(), LevelState::MainMenu);
    assert_eq!(LevelState::Test.next(), LevelState::MainMenu);
}

#[test]
fn level_paths() {
    assert_eq!(LevelState::MainMenu.get_path(), "levels/main_menu.ron");
    assert_eq!(LevelState::Level00.get_path(), "levels/level_00.ron");
    assert_eq!(LevelState::Level01.get_path(), "levels/level_01.ron");
    assert_eq!(LevelState::Level02.get_path(), "levels/level_02.ron");
    assert_eq!(LevelState::Level03.get_path(), "levels/level_03.ron");
    assert_eq!(LevelState::Test.get_path(), "levels/test.ron");
}

#[test]
fn only_the_first_level_has_an_intro() {
    assert!(LevelState::Level00.intro().unwrap().starts_with("Use WASD/arrows + QE"));
    assert_eq!(LevelState::MainMenu.intro(), None);
    assert_eq!(LevelState::Level03.intro(), None);
    assert!(!LevelState::MainMenu.has_victory());
    assert!(LevelState::Level00.has_victory());
    assert!(LevelState::Test.has_victory());
}

#[test]
fn victory_dialog_is_due_once() {
    let mut v = ShowVictory::default();
    assert!(!v.take());
    v.show();
    assert!(v.victory);
    assert!(v.take());
    assert!(!v.take());
    v.show();
    assert!(!v.take());
    v.reset();
    assert_eq!(v, ShowVictory::default());
    v.show();
    assert!(v.take());
}

#[test]
fn disabled_victory_is_never_due() {
    let mut v = ShowVictory::default();
    v.disable();
    v.show();
    assert!(!v.take());
    v.reset();
    v.show();
    assert!(v.take());
}
