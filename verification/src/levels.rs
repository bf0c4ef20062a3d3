//! The sequence of levels.

use vstd::prelude::*;

verus! {

/// Which level is loaded.
#[derive(Debug, Clone, Copy, Eq, PartialEq, Hash, Structural)]
pub enum LevelState {
    MainMenu,
    Level00,
    Level01,
    Level02,
    Level03,
    Test,
}

impl Default for LevelState {
    fn default() -> (s: Self)
        ensures
            s == LevelState::MainMenu,
    {
        LevelState::MainMenu
    }
}

impl LevelState {
    /// The level that follows this one, as a specification.
    pub open spec fn spec_next(&self) -> LevelState {
        match *self {
            LevelState::MainMenu => LevelState::Level00,
            LevelState::Level00 => LevelState::Level01,
            LevelState::Level01 => LevelState::Level02,
            LevelState::Level02 => LevelState::Level03,
            LevelState::Level03 => LevelState::MainMenu,
            LevelState::Test => LevelState::MainMenu,
        }
    }

    /// The file that describes the level.
    pub fn get_path(&self) -> (path: &'static str)
        ensures
            path@ == match *self {
                LevelState::MainMenu => "levels/main_menu.ron"@,
                LevelState::Level00 => "levels/level_00.ron"@,
                LevelState::Level01 => "levels/level_01.ron"@,
                LevelState::Level02 => "levels/level_02.ron"@,
                LevelState::Level03 => "levels/level_03.ron"@,
                LevelState::Test => "levels/test.ron"@,
            },
    {
        match self {
            LevelState::MainMenu => "levels/main_menu.ron",
            LevelState::Level00 => "levels/level_00.ron",
            LevelState::Level01 => "levels/level_01.ron",
            LevelState::Level02 => "levels/level_02.ron",
            LevelState::Level03 => "levels/level_03.ron",
            LevelState::Test => "levels/test.ron",
        }
    }

    /// The level that follows this one: the levels in order after the main
    /// menu, and the main menu after the last level and after the test level.
    #[verifier::when_used_as_spec(spec_next)]
    pub fn next(&self) -> (s: Self)
        ensures
            s == self.spec_next(),
    {
        match self {
            LevelState::MainMenu => LevelState::Level00,
            LevelState::Level00 => LevelState::Level01,
            LevelState::Level01 => LevelState::Level02,
            LevelState::Level02 => LevelState::Level03,
            LevelState::Level03 => LevelState::MainMenu,
            LevelState::Test => LevelState::MainMenu,
        }
    }

    /// The instructions shown when the level starts, if it has any.
    pub fn intro(&self) -> (text: Option<&'static str>)
        ensures
            text is Some <==> *self == LevelState::Level00,
            text matches Some(t) ==> t@
                == "Use WASD/arrows + QE to look around.\nDrag conveyor belts with your mouse.\nRight click to rotate them (if there is enough space)."@,
    {
        match self {
            LevelState::Level00 => Some(
                "Use WASD/arrows + QE to look around.\nDrag conveyor belts with your mouse.\nRight click to rotate them (if there is enough space).",
            ),
            _ => None,
        }
    }

    /// Whether victory can be declared on this level: on every level but the
    /// main menu.
    pub fn has_victory(&self) -> (yes: bool)
        ensures
            yes == (*self != LevelState::MainMenu),
    {
        match self {
            LevelState::MainMenu => false,
            _ => true,
        }
    }
}

} // verus!
