//! When the victory dialog is due.

use vstd::prelude::*;

verus! {

/// Whether the level has been solved, and whether the player has been told.
#[derive(Debug, Clone, Copy, PartialEq, Eq, Structural)]
pub struct ShowVictory {
    /// The level has been solved.
    pub victory: bool,
    /// The victory dialog is on screen, or is not to be shown at all.
    pub showing: bool,
}

impl Default for ShowVictory {
    fn default() -> (v: Self)
        ensures
            !v.victory,
            !v.showing,
    {
        ShowVictory { victory: false, showing: false }
    }
}

impl ShowVictory {
    /// Records that the level has been solved.
    pub fn show(&mut self)
        ensures
            final(self).victory,
            final(self).showing == old(self).showing,
    {
        self.victory = true;
    }

    /// Whether the victory dialog is to be put on screen now: once, the
    /// first time this is asked after the level has been solved.
    pub fn take(&mut self) -> (due: bool)
        ensures
            due == (old(self).victory && !old(self).showing),
            final(self).victory == old(self).victory,
            final(self).showing == (old(self).showing || old(self).victory),
    {
        if self.victory && !self.showing {
            self.showing = true;
            true
        } else {
            false
        }
    }

    /// Forgets a victory, for the next level.
    pub fn reset(&mut self)
        ensures
            !final(self).victory,
            !final(self).showing,
    {
        self.victory = false;
        self.showing = false;
    }

    /// Keeps the victory dialog off screen until the next reset.
    pub fn disable(&mut self)
        ensures
            !final(self).victory,
            final(self).showing,
    {
        self.victory = false;
        self.showing = true;
    }
}

} // verus!
