//! What the menus do when the player clicks one of their buttons.
use vstd::prelude::*;

verus! {

/// A button of the main menu or of the settings screen.
#[derive(Debug, PartialEq, Eq, Structural, Hash, Clone, Copy)]
pub enum UiAction {
    /// No button is under the cursor.
    NoAction,
    Settings,
    Exit,
    Play,
    Back,
    ChangeVolume,
    ChangeMouseSens,
    IncDifficulty,
    DecDifficulty,
    Home,
}

/// The part of the game that the menu buttons change directly.
#[derive(Debug, PartialEq, Eq, Structural, Clone, Copy)]
pub struct MenuState {
    /// The settings screen is shown.
    pub in_settings: bool,
    /// The chosen difficulty, an index into the list of difficulties.
    pub difficulty: usize,
}

/// What the game has to do after a menu button was clicked.
#[derive(Debug, PartialEq, Eq, Structural, Clone, Copy)]
pub enum MenuEffect {
    /// Nothing more.
    Nothing,
    /// Leave the game.
    Exit,
    /// Start a new game.
    Play,
    /// Store the settings and give the cursor back to the game or the menu.
    SaveSettings,
    /// Start dragging a slider from the current mouse position.
    StartDrag,
    /// Go back to the main menu.
    Home,
}

/// The difficulty after `d`, wrapping round after the last of `n`.
pub open spec fn next_difficulty(d: int, n: int) -> int {
    (d + 1) % n
}

/// The difficulty before `d`, wrapping round before the first of `n`.
pub open spec fn previous_difficulty(d: int, n: int) -> int {
    (d + n - 1) % n
}

impl MenuState {
    /// Applies a click on `action`, with `difficulty_count` difficulties to choose from.
    pub fn click(&mut self, action: UiAction, difficulty_count: usize) -> (effect: MenuEffect)
        requires
            old(self).difficulty < difficulty_count,
        ensures
            final(self).difficulty < difficulty_count,
            final(self).in_settings == match action {
                UiAction::Settings => true,
                UiAction::Back => false,
                _ => old(self).in_settings,
            },
            final(self).difficulty == match action {
                UiAction::IncDifficulty => next_difficulty(old(self).difficulty as int, difficulty_count as int),
                UiAction::DecDifficulty => previous_difficulty(old(self).difficulty as int, difficulty_count as int),
                _ => old(self).difficulty as int,
            },
            effect == match action {
                UiAction::Exit => MenuEffect::Exit,
                UiAction::Play => MenuEffect::Play,
                UiAction::Back => MenuEffect::SaveSettings,
                UiAction::ChangeVolume => MenuEffect::StartDrag,
                UiAction::ChangeMouseSens => MenuEffect::StartDrag,
                UiAction::Home => MenuEffect::Home,
                _ => MenuEffect::Nothing,
            },
    {
        match action {
            UiAction::Settings => {
                self.in_settings = true;
                MenuEffect::Nothing
            },
            UiAction::Exit => MenuEffect::Exit,
            UiAction::Play => MenuEffect::Play,
            UiAction::Back => {
                self.in_settings = false;
                MenuEffect::SaveSettings
            },
            UiAction::ChangeVolume => MenuEffect::StartDrag,
            UiAction::ChangeMouseSens => MenuEffect::StartDrag,
            UiAction::NoAction => MenuEffect::Nothing,
            UiAction::Home => MenuEffect::Home,
            UiAction::IncDifficulty => {
                proof {
                    lemma_next_difficulty(self.difficulty as int, difficulty_count as int);
                }
                self.difficulty = if self.difficulty + 1 == difficulty_count {
                    0
                } else {
                    self.difficulty + 1
                };
                MenuEffect::Nothing
            },
            UiAction::DecDifficulty => {
                proof {
                    lemma_previous_difficulty(self.difficulty as int, difficulty_count as int);
                }
                self.difficulty = if self.difficulty == 0 {
                    difficulty_count - 1
                } else {
                    self.difficulty - 1
                };
                MenuEffect::Nothing
            },
        }
    }
}

impl MenuState {
    /// The pause key during a game: opens the settings screen, or closes it, in which
    /// case the settings are stored (the result tells whether to store them).
    pub fn toggle_pause(&mut self) -> (save: bool)
        ensures
            final(self).in_settings == !old(self).in_settings,
            final(self).difficulty == old(self).difficulty,
            save == old(self).in_settings,
    {
        self.in_settings = !self.in_settings;
        !self.in_settings
    }
}

proof fn lemma_next_difficulty(d: int, n: int)
    requires
        0 <= d < n,
    ensures
        next_difficulty(d, n) == if d + 1 == n { 0 } else { d + 1 },
{
    if d + 1 == n {
        vstd::arithmetic::div_mod::lemma_mod_self_0(n);
    } else {
        vstd::arithmetic::div_mod::lemma_small_mod((d + 1) as nat, n as nat);
    }
}

proof fn lemma_previous_difficulty(d: int, n: int)
    requires
        0 <= d < n,
    ensures
        previous_difficulty(d, n) == if d == 0 { n - 1 } else { d - 1 },
{
    if d == 0 {
        vstd::arithmetic::div_mod::lemma_small_mod((n - 1) as nat, n as nat);
    } else {
        vstd::arithmetic::div_mod::lemma_mod_add_multiples_vanish(d - 1, n);
        vstd::arithmetic::div_mod::lemma_small_mod((d - 1) as nat, n as nat);
    }
}

/// Raising the difficulty and then lowering it again gives back the difficulty
/// one started from, and so does lowering and then raising it.
pub proof fn lemma_difficulty_round_trip(d: int, n: int)
    requires
        0 <= d < n,
    ensures
        previous_difficulty(next_difficulty(d, n), n) == d,
        next_difficulty(previous_difficulty(d, n), n) == d,
{
    lemma_next_difficulty(d, n);
    lemma_previous_difficulty(d, n);
    lemma_next_difficulty(previous_difficulty(d, n), n);
    lemma_previous_difficulty(next_difficulty(d, n), n);
}

} // verus!
