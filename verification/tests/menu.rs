use flashdark::menu::{MenuEffect, MenuState, UiAction};

#[test]
fn difficulty_wraps_round() {
    let mut m = MenuState { in_settings: true, difficulty: 2 };
    assert_eq!(m.click(UiAction::IncDifficulty, 3), MenuEffect::Nothing);
    assert_eq!(m.difficulty, 0);
    m.click(UiAction::DecDifficulty, 3);
    assert_eq!(m.difficulty, 2);
    m.click(UiAction::DecDifficulty, 3);
    assert_eq!(m.difficulty, 1);
    m.click(UiAction::IncDifficulty, 3);
    assert_eq!(m.difficulty, 2);
}

#[test]
fn settings_open_and_close() {
    let mut m = MenuState { in_settings: false, difficulty: 0 };
    assert_eq!(m.click(UiAction::Settings, 3), MenuEffect::Nothing);
    assert!(m.in_settings);
    assert_eq!(m.click(UiAction::Back, 3), MenuEffect::SaveSettings);
    assert!(!m.in_settings);
}

#[test]
fn other_buttons_report_their_effect() {
    let mut m = MenuState { in_settings: false, difficulty: 1 };
    assert_eq!(m.click(UiAction::Exit, 3), MenuEffect::Exit);
    assert_eq!(m.click(UiAction::Play, 3), MenuEffect::Play);
    assert_eq!(m.click(UiAction::Home, 3), MenuEffect::Home);
    assert_eq!(m.click(UiAction::ChangeVolume, 3), MenuEffect::StartDrag);
    assert_eq!(m.click(UiAction::ChangeMouseSens, 3), MenuEffect::StartDrag);
    assert_eq!(m.click(UiAction::NoAction, 3), MenuEffect::Nothing);
    assert_eq!(m, MenuState { in_settings: false, difficulty: 1 });
}

#[test]
fn a_single_difficulty_stays_put() {
    let mut m = MenuState { in_settings: true, difficulty: 0 };
    m.click(UiAction::IncDifficulty, 1);
    assert_eq!(m.difficulty, 0);
    m.click(UiAction::DecDifficulty, 1);
    assert_eq!(m.difficulty, 0);
}

#[test]
fn pause_opens_and_closes_settings() {
    let mut m = MenuState { in_settings: false, difficulty: 2 };
    assert!(!m.toggle_pause());
    assert!(m.in_settings);
    assert!(m.toggle_pause());
    assert_eq!(m, MenuState { in_settings: false, difficulty: 2 });
}
