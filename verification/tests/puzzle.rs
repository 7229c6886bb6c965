use flashdark::puzzle::{
    initial_lock_buttons, lock_opens, lock_setting_other_than, next_symbol, random_lock_combination,
    KeyConfiguration, KeyPuzzleAction, KeyPuzzleEvent, KeyPuzzleState,
};

#[test]
fn key_puzzle_walkthrough() {
    let s = KeyPuzzleState::Begin;
    let (s, a) = s.step(KeyPuzzleEvent::EnterStudy { lights_went_out_before: false });
    assert_eq!((s, a), (KeyPuzzleState::Entered, KeyPuzzleAction::Nothing));
    let (s, a) = s.step(KeyPuzzleEvent::ClickStudyDoor);
    assert_eq!((s, a), (KeyPuzzleState::LightOut, KeyPuzzleAction::LightsOut));
    assert!(s.blocks_interaction());
    let (s, a) = s.step(KeyPuzzleEvent::OpenClosetLock);
    assert_eq!((s, a), (KeyPuzzleState::LightOut, KeyPuzzleAction::Nothing));
    let (s, a) = s.step(KeyPuzzleEvent::ToggleFlashdark);
    assert_eq!((s, a), (KeyPuzzleState::Ready, KeyPuzzleAction::SpawnKeys));
    assert!(!s.study_closet_unlocked());
    let (s, a) = s.step(KeyPuzzleEvent::OpenClosetLock);
    assert_eq!((s, a), (KeyPuzzleState::Finish, KeyPuzzleAction::ClearKeys));
    assert!(s.study_closet_unlocked());
}

#[test]
fn lights_go_out_at_once_when_they_went_out_before() {
    let (s, a) = KeyPuzzleState::Begin.step(KeyPuzzleEvent::EnterStudy { lights_went_out_before: true });
    assert_eq!((s, a), (KeyPuzzleState::LightOut, KeyPuzzleAction::LightsOut));
}

#[test]
fn events_out_of_turn_change_nothing() {
    assert_eq!(
        KeyPuzzleState::Begin.step(KeyPuzzleEvent::ClickStudyDoor),
        (KeyPuzzleState::Begin, KeyPuzzleAction::Nothing)
    );
    assert_eq!(
        KeyPuzzleState::Ready.step(KeyPuzzleEvent::ToggleFlashdark),
        (KeyPuzzleState::Ready, KeyPuzzleAction::Nothing)
    );
    assert_eq!(
        KeyPuzzleState::Finish.step(KeyPuzzleEvent::EnterStudy { lights_went_out_before: true }),
        (KeyPuzzleState::Finish, KeyPuzzleAction::Nothing)
    );
    assert!(!KeyPuzzleState::Ready.blocks_interaction());
}

#[test]
fn random_keys_have_four_colours_and_shapes() {
    for _ in 0..100 {
        let k = KeyConfiguration::random();
        assert!(k.top_color < 4 && k.bottom_color < 4 && k.top_shape < 4 && k.bottom_shape < 4);
    }
}

#[test]
fn lock_setting_skips_the_combination() {
    let comb = [0, 0, 0, 3];
    assert_eq!(lock_setting_other_than(comb, 0), [0, 0, 0, 0]);
    assert_eq!(lock_setting_other_than(comb, 2), [0, 0, 0, 2]);
    assert_eq!(lock_setting_other_than(comb, 3), [0, 0, 1, 0]);
    assert_eq!(lock_setting_other_than(comb, 254), [3, 3, 3, 3]);
    assert_eq!(lock_setting_other_than([3, 3, 3, 3], 254), [3, 3, 3, 2]);
    assert_eq!(lock_setting_other_than([1, 2, 3, 0], 100), [1, 2, 1, 0]);
}

#[test]
fn initial_buttons_never_open_the_lock() {
    for _ in 0..200 {
        let comb = random_lock_combination();
        assert!(comb.iter().all(|&s| s < 4));
        let buttons = initial_lock_buttons(comb);
        assert!(buttons.iter().all(|&s| s < 4));
        assert_ne!(buttons, comb);
        assert!(!lock_opens(buttons, comb));
    }
}

#[test]
fn pressing_cycles_the_symbols() {
    assert_eq!(next_symbol(0), 1);
    assert_eq!(next_symbol(2), 3);
    assert_eq!(next_symbol(3), 0);
    let mut s = 2;
    for _ in 0..4 {
        s = next_symbol(s);
    }
    assert_eq!(s, 2);
}

#[test]
fn lock_opens_on_the_combination_only() {
    assert!(lock_opens([1, 2, 3, 0], [1, 2, 3, 0]));
    assert!(!lock_opens([1, 2, 3, 1], [1, 2, 3, 0]));
    assert!(!lock_opens([0, 2, 3, 0], [1, 2, 3, 0]));
}

#[test]
fn key_corners_show_the_top_and_bottom_marks() {
    let k = KeyConfiguration { top_color: 1, bottom_color: 2, top_shape: 3, bottom_shape: 0 };
    for c in [0, 1, 2, 6, 7, 8] {
        assert_eq!(k.corner_tile(c), (1, 3));
    }
    for c in [3, 4, 5, 9, 10, 11] {
        assert_eq!(k.corner_tile(c), (2, 0));
    }
}

#[test]
fn a_solved_puzzle_stays_solved() {
    for e in [
        KeyPuzzleEvent::EnterStudy { lights_went_out_before: true },
        KeyPuzzleEvent::EnterStudy { lights_went_out_before: false },
        KeyPuzzleEvent::ClickStudyDoor,
        KeyPuzzleEvent::ToggleFlashdark,
        KeyPuzzleEvent::OpenClosetLock,
    ] {
        assert_eq!(KeyPuzzleState::Finish.step(e).0, KeyPuzzleState::Finish);
    }
}

#[test]
fn the_lock_never_starts_open() {
    for _ in 0..50 {
        let c = random_lock_combination();
        assert!(!lock_opens(initial_lock_buttons(c), c));
    }
}
