use flashdark::interact::{
    click_sound, count_by_prefix, dropped_mesh_index, ghost_may_open, is_lamp, is_solid, keeps_interactable,
    library_progress_tenths, lock_setting_from_names, may_use, motion, player_may_click, spawns_at_start,
    pressed_button_name, storage_button, configured_sound, ClickSound, ConfiguredSound, Motion,
};
use flashdark::puzzle::KeyPuzzleState;

fn names(v: &[&str]) -> Vec<String> {
    v.iter().map(|s| s.to_string()).collect()
}

#[test]
fn items_needed_to_use_things() {
    assert!(may_use("I_Drawer", None, false, None));
    assert!(may_use("I_Box", Some("Key"), true, Some("Key")));
    assert!(!may_use("I_Box", Some("Key"), true, Some("Crowbar")));
    assert!(!may_use("I_Box", Some("Key"), false, Some("Key")));
    assert!(!may_use("I_Box", Some("Key"), true, None));
    assert!(may_use("I_LoosePlank2", None, true, Some("Crowbar")));
    assert!(!may_use("I_LoosePlank2", Some("Key"), true, Some("Key")));
    assert!(!may_use("I_LoosePlank2", None, false, Some("Crowbar")));
}

#[test]
fn click_sounds() {
    assert_eq!(click_sound("D_DoorMain", true, false), ClickSound::Configured);
    assert_eq!(click_sound("I_LoosePlank1", false, false), ClickSound::PlankRemoval);
    assert_eq!(click_sound("I_StorageButtonIcon11", false, true), ClickSound::SymbolsButton);
    assert_eq!(click_sound("D_DoorMain", false, true), ClickSound::DoorClose);
    assert_eq!(click_sound("DL_FenceDoor", false, false), ClickSound::DoorOpen);
    assert_eq!(click_sound("I_Drawer", false, true), ClickSound::DrawerClose);
    assert_eq!(click_sound("I_Drawer", false, false), ClickSound::DrawerOpen);
    assert_eq!(click_sound("B_SingingGirl", false, true), ClickSound::DrawerOpen);
}

#[test]
fn when_the_ghost_may_open_a_door() {
    assert!(ghost_may_open("D_DoorKitchen", false, false, false, KeyPuzzleState::Begin));
    assert!(!ghost_may_open("D_DoorKitchen", true, true, true, KeyPuzzleState::Finish));
    assert!(!ghost_may_open("D_DoorStudy", false, false, false, KeyPuzzleState::Begin));
    assert!(ghost_may_open("D_DoorStudy", false, true, false, KeyPuzzleState::Begin));
    assert!(!ghost_may_open("D_DoorStorage", false, true, false, KeyPuzzleState::Begin));
    assert!(ghost_may_open("D_DoorStorage", false, true, true, KeyPuzzleState::Begin));
    assert!(!ghost_may_open("DL_S_StudyCloset", false, true, true, KeyPuzzleState::Ready));
    assert!(ghost_may_open("DL_S_StudyCloset", false, true, true, KeyPuzzleState::Finish));
}

#[test]
fn when_the_player_may_click() {
    assert!(player_may_click("I_Drawer", false, false, KeyPuzzleState::Begin));
    assert!(!player_may_click("I_Drawer", true, false, KeyPuzzleState::Begin));
    assert!(!player_may_click("D_DoorStudy", false, false, KeyPuzzleState::LightOut));
    assert!(player_may_click("D_DoorStudy", false, false, KeyPuzzleState::Ready));
    assert!(!player_may_click("D_DoorStorage", false, false, KeyPuzzleState::Begin));
    assert!(!player_may_click("DL_S_StudyCloset", false, true, KeyPuzzleState::Entered));
}

#[test]
fn motions_and_level_meshes() {
    assert_eq!(motion("DL_FenceDoor"), Motion::Gate);
    assert_eq!(motion("D_DoorMain"), Motion::Door);
    assert_eq!(motion("I_Drawer"), Motion::Drawer);
    assert!(!is_solid("B_SmallGrass3"));
    assert!(!is_solid("B_TallGrass"));
    assert!(!is_solid("B_Tree2"));
    assert!(is_solid("S_Wall"));
    assert!(is_lamp("S_CeilingLight.001"));
    assert!(!is_lamp("S_Lamp"));
}

#[test]
fn items_in_the_house_from_the_start() {
    assert!(spawns_at_start("Book1"));
    assert!(spawns_at_start("Crowbar"));
    assert!(!spawns_at_start("Fuse"));
    assert!(!spawns_at_start("StudyKey.003"));
    assert!(!spawns_at_start("Book5"));
    assert_eq!(dropped_mesh_index("Doll"), 1000);
    assert_eq!(dropped_mesh_index("Book1"), 0);
}

#[test]
fn library_closet_slides_a_tenth_per_shelf() {
    assert_eq!(library_progress_tenths(0), 0);
    assert_eq!(library_progress_tenths(3), 3);
    assert_eq!(library_progress_tenths(4), 4);
    assert_eq!(library_progress_tenths(5), 10);
}

#[test]
fn storage_button_names() {
    assert_eq!(storage_button("I_StorageButtonIcon12"), Some((0, 2)));
    assert_eq!(storage_button("I_StorageButtonIcon43.001"), Some((3, 3)));
    assert_eq!(storage_button("I_StorageButtonIcon02"), None);
    assert_eq!(storage_button("I_StorageButtonIcon1"), None);
    assert_eq!(storage_button("I_StorageButtonIconA2"), None);
    assert_eq!(storage_button("I_Drawer12"), None);
}

#[test]
fn lock_setting_is_read_from_the_first_of_each_button() {
    let ns = names(&[
        "I_Drawer",
        "I_StorageButtonIcon23",
        "I_StorageButtonIcon10",
        "I_StorageButtonIcon11",
        "I_StorageButtonIcon32",
        "I_StorageButtonIcon41",
    ]);
    assert_eq!(lock_setting_from_names(&ns), Some([0, 3, 2, 1]));
    let missing = names(&["I_StorageButtonIcon10", "I_StorageButtonIcon23", "I_StorageButtonIcon41"]);
    assert_eq!(lock_setting_from_names(&missing), None);
    assert_eq!(lock_setting_from_names(&Vec::new()), None);
}

#[test]
fn counting_open_interactables_by_prefix() {
    let ns = names(&["I_BookshelfLibrary1", "I_Drawer", "I_BookshelfLibrary2", "I_BookshelfLibrary3"]);
    let open = vec![true, true, false, true];
    assert_eq!(count_by_prefix(&ns, &open, "I_BookshelfLibrary"), (3, 2));
    assert_eq!(count_by_prefix(&ns, &open, "D_"), (0, 0));
    assert_eq!(count_by_prefix(&Vec::new(), &Vec::new(), "I_"), (0, 0));
}

#[test]
fn which_interactables_start_in_the_house() {
    let buttons = [1, 0, 3, 2];
    assert!(keeps_interactable("I_Drawer", buttons, false));
    assert!(!keeps_interactable("I_Drawer", buttons, true));
    assert!(!keeps_interactable("I_HintKey", buttons, false));
    assert!(keeps_interactable("I_StorageButtonIcon11", buttons, false));
    assert!(!keeps_interactable("I_StorageButtonIcon12", buttons, false));
    assert!(keeps_interactable("I_StorageButtonIcon42", buttons, false));
    assert!(!keeps_interactable("I_StorageButtonIcon43", buttons, false));
    assert!(!keeps_interactable("I_StorageButtonIcon42", buttons, true));
}

#[test]
fn configured_sounds_by_file() {
    assert_eq!(configured_sound("placeObject.mp3"), Some(ConfiguredSound::PlaceObject));
    assert_eq!(configured_sound("doorLocked.mp3"), Some(ConfiguredSound::DoorLocked));
    assert_eq!(configured_sound("doorUnlocked.mp3"), Some(ConfiguredSound::DoorUnlocked));
    assert_eq!(configured_sound("fusePlaced.mp3"), Some(ConfiguredSound::FusePlaced));
    assert_eq!(configured_sound("curtainsOpen.mp3"), Some(ConfiguredSound::CurtainsOpen));
    assert_eq!(configured_sound("curtainsClose.mp3"), Some(ConfiguredSound::CurtainsClose));
    assert_eq!(configured_sound("doorOpen.mp3"), None);
}

#[test]
fn pressing_a_button_shows_the_next_symbol() {
    assert_eq!(pressed_button_name("I_StorageButtonIcon10"), Some("I_StorageButtonIcon11".to_owned()));
    assert_eq!(pressed_button_name("I_StorageButtonIcon23"), Some("I_StorageButtonIcon20".to_owned()));
    assert_eq!(pressed_button_name("I_Drawer"), None);
}

#[test]
fn four_presses_bring_a_button_back() {
    let mut name = "I_StorageButtonIcon32".to_owned();
    for _ in 0..4 {
        name = pressed_button_name(&name).unwrap();
    }
    assert_eq!(name, "I_StorageButtonIcon32");
}
