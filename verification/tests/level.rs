use flashdark::level::{
    is_hidden_mesh, is_left_door, is_prop, is_right_door, prop_kind, spawned_item, take_random, trigger_name,
    PropKind,
};

#[test]
fn hidden_meshes_are_room_outlines_and_holes() {
    assert!(is_hidden_mesh("RDC_Kitchen"));
    assert!(is_hidden_mesh("H_Window1"));
    assert!(!is_hidden_mesh("S_Table"));
    assert!(!is_hidden_mesh("RD_Kitchen"));
}

#[test]
fn trigger_names_drop_their_prefix() {
    assert_eq!(trigger_name("TC_HouseEntrance"), Some("HouseEntrance".to_owned()));
    assert_eq!(trigger_name("TC_"), Some(String::new()));
    assert_eq!(trigger_name("GhostSpawn"), Some("GhostSpawn".to_owned()));
    assert_eq!(trigger_name("GhostSpawn.001"), None);
    assert_eq!(trigger_name("S_Table"), None);
}

#[test]
fn doors_by_hinge_side() {
    assert!(is_right_door("D_DoorMain"));
    assert!(is_right_door("DR_DoorKitchen"));
    assert!(!is_right_door("DL_FenceDoor"));
    assert!(is_left_door("DL_FenceDoor"));
    assert!(!is_left_door("D_DoorMain"));
}

#[test]
fn props_and_their_kinds() {
    assert!(is_prop("I_Drawer1"));
    assert!(is_prop("B_SingingGirl"));
    assert!(!is_prop("B_Tree"));
    assert_eq!(prop_kind("I_StorageButtonIcon12"), PropKind::StorageButton);
    assert_eq!(prop_kind("I_LoosePlank3"), PropKind::LoosePlank);
    assert_eq!(prop_kind("I_BookshelfLibrary2"), PropKind::Bookshelf);
    assert_eq!(prop_kind("I_Drawer1"), PropKind::Drawer);
    assert_eq!(prop_kind("B_SingingGirl"), PropKind::Drawer);
}

#[test]
fn spawned_items_are_cut_at_the_first_dot() {
    assert_eq!(spawned_item("Spawn_Book3.001"), Some("Book3".to_owned()));
    assert_eq!(spawned_item("Spawn_Doll.002.003"), Some("Doll".to_owned()));
    assert_eq!(spawned_item("Spawn_Crowbar"), Some("Crowbar".to_owned()));
    assert_eq!(spawned_item("Spawn_StudyKey.001"), Some("StudyKey.001".to_owned()));
    assert_eq!(spawned_item("Book3.001"), None);
}

#[test]
fn take_random_moves_the_asked_number() {
    let mut pool: Vec<u32> = vec![10, 20, 30, 40, 50, 60];
    let mut chosen: Vec<u32> = vec![1, 2];
    take_random(&mut pool, &mut chosen, 4);
    assert_eq!(pool.len(), 2);
    assert_eq!(chosen.len(), 6);
    assert_eq!(&chosen[..2], &[1, 2]);
    let mut all: Vec<u32> = pool.iter().chain(chosen[2..].iter()).copied().collect();
    all.sort();
    assert_eq!(all, vec![10, 20, 30, 40, 50, 60]);
}

#[test]
fn take_random_can_take_everything_or_nothing() {
    let mut pool: Vec<u32> = vec![7, 8, 9];
    let mut chosen: Vec<u32> = Vec::new();
    take_random(&mut pool, &mut chosen, 0);
    assert_eq!(pool, vec![7, 8, 9]);
    assert!(chosen.is_empty());
    take_random(&mut pool, &mut chosen, 3);
    assert!(pool.is_empty());
    chosen.sort();
    assert_eq!(chosen, vec![7, 8, 9]);
}

#[test]
fn room_outlines_name_their_room() {
    assert_eq!(flashdark::level::room_name("RDC_Kitchen"), Some("Kitchen".to_owned()));
    assert_eq!(flashdark::level::room_name("RD_Kitchen"), None);
}

#[test]
fn study_keys_by_name() {
    assert!(flashdark::level::is_study_key("StudyKey.003"));
    assert!(flashdark::level::is_study_key("TheStudyKeyPuzzleSolution"));
    assert!(!flashdark::level::is_study_key("Book3"));
}
