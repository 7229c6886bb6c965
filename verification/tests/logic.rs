use flashdark::logic::{session_start, LightId, Object, SessionStart, TargetType};

#[test]
fn the_main_menu_resets_the_session() {
    let s = session_start(true, true, true);
    assert_eq!(
        s,
        SessionStart {
            been_inside_house: false,
            intro_seen: false,
            monster_spawned: false,
            fuse_placed: false,
            fuse_spawned: true,
            swing_playing: true,
            tv_noise_playing: true,
            menu_music_playing: true,
            intro_playing: false,
            short_intro: false,
        }
    );
}

#[test]
fn a_first_game_plays_the_intro() {
    let s = session_start(false, false, false);
    assert!(s.intro_playing && !s.short_intro);
    assert!(!s.monster_spawned && !s.fuse_placed && !s.fuse_spawned && !s.swing_playing);
    assert!(!s.tv_noise_playing && !s.menu_music_playing);
}

#[test]
fn a_game_restarted_inside_the_house_resumes_after_the_fuse() {
    let s = session_start(false, true, true);
    assert!(s.been_inside_house && s.monster_spawned && s.fuse_placed && s.fuse_spawned);
    assert!(s.swing_playing && s.short_intro && !s.intro_playing);
}

#[test]
fn shared_types_compare_by_value() {
    assert_eq!(Object::Interactable(3), Object::Interactable(3));
    assert_ne!(Object::Interactable(3), Object::Item(3));
    assert!(LightId(0) < LightId(1));
    assert_ne!(TargetType::Player, TargetType::Rng);
}
