use flashdark::logic::TargetType;
use flashdark::monster::{other_room, random_room_other_than, walk_reaction, Alert, WalkReaction};

#[test]
fn seeing_the_player_while_calm_makes_it_scream() {
    assert_eq!(
        walk_reaction(TargetType::Rng, TargetType::Player, false, true),
        WalkReaction { rescan: true, alert: Alert::Scream, target_type: TargetType::Player, chase: true }
    );
    assert_eq!(walk_reaction(TargetType::Rng, TargetType::Player, false, false).alert, Alert::Silent);
}

#[test]
fn noises_alarm_it_only_when_the_target_changes() {
    assert_eq!(walk_reaction(TargetType::Rng, TargetType::Noise, false, true).alert, Alert::Alarmed);
    assert_eq!(walk_reaction(TargetType::Noise, TargetType::Noise, false, true).alert, Alert::Silent);
    assert_eq!(walk_reaction(TargetType::Noise, TargetType::Noise, true, true).alert, Alert::Alarmed);
    assert_eq!(walk_reaction(TargetType::Player, TargetType::Flashdark, false, false).alert, Alert::Alarmed);
}

#[test]
fn wandering_never_restarts_the_scan() {
    let r = walk_reaction(TargetType::Player, TargetType::Rng, true, false);
    assert_eq!(r, WalkReaction { rescan: false, alert: Alert::Silent, target_type: TargetType::Rng, chase: false });
}

#[test]
fn other_room_skips_the_current_one() {
    assert_eq!(other_room(4, 2, 0), 0);
    assert_eq!(other_room(4, 2, 1), 1);
    assert_eq!(other_room(4, 2, 2), 3);
    assert_eq!(other_room(2, 0, 0), 1);
}

#[test]
fn random_room_is_never_the_current_one() {
    for _ in 0..50 {
        let r = random_room_other_than(3, 1);
        assert!(r < 3 && r != 1);
    }
    assert_eq!(random_room_other_than(2, 1), 0);
}
