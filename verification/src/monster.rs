//! The ghost's decisions that do not depend on where things are: how it reacts
//! to a new target, and which room it goes to search next.
use vstd::prelude::*;
use crate::logic::TargetType;
use crate::rng::random_index;

verus! {

/// The sound the ghost makes when it turns to a new target.
#[derive(Clone, Copy, PartialEq, Eq, Structural, Debug, Hash)]
pub enum Alert {
    /// No sound.
    Silent,
    /// It screams: it has just seen the player while it was walking calmly.
    Scream,
    /// One of its alarmed sounds: it heard a noise or noticed the flashlight.
    Alarmed,
}

/// What the ghost does when it is sent to a new target.
#[derive(Clone, Copy, PartialEq, Eq, Structural, Debug, Hash)]
pub struct WalkReaction {
    /// The scan timer starts again and the target becomes the place to search around.
    pub rescan: bool,
    /// The sound it makes.
    pub alert: Alert,
    /// Why it walks from now on.
    pub target_type: TargetType,
    /// Its speed is set from the distance to the target, as in a chase.
    pub chase: bool,
}

/// The sound of turning to a target of kind `new`, made only when the target moved
/// or changed kind; a scream only when the ghost was calm.
pub open spec fn alert_spec(current: TargetType, new: TargetType, target_moved: bool, calm: bool) -> Alert {
    if target_moved || new != current {
        match new {
            TargetType::Player => if calm { Alert::Scream } else { Alert::Silent },
            TargetType::Noise => Alert::Alarmed,
            TargetType::Flashdark => Alert::Alarmed,
            TargetType::Rng => Alert::Silent,
        }
    } else {
        Alert::Silent
    }
}

/// When the ghost makes a sound: only when its target moved or changed kind. It
/// then sounds alarmed for a noise or the flashlight whatever its speed, screams on
/// seeing the player only while it was calm (and stays silent when already
/// chasing), and stays silent when it goes wandering.
pub proof fn lemma_alerts(current: TargetType, new: TargetType, target_moved: bool, calm: bool)
    ensures
        (alert_spec(current, new, target_moved, calm) == Alert::Alarmed) == ((target_moved || new != current) && (
        new == TargetType::Noise || new == TargetType::Flashdark)),
        (alert_spec(current, new, target_moved, calm) == Alert::Scream) == ((target_moved || new != current) && new
            == TargetType::Player && calm),
        !target_moved && new == current ==> alert_spec(current, new, target_moved, calm) == Alert::Silent,
        new == TargetType::Rng ==> alert_spec(current, new, target_moved, calm) == Alert::Silent,
        new != TargetType::Player ==> alert_spec(current, new, target_moved, true) == alert_spec(
            current,
            new,
            target_moved,
            false,
        ),
{
}

/// How the ghost, walking for reason `current`, reacts to being sent somewhere for
/// reason `new`; `target_moved` tells whether the new target is more than half a
/// unit from the old one, and `calm` whether the ghost walks at its normal speed.
pub fn walk_reaction(current: TargetType, new: TargetType, target_moved: bool, calm: bool) -> (res: WalkReaction)
    ensures
        res.rescan == (new != TargetType::Rng),
        res.alert == alert_spec(current, new, target_moved, calm),
        res.target_type == new,
        res.chase == (new == TargetType::Player),
        (res.alert == Alert::Alarmed) == ((target_moved || new != current) && (new == TargetType::Noise || new
            == TargetType::Flashdark)),
        (res.alert == Alert::Scream) == ((target_moved || new != current) && new == TargetType::Player && calm),
        !target_moved && new == current ==> res.alert == Alert::Silent,
{
    proof {
        lemma_alerts(current, new, target_moved, calm);
    }
    let alert = if target_moved || new != current {
        match new {
            TargetType::Player => if calm {
                Alert::Scream
            } else {
                Alert::Silent
            },
            TargetType::Noise => Alert::Alarmed,
            TargetType::Flashdark => Alert::Alarmed,
            TargetType::Rng => Alert::Silent,
        }
    } else {
        Alert::Silent
    };
    WalkReaction {
        rescan: new != TargetType::Rng,
        alert,
        target_type: new,
        chase: new == TargetType::Player,
    }
}

/// The `draw`-th of the rooms other than `current`, counted in order.
pub fn other_room(room_count: usize, current: usize, draw: usize) -> (res: usize)
    requires
        current < room_count,
        draw + 1 < room_count,
    ensures
        res < room_count,
        res != current,
        res == if draw < current { draw as int } else { draw + 1 },
{
    if draw < current {
        draw
    } else {
        draw + 1
    }
}

/// The room the ghost searches next: drawn at random among the rooms other than
/// the one it is in, all equally likely.
pub fn random_room_other_than(room_count: usize, current: usize) -> (res: usize)
    requires
        2 <= room_count,
        current < room_count,
    ensures
        res < room_count,
        res != current,
{
    let draw = random_index(room_count - 1);
    other_room(room_count, current, draw)
}

} // verus!
