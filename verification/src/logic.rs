//! Small types shared by the game's update code.
use vstd::prelude::*;

verus! {

/// What the player is looking at.
#[derive(Debug, Clone, Copy, PartialEq, Eq, Structural, Hash)]
pub enum Object {
    /// Part of the house itself, or something that cannot be used right now.
    StaticLevel,
    /// The interactable with this index.
    Interactable(usize),
    /// The item with this index.
    Item(usize),
}

/// The number of a light of the house; light 0 is the player's flashlight.
#[derive(Debug, Clone, Copy, PartialEq, Eq, Structural, Hash, PartialOrd, Ord)]
pub struct LightId(pub u64);

/// Why the ghost is walking where it walks.
#[derive(Clone, Copy, Hash, PartialEq, Eq, Structural, Debug)]
pub enum TargetType {
    /// It saw the player and chases them.
    Player,
    /// It heard a noise.
    Noise,
    /// It noticed the flashlight.
    Flashdark,
    /// It wanders about.
    Rng,
}

/// How a new game starts, given whether it opens on the main menu and what the
/// player did earlier in this session.
#[derive(Debug, Clone, Copy, PartialEq, Eq, Structural, Hash)]
pub struct SessionStart {
    /// The player has been inside the house in this session; the main menu forgets it.
    pub been_inside_house: bool,
    /// The intro was seen in this session; the main menu forgets it.
    pub intro_seen: bool,
    /// The ghost is in the house from the start.
    pub monster_spawned: bool,
    /// The fuse is in place: the player starts holding it and puts it in at once.
    pub fuse_placed: bool,
    /// The fuse needs no more spawning.
    pub fuse_spawned: bool,
    /// The swing creaks from the start.
    pub swing_playing: bool,
    /// The television hisses from the start.
    pub tv_noise_playing: bool,
    /// The menu music plays.
    pub menu_music_playing: bool,
    /// The intro is played with its sound.
    pub intro_playing: bool,
    /// The intro is cut short.
    pub short_intro: bool,
}

/// Decides how a game starts: the main menu resets the session, and a game
/// started after the player has been inside the house resumes with the ghost
/// about and the fuse in place.
pub fn session_start(main_menu: bool, been_inside_house: bool, intro_seen: bool) -> (res: SessionStart)
    ensures
        res.been_inside_house == (been_inside_house && !main_menu),
        res.intro_seen == (intro_seen && !main_menu),
        res.monster_spawned == res.been_inside_house,
        res.fuse_placed == res.been_inside_house,
        res.fuse_spawned == (main_menu || res.been_inside_house),
        res.swing_playing == (main_menu || res.been_inside_house),
        res.tv_noise_playing == main_menu,
        res.menu_music_playing == main_menu,
        res.intro_playing == (!res.intro_seen && !main_menu),
        res.short_intro == res.intro_seen,
{
    let been = been_inside_house && !main_menu;
    let seen = intro_seen && !main_menu;
    SessionStart {
        been_inside_house: been,
        intro_seen: seen,
        monster_spawned: been,
        fuse_placed: been,
        fuse_spawned: main_menu || been,
        swing_playing: main_menu || been,
        tv_noise_playing: main_menu,
        menu_music_playing: main_menu,
        intro_playing: !seen && !main_menu,
        short_intro: seen,
    }
}

} // verus!
